use app_assembly::graph::RenderGraph;

#[test]
fn resource_provider_last_write_wins() {
    let mut builder = RenderGraph::default().build();
    builder.add_resource_provider("light", 10);
    builder.add_resource_provider("light", 20);
    let graph = builder.finish();

    // Exactly one entry for "light", equal to the second routine.
    assert_eq!(graph.resource_provider("light"), Some(20));
    assert_eq!(graph.resource_provider_count(), 1);
}

#[test]
fn overwrite_touches_no_other_entry() {
    let mut builder = RenderGraph::default().build();
    builder.add_resource_provider("camera", 1);
    builder.add_resource_provider("light", 2);
    builder.add_resource_provider("camera", 3);
    let graph = builder.finish();

    assert_eq!(graph.resource_provider("camera"), Some(3));
    assert_eq!(graph.resource_provider("light"), Some(2));
    assert_eq!(graph.resource_provider_count(), 2);
}

#[test]
fn draw_targets_and_providers_are_independent() {
    let mut builder = RenderGraph::default().build();
    builder.add_draw_target("main", 1);
    builder.add_resource_provider("main", 2);
    let graph = builder.finish();

    assert_eq!(graph.draw_target("main"), Some(1));
    assert_eq!(graph.resource_provider("main"), Some(2));
    assert_eq!(graph.draw_target_count(), 1);
    assert_eq!(graph.resource_provider_count(), 1);
}

#[test]
fn missing_name_yields_none() {
    let graph = RenderGraph::default();
    assert_eq!(graph.draw_target("absent"), None);
    assert_eq!(graph.resource_provider("absent"), None);
}

#[test]
fn reopened_graph_keeps_fragments() {
    let mut builder = RenderGraph::default().build();
    builder.add_draw_target("meshes", 4);
    let graph = builder.finish();

    let mut builder = graph.build();
    builder.add_draw_target("ui", 5);
    let graph = builder.finish();

    assert_eq!(graph.draw_target("meshes"), Some(4));
    assert_eq!(graph.draw_target("ui"), Some(5));
    assert_eq!(graph.draw_target_count(), 2);
}
