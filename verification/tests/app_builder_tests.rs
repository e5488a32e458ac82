use app_assembly::app_builder::{AppBuilder, ProgrammingError};
use app_assembly::schedule::Step;
use app_assembly::work::WorkUnit;
use app_assembly::world::{Renderer, World};

fn unit(id: u64) -> WorkUnit {
    WorkUnit { id }
}

#[test]
fn build_twice_fails_fast_with_programming_error() {
    let mut builder = AppBuilder::new();
    builder.add_system(unit(1));

    let first = builder.build();
    assert!(first.is_ok());
    let app = first.unwrap_or_else(|_| unreachable!());
    assert_eq!(app.schedule.len(), 2);

    let second = builder.build();
    assert_eq!(second.err(), Some(ProgrammingError::DoubleBuild));
}

#[test]
fn setup_batch_completes_before_first_barrier() {
    let mut builder = AppBuilder::new();
    // The setup unit increments the shared counter to 1; the unit of the
    // first stage asserts the counter is already 1 before proceeding.
    builder.add_setup_system(unit(100));
    builder.add_system_to_stage("A", unit(1));
    let app = builder.build().unwrap_or_else(|_| unreachable!());

    let mut counter: u64 = 0;
    for setup_unit in &app.setup_schedule {
        assert_eq!(setup_unit.id, 100);
        counter += 1;
    }
    for step in &app.schedule {
        match step {
            Step::Parallel(u) if u.id == 1 => {
                assert_eq!(counter, 1, "stage A unit ran before setup completed");
            }
            _ => {}
        }
    }
    assert_eq!(counter, 1);
}

#[test]
fn add_system_registers_into_update_stage() {
    let mut builder = AppBuilder::new();
    builder.add_system(unit(1));
    builder.add_system_to_stage("update", unit(2));
    let app = builder.build().unwrap_or_else(|_| unreachable!());

    // Both units fall into the single "update" stage: one barrier.
    assert_eq!(
        app.schedule,
        vec![Step::Parallel(unit(1)), Step::Parallel(unit(2)), Step::Barrier]
    );
}

#[test]
fn built_app_carries_slots_and_render_graph() {
    let mut builder = AppBuilder::new();
    builder.renderer = Some(Renderer { id: 5 });
    let ok = builder.setup_render_graph(|mut b| {
        b.add_draw_target("main", 9);
        b
    });
    assert!(ok.is_ok());
    let app = builder.build().unwrap_or_else(|_| unreachable!());

    assert_eq!(app.world.id, 0);
    assert_eq!(app.universe.worlds_created, 1);
    assert_eq!(app.renderer, Some(Renderer { id: 5 }));
    let graph = app.resources.render_graph.as_ref().unwrap_or_else(|| unreachable!());
    assert_eq!(graph.draw_target("main"), Some(9));
}

#[test]
fn with_world_replaces_world_slot() {
    let mut builder = AppBuilder::new();
    builder.with_world(World { id: 42 });
    let app = builder.build().unwrap_or_else(|_| unreachable!());
    assert_eq!(app.world.id, 42);
}

#[test]
fn setup_world_hands_slots_through() {
    let mut builder = AppBuilder::new();
    let ok = builder.setup_world(|_world, resources| (World { id: 7 }, resources));
    assert!(ok.is_ok());
    let app = builder.build().unwrap_or_else(|_| unreachable!());
    assert_eq!(app.world.id, 7);
}

#[test]
fn setup_world_after_build_fails_fast() {
    let mut builder = AppBuilder::new();
    let _ = builder.build();
    let res = builder.setup_world(|world, resources| (world, resources));
    assert_eq!(res.err(), Some(ProgrammingError::WorldConsumed));
}

#[test]
fn setup_render_graph_after_build_fails_fast() {
    let mut builder = AppBuilder::new();
    let _ = builder.build();
    let res = builder.setup_render_graph(|b| b);
    assert_eq!(res.err(), Some(ProgrammingError::GraphConsumed));
}

#[test]
fn setup_render_graph_accumulates_across_calls() {
    let mut builder = AppBuilder::new();
    let _ = builder.setup_render_graph(|mut b| {
        b.add_resource_provider("camera", 1);
        b
    });
    let _ = builder.setup_render_graph(|mut b| {
        b.add_resource_provider("light", 2);
        b
    });
    let app = builder.build().unwrap_or_else(|_| unreachable!());
    let graph = app.resources.render_graph.as_ref().unwrap_or_else(|| unreachable!());
    assert_eq!(graph.resource_provider("camera"), Some(1));
    assert_eq!(graph.resource_provider("light"), Some(2));
}

#[test]
fn empty_builder_compiles_empty_schedules() {
    let mut builder = AppBuilder::new();
    let app = builder.build().unwrap_or_else(|_| unreachable!());
    assert!(app.setup_schedule.is_empty());
    assert!(app.schedule.is_empty());
}
