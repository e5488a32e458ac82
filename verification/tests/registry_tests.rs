use app_assembly::registry::StageRegistry;
use app_assembly::work::{UnitKind, WorkUnit};

fn unit(id: u64) -> WorkUnit {
    WorkUnit { id }
}

#[test]
fn stage_order_is_first_seen_across_kinds() {
    let mut reg = StageRegistry::new();
    reg.register("render", unit(1), UnitKind::Parallel);
    reg.register("update", unit(2), UnitKind::Exclusive);
    reg.register("render", unit(3), UnitKind::Exclusive);
    reg.register("update", unit(4), UnitKind::Parallel);
    reg.register("cleanup", unit(5), UnitKind::Parallel);
    reg.register("render", unit(6), UnitKind::Parallel);

    let drained = reg.drain_in_order();
    let names: Vec<&str> = drained.iter().map(|e| e.name.as_str()).collect();
    assert_eq!(names, vec!["render", "update", "cleanup"]);
}

#[test]
fn reregistration_extends_lists_in_order() {
    let mut reg = StageRegistry::new();
    reg.register("a", unit(1), UnitKind::Parallel);
    reg.register("a", unit(2), UnitKind::Parallel);
    reg.register("a", unit(3), UnitKind::Exclusive);

    let drained = reg.drain_in_order();
    assert_eq!(drained.len(), 1);
    assert_eq!(drained[0].name, "a");
    assert_eq!(drained[0].parallel, vec![unit(1), unit(2)]);
    assert_eq!(drained[0].exclusive, vec![unit(3)]);
}

#[test]
fn exclusive_first_fixes_position() {
    let mut reg = StageRegistry::new();
    reg.register("late", unit(1), UnitKind::Exclusive);
    reg.register("early", unit(2), UnitKind::Parallel);
    reg.register("late", unit(3), UnitKind::Parallel);

    let drained = reg.drain_in_order();
    let names: Vec<&str> = drained.iter().map(|e| e.name.as_str()).collect();
    assert_eq!(names, vec!["late", "early"]);
    assert_eq!(drained[0].parallel, vec![unit(3)]);
    assert_eq!(drained[0].exclusive, vec![unit(1)]);
}

#[test]
fn stage_order_readable_before_drain() {
    let mut reg = StageRegistry::new();
    reg.register("b", unit(1), UnitKind::Exclusive);
    reg.register("a", unit(2), UnitKind::Parallel);
    reg.register("b", unit(3), UnitKind::Parallel);
    assert_eq!(reg.stage_order(), vec!["b".to_string(), "a".to_string()]);
    let _ = reg.drain_in_order();
    assert!(reg.stage_order().is_empty());
}

#[test]
fn drain_twice_yields_empty() {
    let mut reg = StageRegistry::new();
    reg.register("a", unit(1), UnitKind::Parallel);
    reg.register("b", unit(2), UnitKind::Exclusive);

    let first = reg.drain_in_order();
    assert_eq!(first.len(), 2);
    let second = reg.drain_in_order();
    assert!(second.is_empty());
}

#[test]
fn registry_usable_again_after_drain() {
    let mut reg = StageRegistry::new();
    reg.register("a", unit(1), UnitKind::Parallel);
    let _ = reg.drain_in_order();
    reg.register("b", unit(2), UnitKind::Parallel);
    let drained = reg.drain_in_order();
    assert_eq!(drained.len(), 1);
    assert_eq!(drained[0].name, "b");
}
