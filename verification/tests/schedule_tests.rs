use app_assembly::registry::{StageEntry, StageRegistry};
use app_assembly::schedule::{build_schedules, Step};
use app_assembly::work::{UnitKind, WorkUnit};

fn unit(id: u64) -> WorkUnit {
    WorkUnit { id }
}

/// Walk a compiled schedule the way the executor collaborator would:
/// everything between two barriers may interleave, but each barrier
/// completes all earlier steps before any later one starts. Appends each
/// unit's id to the log in execution-candidacy order.
fn execute(steps: &[Step], log: &mut Vec<u64>) {
    for step in steps {
        match step {
            Step::Parallel(u) => log.push(u.id),
            Step::Exclusive(u) => log.push(u.id),
            Step::Barrier => {}
        }
    }
}

#[test]
fn two_stages_two_barriers_in_stage_order() {
    let mut reg = StageRegistry::new();
    reg.register("A", unit(1), UnitKind::Parallel);
    reg.register("B", unit(2), UnitKind::Parallel);
    let (_, main) = build_schedules(Vec::new(), reg.drain_in_order());

    assert_eq!(
        main,
        vec![
            Step::Parallel(unit(1)),
            Step::Barrier,
            Step::Parallel(unit(2)),
            Step::Barrier,
        ]
    );
    let barriers = main.iter().filter(|s| **s == Step::Barrier).count();
    assert_eq!(barriers, 2);

    // The unit of stage B is separated from the unit of stage A by a
    // barrier, so the observable log order is [A's unit, B's unit].
    let mut log = Vec::new();
    execute(&main, &mut log);
    assert_eq!(log, vec![1, 2]);
}

#[test]
fn exclusive_only_stage_still_gets_barrier() {
    let mut reg = StageRegistry::new();
    reg.register("pinned", unit(7), UnitKind::Exclusive);
    reg.register("after", unit(8), UnitKind::Parallel);
    let (_, main) = build_schedules(Vec::new(), reg.drain_in_order());

    // The barrier stands immediately after the exclusive unit, before the
    // following stage's unit.
    assert_eq!(
        main,
        vec![
            Step::Exclusive(unit(7)),
            Step::Barrier,
            Step::Parallel(unit(8)),
            Step::Barrier,
        ]
    );
}

#[test]
fn stage_with_no_units_still_contributes_barrier() {
    let staged = vec![StageEntry {
        name: String::from("empty"),
        parallel: Vec::new(),
        exclusive: Vec::new(),
    }];
    let (_, main) = build_schedules(Vec::new(), staged);
    assert_eq!(main, vec![Step::Barrier]);
}

#[test]
fn unit_order_within_stage_and_kind_is_preserved() {
    let mut reg = StageRegistry::new();
    reg.register("s", unit(1), UnitKind::Parallel);
    reg.register("s", unit(2), UnitKind::Parallel);
    reg.register("s", unit(3), UnitKind::Exclusive);
    reg.register("s", unit(4), UnitKind::Exclusive);
    let (_, main) = build_schedules(Vec::new(), reg.drain_in_order());

    assert_eq!(
        main,
        vec![
            Step::Parallel(unit(1)),
            Step::Parallel(unit(2)),
            Step::Exclusive(unit(3)),
            Step::Exclusive(unit(4)),
            Step::Barrier,
        ]
    );
}

#[test]
fn setup_units_pass_through_unchanged() {
    let setup = vec![unit(10), unit(11)];
    let (batch, main) = build_schedules(setup.clone(), Vec::new());
    assert_eq!(batch, setup);
    assert!(main.is_empty());
}

#[test]
fn unit_count_is_conserved() {
    let mut reg = StageRegistry::new();
    reg.register("a", unit(1), UnitKind::Parallel);
    reg.register("b", unit(2), UnitKind::Exclusive);
    reg.register("a", unit(3), UnitKind::Exclusive);
    reg.register("c", unit(4), UnitKind::Parallel);
    let (_, main) = build_schedules(Vec::new(), reg.drain_in_order());
    let units = main
        .iter()
        .filter(|s| !matches!(s, Step::Barrier))
        .count();
    assert_eq!(units, 4);
}
