//! Work units: opaque, schedulable actions identified by a plain handle.
//! The scheduler never inspects a unit's behaviour; it only moves units
//! between collections, so a unit is represented by the identifier under
//! which its caller registered the action it stands for.

use vstd::prelude::*;

verus! {

/// One schedulable action. The `id` is the caller's handle to the actual
/// routine; the scheduler only groups and orders units, never runs them.
#[derive(Clone, Copy, Debug, PartialEq, Eq, Structural)]
pub struct WorkUnit {
    pub id: u64,
}

/// The two kinds of work a stage can hold: world-mutating units that may
/// run concurrently with non-conflicting units, and exclusive units that
/// run alone on a designated thread.
#[derive(Clone, Copy, Debug, PartialEq, Eq, Structural)]
pub enum UnitKind {
    Parallel,
    Exclusive,
}

} // verus!
