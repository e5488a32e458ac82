//! Staged application assembly: collects independently registered work
//! units into named stages, compiles them into a one-shot setup schedule
//! and a repeating per-frame schedule with barriers between stages, and
//! merges named fragments into an immutable render graph.

pub mod app_builder;
pub mod graph;
pub mod registry;
pub mod schedule;
pub mod work;
pub mod world;
