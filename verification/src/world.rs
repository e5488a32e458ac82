//! Models of the external collaborators at their interface boundary: the
//! entity/component world, the typed resource table, the universe that
//! creates worlds, and the renderer handle. The scheduler treats each as
//! an opaque value it only owns and moves; a handle identifies the real
//! collaborator object that lives with the caller.

use vstd::prelude::*;

use crate::graph::RenderGraph;

verus! {

/// Creates worlds; each world it creates gets the next fresh identifier.
pub struct Universe {
    pub worlds_created: u64,
}

/// An opaque entity/component store, identified by the universe that
/// created it.
pub struct World {
    pub id: u64,
}

/// The shared resource table. The assembly core interprets exactly one
/// slot of it: the finalized render graph it inserts at build time.
pub struct Resources {
    pub render_graph: Option<RenderGraph>,
}

/// Handle to the renderer collaborator that will consume the finalized
/// render graph once per frame.
#[derive(Clone, Copy, Debug, PartialEq, Eq, Structural)]
pub struct Renderer {
    pub id: u64,
}

impl Universe {
    /// A fresh universe that has created no world yet.
    pub fn new() -> (r: Universe)
        ensures
            r.worlds_created == 0,
    {
        Universe { worlds_created: 0 }
    }

    /// Create a world bearing the next fresh identifier.
    pub fn create_world(&mut self) -> (w: World)
        requires
            old(self).worlds_created < u64::MAX,
        ensures
            w.id == old(self).worlds_created,
            final(self).worlds_created == old(self).worlds_created + 1,
    {
        let w = World { id: self.worlds_created };
        self.worlds_created = self.worlds_created + 1;
        w
    }
}

impl Resources {
    /// An empty resource table, holding no render graph yet.
    pub fn new() -> (r: Resources)
        ensures
            r.render_graph is None,
    {
        Resources { render_graph: None }
    }

    /// Insert the finalized render graph; an earlier graph is replaced.
    pub fn insert_render_graph(&mut self, graph: RenderGraph)
        ensures
            final(self).render_graph == Some(graph),
    {
        self.render_graph = Some(graph);
    }
}

} // verus!
