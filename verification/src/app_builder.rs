//! Application assembly root: owns the world, the resource table, the
//! stage registry, the setup collector and the render-graph builder during
//! configuration, and consumes them exactly once on `build`. Every owned
//! collaborator sits in an `Option` slot, so taking one twice is a
//! detectable, reported error rather than silently corrupt output.

use vstd::prelude::*;

use crate::graph::{RenderGraph, RenderGraphBuilder};
use crate::registry::{register_spec, StageRegistry, StageView};
use crate::schedule::{build_schedules, compile, Step};
use crate::work::{UnitKind, WorkUnit};
use crate::world::{Renderer, Resources, Universe, World};

verus! {

/// Misuse of the one-shot ownership-transfer contract: a slot was taken a
/// second time. Construction aborts; nothing partial is produced.
#[derive(Clone, Copy, Debug, PartialEq, Eq, Structural)]
pub enum ProgrammingError {
    /// `build` on an assembly root whose required slots were already taken.
    DoubleBuild,
    /// Reopening the render graph after its slot was already consumed.
    GraphConsumed,
    /// Touching the world or resources after their slots were consumed.
    WorldConsumed,
}

/// The built application: everything the run loop needs, produced exactly
/// once. The setup batch runs to completion before the first iteration of
/// the main schedule.
pub struct App {
    pub universe: Universe,
    pub world: World,
    pub setup_schedule: Vec<WorkUnit>,
    pub schedule: Vec<Step>,
    pub resources: Resources,
    pub renderer: Option<Renderer>,
}

/// Name of the default stage that `add_system` registers into.
pub open spec fn update_stage_name() -> Seq<char> {
    "update"@
}

/// The default stage for world-mutating systems.
pub fn update_stage() -> (r: &'static str)
    ensures
        r@ == update_stage_name(),
{
    "update"
}

/// The assembly root in its configuring state.
pub struct AppBuilder {
    pub universe: Option<Universe>,
    pub world: Option<World>,
    pub resources: Option<Resources>,
    pub renderer: Option<Renderer>,
    pub render_graph: Option<RenderGraph>,
    pub setup_systems: Vec<WorkUnit>,
    pub registry: StageRegistry,
}

impl AppBuilder {
    /// All slots that `build` takes are still present.
    pub open spec fn slots_present(&self) -> bool {
        &&& self.universe is Some
        &&& self.world is Some
        &&& self.resources is Some
        &&& self.render_graph is Some
    }

    /// The slots of `self` and `other` hold the same values.
    pub open spec fn same_slots(&self, other: &AppBuilder) -> bool {
        &&& self.universe == other.universe
        &&& self.world == other.world
        &&& self.resources == other.resources
        &&& self.renderer == other.renderer
        &&& self.render_graph == other.render_graph
    }

    /// A fresh assembly root: a new universe with one world created in it,
    /// an empty resource table, an empty render graph, no renderer, and no
    /// registered work.
    pub fn new() -> (r: AppBuilder)
        ensures
            r.slots_present(),
            r.universe.unwrap().worlds_created == 1,
            r.world.unwrap().id == 0,
            r.resources.unwrap().render_graph is None,
            r.render_graph.unwrap()@.draw_targets == Seq::<(Seq<char>, u64)>::empty(),
            r.render_graph.unwrap()@.resource_providers == Seq::<(Seq<char>, u64)>::empty(),
            r.renderer is None,
            r.setup_systems@ == Seq::<WorkUnit>::empty(),
            r.registry@ == Seq::<StageView>::empty(),
    {
        let mut universe = Universe::new();
        let world = universe.create_world();
        let resources = Resources::new();
        AppBuilder {
            universe: Some(universe),
            world: Some(world),
            resources: Some(resources),
            renderer: None,
            render_graph: Some(RenderGraph::default()),
            setup_systems: Vec::new(),
            registry: StageRegistry::new(),
        }
    }

    /// Consume the configuration into the built application: the setup
    /// collector becomes the one-shot setup batch, the drained stage
    /// registry is compiled into the barrier-separated main schedule, the
    /// finalized render graph is inserted into the resource table, and
    /// every slot is moved into the result. Succeeds exactly when the
    /// required slots are still present, so a second `build` fails fast
    /// with `ProgrammingError::DoubleBuild` and changes nothing.
    pub fn build(&mut self) -> (r: Result<App, ProgrammingError>)
        ensures
            r is Ok <==> old(self).slots_present(),
            old(self).slots_present() ==> ({
                let app = r->Ok_0;
                &&& app.universe == old(self).universe.unwrap()
                &&& app.world == old(self).world.unwrap()
                &&& app.setup_schedule@ == old(self).setup_systems@
                &&& app.schedule@ == compile(old(self).registry@)
                &&& app.resources.render_graph == Some(old(self).render_graph.unwrap())
                &&& app.renderer == old(self).renderer
                &&& !final(self).slots_present()
                &&& final(self).universe is None
                &&& final(self).world is None
                &&& final(self).resources is None
                &&& final(self).renderer is None
                &&& final(self).render_graph is None
                &&& final(self).setup_systems@ == Seq::<WorkUnit>::empty()
                &&& final(self).registry@ == Seq::<StageView>::empty()
            }),
            !old(self).slots_present() ==> {
                &&& r->Err_0 == ProgrammingError::DoubleBuild
                &&& *final(self) == *old(self)
            },
    {
        if self.universe.is_none() || self.world.is_none() || self.resources.is_none()
            || self.render_graph.is_none() {
            return Err(ProgrammingError::DoubleBuild);
        }
        let universe = self.universe.take().unwrap();
        let world = self.world.take().unwrap();
        let mut setup_units: Vec<WorkUnit> = Vec::new();
        core::mem::swap(&mut setup_units, &mut self.setup_systems);
        let staged = self.registry.drain_in_order();
        let (setup_schedule, schedule) = build_schedules(setup_units, staged);
        let mut resources = self.resources.take().unwrap();
        resources.insert_render_graph(self.render_graph.take().unwrap());
        let renderer = self.renderer.take();
        Ok(App { universe, world, setup_schedule, schedule, resources, renderer })
    }

    /// Replace the world slot.
    pub fn with_world(&mut self, world: World)
        ensures
            final(self).world == Some(world),
            final(self).universe == old(self).universe,
            final(self).resources == old(self).resources,
            final(self).renderer == old(self).renderer,
            final(self).render_graph == old(self).render_graph,
            final(self).setup_systems == old(self).setup_systems,
            final(self).registry == old(self).registry,
    {
        self.world = Some(world);
    }

    /// Hand the world and resources to a caller-supplied setup action and
    /// put the values it returns back into their slots. Fails fast when
    /// either slot was already consumed.
    pub fn setup_world<F: FnOnce(World, Resources) -> (World, Resources)>(
        &mut self,
        setup: F,
    ) -> (r: Result<(), ProgrammingError>)
        requires
            old(self).world is Some && old(self).resources is Some ==> call_requires(
                setup,
                (old(self).world.unwrap(), old(self).resources.unwrap()),
            ),
        ensures
            r is Ok <==> (old(self).world is Some && old(self).resources is Some),
            r is Ok ==> exists|out: (World, Resources)|
                {
                    &&& call_ensures(
                        setup,
                        (old(self).world.unwrap(), old(self).resources.unwrap()),
                        out,
                    )
                    &&& final(self).world == Some(out.0)
                    &&& final(self).resources == Some(out.1)
                },
            final(self).universe == old(self).universe,
            final(self).renderer == old(self).renderer,
            final(self).render_graph == old(self).render_graph,
            final(self).setup_systems == old(self).setup_systems,
            final(self).registry == old(self).registry,
            r is Err ==> {
                &&& r->Err_0 == ProgrammingError::WorldConsumed
                &&& *final(self) == *old(self)
            },
    {
        if self.world.is_none() || self.resources.is_none() {
            return Err(ProgrammingError::WorldConsumed);
        }
        let world = self.world.take().unwrap();
        let resources = self.resources.take().unwrap();
        let (world, resources) = setup(world, resources);
        self.world = Some(world);
        self.resources = Some(resources);
        Ok(())
    }

    /// Register a world-mutating system under the default update stage.
    pub fn add_system(&mut self, system: WorkUnit)
        ensures
            final(self).registry@ == register_spec(
                old(self).registry@,
                update_stage_name(),
                system,
                UnitKind::Parallel,
            ),
            final(self).same_slots(old(self)),
            final(self).setup_systems == old(self).setup_systems,
    {
        let stage = update_stage();
        self.add_system_to_stage(stage, system);
    }

    /// Register a system into the one-shot setup batch.
    pub fn add_setup_system(&mut self, system: WorkUnit)
        ensures
            final(self).setup_systems@ == old(self).setup_systems@.push(system),
            final(self).same_slots(old(self)),
            final(self).registry == old(self).registry,
    {
        self.setup_systems.push(system);
    }

    /// Register a world-mutating system under the named stage; a new name
    /// is appended to the stage order, an existing one keeps its position.
    pub fn add_system_to_stage(&mut self, stage_name: &str, system: WorkUnit)
        ensures
            final(self).registry@ == register_spec(
                old(self).registry@,
                stage_name@,
                system,
                UnitKind::Parallel,
            ),
            final(self).same_slots(old(self)),
            final(self).setup_systems == old(self).setup_systems,
    {
        self.registry.register(stage_name, system, UnitKind::Parallel);
    }

    /// Register an exclusive, thread-pinned runnable under the named
    /// stage; the stage order is fixed by first occurrence exactly as for
    /// world-mutating systems.
    pub fn add_runnable_to_stage(&mut self, stage_name: &str, system: WorkUnit)
        ensures
            final(self).registry@ == register_spec(
                old(self).registry@,
                stage_name@,
                system,
                UnitKind::Exclusive,
            ),
            final(self).same_slots(old(self)),
            final(self).setup_systems == old(self).setup_systems,
    {
        self.registry.register(stage_name, system, UnitKind::Exclusive);
    }

    /// Hand the render-graph builder, pre-populated with the fragments
    /// registered so far, to a caller-supplied configuration action, then
    /// finalize whatever builder it returns back into the slot. Fails fast
    /// when the graph slot was already consumed.
    pub fn setup_render_graph<F: FnOnce(RenderGraphBuilder) -> RenderGraphBuilder>(
        &mut self,
        setup: F,
    ) -> (r: Result<(), ProgrammingError>)
        requires
            old(self).render_graph is Some ==> forall|b: RenderGraphBuilder|
                b@ == old(self).render_graph.unwrap()@ ==> call_requires(setup, (b,)),
        ensures
            r is Ok <==> old(self).render_graph is Some,
            r is Ok ==> exists|b_in: RenderGraphBuilder, b_out: RenderGraphBuilder|
                {
                    &&& b_in@ == old(self).render_graph.unwrap()@
                    &&& call_ensures(setup, (b_in,), b_out)
                    &&& final(self).render_graph is Some
                    &&& final(self).render_graph.unwrap()@ == b_out@
                },
            final(self).universe == old(self).universe,
            final(self).world == old(self).world,
            final(self).resources == old(self).resources,
            final(self).renderer == old(self).renderer,
            final(self).setup_systems == old(self).setup_systems,
            final(self).registry == old(self).registry,
            r is Err ==> {
                &&& r->Err_0 == ProgrammingError::GraphConsumed
                &&& *final(self) == *old(self)
            },
    {
        if self.render_graph.is_none() {
            return Err(ProgrammingError::GraphConsumed);
        }
        let graph = self.render_graph.take().unwrap();
        let builder = graph.build();
        let builder = setup(builder);
        self.render_graph = Some(builder.finish());
        Ok(())
    }
}

} // verus!
