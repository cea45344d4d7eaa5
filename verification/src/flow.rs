//! Tick orchestration: run-once setup, named stages, and per-stage
//! command flushing.
//!
//! A flow owns the world, an ordered list of stage system sets, and an
//! optional run-once set executed exactly once before the first regular
//! tick. Each tick runs the stages in a fixed order and flushes the
//! world's deferred commands immediately after each stage: a command
//! queued by a stage's system is committed before the next stage starts —
//! visible there, never to systems still pending in the queueing stage.

use vstd::prelude::*;

use crate::component::Component;
use crate::ecs::{BorrowSignature, System, SystemSet};
use crate::entity::Entity;
use crate::executor::Executor;
use crate::schedule::Scheduler;
use crate::world::{Command, World, WorldView};

verus! {

/// First stage of every tick.
pub const PRE_RUN: usize = 0;

/// Runs after the main logic stage.
pub const POST_RUN: usize = 1;

/// Prepares rendering; runs after the logic stages.
pub const PRE_RENDER: usize = 2;

/// The render stage.
pub const RENDER: usize = 3;

/// Runs after the render stage.
pub const POST_RENDER: usize = 4;

/// The main logic stage; runs between the pre-run and post-run stages.
pub const RUN: usize = 5;

/// How many stages every flow starts with.
pub const BUILTIN_STAGES: usize = 6;

/// The tick loop's state: world, staged system sets, and the pending
/// run-once set.
pub struct Flow<V, S> {
    world: World<V>,
    system_sets: Vec<SystemSet<S>>,
    run_once_systems: Option<SystemSet<S>>,
    scheduler: Scheduler,
    executor: Executor,
    generation: u32,
    next_entity: u32,
}

impl<V: Component, S: System<V>> Flow<V, S> {
    /// The flow's world is well-formed and every built-in stage exists.
    pub closed spec fn wf(&self) -> bool {
        &&& self.world.wf()
        &&& self.system_sets@.len() >= BUILTIN_STAGES
    }

    /// The state of the owned world.
    pub closed spec fn world_view(&self) -> WorldView<V> {
        self.world@
    }

    /// How many stages the flow runs each tick.
    pub closed spec fn stage_count(&self) -> int {
        self.system_sets@.len() as int
    }

    /// The systems registered in a stage, in registration order.
    pub closed spec fn stage_systems(&self, stage: int) -> Seq<S> {
        self.system_sets@[stage]@
    }

    /// How many systems a stage holds.
    pub open spec fn stage_len(&self, stage: int) -> int {
        self.stage_systems(stage).len() as int
    }

    /// Whether a run-once set is still pending.
    pub closed spec fn run_once_pending(&self) -> bool {
        self.run_once_systems is Some
    }

    /// The run-once systems still pending, in registration order.
    pub closed spec fn pending_run_once(&self) -> Seq<S> {
        match self.run_once_systems {
            Some(set) => set@,
            None => Seq::empty(),
        }
    }

    /// The generation stamped on the next entity.
    pub closed spec fn generation(&self) -> u32 {
        self.generation
    }

    /// The index stamped on the next entity.
    pub closed spec fn next_index(&self) -> u32 {
        self.next_entity
    }

    /// Both flows hold the same stages with the same systems.
    pub open spec fn same_stages(&self, other: &Self) -> bool {
        &&& self.stage_count() == other.stage_count()
        &&& forall|i: int|
            0 <= i < self.stage_count() ==> #[trigger] self.stage_systems(i)
                == other.stage_systems(i)
    }

    /// Both flows hold the same stages with the same number of systems
    /// in each; the systems' own state may differ.
    pub open spec fn same_stage_lens(&self, other: &Self) -> bool {
        &&& self.stage_count() == other.stage_count()
        &&& forall|i: int|
            0 <= i < self.stage_count() ==> #[trigger] self.stage_systems(i).len()
                == other.stage_systems(i).len()
    }

    /// Both flows hold the same entity counters.
    pub open spec fn same_counters(&self, other: &Self) -> bool {
        self.generation() == other.generation() && self.next_index() == other.next_index()
    }

    /// Both flows hold the same pending run-once systems.
    pub open spec fn same_run_once(&self, other: &Self) -> bool {
        &&& self.run_once_pending() == other.run_once_pending()
        &&& self.pending_run_once() == other.pending_run_once()
    }

    /// Starts building a flow.
    pub fn new() -> (r: FlowBuilder<V, S>)
        ensures
            r.wf(),
            !r.has_scheduler(),
            !r.has_executor(),
            r.world_view().resources == Map::<u64, V>::empty(),
            r.world_view().components == Map::<crate::entity::SlotKey, V>::empty(),
            r.world_view().typesets == Map::<Entity, Set<u64>>::empty(),
            r.world_view().commands == Seq::<Command<V>>::empty(),
            r.world_view().entity_events == Seq::<crate::world::EntityEvent>::empty(),
            r.stage_count() == BUILTIN_STAGES,
            forall|i: int| 0 <= i < BUILTIN_STAGES ==> #[trigger] r.stage_systems(i) == Seq::<
                S,
            >::empty(),
            !r.run_once_pending(),
            r.pending_run_once() == Seq::<S>::empty(),
    {
        FlowBuilder::empty()
    }

    /// A read-only handle on the owned world, for inspection and query
    /// resolution between ticks.
    pub fn get_world(&self) -> (r: &World<V>)
        requires
            self.wf(),
        ensures
            r.wf(),
            r@ == self.world_view(),
    {
        &self.world
    }

    /// Stores a resource in the owned world; nothing else changes.
    pub fn add_resource(&mut self, key: u64, resource: V)
        requires
            old(self).wf(),
        ensures
            final(self).wf(),
            final(self).world_view() == old(self).world_view().with_resource(key, resource),
            final(self).same_stages(old(self)),
            final(self).same_run_once(old(self)),
            final(self).same_counters(old(self)),
    {
        self.world.store_resource(key, resource);
    }

    /// The resource stored under `key`, if any.
    pub fn get_resource(&self, key: u64) -> (r: Option<&V>)
        requires
            self.wf(),
        ensures
            match r {
                Some(v) => self.world_view().resources.contains_key(key) && *v
                    == self.world_view().resources[key],
                None => !self.world_view().resources.contains_key(key),
            },
    {
        self.world.get_resource(key)
    }

    /// Exclusive access to the resource stored under `key`, if any: the
    /// world afterwards holds whatever the caller leaves behind the
    /// returned handle, and nothing else changes.
    pub fn get_resource_mut(&mut self, key: u64) -> (r: Option<&mut V>)
        requires
            old(self).wf(),
        ensures
            final(self).wf(),
            final(self).same_stages(old(self)),
            final(self).same_run_once(old(self)),
            final(self).same_counters(old(self)),
            match r {
                Some(v) => old(self).world_view().resources.contains_key(key)
                    && *v == old(self).world_view().resources[key]
                    && final(self).world_view() == old(self).world_view().with_resource(
                    key,
                    *final(v),
                ),
                None => !old(self).world_view().resources.contains_key(key)
                    && final(self).world_view() == old(self).world_view(),
            },
    {
        self.world.get_resource_mut(key)
    }

    /// Stores a component in the owned world; nothing else changes.
    pub fn add_component(&mut self, entity: Entity, type_key: u64, component: V)
        requires
            old(self).wf(),
        ensures
            final(self).wf(),
            final(self).world_view() == old(self).world_view().with_component(
                entity,
                type_key,
                component,
            ),
            final(self).same_stages(old(self)),
            final(self).same_run_once(old(self)),
            final(self).same_counters(old(self)),
    {
        self.world.store_component(entity, type_key, component);
    }

    /// Mints a fresh entity of the current generation; only the entity
    /// counter moves.
    pub fn make_entity(&mut self) -> (r: Entity)
        ensures
            r == Entity(old(self).generation(), old(self).next_index()),
            final(self).next_index() == crate::entity::wrapping_inc(old(self).next_index()),
            final(self).generation() == old(self).generation(),
            final(self).wf() == old(self).wf(),
            final(self).world_view() == old(self).world_view(),
            final(self).same_stages(old(self)),
            final(self).same_run_once(old(self)),
    {
        let index = self.next_entity;
        self.next_entity = if self.next_entity == u32::MAX {
            0
        } else {
            self.next_entity + 1
        };
        Entity(self.generation, index)
    }

    /// Registers a system into the given stage under its declared access
    /// list. Succeeds, appending the system to that stage and touching
    /// nothing else, exactly when no two declared signatures name the
    /// same type; otherwise reports a doubled type key and registers
    /// nothing.
    pub fn add_system(&mut self, stage: usize, system: S, signatures: Vec<BorrowSignature>) -> (r:
        Result<(), u64>)
        requires
            old(self).wf(),
            stage < old(self).stage_count(),
        ensures
            final(self).wf(),
            final(self).stage_count() == old(self).stage_count(),
            final(self).world_view() == old(self).world_view(),
            final(self).same_run_once(old(self)),
            final(self).same_counters(old(self)),
            forall|i: int|
                0 <= i < old(self).stage_count() && i != stage
                    ==> #[trigger] final(self).stage_systems(i) == old(self).stage_systems(i),
            r is Ok <==> crate::ecs::distinct_signatures(signatures@),
            r is Ok ==> final(self).stage_systems(stage as int) == old(self).stage_systems(
                stage as int,
            ).push(system),
            r is Err ==> final(self).stage_systems(stage as int) == old(self).stage_systems(
                stage as int,
            ),
    {
        let set = &mut self.system_sets[stage];
        let r = set.add_system(system, signatures);
        proof {
            if r is Err {
                let k = r->Err_0;
                let (i, j) = choose|i: int, j: int|
                    0 <= i < j < signatures@.len() && #[trigger] signatures@[i].0 == #[trigger]
                    signatures@[j].0 && signatures@[j].0 == k;
                assert(!crate::ecs::distinct_signatures(signatures@));
            }
        }
        r
    }

    /// Registers a system into the current (last) stage, as `add_system`
    /// does for that stage.
    pub fn push_system(&mut self, system: S, signatures: Vec<BorrowSignature>) -> (r: Result<
        (),
        u64,
    >)
        requires
            old(self).wf(),
        ensures
            final(self).wf(),
            final(self).stage_count() == old(self).stage_count(),
            final(self).world_view() == old(self).world_view(),
            final(self).same_run_once(old(self)),
            final(self).same_counters(old(self)),
            forall|i: int|
                0 <= i < old(self).stage_count() && i != old(self).stage_count() - 1
                    ==> #[trigger] final(self).stage_systems(i) == old(self).stage_systems(i),
            r is Ok <==> crate::ecs::distinct_signatures(signatures@),
            r is Ok ==> final(self).stage_systems(old(self).stage_count() - 1)
                == old(self).stage_systems(old(self).stage_count() - 1).push(system),
            r is Err ==> final(self).stage_systems(old(self).stage_count() - 1)
                == old(self).stage_systems(old(self).stage_count() - 1),
    {
        let stage = self.system_sets.len() - 1;
        self.add_system(stage, system, signatures)
    }

    /// Appends a fresh, empty stage after the existing ones — which stay
    /// exactly as they were — and reports its index.
    pub fn push_set(&mut self) -> (r: usize)
        requires
            old(self).wf(),
        ensures
            final(self).wf(),
            final(self).stage_count() == old(self).stage_count() + 1,
            r == old(self).stage_count(),
            final(self).world_view() == old(self).world_view(),
            final(self).same_run_once(old(self)),
            final(self).same_counters(old(self)),
            forall|i: int|
                0 <= i < old(self).stage_count()
                    ==> #[trigger] final(self).stage_systems(i) == old(self).stage_systems(i),
            final(self).stage_systems(r as int) == Seq::<S>::empty(),
    {
        self.system_sets.push(SystemSet::new());
        self.system_sets.len() - 1
    }

    /// Registers a system to run exactly once, before the first regular
    /// tick. Succeeds, appending the system to the pending run-once set
    /// and touching nothing else, exactly when no two declared
    /// signatures name the same type; otherwise reports a doubled type
    /// key and registers nothing.
    pub fn run_once(&mut self, system: S, signatures: Vec<BorrowSignature>) -> (r: Result<
        (),
        u64,
    >)
        requires
            old(self).wf(),
        ensures
            final(self).wf(),
            final(self).world_view() == old(self).world_view(),
            final(self).same_stages(old(self)),
            final(self).same_counters(old(self)),
            r is Ok <==> crate::ecs::distinct_signatures(signatures@),
            r is Ok ==> final(self).run_once_pending() && final(self).pending_run_once()
                == old(self).pending_run_once().push(system),
            r is Err ==> final(self).same_run_once(old(self)),
    {
        match crate::ecs::find_conflict(&signatures) {
            Some(key) => {
                proof {
                    let (i, j) = choose|i: int, j: int|
                        0 <= i < j < signatures@.len() && #[trigger] signatures@[i].0 == #[trigger]
                        signatures@[j].0 && signatures@[j].0 == key;
                    assert(!crate::ecs::distinct_signatures(signatures@));
                }
                Err(key)
            },
            None => {
                let mut set: Option<SystemSet<S>> = None;
                core::mem::swap(&mut set, &mut self.run_once_systems);
                let mut set = match set {
                    Some(s) => s,
                    None => SystemSet::new(),
                };
                let r = set.add_system(system, signatures);
                self.run_once_systems = Some(set);
                match r {
                    Ok(()) => Ok(()),
                    Err(_) => vstd::pervasive::unreached(),
                }
            },
        }
    }

    /// Runs one stage's systems in registration order, then immediately
    /// commits the world's deferred commands: what a system of this
    /// stage queued is applied before the next stage starts, never
    /// earlier. Only that stage's systems and the world change, and the
    /// stage keeps its systems (their own state aside).
    fn run_schedule(&mut self, stage: usize)
        requires
            old(self).wf(),
            stage < old(self).stage_count(),
        ensures
            final(self).wf(),
            final(self).same_stage_lens(old(self)),
            forall|i: int|
                0 <= i < old(self).stage_count() && i != stage
                    ==> #[trigger] final(self).stage_systems(i) == old(self).stage_systems(i),
            final(self).world_view().commands == Seq::<Command<V>>::empty(),
            final(self).same_run_once(old(self)),
            final(self).same_counters(old(self)),
    {
        let set = &mut self.system_sets[stage];
        let mut schedule = self.scheduler.get_schedule(set);
        self.executor.run(set, &mut self.world, &mut schedule);
        self.world.apply_commands();
    }

    /// Runs the pending run-once systems, if any, with a command flush,
    /// then every stage in the fixed order, each followed by its own
    /// flush. The stages and their system counts survive the tick; the
    /// run-once set is cleared.
    fn run_schedules(&mut self)
        requires
            old(self).wf(),
        ensures
            final(self).wf(),
            final(self).same_stage_lens(old(self)),
            !final(self).run_once_pending(),
            final(self).pending_run_once() == Seq::<S>::empty(),
            final(self).world_view().commands == Seq::<Command<V>>::empty(),
            final(self).same_counters(old(self)),
    {
        let mut once: Option<SystemSet<S>> = None;
        core::mem::swap(&mut once, &mut self.run_once_systems);
        match once {
            Some(mut set) => {
                let mut schedule = self.scheduler.get_schedule(&set);
                self.executor.run(&mut set, &mut self.world, &mut schedule);
                self.world.apply_commands();
            },
            None => {
            },
        }
        self.run_schedule(PRE_RUN);
        self.run_schedule(RUN);
        self.run_schedule(POST_RUN);
        self.run_schedule(PRE_RENDER);
        self.run_schedule(RENDER);
        self.run_schedule(POST_RENDER);
        let mut stage: usize = BUILTIN_STAGES;
        let n = self.system_sets.len();
        while stage < n
            invariant
                self.wf(),
                n == self.stage_count(),
                BUILTIN_STAGES <= stage,
                self.same_stage_lens(old(self)),
                !self.run_once_pending(),
                self.pending_run_once() == Seq::<S>::empty(),
                self.world_view().commands == Seq::<Command<V>>::empty(),
                self.same_counters(old(self)),
            decreases n - stage,
        {
            self.run_schedule(stage);
            stage += 1;
        }
    }

    /// One tick: pending run-once systems first (cleared after this
    /// first run), then every stage in fixed order, each stage's
    /// deferred commands committed before the next stage starts. The
    /// stages and their system counts survive the tick.
    pub fn spin(&mut self)
        requires
            old(self).wf(),
        ensures
            final(self).wf(),
            final(self).same_stage_lens(old(self)),
            !final(self).run_once_pending(),
            final(self).pending_run_once() == Seq::<S>::empty(),
            final(self).world_view().commands == Seq::<Command<V>>::empty(),
            final(self).same_counters(old(self)),
    {
        self.run_schedules();
    }
}

/// Accumulates the pieces of a flow: scheduler, executor, resources,
/// staged systems, and run-once systems.
pub struct FlowBuilder<V, S> {
    scheduler: Option<Scheduler>,
    executor: Option<Executor>,
    world: World<V>,
    system_sets: Vec<SystemSet<S>>,
    run_once_systems: Option<SystemSet<S>>,
}

impl<V: Component, S: System<V>> FlowBuilder<V, S> {
    /// The builder's world is well-formed and every built-in stage
    /// exists.
    pub closed spec fn wf(&self) -> bool {
        &&& self.world.wf()
        &&& self.system_sets@.len() >= BUILTIN_STAGES
    }

    /// Whether a scheduler has been supplied.
    pub closed spec fn has_scheduler(&self) -> bool {
        self.scheduler is Some
    }

    /// Whether an executor has been supplied.
    pub closed spec fn has_executor(&self) -> bool {
        self.executor is Some
    }

    /// Whether a scheduler and an executor have both been supplied.
    pub open spec fn complete(&self) -> bool {
        self.has_scheduler() && self.has_executor()
    }

    /// The state of the world being built.
    pub closed spec fn world_view(&self) -> WorldView<V> {
        self.world@
    }

    /// How many stages the built flow will run each tick.
    pub closed spec fn stage_count(&self) -> int {
        self.system_sets@.len() as int
    }

    /// The systems accumulated in a stage, in registration order.
    pub closed spec fn stage_systems(&self, stage: int) -> Seq<S> {
        self.system_sets@[stage]@
    }

    /// Whether a run-once set has been accumulated.
    pub closed spec fn run_once_pending(&self) -> bool {
        self.run_once_systems is Some
    }

    /// The accumulated run-once systems, in registration order.
    pub closed spec fn pending_run_once(&self) -> Seq<S> {
        match self.run_once_systems {
            Some(set) => set@,
            None => Seq::empty(),
        }
    }

    /// Both builders hold the same accumulated state: world, stages and
    /// run-once systems.
    pub open spec fn same_accumulation(&self, other: &Self) -> bool {
        &&& self.world_view() == other.world_view()
        &&& self.stage_count() == other.stage_count()
        &&& forall|i: int|
            0 <= i < self.stage_count() ==> #[trigger] self.stage_systems(i)
                == other.stage_systems(i)
        &&& self.run_once_pending() == other.run_once_pending()
        &&& self.pending_run_once() == other.pending_run_once()
    }

    /// A builder with an empty world, the built-in stages — all empty —
    /// no run-once set, no scheduler and no executor.
    pub fn empty() -> (r: Self)
        ensures
            r.wf(),
            !r.has_scheduler(),
            !r.has_executor(),
            r.world_view().resources == Map::<u64, V>::empty(),
            r.world_view().components == Map::<crate::entity::SlotKey, V>::empty(),
            r.world_view().typesets == Map::<Entity, Set<u64>>::empty(),
            r.world_view().commands == Seq::<Command<V>>::empty(),
            r.world_view().entity_events == Seq::<crate::world::EntityEvent>::empty(),
            r.stage_count() == BUILTIN_STAGES,
            forall|i: int| 0 <= i < BUILTIN_STAGES ==> #[trigger] r.stage_systems(i) == Seq::<
                S,
            >::empty(),
            !r.run_once_pending(),
            r.pending_run_once() == Seq::<S>::empty(),
    {
        let mut system_sets: Vec<SystemSet<S>> = Vec::new();
        let mut i: usize = 0;
        while i < BUILTIN_STAGES
            invariant
                system_sets@.len() == i,
                0 <= i <= BUILTIN_STAGES,
                forall|j: int| 0 <= j < i ==> #[trigger] system_sets@[j]@ == Seq::<S>::empty(),
            decreases BUILTIN_STAGES - i,
        {
            system_sets.push(SystemSet::new());
            i += 1;
        }
        FlowBuilder {
            scheduler: None,
            executor: None,
            world: World::new(),
            system_sets,
            run_once_systems: None,
        }
    }

    /// Supplies the scheduler; the accumulated state is untouched.
    pub fn with_scheduler(self, scheduler: Scheduler) -> (r: Self)
        requires
            self.wf(),
        ensures
            r.wf(),
            r.has_scheduler(),
            r.has_executor() == self.has_executor(),
            r.same_accumulation(&self),
    {
        FlowBuilder { scheduler: Some(scheduler), ..self }
    }

    /// Supplies the executor; the accumulated state is untouched.
    pub fn with_executor(self, executor: Executor) -> (r: Self)
        requires
            self.wf(),
        ensures
            r.wf(),
            r.has_executor(),
            r.has_scheduler() == self.has_scheduler(),
            r.same_accumulation(&self),
    {
        FlowBuilder { executor: Some(executor), ..self }
    }

    /// Stores a resource in the world being built; everything else
    /// accumulated so far is untouched.
    pub fn with_resource(self, key: u64, resource: V) -> (r: Self)
        requires
            self.wf(),
        ensures
            r.wf(),
            r.has_scheduler() == self.has_scheduler(),
            r.has_executor() == self.has_executor(),
            r.world_view() == self.world_view().with_resource(key, resource),
            r.stage_count() == self.stage_count(),
            forall|i: int|
                0 <= i < self.stage_count() ==> #[trigger] r.stage_systems(i)
                    == self.stage_systems(i),
            r.run_once_pending() == self.run_once_pending(),
            r.pending_run_once() == self.pending_run_once(),
    {
        let mut this = self;
        this.world.store_resource(key, resource);
        this
    }

    /// Hands the builder to a plugin: a function that accumulates its
    /// own resources and systems and hands the builder back.
    pub fn with_plugin<P: FnOnce(Self) -> Self>(self, plugin: P) -> (r: Self)
        requires
            call_requires(plugin, (self,)),
        ensures
            call_ensures(plugin, (self,), r),
    {
        plugin(self)
    }

    /// Finishes the build: the flow owns the builder's world, its stages
    /// with their systems, and its pending run-once set, and starts its
    /// entity counters at zero. A builder without both a scheduler and
    /// an executor is missing required fields and cannot be finished.
    pub fn build(self) -> (r: Flow<V, S>)
        requires
            self.wf(),
            self.complete(),
        ensures
            r.wf(),
            r.world_view() == self.world_view(),
            r.stage_count() == self.stage_count(),
            forall|i: int|
                0 <= i < self.stage_count() ==> #[trigger] r.stage_systems(i)
                    == self.stage_systems(i),
            r.run_once_pending() == self.run_once_pending(),
            r.pending_run_once() == self.pending_run_once(),
            r.generation() == 0,
            r.next_index() == 0,
    {
        match (self.scheduler, self.executor) {
            (Some(scheduler), Some(executor)) => Flow {
                world: self.world,
                system_sets: self.system_sets,
                run_once_systems: self.run_once_systems,
                scheduler,
                executor,
                generation: 0,
                next_entity: 0,
            },
            _ => vstd::pervasive::unreached(),
        }
    }
}

} // verus!
