//! An ordered list of systems, run together.
use vstd::prelude::*;

use crate::ecs::condition::ConditionSystem;
use crate::ecs::entities;
use crate::ecs::ordering;
use crate::ecs::ordering::{order_systems, OrderingCycle};
use crate::ecs::resources::{Resource, ResourceCommand, Resources, ResourcesView, Triggered};
use crate::ecs::system::{
    EngineState, ObserverSystem, ScheduledSystem, StageSystem, System, SystemChain, SystemConfig,
    SystemId, TypeKey,
};

verus! {

/// An ordered list of systems, run together: one backs each stage. Deferred
/// commands (entity commands, resource inserts and removes, triggers) are
/// flushed after each system, so a system ordered after another sees its
/// effects even within the same stage.
///
/// Systems run in the order in which they were added, unless a constraint or
/// a priority says otherwise.
pub struct Schedule<S, C> {
    systems: Vec<ScheduledSystem<S, C>>,
    /// `(dependent, dependency)`: the first runs after the second.
    constraints: Vec<(SystemId, SystemId)>,
    order: Vec<usize>,
    order_dirty: bool,
}

/// What a schedule is made of.
#[verifier::ext_equal]
pub struct ScheduleView<S, C> {
    pub systems: Seq<ScheduledSystem<S, C>>,
    pub constraints: Seq<(SystemId, SystemId)>,
}

impl<S, C> ScheduleView<S, C> {
    /// A schedule without systems.
    pub open spec fn empty() -> Self {
        ScheduleView { systems: Seq::empty(), constraints: Seq::empty() }
    }

    /// The names of the systems, in the order of adding.
    pub open spec fn ids(self) -> Seq<SystemId> {
        self.systems.map_values(|system: ScheduledSystem<S, C>| system.id)
    }

    /// The priorities of the systems, in the order of adding.
    pub open spec fn priorities(self) -> Seq<i32> {
        self.systems.map_values(|system: ScheduledSystem<S, C>| system.priority)
    }

    /// The constraints do not form a cycle.
    pub open spec fn acyclic(self) -> bool {
        ordering::acyclic(self.ids(), self.constraints)
    }

    /// `order` is the order in which the systems run.
    pub open spec fn is_order(self, order: Seq<usize>) -> bool {
        ordering::is_order(self.ids(), self.priorities(), self.constraints, order)
    }

    /// One more system, with its constraints.
    pub open spec fn add_system(self, config: SystemConfig<S, C>) -> Self {
        ScheduleView {
            systems: self.systems.push(config.scheduled()),
            constraints: self.constraints + config.constraints@,
        }
    }

    /// The systems of a chain, with their constraints.
    pub open spec fn add_systems(self, chain: SystemChain<S, C>) -> Self {
        ScheduleView {
            systems: self.systems + chain.systems(),
            constraints: self.constraints + chain.constraints(),
        }
    }
}

impl<S, C> View for Schedule<S, C> {
    type V = ScheduleView<S, C>;

    closed spec fn view(&self) -> ScheduleView<S, C> {
        ScheduleView { systems: self.systems@, constraints: self.constraints@ }
    }
}

/// Every one of these conditions can be evaluated.
pub open spec fn all_ready<V, O, C: ConditionSystem<V, O>>(conditions: Seq<C>) -> bool {
    forall|j: int| 0 <= j < conditions.len() ==> (#[trigger] conditions[j]).ready()
}

/// Every condition of every system can be evaluated.
pub open spec fn conditions_ready<V, O, S, C: ConditionSystem<V, O>>(
    systems: Seq<ScheduledSystem<S, C>>,
) -> bool {
    forall|i: int, j: int|
        0 <= i < systems.len() && 0 <= j < systems[i].conditions@.len()
            ==> #[trigger] systems[i].conditions@[j].ready()
}

// ---------------------------------------------------------------------------
// What flushing deferred commands does
// ---------------------------------------------------------------------------

/// The recorded entity commands have run, and nothing else happened.
pub open spec fn entity_commands_flushed<V, O>(
    before: EngineState<V, O>,
    after: EngineState<V, O>,
) -> bool {
    &&& entities::commands_applied(
        before.world,
        before.resources.command_buffer,
        after.world,
    )
    &&& entities::recorded_commands(before.resources.command_buffer) == 0 ==> after.world
        == before.world
    &&& entities::recorded_commands(after.resources.command_buffer) == 0
    &&& after.resources == ResourcesView {
        command_buffer: after.resources.command_buffer,
        ..before.resources
    }
}

/// `observers` have observed `event` one after another: each became its
/// counterpart in `then`, and the state went through `states`.
pub open spec fn observe_trace<V, O: ObserverSystem<V>>(
    observers: Seq<O>,
    event: V,
    then: Seq<O>,
    states: Seq<EngineState<V, O>>,
) -> bool {
    &&& then.len() == observers.len()
    &&& states.len() == observers.len() + 1
    &&& forall|i: int|
        0 <= i < observers.len() ==> O::observes(
            #[trigger] observers[i],
            event,
            states[i],
            then[i],
            states[i + 1],
        )
}

/// A triggered event has been handed to every observer of its type, in the
/// order of registration. The observers are out of reach while they run and
/// back in place afterwards. Without observers nothing happens.
pub open spec fn trigger_fired<V, O: ObserverSystem<V>>(
    triggered: Triggered<V>,
    before: EngineState<V, O>,
    after: EngineState<V, O>,
) -> bool {
    let key = triggered.key;
    if before.resources.observers.dom().contains(key) {
        exists|then: Seq<O>, states: Seq<EngineState<V, O>>|
            {
                &&& #[trigger] observe_trace(
                    before.resources.observers[key],
                    triggered.event,
                    then,
                    states,
                )
                &&& states.first() == EngineState {
                    world: before.world,
                    resources: before.resources.with_observers(key, Seq::empty()),
                }
                &&& after == EngineState {
                    world: states.last().world,
                    resources: states.last().resources.with_observers(key, then),
                }
            }
    } else {
        after == before
    }
}

/// Triggered events have been handed out one after another, while the state
/// went through `states`.
pub open spec fn trigger_trace<V, O: ObserverSystem<V>>(
    triggers: Seq<Triggered<V>>,
    states: Seq<EngineState<V, O>>,
) -> bool {
    &&& states.len() == triggers.len() + 1
    &&& forall|i: int|
        0 <= i < triggers.len() ==> trigger_fired(#[trigger] triggers[i], states[i], states[i + 1])
}

/// Triggered events have been handed out one after another.
pub open spec fn triggers_fired<V, O: ObserverSystem<V>>(
    triggers: Seq<Triggered<V>>,
    before: EngineState<V, O>,
    after: EngineState<V, O>,
) -> bool {
    exists|states: Seq<EngineState<V, O>>|
        {
            &&& #[trigger] trigger_trace(triggers, states)
            &&& states.first() == before
            &&& states.last() == after
        }
}

/// What is left for the triggers to see once the entity and the resource
/// commands have been flushed.
pub open spec fn commands_flushed<V, O>(flushed: EngineState<V, O>) -> EngineState<V, O> {
    EngineState { world: flushed.world, resources: flushed.resources.resource_commands_flushed() }
}

/// All deferred commands have been flushed: the entity commands, then the
/// resource commands, then the triggers that were queued by then.
pub open spec fn synced<V, O: ObserverSystem<V>>(
    before: EngineState<V, O>,
    after: EngineState<V, O>,
) -> bool {
    exists|flushed: EngineState<V, O>|
        {
            &&& #[trigger] entity_commands_flushed(before, flushed)
            &&& triggers_fired(
                commands_flushed(flushed).resources.triggers,
                EngineState {
                    world: commands_flushed(flushed).world,
                    resources: ResourcesView {
                        triggers: Seq::empty(),
                        ..commands_flushed(flushed).resources
                    },
                },
                after,
            )
        }
}

// ---------------------------------------------------------------------------
// What running a schedule does
// ---------------------------------------------------------------------------

/// Conditions have been evaluated one after another, up to the first that
/// does not hold; `open` is whether all hold.
pub open spec fn gated<V, O, C: ConditionSystem<V, O>>(
    conditions: Seq<C>,
    at: EngineState<V, O>,
    then: Seq<C>,
    open: bool,
) -> bool {
    &&& then.len() == conditions.len()
    &&& if open {
        forall|i: int|
            0 <= i < conditions.len() ==> C::evaluates(
                #[trigger] conditions[i],
                at,
                then[i],
                true,
            )
    } else {
        exists|k: int|
            {
                &&& 0 <= k < conditions.len()
                &&& C::evaluates(#[trigger] conditions[k], at, then[k], false)
                &&& forall|i: int|
                    0 <= i < k ==> C::evaluates(#[trigger] conditions[i], at, then[i], true)
                &&& forall|i: int| k < i < conditions.len() ==> #[trigger] then[i] == conditions[i]
            }
    }
}

/// One system has had its turn: if all its conditions held it ran and its
/// commands were flushed, else only its conditions were evaluated.
pub open spec fn took_turn<V, O: ObserverSystem<V>, S: System<V, O>, C: ConditionSystem<V, O>>(
    before: ScheduledSystem<S, C>,
    at: EngineState<V, O>,
    after: ScheduledSystem<S, C>,
    then: EngineState<V, O>,
) -> bool {
    &&& after.id == before.id
    &&& after.priority == before.priority
    &&& {
        ||| {
            &&& gated(before.conditions@, at, after.conditions@, false)
            &&& after.system == before.system
            &&& then == at
        }
        ||| {
            &&& gated(before.conditions@, at, after.conditions@, true)
            &&& exists|ran: EngineState<V, O>|
                #[trigger] synced(ran, then) && System::runs(before.system, at, after.system, ran)
        }
    }
}

/// A point in the run of a schedule: the systems and the state at that point.
pub struct RunPoint<V, O, S, C> {
    pub systems: Seq<ScheduledSystem<S, C>>,
    pub state: EngineState<V, O>,
}

/// From `before` to `after` the system at `index` had its turn, and no other
/// system changed.
pub open spec fn turn_at<V, O: ObserverSystem<V>, S: System<V, O>, C: ConditionSystem<V, O>>(
    index: int,
    before: RunPoint<V, O, S, C>,
    after: RunPoint<V, O, S, C>,
) -> bool {
    &&& 0 <= index < before.systems.len()
    &&& took_turn(before.systems[index], before.state, after.systems[index], after.state)
    &&& after.systems == before.systems.update(index, after.systems[index])
}

/// The systems have had their turns in `order`, while the run went through
/// `points`.
pub open spec fn run_trace<V, O: ObserverSystem<V>, S: System<V, O>, C: ConditionSystem<V, O>>(
    order: Seq<usize>,
    points: Seq<RunPoint<V, O, S, C>>,
) -> bool {
    &&& points.len() == order.len() + 1
    &&& forall|k: int|
        0 <= k < order.len() ==> turn_at(#[trigger] order[k] as int, points[k], points[k + 1])
}

/// The schedule has run: every system had its turn, in the order of the
/// schedule.
pub open spec fn schedule_ran<V, O: ObserverSystem<V>, S: System<V, O>, C: ConditionSystem<V, O>>(
    before: ScheduleView<S, C>,
    at: EngineState<V, O>,
    after: ScheduleView<S, C>,
    then: EngineState<V, O>,
) -> bool {
    &&& after.constraints == before.constraints
    &&& exists|order: Seq<usize>, points: Seq<RunPoint<V, O, S, C>>|
        {
            &&& before.is_order(order)
            &&& #[trigger] run_trace(order, points)
            &&& points.first().systems == before.systems
            &&& points.first().state == at
            &&& points.last().systems == after.systems
            &&& points.last().state == then
        }
}

/// The state that `world` and `resources` make up.
pub open spec fn state_of<V, O>(world: hecs::World, resources: Resources<V, O>) -> EngineState<
    V,
    O,
> {
    EngineState { world, resources: resources@ }
}

/// Hands a triggered event to every observer of its type.
pub fn fire_trigger<V, O: ObserverSystem<V>>(
    triggered: Triggered<V>,
    world: &mut hecs::World,
    resources: &mut Resources<V, O>,
)
    requires
        old(resources).wf(),
    ensures
        final(resources).wf(),
        trigger_fired(
            triggered,
            state_of(*old(world), *old(resources)),
            state_of(*final(world), *final(resources)),
        ),
{
    match resources.take_observers(triggered.key) {
        None => {},
        Some(list) => {
            let mut list = list;
            let ghost observers = list@;
            let ghost mut states: Seq<EngineState<V, O>> = seq![state_of(*world, *resources)];
            let mut i: usize = 0;
            while i < list.len()
                invariant
                    i <= list@.len(),
                    list@.len() == observers.len(),
                    resources.wf(),
                    states.len() == i + 1,
                    states.first() == (EngineState {
                        world: *old(world),
                        resources: old(resources)@.with_observers(triggered.key, Seq::empty()),
                    }),
                    states.last() == state_of(*world, *resources),
                    forall|k: int|
                        0 <= k < i ==> O::observes(
                            #[trigger] observers[k],
                            triggered.event,
                            states[k],
                            list@[k],
                            states[k + 1],
                        ),
                    forall|k: int| i <= k < observers.len() ==> list@[k] == observers[k],
                decreases list.len() - i,
            {
                let ghost passed = states;
                list[i].observe(&triggered.event, world, resources);
                proof {
                    states = passed.push(state_of(*world, *resources));
                }
                i += 1;
            }
            let ghost then = list@;
            resources.set_observers(triggered.key, list);
            assert(observe_trace(observers, triggered.event, then, states));
        },
    }
}

/// Applies the entity and resource commands and the triggers that were
/// queued, so that the next system sees their effects.
pub fn sync_commands<V, O: ObserverSystem<V>>(
    world: &mut hecs::World,
    resources: &mut Resources<V, O>,
)
    requires
        old(resources).wf(),
    ensures
        final(resources).wf(),
        synced(state_of(*old(world), *old(resources)), state_of(*final(world), *final(resources))),
{
    let ghost before = state_of(*world, *resources);
    resources.flush_entity_commands(world);
    let ghost flushed = state_of(*world, *resources);
    assert(entity_commands_flushed(before, flushed));
    resources.flush_resource_commands();
    assert(state_of(*world, *resources) == commands_flushed(flushed));
    let triggers = resources.take_triggers();
    let ghost all = triggers@;
    let ghost start = state_of(*world, *resources);
    let ghost mut states: Seq<EngineState<V, O>> = seq![start];
    for triggered in walk: triggers
        invariant
            resources.wf(),
            walk.seq() == all,
            states.len() == walk.index() + 1,
            states.first() == start,
            states.last() == state_of(*world, *resources),
            forall|k: int|
                0 <= k < walk.index() ==> trigger_fired(
                    #[trigger] all[k],
                    states[k],
                    states[k + 1],
                ),
    {
        let ghost passed = states;
        fire_trigger(triggered, world, resources);
        proof {
            states = passed.push(state_of(*world, *resources));
        }
    }
    assert(trigger_trace(all, states));
}

/// Evaluates the conditions one after another, up to the first that does not
/// hold. Returns whether all hold.
pub fn evaluate_all<V, O, C: ConditionSystem<V, O>>(
    conditions: &mut Vec<C>,
    world: &hecs::World,
    resources: &Resources<V, O>,
) -> (open: bool)
    requires
        resources.wf(),
        forall|i: int|
            0 <= i < old(conditions)@.len() ==> (#[trigger] old(conditions)@[i]).ready(),
    ensures
        forall|i: int|
            0 <= i < final(conditions)@.len() ==> (#[trigger] final(conditions)@[i]).ready(),
        gated(old(conditions)@, state_of(*world, *resources), final(conditions)@, open),
{
    let ghost at = state_of(*world, *resources);
    let mut i: usize = 0;
    while i < conditions.len()
        invariant
            i <= conditions@.len(),
            conditions@.len() == old(conditions)@.len(),
            resources.wf(),
            at == state_of(*world, *resources),
            forall|k: int| 0 <= k < conditions@.len() ==> (#[trigger] conditions@[k]).ready(),
            forall|k: int|
                0 <= k < i ==> C::evaluates(
                    #[trigger] old(conditions)@[k],
                    at,
                    conditions@[k],
                    true,
                ),
            forall|k: int|
                i <= k < conditions@.len() ==> #[trigger] conditions@[k] == old(conditions)@[k],
        decreases conditions.len() - i,
    {
        let ghost before = conditions@;
        let holds = conditions[i].eval(world, resources);
        if !holds {
            assert(C::evaluates(old(conditions)@[i as int], at, conditions@[i as int], false));
            return false;
        }
        i += 1;
    }
    true
}

impl<S, C> Schedule<S, C> {
    /// The cached order is right unless it is marked as outdated.
    pub closed spec fn wf(&self) -> bool {
        !self.order_dirty ==> self@.is_order(self.order@)
    }

    /// A schedule without systems.
    pub fn new() -> (schedule: Self)
        ensures
            schedule.wf(),
            schedule@ == ScheduleView::<S, C>::empty(),
    {
        Schedule {
            systems: Vec::new(),
            constraints: Vec::new(),
            order: Vec::new(),
            order_dirty: false,
        }
    }

    /// Appends a system to the end of the schedule.
    pub fn add_system(&mut self, system: SystemConfig<S, C>) -> (chained: &mut Self)
        requires
            old(self).wf(),
        ensures
            chained.wf(),
            chained@ == old(self)@.add_system(system),
            *final(self) == *final(chained),
    {
        let (scheduled, constraints) = system.into_parts();
        let mut constraints = constraints;
        self.systems.push(scheduled);
        self.constraints.append(&mut constraints);
        self.order_dirty = true;
        self
    }

    /// Appends every system of a chain to the end of the schedule.
    pub fn add_systems(&mut self, chain: SystemChain<S, C>) -> (chained: &mut Self)
        requires
            old(self).wf(),
        ensures
            chained.wf(),
            chained@ == old(self)@.add_systems(chain),
            *final(self) == *final(chained),
    {
        let (systems, constraints) = chain.into_parts();
        let mut systems = systems;
        let mut constraints = constraints;
        self.systems.append(&mut systems);
        self.constraints.append(&mut constraints);
        self.order_dirty = true;
        self
    }

    /// Sorts the systems so that every constraint holds. Among systems that
    /// nothing orders, higher priority goes first; ties keep the order of
    /// adding. Fails exactly if the constraints form a cycle; a constraint
    /// that names a system never added is ignored.
    pub fn compute_order(&self) -> (ordered: Result<Vec<usize>, OrderingCycle>)
        ensures
            ordered is Ok <==> self@.acyclic(),
            ordered matches Ok(order) ==> self@.is_order(order@),
    {
        let mut ids: Vec<SystemId> = Vec::new();
        let mut priorities: Vec<i32> = Vec::new();
        let mut i: usize = 0;
        while i < self.systems.len()
            invariant
                i <= self.systems@.len(),
                ids@ == self@.ids().take(i as int),
                priorities@ == self@.priorities().take(i as int),
            decreases self.systems.len() - i,
        {
            ids.push(self.systems[i].id);
            priorities.push(self.systems[i].priority);
            proof {
                assert(self@.ids().take(i + 1) =~= self@.ids().take(i as int).push(
                    self@.ids()[i as int],
                ));
                assert(self@.priorities().take(i + 1) =~= self@.priorities().take(i as int).push(
                    self@.priorities()[i as int],
                ));
            }
            i += 1;
        }
        assert(self@.ids().take(i as int) =~= self@.ids());
        assert(self@.priorities().take(i as int) =~= self@.priorities());
        order_systems(&ids, &priorities, &self.constraints)
    }

    /// Runs every system in order, flushing deferred commands after each one
    /// that ran. A system runs only if all its conditions hold; one that does
    /// not still holds its place in the order.
    ///
    /// The constraints must not form a cycle: see
    /// [`compute_order`](Self::compute_order).
    pub fn run<V, O: ObserverSystem<V>>(
        &mut self,
        world: &mut hecs::World,
        resources: &mut Resources<V, O>,
    ) where S: System<V, O>, C: ConditionSystem<V, O>
        requires
            old(self).wf(),
            old(self)@.acyclic(),
            conditions_ready::<V, O, S, C>(old(self)@.systems),
            old(resources).wf(),
        ensures
            final(self).wf(),
            final(resources).wf(),
            conditions_ready::<V, O, S, C>(final(self)@.systems),
            schedule_ran(
                old(self)@,
                state_of(*old(world), *old(resources)),
                final(self)@,
                state_of(*final(world), *final(resources)),
            ),
            final(self)@.ids() == old(self)@.ids(),
            final(self)@.priorities() == old(self)@.priorities(),
    {
        if self.order_dirty {
            match self.compute_order() {
                Ok(order) => {
                    self.order = order;
                    self.order_dirty = false;
                },
                Err(_) => {
                    // Not reached: the constraints form no cycle.
                    return ;
                },
            }
        }
        let ghost start = self@;
        let ghost at = state_of(*world, *resources);
        let ghost order = self.order@;
        let ghost mut points: Seq<RunPoint<V, O, S, C>> = seq![
            RunPoint { systems: start.systems, state: at },
        ];
        let mut k: usize = 0;
        while k < self.order.len()
            invariant
                k <= order.len(),
                self.order@ == order,
                !self.order_dirty,
                self.constraints@ == start.constraints,
                self.systems@.len() == start.systems.len(),
                start.is_order(order),
                resources.wf(),
                conditions_ready::<V, O, S, C>(self.systems@),
                points.len() == k + 1,
                points.first().systems == start.systems,
                points.first().state == at,
                points.last().systems == self.systems@,
                points.last().state == state_of(*world, *resources),
                forall|j: int|
                    0 <= j < k ==> turn_at(#[trigger] order[j] as int, points[j], points[j + 1]),
                forall|i: int|
                    0 <= i < start.systems.len() ==> (#[trigger] self.systems@[i]).id
                        == start.systems[i].id && self.systems@[i].priority
                        == start.systems[i].priority,
            decreases self.order.len() - k,
        {
            let index: usize = self.order[k];
            let ghost mid = self.systems@;
            let ghost state = state_of(*world, *resources);
            proof {
                assert(ordering::is_next(
                    start.ids(),
                    start.priorities(),
                    start.constraints,
                    order.take(k as int),
                    order[k as int] as int,
                ));
                assert forall|j: int| 0 <= j < mid[index as int].conditions@.len() implies (
                #[trigger] mid[index as int].conditions@[j]).ready() by {}
            }
            let open = evaluate_all(&mut self.systems[index].conditions, world, resources);
            if open {
                self.systems[index].system.run(world, resources);
                let ghost ran = state_of(*world, *resources);
                sync_commands(world, resources);
                assert(synced(ran, state_of(*world, *resources)));
            }
            proof {
                let then = state_of(*world, *resources);
                assert(took_turn(mid[index as int], state, self.systems@[index as int], then));
                assert(self.systems@ =~= mid.update(index as int, self.systems@[index as int]));
                let passed = points;
                points = passed.push(RunPoint { systems: self.systems@, state: then });
                assert(turn_at(order[k as int] as int, points[k as int], points[k + 1]));
                assert forall|i: int, j: int|
                    0 <= i < self.systems@.len() && 0 <= j
                        < self.systems@[i].conditions@.len() implies
                    #[trigger] self.systems@[i].conditions@[j].ready() by {
                    if i != index {
                        assert(self.systems@[i] == mid[i]);
                        assert(mid[i].conditions@[j].ready());
                    }
                }
            }
            k += 1;
        }
        proof {
            assert(run_trace(order, points));
            assert(self@.ids() =~= start.ids());
            assert(self@.priorities() =~= start.priorities());
        }
    }
}

// ---------------------------------------------------------------------------
// Laws
// ---------------------------------------------------------------------------

/// Along a run no system changes its name or its priority.
proof fn lemma_run_keeps_names<V, O: ObserverSystem<V>, S: System<V, O>, C: ConditionSystem<V, O>>(
    order: Seq<usize>,
    points: Seq<RunPoint<V, O, S, C>>,
    k: int,
    i: int,
)
    requires
        run_trace(order, points),
        0 <= k < points.len(),
        0 <= i < points[0].systems.len(),
    ensures
        points[k].systems.len() == points[0].systems.len(),
        points[k].systems[i].id == points[0].systems[i].id,
        points[k].systems[i].priority == points[0].systems[i].priority,
    decreases k,
{
    if k > 0 {
        lemma_run_keeps_names(order, points, k - 1, i);
        assert(turn_at(order[k - 1] as int, points[k - 1], points[k - 1 + 1]));
    }
}

/// Running a schedule does not change its order, whichever of its systems
/// their conditions held back: a system that was skipped keeps its place, and
/// so does everything ordered relative to it.
pub proof fn law_a_run_keeps_the_order<
    V,
    O: ObserverSystem<V>,
    S: System<V, O>,
    C: ConditionSystem<V, O>,
>(
    before: ScheduleView<S, C>,
    at: EngineState<V, O>,
    after: ScheduleView<S, C>,
    then: EngineState<V, O>,
    order: Seq<usize>,
)
    requires
        schedule_ran(before, at, after, then),
    ensures
        after.is_order(order) == before.is_order(order),
        after.acyclic() == before.acyclic(),
{
    let (taken, points) = choose|taken: Seq<usize>, points: Seq<RunPoint<V, O, S, C>>|
        {
            &&& before.is_order(taken)
            &&& #[trigger] run_trace(taken, points)
            &&& points.first().systems == before.systems
            &&& points.first().state == at
            &&& points.last().systems == after.systems
            &&& points.last().state == then
        };
    let last = points.len() - 1;
    assert forall|i: int| 0 <= i < before.systems.len() implies after.systems.len()
        == before.systems.len() && (#[trigger] after.systems[i]).id == before.systems[i].id
        && after.systems[i].priority == before.systems[i].priority by {
        lemma_run_keeps_names(taken, points, last, i);
    }
    if before.systems.len() == 0 {
        assert(taken.len() == 0);
    } else {
        lemma_run_keeps_names(taken, points, last, 0);
    }
    assert(after.ids() =~= before.ids());
    assert(after.priorities() =~= before.priorities());
}

/// Flushing leaves the entities and the resources as they were when nothing
/// was deferred.
pub proof fn law_flushing_nothing_changes_nothing<V, O: ObserverSystem<V>>(
    before: EngineState<V, O>,
    after: EngineState<V, O>,
)
    requires
        synced(before, after),
        entities::recorded_commands(before.resources.command_buffer) == 0,
        before.resources.resource_commands.len() == 0,
        before.resources.triggers.len() == 0,
    ensures
        after.world == before.world,
        after.resources == (ResourcesView {
            command_buffer: after.resources.command_buffer,
            ..before.resources
        }),
{
    let flushed = choose|flushed: EngineState<V, O>|
        {
            &&& #[trigger] entity_commands_flushed(before, flushed)
            &&& triggers_fired(
                commands_flushed(flushed).resources.triggers,
                EngineState {
                    world: commands_flushed(flushed).world,
                    resources: ResourcesView {
                        triggers: Seq::empty(),
                        ..commands_flushed(flushed).resources
                    },
                },
                after,
            )
        };
    assert(flushed.resources.resource_commands =~= Seq::empty());
    assert(flushed.resources.triggers =~= Seq::empty());
    assert(commands_flushed(flushed).resources =~= flushed.resources);
}

/// Applying resource commands changes resources only: what is deferred, the
/// event queues and the observers stay.
proof fn lemma_apply_all<V, O>(
    resources: ResourcesView<V, O>,
    commands: Seq<ResourceCommand<V>>,
)
    ensures
        resources.apply_all(commands).command_buffer == resources.command_buffer,
        resources.apply_all(commands).resource_commands == resources.resource_commands,
        resources.apply_all(commands).triggers == resources.triggers,
        resources.apply_all(commands).events == resources.events,
        resources.apply_all(commands).observers == resources.observers,
    decreases commands.len(),
{
    if commands.len() > 0 {
        lemma_apply_all(resources, commands.drop_last());
    }
}

/// What a system deferred to insert is there for the next system: the last
/// insert under a key wins.
pub proof fn law_a_deferred_insert_is_seen_next<V, O: ObserverSystem<V>>(
    before: EngineState<V, O>,
    after: EngineState<V, O>,
    key: TypeKey,
    value: V,
)
    requires
        synced(before, after),
        before.resources.triggers.len() == 0,
        before.resources.resource_commands.len() > 0,
        before.resources.resource_commands.last() == ResourceCommand::Insert(
            Resource::Custom(key, value),
        ),
    ensures
        after.resources.custom.dom().contains(key),
        after.resources.custom[key] == value,
        after.resources.resource_commands == Seq::<ResourceCommand<V>>::empty(),
{
    let flushed = choose|flushed: EngineState<V, O>|
        {
            &&& #[trigger] entity_commands_flushed(before, flushed)
            &&& triggers_fired(
                commands_flushed(flushed).resources.triggers,
                EngineState {
                    world: commands_flushed(flushed).world,
                    resources: ResourcesView {
                        triggers: Seq::empty(),
                        ..commands_flushed(flushed).resources
                    },
                },
                after,
            )
        };
    lemma_apply_all(
        ResourcesView { resource_commands: Seq::empty(), ..flushed.resources },
        flushed.resources.resource_commands,
    );
}

/// An event that a system triggered reaches every observer of its type, in the
/// order of registration, before the next system has its turn.
pub proof fn law_a_trigger_reaches_every_observer<V, O: ObserverSystem<V>>(
    before: EngineState<V, O>,
    after: EngineState<V, O>,
    triggered: Triggered<V>,
)
    requires
        synced(before, after),
        before.resources.triggers == seq![triggered],
        before.resources.observers.dom().contains(triggered.key),
    ensures
        exists|then: Seq<O>, states: Seq<EngineState<V, O>>|
            {
                &&& #[trigger] observe_trace(
                    before.resources.observers[triggered.key],
                    triggered.event,
                    then,
                    states,
                )
                &&& after == EngineState {
                    world: states.last().world,
                    resources: states.last().resources.with_observers(triggered.key, then),
                }
            },
{
    let flushed = choose|flushed: EngineState<V, O>|
        {
            &&& #[trigger] entity_commands_flushed(before, flushed)
            &&& triggers_fired(
                commands_flushed(flushed).resources.triggers,
                EngineState {
                    world: commands_flushed(flushed).world,
                    resources: ResourcesView {
                        triggers: Seq::empty(),
                        ..commands_flushed(flushed).resources
                    },
                },
                after,
            )
        };
    lemma_apply_all(
        ResourcesView { resource_commands: Seq::empty(), ..flushed.resources },
        flushed.resources.resource_commands,
    );
    let start = EngineState {
        world: commands_flushed(flushed).world,
        resources: ResourcesView {
            triggers: Seq::empty(),
            ..commands_flushed(flushed).resources
        },
    };
    let triggers = commands_flushed(flushed).resources.triggers;
    let states = choose|states: Seq<EngineState<V, O>>|
        {
            &&& #[trigger] trigger_trace(triggers, states)
            &&& states.first() == start
            &&& states.last() == after
        };
    assert(trigger_fired(triggers[0], states[0], states[0int + 1]));
}

/// Events that are triggered without an observer of their type have no
/// effect: they are dropped by the flush.
pub proof fn law_unobserved_triggers_are_dropped<V, O: ObserverSystem<V>>(
    triggers: Seq<Triggered<V>>,
    before: EngineState<V, O>,
    after: EngineState<V, O>,
)
    requires
        triggers_fired(triggers, before, after),
        forall|i: int|
            0 <= i < triggers.len() ==> !before.resources.observers.dom().contains(
                (#[trigger] triggers[i]).key,
            ),
    ensures
        after == before,
{
    let states = choose|states: Seq<EngineState<V, O>>|
        {
            &&& #[trigger] trigger_trace(triggers, states)
            &&& states.first() == before
            &&& states.last() == after
        };
    lemma_unobserved(triggers, states, triggers.len() as int);
}

proof fn lemma_unobserved<V, O: ObserverSystem<V>>(
    triggers: Seq<Triggered<V>>,
    states: Seq<EngineState<V, O>>,
    k: int,
)
    requires
        trigger_trace(triggers, states),
        0 <= k <= triggers.len(),
        forall|i: int|
            0 <= i < triggers.len() ==> !states[0].resources.observers.dom().contains(
                (#[trigger] triggers[i]).key,
            ),
    ensures
        states[k] == states[0],
    decreases k,
{
    if k > 0 {
        lemma_unobserved(triggers, states, k - 1);
        assert(trigger_fired(triggers[k - 1], states[k - 1], states[k - 1 + 1]));
    }
}

/// A system whose conditions do not all hold leaves the entities, the
/// resources and itself as they were.
pub proof fn law_a_gated_system_changes_nothing<
    V,
    O: ObserverSystem<V>,
    S: System<V, O>,
    C: ConditionSystem<V, O>,
>(
    before: ScheduledSystem<S, C>,
    at: EngineState<V, O>,
    after: ScheduledSystem<S, C>,
    then: EngineState<V, O>,
)
    requires
        took_turn(before, at, after, then),
        !gated(before.conditions@, at, after.conditions@, true),
    ensures
        then == at,
        after.system == before.system,
{
}

/// A system without conditions always runs, and its commands are flushed.
pub proof fn law_an_ungated_system_always_runs<
    V,
    O: ObserverSystem<V>,
    S: System<V, O>,
    C: ConditionSystem<V, O>,
>(
    before: ScheduledSystem<S, C>,
    at: EngineState<V, O>,
    after: ScheduledSystem<S, C>,
    then: EngineState<V, O>,
)
    requires
        took_turn(before, at, after, then),
        before.conditions@.len() == 0,
    ensures
        exists|ran: EngineState<V, O>| #[trigger]
            synced(ran, then) && System::runs(before.system, at, after.system, ran),
{
}

/// The systems of a chain run in the order of the chain, whatever else the
/// schedule holds, as long as no two neighbours bear the same name.
pub proof fn law_a_chain_runs_in_its_order<S, C>(
    before: ScheduleView<S, C>,
    chain: SystemChain<S, C>,
    order: Seq<usize>,
    i: int,
    j: int,
)
    requires
        chain.linked(),
        before.add_systems(chain).is_order(order),
        forall|k: int|
            0 < k < chain.systems().len() ==> (#[trigger] chain.systems()[k]).id
                != chain.systems()[k - 1].id,
        before.systems.len() + chain.systems().len() <= usize::MAX,
        0 <= i < j < chain.systems().len(),
    ensures
        ordering::place(order, before.systems.len() + i) < ordering::place(
            order,
            before.systems.len() + j,
        ),
    decreases j - i,
{
    let whole = before.add_systems(chain);
    let base = before.systems.len() as int;
    let dependent = base + j;
    let dependency = base + j - 1;
    let pair = (chain.systems()[j].id, chain.systems()[j - 1].id);
    assert(chain.constraints().contains(pair));
    let c = choose|c: int| 0 <= c < chain.constraints().len() && chain.constraints()[c] == pair;
    assert(whole.constraints[before.constraints.len() + c] == pair);
    assert(ordering::depends(whole.ids(), whole.constraints, dependent, dependency));
    assert(order.contains(dependent as usize) && order.contains(dependency as usize));
    ordering::law_every_constraint_holds(
        whole.ids(),
        whole.priorities(),
        whole.constraints,
        order,
        ordering::place(order, dependent),
        ordering::place(order, dependency),
    );
    if i < j - 1 {
        law_a_chain_runs_in_its_order(before, chain, order, i, j - 1);
    }
}

/// Every condition must hold: if one of them cannot hold in the state at the
/// system's turn, the system does not run, however the others answer. The
/// conditions after it are not evaluated.
pub proof fn law_one_condition_that_fails_holds_a_system_back<
    V,
    O: ObserverSystem<V>,
    S: System<V, O>,
    C: ConditionSystem<V, O>,
>(
    before: ScheduledSystem<S, C>,
    at: EngineState<V, O>,
    after: ScheduledSystem<S, C>,
    then: EngineState<V, O>,
    i: int,
)
    requires
        took_turn(before, at, after, then),
        0 <= i < before.conditions@.len(),
        forall|left: C| !#[trigger] C::evaluates(before.conditions@[i], at, left, true),
    ensures
        then == at,
        after.system == before.system,
        after.conditions@.len() == before.conditions@.len(),
        forall|j: int|
            i < j < before.conditions@.len() ==> #[trigger] after.conditions@[j]
                == before.conditions@[j],
{
    assert(!C::evaluates(before.conditions@[i], at, after.conditions@[i], true));
}

/// A system that ran passed every one of its conditions.
pub proof fn law_a_system_that_ran_passed_every_condition<
    V,
    O: ObserverSystem<V>,
    S: System<V, O>,
    C: ConditionSystem<V, O>,
>(
    before: ScheduledSystem<S, C>,
    at: EngineState<V, O>,
    after: ScheduledSystem<S, C>,
    then: EngineState<V, O>,
    i: int,
)
    requires
        took_turn(before, at, after, then),
        then != at || after.system != before.system,
        0 <= i < before.conditions@.len(),
    ensures
        after.conditions@.len() == before.conditions@.len(),
        C::evaluates(before.conditions@[i], at, after.conditions@[i], true),
{
}

/// A system none of whose conditions can fail in the state at its turn runs,
/// and its commands are flushed.
pub proof fn law_a_system_runs_when_no_condition_can_fail<
    V,
    O: ObserverSystem<V>,
    S: System<V, O>,
    C: ConditionSystem<V, O>,
>(
    before: ScheduledSystem<S, C>,
    at: EngineState<V, O>,
    after: ScheduledSystem<S, C>,
    then: EngineState<V, O>,
)
    requires
        took_turn(before, at, after, then),
        forall|i: int, left: C|
            0 <= i < before.conditions@.len() ==> !#[trigger] C::evaluates(
                before.conditions@[i],
                at,
                left,
                false,
            ),
    ensures
        exists|ran: EngineState<V, O>| #[trigger]
            synced(ran, then) && System::runs(before.system, at, after.system, ran),
{
}

/// What evaluating a list of conditions leaves: all hold exactly if each of
/// them does; if not, one was found that does not, everything before it holds
/// and everything after it is as it was.
pub proof fn law_a_gate_is_open_exactly_if_every_condition_holds<
    V,
    O,
    C: ConditionSystem<V, O>,
>(
    conditions: Seq<C>,
    at: EngineState<V, O>,
    then: Seq<C>,
    open: bool,
)
    requires
        gated(conditions, at, then, open),
    ensures
        then.len() == conditions.len(),
        open ==> forall|i: int|
            0 <= i < conditions.len() ==> C::evaluates(
                #[trigger] conditions[i],
                at,
                then[i],
                true,
            ),
        !open ==> exists|k: int|
            {
                &&& 0 <= k < conditions.len()
                &&& C::evaluates(#[trigger] conditions[k], at, then[k], false)
                &&& forall|i: int|
                    0 <= i < k ==> C::evaluates(#[trigger] conditions[i], at, then[i], true)
                &&& forall|i: int| k < i < conditions.len() ==> #[trigger] then[i] == conditions[i]
            },
{
}

/// A system with a name and a priority keeps both, whatever its turn does.
pub proof fn law_a_turn_keeps_name_and_priority<
    V,
    O: ObserverSystem<V>,
    S: System<V, O>,
    C: ConditionSystem<V, O>,
>(
    before: ScheduledSystem<S, C>,
    at: EngineState<V, O>,
    after: ScheduledSystem<S, C>,
    then: EngineState<V, O>,
)
    requires
        took_turn(before, at, after, then),
    ensures
        after.id == before.id,
        after.priority == before.priority,
        after.conditions@.len() == before.conditions@.len(),
{
}

/// The event is handed to each of the observers, one after another: each sees
/// the state that the one before it left.
pub proof fn law_each_observer_observes_the_event<V, O: ObserverSystem<V>>(
    observers: Seq<O>,
    event: V,
    then: Seq<O>,
    states: Seq<EngineState<V, O>>,
    i: int,
)
    requires
        observe_trace(observers, event, then, states),
        0 <= i < observers.len(),
    ensures
        then.len() == observers.len(),
        states.len() == observers.len() + 1,
        O::observes(observers[i], event, states[i], then[i], states[i + 1]),
{
}

/// Every queued trigger is handed out, in the order of queueing, to every
/// observer that its type has by then: the state goes from one trigger to the
/// next, and only a trigger without observers leaves it as it was. The
/// observers are out of the resources while they observe and back afterwards.
/// The first trigger finds the entity and the resource commands applied.
pub proof fn law_every_trigger_reaches_its_observers<V, O: ObserverSystem<V>>(
    before: EngineState<V, O>,
    after: EngineState<V, O>,
)
    requires
        synced(before, after),
    ensures
        exists|states: Seq<EngineState<V, O>>|
            {
                &&& #[trigger] states.len() == before.resources.triggers.len() + 1
                &&& states.last() == after
                &&& states.first().resources.observers == before.resources.observers
                &&& states.first().resources.events == before.resources.events
                &&& states.first().resources.triggers == Seq::<Triggered<V>>::empty()
                &&& states.first().resources.resource_commands
                    == Seq::<ResourceCommand<V>>::empty()
                &&& states.first().resources.custom == before.resources.apply_all(
                    before.resources.resource_commands,
                ).custom
                &&& states.first().resources.exit == before.resources.apply_all(
                    before.resources.resource_commands,
                ).exit
                &&& states.first().resources.backend_ready == before.resources.apply_all(
                    before.resources.resource_commands,
                ).backend_ready
                &&& entities::recorded_commands(states.first().resources.command_buffer) == 0
                &&& entities::commands_applied(
                    before.world,
                    before.resources.command_buffer,
                    states.first().world,
                )
                &&& forall|i: int|
                    0 <= i < before.resources.triggers.len() && !states[i].resources.observers.dom().contains(
                        (#[trigger] before.resources.triggers[i]).key,
                    ) ==> states[i + 1] == states[i]
                &&& forall|i: int|
                    0 <= i < before.resources.triggers.len() && states[i].resources.observers.dom().contains(
                        (#[trigger] before.resources.triggers[i]).key,
                    ) ==> exists|then: Seq<O>, steps: Seq<EngineState<V, O>>|
                        {
                            &&& #[trigger] observe_trace(
                                states[i].resources.observers[before.resources.triggers[i].key],
                                before.resources.triggers[i].event,
                                then,
                                steps,
                            )
                            &&& steps.first().world == states[i].world
                            &&& steps.first().resources == ResourcesView {
                                observers: states[i].resources.observers.insert(
                                    before.resources.triggers[i].key,
                                    Seq::empty(),
                                ),
                                ..states[i].resources
                            }
                            &&& states[i + 1].world == steps.last().world
                            &&& states[i + 1].resources == ResourcesView {
                                observers: steps.last().resources.observers.insert(
                                    before.resources.triggers[i].key,
                                    then,
                                ),
                                ..steps.last().resources
                            }
                        }
            },
{
    let flushed = choose|flushed: EngineState<V, O>|
        {
            &&& #[trigger] entity_commands_flushed(before, flushed)
            &&& triggers_fired(
                commands_flushed(flushed).resources.triggers,
                EngineState {
                    world: commands_flushed(flushed).world,
                    resources: ResourcesView {
                        triggers: Seq::empty(),
                        ..commands_flushed(flushed).resources
                    },
                },
                after,
            )
        };
    lemma_apply_all(
        ResourcesView { resource_commands: Seq::empty(), ..flushed.resources },
        flushed.resources.resource_commands,
    );
    let start = EngineState {
        world: commands_flushed(flushed).world,
        resources: ResourcesView {
            triggers: Seq::empty(),
            ..commands_flushed(flushed).resources
        },
    };
    let triggers = before.resources.triggers;
    assert(commands_flushed(flushed).resources.triggers == triggers);
    lemma_apply_all_same(
        ResourcesView { resource_commands: Seq::empty(), ..flushed.resources },
        before.resources,
        before.resources.resource_commands,
    );
    let states = choose|states: Seq<EngineState<V, O>>|
        {
            &&& #[trigger] trigger_trace(triggers, states)
            &&& states.first() == start
            &&& states.last() == after
        };
    assert forall|i: int| 0 <= i < triggers.len() implies trigger_fired(
        #[trigger] triggers[i],
        states[i],
        states[i + 1],
    ) by {}
    assert(states.len() == triggers.len() + 1);
}

/// With `n` queued triggers of one observed type, each observer of that type
/// observes all `n` events, in the order of queueing: `history` lists the
/// observers before the first event, between every two, and after the last,
/// and `steps` the states that they saw.
pub proof fn law_each_observer_observes_every_event<V, O: ObserverSystem<V>>(
    before: EngineState<V, O>,
    after: EngineState<V, O>,
    key: TypeKey,
)
    requires
        synced(before, after),
        before.resources.observers.dom().contains(key),
        forall|i: int|
            0 <= i < before.resources.triggers.len() ==> (
            #[trigger] before.resources.triggers[i]).key == key,
    ensures
        exists|history: Seq<Seq<O>>, steps: Seq<Seq<EngineState<V, O>>>|
            {
                &&& #[trigger] steps.len() == before.resources.triggers.len()
                &&& #[trigger] history.len() == before.resources.triggers.len() + 1
                &&& history.first() == before.resources.observers[key]
                &&& after.resources.observers.dom().contains(key)
                &&& history.last() == after.resources.observers[key]
                &&& forall|i: int|
                    0 <= i < history.len() ==> (#[trigger] history[i]).len()
                        == history.first().len()
                &&& forall|i: int, j: int|
                    0 <= i < before.resources.triggers.len() && 0 <= j < history.first().len()
                        ==> O::observes(
                        #[trigger] history[i][j],
                        before.resources.triggers[i].event,
                        steps[i][j],
                        history[i + 1][j],
                        steps[i][j + 1],
                    )
            },
{
    law_every_trigger_reaches_its_observers(before, after);
    let triggers = before.resources.triggers;
    let states = choose|states: Seq<EngineState<V, O>>|
        {
            &&& #[trigger] states.len() == before.resources.triggers.len() + 1
            &&& states.last() == after
            &&& states.first().resources.observers == before.resources.observers
            &&& states.first().resources.events == before.resources.events
            &&& states.first().resources.triggers == Seq::<Triggered<V>>::empty()
            &&& states.first().resources.resource_commands == Seq::<ResourceCommand<V>>::empty()
            &&& forall|i: int|
                0 <= i < before.resources.triggers.len() && !states[i].resources.observers.dom().contains(
                    (#[trigger] before.resources.triggers[i]).key,
                ) ==> states[i + 1] == states[i]
            &&& forall|i: int|
                0 <= i < before.resources.triggers.len() && states[i].resources.observers.dom().contains(
                    (#[trigger] before.resources.triggers[i]).key,
                ) ==> exists|then: Seq<O>, steps: Seq<EngineState<V, O>>|
                    {
                        &&& #[trigger] observe_trace(
                            states[i].resources.observers[before.resources.triggers[i].key],
                            before.resources.triggers[i].event,
                            then,
                            steps,
                        )
                        &&& steps.first().world == states[i].world
                        &&& steps.first().resources == ResourcesView {
                            observers: states[i].resources.observers.insert(
                                before.resources.triggers[i].key,
                                Seq::empty(),
                            ),
                            ..states[i].resources
                        }
                        &&& states[i + 1].world == steps.last().world
                        &&& states[i + 1].resources == ResourcesView {
                            observers: steps.last().resources.observers.insert(
                                before.resources.triggers[i].key,
                                then,
                            ),
                            ..steps.last().resources
                        }
                    }
        };
    let history = Seq::new(
        (triggers.len() + 1) as nat,
        |i: int| states[i].resources.observers[key],
    );
    assert forall|k: int| 0 <= k <= triggers.len() implies {
        &&& (#[trigger] states[k]).resources.observers.dom().contains(key)
        &&& history[k].len() == history[0].len()
        &&& k > 0 ==> exists|steps: Seq<EngineState<V, O>>| #[trigger]
            observe_trace(history[k - 1], triggers[k - 1].event, history[k], steps)
    } by {
        lemma_observed_so_far(triggers, states, key, k);
        assert(history[k] == states[k].resources.observers[key]);
        assert(history[0] == states[0].resources.observers[key]);
        if k > 0 {
            assert(history[k - 1] == states[k - 1].resources.observers[key]);
        }
    }
    let steps = Seq::new(
        triggers.len(),
        |i: int|
            choose|steps: Seq<EngineState<V, O>>| #[trigger]
                observe_trace(history[i], triggers[i].event, history[i + 1], steps),
    );
    assert forall|i: int, j: int|
        0 <= i < triggers.len() && 0 <= j < history.first().len() implies O::observes(
        #[trigger] history[i][j],
        triggers[i].event,
        steps[i][j],
        history[i + 1][j],
        steps[i][j + 1],
    ) by {
        assert(states[i] == states[i] && states[i + 1] == states[i + 1]);
        law_each_observer_observes_the_event(
            history[i],
            triggers[i].event,
            history[i + 1],
            steps[i],
            j,
        );
    }
    assert forall|i: int| 0 <= i < history.len() implies (#[trigger] history[i]).len()
        == history.first().len() by {
        assert(states[i] == states[i]);
    }
    let last = triggers.len() as int;
    assert(states[last] == after);
    assert(history[last] == states[last].resources.observers[key]);
    assert(history[0] == states[0].resources.observers[key]);
    assert(history.first() == before.resources.observers[key]);
    assert(history.last() == after.resources.observers[key]);
    assert(steps.len() == before.resources.triggers.len());
    assert(history.len() == before.resources.triggers.len() + 1);
}

/// While triggers of one type are handed out, that type keeps its observers,
/// each having observed what was handed out so far.
proof fn lemma_observed_so_far<V, O: ObserverSystem<V>>(
    triggers: Seq<Triggered<V>>,
    states: Seq<EngineState<V, O>>,
    key: TypeKey,
    k: int,
)
    requires
        states.len() == triggers.len() + 1,
        states[0].resources.observers.dom().contains(key),
        forall|i: int| 0 <= i < triggers.len() ==> (#[trigger] triggers[i]).key == key,
        forall|i: int|
            0 <= i < triggers.len() && states[i].resources.observers.dom().contains(
                (#[trigger] triggers[i]).key,
            ) ==> exists|then: Seq<O>, steps: Seq<EngineState<V, O>>|
                {
                    &&& #[trigger] observe_trace(
                        states[i].resources.observers[triggers[i].key],
                        triggers[i].event,
                        then,
                        steps,
                    )
                    &&& states[i + 1].resources == ResourcesView {
                        observers: steps.last().resources.observers.insert(triggers[i].key, then),
                        ..steps.last().resources
                    }
                },
        0 <= k <= triggers.len(),
    ensures
        states[k].resources.observers.dom().contains(key),
        states[k].resources.observers[key].len() == states[0].resources.observers[key].len(),
        k > 0 ==> exists|steps: Seq<EngineState<V, O>>| #[trigger]
            observe_trace(
                states[k - 1].resources.observers[key],
                triggers[k - 1].event,
                states[k].resources.observers[key],
                steps,
            ),
    decreases k,
{
    if k > 0 {
        lemma_observed_so_far(triggers, states, key, k - 1);
        let i = k - 1;
        assert(triggers[i].key == key);
        let (then, steps) = choose|then: Seq<O>, steps: Seq<EngineState<V, O>>|
            {
                &&& #[trigger] observe_trace(
                    states[i].resources.observers[triggers[i].key],
                    triggers[i].event,
                    then,
                    steps,
                )
                &&& states[i + 1].resources == ResourcesView {
                    observers: steps.last().resources.observers.insert(triggers[i].key, then),
                    ..steps.last().resources
                }
            };
        assert(states[k].resources.observers[key] == then);
        assert(observe_trace(
            states[k - 1].resources.observers[key],
            triggers[k - 1].event,
            states[k].resources.observers[key],
            steps,
        ));
    }
}

/// A flush runs the recorded entity commands and then the queued resource
/// commands, and leaves neither behind. Where nothing was triggered that is
/// all it does.
pub proof fn law_a_flush_applies_every_command<V, O: ObserverSystem<V>>(
    before: EngineState<V, O>,
    after: EngineState<V, O>,
)
    requires
        synced(before, after),
        before.resources.triggers.len() == 0,
    ensures
        entities::commands_applied(before.world, before.resources.command_buffer, after.world),
        entities::recorded_commands(after.resources.command_buffer) == 0,
        after.resources.resource_commands == Seq::<ResourceCommand<V>>::empty(),
        after.resources.triggers == Seq::<Triggered<V>>::empty(),
        after.resources.events == before.resources.events,
        after.resources.observers == before.resources.observers,
        after.resources.custom == before.resources.apply_all(
            before.resources.resource_commands,
        ).custom,
        after.resources.exit == before.resources.apply_all(
            before.resources.resource_commands,
        ).exit,
        after.resources.backend_ready == before.resources.apply_all(
            before.resources.resource_commands,
        ).backend_ready,
{
    let flushed = choose|flushed: EngineState<V, O>|
        {
            &&& #[trigger] entity_commands_flushed(before, flushed)
            &&& triggers_fired(
                commands_flushed(flushed).resources.triggers,
                EngineState {
                    world: commands_flushed(flushed).world,
                    resources: ResourcesView {
                        triggers: Seq::empty(),
                        ..commands_flushed(flushed).resources
                    },
                },
                after,
            )
        };
    let bare = ResourcesView { resource_commands: Seq::empty(), ..flushed.resources };
    lemma_apply_all(bare, flushed.resources.resource_commands);
    lemma_apply_all_same(bare, before.resources, before.resources.resource_commands);
    assert(commands_flushed(flushed).resources.triggers =~= Seq::empty());
}

/// What commands do to the resources does not depend on what is deferred.
proof fn lemma_apply_all_same<V, O>(
    one: ResourcesView<V, O>,
    other: ResourcesView<V, O>,
    commands: Seq<ResourceCommand<V>>,
)
    requires
        one.custom == other.custom,
        one.exit == other.exit,
        one.backend_ready == other.backend_ready,
    ensures
        one.apply_all(commands).custom == other.apply_all(commands).custom,
        one.apply_all(commands).exit == other.apply_all(commands).exit,
        one.apply_all(commands).backend_ready == other.apply_all(commands).backend_ready,
    decreases commands.len(),
{
    if commands.len() > 0 {
        lemma_apply_all_same(one, other, commands.drop_last());
    }
}

/// A run gives each system exactly one turn: `order` lists every system once,
/// and each turn begins in the state that the one before it left.
pub proof fn law_every_system_has_one_turn<
    V,
    O: ObserverSystem<V>,
    S: System<V, O>,
    C: ConditionSystem<V, O>,
>(
    before: ScheduleView<S, C>,
    at: EngineState<V, O>,
    after: ScheduleView<S, C>,
    then: EngineState<V, O>,
)
    requires
        schedule_ran(before, at, after, then),
    ensures
        after.systems.len() == before.systems.len(),
        after.constraints == before.constraints,
        exists|order: Seq<usize>, states: Seq<EngineState<V, O>>|
            {
                &&& #[trigger] before.is_order(order)
                &&& #[trigger] states.len() == before.systems.len() + 1
                &&& order.len() == before.systems.len()
                &&& order.no_duplicates()
                &&& states.first() == at
                &&& states.last() == then
                &&& forall|k: int|
                    0 <= k < order.len() ==> 0 <= #[trigger] order[k] < before.systems.len()
                        && took_turn(
                        before.systems[order[k] as int],
                        states[k],
                        after.systems[order[k] as int],
                        states[k + 1],
                    )
            },
{
    let (order, points) = choose|order: Seq<usize>, points: Seq<RunPoint<V, O, S, C>>|
        {
            &&& before.is_order(order)
            &&& #[trigger] run_trace(order, points)
            &&& points.first().systems == before.systems
            &&& points.first().state == at
            &&& points.last().systems == after.systems
            &&& points.last().state == then
        };
    ordering::law_every_system_runs_once(
        before.ids(),
        before.priorities(),
        before.constraints,
        order,
    );
    let n = order.len() as int;
    let states = Seq::new(points.len(), |k: int| points[k].state);
    assert(before.ids().len() == before.systems.len());
    assert forall|k: int| 0 <= k < n implies 0 <= #[trigger] order[k] < before.systems.len()
        && took_turn(
        before.systems[order[k] as int],
        states[k],
        after.systems[order[k] as int],
        states[k + 1],
    ) by {
        assert(order.contains(order[k]));
        lemma_untouched(order, points, order[k] as int, 0, k);
        assert(turn_at(order[k] as int, points[k], points[k + 1]));
        lemma_untouched(order, points, order[k] as int, k + 1, n);
    }
    lemma_run_keeps_length(order, points, n);
    assert(states.len() == before.systems.len() + 1);
}

proof fn lemma_run_keeps_length<
    V,
    O: ObserverSystem<V>,
    S: System<V, O>,
    C: ConditionSystem<V, O>,
>(order: Seq<usize>, points: Seq<RunPoint<V, O, S, C>>, k: int)
    requires
        run_trace(order, points),
        0 <= k < points.len(),
    ensures
        points[k].systems.len() == points[0].systems.len(),
    decreases k,
{
    if k > 0 {
        lemma_run_keeps_length(order, points, k - 1);
        assert(turn_at(order[k - 1] as int, points[k - 1], points[k - 1 + 1]));
    }
}

/// A system does not change while others have their turns.
proof fn lemma_untouched<V, O: ObserverSystem<V>, S: System<V, O>, C: ConditionSystem<V, O>>(
    order: Seq<usize>,
    points: Seq<RunPoint<V, O, S, C>>,
    i: int,
    from: int,
    to: int,
)
    requires
        run_trace(order, points),
        0 <= from <= to < points.len(),
        0 <= i < points[0].systems.len(),
        forall|k: int| from <= k < to ==> #[trigger] order[k] != i,
    ensures
        points[to].systems[i] == points[from].systems[i],
    decreases to - from,
{
    if from < to {
        lemma_untouched(order, points, i, from, to - 1);
        lemma_run_keeps_length(order, points, to - 1);
        assert(turn_at(order[to - 1] as int, points[to - 1], points[to - 1 + 1]));
        assert(order[to - 1] != i);
    }
}

/// What is added comes after what is there, as it is: nothing that the
/// schedule holds is lost or moved, and no constraint either.
pub proof fn law_adding_keeps_what_is_there<S, C>(
    before: ScheduleView<S, C>,
    config: SystemConfig<S, C>,
    chain: SystemChain<S, C>,
    i: int,
    c: (SystemId, SystemId),
)
    requires
        0 <= i < before.systems.len(),
    ensures
        before.add_system(config).systems.len() == before.systems.len() + 1,
        before.add_system(config).systems[i] == before.systems[i],
        before.add_system(config).systems.last().id == config.id,
        before.add_system(config).systems.last().system == config.system,
        before.add_system(config).systems.last().conditions == config.conditions,
        before.add_system(config).systems.last().priority == config.priority,
        before.add_system(config).constraints.contains(c) <==> before.constraints.contains(c)
            || config.constraints@.contains(c),
        before.add_systems(chain).systems.len() == before.systems.len() + chain.systems().len(),
        before.add_systems(chain).systems[i] == before.systems[i],
        forall|k: int|
            0 <= k < chain.systems().len() ==> before.add_systems(chain).systems[before.systems.len()
                + k] == #[trigger] chain.systems()[k],
        before.add_systems(chain).constraints.contains(c) <==> before.constraints.contains(c)
            || chain.constraints().contains(c),
{
    lemma_contains_either(before.constraints, config.constraints@, c);
    lemma_contains_either(before.constraints, chain.constraints(), c);
}

proof fn lemma_contains_either(
    one: Seq<(SystemId, SystemId)>,
    other: Seq<(SystemId, SystemId)>,
    c: (SystemId, SystemId),
)
    ensures
        (one + other).contains(c) <==> one.contains(c) || other.contains(c),
{
    let both = one + other;
    if one.contains(c) {
        let k = choose|k: int| 0 <= k < one.len() && one[k] == c;
        assert(both[k] == c);
    }
    if other.contains(c) {
        let k = choose|k: int| 0 <= k < other.len() && other[k] == c;
        assert(both[one.len() + k] == c);
    }
    if both.contains(c) {
        let k = choose|k: int| 0 <= k < both.len() && both[k] == c;
        if k < one.len() {
            assert(one[k] == c);
        } else {
            assert(other[k - one.len()] == c);
        }
    }
}

/// A system that was told to run after another does, and one that was told to
/// run before another does, wherever in the schedule the two stand.
pub proof fn law_after_and_before_hold<S, C>(
    schedule: ScheduleView<S, C>,
    order: Seq<usize>,
    c: int,
    dependent: int,
    dependency: int,
)
    requires
        schedule.is_order(order),
        0 <= c < schedule.constraints.len(),
        schedule.constraints[c].0 != schedule.constraints[c].1,
        0 <= dependent < order.len(),
        0 <= dependency < order.len(),
        schedule.systems[order[dependent] as int].id == schedule.constraints[c].0,
        schedule.systems[order[dependency] as int].id == schedule.constraints[c].1,
    ensures
        dependency < dependent,
{
    ordering::law_every_system_runs_once(
        schedule.ids(),
        schedule.priorities(),
        schedule.constraints,
        order,
    );
    assert(order.contains(order[dependent]) && order.contains(order[dependency]));
    ordering::law_a_dependent_runs_after_its_dependency(
        schedule.ids(),
        schedule.priorities(),
        schedule.constraints,
        order,
        c,
        dependent,
        dependency,
    );
}

/// Of two systems without constraints of their own, the one with the higher
/// priority runs first, and at equal priority the one added first.
pub proof fn law_free_systems_run_by_priority<S, C>(
    schedule: ScheduleView<S, C>,
    order: Seq<usize>,
    free: int,
    other: int,
)
    requires
        schedule.systems.len() <= usize::MAX,
        schedule.is_order(order),
        0 <= free < order.len(),
        0 <= other < order.len(),
        forall|c: int|
            0 <= c < schedule.constraints.len() ==> (#[trigger] schedule.constraints[c]).0
                != schedule.systems[order[free] as int].id,
        schedule.systems[order[free] as int].priority
            > schedule.systems[order[other] as int].priority || (
        schedule.systems[order[free] as int].priority
            == schedule.systems[order[other] as int].priority && order[free] < order[other]),
    ensures
        free < other,
{
    ordering::law_every_system_runs_once(
        schedule.ids(),
        schedule.priorities(),
        schedule.constraints,
        order,
    );
    assert(order.contains(order[free]) && order.contains(order[other]));
    ordering::law_a_free_system_runs_by_its_priority(
        schedule.ids(),
        schedule.priorities(),
        schedule.constraints,
        order,
        free,
        other,
    );
}

// ---------------------------------------------------------------------------
// Laws of the operations
// ---------------------------------------------------------------------------

/// Evaluating conditions answers whether every one of them holds: if one
/// cannot hold the answer is no, if none can fail it is yes, and a yes means
/// that each was evaluated and held.
pub proof fn law_evaluating_asks_every_condition<V, O, C: ConditionSystem<V, O>>(
    conditions: &mut Vec<C>,
    world: &hecs::World,
    resources: &Resources<V, O>,
    open: bool,
    i: int,
)
    requires
        call_ensures(evaluate_all::<V, O, C>, (conditions, world, resources), open),
    ensures
        final(conditions)@.len() == old(conditions)@.len(),
        open && 0 <= i < old(conditions)@.len() ==> C::evaluates(
            old(conditions)@[i],
            (EngineState { world: *world, resources: resources@ }),
            final(conditions)@[i],
            true,
        ),
        0 <= i < old(conditions)@.len() && (forall|left: C| !#[trigger]
            C::evaluates(
                old(conditions)@[i],
                (EngineState { world: *world, resources: resources@ }),
                left,
                true,
            )) ==> !open && forall|j: int|
            i < j < old(conditions)@.len() ==> #[trigger] final(conditions)@[j] == old(
                conditions,
            )@[j],
        (forall|j: int, left: C|
            0 <= j < old(conditions)@.len() ==> !#[trigger] C::evaluates(
                old(conditions)@[j],
                (EngineState { world: *world, resources: resources@ }),
                left,
                false,
            )) ==> open,
{
    let at = EngineState { world: *world, resources: resources@ };
    assert(at == state_of(*world, *resources));
    law_a_gate_is_open_exactly_if_every_condition_holds(
        old(conditions)@,
        at,
        final(conditions)@,
        open,
    );
    if 0 <= i < old(conditions)@.len() && forall|left: C| !#[trigger]
        C::evaluates(old(conditions)@[i], at, left, true) {
        assert(!C::evaluates(old(conditions)@[i], at, final(conditions)@[i], true));
        assert(!open);
        let k = choose|k: int|
            {
                &&& 0 <= k < old(conditions)@.len()
                &&& C::evaluates(
                    #[trigger] old(conditions)@[k],
                    at,
                    final(conditions)@[k],
                    false,
                )
                &&& forall|i: int|
                    0 <= i < k ==> C::evaluates(
                        #[trigger] old(conditions)@[i],
                        at,
                        final(conditions)@[i],
                        true,
                    )
                &&& forall|i: int|
                    k < i < old(conditions)@.len() ==> #[trigger] final(conditions)@[i] == old(
                        conditions,
                    )@[i]
            };
        assert(k <= i);
    }
}

/// Flushing hands each queued trigger to every observer of its type, in the
/// order of queueing and after the commands: see
/// [`law_every_trigger_reaches_its_observers`]. With triggers of one type
/// only, each of its observers observes every one of their events.
pub proof fn law_flushing_hands_out_every_trigger<V, O: ObserverSystem<V>>(
    world: &mut hecs::World,
    resources: &mut Resources<V, O>,
    key: TypeKey,
)
    requires
        call_ensures(sync_commands::<V, O>, (world, resources), ()),
        old(resources)@.observers.dom().contains(key),
        forall|i: int|
            0 <= i < old(resources)@.triggers.len() ==> (#[trigger] old(
                resources,
            )@.triggers[i]).key == key,
    ensures
        exists|history: Seq<Seq<O>>, steps: Seq<Seq<EngineState<V, O>>>|
            {
                &&& #[trigger] steps.len() == old(resources)@.triggers.len()
                &&& #[trigger] history.len() == old(resources)@.triggers.len() + 1
                &&& history.first() == old(resources)@.observers[key]
                &&& final(resources)@.observers.dom().contains(key)
                &&& history.last() == final(resources)@.observers[key]
                &&& forall|i: int|
                    0 <= i < history.len() ==> (#[trigger] history[i]).len()
                        == history.first().len()
                &&& forall|i: int, j: int|
                    0 <= i < old(resources)@.triggers.len() && 0 <= j < history.first().len()
                        ==> O::observes(
                        #[trigger] history[i][j],
                        old(resources)@.triggers[i].event,
                        steps[i][j],
                        history[i + 1][j],
                        steps[i][j + 1],
                    )
            },
{
    law_each_observer_observes_every_event(
        EngineState { world: *old(world), resources: old(resources)@ },
        EngineState { world: *final(world), resources: final(resources)@ },
        key,
    );
}

/// Flushing goes through every queued trigger, whatever their types: `states`
/// begins where the commands have been applied, goes from one trigger to the
/// next, and ends where the flush does. A trigger with observers is handed to
/// each of them in turn; one without changes nothing.
pub proof fn law_flushing_goes_through_every_trigger<V, O: ObserverSystem<V>>(
    world: &mut hecs::World,
    resources: &mut Resources<V, O>,
)
    requires
        call_ensures(sync_commands::<V, O>, (world, resources), ()),
    ensures
        exists|states: Seq<EngineState<V, O>>|
            {
                &&& #[trigger] states.len() == old(resources)@.triggers.len() + 1
                &&& states.last().world == *final(world)
                &&& states.last().resources == final(resources)@
                &&& states.first().resources.observers == old(resources)@.observers
                &&& states.first().resources.events == old(resources)@.events
                &&& states.first().resources.triggers.len() == 0
                &&& states.first().resources.resource_commands.len() == 0
                &&& states.first().resources.custom == old(resources)@.apply_all(
                    old(resources)@.resource_commands,
                ).custom
                &&& states.first().resources.exit == old(resources)@.apply_all(
                    old(resources)@.resource_commands,
                ).exit
                &&& states.first().resources.backend_ready == old(resources)@.apply_all(
                    old(resources)@.resource_commands,
                ).backend_ready
                &&& entities::recorded_commands(states.first().resources.command_buffer) == 0
                &&& entities::commands_applied(
                    *old(world),
                    old(resources)@.command_buffer,
                    states.first().world,
                )
                &&& forall|i: int|
                    0 <= i < old(resources)@.triggers.len() && !states[i].resources.observers.dom().contains(
                        (#[trigger] old(resources)@.triggers[i]).key,
                    ) ==> states[i + 1] == states[i]
                &&& forall|i: int|
                    0 <= i < old(resources)@.triggers.len() && states[i].resources.observers.dom().contains(
                        (#[trigger] old(resources)@.triggers[i]).key,
                    ) ==> exists|then: Seq<O>, steps: Seq<EngineState<V, O>>|
                        {
                            &&& #[trigger] then.len() == states[i].resources.observers[old(
                                resources,
                            )@.triggers[i].key].len()
                            &&& #[trigger] steps.len() == then.len() + 1
                            &&& forall|j: int|
                                0 <= j < then.len() ==> O::observes(
                                    states[i].resources.observers[old(resources)@.triggers[i].key][j],
                                    old(resources)@.triggers[i].event,
                                    steps[j],
                                    #[trigger] then[j],
                                    steps[j + 1],
                                )
                            &&& steps.first().world == states[i].world
                            &&& steps.first().resources == ResourcesView {
                                observers: states[i].resources.observers.insert(
                                    old(resources)@.triggers[i].key,
                                    Seq::empty(),
                                ),
                                ..states[i].resources
                            }
                            &&& states[i + 1].world == steps.last().world
                            &&& states[i + 1].resources == ResourcesView {
                                observers: steps.last().resources.observers.insert(
                                    old(resources)@.triggers[i].key,
                                    then,
                                ),
                                ..steps.last().resources
                            }
                        }
            },
{
    let before = EngineState { world: *old(world), resources: old(resources)@ };
    let after = EngineState { world: *final(world), resources: final(resources)@ };
    let triggers = before.resources.triggers;
    let states = lemma_flush_states(before, after);
    assert forall|i: int|
        0 <= i < triggers.len() && states[i].resources.observers.dom().contains(
            (#[trigger] triggers[i]).key,
        ) implies exists|then: Seq<O>, steps: Seq<EngineState<V, O>>|
        {
            &&& #[trigger] then.len() == states[i].resources.observers[triggers[i].key].len()
            &&& #[trigger] steps.len() == then.len() + 1
            &&& forall|j: int|
                0 <= j < then.len() ==> O::observes(
                    states[i].resources.observers[triggers[i].key][j],
                    triggers[i].event,
                    steps[j],
                    #[trigger] then[j],
                    steps[j + 1],
                )
            &&& steps.first().world == states[i].world
            &&& steps.first().resources == ResourcesView {
                observers: states[i].resources.observers.insert(triggers[i].key, Seq::empty()),
                ..states[i].resources
            }
            &&& states[i + 1].world == steps.last().world
            &&& states[i + 1].resources == ResourcesView {
                observers: steps.last().resources.observers.insert(triggers[i].key, then),
                ..steps.last().resources
            }
        } by {
        let observers = states[i].resources.observers[triggers[i].key];
        assert(trigger_fired(triggers[i], states[i], states[i + 1]));
        let (then, steps) = choose|then: Seq<O>, steps: Seq<EngineState<V, O>>|
            {
                &&& #[trigger] observe_trace(observers, triggers[i].event, then, steps)
                &&& steps.first() == EngineState {
                    world: states[i].world,
                    resources: states[i].resources.with_observers(triggers[i].key, Seq::empty()),
                }
                &&& states[i + 1] == EngineState {
                    world: steps.last().world,
                    resources: steps.last().resources.with_observers(triggers[i].key, then),
                }
            };
        assert forall|j: int| 0 <= j < then.len() implies O::observes(
            observers[j],
            triggers[i].event,
            steps[j],
            #[trigger] then[j],
            steps[j + 1],
        ) by {
            law_each_observer_observes_the_event(observers, triggers[i].event, then, steps, j);
        }
        assert(then.len() == observers.len() && steps.len() == then.len() + 1);
    }
    assert(states.len() == old(resources)@.triggers.len() + 1);
}

/// The states through which a flush hands out its triggers.
proof fn lemma_flush_states<V, O: ObserverSystem<V>>(
    before: EngineState<V, O>,
    after: EngineState<V, O>,
) -> (states: Seq<EngineState<V, O>>)
    requires
        synced(before, after),
    ensures
        states.len() == before.resources.triggers.len() + 1,
        states.last() == after,
        states.first().resources.observers == before.resources.observers,
        states.first().resources.events == before.resources.events,
        states.first().resources.triggers.len() == 0,
        states.first().resources.resource_commands.len() == 0,
        states.first().resources.custom == before.resources.apply_all(
            before.resources.resource_commands,
        ).custom,
        states.first().resources.exit == before.resources.apply_all(
            before.resources.resource_commands,
        ).exit,
        states.first().resources.backend_ready == before.resources.apply_all(
            before.resources.resource_commands,
        ).backend_ready,
        entities::recorded_commands(states.first().resources.command_buffer) == 0,
        entities::commands_applied(
            before.world,
            before.resources.command_buffer,
            states.first().world,
        ),
        forall|i: int|
            0 <= i < before.resources.triggers.len() ==> trigger_fired(
                #[trigger] before.resources.triggers[i],
                states[i],
                states[i + 1],
            ),
{
    let flushed = choose|flushed: EngineState<V, O>|
        {
            &&& #[trigger] entity_commands_flushed(before, flushed)
            &&& triggers_fired(
                commands_flushed(flushed).resources.triggers,
                EngineState {
                    world: commands_flushed(flushed).world,
                    resources: ResourcesView {
                        triggers: Seq::empty(),
                        ..commands_flushed(flushed).resources
                    },
                },
                after,
            )
        };
    let bare = ResourcesView { resource_commands: Seq::empty(), ..flushed.resources };
    lemma_apply_all(bare, flushed.resources.resource_commands);
    lemma_apply_all_same(bare, before.resources, before.resources.resource_commands);
    let start = EngineState {
        world: commands_flushed(flushed).world,
        resources: ResourcesView {
            triggers: Seq::empty(),
            ..commands_flushed(flushed).resources
        },
    };
    let triggers = before.resources.triggers;
    assert(commands_flushed(flushed).resources.triggers == triggers);
    choose|states: Seq<EngineState<V, O>>|
        {
            &&& #[trigger] trigger_trace(triggers, states)
            &&& states.first() == start
            &&& states.last() == after
        }
}

/// One triggered event goes to every observer of its type, in the order of
/// registration, each once. `steps` is the state before the first of them,
/// between every two, and after the last; the observers are back in place
/// after it, as the event left them. Without observers nothing happens.
pub proof fn law_a_triggered_event_goes_to_every_observer<V, O: ObserverSystem<V>>(
    triggered: Triggered<V>,
    world: &mut hecs::World,
    resources: &mut Resources<V, O>,
)
    requires
        call_ensures(fire_trigger::<V, O>, (triggered, world, resources), ()),
    ensures
        !old(resources)@.observers.dom().contains(triggered.key) ==> *final(world) == *old(world)
            && final(resources)@ == old(resources)@,
        old(resources)@.observers.dom().contains(triggered.key) ==> exists|
            steps: Seq<EngineState<V, O>>,
        | {
            let observers = old(resources)@.observers[triggered.key];
            &&& final(resources)@.observers.dom().contains(triggered.key)
            &&& final(resources)@.observers[triggered.key].len() == observers.len()
            &&& #[trigger] steps.len() == old(resources)@.observers[triggered.key].len() + 1
            &&& steps.first().world == *old(world)
            &&& steps.first().resources.custom == old(resources)@.custom
            &&& steps.first().resources.events == old(resources)@.events
            &&& steps.last().world == *final(world)
            &&& steps.last().resources.custom == final(resources)@.custom
            &&& steps.last().resources.events == final(resources)@.events
            &&& steps.last().resources.triggers == final(resources)@.triggers
            &&& forall|i: int|
                0 <= i < observers.len() ==> O::observes(
                    #[trigger] observers[i],
                    triggered.event,
                    steps[i],
                    final(resources)@.observers[triggered.key][i],
                    steps[i + 1],
                )
        },
{
    let before = EngineState { world: *old(world), resources: old(resources)@ };
    let after = EngineState { world: *final(world), resources: final(resources)@ };
    if before.resources.observers.dom().contains(triggered.key) {
        let observers = before.resources.observers[triggered.key];
        let (then, steps) = choose|then: Seq<O>, steps: Seq<EngineState<V, O>>|
            {
                &&& #[trigger] observe_trace(observers, triggered.event, then, steps)
                &&& steps.first() == EngineState {
                    world: before.world,
                    resources: before.resources.with_observers(triggered.key, Seq::empty()),
                }
                &&& after == EngineState {
                    world: steps.last().world,
                    resources: steps.last().resources.with_observers(triggered.key, then),
                }
            };
        assert(final(resources)@.observers[triggered.key] == then);
        assert forall|i: int| 0 <= i < observers.len() implies O::observes(
            #[trigger] observers[i],
            triggered.event,
            steps[i],
            final(resources)@.observers[triggered.key][i],
            steps[i + 1],
        ) by {
            law_each_observer_observes_the_event(observers, triggered.event, then, steps, i);
        }
        assert(steps.len() == old(resources)@.observers[triggered.key].len() + 1);
    }
}

/// A schedule gives each of its systems one turn, in an order in which every
/// constraint holds. A system one of whose conditions cannot hold at its turn
/// is left as it is, and so is the state; one that ran passed every condition,
/// and what it deferred was flushed before the next turn. `turns` lists the
/// systems in the order of their turns, and `states` the state before the
/// first turn, between every two, and after the last.
pub proof fn law_a_run_gives_every_system_its_turn<
    V,
    O: ObserverSystem<V>,
    S: System<V, O>,
    C: ConditionSystem<V, O>,
>(
    schedule: &mut Schedule<S, C>,
    world: &mut hecs::World,
    resources: &mut Resources<V, O>,
)
    requires
        call_ensures(Schedule::<S, C>::run::<V, O>, (schedule, world, resources), ()),
    ensures
        exists|turns: Seq<usize>, states: Seq<EngineState<V, O>>|
            {
                &&& #[trigger] turns.len() == old(schedule)@.systems.len()
                &&& turns.no_duplicates()
                &&& #[trigger] states.len() == turns.len() + 1
                &&& states.first() == (EngineState { world: *old(world), resources: old(resources)@ })
                &&& states.last() == (EngineState { world: *final(world), resources: final(resources)@ })
                &&& final(schedule)@.systems.len() == old(schedule)@.systems.len()
                &&& final(schedule)@.constraints == old(schedule)@.constraints
                &&& forall|c: int, p: int, q: int|
                    #![trigger old(schedule)@.constraints[c], turns[p], turns[q]]
                    0 <= c < old(schedule)@.constraints.len() && old(schedule)@.constraints[c].0 != old(
                        schedule,
                    )@.constraints[c].1 && 0 <= p < turns.len() && 0 <= q < turns.len() && old(
                        schedule,
                    )@.systems[turns[p] as int].id == old(schedule)@.constraints[c].0 && old(
                        schedule,
                    )@.systems[turns[q] as int].id == old(schedule)@.constraints[c].1 ==> q < p
                &&& forall|k: int|
                    0 <= k < turns.len() ==> {
                        let before = old(schedule)@.systems[#[trigger] turns[k] as int];
                        let after = final(schedule)@.systems[turns[k] as int];
                        let at = states[k];
                        let then = states[k + 1];
                        &&& 0 <= turns[k] < old(schedule)@.systems.len()
                        &&& after.id == before.id
                        &&& after.priority == before.priority
                        &&& after.conditions@.len() == before.conditions@.len()
                        &&& {
                            ||| {
                                &&& exists|i: int|
                                    0 <= i < before.conditions@.len() && C::evaluates(
                                        #[trigger] before.conditions@[i],
                                        at,
                                        after.conditions@[i],
                                        false,
                                    )
                                &&& after.system == before.system
                                &&& then == at
                            }
                            ||| {
                                &&& forall|i: int|
                                    0 <= i < before.conditions@.len() ==> C::evaluates(
                                        #[trigger] before.conditions@[i],
                                        at,
                                        after.conditions@[i],
                                        true,
                                    )
                                &&& exists|ran: EngineState<V, O>| #[trigger]
                                    synced(ran, then) && System::runs(
                                        before.system,
                                        at,
                                        after.system,
                                        ran,
                                    )
                            }
                        }
                    }
            },
{
    let before = old(schedule)@;
    let after = final(schedule)@;
    let at = EngineState { world: *old(world), resources: old(resources)@ };
    let then = EngineState { world: *final(world), resources: final(resources)@ };
    law_every_system_has_one_turn(before, at, after, then);
    let (order, states) = choose|order: Seq<usize>, states: Seq<EngineState<V, O>>|
        {
            &&& #[trigger] before.is_order(order)
            &&& #[trigger] states.len() == before.systems.len() + 1
            &&& order.len() == before.systems.len()
            &&& order.no_duplicates()
            &&& states.first() == at
            &&& states.last() == then
            &&& forall|k: int|
                0 <= k < order.len() ==> 0 <= #[trigger] order[k] < before.systems.len()
                    && took_turn(
                    before.systems[order[k] as int],
                    states[k],
                    after.systems[order[k] as int],
                    states[k + 1],
                )
        };
    assert forall|c: int, p: int, q: int|
        #![trigger before.constraints[c], order[p], order[q]]
        0 <= c < before.constraints.len() && before.constraints[c].0 != before.constraints[c].1
            && 0 <= p < order.len() && 0 <= q < order.len() && before.systems[order[p] as int].id
            == before.constraints[c].0 && before.systems[order[q] as int].id
            == before.constraints[c].1 implies q < p by {
        law_after_and_before_hold(before, order, c, p, q);
    }
    assert(order.len() == old(schedule)@.systems.len());
    assert(states.len() == order.len() + 1);
}

/// A system that was told to run after another does so, wherever it is added
/// and whatever else the schedule holds, and keeps what it was told before.
pub proof fn law_after_runs_it_after<S, C>(
    config: SystemConfig<S, C>,
    other: SystemId,
    told: SystemConfig<S, C>,
    before: ScheduleView<S, C>,
    order: Seq<usize>,
    p: int,
    q: int,
)
    requires
        call_ensures(SystemConfig::<S, C>::after, (config, other), told),
        other != config.id,
        before.add_system(told).is_order(order),
        0 <= p < order.len(),
        0 <= q < order.len(),
        order[p] == before.systems.len(),
        before.add_system(told).systems[order[q] as int].id == other,
    ensures
        q < p,
        told.id == config.id,
        told.system == config.system,
        told.conditions == config.conditions,
        told.priority == config.priority,
        forall|c: int|
            0 <= c < config.constraints@.len() ==> told.constraints@[c]
                == #[trigger] config.constraints@[c],
        told.constraints@.len() == config.constraints@.len() + 1,
{
    let after = before.add_system(told);
    let c = before.constraints.len() + config.constraints@.len();
    assert(after.constraints[c as int] == (config.id, other));
    law_after_and_before_hold(after, order, c as int, p, q);
}

/// A system that was told to run before another does so, wherever it is added
/// and whatever else the schedule holds, and keeps what it was told before.
pub proof fn law_before_runs_it_before<S, C>(
    config: SystemConfig<S, C>,
    other: SystemId,
    told: SystemConfig<S, C>,
    before: ScheduleView<S, C>,
    order: Seq<usize>,
    p: int,
    q: int,
)
    requires
        call_ensures(SystemConfig::<S, C>::before, (config, other), told),
        other != config.id,
        before.add_system(told).is_order(order),
        0 <= p < order.len(),
        0 <= q < order.len(),
        order[p] == before.systems.len(),
        before.add_system(told).systems[order[q] as int].id == other,
    ensures
        p < q,
        told.id == config.id,
        told.system == config.system,
        told.conditions == config.conditions,
        told.priority == config.priority,
        forall|c: int|
            0 <= c < config.constraints@.len() ==> told.constraints@[c]
                == #[trigger] config.constraints@[c],
        told.constraints@.len() == config.constraints@.len() + 1,
{
    let after = before.add_system(told);
    let c = before.constraints.len() + config.constraints@.len();
    assert(after.constraints[c as int] == (other, config.id));
    law_after_and_before_hold(after, order, c as int, q, p);
}

/// A condition that is added must hold too: in a state in which it cannot, or
/// in which an earlier one cannot, the system does not run.
pub proof fn law_run_if_adds_a_condition_that_must_hold<
    V,
    O: ObserverSystem<V>,
    S: System<V, O>,
    C: ConditionSystem<V, O>,
>(
    config: SystemConfig<S, C>,
    condition: C,
    told: SystemConfig<S, C>,
    at: EngineState<V, O>,
    after: ScheduledSystem<S, C>,
    then: EngineState<V, O>,
    i: int,
)
    requires
        call_ensures(SystemConfig::<S, C>::run_if, (config, condition), told),
        took_turn(told.scheduled(), at, after, then),
        (forall|left: C| !#[trigger] C::evaluates(condition, at, left, true)) || (0 <= i
            < config.conditions@.len() && forall|left: C| !#[trigger]
            C::evaluates(config.conditions@[i], at, left, true)),
    ensures
        then == at,
        after.system == config.system,
        told.id == config.id,
        told.priority == config.priority,
        told.constraints == config.constraints,
{
    let last = config.conditions@.len() as int;
    assert(told.conditions@[last] == condition);
    if forall|left: C| !#[trigger] C::evaluates(condition, at, left, true) {
        law_one_condition_that_fails_holds_a_system_back(told.scheduled(), at, after, then, last);
    } else {
        assert(told.conditions@[i] == config.conditions@[i]);
        law_one_condition_that_fails_holds_a_system_back(told.scheduled(), at, after, then, i);
    }
}

/// Of two systems that nothing makes wait, the one that was given the higher
/// priority runs first.
pub proof fn law_priority_decides_between_free_systems<S, C>(
    config: SystemConfig<S, C>,
    priority: i32,
    told: SystemConfig<S, C>,
    before: ScheduleView<S, C>,
    order: Seq<usize>,
    p: int,
    q: int,
)
    requires
        call_ensures(SystemConfig::<S, C>::priority, (config, priority), told),
        before.systems.len() < usize::MAX,
        before.add_system(told).is_order(order),
        0 <= p < order.len(),
        0 <= q < order.len(),
        order[p] == before.systems.len(),
        forall|c: int|
            0 <= c < before.add_system(told).constraints.len() ==> (#[trigger] before.add_system(
                told,
            ).constraints[c]).0 != config.id,
        before.add_system(told).systems[order[q] as int].priority < priority,
    ensures
        p < q,
        told.id == config.id,
        told.system == config.system,
        told.conditions == config.conditions,
        told.constraints == config.constraints,
{
    law_free_systems_run_by_priority(before.add_system(told), order, p, q);
}

/// A system that is described by its name alone has no condition and no
/// constraint, and neutral priority.
pub proof fn law_a_system_starts_without_wishes<S, C>(
    id: SystemId,
    system: StageSystem<S>,
    config: SystemConfig<S, C>,
)
    requires
        call_ensures(SystemConfig::<S, C>::new, (id, system), config),
    ensures
        config.id == id,
        config.system == system,
        config.conditions@.len() == 0,
        config.constraints@.len() == 0,
        config.priority == 0,
{
}

/// A link that is added to a chain runs after the link that was last so far,
/// in whatever schedule the chain is added to.
pub proof fn law_a_new_link_runs_last<S, C>(
    chain: SystemChain<S, C>,
    config: SystemConfig<S, C>,
    longer: SystemChain<S, C>,
    before: ScheduleView<S, C>,
    order: Seq<usize>,
    p: int,
    q: int,
)
    requires
        call_ensures(SystemChain::<S, C>::then_run, (chain, config), longer),
        chain.systems().len() > 0,
        chain.systems().last().id != config.id,
        before.add_systems(longer).is_order(order),
        0 <= p < order.len(),
        0 <= q < order.len(),
        order[p] == before.systems.len() + chain.systems().len(),
        order[q] == before.systems.len() + chain.systems().len() - 1,
    ensures
        q < p,
        longer.systems().len() == chain.systems().len() + 1,
        longer.systems().drop_last() == chain.systems(),
        longer.systems().last().id == config.id,
        longer.systems().last().system == config.system,
        longer.systems().last().conditions == config.conditions,
        longer.systems().last().priority == config.priority,
{
    let after = before.add_systems(longer);
    assert(longer.systems().drop_last() =~= chain.systems());
    let c = after.constraints.len() - 1;
    assert(after.constraints[c] == (config.id, chain.systems().last().id));
    assert(after.systems[order[p] as int] == longer.systems().last());
    assert(after.systems[order[q] as int] == longer.systems()[chain.systems().len() - 1]);
    assert(longer.systems()[chain.systems().len() - 1] == chain.systems().last());
    law_after_and_before_hold(after, order, c, p, q);
}

/// A chain that was told to run after another system does so with every link,
/// and one that was told to run before it too.
pub proof fn law_a_chain_goes_after_or_before_as_a_whole<S, C>(
    chain: SystemChain<S, C>,
    other: SystemId,
    later: SystemChain<S, C>,
    earlier: SystemChain<S, C>,
    before: ScheduleView<S, C>,
    order: Seq<usize>,
    i: int,
    p: int,
    q: int,
)
    requires
        call_ensures(SystemChain::<S, C>::after, (chain, other), later),
        call_ensures(SystemChain::<S, C>::before, (chain, other), earlier),
        0 <= i < chain.systems().len(),
        chain.systems()[i].id != other,
        0 <= p < order.len(),
        0 <= q < order.len(),
        order[p] == before.systems.len() + i,
    ensures
        before.add_systems(later).is_order(order) && before.add_systems(
            later,
        ).systems[order[q] as int].id == other ==> q < p,
        before.add_systems(earlier).is_order(order) && before.add_systems(
            earlier,
        ).systems[order[q] as int].id == other ==> p < q,
        later.systems() == chain.systems(),
        earlier.systems() == chain.systems(),
{
    let c = before.constraints.len() + chain.constraints().len() + i;
    let one = before.add_systems(later);
    let two = before.add_systems(earlier);
    assert(one.constraints[c] == (chain.systems()[i].id, other));
    assert(two.constraints[c] == (other, chain.systems()[i].id));
    if one.is_order(order) && one.systems[order[q] as int].id == other {
        law_after_and_before_hold(one, order, c, p, q);
    }
    if two.is_order(order) && two.systems[order[q] as int].id == other {
        law_after_and_before_hold(two, order, c, q, p);
    }
}

/// A chain's priority is that of every link.
pub proof fn law_a_chain_has_one_priority<S, C>(
    chain: SystemChain<S, C>,
    priority: i32,
    told: SystemChain<S, C>,
    i: int,
)
    requires
        call_ensures(SystemChain::<S, C>::priority, (chain, priority), told),
        0 <= i < chain.systems().len(),
    ensures
        told.systems().len() == chain.systems().len(),
        told.systems()[i].priority == priority,
        told.systems()[i].id == chain.systems()[i].id,
        told.systems()[i].system == chain.systems()[i].system,
        told.systems()[i].conditions == chain.systems()[i].conditions,
        told.constraints() == chain.constraints(),
{
}

/// Adding to a schedule appends: what it held stays where it was, the new
/// systems follow as they were described, and their constraints count along
/// with those that were there.
pub proof fn law_adding_appends<S, C>(
    schedule: &mut Schedule<S, C>,
    config: SystemConfig<S, C>,
    chained: &mut Schedule<S, C>,
    c: (SystemId, SystemId),
)
    requires
        call_ensures(Schedule::<S, C>::add_system, (schedule, config), chained),
    ensures
        old(chained)@.systems.len() == old(schedule)@.systems.len() + 1,
        old(chained)@.systems.drop_last() == old(schedule)@.systems,
        old(chained)@.systems.last().id == config.id,
        old(chained)@.systems.last().system == config.system,
        old(chained)@.systems.last().conditions == config.conditions,
        old(chained)@.systems.last().priority == config.priority,
        old(chained)@.constraints.contains(c) <==> old(schedule)@.constraints.contains(c)
            || config.constraints@.contains(c),
        *final(schedule) == *final(chained),
{
    assert(old(chained)@.systems.drop_last() =~= old(schedule)@.systems);
    lemma_contains_either(old(schedule)@.constraints, config.constraints@, c);
}

/// Adding a chain to a schedule appends every link, in order.
pub proof fn law_adding_a_chain_appends_every_link<S, C>(
    schedule: &mut Schedule<S, C>,
    chain: SystemChain<S, C>,
    chained: &mut Schedule<S, C>,
    c: (SystemId, SystemId),
)
    requires
        call_ensures(Schedule::<S, C>::add_systems, (schedule, chain), chained),
    ensures
        old(chained)@.systems == old(schedule)@.systems + chain.systems(),
        old(chained)@.constraints.contains(c) <==> old(schedule)@.constraints.contains(c)
            || chain.constraints().contains(c),
        *final(schedule) == *final(chained),
{
    lemma_contains_either(old(schedule)@.constraints, chain.constraints(), c);
}

/// The order of a schedule lists each of its systems once and lets every
/// constraint hold. There is one unless systems wait for each other in a ring.
pub proof fn law_the_order_of_a_schedule<S, C>(
    schedule: &Schedule<S, C>,
    ordered: Result<Vec<usize>, OrderingCycle>,
    c: int,
    p: int,
    q: int,
    ring: Seq<int>,
    rank: spec_fn(SystemId) -> int,
)
    requires
        call_ensures(Schedule::<S, C>::compute_order, (schedule,), ordered),
    ensures
        ordered matches Ok(order) ==> {
            &&& order@.len() == schedule@.systems.len()
            &&& order@.no_duplicates()
            &&& forall|i: usize| order@.contains(i) <==> i < schedule@.systems.len()
            &&& 0 <= c < schedule@.constraints.len() && 0 <= p < order@.len() && 0 <= q
                < order@.len() && schedule@.constraints[c].0 != schedule@.constraints[c].1
                && schedule@.systems[order@[p] as int].id == schedule@.constraints[c].0
                && schedule@.systems[order@[q] as int].id == schedule@.constraints[c].1 ==> q < p
            &&& 0 <= p < order@.len() && 0 <= q < order@.len() && (forall|k: int|
                0 <= k < schedule@.constraints.len() ==> (#[trigger] schedule@.constraints[k]).0
                    != schedule@.systems[order@[p] as int].id) && (
            schedule@.systems[order@[p] as int].priority
                > schedule@.systems[order@[q] as int].priority || (
            schedule@.systems[order@[p] as int].priority
                == schedule@.systems[order@[q] as int].priority && order@[p] < order@[q]))
                ==> p < q
        },
        ring.len() >= 2 && ring.first() == ring.last() && (forall|k: int|
            0 <= k < ring.len() ==> 0 <= #[trigger] ring[k] < schedule@.systems.len()) && (forall|
            k: int,
            l: int,
        |
            0 <= k && l == k + 1 && l < ring.len() ==> {
                let one = schedule@.systems[#[trigger] ring[k]].id;
                let other = schedule@.systems[#[trigger] ring[l]].id;
                one != other && schedule@.constraints.contains((one, other))
            }) ==> ordered is Err,
        (forall|k: int|
            0 <= k < schedule@.constraints.len() && (#[trigger] schedule@.constraints[k]).0
                != schedule@.constraints[k].1 ==> rank(schedule@.constraints[k].1) < rank(
                schedule@.constraints[k].0,
            )) ==> ordered is Ok,
{
    let view = schedule@;
    assert(schedule.systems.len() == view.systems.len());
    if ordered is Ok {
        let order = ordered->Ok_0@;
        ordering::law_every_system_runs_once(
            view.ids(),
            view.priorities(),
            view.constraints,
            order,
        );
        if 0 <= c < view.constraints.len() && 0 <= p < order.len() && 0 <= q < order.len()
            && view.constraints[c].0 != view.constraints[c].1
            && view.systems[order[p] as int].id == view.constraints[c].0
            && view.systems[order[q] as int].id == view.constraints[c].1 {
            law_after_and_before_hold(view, order, c, p, q);
        }
        if 0 <= p < order.len() && 0 <= q < order.len() && (forall|k: int|
            0 <= k < view.constraints.len() ==> (#[trigger] view.constraints[k]).0
                != view.systems[order[p] as int].id) && (view.systems[order[p] as int].priority
            > view.systems[order[q] as int].priority || (view.systems[order[p] as int].priority
            == view.systems[order[q] as int].priority && order[p] < order[q])) {
            law_free_systems_run_by_priority(view, order, p, q);
        }
    }
    if ring.len() >= 2 && ring.first() == ring.last() && (forall|k: int|
        0 <= k < ring.len() ==> 0 <= #[trigger] ring[k] < view.systems.len()) && (forall|
        k: int,
        l: int,
    |
        0 <= k && l == k + 1 && l < ring.len() ==> {
            let one = view.systems[#[trigger] ring[k]].id;
            let other = view.systems[#[trigger] ring[l]].id;
            one != other && view.constraints.contains((one, other))
        }) {
        assert forall|k: int, l: int| 0 <= k && l == k + 1 && l < ring.len() implies view.ids()[
        #[trigger] ring[k]] != view.ids()[#[trigger] ring[l]] && view.constraints.contains(
            (view.ids()[ring[k]], view.ids()[ring[l]]),
        ) by {}
        ordering::law_a_ring_admits_no_order(view.ids(), view.constraints, ring);
    }
    if forall|k: int|
        0 <= k < view.constraints.len() && (#[trigger] view.constraints[k]).0
            != view.constraints[k].1 ==> rank(view.constraints[k].1) < rank(
            view.constraints[k].0,
        ) {
        ordering::law_ranked_names_admit_an_order(view.ids(), view.constraints, rank);
    }
}

/// A schedule without systems has nothing to run.
pub proof fn law_a_new_schedule_is_empty<S, C>(schedule: Schedule<S, C>)
    requires
        call_ensures(Schedule::<S, C>::new, (), schedule),
    ensures
        schedule@.systems.len() == 0,
        schedule@.constraints.len() == 0,
{
}

} // verus!
