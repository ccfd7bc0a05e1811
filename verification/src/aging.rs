//! How ticks age the queues of the registered event types.
use vstd::prelude::*;

use crate::app;
use crate::app::{AppView, Delivery};
use crate::ecs::condition::ConditionSystem;
use crate::ecs::resources::{ResourceCommand, ResourcesView, Triggered};
use crate::ecs::schedule;
use crate::ecs::schedule::ScheduleView;
use crate::ecs::system::{
    EngineState, ObserverSystem, ScheduledSystem, StageSystem, System, SystemConfig, SystemId,
    SystemStage, TypeKey, STAGE_COUNT,
};

verus! {

/// No system of this schedule ages the queue of this event type.
pub open spec fn leaves_unaged<S, C>(schedule: ScheduleView<S, C>, key: TypeKey) -> bool {
    forall|i: int|
        0 <= i < schedule.systems.len() ==> (#[trigger] schedule.systems[i]).system
            != StageSystem::<S>::AgeEvents(key)
}

/// The one system that ages the queue of this event type is the `i`-th of the
/// `PreUpdate` stage, and no condition can hold it back.
pub open spec fn aged_by<S, C>(
    schedules: Map<TypeKey, ScheduleView<S, C>>,
    key: TypeKey,
    i: int,
) -> bool {
    let pre = SystemStage::PreUpdate.rank();
    &&& schedules.dom().contains(pre)
    &&& 0 <= i < schedules[pre].systems.len()
    &&& schedules[pre].systems[i].system == StageSystem::<S>::AgeEvents(key)
    &&& schedules[pre].systems[i].conditions@.len() == 0
    &&& forall|k: int|
        0 <= k < schedules[pre].systems.len() && k != i ==> (
        #[trigger] schedules[pre].systems[k]).system != StageSystem::<S>::AgeEvents(key)
    &&& forall|rank: TypeKey| #[trigger]
        schedules.dom().contains(rank) && rank < STAGE_COUNT && rank != pre ==> leaves_unaged(
            schedules[rank],
            key,
        )
}

/// Registering an event type that was not registered gives it an empty queue
/// and one system that ages it, at the end of the `PreUpdate` stage, without
/// conditions or constraints. Every other system stays where it was.
pub proof fn law_a_registered_queue_has_its_aging_system<V, O, S, C, R>(
    before: AppView<V, O, S, C, R>,
    key: TypeKey,
    after: AppView<V, O, S, C, R>,
)
    requires
        app::event_added(before, key, after),
        !before.state.resources.events.dom().contains(key),
    ensures
        ({
            let pre = SystemStage::PreUpdate.rank();
            let had = app::stage_of(before.schedules, SystemStage::PreUpdate);
            &&& after.state.resources.events.dom().contains(key)
            &&& after.state.resources.events[key].readable() == Seq::<V>::empty()
            &&& after.schedules.dom() == before.schedules.dom().insert(pre)
            &&& after.schedules[pre].systems.len() == had.systems.len() + 1
            &&& after.schedules[pre].systems.drop_last() == had.systems
            &&& after.schedules[pre].systems.last().system == StageSystem::<S>::AgeEvents(key)
            &&& after.schedules[pre].systems.last().id == SystemId::AgeEvents(key)
            &&& after.schedules[pre].systems.last().conditions@.len() == 0
            &&& after.schedules[pre].systems.last().priority == 0
            &&& after.schedules[pre].constraints == had.constraints
            &&& forall|rank: TypeKey| #[trigger]
                before.schedules.dom().contains(rank) && rank != pre ==> after.schedules[rank]
                    == before.schedules[rank]
            &&& after.gpu_schedules == before.gpu_schedules
            &&& after.runner == before.runner
            &&& after.handle == before.handle
            &&& after.inbox == before.inbox
            &&& after.state.world == before.state.world
            &&& after.state.resources.custom == before.state.resources.custom
            &&& after.state.resources.observers == before.state.resources.observers
        }),
        (forall|rank: TypeKey| #[trigger]
            before.schedules.dom().contains(rank) ==> leaves_unaged(before.schedules[rank], key))
            ==> aged_by(
            after.schedules,
            key,
            app::stage_of(before.schedules, SystemStage::PreUpdate).systems.len() as int,
        ),
{
    let pre = SystemStage::PreUpdate.rank();
    let had = app::stage_of(before.schedules, SystemStage::PreUpdate);
    let aging = choose|aging: SystemConfig<S, C>|
        {
            &&& #[trigger] app::is_aging(aging, key)
            &&& after == AppView {
                schedules: app::with_system(before.schedules, SystemStage::PreUpdate, aging),
                ..before.with_resources(before.state.resources.register(key))
            }
        };
    assert(after.state.resources.events[key].readable() =~= Seq::<V>::empty());
    assert(after.schedules.dom() =~= before.schedules.dom().insert(pre));
    assert(after.schedules[pre].systems.drop_last() =~= had.systems);
    assert(after.schedules[pre].constraints =~= had.constraints);
    if forall|rank: TypeKey| #[trigger]
        before.schedules.dom().contains(rank) ==> leaves_unaged(before.schedules[rank], key) {
        assert forall|k: int|
            0 <= k < after.schedules[pre].systems.len() && k != had.systems.len() implies (
        #[trigger] after.schedules[pre].systems[k]).system != StageSystem::<S>::AgeEvents(key) by {
            assert(after.schedules[pre].systems[k] == had.systems[k]);
            assert(before.schedules.dom().contains(pre));
        }
        assert forall|rank: TypeKey| #[trigger]
            after.schedules.dom().contains(rank) && rank < STAGE_COUNT && rank
                != pre implies leaves_unaged(
            after.schedules[rank],
            key,
        ) by {
            assert(before.schedules.dom().contains(rank));
        }
    }
}

/// One event type has the same queue in both states.
pub open spec fn same_queue<V, O>(
    one: EngineState<V, O>,
    other: EngineState<V, O>,
    key: TypeKey,
) -> bool {
    &&& one.resources.events.dom().contains(key) == other.resources.events.dom().contains(key)
    &&& one.resources.events[key] == other.resources.events[key]
}

/// The application's systems only read the queue of this event type.
pub open spec fn systems_only_read<V, O, S: System<V, O>>(key: TypeKey) -> bool {
    forall|before: S, at: EngineState<V, O>, after: S, then: EngineState<V, O>| #[trigger]
        S::runs(before, at, after, then) ==> same_queue(at, then, key)
}

/// The application's observers only read the queue of this event type.
pub open spec fn observers_only_read<V, O: ObserverSystem<V>>(key: TypeKey) -> bool {
    forall|before: O, event: V, at: EngineState<V, O>, after: O, then: EngineState<V, O>|
     #[trigger]
        O::observes(before, event, at, after, then) ==> same_queue(at, then, key)
}

proof fn lemma_observers_keep_the_queue<V, O: ObserverSystem<V>>(
    observers: Seq<O>,
    event: V,
    then: Seq<O>,
    states: Seq<EngineState<V, O>>,
    key: TypeKey,
    k: int,
)
    requires
        observers_only_read::<V, O>(key),
        schedule::observe_trace(observers, event, then, states),
        0 <= k <= observers.len(),
    ensures
        same_queue(states[0], states[k], key),
    decreases k,
{
    if k > 0 {
        lemma_observers_keep_the_queue(observers, event, then, states, key, k - 1);
        assert(O::observes(
            observers[k - 1],
            event,
            states[k - 1],
            then[k - 1],
            states[k - 1 + 1],
        ));
    }
}

proof fn lemma_a_trigger_keeps_the_queue<V, O: ObserverSystem<V>>(
    triggered: Triggered<V>,
    before: EngineState<V, O>,
    after: EngineState<V, O>,
    key: TypeKey,
)
    requires
        observers_only_read::<V, O>(key),
        schedule::trigger_fired(triggered, before, after),
    ensures
        same_queue(before, after, key),
{
    if before.resources.observers.dom().contains(triggered.key) {
        let observers = before.resources.observers[triggered.key];
        let (then, states) = choose|then: Seq<O>, states: Seq<EngineState<V, O>>|
            {
                &&& #[trigger] schedule::observe_trace(observers, triggered.event, then, states)
                &&& states.first() == EngineState {
                    world: before.world,
                    resources: before.resources.with_observers(triggered.key, Seq::empty()),
                }
                &&& after == EngineState {
                    world: states.last().world,
                    resources: states.last().resources.with_observers(triggered.key, then),
                }
            };
        lemma_observers_keep_the_queue(
            observers,
            triggered.event,
            then,
            states,
            key,
            observers.len() as int,
        );
    }
}

proof fn lemma_triggers_keep_the_queue<V, O: ObserverSystem<V>>(
    triggers: Seq<Triggered<V>>,
    states: Seq<EngineState<V, O>>,
    key: TypeKey,
    k: int,
)
    requires
        observers_only_read::<V, O>(key),
        schedule::trigger_trace(triggers, states),
        0 <= k <= triggers.len(),
    ensures
        same_queue(states[0], states[k], key),
    decreases k,
{
    if k > 0 {
        lemma_triggers_keep_the_queue(triggers, states, key, k - 1);
        assert(schedule::trigger_fired(triggers[k - 1], states[k - 1], states[k - 1 + 1]));
        lemma_a_trigger_keeps_the_queue(triggers[k - 1], states[k - 1], states[k], key);
    }
}

proof fn lemma_commands_keep_the_queues<V, O>(
    resources: ResourcesView<V, O>,
    commands: Seq<ResourceCommand<V>>,
)
    ensures
        resources.apply_all(commands).events == resources.events,
    decreases commands.len(),
{
    if commands.len() > 0 {
        lemma_commands_keep_the_queues(resources, commands.drop_last());
    }
}

/// Flushing keeps the queue of an event type that no observer writes to.
proof fn lemma_a_flush_keeps_the_queue<V, O: ObserverSystem<V>>(
    before: EngineState<V, O>,
    after: EngineState<V, O>,
    key: TypeKey,
)
    requires
        observers_only_read::<V, O>(key),
        schedule::synced(before, after),
    ensures
        same_queue(before, after, key),
{
    let flushed = choose|flushed: EngineState<V, O>|
        {
            &&& #[trigger] schedule::entity_commands_flushed(before, flushed)
            &&& schedule::triggers_fired(
                schedule::commands_flushed(flushed).resources.triggers,
                EngineState {
                    world: schedule::commands_flushed(flushed).world,
                    resources: ResourcesView {
                        triggers: Seq::empty(),
                        ..schedule::commands_flushed(flushed).resources
                    },
                },
                after,
            )
        };
    let start = EngineState {
        world: schedule::commands_flushed(flushed).world,
        resources: ResourcesView {
            triggers: Seq::empty(),
            ..schedule::commands_flushed(flushed).resources
        },
    };
    lemma_commands_keep_the_queues(
        ResourcesView { resource_commands: Seq::empty(), ..flushed.resources },
        flushed.resources.resource_commands,
    );
    let triggers = schedule::commands_flushed(flushed).resources.triggers;
    let states = choose|states: Seq<EngineState<V, O>>|
        {
            &&& #[trigger] schedule::trigger_trace(triggers, states)
            &&& states.first() == start
            &&& states.last() == after
        };
    lemma_triggers_keep_the_queue(triggers, states, key, triggers.len() as int);
}

/// What the turn of a system makes of the queue of one event type: the system
/// that ages it ages it, any other keeps it.
proof fn lemma_a_turn_and_the_queue<
    V,
    O: ObserverSystem<V>,
    S: System<V, O>,
    C: ConditionSystem<V, O>,
>(
    before: ScheduledSystem<S, C>,
    at: EngineState<V, O>,
    after: ScheduledSystem<S, C>,
    then: EngineState<V, O>,
    key: TypeKey,
)
    requires
        schedule::took_turn(before, at, after, then),
    ensures
        before.system == StageSystem::<S>::AgeEvents(key) <==> after.system == StageSystem::<
            S,
        >::AgeEvents(key),
        after.conditions@.len() == before.conditions@.len(),
        systems_only_read::<V, O, S>(key) && observers_only_read::<V, O>(key) && before.system
            != StageSystem::<S>::AgeEvents(key) ==> same_queue(at, then, key),
        before.system == StageSystem::<S>::AgeEvents(key) && before.conditions@.len() == 0
            ==> schedule::synced(
            EngineState { world: at.world, resources: at.resources.age(key) },
            then,
        ),
        observers_only_read::<V, O>(key) && before.system == StageSystem::<S>::AgeEvents(key)
            && before.conditions@.len() == 0 && at.resources.events.dom().contains(key) ==> {
            &&& then.resources.events.dom().contains(key)
            &&& then.resources.events[key] == at.resources.events[key].age()
        },
{
    if schedule::gated(before.conditions@, at, after.conditions@, true) && !(then == at
        && after.system == before.system && schedule::gated(
        before.conditions@,
        at,
        after.conditions@,
        false,
    )) {
        let ran = choose|ran: EngineState<V, O>| #[trigger]
            schedule::synced(ran, then) && System::runs(before.system, at, after.system, ran);
        if observers_only_read::<V, O>(key) {
            lemma_a_flush_keeps_the_queue(ran, then, key);
        }
    }
}

/// What a run makes of the queue, turn by turn: it is kept up to the turn of
/// the system that ages it, and aged from then on.
proof fn lemma_a_run_and_the_queue<
    V,
    O: ObserverSystem<V>,
    S: System<V, O>,
    C: ConditionSystem<V, O>,
>(
    before: ScheduleView<S, C>,
    after: ScheduleView<S, C>,
    order: Seq<usize>,
    states: Seq<EngineState<V, O>>,
    key: TypeKey,
    i: int,
    k: int,
)
    requires
        systems_only_read::<V, O, S>(key),
        observers_only_read::<V, O>(key),
        states.len() == order.len() + 1,
        order.no_duplicates(),
        states[0].resources.events.dom().contains(key),
        forall|k: int|
            0 <= k < order.len() ==> 0 <= #[trigger] order[k] < before.systems.len()
                && schedule::took_turn(
                before.systems[order[k] as int],
                states[k],
                after.systems[order[k] as int],
                states[k + 1],
            ),
        forall|j: int|
            0 <= j < before.systems.len() && j != i ==> (#[trigger] before.systems[j]).system
                != StageSystem::<S>::AgeEvents(key),
        0 <= i < before.systems.len() ==> before.systems[i].system == StageSystem::<S>::AgeEvents(
            key,
        ) && before.systems[i].conditions@.len() == 0,
        0 <= k <= order.len(),
    ensures
        states[k].resources.events.dom().contains(key),
        states[k].resources.events[key] == (if exists|j: int| 0 <= j < k && #[trigger] order[j] == i {
            states[0].resources.events[key].age()
        } else {
            states[0].resources.events[key]
        }),
    decreases k,
{
    if k > 0 {
        lemma_a_run_and_the_queue(before, after, order, states, key, i, k - 1);
        let now = order[k - 1] as int;
        assert(0 <= order[k - 1] < before.systems.len());
        lemma_a_turn_and_the_queue(
            before.systems[now],
            states[k - 1],
            after.systems[now],
            states[k - 1 + 1],
            key,
        );
        if now == i {
            assert(order[k - 1] == i);
        }
    }
}

/// What a run leaves of the systems that age the queue: they are where they
/// were, and no other has become one.
proof fn lemma_a_run_keeps_the_aging_systems<
    V,
    O: ObserverSystem<V>,
    S: System<V, O>,
    C: ConditionSystem<V, O>,
>(
    before: ScheduleView<S, C>,
    at: EngineState<V, O>,
    after: ScheduleView<S, C>,
    then: EngineState<V, O>,
    key: TypeKey,
)
    requires
        schedule::schedule_ran(before, at, after, then),
    ensures
        after.systems.len() == before.systems.len(),
        leaves_unaged(before, key) ==> leaves_unaged(after, key),
        forall|i: int|
            0 <= i < before.systems.len() ==> {
                &&& (#[trigger] after.systems[i]).conditions@.len()
                    == before.systems[i].conditions@.len()
                &&& after.systems[i].system == StageSystem::<S>::AgeEvents(key)
                    <==> before.systems[i].system == StageSystem::<S>::AgeEvents(key)
            },
{
    schedule::law_every_system_has_one_turn(before, at, after, then);
    let (order, states) = choose|order: Seq<usize>, states: Seq<EngineState<V, O>>|
        {
            &&& #[trigger] before.is_order(order)
            &&& #[trigger] states.len() == before.systems.len() + 1
            &&& order.len() == before.systems.len()
            &&& order.no_duplicates()
            &&& states.first() == at
            &&& states.last() == then
            &&& forall|k: int|
                0 <= k < order.len() ==> 0 <= #[trigger] order[k] < before.systems.len()
                    && schedule::took_turn(
                    before.systems[order[k] as int],
                    states[k],
                    after.systems[order[k] as int],
                    states[k + 1],
                )
        };
    assert forall|i: int| 0 <= i < before.systems.len() implies {
        &&& (#[trigger] after.systems[i]).conditions@.len() == before.systems[i].conditions@.len()
        &&& after.systems[i].system == StageSystem::<S>::AgeEvents(key)
            <==> before.systems[i].system == StageSystem::<S>::AgeEvents(key)
    } by {
        lemma_holds_each(before, order, i);
        let k = choose|k: int| 0 <= k < order.len() && #[trigger] order[k] == i;
        assert(0 <= order[k] < before.systems.len());
        lemma_a_turn_and_the_queue(
            before.systems[i],
            states[k],
            after.systems[i],
            states[k + 1],
            key,
        );
    }
    if leaves_unaged(before, key) {
        assert forall|i: int| 0 <= i < after.systems.len() implies (
        #[trigger] after.systems[i]).system != StageSystem::<S>::AgeEvents(key) by {
            assert(before.systems[i].system != StageSystem::<S>::AgeEvents(key));
        }
    }
}

/// Every system has a place in the order.
proof fn lemma_holds_each<S, C>(schedule: ScheduleView<S, C>, order: Seq<usize>, i: int)
    requires
        schedule.is_order(order),
        order.len() == schedule.systems.len(),
        order.no_duplicates(),
        forall|k: int|
            0 <= k < order.len() ==> 0 <= #[trigger] order[k] < schedule.systems.len(),
        0 <= i < schedule.systems.len(),
    ensures
        exists|k: int| 0 <= k < order.len() && #[trigger] order[k] == i,
{
    if !exists|k: int| 0 <= k < order.len() && #[trigger] order[k] == i {
        let places = order.map_values(|place: usize| place as int);
        assert(places.no_duplicates());
        let others = vstd::set_lib::set_int_range(0, schedule.systems.len() as int).remove(i);
        vstd::set_lib::lemma_int_range(0, schedule.systems.len() as int);
        assert forall|p: int| #[trigger] places.to_set().contains(p) implies others.contains(p) by {
            let k = choose|k: int| 0 <= k < places.len() && places[k] == p;
            assert(0 <= order[k] < schedule.systems.len());
        }
        places.unique_seq_to_set();
        vstd::set_lib::lemma_len_subset(places.to_set(), others);
    }
}

/// A schedule that leaves the queue unaged keeps it; one with one system that
/// ages it ages it once.
proof fn lemma_a_schedule_and_the_queue<
    V,
    O: ObserverSystem<V>,
    S: System<V, O>,
    C: ConditionSystem<V, O>,
>(
    before: ScheduleView<S, C>,
    at: EngineState<V, O>,
    after: ScheduleView<S, C>,
    then: EngineState<V, O>,
    key: TypeKey,
    i: int,
)
    requires
        systems_only_read::<V, O, S>(key),
        observers_only_read::<V, O>(key),
        at.resources.events.dom().contains(key),
        schedule::schedule_ran(before, at, after, then),
        forall|j: int|
            0 <= j < before.systems.len() && j != i ==> (#[trigger] before.systems[j]).system
                != StageSystem::<S>::AgeEvents(key),
        0 <= i < before.systems.len() ==> before.systems[i].system == StageSystem::<S>::AgeEvents(
            key,
        ) && before.systems[i].conditions@.len() == 0,
    ensures
        then.resources.events.dom().contains(key),
        then.resources.events[key] == (if 0 <= i < before.systems.len() {
            at.resources.events[key].age()
        } else {
            at.resources.events[key]
        }),
{
    schedule::law_every_system_has_one_turn(before, at, after, then);
    let (order, states) = choose|order: Seq<usize>, states: Seq<EngineState<V, O>>|
        {
            &&& #[trigger] before.is_order(order)
            &&& #[trigger] states.len() == before.systems.len() + 1
            &&& order.len() == before.systems.len()
            &&& order.no_duplicates()
            &&& states.first() == at
            &&& states.last() == then
            &&& forall|k: int|
                0 <= k < order.len() ==> 0 <= #[trigger] order[k] < before.systems.len()
                    && schedule::took_turn(
                    before.systems[order[k] as int],
                    states[k],
                    after.systems[order[k] as int],
                    states[k + 1],
                )
        };
    lemma_a_run_and_the_queue(before, after, order, states, key, i, order.len() as int);
    if 0 <= i < before.systems.len() {
        lemma_holds_each(before, order, i);
    }
}

/// The queue of a registered event type goes on being aged: no update takes
/// its aging system away, moves it or gates it, whether the backend is ready
/// or not, and neither does the start.
pub proof fn law_the_aging_system_stays<
    V,
    O: ObserverSystem<V>,
    S: System<V, O>,
    C: ConditionSystem<V, O>,
    R,
>(
    before: AppView<V, O, S, C, R>,
    deliveries: Seq<Delivery<V>>,
    after: AppView<V, O, S, C, R>,
    key: TypeKey,
    i: int,
)
    requires
        aged_by(before.schedules, key, i),
        app::updated(before, deliveries, after) || app::started(before, after),
    ensures
        aged_by(after.schedules, key, i),
{
    if app::started(before, after) {
        assert forall|rank: TypeKey| #[trigger]
            after.schedules.dom().contains(rank) && rank < STAGE_COUNT && rank
                != SystemStage::PreUpdate.rank() implies leaves_unaged(
            after.schedules[rank],
            key,
        ) by {
            assert(before.schedules.dom().contains(rank));
        }
    } else {
        lemma_a_tick_keeps_the_aging_system(
            AppView { inbox: after.inbox, ..before },
            deliveries,
            after,
            key,
            i,
        );
    }
}

proof fn lemma_a_tick_keeps_the_aging_system<
    V,
    O: ObserverSystem<V>,
    S: System<V, O>,
    C: ConditionSystem<V, O>,
    R,
>(
    before: AppView<V, O, S, C, R>,
    deliveries: Seq<Delivery<V>>,
    after: AppView<V, O, S, C, R>,
    key: TypeKey,
    i: int,
)
    requires
        aged_by(before.schedules, key, i),
        app::ticked(before, deliveries, after),
    ensures
        aged_by(after.schedules, key, i),
{
    if before.state.resources.backend_ready {
        let pre = SystemStage::PreUpdate.rank();
        let (at, start, states) = lemma_a_ready_tick(before, deliveries, after);
        lemma_a_run_keeps_the_aging_systems(
            before.schedules[pre],
            states[2],
            after.schedules[pre],
            states[3],
            key,
        );
        assert forall|k: int| 0 <= k < after.schedules[pre].systems.len() && k != i implies (
        #[trigger] after.schedules[pre].systems[k]).system != StageSystem::<S>::AgeEvents(key) by {
            assert(before.schedules[pre].systems[k].system != StageSystem::<S>::AgeEvents(key));
        }
        assert forall|rank: TypeKey| #[trigger]
            after.schedules.dom().contains(rank) && rank < STAGE_COUNT && rank
                != pre implies leaves_unaged(after.schedules[rank], key) by {
            assert(before.schedules.dom().contains(rank));
            lemma_a_run_keeps_the_aging_systems(
                before.schedules[rank],
                states[rank as int],
                after.schedules[rank],
                states[rank + 1],
                key,
            );
        }
    }
}

/// The states through which a tick with a ready backend goes: the one with the
/// deliveries, the one after `Ready`, and those between the other stages.
proof fn lemma_a_ready_tick<
    V,
    O: ObserverSystem<V>,
    S: System<V, O>,
    C: ConditionSystem<V, O>,
    R,
>(
    before: AppView<V, O, S, C, R>,
    deliveries: Seq<Delivery<V>>,
    after: AppView<V, O, S, C, R>,
) -> (states: (EngineState<V, O>, ScheduleView<S, C>, Seq<EngineState<V, O>>))
    requires
        app::ticked(before, deliveries, after),
        before.state.resources.backend_ready,
    ensures
        states.0 == app::with_deliveries(before.state, deliveries),
        after.schedules.dom() == before.schedules.dom().remove(SystemStage::Ready.rank()),
        states.2.len() == STAGE_COUNT + 1,
        if before.schedules.dom().contains(SystemStage::Ready.rank()) {
            schedule::schedule_ran(
                before.schedules[SystemStage::Ready.rank()],
                states.0,
                states.1,
                states.2[0],
            )
        } else {
            states.2[0] == states.0
        },
        states.2.last() == after.state,
        forall|rank: TypeKey|
            rank < STAGE_COUNT ==> if rank != SystemStage::Ready.rank()
                && before.schedules.dom().contains(rank) {
                schedule::schedule_ran(
                    before.schedules[rank],
                    #[trigger] states.2[rank as int],
                    after.schedules[rank],
                    states.2[rank + 1],
                )
            } else {
                states.2[rank + 1] == states.2[rank as int]
            },
{
    let ready = SystemStage::Ready.rank();
    let at = app::with_deliveries(before.state, deliveries);
    let rest = before.schedules.remove(ready);
    let start = choose|start: EngineState<V, O>|
        {
            &&& #[trigger] app::stage_consumed(SystemStage::Ready, before.schedules, at, start)
            &&& app::stages_ran(rest, start, after.schedules, after.state)
        };
    let readied = if before.schedules.dom().contains(ready) {
        choose|readied: ScheduleView<S, C>| #[trigger]
            schedule::schedule_ran(before.schedules[ready], at, readied, start)
    } else {
        ScheduleView::empty()
    };
    let run = choose|run: Seq<EngineState<V, O>>|
        {
            &&& #[trigger] app::stages_trace(rest, after.schedules, run)
            &&& run.first() == start
            &&& run.last() == after.state
        };
    assert(rest.dom() =~= before.schedules.dom().remove(ready));
    assert forall|rank: TypeKey| rank < STAGE_COUNT implies if rank != ready
        && before.schedules.dom().contains(rank) {
        schedule::schedule_ran(
            before.schedules[rank],
            #[trigger] run[rank as int],
            after.schedules[rank],
            run[rank + 1],
        )
    } else {
        run[rank + 1] == run[rank as int]
    } by {
        assert(app::stage_ran(rank, rest, run[rank as int], after.schedules, run[rank + 1]));
    }
    (at, readied, run)
}

/// Over a run of updates the queue of a registered event type goes on being
/// aged by the same system.
pub proof fn law_the_aging_system_stays_for_good<
    V,
    O: ObserverSystem<V>,
    S: System<V, O>,
    C: ConditionSystem<V, O>,
    R,
>(
    apps: Seq<AppView<V, O, S, C, R>>,
    deliveries: Seq<Seq<Delivery<V>>>,
    key: TypeKey,
    i: int,
    j: int,
)
    requires
        app::tick_trace(apps, deliveries),
        aged_by(apps[0].schedules, key, i),
        0 <= j <= deliveries.len(),
    ensures
        aged_by(apps[j].schedules, key, i),
    decreases j,
{
    if j > 0 {
        law_the_aging_system_stays_for_good(apps, deliveries, key, i, j - 1);
        assert(app::updated(apps[j - 1], deliveries[j - 1], apps[j - 1 + 1]));
        law_the_aging_system_stays(apps[j - 1], deliveries[j - 1], apps[j], key, i);
    }
}

/// Every tick with a ready backend ages the queue of a registered event type,
/// whatever the other systems do: among the turns of the `PreUpdate` stage is
/// one, the `k`-th, that ages the queue that it finds and leaves the rest to
/// the flush.
pub proof fn law_every_ready_tick_ages_the_queue<
    V,
    O: ObserverSystem<V>,
    S: System<V, O>,
    C: ConditionSystem<V, O>,
    R,
>(
    before: AppView<V, O, S, C, R>,
    deliveries: Seq<Delivery<V>>,
    after: AppView<V, O, S, C, R>,
    key: TypeKey,
    i: int,
)
    requires
        app::updated(before, deliveries, after),
        before.state.resources.backend_ready,
        aged_by(before.schedules, key, i),
    ensures
        exists|order: Seq<usize>, states: Seq<EngineState<V, O>>, k: int|
            {
                &&& #[trigger] before.schedules[SystemStage::PreUpdate.rank()].is_order(order)
                &&& #[trigger] states.len() == before.schedules[SystemStage::PreUpdate.rank()].systems.len() + 1
                &&& schedule::schedule_ran(
                    before.schedules[SystemStage::PreUpdate.rank()],
                    states.first(),
                    after.schedules[SystemStage::PreUpdate.rank()],
                    states.last(),
                )
                &&& 0 <= k < order.len()
                &&& #[trigger] order[k] == i
                &&& schedule::synced(
                    EngineState {
                        world: states[k].world,
                        resources: states[k].resources.age(key),
                    },
                    states[k + 1],
                )
            },
{
    let pre = SystemStage::PreUpdate.rank();
    let tick = AppView { inbox: after.inbox, ..before };
    let (at, start, run) = lemma_a_ready_tick(tick, deliveries, after);
    let had = before.schedules[pre];
    let has = after.schedules[pre];
    assert(schedule::schedule_ran(had, run[pre as int], has, run[pre + 1]));
    schedule::law_every_system_has_one_turn(had, run[pre as int], has, run[pre + 1]);
    let (order, states) = choose|order: Seq<usize>, states: Seq<EngineState<V, O>>|
        {
            &&& #[trigger] had.is_order(order)
            &&& #[trigger] states.len() == had.systems.len() + 1
            &&& order.len() == had.systems.len()
            &&& order.no_duplicates()
            &&& states.first() == run[pre as int]
            &&& states.last() == run[pre + 1]
            &&& forall|k: int|
                0 <= k < order.len() ==> 0 <= #[trigger] order[k] < had.systems.len()
                    && schedule::took_turn(
                    had.systems[order[k] as int],
                    states[k],
                    has.systems[order[k] as int],
                    states[k + 1],
                )
        };
    lemma_holds_each(had, order, i);
    let k = choose|k: int| 0 <= k < order.len() && #[trigger] order[k] == i;
    assert(0 <= order[k] < had.systems.len());
    lemma_a_turn_and_the_queue(had.systems[i], states[k], has.systems[i], states[k + 1], key);
    assert(had.is_order(order));
    assert(states.len() == had.systems.len() + 1);
    assert(order[k] == i);
}

/// An update with a ready backend ages the queue exactly once, after the
/// deliveries have landed: where systems and observers only read the queue,
/// what was sent since the last aging, and what came from outside, can still
/// be read, and nothing else.
pub proof fn law_an_update_ages_the_queue_once<
    V,
    O: ObserverSystem<V>,
    S: System<V, O>,
    C: ConditionSystem<V, O>,
    R,
>(
    before: AppView<V, O, S, C, R>,
    deliveries: Seq<Delivery<V>>,
    after: AppView<V, O, S, C, R>,
    key: TypeKey,
    i: int,
)
    requires
        app::updated(before, deliveries, after),
        before.state.resources.backend_ready,
        before.state.resources.events.dom().contains(key),
        aged_by(before.schedules, key, i),
        systems_only_read::<V, O, S>(key),
        observers_only_read::<V, O>(key),
    ensures
        after.state.resources.events.dom().contains(key),
        after.state.resources.events[key].readable() == before.state.resources.events[key].newer
            + app::events_for(deliveries, key),
        after.state.resources.events[key].newer == Seq::<V>::empty(),
{
    let startup = SystemStage::Startup.rank();
    let ready = SystemStage::Ready.rank();
    let pre = SystemStage::PreUpdate.rank();
    let update = SystemStage::Update.rank();
    let had = before.schedules;
    let has = after.schedules;
    let tick = AppView { inbox: after.inbox, ..before };
    let (at, readied, run) = lemma_a_ready_tick(tick, deliveries, after);
    app::law_deliveries_land_in_send_order(before.state.resources, deliveries, key);
    if had.dom().contains(ready) {
        lemma_a_schedule_and_the_queue(had[ready], at, readied, run[0], key, -1);
    }
    assert(run[startup as int] == run[0]);
    if had.dom().contains(startup) {
        lemma_a_schedule_and_the_queue(had[startup], run[0], has[startup], run[1], key, -1);
    }
    assert(run[ready as int] == run[1]);
    assert(run[pre as int] == run[2]);
    lemma_a_schedule_and_the_queue(had[pre], run[2], has[pre], run[3], key, i);
    assert(run[update as int] == run[3]);
    if had.dom().contains(update) {
        lemma_a_schedule_and_the_queue(had[update], run[3], has[update], run[4], key, -1);
    }
    assert(after.state.resources.events[key].readable()
        =~= before.state.resources.events[key].newer + app::events_for(deliveries, key));
}

/// An event outlives one update with a ready backend and not the second: then
/// only what came from outside in the second can be read, however long the
/// queue was. Here systems and observers only read the queue.
pub proof fn law_events_age_out_in_two_updates<
    V,
    O: ObserverSystem<V>,
    S: System<V, O>,
    C: ConditionSystem<V, O>,
    R,
>(
    apps: Seq<AppView<V, O, S, C, R>>,
    deliveries: Seq<Seq<Delivery<V>>>,
    key: TypeKey,
    i: int,
    j: int,
)
    requires
        app::tick_trace(apps, deliveries),
        aged_by(apps[0].schedules, key, i),
        0 <= j,
        j + 2 <= deliveries.len(),
        apps[j].state.resources.backend_ready,
        apps[j + 1].state.resources.backend_ready,
        apps[j].state.resources.events.dom().contains(key),
        systems_only_read::<V, O, S>(key),
        observers_only_read::<V, O>(key),
    ensures
        apps[j + 2].state.resources.events.dom().contains(key),
        apps[j + 2].state.resources.events[key].readable() == app::events_for(
            deliveries[j + 1],
            key,
        ),
{
    law_the_aging_system_stays_for_good(apps, deliveries, key, i, j);
    law_the_aging_system_stays_for_good(apps, deliveries, key, i, j + 1);
    assert(app::updated(apps[j], deliveries[j], apps[j + 1]));
    assert(app::updated(apps[j + 1], deliveries[j + 1], apps[j + 1 + 1]));
    law_an_update_ages_the_queue_once(apps[j], deliveries[j], apps[j + 1], key, i);
    law_an_update_ages_the_queue_once(apps[j + 1], deliveries[j + 1], apps[j + 2], key, i);
    assert(apps[j + 2].state.resources.events[key].readable() =~= app::events_for(
        deliveries[j + 1],
        key,
    ));
}

/// A registered event type is aged in every tick of a started application: from
/// its registration on, through the start and any number of updates, the same
/// system of the `PreUpdate` stage ages its queue.
pub proof fn law_a_registered_type_is_aged_for_good<
    V,
    O: ObserverSystem<V>,
    S: System<V, O>,
    C: ConditionSystem<V, O>,
    R,
>(
    before: AppView<V, O, S, C, R>,
    registered: AppView<V, O, S, C, R>,
    apps: Seq<AppView<V, O, S, C, R>>,
    deliveries: Seq<Seq<Delivery<V>>>,
    key: TypeKey,
    j: int,
)
    requires
        app::event_added(before, key, registered),
        !before.state.resources.events.dom().contains(key),
        forall|rank: TypeKey| #[trigger]
            before.schedules.dom().contains(rank) ==> leaves_unaged(before.schedules[rank], key),
        app::started(registered, apps[0]),
        app::tick_trace(apps, deliveries),
        0 <= j <= deliveries.len(),
    ensures
        aged_by(
            apps[j].schedules,
            key,
            app::stage_of(before.schedules, SystemStage::PreUpdate).systems.len() as int,
        ),
{
    let i = app::stage_of(before.schedules, SystemStage::PreUpdate).systems.len() as int;
    law_a_registered_queue_has_its_aging_system(before, key, registered);
    law_the_aging_system_stays(registered, Seq::empty(), apps[0], key, i);
    law_the_aging_system_stays_for_good(apps, deliveries, key, i, j);
}

} // verus!
