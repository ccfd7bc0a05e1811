//! What the operations of an application promise.
use vstd::prelude::*;

use crate::aging;
use crate::app;
use crate::app::{App, AppHandle, AppView, Delivery, LoopStep, Plugin};
use crate::ecs::condition::ConditionSystem;
use crate::ecs::entities;
use crate::ecs::resources::{Resource, Resources};
use crate::ecs::schedule;
use crate::ecs::schedule::ScheduleView;
use crate::ecs::system::{
    EngineState, ObserverSystem, StageSystem, System, SystemChain, SystemConfig, SystemId,
    SystemStage, TypeKey,
};

verus! {

/// A new application has no systems, no resources of its own, no observers, no
/// event types and no runner; nothing is deferred and no exit asked for, there
/// is no backend and no entity. What its handle sends arrives in it.
pub proof fn law_a_new_application_is_empty<
    V,
    O: ObserverSystem<V>,
    S: System<V, O>,
    C: ConditionSystem<V, O>,
    R,
>(app: App<V, O, S, C, R>, key: TypeKey)
    requires
        call_ensures(App::<V, O, S, C, R>::new, (), app),
    ensures
        app.wf(),
        !app@.schedules.dom().contains(key),
        !app@.gpu_schedules.dom().contains(key),
        app@.runner is None,
        !app@.state.resources.exit,
        !app@.state.resources.backend_ready,
        !app@.state.resources.custom.dom().contains(key),
        !app@.state.resources.events.dom().contains(key),
        !app@.state.resources.observers.dom().contains(key),
        app@.state.resources.triggers.len() == 0,
        app@.state.resources.resource_commands.len() == 0,
        entities::recorded_commands(app@.state.resources.command_buffer) == 0,
        entities::entity_count(app@.state.world) == 0,
        app@.arrived().len() == 0,
        app@.receives_from(&app@.handle),
{
}

/// A resource that is inserted is there with its value, in place of an earlier
/// one, and every other resource stays; nothing else about the application
/// changes. One that is removed is gone.
pub proof fn law_resources_come_and_go<
    V,
    O: ObserverSystem<V>,
    S: System<V, O>,
    C: ConditionSystem<V, O>,
    R,
>(
    app: App<V, O, S, C, R>,
    key: TypeKey,
    value: V,
    with: App<V, O, S, C, R>,
    without: App<V, O, S, C, R>,
    other: TypeKey,
)
    requires
        call_ensures(
            App::<V, O, S, C, R>::insert_resource,
            (app, Resource::Custom(key, value)),
            with,
        ),
        call_ensures(App::<V, O, S, C, R>::remove_resource, (app, key), without),
        other != key,
    ensures
        with@.state.resources.custom.dom().contains(key),
        with@.state.resources.custom[key] == value,
        !without@.state.resources.custom.dom().contains(key),
        with@.state.resources.custom.dom().contains(other)
            == app@.state.resources.custom.dom().contains(other),
        without@.state.resources.custom.dom().contains(other)
            == app@.state.resources.custom.dom().contains(other),
        app@.state.resources.custom.dom().contains(other) ==> {
            &&& with@.state.resources.custom[other] == app@.state.resources.custom[other]
            &&& without@.state.resources.custom[other] == app@.state.resources.custom[other]
        },
        with@.schedules == app@.schedules,
        without@.schedules == app@.schedules,
        with@.gpu_schedules == app@.gpu_schedules,
        without@.gpu_schedules == app@.gpu_schedules,
        with@.runner == app@.runner,
        without@.runner == app@.runner,
        with@.state.resources.events == app@.state.resources.events,
        without@.state.resources.events == app@.state.resources.events,
        with@.state.resources.exit == app@.state.resources.exit,
        without@.state.resources.exit == app@.state.resources.exit,
        with@.state.world == app@.state.world,
        without@.state.world == app@.state.world,
{
}

/// A system that is registered for a stage stands at the end of that stage, as
/// it was described. Every other stage, the GPU schedules, the state and the
/// runner stay.
pub proof fn law_a_registered_system_is_in_its_stage<
    V,
    O: ObserverSystem<V>,
    S: System<V, O>,
    C: ConditionSystem<V, O>,
    R,
>(
    app: App<V, O, S, C, R>,
    stage: SystemStage,
    system: SystemConfig<S, C>,
    after: App<V, O, S, C, R>,
    other: SystemStage,
)
    requires
        call_ensures(App::<V, O, S, C, R>::add_system, (app, stage, system), after),
        other != stage,
    ensures
        ({
            let had = app::stage_of(app@.schedules, stage);
            &&& after@.schedules.dom().contains(stage.rank())
            &&& after@.schedules[stage.rank()].systems.len() == had.systems.len() + 1
            &&& after@.schedules[stage.rank()].systems.drop_last() == had.systems
            &&& after@.schedules[stage.rank()].systems.last().id == system.id
            &&& after@.schedules[stage.rank()].systems.last().system == system.system
            &&& after@.schedules[stage.rank()].systems.last().conditions == system.conditions
            &&& after@.schedules[stage.rank()].systems.last().priority == system.priority
            &&& after@.schedules[stage.rank()].constraints == had.constraints + system.constraints@
        }),
        after@.schedules.dom().contains(other.rank()) == app@.schedules.dom().contains(
            other.rank(),
        ),
        app@.schedules.dom().contains(other.rank()) ==> after@.schedules[other.rank()]
            == app@.schedules[other.rank()],
        after@.gpu_schedules == app@.gpu_schedules,
        after@.state == app@.state,
        after@.runner == app@.runner,
        after@.handle == app@.handle,
        after@.inbox == app@.inbox,
{
    app::law_the_stages_are_in_order(stage);
    let had = app::stage_of(app@.schedules, stage);
    assert(after@.schedules[stage.rank()].systems.drop_last() =~= had.systems);
}

/// The same holds of a chain, whose links are added in order.
pub proof fn law_a_registered_chain_is_in_its_stage<
    V,
    O: ObserverSystem<V>,
    S: System<V, O>,
    C: ConditionSystem<V, O>,
    R,
>(
    app: App<V, O, S, C, R>,
    stage: SystemStage,
    chain: SystemChain<S, C>,
    after: App<V, O, S, C, R>,
    other: SystemStage,
)
    requires
        call_ensures(App::<V, O, S, C, R>::add_systems, (app, stage, chain), after),
        other != stage,
    ensures
        ({
            let had = app::stage_of(app@.schedules, stage);
            &&& after@.schedules.dom().contains(stage.rank())
            &&& after@.schedules[stage.rank()].systems == had.systems + chain.systems()
            &&& after@.schedules[stage.rank()].constraints == had.constraints
                + chain.constraints()
        }),
        after@.schedules.dom().contains(other.rank()) == app@.schedules.dom().contains(
            other.rank(),
        ),
        app@.schedules.dom().contains(other.rank()) ==> after@.schedules[other.rank()]
            == app@.schedules[other.rank()],
        after@.gpu_schedules == app@.gpu_schedules,
        after@.state == app@.state,
        after@.runner == app@.runner,
        after@.handle == app@.handle,
        after@.inbox == app@.inbox,
{
    app::law_the_stages_are_in_order(stage);
}

/// A system of the GPU backend is registered among the GPU schedules, and the
/// regular stages stay.
pub proof fn law_a_gpu_system_is_in_its_own_stage<
    V,
    O: ObserverSystem<V>,
    S: System<V, O>,
    C: ConditionSystem<V, O>,
    R,
>(
    app: App<V, O, S, C, R>,
    stage: SystemStage,
    system: SystemConfig<S, C>,
    after: App<V, O, S, C, R>,
    other: SystemStage,
)
    requires
        call_ensures(App::<V, O, S, C, R>::add_gpu_system, (app, stage, system), after),
        other != stage,
    ensures
        ({
            let had = app::stage_of(app@.gpu_schedules, stage);
            &&& after@.gpu_schedules.dom().contains(stage.rank())
            &&& after@.gpu_schedules[stage.rank()].systems.len() == had.systems.len() + 1
            &&& after@.gpu_schedules[stage.rank()].systems.drop_last() == had.systems
            &&& after@.gpu_schedules[stage.rank()].systems.last().id == system.id
            &&& after@.gpu_schedules[stage.rank()].systems.last().system == system.system
            &&& after@.gpu_schedules[stage.rank()].systems.last().conditions == system.conditions
            &&& after@.gpu_schedules[stage.rank()].constraints == had.constraints
                + system.constraints@
        }),
        app@.gpu_schedules.dom().contains(other.rank()) ==> after@.gpu_schedules[other.rank()]
            == app@.gpu_schedules[other.rank()],
        after@.schedules == app@.schedules,
        after@.state == app@.state,
        after@.runner == app@.runner,
{
    app::law_the_stages_are_in_order(stage);
    let had = app::stage_of(app@.gpu_schedules, stage);
    assert(after@.gpu_schedules[stage.rank()].systems.drop_last() =~= had.systems);
}

/// Registering an event type gives it an empty queue and a system that ages
/// it, which stands at the end of the `PreUpdate` stage, runs under no
/// condition, and so runs in every tick with a ready backend. Nothing else
/// changes, and registering it again changes nothing.
pub proof fn law_a_registered_event_type_is_aged<
    V,
    O: ObserverSystem<V>,
    S: System<V, O>,
    C: ConditionSystem<V, O>,
    R,
>(
    app: App<V, O, S, C, R>,
    key: TypeKey,
    after: App<V, O, S, C, R>,
    again: App<V, O, S, C, R>,
)
    requires
        call_ensures(App::<V, O, S, C, R>::add_event, (app, key), after),
        call_ensures(App::<V, O, S, C, R>::add_event, (after, key), again),
    ensures
        again@ == after@,
        after@.state.resources.events.dom().contains(key),
        app@.state.resources.events.dom().contains(key) ==> after@ == app@,
        !app@.state.resources.events.dom().contains(key) ==> {
            let pre = SystemStage::PreUpdate.rank();
            let had = app::stage_of(app@.schedules, SystemStage::PreUpdate);
            &&& after@.state.resources.events[key].readable() == Seq::<V>::empty()
            &&& after@.schedules.dom() == app@.schedules.dom().insert(pre)
            &&& after@.schedules[pre].systems.len() == had.systems.len() + 1
            &&& after@.schedules[pre].systems.drop_last() == had.systems
            &&& after@.schedules[pre].systems.last().system == StageSystem::<S>::AgeEvents(key)
            &&& after@.schedules[pre].systems.last().id == SystemId::AgeEvents(key)
            &&& after@.schedules[pre].systems.last().conditions@.len() == 0
            &&& after@.schedules[pre].constraints == had.constraints
            &&& forall|rank: TypeKey| #[trigger]
                app@.schedules.dom().contains(rank) && rank != pre ==> after@.schedules[rank]
                    == app@.schedules[rank]
            &&& after@.gpu_schedules == app@.gpu_schedules
            &&& after@.runner == app@.runner
            &&& after@.state.world == app@.state.world
            &&& after@.state.resources.custom == app@.state.resources.custom
            &&& after@.state.resources.observers == app@.state.resources.observers
        },
{
    app::law_add_event_is_idempotent(app@, key, after@, again@);
    if !app@.state.resources.events.dom().contains(key) {
        aging::law_a_registered_queue_has_its_aging_system(app@, key, after@);
    }
}

/// An observer that is registered comes after the observers that its event
/// type has already; those of other types stay, and so does everything else.
pub proof fn law_a_registered_observer_is_the_last<
    V,
    O: ObserverSystem<V>,
    S: System<V, O>,
    C: ConditionSystem<V, O>,
    R,
>(
    app: App<V, O, S, C, R>,
    key: TypeKey,
    observer: O,
    after: App<V, O, S, C, R>,
    other: TypeKey,
)
    requires
        call_ensures(App::<V, O, S, C, R>::add_observer, (app, key, observer), after),
        other != key,
    ensures
        after@.state.resources.observers.dom().contains(key),
        after@.state.resources.observers[key].last() == observer,
        app@.state.resources.observers.dom().contains(key)
            ==> after@.state.resources.observers[key].drop_last()
            == app@.state.resources.observers[key],
        !app@.state.resources.observers.dom().contains(key)
            ==> after@.state.resources.observers[key].len() == 1,
        after@.state.resources.observers.dom().contains(other)
            == app@.state.resources.observers.dom().contains(other),
        app@.state.resources.observers.dom().contains(other)
            ==> after@.state.resources.observers[other] == app@.state.resources.observers[other],
        after@.schedules == app@.schedules,
        after@.gpu_schedules == app@.gpu_schedules,
        after@.runner == app@.runner,
        after@.state.world == app@.state.world,
        after@.state.resources.custom == app@.state.resources.custom,
        after@.state.resources.events == app@.state.resources.events,
{
    if app@.state.resources.observers.dom().contains(key) {
        assert(after@.state.resources.observers[key].drop_last()
            =~= app@.state.resources.observers[key]);
    }
}

/// The runner that is set is the one that the start hands out.
pub proof fn law_the_start_hands_out_the_runner<
    V,
    O: ObserverSystem<V>,
    S: System<V, O>,
    C: ConditionSystem<V, O>,
    R,
>(
    fresh: App<V, O, S, C, R>,
    runner: R,
    set: App<V, O, S, C, R>,
    app: &mut App<V, O, S, C, R>,
    given: Option<R>,
)
    requires
        call_ensures(App::<V, O, S, C, R>::set_runner, (fresh, runner), set),
        *old(app) == set,
        call_ensures(App::<V, O, S, C, R>::start, (app,), given),
    ensures
        given == Some(runner),
        final(app)@.runner is None,
        set@.schedules == fresh@.schedules,
        set@.gpu_schedules == fresh@.gpu_schedules,
        set@.state == fresh@.state,
{
}

/// The start runs the `Startup` stage, if there is one, from the state at
/// hand, takes it away, and leaves the other stages and the GPU schedules as
/// they are.
pub proof fn law_the_start_consumes_the_startup_stage<
    V,
    O: ObserverSystem<V>,
    S: System<V, O>,
    C: ConditionSystem<V, O>,
    R,
>(
    app: &mut App<V, O, S, C, R>,
    given: Option<R>,
    other: SystemStage,
)
    requires
        call_ensures(App::<V, O, S, C, R>::start, (app,), given),
        other != SystemStage::Startup,
    ensures
        ({
            let startup = SystemStage::Startup.rank();
            &&& old(app)@.schedules.dom().contains(startup) ==> exists|ran: ScheduleView<S, C>|
                #[trigger] schedule::schedule_ran(
                    old(app)@.schedules[startup],
                    old(app)@.state,
                    ran,
                    final(app)@.state,
                )
            &&& !old(app)@.schedules.dom().contains(startup) ==> final(app)@.state == old(
                app,
            )@.state
            &&& !final(app)@.schedules.dom().contains(startup)
        }),
        final(app)@.schedules.dom().contains(other.rank()) == old(app)@.schedules.dom().contains(
            other.rank(),
        ),
        old(app)@.schedules.dom().contains(other.rank()) ==> final(app)@.schedules[other.rank()]
            == old(app)@.schedules[other.rank()],
        final(app)@.gpu_schedules == old(app)@.gpu_schedules,
        final(app)@.handle == old(app)@.handle,
        final(app)@.inbox == old(app)@.inbox,
        given == old(app)@.runner,
{
    app::law_the_start_runs_the_startup_stage(old(app)@, final(app)@, other);
}

/// A tick with a ready backend delivers first, then runs `Ready`, which is
/// then gone, then `Startup` if the application was never started, then
/// `PreUpdate`, then `Update`, each from the state that the one before it
/// left. The GPU schedules rest.
pub proof fn law_a_tick_with_a_backend<
    V,
    O: ObserverSystem<V>,
    S: System<V, O>,
    C: ConditionSystem<V, O>,
    R,
>(
    app: &mut App<V, O, S, C, R>,
    deliveries: Vec<Delivery<V>>,
)
    requires
        call_ensures(App::<V, O, S, C, R>::update_with, (app, deliveries), ()),
        old(app)@.state.resources.backend_ready,
    ensures
        ({
            let startup = SystemStage::Startup.rank();
            let ready = SystemStage::Ready.rank();
            let pre = SystemStage::PreUpdate.rank();
            let update = SystemStage::Update.rank();
            let had = old(app)@.schedules;
            let has = final(app)@.schedules;
            &&& has.dom() == had.dom().remove(ready)
            &&& final(app)@.gpu_schedules == old(app)@.gpu_schedules
            &&& final(app)@.runner == old(app)@.runner
            &&& final(app)@.handle == old(app)@.handle
            &&& exists|states: Seq<EngineState<V, O>>|
                {
                    &&& #[trigger] states.len() == 5
                    &&& states[0].world == old(app)@.state.world
                    &&& states[0].resources == app::delivered(
                        old(app)@.state.resources,
                        deliveries@,
                    )
                    &&& if had.dom().contains(ready) {
                        exists|readied: ScheduleView<S, C>| #[trigger]
                            schedule::schedule_ran(had[ready], states[0], readied, states[1])
                    } else {
                        states[1] == states[0]
                    }
                    &&& if had.dom().contains(startup) {
                        schedule::schedule_ran(had[startup], states[1], has[startup], states[2])
                    } else {
                        states[2] == states[1]
                    }
                    &&& if had.dom().contains(pre) {
                        schedule::schedule_ran(had[pre], states[2], has[pre], states[3])
                    } else {
                        states[3] == states[2]
                    }
                    &&& if had.dom().contains(update) {
                        schedule::schedule_ran(had[update], states[3], has[update], states[4])
                    } else {
                        states[4] == states[3]
                    }
                    &&& final(app)@.state == states[4]
                }
        }),
{
    app::law_a_ready_tick_runs_the_stages_in_order(old(app)@, deliveries@, final(app)@);
}

/// A tick before the backend is ready delivers first and then runs the GPU
/// schedules, stage by stage; the regular stages rest.
pub proof fn law_a_tick_without_a_backend<
    V,
    O: ObserverSystem<V>,
    S: System<V, O>,
    C: ConditionSystem<V, O>,
    R,
>(
    app: &mut App<V, O, S, C, R>,
    deliveries: Vec<Delivery<V>>,
)
    requires
        call_ensures(App::<V, O, S, C, R>::update_with, (app, deliveries), ()),
        !old(app)@.state.resources.backend_ready,
    ensures
        ({
            let startup = SystemStage::Startup.rank();
            let ready = SystemStage::Ready.rank();
            let pre = SystemStage::PreUpdate.rank();
            let update = SystemStage::Update.rank();
            let had = old(app)@.gpu_schedules;
            let has = final(app)@.gpu_schedules;
            &&& has.dom() == had.dom()
            &&& final(app)@.schedules == old(app)@.schedules
            &&& final(app)@.runner == old(app)@.runner
            &&& final(app)@.handle == old(app)@.handle
            &&& exists|states: Seq<EngineState<V, O>>|
                {
                    &&& #[trigger] states.len() == 5
                    &&& states[0].world == old(app)@.state.world
                    &&& states[0].resources == app::delivered(
                        old(app)@.state.resources,
                        deliveries@,
                    )
                    &&& if had.dom().contains(startup) {
                        schedule::schedule_ran(had[startup], states[0], has[startup], states[1])
                    } else {
                        states[1] == states[0]
                    }
                    &&& if had.dom().contains(ready) {
                        schedule::schedule_ran(had[ready], states[1], has[ready], states[2])
                    } else {
                        states[2] == states[1]
                    }
                    &&& if had.dom().contains(pre) {
                        schedule::schedule_ran(had[pre], states[2], has[pre], states[3])
                    } else {
                        states[3] == states[2]
                    }
                    &&& if had.dom().contains(update) {
                        schedule::schedule_ran(had[update], states[3], has[update], states[4])
                    } else {
                        states[4] == states[3]
                    }
                    &&& final(app)@.state == states[4]
                }
        }),
{
    app::law_a_waiting_tick_runs_the_gpu_stages_in_order(old(app)@, deliveries@, final(app)@);
}

/// An update is one tick with everything that has arrived from outside since
/// the last, each event once and in the order of arrival.
pub proof fn law_an_update_delivers_what_has_arrived<
    V,
    O: ObserverSystem<V>,
    S: System<V, O>,
    C: ConditionSystem<V, O>,
    R,
>(app: &mut App<V, O, S, C, R>)
    requires
        call_ensures(App::<V, O, S, C, R>::update, (app,), ()),
    ensures
        exists|deliveries: Seq<Delivery<V>>|
            {
                &&& #[trigger] app::updated(old(app)@, deliveries, final(app)@)
                &&& final(app)@.arrived() == old(app)@.arrived() + deliveries
                &&& deliveries.len() < usize::MAX ==> !(final(app)@.inbox.polls.last() is Ready)
            },
        final(app)@.inbox.channel == old(app)@.inbox.channel,
        final(app)@.handle == old(app)@.handle,
        final(app)@.runner == old(app)@.runner,
{
    let deliveries = choose|deliveries: Seq<Delivery<V>>| #[trigger]
        app::updated(old(app)@, deliveries, final(app)@);
    crate::ecs::stream::law_a_drain_takes_all_that_is_waiting(
        old(app)@.inbox,
        deliveries,
        final(app)@.inbox,
        0,
    );
}

/// An update with a ready backend ages the queue of a registered event type
/// once, so that of what could be read before it only what was sent since the
/// last aging can be read after it, along with what has come from outside.
/// Here systems and observers only read the queue.
pub proof fn law_an_update_ages_a_registered_queue<
    V,
    O: ObserverSystem<V>,
    S: System<V, O>,
    C: ConditionSystem<V, O>,
    R,
>(
    app: &mut App<V, O, S, C, R>,
    key: TypeKey,
    i: int,
)
    requires
        call_ensures(App::<V, O, S, C, R>::update, (app,), ()),
        old(app)@.state.resources.backend_ready,
        old(app)@.state.resources.events.dom().contains(key),
        aging::aged_by(old(app)@.schedules, key, i),
        aging::systems_only_read::<V, O, S>(key),
        aging::observers_only_read::<V, O>(key),
    ensures
        aging::aged_by(final(app)@.schedules, key, i),
        final(app)@.state.resources.events.dom().contains(key),
        final(app)@.state.resources.events[key].newer.len() == 0,
        exists|arrived: Seq<V>| #[trigger]
            final(app)@.state.resources.events[key].readable() == old(
                app,
            )@.state.resources.events[key].newer + arrived,
{
    let deliveries = choose|deliveries: Seq<Delivery<V>>| #[trigger]
        app::updated(old(app)@, deliveries, final(app)@);
    aging::law_the_aging_system_stays(old(app)@, deliveries, final(app)@, key, i);
    aging::law_an_update_ages_the_queue_once(old(app)@, deliveries, final(app)@, key, i);
}

/// A round of the default loop is an update. It says to stop exactly if an
/// exit has been asked for by its end, and to pause exactly if it goes on and
/// the backend was not ready at its beginning.
pub proof fn law_a_round_of_the_loop<
    V,
    O: ObserverSystem<V>,
    S: System<V, O>,
    C: ConditionSystem<V, O>,
    R,
>(app: &mut App<V, O, S, C, R>, step: LoopStep)
    requires
        call_ensures(App::<V, O, S, C, R>::tick, (app,), step),
    ensures
        exists|deliveries: Seq<Delivery<V>>| #[trigger]
            app::updated(old(app)@, deliveries, final(app)@),
        step == LoopStep::Exit <==> final(app)@.state.resources.exit,
        step == LoopStep::Wait <==> !final(app)@.state.resources.exit && !old(
            app,
        )@.state.resources.backend_ready,
        step == LoopStep::Continue <==> !final(app)@.state.resources.exit && old(
            app,
        )@.state.resources.backend_ready,
{
}

/// What an application says of itself: whether its schedules can be ordered,
/// all of them, those of the next tick, or the `Startup` stage; whether there
/// is a backend; and whether an exit has been asked for.
pub proof fn law_an_application_knows_whether_it_can_run<
    V,
    O: ObserverSystem<V>,
    S: System<V, O>,
    C: ConditionSystem<V, O>,
    R,
>(
    app: &App<V, O, S, C, R>,
    all: bool,
    next: bool,
    start: bool,
    ready: bool,
    exit: bool,
    rank: TypeKey,
)
    requires
        call_ensures(App::<V, O, S, C, R>::is_orderable, (app,), all),
        call_ensures(App::<V, O, S, C, R>::can_update, (app,), next),
        call_ensures(App::<V, O, S, C, R>::can_start, (app,), start),
        call_ensures(App::<V, O, S, C, R>::backend_ready, (app,), ready),
        call_ensures(App::<V, O, S, C, R>::should_exit, (app,), exit),
    ensures
        ready == app@.state.resources.backend_ready,
        exit == app@.state.resources.exit,
        all ==> next && start,
        all && app@.schedules.dom().contains(rank) ==> app@.schedules[rank].acyclic(),
        all && app@.gpu_schedules.dom().contains(rank) ==> app@.gpu_schedules[rank].acyclic(),
        next && ready && app@.schedules.dom().contains(rank) ==> app@.schedules[rank].acyclic(),
        next && !ready && app@.gpu_schedules.dom().contains(rank)
            ==> app@.gpu_schedules[rank].acyclic(),
        (forall|r: TypeKey| #[trigger]
            app@.schedules.dom().contains(r) ==> app@.schedules[r].acyclic()) && (forall|r: TypeKey|
         #[trigger]
            app@.gpu_schedules.dom().contains(r) ==> app@.gpu_schedules[r].acyclic()) ==> all,
        start <==> (app@.schedules.dom().contains(SystemStage::Startup.rank())
            ==> app@.schedules[SystemStage::Startup.rank()].acyclic()),
        ready && (forall|r: TypeKey| #[trigger]
            app@.schedules.dom().contains(r) ==> app@.schedules[r].acyclic()) ==> next,
        !ready && (forall|r: TypeKey| #[trigger]
            app@.gpu_schedules.dom().contains(r) ==> app@.gpu_schedules[r].acyclic()) ==> next,
{
}

/// What is sent by a handle of an application arrives in that application,
/// under the type that it was sent as.
pub proof fn law_a_handle_sends_into_its_application<
    V,
    O: ObserverSystem<V>,
    S: System<V, O>,
    C: ConditionSystem<V, O>,
    R,
>(
    app: &App<V, O, S, C, R>,
    handle: AppHandle<V>,
    key: TypeKey,
    event: V,
)
    requires
        call_ensures(App::<V, O, S, C, R>::handle, (app,), handle),
        call_ensures(AppHandle::<V>::send, (&handle, key, event), ()),
    ensures
        app@.receives_from(&handle),
        handle.is_clone_of(&app@.handle),
        handle.sent(Delivery { key, event }),
{
}

/// What a plugin makes of an application is what adding it gives.
pub proof fn law_a_plugin_is_built<
    V,
    O: ObserverSystem<V>,
    S: System<V, O>,
    C: ConditionSystem<V, O>,
    R,
    P: Plugin<V, O, S, C, R>,
>(app: App<V, O, S, C, R>, plugin: P, after: App<V, O, S, C, R>)
    requires
        call_ensures(App::<V, O, S, C, R>::add_plugin::<P>, (app, plugin), after),
    ensures
        plugin.builds(app@, after@),
        after.wf(),
{
}

/// The resources that are handed out are those of the application, and what is
/// changed about them is all that changes.
pub proof fn law_the_resources_are_the_applications<
    V,
    O: ObserverSystem<V>,
    S: System<V, O>,
    C: ConditionSystem<V, O>,
    R,
>(
    app: &App<V, O, S, C, R>,
    shown: &Resources<V, O>,
    changing: &mut App<V, O, S, C, R>,
    changed: &mut Resources<V, O>,
)
    requires
        call_ensures(App::<V, O, S, C, R>::resources, (app,), shown),
        call_ensures(App::<V, O, S, C, R>::resources_mut, (changing,), changed),
    ensures
        shown@ == app@.state.resources,
        old(changed)@ == old(changing)@.state.resources,
        final(changing)@.state.resources == final(changed)@,
        final(changing)@.state.world == old(changing)@.state.world,
        final(changing)@.schedules == old(changing)@.schedules,
        final(changing)@.gpu_schedules == old(changing)@.gpu_schedules,
        final(changing)@.runner == old(changing)@.runner,
{
}

/// An update with a ready backend is a tick that begins with everything that
/// has arrived: the first stage finds each of these events at the end of the
/// queue of its type.
pub proof fn law_an_update_begins_with_what_has_arrived<
    V,
    O: ObserverSystem<V>,
    S: System<V, O>,
    C: ConditionSystem<V, O>,
    R,
>(
    app: &mut App<V, O, S, C, R>,
)
    requires
        call_ensures(App::<V, O, S, C, R>::update, (app,), ()),
        old(app)@.state.resources.backend_ready,
    ensures
        exists|deliveries: Seq<Delivery<V>>, states: Seq<EngineState<V, O>>|
            {
                &&& final(app)@.arrived() == #[trigger] (old(app)@.arrived() + deliveries)
                &&& #[trigger] states.len() == 5
                &&& states[0].world == old(app)@.state.world
                &&& states[0].resources == app::delivered(old(app)@.state.resources, deliveries)
                &&& if old(app)@.schedules.dom().contains(SystemStage::PreUpdate.rank()) {
                    schedule::schedule_ran(
                        old(app)@.schedules[SystemStage::PreUpdate.rank()],
                        states[2],
                        final(app)@.schedules[SystemStage::PreUpdate.rank()],
                        states[3],
                    )
                } else {
                    states[3] == states[2]
                }
                &&& if old(app)@.schedules.dom().contains(SystemStage::Update.rank()) {
                    schedule::schedule_ran(
                        old(app)@.schedules[SystemStage::Update.rank()],
                        states[3],
                        final(app)@.schedules[SystemStage::Update.rank()],
                        states[4],
                    )
                } else {
                    states[4] == states[3]
                }
                &&& final(app)@.state == states[4]
            },
        !final(app)@.schedules.dom().contains(SystemStage::Ready.rank()),
        final(app)@.gpu_schedules == old(app)@.gpu_schedules,
{
    let deliveries = choose|deliveries: Seq<Delivery<V>>| #[trigger]
        app::updated(old(app)@, deliveries, final(app)@);
    app::law_a_ready_tick_runs_the_stages_in_order(
        AppView { inbox: final(app)@.inbox, ..old(app)@ },
        deliveries,
        final(app)@,
    );
    assert(final(app)@.arrived() == old(app)@.arrived() + deliveries);
}

/// An update before the backend is ready begins with everything that has
/// arrived, too, and then runs the GPU schedules; the regular stages rest.
pub proof fn law_a_waiting_update_begins_with_what_has_arrived<
    V,
    O: ObserverSystem<V>,
    S: System<V, O>,
    C: ConditionSystem<V, O>,
    R,
>(
    app: &mut App<V, O, S, C, R>,
)
    requires
        call_ensures(App::<V, O, S, C, R>::update, (app,), ()),
        !old(app)@.state.resources.backend_ready,
    ensures
        exists|deliveries: Seq<Delivery<V>>, states: Seq<EngineState<V, O>>|
            {
                &&& final(app)@.arrived() == #[trigger] (old(app)@.arrived() + deliveries)
                &&& #[trigger] states.len() == 5
                &&& states[0].world == old(app)@.state.world
                &&& states[0].resources == app::delivered(old(app)@.state.resources, deliveries)
                &&& if old(app)@.gpu_schedules.dom().contains(SystemStage::Startup.rank()) {
                    schedule::schedule_ran(
                        old(app)@.gpu_schedules[SystemStage::Startup.rank()],
                        states[0],
                        final(app)@.gpu_schedules[SystemStage::Startup.rank()],
                        states[1],
                    )
                } else {
                    states[1] == states[0]
                }
                &&& if old(app)@.gpu_schedules.dom().contains(SystemStage::Update.rank()) {
                    schedule::schedule_ran(
                        old(app)@.gpu_schedules[SystemStage::Update.rank()],
                        states[3],
                        final(app)@.gpu_schedules[SystemStage::Update.rank()],
                        states[4],
                    )
                } else {
                    states[4] == states[3]
                }
                &&& final(app)@.state == states[4]
            },
        final(app)@.schedules == old(app)@.schedules,
{
    let deliveries = choose|deliveries: Seq<Delivery<V>>| #[trigger]
        app::updated(old(app)@, deliveries, final(app)@);
    app::law_a_waiting_tick_runs_the_gpu_stages_in_order(
        AppView { inbox: final(app)@.inbox, ..old(app)@ },
        deliveries,
        final(app)@,
    );
    assert(final(app)@.arrived() == old(app)@.arrived() + deliveries);
}

} // verus!
