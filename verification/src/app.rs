//! The application: entities, resources and every registered system.
use vstd::prelude::*;

use std::collections::BTreeMap;

use crate::ecs::condition::ConditionSystem;
use crate::ecs::entities;
use crate::ecs::resources::{Resource, Resources, ResourcesView};
use crate::ecs::schedule;
use crate::ecs::schedule::{Schedule, ScheduleView};
use crate::ecs::stream::{Emitter, Inbox, InboxView, Stream, StreamState};
use crate::ecs::system::{
    EngineState, ObserverSystem, StageSystem, System, SystemChain, SystemConfig, SystemId,
    SystemStage, TypeKey, STAGE_COUNT,
};

verus! {

/// Set to `true` to stop the default headless loop after the current tick. Has
/// no effect on a window's own loop: closing the window is what stops that one.
#[derive(Clone, Copy, PartialEq, Eq, Structural, Debug)]
pub struct AppExit(pub bool);

impl Default for AppExit {
    fn default() -> (exit: Self)
        ensures
            exit == AppExit(false),
    {
        AppExit(false)
    }
}

/// Whether the GPU backend has finished initializing. Until it is `true`,
/// [`App::update`] only runs the GPU schedules, not the regular stages.
#[derive(Clone, Copy, PartialEq, Eq, Structural, Debug)]
pub struct BackendReady(pub bool);

impl Default for BackendReady {
    fn default() -> (ready: Self)
        ensures
            ready == BackendReady(false),
    {
        BackendReady(false)
    }
}

/// One event sent from outside, on its way to the queue of its type.
pub struct Delivery<V> {
    pub key: TypeKey,
    pub event: V,
}

/// A cloneable handle for sending events into an application from outside:
/// background threads, tasks, callbacks. Events land at the start of the next
/// tick, in the queue of their type. An event whose type was never registered
/// is dropped.
#[verifier::reject_recursive_types(V)]
pub struct AppHandle<V> {
    tx: Emitter<Delivery<V>>,
}

impl<V> Clone for AppHandle<V> {
    fn clone(&self) -> (handle: Self)
        ensures
            handle.is_clone_of(self),
            forall|inbox: InboxView<Delivery<V>>| #[trigger]
                self.sends_to(inbox) ==> handle.sends_to(inbox),
    {
        AppHandle { tx: self.tx.clone() }
    }
}

impl<V> AppHandle<V> {
    /// This handle was made by cloning `other`.
    pub closed spec fn is_clone_of(&self, other: &AppHandle<V>) -> bool {
        self.tx.is_clone_of(&other.tx)
    }

    /// What is sent here arrives in this inbox.
    pub closed spec fn sends_to(&self, inbox: InboxView<Delivery<V>>) -> bool {
        self.tx.feeds_channel(inbox.channel)
    }

    /// An event has been handed over for delivery.
    pub closed spec fn sent(&self, delivery: Delivery<V>) -> bool {
        self.tx.sent(delivery)
    }

    /// Queues `event` for delivery at the start of the next tick. Events
    /// arrive in the order of sending.
    pub fn send(&self, key: TypeKey, event: V)
        ensures
            self.sent(Delivery { key, event }),
    {
        self.tx.emit(Delivery { key, event });
    }
}

/// The central application object. `V` is what the application's resources
/// and events are, `O` its observers, `S` its systems, `C` its run
/// conditions, and `R` what drives the main loop in place of the default one.
#[verifier::reject_recursive_types(V)]
pub struct App<V, O, S, C, R> {
    world: hecs::World,
    resources: Resources<V, O>,
    schedules: BTreeMap<TypeKey, Schedule<S, C>>,
    gpu_schedules: BTreeMap<TypeKey, Schedule<S, C>>,
    runner: Option<R>,
    handle: AppHandle<V>,
    deliveries: Inbox<Delivery<V>>,
}

/// What an application is: the entities and resources, the schedule of each
/// stage that has one (by the stage's rank), those of the GPU backend, the
/// runner, the handle for sending events in from outside, and where they
/// arrive.
#[verifier::reject_recursive_types(V)]
#[verifier::ext_equal]
pub struct AppView<V, O, S, C, R> {
    pub state: EngineState<V, O>,
    pub schedules: Map<TypeKey, ScheduleView<S, C>>,
    pub gpu_schedules: Map<TypeKey, ScheduleView<S, C>>,
    pub runner: Option<R>,
    pub handle: AppHandle<V>,
    pub inbox: InboxView<Delivery<V>>,
}

/// What extends an application: it may insert resources, register systems,
/// or add further plugins of its own.
pub trait Plugin<V, O: ObserverSystem<V>, S: System<V, O>, C: ConditionSystem<V, O>, R>: Sized {
    /// What the plugin may make of an application.
    spec fn builds(
        self,
        before: AppView<V, O, S, C, R>,
        after: AppView<V, O, S, C, R>,
    ) -> bool;

    fn build(self, app: App<V, O, S, C, R>) -> (built: App<V, O, S, C, R>)
        requires
            app.wf(),
        ensures
            built.wf(),
            self.builds(app@, built@),
    ;
}

// ---------------------------------------------------------------------------
// Stages
// ---------------------------------------------------------------------------

/// The schedules of a map, each by its view.
pub open spec fn schedule_views<S, C>(schedules: Map<TypeKey, Schedule<S, C>>) -> Map<
    TypeKey,
    ScheduleView<S, C>,
> {
    Map::new(|rank: TypeKey| schedules.dom().contains(rank), |rank: TypeKey| schedules[rank]@)
}

/// The schedule of one stage: an empty one if the stage has none.
pub open spec fn stage_of<S, C>(
    schedules: Map<TypeKey, ScheduleView<S, C>>,
    stage: SystemStage,
) -> ScheduleView<S, C> {
    if schedules.dom().contains(stage.rank()) {
        schedules[stage.rank()]
    } else {
        ScheduleView::empty()
    }
}

/// `system` added to one stage.
pub open spec fn with_system<S, C>(
    schedules: Map<TypeKey, ScheduleView<S, C>>,
    stage: SystemStage,
    system: SystemConfig<S, C>,
) -> Map<TypeKey, ScheduleView<S, C>> {
    schedules.insert(stage.rank(), stage_of(schedules, stage).add_system(system))
}

/// The systems of `chain` added to one stage.
pub open spec fn with_systems<S, C>(
    schedules: Map<TypeKey, ScheduleView<S, C>>,
    stage: SystemStage,
    chain: SystemChain<S, C>,
) -> Map<TypeKey, ScheduleView<S, C>> {
    schedules.insert(stage.rank(), stage_of(schedules, stage).add_systems(chain))
}

/// In no stage the constraints form a cycle.
pub open spec fn stages_acyclic<S, C>(schedules: Map<TypeKey, ScheduleView<S, C>>) -> bool {
    forall|rank: TypeKey| #[trigger]
        schedules.dom().contains(rank) ==> schedules[rank].acyclic()
}

/// The stage of this rank has run, if it has a schedule.
pub open spec fn stage_ran<V, O: ObserverSystem<V>, S: System<V, O>, C: ConditionSystem<V, O>>(
    rank: TypeKey,
    before: Map<TypeKey, ScheduleView<S, C>>,
    at: EngineState<V, O>,
    after: Map<TypeKey, ScheduleView<S, C>>,
    then: EngineState<V, O>,
) -> bool {
    if before.dom().contains(rank) {
        schedule::schedule_ran(before[rank], at, after[rank], then)
    } else {
        then == at
    }
}

/// The stages have run in the order of their ranks, while the state went
/// through `states`.
pub open spec fn stages_trace<V, O: ObserverSystem<V>, S: System<V, O>, C: ConditionSystem<V, O>>(
    before: Map<TypeKey, ScheduleView<S, C>>,
    after: Map<TypeKey, ScheduleView<S, C>>,
    states: Seq<EngineState<V, O>>,
) -> bool {
    &&& states.len() == STAGE_COUNT + 1
    &&& forall|rank: TypeKey|
        rank < STAGE_COUNT ==> stage_ran(
            rank,
            before,
            #[trigger] states[rank as int],
            after,
            states[rank + 1],
        )
}

/// The stages have run in the order of their ranks.
pub open spec fn stages_ran<V, O: ObserverSystem<V>, S: System<V, O>, C: ConditionSystem<V, O>>(
    before: Map<TypeKey, ScheduleView<S, C>>,
    at: EngineState<V, O>,
    after: Map<TypeKey, ScheduleView<S, C>>,
    then: EngineState<V, O>,
) -> bool {
    &&& after.dom() == before.dom()
    &&& exists|states: Seq<EngineState<V, O>>|
        {
            &&& #[trigger] stages_trace(before, after, states)
            &&& states.first() == at
            &&& states.last() == then
        }
}

/// One stage has run and is gone. Without a schedule nothing happened.
pub open spec fn stage_consumed<V, O: ObserverSystem<V>, S: System<V, O>, C: ConditionSystem<V, O>>(
    stage: SystemStage,
    schedules: Map<TypeKey, ScheduleView<S, C>>,
    at: EngineState<V, O>,
    then: EngineState<V, O>,
) -> bool {
    if schedules.dom().contains(stage.rank()) {
        exists|after: ScheduleView<S, C>| #[trigger]
            schedule::schedule_ran(schedules[stage.rank()], at, after, then)
    } else {
        then == at
    }
}

/// The schedules that an application may hold: well-formed ones, of stages
/// that there are, whose conditions can be evaluated.
spec fn stages_wf<V, O, S, C: ConditionSystem<V, O>>(
    schedules: Map<TypeKey, Schedule<S, C>>,
) -> bool {
    forall|rank: TypeKey| #[trigger]
        schedules.dom().contains(rank) ==> {
            &&& rank < STAGE_COUNT
            &&& schedules[rank].wf()
            &&& schedule::conditions_ready::<V, O, S, C>(schedules[rank]@.systems)
        }
}

/// Runs the stages in the order of their ranks.
fn run_stages<V, O: ObserverSystem<V>, S: System<V, O>, C: ConditionSystem<V, O>>(
    schedules: &mut BTreeMap<TypeKey, Schedule<S, C>>,
    world: &mut hecs::World,
    resources: &mut Resources<V, O>,
)
    requires
        stages_wf::<V, O, S, C>(old(schedules)@),
        stages_acyclic(schedule_views(old(schedules)@)),
        old(resources).wf(),
    ensures
        stages_wf::<V, O, S, C>(final(schedules)@),
        stages_acyclic(schedule_views(final(schedules)@)),
        final(resources).wf(),
        stages_ran(
            schedule_views(old(schedules)@),
            schedule::state_of(*old(world), *old(resources)),
            schedule_views(final(schedules)@),
            schedule::state_of(*final(world), *final(resources)),
        ),
{
    let ghost start = schedules@;
    let ghost before = schedule_views(start);
    let ghost at = schedule::state_of(*world, *resources);
    let ghost mut states: Seq<EngineState<V, O>> = seq![at];
    let mut rank: u64 = 0;
    while rank < STAGE_COUNT
        invariant
            rank <= STAGE_COUNT,
            stages_wf::<V, O, S, C>(schedules@),
            stages_acyclic(schedule_views(schedules@)),
            schedules@.dom() == start.dom(),
            before == schedule_views(start),
            resources.wf(),
            states.len() == rank + 1,
            states.first() == at,
            states.last() == schedule::state_of(*world, *resources),
            forall|r: TypeKey|
                r < rank ==> stage_ran(
                    r,
                    before,
                    #[trigger] states[r as int],
                    schedule_views(schedules@),
                    states[r + 1],
                ),
            forall|r: TypeKey| #[trigger]
                start.dom().contains(r) && r >= rank ==> schedules@[r] == start[r],
        decreases STAGE_COUNT - rank,
    {
        let ghost mid = schedules@;
        let ghost state = schedule::state_of(*world, *resources);
        proof {
            assert(schedule_views(mid).dom().contains(rank) == start.dom().contains(rank));
        }
        match schedules.remove(&rank) {
            Some(stage) => {
                let mut stage = stage;
                stage.run(world, resources);
                let _ = schedules.insert(rank, stage);
            },
            None => {},
        }
        proof {
            let then = schedule::state_of(*world, *resources);
            let passed = states;
            states = passed.push(then);
            let after = schedule_views(schedules@);
            assert(schedules@.dom() =~= start.dom());
            if start.dom().contains(rank) {
                assert(schedules@ == mid.insert(rank, schedules@[rank]));
                assert(after[rank].ids() == schedule_views(mid)[rank].ids());
                assert(after[rank].acyclic());
            } else {
                assert(schedules@ =~= mid);
            }
            assert forall|r: TypeKey| #[trigger] after.dom().contains(r) implies after[r].acyclic() by {
                if r != rank {
                    assert(schedules@[r] == mid[r]);
                    assert(schedule_views(mid).dom().contains(r));
                }
            }
            assert forall|r: TypeKey| r < rank + 1 implies stage_ran(
                r,
                before,
                #[trigger] states[r as int],
                after,
                states[r + 1],
            ) by {
                if r < rank {
                    assert(states[r as int] == passed[r as int]);
                    assert(stage_ran(r, before, passed[r as int], schedule_views(mid), passed[r + 1]));
                    if before.dom().contains(r) {
                        assert(schedules@[r] == mid[r]);
                    }
                }
            }
        }
        rank += 1;
    }
    assert(schedule_views(schedules@).dom() =~= before.dom());
    assert(stages_trace(before, schedule_views(schedules@), states));
}

/// Whether every stage can be ordered.
fn stages_orderable<V, O, S, C: ConditionSystem<V, O>>(schedules: &BTreeMap<TypeKey, Schedule<S, C>>) -> (
    orderable: bool)
    requires
        stages_wf::<V, O, S, C>(schedules@),
    ensures
        orderable == stages_acyclic(schedule_views(schedules@)),
{
    let ghost views = schedule_views(schedules@);
    let mut rank: u64 = 0;
    while rank < STAGE_COUNT
        invariant
            rank <= STAGE_COUNT,
            views == schedule_views(schedules@),
            forall|r: TypeKey| #[trigger]
                views.dom().contains(r) && r < rank ==> views[r].acyclic(),
        decreases STAGE_COUNT - rank,
    {
        match schedules.get(&rank) {
            Some(stage) => {
                match stage.compute_order() {
                    Ok(_) => {},
                    Err(_) => {
                        assert(views.dom().contains(rank));
                        return false;
                    },
                }
            },
            None => {},
        }
        rank += 1;
    }
    assert forall|r: TypeKey| #[trigger] views.dom().contains(r) implies views[r].acyclic() by {
        assert(schedules@.dom().contains(r));
    }
    true
}

/// Adds `system` to one stage.
fn add_system_to<V, O, S, C: ConditionSystem<V, O>>(
    schedules: &mut BTreeMap<TypeKey, Schedule<S, C>>,
    stage: SystemStage,
    system: SystemConfig<S, C>,
)
    requires
        stages_wf::<V, O, S, C>(old(schedules)@),
        schedule::all_ready::<V, O, C>(system.conditions@),
    ensures
        stages_wf::<V, O, S, C>(final(schedules)@),
        schedule_views(final(schedules)@) == with_system(
            schedule_views(old(schedules)@),
            stage,
            system,
        ),
{
    let ghost before = schedules@;
    let mut schedule: Schedule<S, C> = match schedules.remove(&stage.index()) {
        Some(existing) => existing,
        None => Schedule::new(),
    };
    let _ = schedule.add_system(system);
    let _ = schedules.insert(stage.index(), schedule);
    assert(schedule_views(schedules@) =~= with_system(schedule_views(before), stage, system));
}

/// Adds every system of `chain` to one stage.
fn add_systems_to<V, O, S, C: ConditionSystem<V, O>>(
    schedules: &mut BTreeMap<TypeKey, Schedule<S, C>>,
    stage: SystemStage,
    chain: SystemChain<S, C>,
)
    requires
        stages_wf::<V, O, S, C>(old(schedules)@),
        schedule::conditions_ready::<V, O, S, C>(chain.systems()),
    ensures
        stages_wf::<V, O, S, C>(final(schedules)@),
        schedule_views(final(schedules)@) == with_systems(
            schedule_views(old(schedules)@),
            stage,
            chain,
        ),
{
    let ghost before = schedules@;
    let mut schedule: Schedule<S, C> = match schedules.remove(&stage.index()) {
        Some(existing) => existing,
        None => Schedule::new(),
    };
    let _ = schedule.add_systems(chain);
    let _ = schedules.insert(stage.index(), schedule);
    assert(schedule_views(schedules@) =~= with_systems(schedule_views(before), stage, chain));
}

// ---------------------------------------------------------------------------
// Ticks
// ---------------------------------------------------------------------------

/// Events from outside delivered in order, each to the queue of its type.
pub open spec fn delivered<V, O>(
    resources: ResourcesView<V, O>,
    deliveries: Seq<Delivery<V>>,
) -> ResourcesView<V, O>
    decreases deliveries.len(),
{
    if deliveries.len() == 0 {
        resources
    } else {
        delivered(resources, deliveries.drop_last()).deliver(
            deliveries.last().key,
            deliveries.last().event,
        )
    }
}

/// The state once the events from outside have been delivered.
pub open spec fn with_deliveries<V, O>(
    state: EngineState<V, O>,
    deliveries: Seq<Delivery<V>>,
) -> EngineState<V, O> {
    EngineState { world: state.world, resources: delivered(state.resources, deliveries) }
}

/// One tick has passed: the deliveries landed; then, as long as the GPU
/// backend is not ready, only the GPU schedules ran; once it is, the `Ready`
/// stage ran if it was still there and is gone, and then every other stage
/// ran, in order.
pub open spec fn ticked<V, O: ObserverSystem<V>, S: System<V, O>, C: ConditionSystem<V, O>, R>(
    before: AppView<V, O, S, C, R>,
    deliveries: Seq<Delivery<V>>,
    after: AppView<V, O, S, C, R>,
) -> bool {
    let at = with_deliveries(before.state, deliveries);
    &&& after.runner == before.runner
    &&& after.handle == before.handle
    &&& after.inbox == before.inbox
    &&& if before.state.resources.backend_ready {
        &&& after.gpu_schedules == before.gpu_schedules
        &&& exists|start: EngineState<V, O>|
            {
                &&& #[trigger] stage_consumed(SystemStage::Ready, before.schedules, at, start)
                &&& stages_ran(
                    before.schedules.remove(SystemStage::Ready.rank()),
                    start,
                    after.schedules,
                    after.state,
                )
            }
    } else {
        &&& after.schedules == before.schedules
        &&& stages_ran(before.gpu_schedules, at, after.gpu_schedules, after.state)
    }
}

/// One update has passed: everything that had arrived from outside was taken
/// out of the inbox, and a tick passed with it, each event delivered once and
/// in the order of arrival.
pub open spec fn updated<V, O: ObserverSystem<V>, S: System<V, O>, C: ConditionSystem<V, O>, R>(
    before: AppView<V, O, S, C, R>,
    deliveries: Seq<Delivery<V>>,
    after: AppView<V, O, S, C, R>,
) -> bool {
    &&& before.inbox.drained(deliveries, after.inbox)
    &&& ticked((AppView { inbox: after.inbox, ..before }), deliveries, after)
}

/// The schedules that the next tick runs can be ordered.
pub open spec fn can_tick<V, O, S, C, R>(app: AppView<V, O, S, C, R>) -> bool {
    if app.state.resources.backend_ready {
        stages_acyclic(app.schedules)
    } else {
        stages_acyclic(app.gpu_schedules)
    }
}

/// The `Startup` stage can be ordered, if there is one.
pub open spec fn startable<V, O, S, C, R>(app: AppView<V, O, S, C, R>) -> bool {
    app.schedules.dom().contains(SystemStage::Startup.rank())
        ==> app.schedules[SystemStage::Startup.rank()].acyclic()
}

/// No schedule has constraints that form a cycle.
pub open spec fn orderable<V, O, S, C, R>(app: AppView<V, O, S, C, R>) -> bool {
    stages_acyclic(app.schedules) && stages_acyclic(app.gpu_schedules)
}

/// The application has started: the `Startup` stage ran if there was one, and
/// is gone, and the runner has been taken.
pub open spec fn started<V, O: ObserverSystem<V>, S: System<V, O>, C: ConditionSystem<V, O>, R>(
    before: AppView<V, O, S, C, R>,
    after: AppView<V, O, S, C, R>,
) -> bool {
    &&& stage_consumed(SystemStage::Startup, before.schedules, before.state, after.state)
    &&& after.schedules == before.schedules.remove(SystemStage::Startup.rank())
    &&& after.gpu_schedules == before.gpu_schedules
    &&& after.runner is None
    &&& after.handle == before.handle
    &&& after.inbox == before.inbox
}

/// What the default headless loop does after a tick.
#[derive(Clone, Copy, PartialEq, Eq, Structural, Debug)]
pub enum LoopStep {
    /// The GPU backend was not ready when the tick began: pause, then tick.
    Wait,
    /// Tick again.
    Continue,
    /// An exit has been asked for: stop.
    Exit,
}

impl LoopStep {
    /// What follows a tick, given whether the backend was ready when it began
    /// and whether an exit has been asked for since.
    pub open spec fn after_tick(was_ready: bool, exit: bool) -> Self {
        if exit {
            LoopStep::Exit
        } else if !was_ready {
            LoopStep::Wait
        } else {
            LoopStep::Continue
        }
    }
}

impl<V, O, S, C, R> View for App<V, O, S, C, R> {
    type V = AppView<V, O, S, C, R>;

    closed spec fn view(&self) -> AppView<V, O, S, C, R> {
        AppView {
            state: EngineState { world: self.world, resources: self.resources@ },
            schedules: schedule_views(self.schedules@),
            gpu_schedules: schedule_views(self.gpu_schedules@),
            runner: self.runner,
            handle: self.handle,
            inbox: self.deliveries@,
        }
    }
}

impl<V, O: ObserverSystem<V>, S: System<V, O>, C: ConditionSystem<V, O>, R> Default for App<
    V,
    O,
    S,
    C,
    R,
> {
    fn default() -> (app: Self)
        ensures
            app.wf(),
            app@ == AppView::<V, O, S, C, R>::fresh(
                app@.state.world,
                app@.state.resources.command_buffer,
                app@.handle,
                app@.inbox,
            ),
            app@.inbox.polls == Seq::<StreamState<Delivery<V>>>::empty(),
            app@.receives_from(&app@.handle),
            entities::entity_count(app@.state.world) == 0,
            entities::recorded_commands(app@.state.resources.command_buffer) == 0,
    {
        let (tx, stream) = Stream::new();
        let app = App {
            world: hecs::World::new(),
            resources: Resources::new(),
            schedules: BTreeMap::new(),
            gpu_schedules: BTreeMap::new(),
            runner: None,
            handle: AppHandle { tx },
            deliveries: Inbox::new(stream),
        };
        assert(app@ =~= AppView::<V, O, S, C, R>::fresh(
            app@.state.world,
            app@.state.resources.command_buffer,
            app@.handle,
            app@.inbox,
        ));
        app
    }
}

impl<V, O, S, C, R> AppView<V, O, S, C, R> {
    /// An application without systems, with the small set of resources that
    /// every application needs.
    pub open spec fn fresh(
        world: hecs::World,
        command_buffer: hecs::CommandBuffer,
        handle: AppHandle<V>,
        inbox: InboxView<Delivery<V>>,
    ) -> Self {
        AppView {
            state: EngineState { world, resources: ResourcesView::initial(command_buffer) },
            schedules: Map::empty(),
            gpu_schedules: Map::empty(),
            runner: None,
            handle,
            inbox,
        }
    }

    /// What is sent by `handle` arrives in this application.
    pub open spec fn receives_from(self, handle: &AppHandle<V>) -> bool {
        handle.sends_to(self.inbox)
    }

    /// The events that have arrived from outside so far, in order.
    pub open spec fn arrived(self) -> Seq<Delivery<V>> {
        self.inbox.arrived()
    }

    /// The same application with other resources.
    pub open spec fn with_resources(self, resources: ResourcesView<V, O>) -> Self {
        AppView { state: EngineState { world: self.state.world, resources }, ..self }
    }
}

/// `config` is the engine's own system that ages the queue of one event type,
/// without wishes of its own.
pub open spec fn is_aging<S, C>(config: SystemConfig<S, C>, key: TypeKey) -> bool {
    &&& config.id == SystemId::AgeEvents(key)
    &&& config.system == StageSystem::<S>::AgeEvents(key)
    &&& config.conditions@ == Seq::<C>::empty()
    &&& config.priority == 0
    &&& config.constraints@ == Seq::<(SystemId, SystemId)>::empty()
}

/// The event type has been registered: it has an empty queue, and a system
/// that ages the queue at the start of every tick. If it was registered
/// already, nothing changed.
pub open spec fn event_added<V, O, S, C, R>(
    before: AppView<V, O, S, C, R>,
    key: TypeKey,
    after: AppView<V, O, S, C, R>,
) -> bool {
    if before.state.resources.events.dom().contains(key) {
        after == before
    } else {
        exists|aging: SystemConfig<S, C>|
            {
                &&& #[trigger] is_aging(aging, key)
                &&& after == AppView {
                    schedules: with_system(before.schedules, SystemStage::PreUpdate, aging),
                    ..before.with_resources(before.state.resources.register(key))
                }
            }
    }
}

impl<V, O: ObserverSystem<V>, S: System<V, O>, C: ConditionSystem<V, O>, R> App<V, O, S, C, R> {
    /// Resources and schedules are well-formed, and every run condition can
    /// be evaluated.
    pub closed spec fn wf(&self) -> bool {
        &&& self.resources.wf()
        &&& stages_wf::<V, O, S, C>(self.schedules@)
        &&& stages_wf::<V, O, S, C>(self.gpu_schedules@)
        &&& self.handle.sends_to(self.deliveries@)
    }

    /// A fresh application, with no plugins and no systems, and no resources
    /// beyond the small set that every application needs.
    pub fn new() -> (app: Self)
        ensures
            app.wf(),
            app@ == AppView::<V, O, S, C, R>::fresh(
                app@.state.world,
                app@.state.resources.command_buffer,
                app@.handle,
                app@.inbox,
            ),
            app@.inbox.polls == Seq::<StreamState<Delivery<V>>>::empty(),
            app@.receives_from(&app@.handle),
            entities::entity_count(app@.state.world) == 0,
            entities::recorded_commands(app@.state.resources.command_buffer) == 0,
    {
        Self::default()
    }

    /// The resources.
    pub fn resources(&self) -> (resources: &Resources<V, O>)
        requires
            self.wf(),
        ensures
            resources.wf(),
            resources@ == self@.state.resources,
    {
        &self.resources
    }

    /// The resources, to be changed in place.
    pub fn resources_mut(&mut self) -> (resources: &mut Resources<V, O>)
        requires
            old(self).wf(),
        ensures
            resources.wf(),
            resources@ == old(self)@.state.resources,
            final(resources).wf() ==> final(self).wf(),
            final(self)@ == old(self)@.with_resources(final(resources)@),
    {
        &mut self.resources
    }

    /// Inserts a resource, replacing any existing one of the same type.
    pub fn insert_resource(self, resource: Resource<V>) -> (app: Self)
        requires
            self.wf(),
        ensures
            app.wf(),
            app@ == self@.with_resources(self@.state.resources.insert(resource)),
    {
        let mut app = self;
        app.resources.insert(resource);
        app
    }

    /// Removes a resource. Does nothing if it is not there.
    pub fn remove_resource(self, key: TypeKey) -> (app: Self)
        requires
            self.wf(),
        ensures
            app.wf(),
            app@ == self@.with_resources(self@.state.resources.remove(key)),
    {
        let mut app = self;
        let _ = app.resources.remove(key);
        app
    }

    /// Runs a plugin's `build`.
    pub fn add_plugin<P: Plugin<V, O, S, C, R>>(self, plugin: P) -> (app: Self)
        requires
            self.wf(),
        ensures
            app.wf(),
            plugin.builds(self@, app@),
    {
        plugin.build(self)
    }

    /// Registers a system to run on `stage`, every tick that stage runs.
    pub fn add_system(self, stage: SystemStage, system: SystemConfig<S, C>) -> (app: Self)
        requires
            self.wf(),
            schedule::all_ready::<V, O, C>(system.conditions@),
        ensures
            app.wf(),
            app@ == (AppView {
                schedules: with_system(self@.schedules, stage, system),
                ..self@
            }),
    {
        let mut app = self;
        add_system_to::<V, O, S, C>(&mut app.schedules, stage, system);
        app
    }

    /// Registers every system of `chain` to run on `stage`, in the order of
    /// the chain.
    pub fn add_systems(self, stage: SystemStage, chain: SystemChain<S, C>) -> (app: Self)
        requires
            self.wf(),
            schedule::conditions_ready::<V, O, S, C>(chain.systems()),
        ensures
            app.wf(),
            app@ == (AppView {
                schedules: with_systems(self@.schedules, stage, chain),
                ..self@
            }),
    {
        let mut app = self;
        add_systems_to::<V, O, S, C>(&mut app.schedules, stage, chain);
        app
    }

    /// Registers a system of the GPU backend: it runs on `stage` in the ticks
    /// before the backend is ready.
    pub fn add_gpu_system(self, stage: SystemStage, system: SystemConfig<S, C>) -> (app: Self)
        requires
            self.wf(),
            schedule::all_ready::<V, O, C>(system.conditions@),
        ensures
            app.wf(),
            app@ == (AppView {
                gpu_schedules: with_system(self@.gpu_schedules, stage, system),
                ..self@
            }),
    {
        let mut app = self;
        add_system_to::<V, O, S, C>(&mut app.gpu_schedules, stage, system);
        app
    }

    /// Registers an event type. Registering it again changes nothing.
    pub fn add_event(self, key: TypeKey) -> (app: Self)
        requires
            self.wf(),
        ensures
            app.wf(),
            event_added(self@, key, app@),
    {
        let mut app = self;
        if app.resources.register_event(key) {
            let aging: SystemConfig<S, C> = SystemConfig::new(
                SystemId::AgeEvents(key),
                StageSystem::AgeEvents(key),
            );
            assert(is_aging(aging, key));
            add_system_to::<V, O, S, C>(&mut app.schedules, SystemStage::PreUpdate, aging);
        }
        app
    }

    /// Registers an observer of one event type: it runs whenever an event of
    /// that type is triggered, once the system that triggered it is done.
    pub fn add_observer(self, key: TypeKey, observer: O) -> (app: Self)
        requires
            self.wf(),
        ensures
            app.wf(),
            app@ == self@.with_resources(
                self@.state.resources.with_observers(
                    key,
                    self@.state.resources.observers_of(key).push(observer),
                ),
            ),
    {
        let mut app = self;
        app.resources.add_observer(key, observer);
        app
    }

    /// A handle for sending events into this application from outside.
    pub fn handle(&self) -> (handle: AppHandle<V>)
        requires
            self.wf(),
        ensures
            handle.is_clone_of(&self@.handle),
            self@.receives_from(&handle),
    {
        self.handle.clone()
    }

    /// Sets what drives the main loop, in place of the default headless one.
    pub fn set_runner(self, runner: R) -> (app: Self)
        requires
            self.wf(),
        ensures
            app.wf(),
            app@ == (AppView { runner: Some(runner), ..self@ }),
    {
        let mut app = self;
        app.runner = Some(runner);
        app
    }

    /// Whether every schedule can be ordered: only then can it run.
    pub fn is_orderable(&self) -> (ok: bool)
        requires
            self.wf(),
        ensures
            ok == orderable(self@),
    {
        stages_orderable::<V, O, S, C>(&self.schedules) && stages_orderable::<V, O, S, C>(
            &self.gpu_schedules,
        )
    }

    /// Whether the schedules that the next tick runs can be ordered.
    pub fn can_update(&self) -> (ok: bool)
        requires
            self.wf(),
        ensures
            ok == can_tick(self@),
    {
        if self.backend_ready() {
            stages_orderable::<V, O, S, C>(&self.schedules)
        } else {
            stages_orderable::<V, O, S, C>(&self.gpu_schedules)
        }
    }

    /// Whether the `Startup` stage can be ordered, if there is one.
    pub fn can_start(&self) -> (ok: bool)
        requires
            self.wf(),
        ensures
            ok == startable(self@),
    {
        match self.schedules.get(&SystemStage::Startup.index()) {
            Some(startup) => startup.compute_order().is_ok(),
            None => true,
        }
    }

    /// Whether the GPU backend is ready.
    pub fn backend_ready(&self) -> (ready: bool)
        ensures
            ready == self@.state.resources.backend_ready,
    {
        self.resources.backend_ready()
    }

    /// Whether [`AppExit`] has been set: the default loop checks this after
    /// every tick.
    pub fn should_exit(&self) -> (exit: bool)
        ensures
            exit == self@.state.resources.exit,
    {
        self.resources.exit()
    }

    /// Takes every event that has been sent from outside so far.
    fn drain_deliveries(&mut self) -> (deliveries: Vec<Delivery<V>>)
        requires
            old(self).wf(),
        ensures
            final(self).wf(),
            old(self)@.inbox.drained(deliveries@, final(self)@.inbox),
            final(self)@ == (AppView { inbox: final(self)@.inbox, ..old(self)@ }),
    {
        self.deliveries.drain()
    }

    /// One tick, with these events from outside.
    pub fn update_with(&mut self, deliveries: Vec<Delivery<V>>)
        requires
            old(self).wf(),
            can_tick(old(self)@),
        ensures
            final(self).wf(),
            ticked(old(self)@, deliveries@, final(self)@),
            orderable(old(self)@) ==> orderable(final(self)@),
    {
        let ghost all = deliveries@;
        let ghost start = self.resources@;
        for delivery in walk: deliveries
            invariant
                walk.seq() == all,
                self.wf(),
                self@ == old(self)@.with_resources(delivered(start, all.take(walk.index()))),
                self.world == old(self).world,
                self.schedules == old(self).schedules,
                self.gpu_schedules == old(self).gpu_schedules,
                self.runner == old(self).runner,
                self.resources@ == delivered(start, all.take(walk.index())),
                self.resources@.backend_ready == start.backend_ready,
        {
            let ghost done = walk.index();
            assert(all.take(done + 1).drop_last() =~= all.take(done));
            let _ = self.resources.deliver(delivery.key, delivery.event);
        }
        assert(all.take(all.len() as int) =~= all);
        let ghost at = with_deliveries(old(self)@.state, all);
        assert(self@.state == at);
        if !self.resources.backend_ready() {
            run_stages(&mut self.gpu_schedules, &mut self.world, &mut self.resources);
            return ;
        }
        let ghost mut ready_start = at;
        match self.schedules.remove(&SystemStage::Ready.index()) {
            Some(ready) => {
                let mut ready = ready;
                assert(old(self)@.schedules.dom().contains(SystemStage::Ready.rank()));
                ready.run(&mut self.world, &mut self.resources);
                proof {
                    ready_start = self@.state;
                    assert(schedule::schedule_ran(
                        old(self)@.schedules[SystemStage::Ready.rank()],
                        at,
                        ready@,
                        ready_start,
                    ));
                }
            },
            None => {},
        }
        proof {
            assert(stage_consumed(SystemStage::Ready, old(self)@.schedules, at, ready_start));
            assert(schedule_views(self.schedules@) =~= old(self)@.schedules.remove(
                SystemStage::Ready.rank(),
            ));
        }
        run_stages(&mut self.schedules, &mut self.world, &mut self.resources);
    }

    /// Runs every schedule for a single tick: the events sent from outside
    /// are delivered first; then, while the GPU backend is not ready, only
    /// the GPU schedules run; once it is, the `Ready` stage runs (if it is
    /// still there, so once ever), then every other stage, in order.
    pub fn update(&mut self)
        requires
            old(self).wf(),
            can_tick(old(self)@),
        ensures
            final(self).wf(),
            exists|deliveries: Seq<Delivery<V>>| #[trigger]
                updated(old(self)@, deliveries, final(self)@),
            orderable(old(self)@) ==> orderable(final(self)@),
    {
        let deliveries = self.drain_deliveries();
        let ghost arrived = deliveries@;
        let ghost between = self@;
        self.update_with(deliveries);
        assert((AppView { inbox: self@.inbox, ..old(self)@ }) == between);
        assert(updated(old(self)@, arrived, self@));
    }

    /// Begins to run the application: the `Startup` stage runs, once. Returns
    /// the runner to hand control to, if one was set; without one the default
    /// loop calls [`tick`](Self::tick) until it says to stop.
    pub fn start(&mut self) -> (runner: Option<R>)
        requires
            old(self).wf(),
            startable(old(self)@),
        ensures
            final(self).wf(),
            started(old(self)@, final(self)@),
            orderable(old(self)@) ==> orderable(final(self)@),
            runner == old(self)@.runner,
    {
        match self.schedules.remove(&SystemStage::Startup.index()) {
            Some(startup) => {
                let mut startup = startup;
                assert(old(self)@.schedules.dom().contains(SystemStage::Startup.rank()));
                startup.run(&mut self.world, &mut self.resources);
                assert(schedule::schedule_ran(
                    old(self)@.schedules[SystemStage::Startup.rank()],
                    old(self)@.state,
                    startup@,
                    self@.state,
                ));
            },
            None => {},
        }
        assert(schedule_views(self.schedules@) =~= old(self)@.schedules.remove(
            SystemStage::Startup.rank(),
        ));
        self.runner.take()
    }

    /// One round of the default headless loop: a tick, then what to do next.
    pub fn tick(&mut self) -> (step: LoopStep)
        requires
            old(self).wf(),
            can_tick(old(self)@),
        ensures
            final(self).wf(),
            exists|deliveries: Seq<Delivery<V>>| #[trigger]
                updated(old(self)@, deliveries, final(self)@),
            orderable(old(self)@) ==> orderable(final(self)@),
            step == LoopStep::after_tick(
                old(self)@.state.resources.backend_ready,
                final(self)@.state.resources.exit,
            ),
    {
        let was_ready = self.backend_ready();
        self.update();
        if self.should_exit() {
            LoopStep::Exit
        } else if !was_ready {
            LoopStep::Wait
        } else {
            LoopStep::Continue
        }
    }
}

// ---------------------------------------------------------------------------
// Laws
// ---------------------------------------------------------------------------

/// While the GPU backend is not ready, a tick leaves every regular stage as it
/// was: none of their systems runs.
pub proof fn law_only_gpu_schedules_run_before_the_backend_is_ready<
    V,
    O: ObserverSystem<V>,
    S: System<V, O>,
    C: ConditionSystem<V, O>,
    R,
>(before: AppView<V, O, S, C, R>, deliveries: Seq<Delivery<V>>, after: AppView<V, O, S, C, R>)
    requires
        ticked(before, deliveries, after),
        !before.state.resources.backend_ready,
    ensures
        after.schedules == before.schedules,
        stages_ran(
            before.gpu_schedules,
            with_deliveries(before.state, deliveries),
            after.gpu_schedules,
            after.state,
        ),
{
}

/// Once the GPU backend is ready, a tick leaves the GPU schedules as they
/// were.
pub proof fn law_gpu_schedules_rest_once_the_backend_is_ready<
    V,
    O: ObserverSystem<V>,
    S: System<V, O>,
    C: ConditionSystem<V, O>,
    R,
>(before: AppView<V, O, S, C, R>, deliveries: Seq<Delivery<V>>, after: AppView<V, O, S, C, R>)
    requires
        ticked(before, deliveries, after),
        before.state.resources.backend_ready,
    ensures
        after.gpu_schedules == before.gpu_schedules,
{
}

/// Stages without schedules leave everything as it was.
pub proof fn law_stages_without_schedules_do_nothing<
    V,
    O: ObserverSystem<V>,
    S: System<V, O>,
    C: ConditionSystem<V, O>,
>(
    before: Map<TypeKey, ScheduleView<S, C>>,
    at: EngineState<V, O>,
    after: Map<TypeKey, ScheduleView<S, C>>,
    then: EngineState<V, O>,
)
    requires
        stages_ran(before, at, after, then),
        forall|rank: TypeKey| rank < STAGE_COUNT ==> !#[trigger] before.dom().contains(rank),
    ensures
        then == at,
{
    let states = choose|states: Seq<EngineState<V, O>>|
        {
            &&& #[trigger] stages_trace(before, after, states)
            &&& states.first() == at
            &&& states.last() == then
        };
    assert(stage_ran(0, before, states[0u64 as int], after, states[0u64 + 1]));
    assert(stage_ran(1, before, states[1u64 as int], after, states[1u64 + 1]));
    assert(stage_ran(2, before, states[2u64 as int], after, states[2u64 + 1]));
    assert(stage_ran(3, before, states[3u64 as int], after, states[3u64 + 1]));
}

/// A run of updates: `apps` are the application before the first one and after
/// each, `deliveries` what came from outside in each.
pub open spec fn tick_trace<V, O: ObserverSystem<V>, S: System<V, O>, C: ConditionSystem<V, O>, R>(
    apps: Seq<AppView<V, O, S, C, R>>,
    deliveries: Seq<Seq<Delivery<V>>>,
) -> bool {
    &&& apps.len() == deliveries.len() + 1
    &&& forall|i: int|
        0 <= i < deliveries.len() ==> updated(apps[i], #[trigger] deliveries[i], apps[i + 1])
}

/// The `Ready` stage runs at most once ever: however many ticks pass, the
/// stage is in place before at most one tick that runs the regular stages.
pub proof fn law_ready_stage_runs_at_most_once<
    V,
    O: ObserverSystem<V>,
    S: System<V, O>,
    C: ConditionSystem<V, O>,
    R,
>(apps: Seq<AppView<V, O, S, C, R>>, deliveries: Seq<Seq<Delivery<V>>>, i: int, j: int)
    requires
        tick_trace(apps, deliveries),
        0 <= i < j <= deliveries.len(),
        apps[i].state.resources.backend_ready,
    ensures
        !apps[j].schedules.dom().contains(SystemStage::Ready.rank()),
    decreases j - i,
{
    let rank = SystemStage::Ready.rank();
    assert(updated(apps[j - 1], deliveries[j - 1], apps[j]));
    if i < j - 1 {
        law_ready_stage_runs_at_most_once(apps, deliveries, i, j - 1);
    }
    if apps[j - 1].state.resources.backend_ready {
        assert(apps[j].schedules.dom() == apps[j - 1].schedules.remove(rank).dom());
    }
}

/// The `Ready` stage waits for the GPU backend: as long as no tick began with
/// a ready backend, the stage is as it was.
pub proof fn law_ready_stage_waits_for_the_backend<
    V,
    O: ObserverSystem<V>,
    S: System<V, O>,
    C: ConditionSystem<V, O>,
    R,
>(apps: Seq<AppView<V, O, S, C, R>>, deliveries: Seq<Seq<Delivery<V>>>, j: int)
    requires
        tick_trace(apps, deliveries),
        0 <= j <= deliveries.len(),
        forall|i: int| 0 <= i < j ==> !(#[trigger] apps[i]).state.resources.backend_ready,
    ensures
        apps[j].schedules == apps[0].schedules,
    decreases j,
{
    if j > 0 {
        law_ready_stage_waits_for_the_backend(apps, deliveries, j - 1);
        assert(updated(apps[j - 1], deliveries[j - 1], apps[j]));
    }
}

/// In the first tick with a ready backend the `Ready` stage runs, and is done
/// before any regular stage begins.
pub proof fn law_ready_stage_runs_before_the_regular_stages<
    V,
    O: ObserverSystem<V>,
    S: System<V, O>,
    C: ConditionSystem<V, O>,
    R,
>(before: AppView<V, O, S, C, R>, deliveries: Seq<Delivery<V>>, after: AppView<V, O, S, C, R>)
    requires
        ticked(before, deliveries, after),
        before.state.resources.backend_ready,
        before.schedules.dom().contains(SystemStage::Ready.rank()),
    ensures
        exists|ready: ScheduleView<S, C>, start: EngineState<V, O>|
            {
                &&& #[trigger] schedule::schedule_ran(
                    before.schedules[SystemStage::Ready.rank()],
                    with_deliveries(before.state, deliveries),
                    ready,
                    start,
                )
                &&& stages_ran(
                    before.schedules.remove(SystemStage::Ready.rank()),
                    start,
                    after.schedules,
                    after.state,
                )
            },
{
}

/// The `Startup` stage runs once: it is gone after the start, and no tick
/// brings it back.
pub proof fn law_startup_stage_runs_once<
    V,
    O: ObserverSystem<V>,
    S: System<V, O>,
    C: ConditionSystem<V, O>,
    R,
>(
    before: AppView<V, O, S, C, R>,
    apps: Seq<AppView<V, O, S, C, R>>,
    deliveries: Seq<Seq<Delivery<V>>>,
    j: int,
)
    requires
        tick_trace(apps, deliveries),
        started(before, apps[0]),
        0 <= j <= deliveries.len(),
    ensures
        !apps[j].schedules.dom().contains(SystemStage::Startup.rank()),
    decreases j,
{
    if j > 0 {
        law_startup_stage_runs_once(before, apps, deliveries, j - 1);
        assert(updated(apps[j - 1], deliveries[j - 1], apps[j]));
    }
}

/// What came from outside in each of several updates, one after another.
pub open spec fn all_deliveries<V>(deliveries: Seq<Seq<Delivery<V>>>) -> Seq<Delivery<V>>
    decreases deliveries.len(),
{
    if deliveries.len() == 0 {
        Seq::empty()
    } else {
        all_deliveries(deliveries.drop_last()) + deliveries.last()
    }
}

/// Everything that arrives from outside is delivered once, in the order of
/// arrival: over a run of updates the deliveries, one after another, are what
/// has arrived.
pub proof fn law_every_arrival_is_delivered_once<
    V,
    O: ObserverSystem<V>,
    S: System<V, O>,
    C: ConditionSystem<V, O>,
    R,
>(apps: Seq<AppView<V, O, S, C, R>>, deliveries: Seq<Seq<Delivery<V>>>)
    requires
        tick_trace(apps, deliveries),
    ensures
        apps.last().arrived() == apps.first().arrived() + all_deliveries(deliveries),
    decreases deliveries.len(),
{
    if deliveries.len() == 0 {
        assert(apps.first().arrived() + all_deliveries(deliveries) =~= apps.first().arrived());
    } else {
        let fewer = deliveries.drop_last();
        let n = deliveries.len() - 1;
        assert forall|i: int| 0 <= i < fewer.len() implies updated(
            apps.drop_last()[i],
            #[trigger] fewer[i],
            apps.drop_last()[i + 1],
        ) by {
            assert(updated(apps[i], deliveries[i], apps[i + 1]));
        }
        law_every_arrival_is_delivered_once(apps.drop_last(), fewer);
        assert(updated(apps[n], deliveries[n], apps[n + 1]));
        assert(apps.first().arrived() + all_deliveries(deliveries) =~= (apps.first().arrived()
            + all_deliveries(fewer)) + deliveries.last());
    }
}

/// A handle goes on delivering: what receives from it before a run of updates
/// does so after it.
pub proof fn law_a_handle_goes_on_delivering<
    V,
    O: ObserverSystem<V>,
    S: System<V, O>,
    C: ConditionSystem<V, O>,
    R,
>(
    apps: Seq<AppView<V, O, S, C, R>>,
    deliveries: Seq<Seq<Delivery<V>>>,
    handle: &AppHandle<V>,
    j: int,
)
    requires
        tick_trace(apps, deliveries),
        0 <= j <= deliveries.len(),
        apps[0].receives_from(handle),
    ensures
        apps[j].handle == apps[0].handle,
        apps[j].inbox.channel == apps[0].inbox.channel,
        apps[j].receives_from(handle),
    decreases j,
{
    if j > 0 {
        law_a_handle_goes_on_delivering(apps, deliveries, handle, j - 1);
        assert(updated(apps[j - 1], deliveries[j - 1], apps[j]));
    }
}

/// An exit that has been asked for ends the default loop after the tick,
/// whether the GPU backend is ready or not.
pub proof fn law_an_exit_ends_the_loop(was_ready: bool, exit: bool)
    ensures
        LoopStep::after_tick(was_ready, exit) == LoopStep::Exit <==> exit,
{
}

/// Registering an event type a second time changes nothing.
pub proof fn law_add_event_is_idempotent<V, O, S, C, R>(
    before: AppView<V, O, S, C, R>,
    key: TypeKey,
    once: AppView<V, O, S, C, R>,
    twice: AppView<V, O, S, C, R>,
)
    requires
        event_added(before, key, once),
        event_added(once, key, twice),
    ensures
        twice == once,
        once.state.resources.events.dom().contains(key),
{
}

/// The events among `deliveries` that are of one type, in the order of
/// sending.
pub open spec fn events_for<V>(deliveries: Seq<Delivery<V>>, key: TypeKey) -> Seq<V>
    decreases deliveries.len(),
{
    if deliveries.len() == 0 {
        Seq::empty()
    } else if deliveries.last().key == key {
        events_for(deliveries.drop_last(), key).push(deliveries.last().event)
    } else {
        events_for(deliveries.drop_last(), key)
    }
}

/// Events sent from outside land at the end of the queue of their type, all
/// of them, in the order of sending, and in no other queue. Those of a type
/// that was never registered are dropped.
pub proof fn law_deliveries_land_in_send_order<V, O>(
    resources: ResourcesView<V, O>,
    deliveries: Seq<Delivery<V>>,
    key: TypeKey,
)
    ensures
        delivered(resources, deliveries).events.dom() == resources.events.dom(),
        resources.events.dom().contains(key) ==> {
            &&& delivered(resources, deliveries).events[key].older == resources.events[key].older
            &&& delivered(resources, deliveries).events[key].newer
                == resources.events[key].newer + events_for(deliveries, key)
        },
    decreases deliveries.len(),
{
    if deliveries.len() > 0 {
        law_deliveries_land_in_send_order(resources, deliveries.drop_last(), key);
        let earlier = delivered(resources, deliveries.drop_last());
        assert(delivered(resources, deliveries).events.dom() =~= earlier.events.dom());
        if resources.events.dom().contains(key) {
            assert(delivered(resources, deliveries).events[key].newer
                =~= resources.events[key].newer + events_for(deliveries, key));
        }
    } else if resources.events.dom().contains(key) {
        assert(resources.events[key].newer + events_for(deliveries, key)
            =~= resources.events[key].newer);
    }
}

/// Deliveries change the event queues and nothing else.
pub proof fn law_deliveries_change_only_event_queues<V, O>(
    resources: ResourcesView<V, O>,
    deliveries: Seq<Delivery<V>>,
)
    ensures
        delivered(resources, deliveries) == (ResourcesView {
            events: delivered(resources, deliveries).events,
            ..resources
        }),
    decreases deliveries.len(),
{
    if deliveries.len() > 0 {
        law_deliveries_change_only_event_queues(resources, deliveries.drop_last());
    }
}

/// Events of types that were never registered have no effect at all.
pub proof fn law_unregistered_deliveries_are_dropped<V, O>(
    resources: ResourcesView<V, O>,
    deliveries: Seq<Delivery<V>>,
)
    requires
        forall|i: int|
            0 <= i < deliveries.len() ==> !resources.events.dom().contains(
                (#[trigger] deliveries[i]).key,
            ),
    ensures
        delivered(resources, deliveries) == resources,
    decreases deliveries.len(),
{
    if deliveries.len() > 0 {
        assert(deliveries[deliveries.len() - 1] == deliveries.last());
        law_unregistered_deliveries_are_dropped(resources, deliveries.drop_last());
    }
}

/// The stages come in the order in which they are listed, and there are no
/// others.
pub proof fn law_the_stages_are_in_order(stage: SystemStage)
    ensures
        SystemStage::Startup.rank() < SystemStage::Ready.rank(),
        SystemStage::Ready.rank() < SystemStage::PreUpdate.rank(),
        SystemStage::PreUpdate.rank() < SystemStage::Update.rank(),
        stage.rank() < STAGE_COUNT,
{
}

/// A system that is added to a stage stands at the end of that stage. Whatever
/// the stages held before they still hold, and no other stage changes.
pub proof fn law_an_added_system_is_in_its_stage<S, C>(
    schedules: Map<TypeKey, ScheduleView<S, C>>,
    stage: SystemStage,
    system: SystemConfig<S, C>,
    chain: SystemChain<S, C>,
    other: SystemStage,
)
    requires
        other != stage,
    ensures
        ({
            let after = with_system(schedules, stage, system);
            &&& after.dom().contains(stage.rank())
            &&& after[stage.rank()].systems == stage_of(schedules, stage).systems.push(
                system.scheduled(),
            )
            &&& after[stage.rank()].constraints == stage_of(schedules, stage).constraints
                + system.constraints@
            &&& after.dom().contains(other.rank()) == schedules.dom().contains(other.rank())
            &&& stage_of(after, other) == stage_of(schedules, other)
        }),
        ({
            let after = with_systems(schedules, stage, chain);
            &&& after.dom().contains(stage.rank())
            &&& after[stage.rank()].systems == stage_of(schedules, stage).systems
                + chain.systems()
            &&& after[stage.rank()].constraints == stage_of(schedules, stage).constraints
                + chain.constraints()
            &&& after.dom().contains(other.rank()) == schedules.dom().contains(other.rank())
            &&& stage_of(after, other) == stage_of(schedules, other)
        }),
        schedules.dom().contains(stage.rank()) ==> stage_of(schedules, stage)
            == schedules[stage.rank()],
        !schedules.dom().contains(stage.rank()) ==> stage_of(schedules, stage).systems.len() == 0
            && stage_of(schedules, stage).constraints.len() == 0,
        system.scheduled().id == system.id,
        system.scheduled().system == system.system,
        system.scheduled().conditions == system.conditions,
        system.scheduled().priority == system.priority,
{
}

/// A tick with a ready backend runs what there is in this order: the
/// deliveries, `Ready` (which is then gone), `Startup` if the application was
/// never started, `PreUpdate`, `Update`. Each stage begins in the state that
/// the one before it left, and one without a schedule changes nothing.
pub proof fn law_a_ready_tick_runs_the_stages_in_order<
    V,
    O: ObserverSystem<V>,
    S: System<V, O>,
    C: ConditionSystem<V, O>,
    R,
>(before: AppView<V, O, S, C, R>, deliveries: Seq<Delivery<V>>, after: AppView<V, O, S, C, R>)
    requires
        ticked(before, deliveries, after),
        before.state.resources.backend_ready,
    ensures
        ({
            let startup = SystemStage::Startup.rank();
            let ready = SystemStage::Ready.rank();
            let pre = SystemStage::PreUpdate.rank();
            let update = SystemStage::Update.rank();
            let had = before.schedules;
            let has = after.schedules;
            &&& has.dom() == had.dom().remove(ready)
            &&& after.gpu_schedules == before.gpu_schedules
            &&& after.runner == before.runner
            &&& after.handle == before.handle
            &&& after.inbox == before.inbox
            &&& exists|states: Seq<EngineState<V, O>>|
                {
                    &&& #[trigger] states.len() == 5
                    &&& states[0].world == before.state.world
                    &&& states[0].resources == delivered(before.state.resources, deliveries)
                    &&& if had.dom().contains(ready) {
                        exists|readied: ScheduleView<S, C>| #[trigger]
                            schedule::schedule_ran(had[ready], states[0], readied, states[1])
                    } else {
                        states[1] == states[0]
                    }
                    &&& if had.dom().contains(startup) {
                        schedule::schedule_ran(had[startup], states[1], has[startup], states[2])
                    } else {
                        states[2] == states[1]
                    }
                    &&& if had.dom().contains(pre) {
                        schedule::schedule_ran(had[pre], states[2], has[pre], states[3])
                    } else {
                        states[3] == states[2]
                    }
                    &&& if had.dom().contains(update) {
                        schedule::schedule_ran(had[update], states[3], has[update], states[4])
                    } else {
                        states[4] == states[3]
                    }
                    &&& after.state == states[4]
                }
        }),
{
    let ready = SystemStage::Ready.rank();
    let at = with_deliveries(before.state, deliveries);
    let rest = before.schedules.remove(ready);
    let start = choose|start: EngineState<V, O>|
        {
            &&& #[trigger] stage_consumed(SystemStage::Ready, before.schedules, at, start)
            &&& stages_ran(rest, start, after.schedules, after.state)
        };
    let readied = if before.schedules.dom().contains(ready) {
        choose|readied: ScheduleView<S, C>| #[trigger]
            schedule::schedule_ran(before.schedules[ready], at, readied, start)
    } else {
        ScheduleView::empty()
    };
    let run = choose|run: Seq<EngineState<V, O>>|
        {
            &&& #[trigger] stages_trace(rest, after.schedules, run)
            &&& run.first() == start
            &&& run.last() == after.state
        };
    assert(stage_ran(0, rest, run[0u64 as int], after.schedules, run[0u64 + 1]));
    assert(stage_ran(1, rest, run[1u64 as int], after.schedules, run[1u64 + 1]));
    assert(stage_ran(2, rest, run[2u64 as int], after.schedules, run[2u64 + 1]));
    assert(stage_ran(3, rest, run[3u64 as int], after.schedules, run[3u64 + 1]));
    let states = seq![at, start, run[1], run[3], run[4]];
    assert(states.len() == 5);
    assert(rest.dom() =~= before.schedules.dom().remove(ready));
    if before.schedules.dom().contains(ready) {
        assert(schedule::schedule_ran(before.schedules[ready], states[0], readied, states[1]));
    }
}

/// A tick before the backend is ready runs the GPU schedules, the stages in
/// their order, after the deliveries; the regular stages stay as they are.
pub proof fn law_a_waiting_tick_runs_the_gpu_stages_in_order<
    V,
    O: ObserverSystem<V>,
    S: System<V, O>,
    C: ConditionSystem<V, O>,
    R,
>(before: AppView<V, O, S, C, R>, deliveries: Seq<Delivery<V>>, after: AppView<V, O, S, C, R>)
    requires
        ticked(before, deliveries, after),
        !before.state.resources.backend_ready,
    ensures
        ({
            let startup = SystemStage::Startup.rank();
            let ready = SystemStage::Ready.rank();
            let pre = SystemStage::PreUpdate.rank();
            let update = SystemStage::Update.rank();
            let had = before.gpu_schedules;
            let has = after.gpu_schedules;
            &&& has.dom() == had.dom()
            &&& after.schedules == before.schedules
            &&& after.runner == before.runner
            &&& after.handle == before.handle
            &&& after.inbox == before.inbox
            &&& exists|states: Seq<EngineState<V, O>>|
                {
                    &&& #[trigger] states.len() == 5
                    &&& states[0].world == before.state.world
                    &&& states[0].resources == delivered(before.state.resources, deliveries)
                    &&& if had.dom().contains(startup) {
                        schedule::schedule_ran(had[startup], states[0], has[startup], states[1])
                    } else {
                        states[1] == states[0]
                    }
                    &&& if had.dom().contains(ready) {
                        schedule::schedule_ran(had[ready], states[1], has[ready], states[2])
                    } else {
                        states[2] == states[1]
                    }
                    &&& if had.dom().contains(pre) {
                        schedule::schedule_ran(had[pre], states[2], has[pre], states[3])
                    } else {
                        states[3] == states[2]
                    }
                    &&& if had.dom().contains(update) {
                        schedule::schedule_ran(had[update], states[3], has[update], states[4])
                    } else {
                        states[4] == states[3]
                    }
                    &&& after.state == states[4]
                }
        }),
{
    let at = with_deliveries(before.state, deliveries);
    let had = before.gpu_schedules;
    let has = after.gpu_schedules;
    let run = choose|run: Seq<EngineState<V, O>>|
        {
            &&& #[trigger] stages_trace(had, has, run)
            &&& run.first() == at
            &&& run.last() == after.state
        };
    assert(stage_ran(0, had, run[0u64 as int], has, run[0u64 + 1]));
    assert(stage_ran(1, had, run[1u64 as int], has, run[1u64 + 1]));
    assert(stage_ran(2, had, run[2u64 as int], has, run[2u64 + 1]));
    assert(stage_ran(3, had, run[3u64 as int], has, run[3u64 + 1]));
    assert(run.len() == 5);
}

/// The start runs the `Startup` stage, if there is one, takes it and the
/// runner away, and leaves everything else as it was.
pub proof fn law_the_start_runs_the_startup_stage<
    V,
    O: ObserverSystem<V>,
    S: System<V, O>,
    C: ConditionSystem<V, O>,
    R,
>(before: AppView<V, O, S, C, R>, after: AppView<V, O, S, C, R>, other: SystemStage)
    requires
        started(before, after),
        other != SystemStage::Startup,
    ensures
        ({
            let startup = SystemStage::Startup.rank();
            &&& before.schedules.dom().contains(startup) ==> exists|ran: ScheduleView<S, C>|
                #[trigger] schedule::schedule_ran(
                    before.schedules[startup],
                    before.state,
                    ran,
                    after.state,
                )
            &&& !before.schedules.dom().contains(startup) ==> after.state == before.state
            &&& !after.schedules.dom().contains(startup)
            &&& after.schedules.dom().contains(other.rank()) == before.schedules.dom().contains(
                other.rank(),
            )
            &&& before.schedules.dom().contains(other.rank()) ==> after.schedules[other.rank()]
                == before.schedules[other.rank()]
            &&& after.gpu_schedules == before.gpu_schedules
            &&& after.runner is None
            &&& after.handle == before.handle
            &&& after.inbox == before.inbox
        }),
{
}

/// Deliveries land one after another: a list in two parts is the first part
/// and then the second, and a single one is appended to the queue of its
/// type. The same holds of picking out those of one type.
pub proof fn law_deliveries_land_one_after_another<V, O>(
    resources: ResourcesView<V, O>,
    first: Seq<Delivery<V>>,
    second: Seq<Delivery<V>>,
    delivery: Delivery<V>,
    key: TypeKey,
)
    ensures
        delivered(resources, first + second) == delivered(delivered(resources, first), second),
        delivered(resources, Seq::empty()) == resources,
        delivered(resources, seq![delivery]) == resources.deliver(delivery.key, delivery.event),
        events_for(first + second, key) == events_for(first, key) + events_for(second, key),
        events_for(Seq::<Delivery<V>>::empty(), key) == Seq::<V>::empty(),
        delivery.key == key ==> events_for(seq![delivery], key) == seq![delivery.event],
        delivery.key != key ==> events_for(seq![delivery], key) == Seq::<V>::empty(),
    decreases second.len(),
{
    let one = seq![delivery];
    assert(one.drop_last() =~= Seq::empty());
    assert(delivered(resources, one.drop_last()) == resources);
    assert(events_for(one.drop_last(), key) == Seq::<V>::empty());
    assert(Seq::<V>::empty().push(delivery.event) =~= seq![delivery.event]);
    if second.len() == 0 {
        assert(first + second =~= first);
        assert(events_for(first, key) + events_for(second, key) =~= events_for(first, key));
    } else {
        law_deliveries_land_one_after_another(resources, first, second.drop_last(), delivery, key);
        assert((first + second).drop_last() =~= first + second.drop_last());
        assert(events_for(first + second, key) =~= events_for(first, key) + events_for(
            second,
            key,
        ));
    }
}

/// What came in several updates is what came in the first ones and then what
/// came in the others; of a single one it is what came in that one.
pub proof fn law_deliveries_of_several_updates<V>(
    first: Seq<Seq<Delivery<V>>>,
    second: Seq<Seq<Delivery<V>>>,
    one: Seq<Delivery<V>>,
)
    ensures
        all_deliveries(first + second) == all_deliveries(first) + all_deliveries(second),
        all_deliveries(seq![one]) == one,
    decreases second.len(),
{
    assert(seq![one].drop_last() =~= Seq::empty());
    assert(all_deliveries(seq![one].drop_last()) == Seq::<Delivery<V>>::empty());
    assert(Seq::<Delivery<V>>::empty() + one =~= one);
    if second.len() == 0 {
        assert(first + second =~= first);
        assert(all_deliveries(first) + all_deliveries(second) =~= all_deliveries(first));
    } else {
        law_deliveries_of_several_updates(first, second.drop_last(), one);
        assert((first + second).drop_last() =~= first + second.drop_last());
        assert(all_deliveries(first + second) =~= all_deliveries(first) + all_deliveries(second));
    }
}

/// Without an exit the default loop goes on: at once if the backend was ready
/// when the tick began, after a pause if it was not.
pub proof fn law_the_loop_pauses_only_while_it_waits(was_ready: bool, exit: bool)
    ensures
        LoopStep::after_tick(was_ready, exit) == LoopStep::Wait <==> !exit && !was_ready,
        LoopStep::after_tick(was_ready, exit) == LoopStep::Continue <==> !exit && was_ready,
{
}

/// The regular stages can be ordered exactly if each of them can, and so can
/// the GPU schedules; a tick needs those that it runs, the start only the
/// `Startup` stage.
pub proof fn law_what_must_be_orderable<V, O, S, C, R>(
    app: AppView<V, O, S, C, R>,
    rank: TypeKey,
)
    requires
        app.schedules.dom().contains(rank),
    ensures
        orderable(app) ==> can_tick(app) && startable(app),
        orderable(app) ==> app.schedules[rank].acyclic(),
        can_tick(app) && app.state.resources.backend_ready ==> app.schedules[rank].acyclic(),
        startable(app) && rank == SystemStage::Startup.rank() ==> app.schedules[rank].acyclic(),
        (forall|r: TypeKey| #[trigger]
            app.schedules.dom().contains(r) ==> app.schedules[r].acyclic()) && (forall|r: TypeKey|
         #[trigger]
            app.gpu_schedules.dom().contains(r) ==> app.gpu_schedules[r].acyclic()) ==> orderable(
            app,
        ),
        app.state.resources.backend_ready && (forall|r: TypeKey| #[trigger]
            app.schedules.dom().contains(r) ==> app.schedules[r].acyclic()) ==> can_tick(app),
        !app.state.resources.backend_ready && (forall|r: TypeKey| #[trigger]
            app.gpu_schedules.dom().contains(r) ==> app.gpu_schedules[r].acyclic()) ==> can_tick(
            app,
        ),
{
}

/// A fresh application has nothing to run, nobody to run it, and nothing
/// deferred.
pub proof fn law_a_fresh_application_is_empty<V, O, S, C, R>(
    world: hecs::World,
    command_buffer: hecs::CommandBuffer,
    handle: AppHandle<V>,
    inbox: InboxView<Delivery<V>>,
    rank: TypeKey,
)
    ensures
        ({
            let app = AppView::<V, O, S, C, R>::fresh(world, command_buffer, handle, inbox);
            &&& !app.schedules.dom().contains(rank)
            &&& !app.gpu_schedules.dom().contains(rank)
            &&& app.runner is None
            &&& app.state.world == world
            &&& !app.state.resources.exit
            &&& !app.state.resources.backend_ready
            &&& app.state.resources.command_buffer == command_buffer
            &&& app.handle == handle
            &&& app.inbox == inbox
        }),
{
}

/// Changing the resources changes nothing else.
pub proof fn law_new_resources_change_nothing_else<V, O, S, C, R>(
    app: AppView<V, O, S, C, R>,
    resources: ResourcesView<V, O>,
)
    ensures
        ({
            let after = app.with_resources(resources);
            &&& after.state.resources == resources
            &&& after.state.world == app.state.world
            &&& after.schedules == app.schedules
            &&& after.gpu_schedules == app.gpu_schedules
            &&& after.runner == app.runner
            &&& after.handle == app.handle
            &&& after.inbox == app.inbox
        }),
{
}

/// A handle sends by the emitter that it holds, and one that is cloned by a
/// clone of it.
proof fn law_handles_hold_an_emitter<V>(
    handle: &AppHandle<V>,
    key: TypeKey,
    event: V,
    clone: AppHandle<V>,
    inbox: InboxView<Delivery<V>>,
)
    requires
        call_ensures(AppHandle::<V>::send, (handle, key, event), ()),
        call_ensures(<AppHandle<V> as Clone>::clone, (handle,), clone),
    ensures
        handle.tx.sent(Delivery { key, event }),
        clone.tx.is_clone_of(&handle.tx),
        handle.sends_to(inbox) <==> handle.tx.feeds_channel(inbox.channel),
        handle.sends_to(inbox) ==> clone.sends_to(inbox),
{
}

/// Nothing is asked to stop and there is no backend unless it is said.
pub proof fn law_flags_are_down_by_default(exit: AppExit, ready: BackendReady)
    requires
        call_ensures(<AppExit as Default>::default, (), exit),
        call_ensures(<BackendReady as Default>::default, (), ready),
    ensures
        !exit.0,
        !ready.0,
{
}

} // verus!
