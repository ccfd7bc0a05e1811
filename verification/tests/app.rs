use pebble::app::{App, AppExit, AppView, BackendReady, Delivery, LoopStep, Plugin};
use pebble::ecs::condition::{
    not, resource_exists, And, ConditionExt, ConditionSystem, Not, ResourceExists,
};
use pebble::ecs::events::EventCursor;
use pebble::ecs::resources::{Resource, ResourceCommand, ResourceKey, Resources, Triggered};
use pebble::ecs::system::{
    EngineState, ObserverSystem, StageSystem, System, SystemChain, SystemConfig, SystemId, SystemStage,
};

const DAMAGE: u64 = 1;
const PING: u64 = 2;
const SEEN: u64 = 3;
const SETUP_RAN: u64 = 4;
const NEVER_REGISTERED: u64 = 5;

enum Value {
    Damage(u32),
    Ping(u32),
    Seen(Vec<u32>),
    SetupRan,
    NeverRegistered,
}

fn seen(resources: &mut Resources<Value, Observer>) -> &mut Vec<u32> {
    match resources.get_mut(SEEN) {
        Some(Value::Seen(list)) => list,
        _ => panic!("Seen is missing"),
    }
}

enum Observer {
    OnPing,
    OnPingDoubled,
}

impl ObserverSystem<Value> for Observer {
    fn observes(
        _: Self,
        _: Value,
        _: EngineState<Value, Self>,
        _: Self,
        _: EngineState<Value, Self>,
    ) -> bool {
        unreachable!()
    }

    fn observe(
        &mut self,
        event: &Value,
        _world: &mut hecs::World,
        resources: &mut Resources<Value, Observer>,
    ) {
        if let Value::Ping(n) = event {
            match self {
                Observer::OnPing => seen(resources).push(*n),
                Observer::OnPingDoubled => seen(resources).push(*n * 2),
            }
        }
    }
}

enum Game {
    SendOnce { sent: bool },
    Record { cursor: EventCursor },
    FireOnce { sent: bool },
    Setup,
    DependsOnSetup,
    Push(u32),
    SpawnOne,
    CountEntities,
    Exit,
}

impl System<Value, Observer> for Game {
    fn runs(
        _: Self,
        _: EngineState<Value, Observer>,
        _: Self,
        _: EngineState<Value, Observer>,
    ) -> bool {
        unreachable!()
    }

    fn run(&mut self, world: &mut hecs::World, resources: &mut Resources<Value, Observer>) {
        match self {
            Game::SendOnce { sent } => {
                if !*sent {
                    resources.deliver(DAMAGE, Value::Damage(7));
                    *sent = true;
                }
            }
            Game::Record { cursor } => {
                let mut found = Vec::new();
                for event in resources.events(DAMAGE).unwrap().read(cursor) {
                    if let Value::Damage(n) = event {
                        found.push(*n);
                    }
                }
                seen(resources).extend(found);
            }
            Game::FireOnce { sent } => {
                if !*sent {
                    resources.trigger(Triggered { key: PING, event: Value::Ping(3) });
                    *sent = true;
                }
            }
            Game::Setup => {
                seen(resources).push(1);
                resources.queue(ResourceCommand::Insert(Resource::Custom(
                    SETUP_RAN,
                    Value::SetupRan,
                )));
            }
            Game::DependsOnSetup => {
                if resources.contains(ResourceKey::Custom(SETUP_RAN)) {
                    seen(resources).push(2);
                }
            }
            Game::Push(n) => seen(resources).push(*n),
            Game::SpawnOne => resources.command_buffer().spawn((1u8,)),
            Game::CountEntities => {
                let count = world.len();
                seen(resources).push(count);
            }
            Game::Exit => {
                resources.queue(ResourceCommand::Insert(Resource::AppExit(AppExit(true))));
            }
        }
    }
}

enum Gate {
    Exists(ResourceExists),
    Missing(Not<ResourceExists>),
    Both(And<ResourceExists, Not<ResourceExists>>),
}

impl ConditionSystem<Value, Observer> for Gate {
    fn ready(self) -> bool {
        unreachable!()
    }

    fn evaluates(_: Self, _: EngineState<Value, Observer>, _: Self, _: bool) -> bool {
        unreachable!()
    }

    fn eval(&mut self, world: &hecs::World, resources: &Resources<Value, Observer>) -> bool {
        match self {
            Gate::Exists(c) => c.eval(world, resources),
            Gate::Missing(c) => c.eval(world, resources),
            Gate::Both(c) => c.eval(world, resources),
        }
    }
}

struct NoObserver;

impl ObserverSystem<u32> for NoObserver {
    fn observes(
        _: Self,
        _: u32,
        _: EngineState<u32, Self>,
        _: Self,
        _: EngineState<u32, Self>,
    ) -> bool {
        unreachable!()
    }

    fn observe(&mut self, _: &u32, _: &mut hecs::World, _: &mut Resources<u32, NoObserver>) {}
}

struct NoSystem;

impl System<u32, NoObserver> for NoSystem {
    fn runs(
        _: Self,
        _: EngineState<u32, NoObserver>,
        _: Self,
        _: EngineState<u32, NoObserver>,
    ) -> bool {
        unreachable!()
    }

    fn run(&mut self, _: &mut hecs::World, _: &mut Resources<u32, NoObserver>) {}
}

type GameApp = App<Value, Observer, Game, Gate, u8>;

fn named(key: u64, system: Game) -> SystemConfig<Game, Gate> {
    SystemConfig::new(SystemId::Custom(key), StageSystem::Custom(system))
}

fn game() -> GameApp {
    App::new().insert_resource(Resource::Custom(SEEN, Value::Seen(Vec::new())))
}

fn make_ready(app: &mut GameApp) {
    app.resources_mut().insert(Resource::BackendReady(BackendReady(true)));
}

fn recorded(app: &GameApp) -> Vec<u32> {
    match app.resources().get(SEEN) {
        Some(Value::Seen(list)) => list.clone(),
        _ => panic!("Seen is missing"),
    }
}

#[test]
fn add_event_called_twice_still_delivers_exactly_once_one_tick_later() {
    let mut app = game()
        .add_event(DAMAGE)
        .add_event(DAMAGE)
        .add_system(
            SystemStage::PreUpdate,
            named(10, Game::Record { cursor: EventCursor::new() }),
        )
        .add_system(SystemStage::Update, named(11, Game::SendOnce { sent: false }));
    make_ready(&mut app);

    app.update(); // tick 1: reader runs before the writer sends this tick
    assert_eq!(recorded(&app), Vec::<u32>::new());

    app.update(); // tick 2: reader catches last tick's send, exactly once
    assert_eq!(recorded(&app), vec![7]);

    app.update(); // tick 3: event has aged out
    assert_eq!(recorded(&app), vec![7]);
}

#[test]
fn observer_fires_the_same_tick_it_is_triggered() {
    let mut app = game()
        .add_observer(PING, Observer::OnPing)
        .add_system(SystemStage::Update, named(10, Game::FireOnce { sent: false }));
    make_ready(&mut app);

    app.update();
    assert_eq!(recorded(&app), vec![3]);

    app.update(); // no longer sends: nothing new triggered
    assert_eq!(recorded(&app), vec![3]);
}

#[test]
fn ready_stage_runs_exactly_once_before_the_regular_schedules_that_same_tick() {
    let mut app = game()
        .add_system(SystemStage::Ready, named(10, Game::Setup))
        .add_system(SystemStage::PreUpdate, named(11, Game::DependsOnSetup));

    // not ready yet: Ready must not run before BackendReady
    app.update();
    assert_eq!(recorded(&app), Vec::<u32>::new());

    make_ready(&mut app);

    // same tick: setup runs, commands sync, then the other already sees it
    app.update();
    assert_eq!(recorded(&app), vec![1, 2]);

    // never runs again
    app.update();
    assert_eq!(recorded(&app), vec![1, 2, 2]);
}

#[test]
fn handle_sends_are_delivered_next_tick_exactly_once() {
    let mut app = game().add_event(DAMAGE).add_system(
        SystemStage::PreUpdate,
        named(10, Game::Record { cursor: EventCursor::new() }),
    );
    make_ready(&mut app);
    let handle = app.handle();

    handle.send(DAMAGE, Value::Damage(7));
    handle.send(DAMAGE, Value::Damage(9));

    app.update(); // both arrive this tick, in send order
    assert_eq!(recorded(&app), vec![7, 9]);

    app.update(); // and never again
    assert_eq!(recorded(&app), vec![7, 9]);
}

#[test]
fn handle_send_of_an_unregistered_event_type_is_dropped_not_a_panic() {
    let mut app: GameApp = App::new();
    make_ready(&mut app);
    let handle = app.handle();

    handle.send(NEVER_REGISTERED, Value::NeverRegistered);

    app.update(); // must not panic on the missing queue
    assert!(app.resources().events(NEVER_REGISTERED).is_none());
}

#[test]
fn multiple_observers_for_the_same_event_all_fire() {
    let mut app = game()
        .add_observer(PING, Observer::OnPing)
        .add_observer(PING, Observer::OnPingDoubled)
        .add_system(SystemStage::Update, named(10, Game::FireOnce { sent: false }));
    make_ready(&mut app);

    app.update();

    let seen = recorded(&app);
    assert_eq!(seen.len(), 2);
    assert!(seen.contains(&3));
    assert!(seen.contains(&6));
}

#[test]
fn a_cloned_handle_feeds_the_same_application() {
    let mut app = game().add_event(DAMAGE).add_system(
        SystemStage::PreUpdate,
        named(10, Game::Record { cursor: EventCursor::new() }),
    );
    make_ready(&mut app);
    let handle = app.handle();
    let clone = handle.clone();
    handle.send(DAMAGE, Value::Damage(1));
    clone.send(DAMAGE, Value::Damage(2));
    app.update();
    assert_eq!(recorded(&app), vec![1, 2]);
}

fn needs_thread_safety<T: Send + Sync>(_: &T) {}

#[test]
fn a_handle_can_be_shared_between_threads() {
    let app: App<u32, NoObserver, NoSystem, ResourceExists, u8> = App::new();
    needs_thread_safety(&app.handle());
}

#[test]
fn deliveries_given_to_a_tick_land_in_order() {
    let mut app = game().add_event(DAMAGE).add_system(
        SystemStage::PreUpdate,
        named(10, Game::Record { cursor: EventCursor::new() }),
    );
    make_ready(&mut app);
    app.update_with(vec![
        Delivery { key: DAMAGE, event: Value::Damage(4) },
        Delivery { key: NEVER_REGISTERED, event: Value::NeverRegistered },
        Delivery { key: DAMAGE, event: Value::Damage(5) },
    ]);
    assert_eq!(recorded(&app), vec![4, 5]);
}

#[test]
fn only_gpu_schedules_run_before_the_backend_is_ready() {
    let mut app = game()
        .add_system(SystemStage::Update, named(10, Game::Push(1)))
        .add_gpu_system(SystemStage::Update, named(11, Game::Push(2)));
    app.update();
    app.update();
    assert_eq!(recorded(&app), vec![2, 2]);
    make_ready(&mut app);
    app.update();
    assert_eq!(recorded(&app), vec![2, 2, 1]);
}

#[test]
fn startup_runs_once_and_the_runner_is_handed_out() {
    let mut app = game()
        .add_system(SystemStage::Startup, named(10, Game::Push(1)))
        .add_system(SystemStage::Update, named(11, Game::Push(2)))
        .set_runner(77);
    make_ready(&mut app);
    assert_eq!(app.start(), Some(77));
    assert_eq!(recorded(&app), vec![1]);
    assert_eq!(app.start(), None);
    app.update();
    assert_eq!(recorded(&app), vec![1, 2]);
}

#[test]
fn the_default_loop_waits_then_runs_until_exit() {
    let mut app = game().add_system(SystemStage::Update, named(10, Game::Exit));
    assert_eq!(app.start(), None);
    assert_eq!(app.tick(), LoopStep::Wait);
    assert!(!app.should_exit());
    make_ready(&mut app);
    assert_eq!(app.tick(), LoopStep::Exit);
    assert!(app.should_exit());

    let mut quiet: GameApp = App::new();
    make_ready(&mut quiet);
    assert_eq!(quiet.tick(), LoopStep::Continue);
}

#[test]
fn an_exit_ends_the_default_loop_before_the_backend_is_ready() {
    let mut app: GameApp = App::new().insert_resource(Resource::AppExit(AppExit(true)));
    assert_eq!(app.start(), None);
    assert_eq!(app.tick(), LoopStep::Exit);
}

#[test]
fn the_engines_own_resources_are_always_there() {
    let app: GameApp = App::new();
    assert!(app.resources().contains(ResourceKey::AppExit));
    assert!(app.resources().contains(ResourceKey::BackendReady));
    assert!(!app.resources().contains(ResourceKey::Custom(SEEN)));
    assert!(!app.resources().contains(ResourceKey::Events(DAMAGE)));
    let app = app.add_event(DAMAGE);
    assert!(app.resources().contains(ResourceKey::Events(DAMAGE)));
    assert!(!app.resources().contains(ResourceKey::Custom(DAMAGE)));
}

#[test]
fn a_handle_goes_on_delivering_whatever_is_built() {
    let mut app = game().add_event(DAMAGE);
    let handle = app.handle();
    app = app
        .add_system(SystemStage::PreUpdate, named(10, Game::Record { cursor: EventCursor::new() }))
        .set_runner(5);
    make_ready(&mut app);
    handle.send(DAMAGE, Value::Damage(1));
    assert_eq!(app.start(), Some(5));
    app.update();
    handle.send(DAMAGE, Value::Damage(2));
    handle.clone().send(DAMAGE, Value::Damage(3));
    app.update();
    app.update();
    assert_eq!(recorded(&app), vec![1, 2, 3]);
}

#[test]
fn a_system_sees_the_entities_that_an_earlier_one_spawned() {
    let mut app = game()
        .add_system(SystemStage::Update, named(11, Game::CountEntities).after(SystemId::Custom(12)))
        .add_system(SystemStage::Update, named(12, Game::SpawnOne));
    make_ready(&mut app);
    app.update();
    app.update();
    assert_eq!(recorded(&app), vec![1, 2]);
}

#[test]
fn constraints_beat_priorities_and_priorities_beat_adding() {
    let mut app = game()
        .add_system(SystemStage::Update, named(1, Game::Push(1)))
        .add_system(SystemStage::Update, named(2, Game::Push(2)).priority(5))
        .add_system(
            SystemStage::Update,
            named(3, Game::Push(3)).priority(9).after(SystemId::Custom(1)),
        )
        .add_system(SystemStage::Update, named(4, Game::Push(4)).before(SystemId::Custom(2)));
    make_ready(&mut app);
    app.update();
    assert_eq!(recorded(&app), vec![1, 3, 4, 2]);
}

#[test]
fn a_chain_keeps_its_order() {
    let chain = SystemChain::new()
        .then_run(named(1, Game::Push(1)))
        .then_run(named(2, Game::Push(2)).priority(50))
        .then_run(named(3, Game::Push(3)).priority(90))
        .after(SystemId::Custom(4));
    let mut app = game()
        .add_systems(SystemStage::Update, chain)
        .add_system(SystemStage::Update, named(4, Game::Push(4)));
    make_ready(&mut app);
    app.update();
    assert_eq!(recorded(&app), vec![4, 1, 2, 3]);
}

#[test]
fn a_chain_takes_a_priority_and_runs_before_others() {
    let chain = SystemChain::new()
        .then_run(named(1, Game::Push(1)))
        .then_run(named(2, Game::Push(2)))
        .priority(3)
        .before(SystemId::Custom(4));
    let mut app = game()
        .add_system(SystemStage::Update, named(4, Game::Push(4)).priority(7))
        .add_system(SystemStage::Update, named(5, Game::Push(5)))
        .add_systems(SystemStage::Update, chain);
    make_ready(&mut app);
    app.update();
    assert_eq!(recorded(&app), vec![1, 2, 4, 5]);
}

#[test]
fn a_cycle_is_reported() {
    let app = game()
        .add_system(SystemStage::Update, named(1, Game::Push(1)).after(SystemId::Custom(2)))
        .add_system(SystemStage::Update, named(2, Game::Push(2)));
    assert!(app.is_orderable());
    let app = app.add_system(SystemStage::Update, named(3, Game::Push(3)));
    assert!(app.is_orderable());
    let cyclic = game()
        .add_system(SystemStage::Update, named(1, Game::Push(1)).after(SystemId::Custom(2)))
        .add_system(SystemStage::Update, named(2, Game::Push(2)).after(SystemId::Custom(1)));
    assert!(!cyclic.is_orderable());
    let gpu_cyclic = game()
        .add_gpu_system(SystemStage::Update, named(1, Game::Push(1)).after(SystemId::Custom(2)))
        .add_gpu_system(SystemStage::Update, named(2, Game::Push(2)).after(SystemId::Custom(1)));
    assert!(!gpu_cyclic.is_orderable());
}

#[test]
fn a_constraint_on_an_unknown_system_or_on_itself_is_ignored() {
    let mut app = game().add_system(
        SystemStage::Update,
        named(1, Game::Push(1)).after(SystemId::Custom(99)).before(SystemId::Custom(1)),
    );
    assert!(app.is_orderable());
    make_ready(&mut app);
    app.update();
    assert_eq!(recorded(&app), vec![1]);
}

fn missing(key: u64) -> Not<ResourceExists> {
    not::<Value, Observer, _, _>(resource_exists(ResourceKey::Custom(key)))
}

#[test]
fn gated_systems_run_only_while_their_conditions_hold() {
    let exists = resource_exists(ResourceKey::Custom(SETUP_RAN));
    let seen = resource_exists(ResourceKey::Custom(SEEN));
    let both = ConditionExt::<Value, Observer, _>::and(seen, missing(SETUP_RAN));
    let mut app = game()
        .add_system(SystemStage::Update, named(1, Game::Push(1)).run_if(Gate::Exists(exists)))
        .add_system(
            SystemStage::Update,
            named(2, Game::Push(2)).run_if(Gate::Missing(missing(SETUP_RAN))),
        )
        .add_system(
            SystemStage::Update,
            named(3, Game::Push(3)).run_if(Gate::Both(both)).after(SystemId::Custom(1)),
        );
    make_ready(&mut app);
    app.update();
    assert_eq!(recorded(&app), vec![2, 3]);
    app = app.insert_resource(Resource::Custom(SETUP_RAN, Value::SetupRan));
    app.update();
    assert_eq!(recorded(&app), vec![2, 3, 1]);
    app = app.remove_resource(SETUP_RAN);
    app.update();
    assert_eq!(recorded(&app), vec![2, 3, 1, 2, 3]);
}

struct PushPlugin;

impl Plugin<Value, Observer, Game, Gate, u8> for PushPlugin {
    fn builds(
        self,
        _: AppView<Value, Observer, Game, Gate, u8>,
        _: AppView<Value, Observer, Game, Gate, u8>,
    ) -> bool {
        unreachable!()
    }

    fn build(self, app: GameApp) -> GameApp {
        app.add_system(SystemStage::Update, named(1, Game::Push(8))).set_runner(5)
    }
}

#[test]
fn a_plugin_extends_the_application() {
    let mut app = game().add_plugin(PushPlugin);
    make_ready(&mut app);
    assert_eq!(app.start(), Some(5));
    app.update();
    assert_eq!(recorded(&app), vec![8]);
}

#[test]
fn a_fresh_application_has_the_defaults() {
    let app: GameApp = App::default();
    assert!(!app.backend_ready());
    assert!(!app.should_exit());
    assert_eq!(AppExit::default(), AppExit(false));
    assert_eq!(BackendReady::default(), BackendReady(false));
}

#[test]
fn a_deferred_insert_is_seen_by_the_next_system() {
    let mut app = game()
        .add_system(SystemStage::Update, named(1, Game::Setup))
        .add_system(SystemStage::Update, named(2, Game::DependsOnSetup));
    make_ready(&mut app);
    app.update();
    assert_eq!(recorded(&app), vec![1, 2]);
}

#[test]
fn a_tick_without_systems_changes_nothing() {
    let mut app = game();
    app.update();
    make_ready(&mut app);
    app.update();
    assert_eq!(recorded(&app), Vec::<u32>::new());
    assert!(!app.should_exit());
    assert!(app.backend_ready());
}
