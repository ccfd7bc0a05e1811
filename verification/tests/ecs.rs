use pebble::ecs::condition::{
    not, resource_exists, ConditionExt, ConditionSystem, IntoCondition, ResourceExists,
};
use pebble::ecs::events::{EventCursor, Events};
use pebble::ecs::function_condition::{Local, Shared};
use pebble::ecs::key_map::KeyMap;
use pebble::ecs::ordering::{order_systems, OrderingCycle};
use pebble::ecs::resources::{Resource, ResourceCommand, ResourceKey, Resources, Triggered};
use pebble::ecs::schedule::{fire_trigger, sync_commands, Schedule};
use pebble::ecs::system::{
    EngineState, ObserverSystem, StageSystem, System, SystemConfig, SystemId, SystemStage,
};

fn ids(count: u64) -> Vec<SystemId> {
    (0..count).map(SystemId::Custom).collect()
}

fn after(dependent: u64, dependency: u64) -> (SystemId, SystemId) {
    (SystemId::Custom(dependent), SystemId::Custom(dependency))
}

fn order(
    count: u64,
    priorities: &[i32],
    constraints: &[(SystemId, SystemId)],
) -> Result<Vec<usize>, OrderingCycle> {
    order_systems(&ids(count), &priorities.to_vec(), &constraints.to_vec())
}

#[test]
fn without_wishes_systems_keep_the_order_of_adding() {
    assert_eq!(order(4, &[0, 0, 0, 0], &[]), Ok(vec![0, 1, 2, 3]));
    assert_eq!(order(0, &[], &[]), Ok(vec![]));
}

#[test]
fn higher_priorities_run_first() {
    assert_eq!(order(4, &[0, 5, -1, 5], &[]), Ok(vec![1, 3, 0, 2]));
}

#[test]
fn constraints_hold_whatever_the_priorities() {
    assert_eq!(order(3, &[9, 0, 0], &[after(0, 2)]), Ok(vec![1, 2, 0]));
    assert_eq!(order(3, &[0, 0, 9], &[after(0, 1), after(2, 0)]), Ok(vec![1, 0, 2]));
    let doubled = [after(0, 1), after(0, 1)];
    assert_eq!(order(2, &[0, 0], &doubled), Ok(vec![1, 0]));
}

#[test]
fn cycles_are_refused() {
    assert_eq!(order(2, &[0, 0], &[after(0, 1), after(1, 0)]), Err(OrderingCycle));
    let ring = [after(0, 1), after(1, 2), after(2, 0)];
    assert_eq!(order(4, &[0, 0, 0, 0], &ring), Err(OrderingCycle));
}

#[test]
fn unknown_systems_and_waits_on_oneself_are_ignored() {
    assert_eq!(order(2, &[0, 0], &[after(0, 7), after(7, 1), after(1, 1)]), Ok(vec![0, 1]));
}

#[test]
fn a_constraint_holds_of_every_system_of_a_name() {
    let names = vec![SystemId::Custom(0), SystemId::Custom(0), SystemId::Custom(1)];
    let ordered = order_systems(&names, &vec![0, 0, 0], &vec![after(0, 1), after(0, 1)]);
    assert_eq!(ordered, Ok(vec![2, 0, 1]));
    let names = vec![SystemId::Custom(0), SystemId::Custom(1), SystemId::Custom(1)];
    let ordered = order_systems(&names, &vec![0, 0, 0], &vec![after(0, 1)]);
    assert_eq!(ordered, Ok(vec![1, 2, 0]));
}

#[test]
fn keys_map_to_values() {
    let mut map = KeyMap::new();
    assert!(!map.contains(4));
    map.insert(4, "a");
    map.insert(5, "b");
    map.insert(4, "c");
    assert_eq!(map.get(4), Some(&"c"));
    *map.get_mut(5).unwrap() = "d";
    assert_eq!(map.remove(5), Some("d"));
    assert_eq!(map.remove(5), None);
    assert_eq!(map.get(5), None);
    assert!(map.get_mut(5).is_none());
}

#[test]
fn each_reader_reads_each_event_once() {
    let mut events = Events::new();
    let mut cursor = EventCursor::new();
    let mut late = EventCursor::new();
    events.send(1);
    assert_eq!(events.read(&mut cursor), vec![&1]);
    assert_eq!(events.read(&mut cursor), Vec::<&i32>::new());
    events.send(2);
    events.age();
    events.send(3);
    assert_eq!(events.read(&mut cursor), vec![&2, &3]);
    assert_eq!(events.read(&mut late), vec![&1, &2, &3]);
    events.send(4);
    events.age();
    events.age();
    assert_eq!(events.read(&mut cursor), Vec::<&i32>::new());
}

#[test]
fn stages_are_ranked() {
    assert_eq!(SystemStage::Startup.index(), 0);
    assert_eq!(SystemStage::Ready.index(), 1);
    assert_eq!(SystemStage::PreUpdate.index(), 2);
    assert_eq!(SystemStage::Update.index(), 3);
}

struct Echo;

impl ObserverSystem<u32> for Echo {
    fn observes(
        _: Self,
        _: u32,
        _: EngineState<u32, Self>,
        _: Self,
        _: EngineState<u32, Self>,
    ) -> bool {
        unreachable!()
    }

    fn observe(&mut self, event: &u32, _: &mut hecs::World, resources: &mut Resources<u32, Echo>) {
        resources.insert(Resource::Custom(50, *event));
    }
}

type Store = Resources<u32, Echo>;

fn conditions() -> (hecs::World, Store) {
    let mut resources = Resources::new();
    resources.insert(Resource::Custom(1, 10));
    (hecs::World::new(), resources)
}

#[test]
fn conditions_combine_and_stop_early() {
    let (world, resources) = conditions();
    let yes: ResourceExists = resource_exists(ResourceKey::Custom(1));
    let no: ResourceExists = resource_exists(ResourceKey::Custom(2));
    let inverse = || not::<u32, Echo, _, _>(resource_exists(ResourceKey::Custom(1)));
    assert!(ConditionSystem::eval(&mut { yes }, &world, &resources));
    assert!(!ConditionSystem::eval(&mut { no }, &world, &resources));
    assert!(!inverse().eval(&world, &resources));
    assert!(!ConditionExt::<u32, Echo, _>::and(yes, inverse()).eval(&world, &resources));
    assert!(ConditionExt::<u32, Echo, _>::or(yes, inverse()).eval(&world, &resources));
    assert!(not::<u32, Echo, _, _>(inverse()).eval(&world, &resources));
    let mut boxed = Box::new(inverse());
    assert!(!ConditionSystem::eval(&mut boxed, &world, &resources));
}

fn counted(calls: Local<u32>) -> bool {
    *calls.0 += 1;
    *calls.0 % 2 == 0
}

fn condition<M, C: IntoCondition<u32, Echo, M>>(function: C) -> C::Condition {
    function.into_condition()
}

#[test]
fn functions_are_conditions_with_state_of_their_own() {
    let (world, resources) = conditions();
    assert!(condition(|| true).eval(&world, &resources));
    let mut every_second = condition::<(Local<u32>,), _>(counted);
    assert!(!every_second.eval(&world, &resources));
    assert!(every_second.eval(&world, &resources));
    assert!(!every_second.eval(&world, &resources));
    // A second condition that is not evaluated does not count.
    let mut gated = ConditionExt::<u32, Echo, _>::and(|| false, counted);
    assert!(!gated.eval(&world, &resources));
    assert_eq!(gated.1.state.0, 0);
}

fn has_ten(shared: Shared<u32, Echo>, calls: Local<u32>) -> bool {
    *calls.0 += 1;
    shared.0.get(1) == Some(&10) && *calls.0 == 1
}

#[test]
fn functions_see_the_resources() {
    let (world, resources) = conditions();
    let mut first_time = condition::<(Shared<u32, Echo>, Local<u32>), _>(has_ten);
    assert!(first_time.eval(&world, &resources));
    assert!(!first_time.eval(&world, &resources));
}

fn eight(
    a: Local<u32>,
    b: Local<u32>,
    c: Local<u32>,
    d: Local<u32>,
    e: Local<u32>,
    f: Local<u32>,
    g: Local<u32>,
    h: Local<u32>,
) -> bool {
    *h.0 += 1;
    *a.0 + *b.0 + *c.0 + *d.0 + *e.0 + *f.0 + *g.0 + *h.0 == 1
}

#[test]
fn functions_take_up_to_eight_parameters() {
    let (world, resources) = conditions();
    let mut once = condition::<
        (
            Local<u32>,
            Local<u32>,
            Local<u32>,
            Local<u32>,
            Local<u32>,
            Local<u32>,
            Local<u32>,
            Local<u32>,
        ),
        _,
    >(eight);
    assert!(once.eval(&world, &resources));
    assert!(!once.eval(&world, &resources));
}

#[test]
fn deferred_commands_are_flushed_in_order() {
    let mut world = hecs::World::new();
    let mut resources: Store = Resources::new();
    resources.add_observer(7, Echo);
    resources.command_buffer().spawn((1u8,));
    resources.queue(ResourceCommand::Insert(Resource::Custom(1, 5)));
    resources.queue(ResourceCommand::Insert(Resource::Custom(1, 6)));
    resources.queue(ResourceCommand::Insert(Resource::Custom(2, 8)));
    resources.queue(ResourceCommand::Remove(2));
    resources.trigger(Triggered { key: 7, event: 44 });
    resources.trigger(Triggered { key: 8, event: 45 });
    sync_commands(&mut world, &mut resources);
    assert_eq!(world.len(), 1);
    assert_eq!(resources.get(1), Some(&6));
    assert_eq!(resources.get(2), None);
    assert_eq!(resources.get(50), Some(&44));
    sync_commands(&mut world, &mut resources);
    assert_eq!(world.len(), 1);
    fire_trigger(Triggered { key: 7, event: 46 }, &mut world, &mut resources);
    assert_eq!(resources.get(50), Some(&46));
}

struct Push(u32);

impl System<u32, Echo> for Push {
    fn runs(
        _: Self,
        _: EngineState<u32, Echo>,
        _: Self,
        _: EngineState<u32, Echo>,
    ) -> bool {
        unreachable!()
    }

    fn run(&mut self, _: &mut hecs::World, resources: &mut Store) {
        let so_far = *resources.get(1).unwrap();
        resources.insert(Resource::Custom(1, so_far * 10 + self.0));
    }
}

fn push(number: u32) -> SystemConfig<Push, ResourceExists> {
    SystemConfig::new(SystemId::Custom(number as u64), StageSystem::Custom(Push(number)))
}

#[test]
fn a_skipped_system_keeps_its_place() {
    let mut world = hecs::World::new();
    let mut resources: Store = Resources::new();
    resources.insert(Resource::Custom(1, 0));
    let mut schedule = Schedule::new();
    schedule
        .add_system(push(3).after(SystemId::Custom(2)))
        .add_system(push(2).run_if(resource_exists(ResourceKey::Custom(9))).after(SystemId::Custom(1)))
        .add_system(push(1));
    assert_eq!(schedule.compute_order(), Ok(vec![2, 1, 0]));
    schedule.run(&mut world, &mut resources);
    assert_eq!(resources.get(1), Some(&13));
    resources.insert(Resource::Custom(9, 0));
    schedule.run(&mut world, &mut resources);
    assert_eq!(resources.get(1), Some(&13123));
    assert_eq!(schedule.compute_order(), Ok(vec![2, 1, 0]));
}
