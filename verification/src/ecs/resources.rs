//! The state that systems share, apart from the entities.
use vstd::prelude::*;

use crate::app::{AppExit, BackendReady};
use crate::ecs::events::{Events, EventsView};
use crate::ecs::key_map::KeyMap;
use crate::ecs::system::TypeKey;
use crate::ecs::entities;

verus! {

/// A resource that commands can insert: one of the engine's own, or a value
/// of the application under the key of its type.
pub enum Resource<V> {
    AppExit(AppExit),
    BackendReady(BackendReady),
    Custom(TypeKey, V),
}

/// The type of a resource: one of the engine's own, the queue of an event type,
/// or one of the application, by its key.
#[derive(Clone, Copy, PartialEq, Eq, Structural, Debug)]
pub enum ResourceKey {
    AppExit,
    BackendReady,
    Events(TypeKey),
    Custom(TypeKey),
}

/// A deferred change of the resources.
pub enum ResourceCommand<V> {
    /// Insert the resource, replacing the one of the same type.
    Insert(Resource<V>),
    /// Remove the application's resource under this key, if it is there.
    Remove(TypeKey),
}

/// An event on its way to the observers of its type.
pub struct Triggered<V> {
    pub key: TypeKey,
    pub event: V,
}

/// The resources of an application: `V` is what its own resources and events
/// are, `O` its observers.
pub struct Resources<V, O> {
    command_buffer: hecs::CommandBuffer,
    resource_commands: Vec<ResourceCommand<V>>,
    triggers: Vec<Triggered<V>>,
    exit: AppExit,
    backend_ready: BackendReady,
    events: KeyMap<Events<V>>,
    observers: KeyMap<Vec<O>>,
    custom: KeyMap<V>,
}

/// What the resources are.
#[verifier::ext_equal]
pub struct ResourcesView<V, O> {
    /// Entity commands recorded and not yet run.
    pub command_buffer: hecs::CommandBuffer,
    /// Resource commands queued and not yet applied.
    pub resource_commands: Seq<ResourceCommand<V>>,
    /// Events triggered and not yet observed.
    pub triggers: Seq<Triggered<V>>,
    pub exit: bool,
    pub backend_ready: bool,
    /// The queue of each registered event type.
    pub events: Map<TypeKey, EventsView<V>>,
    /// The observers of each event type that has some.
    pub observers: Map<TypeKey, Seq<O>>,
    /// The application's own resources.
    pub custom: Map<TypeKey, V>,
}

impl<V, O> ResourcesView<V, O> {
    /// Only the engine's own resources, at rest.
    pub open spec fn initial(command_buffer: hecs::CommandBuffer) -> Self {
        ResourcesView {
            command_buffer,
            resource_commands: Seq::empty(),
            triggers: Seq::empty(),
            exit: false,
            backend_ready: false,
            events: Map::empty(),
            observers: Map::empty(),
            custom: Map::empty(),
        }
    }

    /// `resource` inserted, replacing the one of the same type.
    pub open spec fn insert(self, resource: Resource<V>) -> Self {
        match resource {
            Resource::AppExit(exit) => ResourcesView { exit: exit.0, ..self },
            Resource::BackendReady(ready) => ResourcesView { backend_ready: ready.0, ..self },
            Resource::Custom(key, value) => ResourcesView {
                custom: self.custom.insert(key, value),
                ..self
            },
        }
    }

    /// There is a resource of this type. The engine's own are always there.
    pub open spec fn has(self, key: ResourceKey) -> bool {
        match key {
            ResourceKey::AppExit | ResourceKey::BackendReady => true,
            ResourceKey::Events(key) => self.events.dom().contains(key),
            ResourceKey::Custom(key) => self.custom.dom().contains(key),
        }
    }

    /// The application's resource under `key` removed.
    pub open spec fn remove(self, key: TypeKey) -> Self {
        ResourcesView { custom: self.custom.remove(key), ..self }
    }

    /// One resource command applied.
    pub open spec fn apply(self, command: ResourceCommand<V>) -> Self {
        match command {
            ResourceCommand::Insert(resource) => self.insert(resource),
            ResourceCommand::Remove(key) => self.remove(key),
        }
    }

    /// Resource commands applied in order.
    pub open spec fn apply_all(self, commands: Seq<ResourceCommand<V>>) -> Self
        decreases commands.len(),
    {
        if commands.len() == 0 {
            self
        } else {
            self.apply_all(commands.drop_last()).apply(commands.last())
        }
    }

    /// The queued resource commands applied, and none queued.
    pub open spec fn resource_commands_flushed(self) -> Self {
        ResourcesView { resource_commands: Seq::empty(), ..self }.apply_all(
            self.resource_commands,
        )
    }

    /// `event` appended to the queue of its type, or dropped if that type was
    /// never registered.
    pub open spec fn deliver(self, key: TypeKey, event: V) -> Self {
        if self.events.dom().contains(key) {
            ResourcesView {
                events: self.events.insert(key, self.events[key].send(event)),
                ..self
            }
        } else {
            self
        }
    }

    /// The queue of one event type aged, if it is registered.
    pub open spec fn age(self, key: TypeKey) -> Self {
        if self.events.dom().contains(key) {
            ResourcesView { events: self.events.insert(key, self.events[key].age()), ..self }
        } else {
            self
        }
    }

    /// The event type registered, with an empty queue unless it has one.
    pub open spec fn register(self, key: TypeKey) -> Self {
        if self.events.dom().contains(key) {
            self
        } else {
            ResourcesView { events: self.events.insert(key, EventsView::empty()), ..self }
        }
    }

    /// The observers of one event type.
    pub open spec fn observers_of(self, key: TypeKey) -> Seq<O> {
        if self.observers.dom().contains(key) {
            self.observers[key]
        } else {
            Seq::empty()
        }
    }

    /// The observers of one event type replaced.
    pub open spec fn with_observers(self, key: TypeKey, observers: Seq<O>) -> Self {
        ResourcesView { observers: self.observers.insert(key, observers), ..self }
    }
}

/// The queues of a map, each by its view.
pub open spec fn event_views<V>(events: Map<TypeKey, Events<V>>) -> Map<TypeKey, EventsView<V>> {
    Map::new(|key: TypeKey| events.dom().contains(key), |key: TypeKey| events[key]@)
}

/// The lists of a map, each by its view.
pub open spec fn list_views<O>(lists: Map<TypeKey, Vec<O>>) -> Map<TypeKey, Seq<O>> {
    Map::new(|key: TypeKey| lists.dom().contains(key), |key: TypeKey| lists[key]@)
}

impl<V, O> View for Resources<V, O> {
    type V = ResourcesView<V, O>;

    closed spec fn view(&self) -> ResourcesView<V, O> {
        ResourcesView {
            command_buffer: self.command_buffer,
            resource_commands: self.resource_commands@,
            triggers: self.triggers@,
            exit: self.exit.0,
            backend_ready: self.backend_ready.0,
            events: event_views(self.events@),
            observers: list_views(self.observers@),
            custom: self.custom@,
        }
    }
}

impl<V, O> Resources<V, O> {
    /// Each kind of resource is held at most once, and the recorded entity
    /// commands can be run.
    pub closed spec fn wf(&self) -> bool {
        &&& self.events.wf()
        &&& self.observers.wf()
        &&& self.custom.wf()
        &&& entities::commands_runnable(self.command_buffer)
    }

    /// The small set that every application needs: no entity commands, no
    /// resource commands and no triggers queued, no exit asked for, no GPU
    /// backend yet.
    pub fn new() -> (resources: Self)
        ensures
            resources.wf(),
            entities::recorded_commands(resources@.command_buffer) == 0,
            resources@ == ResourcesView::<V, O>::initial(resources@.command_buffer),
    {
        let resources = Resources {
            command_buffer: hecs::CommandBuffer::new(),
            resource_commands: Vec::new(),
            triggers: Vec::new(),
            exit: AppExit(false),
            backend_ready: BackendReady(false),
            events: KeyMap::new(),
            observers: KeyMap::new(),
            custom: KeyMap::new(),
        };
        assert(resources@ =~= ResourcesView::<V, O>::initial(resources@.command_buffer));
        resources
    }

    /// Inserts `resource`, replacing any existing one of the same type.
    pub fn insert(&mut self, resource: Resource<V>)
        requires
            old(self).wf(),
        ensures
            final(self).wf(),
            final(self)@ == old(self)@.insert(resource),
    {
        match resource {
            Resource::AppExit(exit) => {
                self.exit = exit;
            },
            Resource::BackendReady(ready) => {
                self.backend_ready = ready;
            },
            Resource::Custom(key, value) => {
                self.custom.insert(key, value);
            },
        }
    }

    /// Removes the application's resource under `key` and returns it. Does
    /// nothing if it is not there.
    pub fn remove(&mut self, key: TypeKey) -> (removed: Option<V>)
        requires
            old(self).wf(),
        ensures
            final(self).wf(),
            final(self)@ == old(self)@.remove(key),
            match removed {
                Some(value) => old(self)@.custom.dom().contains(key) && value == old(
                    self,
                )@.custom[key],
                None => !old(self)@.custom.dom().contains(key),
            },
    {
        self.custom.remove(key)
    }

    /// Whether there is a resource of this type.
    pub fn contains(&self, key: ResourceKey) -> (found: bool)
        ensures
            found == self@.has(key),
    {
        match key {
            ResourceKey::AppExit | ResourceKey::BackendReady => true,
            ResourceKey::Events(key) => self.events.contains(key),
            ResourceKey::Custom(key) => self.custom.contains(key),
        }
    }

    /// The application's resource under `key`.
    pub fn get(&self, key: TypeKey) -> (value: Option<&V>)
        requires
            self.wf(),
        ensures
            match value {
                Some(v) => self@.custom.dom().contains(key) && *v == self@.custom[key],
                None => !self@.custom.dom().contains(key),
            },
    {
        self.custom.get(key)
    }

    /// The application's resource under `key`, to be changed in place.
    pub fn get_mut(&mut self, key: TypeKey) -> (value: Option<&mut V>)
        requires
            old(self).wf(),
        ensures
            final(self).wf(),
            match value {
                Some(v) => {
                    &&& old(self)@.custom.dom().contains(key)
                    &&& *v == old(self)@.custom[key]
                    &&& final(self)@ == old(self)@.insert(Resource::Custom(key, *final(v)))
                },
                None => !old(self)@.custom.dom().contains(key) && final(self)@ == old(self)@,
            },
    {
        self.custom.get_mut(key)
    }

    /// Whether [`AppExit`] has been set.
    pub fn exit(&self) -> (exit: bool)
        ensures
            exit == self@.exit,
    {
        self.exit.0
    }

    /// Whether the GPU backend is ready.
    pub fn backend_ready(&self) -> (ready: bool)
        ensures
            ready == self@.backend_ready,
    {
        self.backend_ready.0
    }

    /// The buffer in which systems record entity commands. Only commands that
    /// can be run may be recorded.
    pub fn command_buffer(&mut self) -> (commands: &mut hecs::CommandBuffer)
        requires
            old(self).wf(),
        ensures
            entities::commands_runnable(*commands),
            entities::commands_runnable(*final(commands)) ==> final(self).wf(),
            *commands == old(self)@.command_buffer,
            final(self)@ == (ResourcesView { command_buffer: *final(commands), ..old(self)@ }),
    {
        &mut self.command_buffer
    }

    /// Queues a resource command.
    pub fn queue(&mut self, command: ResourceCommand<V>)
        requires
            old(self).wf(),
        ensures
            final(self).wf(),
            final(self)@ == (ResourcesView {
                resource_commands: old(self)@.resource_commands.push(command),
                ..old(self)@
            }),
    {
        self.resource_commands.push(command);
    }

    /// Queues an event for the observers of its type.
    pub fn trigger(&mut self, triggered: Triggered<V>)
        requires
            old(self).wf(),
        ensures
            final(self).wf(),
            final(self)@ == (ResourcesView {
                triggers: old(self)@.triggers.push(triggered),
                ..old(self)@
            }),
    {
        self.triggers.push(triggered);
    }

    /// Runs the recorded entity commands on `world`.
    pub fn flush_entity_commands(&mut self, world: &mut hecs::World)
        requires
            old(self).wf(),
        ensures
            final(self).wf(),
            entities::commands_applied(*old(world), old(self)@.command_buffer, *final(world)),
            entities::recorded_commands(old(self)@.command_buffer) == 0 ==> *final(world) == *old(
                world,
            ),
            entities::recorded_commands(final(self)@.command_buffer) == 0,
            final(self)@ == (ResourcesView {
                command_buffer: final(self)@.command_buffer,
                ..old(self)@
            }),
    {
        self.command_buffer.run_on(world);
    }

    /// Applies the queued resource commands, in the order of queueing.
    pub fn flush_resource_commands(&mut self)
        requires
            old(self).wf(),
        ensures
            final(self).wf(),
            final(self)@ == old(self)@.resource_commands_flushed(),
    {
        let mut commands: Vec<ResourceCommand<V>> = Vec::new();
        core::mem::swap(&mut self.resource_commands, &mut commands);
        let ghost start = self@;
        let ghost all = commands@;
        assert(start == (ResourcesView { resource_commands: Seq::empty(), ..old(self)@ }));
        for command in walk: commands
            invariant
                self.wf(),
                walk.seq() == all,
                self@ == start.apply_all(all.take(walk.index())),
        {
            let ghost done = walk.index();
            assert(all.take(done + 1).drop_last() =~= all.take(done));
            match command {
                ResourceCommand::Insert(resource) => {
                    self.insert(resource);
                },
                ResourceCommand::Remove(key) => {
                    let _ = self.remove(key);
                },
            }
        }
        assert(all.take(all.len() as int) =~= all);
    }

    /// Takes the queued triggers.
    pub fn take_triggers(&mut self) -> (triggers: Vec<Triggered<V>>)
        requires
            old(self).wf(),
        ensures
            final(self).wf(),
            triggers@ == old(self)@.triggers,
            final(self)@ == (ResourcesView { triggers: Seq::empty(), ..old(self)@ }),
    {
        let mut triggers: Vec<Triggered<V>> = Vec::new();
        core::mem::swap(&mut self.triggers, &mut triggers);
        triggers
    }

    /// Takes the observers of one event type out, leaving none in their place.
    /// `None` if the type has no observers registered.
    pub fn take_observers(&mut self, key: TypeKey) -> (observers: Option<Vec<O>>)
        requires
            old(self).wf(),
        ensures
            final(self).wf(),
            match observers {
                Some(list) => {
                    &&& old(self)@.observers.dom().contains(key)
                    &&& list@ == old(self)@.observers[key]
                    &&& final(self)@ == old(self)@.with_observers(key, Seq::empty())
                },
                None => !old(self)@.observers.dom().contains(key) && final(self)@ == old(self)@,
            },
    {
        match self.observers.get_mut(key) {
            None => None,
            Some(slot) => {
                let mut list: Vec<O> = Vec::new();
                core::mem::swap(slot, &mut list);
                assert(self@ =~= old(self)@.with_observers(key, Seq::empty()));
                Some(list)
            },
        }
    }

    /// Sets the observers of one event type.
    pub fn set_observers(&mut self, key: TypeKey, observers: Vec<O>)
        requires
            old(self).wf(),
        ensures
            final(self).wf(),
            final(self)@ == old(self)@.with_observers(key, observers@),
    {
        self.observers.insert(key, observers);
        assert(self@ =~= old(self)@.with_observers(key, observers@));
    }

    /// Registers an observer of one event type, after those already there.
    pub fn add_observer(&mut self, key: TypeKey, observer: O)
        requires
            old(self).wf(),
        ensures
            final(self).wf(),
            final(self)@ == old(self)@.with_observers(
                key,
                old(self)@.observers_of(key).push(observer),
            ),
    {
        let mut list = match self.take_observers(key) {
            Some(list) => list,
            None => Vec::new(),
        };
        list.push(observer);
        self.set_observers(key, list);
        assert(self@ =~= old(self)@.with_observers(
            key,
            old(self)@.observers_of(key).push(observer),
        ));
    }

    /// Registers an event type with an empty queue. Returns `false`, and
    /// changes nothing, if it is registered already.
    pub fn register_event(&mut self, key: TypeKey) -> (new: bool)
        requires
            old(self).wf(),
        ensures
            final(self).wf(),
            new == !old(self)@.events.dom().contains(key),
            final(self)@ == old(self)@.register(key),
    {
        if self.events.contains(key) {
            false
        } else {
            self.events.insert(key, Events::new());
            assert(self@ =~= old(self)@.register(key));
            true
        }
    }

    /// The queue of one event type.
    pub fn events(&self, key: TypeKey) -> (events: Option<&Events<V>>)
        requires
            self.wf(),
        ensures
            match events {
                Some(queue) => self@.events.dom().contains(key) && queue@ == self@.events[key],
                None => !self@.events.dom().contains(key),
            },
    {
        self.events.get(key)
    }

    /// Appends `event` to the queue of its type. Returns `false`, and drops
    /// the event, if that type was never registered.
    pub fn deliver(&mut self, key: TypeKey, event: V) -> (delivered: bool)
        requires
            old(self).wf(),
        ensures
            final(self).wf(),
            delivered == old(self)@.events.dom().contains(key),
            final(self)@ == old(self)@.deliver(key, event),
    {
        match self.events.get_mut(key) {
            None => false,
            Some(queue) => {
                queue.send(event);
                assert(self@ =~= old(self)@.deliver(key, event));
                true
            },
        }
    }

    /// Ages the queue of one event type, if it is registered.
    pub fn age_events(&mut self, key: TypeKey)
        requires
            old(self).wf(),
        ensures
            final(self).wf(),
            final(self)@ == old(self)@.age(key),
    {
        match self.events.get_mut(key) {
            None => {},
            Some(queue) => {
                queue.age();
                assert(self@ =~= old(self)@.age(key));
            },
        }
    }
}

// ---------------------------------------------------------------------------
// Laws
// ---------------------------------------------------------------------------

/// A resource of the application that was inserted is there, with the value
/// inserted, in place of any earlier one. Nothing else changes.
pub proof fn law_an_inserted_resource_is_there<V, O>(
    resources: ResourcesView<V, O>,
    key: TypeKey,
    value: V,
    other: TypeKey,
)
    requires
        other != key,
    ensures
        ({
            let after = resources.insert(Resource::Custom(key, value));
            &&& after.custom.dom().contains(key)
            &&& after.custom[key] == value
            &&& after.custom.dom().contains(other) == resources.custom.dom().contains(other)
            &&& resources.custom.dom().contains(other) ==> after.custom[other]
                == resources.custom[other]
            &&& after.exit == resources.exit
            &&& after.backend_ready == resources.backend_ready
            &&& after.events == resources.events
            &&& after.observers == resources.observers
            &&& after.triggers == resources.triggers
            &&& after.resource_commands == resources.resource_commands
            &&& after.command_buffer == resources.command_buffer
        }),
{
}

/// Inserting one of the engine's own resources sets it and nothing else.
pub proof fn law_an_inserted_flag_is_set<V, O>(resources: ResourcesView<V, O>, value: bool)
    ensures
        ({
            let after = resources.insert(Resource::AppExit(AppExit(value)));
            &&& after.exit == value
            &&& after.backend_ready == resources.backend_ready
            &&& after.custom == resources.custom
            &&& after.events == resources.events
            &&& after.observers == resources.observers
            &&& after.triggers == resources.triggers
            &&& after.resource_commands == resources.resource_commands
            &&& after.command_buffer == resources.command_buffer
        }),
        ({
            let after = resources.insert(Resource::BackendReady(BackendReady(value)));
            &&& after.backend_ready == value
            &&& after.exit == resources.exit
            &&& after.custom == resources.custom
            &&& after.events == resources.events
            &&& after.observers == resources.observers
            &&& after.triggers == resources.triggers
            &&& after.resource_commands == resources.resource_commands
            &&& after.command_buffer == resources.command_buffer
        }),
{
}

/// A resource of the application that was removed is gone. Nothing else
/// changes, and removing what is not there changes nothing at all.
pub proof fn law_a_removed_resource_is_gone<V, O>(
    resources: ResourcesView<V, O>,
    key: TypeKey,
    other: TypeKey,
)
    requires
        other != key,
    ensures
        ({
            let after = resources.remove(key);
            &&& !after.custom.dom().contains(key)
            &&& after.custom.dom().contains(other) == resources.custom.dom().contains(other)
            &&& resources.custom.dom().contains(other) ==> after.custom[other]
                == resources.custom[other]
            &&& after.exit == resources.exit
            &&& after.backend_ready == resources.backend_ready
            &&& after.events == resources.events
            &&& after.observers == resources.observers
            &&& after.triggers == resources.triggers
            &&& after.resource_commands == resources.resource_commands
            &&& after.command_buffer == resources.command_buffer
        }),
        !resources.custom.dom().contains(key) ==> resources.remove(key) == resources,
{
    if !resources.custom.dom().contains(key) {
        assert(resources.custom.remove(key) =~= resources.custom);
    }
}

/// The engine's own resources are always there, one of the application from
/// its insertion to its removal, and the queue of an event type from its
/// registration.
pub proof fn law_what_exists<V, O>(resources: ResourcesView<V, O>, key: TypeKey, value: V)
    ensures
        resources.has(ResourceKey::AppExit),
        resources.has(ResourceKey::BackendReady),
        resources.insert(Resource::Custom(key, value)).has(ResourceKey::Custom(key)),
        !resources.remove(key).has(ResourceKey::Custom(key)),
        resources.register(key).has(ResourceKey::Events(key)),
        resources.has(ResourceKey::Custom(key)) <==> resources.custom.dom().contains(key),
        resources.has(ResourceKey::Events(key)) <==> resources.events.dom().contains(key),
{
}

/// Resource commands apply one after another: a list in two parts is the
/// first part and then the second, a single command is the insertion or the
/// removal that it asks for, and no command changes nothing.
pub proof fn law_resource_commands_apply_in_order<V, O>(
    resources: ResourcesView<V, O>,
    first: Seq<ResourceCommand<V>>,
    second: Seq<ResourceCommand<V>>,
    resource: Resource<V>,
    key: TypeKey,
)
    ensures
        resources.apply_all(first + second) == resources.apply_all(first).apply_all(second),
        resources.apply_all(Seq::empty()) == resources,
        resources.apply_all(seq![ResourceCommand::Insert(resource)]) == resources.insert(resource),
        resources.apply_all(seq![ResourceCommand::Remove(key)]) == resources.remove(key),
    decreases second.len(),
{
    let insert = seq![ResourceCommand::Insert(resource)];
    let remove = seq![ResourceCommand::<V>::Remove(key)];
    assert(insert.drop_last() =~= Seq::empty());
    assert(remove.drop_last() =~= Seq::empty());
    assert(resources.apply_all(insert.drop_last()) == resources);
    assert(resources.apply_all(remove.drop_last()) == resources);
    if second.len() == 0 {
        assert(first + second =~= first);
    } else {
        law_resource_commands_apply_in_order(resources, first, second.drop_last(), resource, key);
        assert((first + second).drop_last() =~= first + second.drop_last());
    }
}

/// Flushing applies every queued resource command and leaves none queued;
/// what the flush of the same resources without a queue would keep, it keeps.
pub proof fn law_a_flush_leaves_no_resource_command<V, O>(resources: ResourcesView<V, O>)
    ensures
        resources.resource_commands_flushed().resource_commands
            == Seq::<ResourceCommand<V>>::empty(),
        resources.resource_commands_flushed().custom == resources.apply_all(
            resources.resource_commands,
        ).custom,
        resources.resource_commands_flushed().exit == resources.apply_all(
            resources.resource_commands,
        ).exit,
        resources.resource_commands_flushed().backend_ready == resources.apply_all(
            resources.resource_commands,
        ).backend_ready,
        resources.resource_commands_flushed().events == resources.events,
        resources.resource_commands_flushed().observers == resources.observers,
        resources.resource_commands_flushed().triggers == resources.triggers,
        resources.resource_commands_flushed().command_buffer == resources.command_buffer,
{
    let bare = ResourcesView { resource_commands: Seq::empty(), ..resources };
    lemma_commands_change_resources_only(bare, resources, resources.resource_commands);
}

proof fn lemma_commands_change_resources_only<V, O>(
    one: ResourcesView<V, O>,
    other: ResourcesView<V, O>,
    commands: Seq<ResourceCommand<V>>,
)
    requires
        one.custom == other.custom,
        one.exit == other.exit,
        one.backend_ready == other.backend_ready,
    ensures
        one.apply_all(commands).custom == other.apply_all(commands).custom,
        one.apply_all(commands).exit == other.apply_all(commands).exit,
        one.apply_all(commands).backend_ready == other.apply_all(commands).backend_ready,
        one.apply_all(commands).resource_commands == one.resource_commands,
        one.apply_all(commands).events == one.events,
        one.apply_all(commands).observers == one.observers,
        one.apply_all(commands).triggers == one.triggers,
        one.apply_all(commands).command_buffer == one.command_buffer,
    decreases commands.len(),
{
    if commands.len() > 0 {
        lemma_commands_change_resources_only(one, other, commands.drop_last());
    }
}

/// An event of a registered type that is delivered can be read, after all
/// that could be read before; every other queue stays. One of an unregistered
/// type is dropped.
pub proof fn law_a_delivered_event_can_be_read<V, O>(
    resources: ResourcesView<V, O>,
    key: TypeKey,
    event: V,
    other: TypeKey,
)
    requires
        other != key,
    ensures
        !resources.events.dom().contains(key) ==> resources.deliver(key, event) == resources,
        resources.events.dom().contains(key) ==> {
            let after = resources.deliver(key, event);
            &&& after.events.dom() == resources.events.dom()
            &&& after.events[key].readable() == resources.events[key].readable().push(event)
            &&& resources.events.dom().contains(other) ==> after.events[other]
                == resources.events[other]
            &&& after.custom == resources.custom
            &&& after.exit == resources.exit
            &&& after.backend_ready == resources.backend_ready
            &&& after.observers == resources.observers
            &&& after.triggers == resources.triggers
            &&& after.resource_commands == resources.resource_commands
            &&& after.command_buffer == resources.command_buffer
        },
{
    if resources.events.dom().contains(key) {
        let after = resources.deliver(key, event);
        assert(after.events.dom() =~= resources.events.dom());
        assert(after.events[key].readable() =~= resources.events[key].readable().push(event));
    }
}

/// Aging one queue drops what an earlier aging set aside and keeps what was
/// sent since; every other queue stays.
pub proof fn law_aging_changes_one_queue<V, O>(
    resources: ResourcesView<V, O>,
    key: TypeKey,
    other: TypeKey,
)
    requires
        other != key,
    ensures
        !resources.events.dom().contains(key) ==> resources.age(key) == resources,
        resources.events.dom().contains(key) ==> {
            let after = resources.age(key);
            &&& after.events.dom() == resources.events.dom()
            &&& after.events[key].readable() == resources.events[key].newer
            &&& after.events[key].sent == resources.events[key].sent
            &&& resources.age(key).age(key).events[key].readable() == Seq::<V>::empty()
            &&& resources.events.dom().contains(other) ==> after.events[other]
                == resources.events[other]
            &&& after.custom == resources.custom
            &&& after.exit == resources.exit
            &&& after.backend_ready == resources.backend_ready
            &&& after.observers == resources.observers
            &&& after.triggers == resources.triggers
            &&& after.resource_commands == resources.resource_commands
            &&& after.command_buffer == resources.command_buffer
        },
{
    if resources.events.dom().contains(key) {
        let after = resources.age(key);
        assert(after.events.dom() =~= resources.events.dom());
        assert(after.events[key].readable() =~= resources.events[key].newer);
        assert(resources.age(key).age(key).events[key].readable() =~= Seq::<V>::empty());
    }
}

/// A registered event type has a queue: an empty one if it is new, else the
/// one that it had, events included. Every other queue stays.
pub proof fn law_registering_keeps_what_was_sent<V, O>(
    resources: ResourcesView<V, O>,
    key: TypeKey,
    other: TypeKey,
)
    requires
        other != key,
    ensures
        ({
            let after = resources.register(key);
            &&& after.events.dom().contains(key)
            &&& if resources.events.dom().contains(key) {
                after == resources
            } else {
                after.events[key].readable() == Seq::<V>::empty() && after.events[key].sent == 0
            }
            &&& after.events.dom().contains(other) == resources.events.dom().contains(other)
            &&& resources.events.dom().contains(other) ==> after.events[other]
                == resources.events[other]
            &&& after.custom == resources.custom
            &&& after.exit == resources.exit
            &&& after.backend_ready == resources.backend_ready
            &&& after.observers == resources.observers
            &&& after.triggers == resources.triggers
            &&& after.resource_commands == resources.resource_commands
            &&& after.command_buffer == resources.command_buffer
        }),
{
    if !resources.events.dom().contains(key) {
        assert(resources.register(key).events[key].readable() =~= Seq::<V>::empty());
    }
}

/// The observers of one event type that are set are there, those of every
/// other type stay, and nothing else changes.
pub proof fn law_observers_are_kept_by_type<V, O>(
    resources: ResourcesView<V, O>,
    key: TypeKey,
    observers: Seq<O>,
    other: TypeKey,
)
    requires
        other != key,
    ensures
        ({
            let after = resources.with_observers(key, observers);
            &&& after.observers.dom().contains(key)
            &&& after.observers[key] == observers
            &&& after.observers_of(key) == observers
            &&& after.observers_of(other) == resources.observers_of(other)
            &&& after.observers.dom().contains(other) == resources.observers.dom().contains(other)
            &&& after.custom == resources.custom
            &&& after.exit == resources.exit
            &&& after.backend_ready == resources.backend_ready
            &&& after.events == resources.events
            &&& after.triggers == resources.triggers
            &&& after.resource_commands == resources.resource_commands
            &&& after.command_buffer == resources.command_buffer
        }),
        resources.observers.dom().contains(other) ==> resources.observers_of(other)
            == resources.observers[other],
        !resources.observers.dom().contains(other) ==> resources.observers_of(other)
            == Seq::<O>::empty(),
{
}

/// At first nothing is deferred, no event type is registered, there are no
/// observers and no resources of the application, no exit is asked for and
/// there is no backend.
pub proof fn law_resources_start_at_rest<V, O>(command_buffer: hecs::CommandBuffer, key: TypeKey)
    ensures
        ({
            let resources = ResourcesView::<V, O>::initial(command_buffer);
            &&& resources.command_buffer == command_buffer
            &&& resources.resource_commands.len() == 0
            &&& resources.triggers.len() == 0
            &&& !resources.exit
            &&& !resources.backend_ready
            &&& !resources.events.dom().contains(key)
            &&& !resources.observers.dom().contains(key)
            &&& !resources.custom.dom().contains(key)
        }),
{
}

// ---------------------------------------------------------------------------
// Laws of the operations
// ---------------------------------------------------------------------------

/// A resource of the application that was inserted is there, with its value;
/// others stay. One that is removed is handed out and gone.
pub proof fn law_inserting_and_removing<V, O>(
    resources: &mut Resources<V, O>,
    key: TypeKey,
    value: V,
    there: bool,
    found: Option<&V>,
    removing: &mut Resources<V, O>,
    removed: Option<V>,
    left: bool,
    other: TypeKey,
    before: bool,
    after: bool,
)
    requires
        other != key,
        call_ensures(
            Resources::<V, O>::contains,
            (&*old(resources), ResourceKey::Custom(other)),
            before,
        ),
        call_ensures(
            Resources::<V, O>::insert,
            (resources, Resource::Custom(key, value)),
            (),
        ),
        call_ensures(
            Resources::<V, O>::contains,
            (&*final(resources), ResourceKey::Custom(key)),
            there,
        ),
        call_ensures(Resources::<V, O>::get, (&*final(resources), key), found),
        *old(removing) == *final(resources),
        call_ensures(Resources::<V, O>::remove, (removing, key), removed),
        call_ensures(
            Resources::<V, O>::contains,
            (&*final(removing), ResourceKey::Custom(key)),
            left,
        ),
        call_ensures(
            Resources::<V, O>::contains,
            (&*final(removing), ResourceKey::Custom(other)),
            after,
        ),
    ensures
        there,
        found is Some,
        *found->Some_0 == value,
        removed == Some(value),
        !left,
        after == before,
        final(removing)@.events == old(resources)@.events,
        final(removing)@.observers == old(resources)@.observers,
        final(removing)@.triggers == old(resources)@.triggers,
        final(removing)@.resource_commands == old(resources)@.resource_commands,
        final(removing)@.exit == old(resources)@.exit,
        final(removing)@.backend_ready == old(resources)@.backend_ready,
{
}

/// The engine's own resources are always there; setting one is seen by asking
/// for it.
pub proof fn law_setting_the_flags<V, O>(
    resources: &mut Resources<V, O>,
    value: bool,
    readying: &mut Resources<V, O>,
    exit: bool,
    ready: bool,
    has_exit: bool,
    has_ready: bool,
)
    requires
        call_ensures(
            Resources::<V, O>::insert,
            (resources, Resource::AppExit(AppExit(value))),
            (),
        ),
        call_ensures(Resources::<V, O>::exit, (&*final(resources),), exit),
        call_ensures(
            Resources::<V, O>::insert,
            (readying, Resource::BackendReady(BackendReady(value))),
            (),
        ),
        call_ensures(Resources::<V, O>::backend_ready, (&*final(readying),), ready),
        call_ensures(
            Resources::<V, O>::contains,
            (&*old(resources), ResourceKey::AppExit),
            has_exit,
        ),
        call_ensures(
            Resources::<V, O>::contains,
            (&*old(resources), ResourceKey::BackendReady),
            has_ready,
        ),
    ensures
        exit == value,
        ready == value,
        has_exit,
        has_ready,
        final(resources)@.backend_ready == old(resources)@.backend_ready,
        final(readying)@.exit == old(readying)@.exit,
        final(resources)@.custom == old(resources)@.custom,
        final(readying)@.custom == old(readying)@.custom,
{
}

/// New resources are the engine's own, at rest.
pub proof fn law_new_resources_are_at_rest<V, O>(
    resources: Resources<V, O>,
    key: TypeKey,
    exit: bool,
    ready: bool,
    custom: bool,
    events: bool,
)
    requires
        call_ensures(Resources::<V, O>::new, (), resources),
        call_ensures(Resources::<V, O>::exit, (&resources,), exit),
        call_ensures(Resources::<V, O>::backend_ready, (&resources,), ready),
        call_ensures(
            Resources::<V, O>::contains,
            (&resources, ResourceKey::Custom(key)),
            custom,
        ),
        call_ensures(
            Resources::<V, O>::contains,
            (&resources, ResourceKey::Events(key)),
            events,
        ),
    ensures
        resources.wf(),
        !exit,
        !ready,
        !custom,
        !events,
        resources@.triggers.len() == 0,
        resources@.resource_commands.len() == 0,
        !resources@.observers.dom().contains(key),
        entities::recorded_commands(resources@.command_buffer) == 0,
{
}

/// What is queued waits behind what waits already, and nothing else changes:
/// a resource command changes no resource before the flush, and a trigger is
/// seen by no observer.
pub proof fn law_what_is_queued_waits<V, O>(
    resources: &mut Resources<V, O>,
    command: ResourceCommand<V>,
    triggering: &mut Resources<V, O>,
    triggered: Triggered<V>,
    taking: &mut Resources<V, O>,
    triggers: Vec<Triggered<V>>,
)
    requires
        call_ensures(Resources::<V, O>::queue, (resources, command), ()),
        call_ensures(Resources::<V, O>::trigger, (triggering, triggered), ()),
        *old(taking) == *final(triggering),
        call_ensures(Resources::<V, O>::take_triggers, (taking,), triggers),
    ensures
        final(resources)@.resource_commands.len() == old(resources)@.resource_commands.len() + 1,
        final(resources)@.resource_commands.drop_last() == old(resources)@.resource_commands,
        final(resources)@.resource_commands.last() == command,
        final(resources)@.custom == old(resources)@.custom,
        final(resources)@.exit == old(resources)@.exit,
        final(resources)@.backend_ready == old(resources)@.backend_ready,
        final(resources)@.events == old(resources)@.events,
        final(resources)@.observers == old(resources)@.observers,
        final(resources)@.triggers == old(resources)@.triggers,
        final(triggering)@.observers == old(triggering)@.observers,
        final(triggering)@.custom == old(triggering)@.custom,
        triggers@.len() == old(triggering)@.triggers.len() + 1,
        triggers@.drop_last() == old(triggering)@.triggers,
        triggers@.last() == triggered,
        final(taking)@.triggers.len() == 0,
        final(taking)@.observers == old(triggering)@.observers,
{
    assert(final(resources)@.resource_commands.drop_last() =~= old(
        resources,
    )@.resource_commands);
    assert(triggers@.drop_last() =~= old(triggering)@.triggers);
}

/// A flush of resource commands applies them all, in the order of queueing:
/// what the last command inserts is there afterwards, and what it removes is
/// not. None is left, and event queues, observers and triggers stay.
pub proof fn law_a_flush_of_resource_commands<V, O>(
    resources: &mut Resources<V, O>,
    key: TypeKey,
    value: V,
)
    requires
        call_ensures(Resources::<V, O>::flush_resource_commands, (resources,), ()),
    ensures
        final(resources)@.resource_commands.len() == 0,
        final(resources)@.events == old(resources)@.events,
        final(resources)@.observers == old(resources)@.observers,
        final(resources)@.triggers == old(resources)@.triggers,
        final(resources)@.command_buffer == old(resources)@.command_buffer,
        final(resources)@.custom == old(resources)@.apply_all(
            old(resources)@.resource_commands,
        ).custom,
        old(resources)@.resource_commands.len() == 0 ==> final(resources)@.custom == old(
            resources,
        )@.custom,
        old(resources)@.resource_commands.len() > 0 && old(resources)@.resource_commands.last()
            == ResourceCommand::Insert(Resource::Custom(key, value)) ==> final(
            resources)@.custom.dom().contains(key) && final(resources)@.custom[key] == value,
        old(resources)@.resource_commands.len() > 0 && old(resources)@.resource_commands.last()
            == ResourceCommand::<V>::Remove(key) ==> !final(
            resources)@.custom.dom().contains(key),
{
    law_a_flush_leaves_no_resource_command(old(resources)@);
}

/// A flush of entity commands runs what is recorded, and leaves nothing
/// recorded. The resources stay.
pub proof fn law_a_flush_of_entity_commands<V, O>(
    resources: &mut Resources<V, O>,
    world: &mut hecs::World,
)
    requires
        call_ensures(Resources::<V, O>::flush_entity_commands, (resources, world), ()),
    ensures
        entities::commands_applied(*old(world), old(resources)@.command_buffer, *final(world)),
        entities::recorded_commands(final(resources)@.command_buffer) == 0,
        entities::recorded_commands(old(resources)@.command_buffer) == 0 ==> *final(world) == *old(
            world,
        ),
        final(resources)@.custom == old(resources)@.custom,
        final(resources)@.resource_commands == old(resources)@.resource_commands,
        final(resources)@.triggers == old(resources)@.triggers,
        final(resources)@.events == old(resources)@.events,
        final(resources)@.observers == old(resources)@.observers,
{
}

/// An observer that is added comes last among those of its type. Those of a
/// type can be taken out, all of them, and none is left; those of other types
/// stay.
pub proof fn law_adding_and_taking_observers<V, O>(
    resources: &mut Resources<V, O>,
    key: TypeKey,
    observer: O,
    taking: &mut Resources<V, O>,
    taken: Option<Vec<O>>,
    other: TypeKey,
)
    requires
        other != key,
        call_ensures(Resources::<V, O>::add_observer, (resources, key, observer), ()),
        *old(taking) == *final(resources),
        call_ensures(Resources::<V, O>::take_observers, (taking, key), taken),
    ensures
        taken is Some,
        taken->Some_0@.last() == observer,
        old(resources)@.observers.dom().contains(key) ==> taken->Some_0@.drop_last() == old(
            resources,
        )@.observers[key],
        !old(resources)@.observers.dom().contains(key) ==> taken->Some_0@.len() == 1,
        final(taking)@.observers.dom().contains(key),
        final(taking)@.observers[key].len() == 0,
        final(taking)@.observers.dom().contains(other) == old(
            resources,
        )@.observers.dom().contains(other),
        old(resources)@.observers.dom().contains(other) ==> final(taking)@.observers[other] == old(
            resources,
        )@.observers[other],
        final(taking)@.custom == old(resources)@.custom,
        final(taking)@.events == old(resources)@.events,
        final(taking)@.triggers == old(resources)@.triggers,
{
    if old(resources)@.observers.dom().contains(key) {
        assert(taken->Some_0@.drop_last() =~= old(resources)@.observers[key]);
    }
}

/// An event type is new exactly if it had no queue; it has one afterwards, with
/// the events that it held. An event of a type with a queue is appended to it
/// and said to be delivered; another is dropped. Other queues stay.
pub proof fn law_registering_and_delivering<V, O>(
    resources: &mut Resources<V, O>,
    key: TypeKey,
    new: bool,
    delivering: &mut Resources<V, O>,
    sent: TypeKey,
    event: V,
    delivered: bool,
    queue: Option<&Events<V>>,
    other: TypeKey,
)
    requires
        other != sent,
        call_ensures(Resources::<V, O>::register_event, (resources, key), new),
        *old(delivering) == *final(resources),
        call_ensures(Resources::<V, O>::deliver, (delivering, sent, event), delivered),
        call_ensures(Resources::<V, O>::events, (&*final(delivering), sent), queue),
    ensures
        new <==> !old(resources)@.events.dom().contains(key),
        final(resources)@.events.dom() == old(resources)@.events.dom().insert(key),
        new ==> final(resources)@.events[key].readable().len() == 0,
        !new ==> final(resources)@ == old(resources)@,
        delivered <==> sent == key || old(resources)@.events.dom().contains(sent),
        delivered <==> queue is Some,
        delivered ==> {
            let before = old(delivering)@.events[sent].readable();
            &&& queue->Some_0@.readable() == before.push(event)
            &&& final(delivering)@.events[sent].readable() == before.push(event)
        },
        !delivered ==> final(delivering)@ == old(delivering)@,
        old(delivering)@.events.dom().contains(other) ==> final(delivering)@.events[other] == old(
            delivering,
        )@.events[other],
        final(delivering)@.custom == old(resources)@.custom,
        final(delivering)@.observers == old(resources)@.observers,
{
    assert(final(resources)@.events.dom() =~= old(resources)@.events.dom().insert(key));
    law_a_delivered_event_can_be_read(old(delivering)@, sent, event, other);
    law_registering_keeps_what_was_sent(old(resources)@, key, if key == 0 { 1 } else { 0 });
}

/// Aging the queue of a type drops what an earlier aging set aside, keeps what
/// was sent since, and leaves other queues alone.
pub proof fn law_aging_one_queue<V, O>(
    resources: &mut Resources<V, O>,
    key: TypeKey,
    other: TypeKey,
)
    requires
        other != key,
        call_ensures(Resources::<V, O>::age_events, (resources, key), ()),
    ensures
        final(resources)@.events.dom() == old(resources)@.events.dom(),
        old(resources)@.events.dom().contains(key) ==> {
            &&& final(resources)@.events[key].readable() == old(resources)@.events[key].newer
            &&& final(resources)@.events[key].newer.len() == 0
        },
        old(resources)@.events.dom().contains(other) ==> final(resources)@.events[other] == old(
            resources,
        )@.events[other],
        final(resources)@.custom == old(resources)@.custom,
        final(resources)@.observers == old(resources)@.observers,
        final(resources)@.triggers == old(resources)@.triggers,
        final(resources)@.resource_commands == old(resources)@.resource_commands,
{
    law_aging_changes_one_queue(old(resources)@, key, other);
    assert(final(resources)@.events.dom() =~= old(resources)@.events.dom());
}

/// A resource that is changed in place has its new value from then on, and
/// other resources stay. Setting the observers of a type replaces them.
pub proof fn law_changing_in_place<V, O>(
    resources: &mut Resources<V, O>,
    key: TypeKey,
    value: Option<&mut V>,
    observed: &mut Resources<V, O>,
    observers: Vec<O>,
    recording: &mut Resources<V, O>,
    commands: &mut hecs::CommandBuffer,
    other: TypeKey,
)
    requires
        other != key,
        call_ensures(Resources::<V, O>::get_mut, (resources, key), value),
        call_ensures(Resources::<V, O>::set_observers, (observed, key, observers), ()),
        call_ensures(Resources::<V, O>::command_buffer, (recording,), commands),
    ensures
        value is Some <==> old(resources)@.custom.dom().contains(key),
        value is Some ==> {
            &&& *old(value->Some_0) == old(resources)@.custom[key]
            &&& final(resources)@.custom.dom().contains(key)
            &&& final(resources)@.custom[key] == *final(value->Some_0)
        },
        value is None ==> final(resources)@ == old(resources)@,
        old(resources)@.custom.dom().contains(other) ==> final(resources)@.custom.dom().contains(
            other,
        ) && final(resources)@.custom[other] == old(resources)@.custom[other],
        final(resources)@.events == old(resources)@.events,
        final(observed)@.observers.dom().contains(key),
        final(observed)@.observers[key] == observers@,
        old(observed)@.observers.dom().contains(other) ==> final(observed)@.observers[other] == old(
            observed,
        )@.observers[other],
        final(observed)@.custom == old(observed)@.custom,
        *old(commands) == old(recording)@.command_buffer,
        final(recording)@.command_buffer == *final(commands),
        final(recording)@.custom == old(recording)@.custom,
        final(recording)@.resource_commands == old(recording)@.resource_commands,
{
}

} // verus!
