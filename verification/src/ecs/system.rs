//! What systems and observers are, and how a system is described before it
//! is scheduled.
use vstd::prelude::*;

use crate::ecs::resources::{Resources, ResourcesView};

verus! {

/// Stands for a Rust type: a system function, an event type or a resource
/// type. Whoever owns the types hands out one number per type.
pub type TypeKey = u64;

/// Everything that systems work on.
#[verifier::ext_equal]
pub struct EngineState<V, O> {
    pub world: hecs::World,
    pub resources: ResourcesView<V, O>,
}

/// Something that runs once per tick.
///
/// What a run does is up to the implementor: `runs` relates the state before
/// to each state that a run may leave behind.
pub trait System<V, O>: Sized {
    spec fn runs(
        before: Self,
        at: EngineState<V, O>,
        after: Self,
        then: EngineState<V, O>,
    ) -> bool;

    fn run(&mut self, world: &mut hecs::World, resources: &mut Resources<V, O>)
        requires
            old(resources).wf(),
        ensures
            final(resources).wf(),
            Self::runs(
                *old(self),
                (EngineState { world: *old(world), resources: old(resources)@ }),
                *final(self),
                (EngineState { world: *final(world), resources: final(resources)@ }),
            ),
    ;
}

/// Something that runs whenever an event of its type is triggered.
pub trait ObserverSystem<V>: Sized {
    spec fn observes(
        before: Self,
        event: V,
        at: EngineState<V, Self>,
        after: Self,
        then: EngineState<V, Self>,
    ) -> bool;

    fn observe(
        &mut self,
        event: &V,
        world: &mut hecs::World,
        resources: &mut Resources<V, Self>,
    )
        requires
            old(resources).wf(),
        ensures
            final(resources).wf(),
            Self::observes(
                *old(self),
                *event,
                (EngineState { world: *old(world), resources: old(resources)@ }),
                *final(self),
                (EngineState { world: *final(world), resources: final(resources)@ }),
            ),
    ;
}

/// Names a system inside a schedule, so that another system can be ordered
/// relative to it.
#[derive(Clone, Copy, PartialEq, Eq, Structural, Debug)]
pub enum SystemId {
    /// The system that ages the queue of one event type.
    AgeEvents(TypeKey),
    /// A system registered by the application.
    Custom(TypeKey),
}

/// What a schedule runs: the engine's own system that ages an event queue,
/// or one of the application's.
pub enum StageSystem<S> {
    AgeEvents(TypeKey),
    Custom(S),
}

impl<V, O, S: System<V, O>> System<V, O> for StageSystem<S> {
    /// Aging changes the one queue and nothing else; an application's system
    /// does what it does.
    open spec fn runs(
        before: Self,
        at: EngineState<V, O>,
        after: Self,
        then: EngineState<V, O>,
    ) -> bool {
        match before {
            StageSystem::AgeEvents(key) => {
                &&& after == before
                &&& then == EngineState { world: at.world, resources: at.resources.age(key) }
            },
            StageSystem::Custom(system) => {
                &&& after is Custom
                &&& S::runs(system, at, after->Custom_0, then)
            },
        }
    }

    fn run(&mut self, world: &mut hecs::World, resources: &mut Resources<V, O>) {
        match self {
            StageSystem::AgeEvents(key) => {
                resources.age_events(*key);
            },
            StageSystem::Custom(system) => {
                system.run(world, resources);
            },
        }
    }
}

/// The stages of a tick, in the order in which they run.
#[derive(Clone, Copy, PartialEq, Eq, Structural, Debug)]
pub enum SystemStage {
    /// Before anything else, once, when the application starts.
    Startup,
    /// Once ever, at the start of the first tick with a ready GPU backend.
    Ready,
    /// At the start of every tick.
    PreUpdate,
    /// In every tick.
    Update,
}

impl SystemStage {
    /// The place of the stage in a tick.
    pub open spec fn rank(self) -> u64 {
        match self {
            SystemStage::Startup => 0,
            SystemStage::Ready => 1,
            SystemStage::PreUpdate => 2,
            SystemStage::Update => 3,
        }
    }

    /// The place of the stage in a tick.
    pub fn index(self) -> (rank: u64)
        ensures
            rank == self.rank(),
    {
        match self {
            SystemStage::Startup => 0,
            SystemStage::Ready => 1,
            SystemStage::PreUpdate => 2,
            SystemStage::Update => 3,
        }
    }
}

/// How many stages there are.
pub const STAGE_COUNT: u64 = 4;

/// A system as a schedule holds it.
pub struct ScheduledSystem<S, C> {
    pub id: SystemId,
    pub system: StageSystem<S>,
    /// All of these must hold for the system to run.
    pub conditions: Vec<C>,
    /// Of systems that nothing orders, the one with the highest runs first.
    pub priority: i32,
}

/// A system on its way into a schedule, with its ordering wishes.
pub struct SystemConfig<S, C> {
    pub id: SystemId,
    pub system: StageSystem<S>,
    pub conditions: Vec<C>,
    pub priority: i32,
    /// `(dependent, dependency)`: the first runs after the second.
    pub constraints: Vec<(SystemId, SystemId)>,
}

impl<S, C> SystemConfig<S, C> {
    /// The system with no condition, no constraint, and priority zero.
    pub fn new(id: SystemId, system: StageSystem<S>) -> (config: Self)
        ensures
            config.id == id,
            config.system == system,
            config.conditions@ == Seq::<C>::empty(),
            config.priority == 0,
            config.constraints@ == Seq::<(SystemId, SystemId)>::empty(),
    {
        SystemConfig {
            id,
            system,
            conditions: Vec::new(),
            priority: 0,
            constraints: Vec::new(),
        }
    }

    /// Run after the system called `other`.
    pub fn after(self, other: SystemId) -> (config: Self)
        ensures
            config.constraints@ == self.constraints@.push((self.id, other)),
            config.id == self.id,
            config.system == self.system,
            config.conditions == self.conditions,
            config.priority == self.priority,
    {
        let mut config = self;
        config.constraints.push((config.id, other));
        config
    }

    /// Run before the system called `other`.
    pub fn before(self, other: SystemId) -> (config: Self)
        ensures
            config.constraints@ == self.constraints@.push((other, self.id)),
            config.id == self.id,
            config.system == self.system,
            config.conditions == self.conditions,
            config.priority == self.priority,
    {
        let mut config = self;
        config.constraints.push((other, config.id));
        config
    }

    /// Run before systems of lower priority that nothing orders relative to
    /// this one.
    pub fn priority(self, priority: i32) -> (config: Self)
        ensures
            config == (SystemConfig { priority, ..self }),
    {
        let mut config = self;
        config.priority = priority;
        config
    }

    /// Run only in ticks in which `condition` holds too.
    pub fn run_if(self, condition: C) -> (config: Self)
        ensures
            config.conditions@ == self.conditions@.push(condition),
            config.id == self.id,
            config.system == self.system,
            config.constraints == self.constraints,
            config.priority == self.priority,
    {
        let mut config = self;
        config.conditions.push(condition);
        config
    }

    /// The system as a schedule holds it, and its constraints.
    pub fn into_parts(self) -> (parts: (ScheduledSystem<S, C>, Vec<(SystemId, SystemId)>))
        ensures
            parts.0 == self.scheduled(),
            parts.1 == self.constraints,
    {
        (
            ScheduledSystem {
                id: self.id,
                system: self.system,
                conditions: self.conditions,
                priority: self.priority,
            },
            self.constraints,
        )
    }

    /// The system as a schedule holds it.
    pub open spec fn scheduled(self) -> ScheduledSystem<S, C> {
        ScheduledSystem {
            id: self.id,
            system: self.system,
            conditions: self.conditions,
            priority: self.priority,
        }
    }
}

/// Systems that run in the order in which they are listed.
pub struct SystemChain<S, C> {
    systems: Vec<ScheduledSystem<S, C>>,
    constraints: Vec<(SystemId, SystemId)>,
}

impl<S, C> SystemChain<S, C> {
    pub closed spec fn systems(self) -> Seq<ScheduledSystem<S, C>> {
        self.systems@
    }

    pub closed spec fn constraints(self) -> Seq<(SystemId, SystemId)> {
        self.constraints@
    }

    /// Each system of the chain waits for the one before it.
    pub open spec fn linked(self) -> bool {
        forall|i: int, j: int|
            0 <= i && j == i + 1 && j < self.systems().len() ==> self.constraints().contains(
                ((#[trigger] self.systems()[j]).id, (#[trigger] self.systems()[i]).id),
            )
    }

    /// A chain without systems.
    pub fn new() -> (chain: Self)
        ensures
            chain.linked(),
            chain.systems() == Seq::<ScheduledSystem<S, C>>::empty(),
            chain.constraints() == Seq::<(SystemId, SystemId)>::empty(),
    {
        SystemChain { systems: Vec::new(), constraints: Vec::new() }
    }

    /// The chain with one more link: `config` runs after the system that was
    /// last so far.
    pub fn then_run(self, config: SystemConfig<S, C>) -> (chain: Self)
        ensures
            self.linked() ==> chain.linked(),
            chain.systems() == self.systems().push(config.scheduled()),
            chain.constraints() == (if self.systems().len() == 0 {
                self.constraints() + config.constraints@
            } else {
                (self.constraints() + config.constraints@).push(
                    (config.id, self.systems().last().id),
                )
            }),
    {
        let mut chain = self;
        let link: Option<(SystemId, SystemId)> = if chain.systems.len() == 0 {
            None
        } else {
            Some((config.id, chain.systems[chain.systems.len() - 1].id))
        };
        let (system, wishes) = config.into_parts();
        let mut wishes = wishes;
        chain.constraints.append(&mut wishes);
        chain.systems.push(system);
        match link {
            Some(pair) => {
                chain.constraints.push(pair);
            },
            None => {},
        }
        proof {
            if self.linked() {
                assert forall|i: int, j: int|
                    0 <= i && j == i + 1 && j < chain.systems().len() implies chain.constraints().contains(
                    ((#[trigger] chain.systems()[j]).id, (#[trigger] chain.systems()[i]).id),
                ) by {
                    let pair = (chain.systems()[j].id, chain.systems()[i].id);
                    if j < self.systems().len() {
                        assert(self.systems()[j] == chain.systems()[j]);
                        assert(self.systems()[i] == chain.systems()[i]);
                        assert(chain.constraints().take(self.constraints().len() as int)
                            =~= self.constraints());
                        lemma_kept(self.constraints(), chain.constraints(), pair);
                    } else {
                        assert(chain.constraints().last() == pair);
                    }
                }
            }
        }
        chain
    }

    /// Run every link after the system called `other`.
    pub fn after(self, other: SystemId) -> (chain: Self)
        ensures
            self.linked() ==> chain.linked(),
            chain.systems() == self.systems(),
            chain.constraints() == self.constraints() + self.systems().map_values(
                |system: ScheduledSystem<S, C>| (system.id, other),
            ),
    {
        let mut chain = self;
        let ghost wishes = chain.systems@.map_values(
            |system: ScheduledSystem<S, C>| (system.id, other),
        );
        let mut i: usize = 0;
        while i < chain.systems.len()
            invariant
                i <= chain.systems@.len(),
                chain.systems == self.systems,
                wishes == chain.systems@.map_values(
                    |system: ScheduledSystem<S, C>| (system.id, other),
                ),
                chain.constraints@ == self.constraints@ + wishes.take(i as int),
            decreases chain.systems.len() - i,
        {
            chain.constraints.push((chain.systems[i].id, other));
            assert(wishes.take(i + 1) =~= wishes.take(i as int).push(wishes[i as int]));
            i += 1;
        }
        assert(wishes.take(i as int) =~= wishes);
        proof {
            if self.linked() {
                assert forall|i: int, j: int|
                    0 <= i && j == i + 1 && j < chain.systems().len() implies chain.constraints().contains(
                    ((#[trigger] chain.systems()[j]).id, (#[trigger] chain.systems()[i]).id),
                ) by {
                    assert(chain.constraints().take(self.constraints().len() as int)
                        =~= self.constraints());
                    lemma_kept(
                        self.constraints(),
                        chain.constraints(),
                        (chain.systems()[j].id, chain.systems()[i].id),
                    );
                }
            }
        }
        chain
    }

    /// Run every link before the system called `other`.
    pub fn before(self, other: SystemId) -> (chain: Self)
        ensures
            self.linked() ==> chain.linked(),
            chain.systems() == self.systems(),
            chain.constraints() == self.constraints() + self.systems().map_values(
                |system: ScheduledSystem<S, C>| (other, system.id),
            ),
    {
        let mut chain = self;
        let ghost wishes = chain.systems@.map_values(
            |system: ScheduledSystem<S, C>| (other, system.id),
        );
        let mut i: usize = 0;
        while i < chain.systems.len()
            invariant
                i <= chain.systems@.len(),
                chain.systems == self.systems,
                wishes == chain.systems@.map_values(
                    |system: ScheduledSystem<S, C>| (other, system.id),
                ),
                chain.constraints@ == self.constraints@ + wishes.take(i as int),
            decreases chain.systems.len() - i,
        {
            chain.constraints.push((other, chain.systems[i].id));
            assert(wishes.take(i + 1) =~= wishes.take(i as int).push(wishes[i as int]));
            i += 1;
        }
        assert(wishes.take(i as int) =~= wishes);
        proof {
            if self.linked() {
                assert forall|i: int, j: int|
                    0 <= i && j == i + 1 && j < chain.systems().len() implies chain.constraints().contains(
                    ((#[trigger] chain.systems()[j]).id, (#[trigger] chain.systems()[i]).id),
                ) by {
                    assert(chain.constraints().take(self.constraints().len() as int)
                        =~= self.constraints());
                    lemma_kept(
                        self.constraints(),
                        chain.constraints(),
                        (chain.systems()[j].id, chain.systems()[i].id),
                    );
                }
            }
        }
        chain
    }

    /// Give every link the same priority.
    pub fn priority(self, priority: i32) -> (chain: Self)
        ensures
            self.linked() ==> chain.linked(),
            chain.systems() == self.systems().map_values(
                |system: ScheduledSystem<S, C>| (ScheduledSystem { priority, ..system }),
            ),
            chain.constraints() == self.constraints(),
    {
        let mut chain = self;
        let mut i: usize = 0;
        while i < chain.systems.len()
            invariant
                i <= chain.systems@.len(),
                chain.systems@.len() == self.systems@.len(),
                chain.constraints == self.constraints,
                forall|k: int|
                    0 <= k < i ==> chain.systems@[k] == (ScheduledSystem {
                        priority,
                        ..self.systems@[k]
                    }),
                forall|k: int| i <= k < chain.systems@.len() ==> chain.systems@[k] == self.systems@[k],
            decreases chain.systems.len() - i,
        {
            chain.systems[i].priority = priority;
            i += 1;
        }
        proof {
            assert(chain.systems() =~= self.systems().map_values(
                |system: ScheduledSystem<S, C>| (ScheduledSystem { priority, ..system }),
            ));
            if self.linked() {
                assert forall|i: int, j: int|
                    0 <= i && j == i + 1 && j < chain.systems().len() implies chain.constraints().contains(
                    ((#[trigger] chain.systems()[j]).id, (#[trigger] chain.systems()[i]).id),
                ) by {
                    assert(self.systems()[j].id == chain.systems()[j].id);
                    assert(self.systems()[i].id == chain.systems()[i].id);
                }
            }
        }
        chain
    }

    /// The systems, and their constraints.
    pub fn into_parts(self) -> (parts: (
        Vec<ScheduledSystem<S, C>>,
        Vec<(SystemId, SystemId)>,
    ))
        ensures
            parts.0@ == self.systems(),
            parts.1@ == self.constraints(),
    {
        (self.systems, self.constraints)
    }
}

/// What a list contains, a longer one that begins with it contains too.
proof fn lemma_kept(
    shorter: Seq<(SystemId, SystemId)>,
    longer: Seq<(SystemId, SystemId)>,
    pair: (SystemId, SystemId),
)
    requires
        shorter.len() <= longer.len(),
        longer.take(shorter.len() as int) == shorter,
        shorter.contains(pair),
    ensures
        longer.contains(pair),
{
    let k = choose|k: int| 0 <= k < shorter.len() && shorter[k] == pair;
    assert(longer.take(shorter.len() as int)[k] == longer[k]);
}

// ---------------------------------------------------------------------------
// Laws
// ---------------------------------------------------------------------------

/// The engine's own system ages one queue and changes nothing else; one of the
/// application does what it does.
pub proof fn law_what_a_system_of_a_stage_does<V, O, S: System<V, O>>(
    key: TypeKey,
    system: S,
    at: EngineState<V, O>,
    after: StageSystem<S>,
    then: EngineState<V, O>,
    other: TypeKey,
)
    requires
        other != key,
    ensures
        <StageSystem<S> as System<V, O>>::runs(StageSystem::AgeEvents(key), at, after, then) ==> {
            &&& after == StageSystem::<S>::AgeEvents(key)
            &&& then.world == at.world
            &&& then.resources.custom == at.resources.custom
            &&& then.resources.observers == at.resources.observers
            &&& then.resources.triggers == at.resources.triggers
            &&& then.resources.resource_commands == at.resources.resource_commands
            &&& then.resources.command_buffer == at.resources.command_buffer
            &&& then.resources.events.dom() == at.resources.events.dom()
            &&& at.resources.events.dom().contains(key) ==> {
                &&& then.resources.events[key].readable() == at.resources.events[key].newer
                &&& then.resources.events[key].newer.len() == 0
            }
            &&& at.resources.events.dom().contains(other) ==> then.resources.events[other]
                == at.resources.events[other]
        },
        <StageSystem<S> as System<V, O>>::runs(StageSystem::Custom(system), at, after, then) ==> {
            &&& after is Custom
            &&& S::runs(system, at, after->Custom_0, then)
        },
{
    if at.resources.events.dom().contains(key) {
        assert(at.resources.age(key).events.dom() =~= at.resources.events.dom());
        assert(at.resources.age(key).events[key].readable() =~= at.resources.events[key].newer);
    }
}

/// Each stage has a place of its own, in the order in which they run.
pub proof fn law_stages_have_places(
    startup: u64,
    ready: u64,
    pre: u64,
    update: u64,
)
    requires
        call_ensures(SystemStage::index, (SystemStage::Startup,), startup),
        call_ensures(SystemStage::index, (SystemStage::Ready,), ready),
        call_ensures(SystemStage::index, (SystemStage::PreUpdate,), pre),
        call_ensures(SystemStage::index, (SystemStage::Update,), update),
    ensures
        startup < ready < pre < update < STAGE_COUNT,
{
}

/// A chain begins empty and grows by one link at a time. A link comes last, as
/// it was described, and neither it nor those before it lose a wish; each goes
/// on waiting for the one before it.
pub proof fn law_a_chain_grows_link_by_link<S, C>(
    fresh: SystemChain<S, C>,
    chain: SystemChain<S, C>,
    config: SystemConfig<S, C>,
    longer: SystemChain<S, C>,
    wish: (SystemId, SystemId),
)
    requires
        call_ensures(SystemChain::<S, C>::new, (), fresh),
        call_ensures(SystemChain::<S, C>::then_run, (chain, config), longer),
    ensures
        fresh.systems().len() == 0,
        fresh.constraints().len() == 0,
        fresh.linked(),
        longer.systems().len() == chain.systems().len() + 1,
        longer.systems().drop_last() == chain.systems(),
        longer.systems().last().id == config.id,
        longer.systems().last().system == config.system,
        longer.systems().last().conditions == config.conditions,
        longer.systems().last().priority == config.priority,
        chain.constraints().contains(wish) || config.constraints@.contains(wish)
            ==> longer.constraints().contains(wish),
        chain.linked() ==> longer.linked(),
        chain.systems().len() == 0 ==> longer.constraints() == chain.constraints()
            + config.constraints@,
{
    assert(longer.systems().drop_last() =~= chain.systems());
    if chain.constraints().contains(wish) {
        assert(longer.constraints().take(chain.constraints().len() as int)
            =~= chain.constraints());
        lemma_kept(chain.constraints(), longer.constraints(), wish);
    }
    if config.constraints@.contains(wish) {
        let k = choose|k: int|
            0 <= k < config.constraints@.len() && config.constraints@[k] == wish;
        assert(longer.constraints()[chain.constraints().len() + k] == wish);
    }
}

/// A chain that is told to run after or before a system keeps every wish that
/// it had, and every link in its place.
pub proof fn law_a_chain_keeps_its_wishes<S, C>(
    chain: SystemChain<S, C>,
    other: SystemId,
    later: SystemChain<S, C>,
    earlier: SystemChain<S, C>,
    wish: (SystemId, SystemId),
    i: int,
)
    requires
        call_ensures(SystemChain::<S, C>::after, (chain, other), later),
        call_ensures(SystemChain::<S, C>::before, (chain, other), earlier),
        chain.constraints().contains(wish),
        0 <= i < chain.systems().len(),
    ensures
        later.constraints().contains(wish),
        earlier.constraints().contains(wish),
        later.constraints().contains((chain.systems()[i].id, other)),
        earlier.constraints().contains((other, chain.systems()[i].id)),
        later.systems() == chain.systems(),
        earlier.systems() == chain.systems(),
        chain.linked() ==> later.linked() && earlier.linked(),
{
    assert(later.constraints().take(chain.constraints().len() as int) =~= chain.constraints());
    assert(earlier.constraints().take(chain.constraints().len() as int) =~= chain.constraints());
    lemma_kept(chain.constraints(), later.constraints(), wish);
    lemma_kept(chain.constraints(), earlier.constraints(), wish);
    let k = chain.constraints().len() + i;
    assert(later.constraints()[k] == (chain.systems()[i].id, other));
    assert(earlier.constraints()[k] == (other, chain.systems()[i].id));
}

/// Taking a description apart loses nothing.
pub proof fn law_taking_apart_loses_nothing<S, C>(
    config: SystemConfig<S, C>,
    parts: (ScheduledSystem<S, C>, Vec<(SystemId, SystemId)>),
    chain: SystemChain<S, C>,
    links: (Vec<ScheduledSystem<S, C>>, Vec<(SystemId, SystemId)>),
)
    requires
        call_ensures(SystemConfig::<S, C>::into_parts, (config,), parts),
        call_ensures(SystemChain::<S, C>::into_parts, (chain,), links),
    ensures
        parts.0.id == config.id,
        parts.0.system == config.system,
        parts.0.conditions == config.conditions,
        parts.0.priority == config.priority,
        parts.1 == config.constraints,
        links.0@ == chain.systems(),
        links.1@ == chain.constraints(),
{
}

} // verus!
