//! Run conditions: a predicate attached to a system, deciding each tick
//! whether it runs at all.
//!
//! A condition may keep state between evaluations. Conditions do not affect
//! ordering: a skipped system still holds its place in the schedule, so what
//! is ordered after it is ordered the same whether it ran or not.
use vstd::prelude::*;

use crate::ecs::resources::{ResourceKey, Resources};
use crate::ecs::system::EngineState;

pub use crate::ecs::function_condition::FunctionCondition;

verus! {

/// A runnable predicate.
///
/// `evaluates` relates the condition before an evaluation to each condition
/// and answer that the evaluation may leave. `ready` is what the condition
/// needs of itself to be evaluated, and every evaluation keeps it.
pub trait ConditionSystem<V, O>: Sized {
    spec fn ready(self) -> bool;

    spec fn evaluates(before: Self, at: EngineState<V, O>, after: Self, holds: bool) -> bool;

    fn eval(&mut self, world: &hecs::World, resources: &Resources<V, O>) -> (holds: bool)
        requires
            old(self).ready(),
            resources.wf(),
        ensures
            final(self).ready(),
            Self::evaluates(
                *old(self),
                (EngineState { world: *world, resources: resources@ }),
                *final(self),
                holds,
            ),
    ;
}

/// Whatever can be used as a condition: a condition itself, or a function
/// that returns `bool`. `Marker` tells the two apart.
pub trait IntoCondition<V, O, Marker>: Sized {
    type Condition: ConditionSystem<V, O>;

    /// What can be converted.
    spec fn convertible(self) -> bool;

    /// `condition` is what `self` becomes.
    spec fn becomes(self, condition: Self::Condition) -> bool;

    fn into_condition(self) -> (condition: Self::Condition)
        requires
            self.convertible(),
        ensures
            self.becomes(condition),
            condition.ready(),
    ;
}

/// The marker of what is a condition already.
pub struct BuiltinCondition;

/// A condition converts to itself, so that what [`not`], [`ConditionExt::and`]
/// and [`ConditionExt::or`] build can be nested.
impl<V, O, C: ConditionSystem<V, O>> IntoCondition<V, O, BuiltinCondition> for C {
    type Condition = C;

    open spec fn convertible(self) -> bool {
        self.ready()
    }

    open spec fn becomes(self, condition: C) -> bool {
        condition == self
    }

    fn into_condition(self) -> (condition: C) {
        self
    }
}

/// True while there is a resource of this type.
#[derive(Clone, Copy, PartialEq, Eq, Structural, Debug)]
pub struct ResourceExists {
    pub key: ResourceKey,
}

/// True while there is a resource of this type: guards a system on setup having
/// happened.
pub fn resource_exists(key: ResourceKey) -> (condition: ResourceExists)
    ensures
        condition == (ResourceExists { key }),
{
    ResourceExists { key }
}

impl<V, O> ConditionSystem<V, O> for ResourceExists {
    open spec fn ready(self) -> bool {
        true
    }

    /// The answer is whether the resource is there, and nothing changes.
    open spec fn evaluates(before: Self, at: EngineState<V, O>, after: Self, holds: bool) -> bool {
        &&& after == before
        &&& holds == at.resources.has(before.key)
    }

    fn eval(&mut self, _world: &hecs::World, resources: &Resources<V, O>) -> (holds: bool) {
        resources.contains(self.key)
    }
}

/// The inverse of a condition.
pub struct Not<C>(pub C);

/// Inverts a condition.
pub fn not<V, O, C, Marker>(condition: C) -> (inverse: Not<C::Condition>) where
    C: IntoCondition<V, O, Marker>,

    requires
        condition.convertible(),
    ensures
        condition.becomes(inverse.0),
        inverse.0.ready(),
{
    Not(condition.into_condition())
}

impl<V, O, C: ConditionSystem<V, O>> ConditionSystem<V, O> for Not<C> {
    open spec fn ready(self) -> bool {
        self.0.ready()
    }

    open spec fn evaluates(before: Self, at: EngineState<V, O>, after: Self, holds: bool) -> bool {
        C::evaluates(before.0, at, after.0, !holds)
    }

    fn eval(&mut self, world: &hecs::World, resources: &Resources<V, O>) -> (holds: bool) {
        !self.0.eval(world, resources)
    }
}

/// Both conditions hold. If the first does not, the second is not evaluated,
/// so a stateful second condition stays as it was.
pub struct And<A, B>(pub A, pub B);

impl<V, O, A: ConditionSystem<V, O>, B: ConditionSystem<V, O>> ConditionSystem<V, O> for And<A, B> {
    open spec fn ready(self) -> bool {
        self.0.ready() && self.1.ready()
    }

    open spec fn evaluates(before: Self, at: EngineState<V, O>, after: Self, holds: bool) -> bool {
        ||| !holds && A::evaluates(before.0, at, after.0, false) && after.1 == before.1
        ||| A::evaluates(before.0, at, after.0, true) && B::evaluates(
            before.1,
            at,
            after.1,
            holds,
        )
    }

    fn eval(&mut self, world: &hecs::World, resources: &Resources<V, O>) -> (holds: bool) {
        self.0.eval(world, resources) && self.1.eval(world, resources)
    }
}

/// At least one condition holds. If the first does, the second is not
/// evaluated, as with [`And`].
pub struct Or<A, B>(pub A, pub B);

impl<V, O, A: ConditionSystem<V, O>, B: ConditionSystem<V, O>> ConditionSystem<V, O> for Or<A, B> {
    open spec fn ready(self) -> bool {
        self.0.ready() && self.1.ready()
    }

    open spec fn evaluates(before: Self, at: EngineState<V, O>, after: Self, holds: bool) -> bool {
        ||| holds && A::evaluates(before.0, at, after.0, true) && after.1 == before.1
        ||| A::evaluates(before.0, at, after.0, false) && B::evaluates(
            before.1,
            at,
            after.1,
            holds,
        )
    }

    fn eval(&mut self, world: &hecs::World, resources: &Resources<V, O>) -> (holds: bool) {
        self.0.eval(world, resources) || self.1.eval(world, resources)
    }
}

/// Lets `.and(...)` and `.or(...)` be called on a condition to combine it
/// with another.
pub trait ConditionExt<V, O, Marker>: IntoCondition<V, O, Marker> {
    fn and<C2, M2>(self, other: C2) -> (both: And<Self::Condition, C2::Condition>) where
        C2: IntoCondition<V, O, M2>,

        requires
            self.convertible(),
            other.convertible(),
        ensures
            self.becomes(both.0),
            other.becomes(both.1),
            both.0.ready(),
            both.1.ready(),
    {
        And(self.into_condition(), other.into_condition())
    }

    fn or<C2, M2>(self, other: C2) -> (either: Or<Self::Condition, C2::Condition>) where
        C2: IntoCondition<V, O, M2>,

        requires
            self.convertible(),
            other.convertible(),
        ensures
            self.becomes(either.0),
            other.becomes(either.1),
            either.0.ready(),
            either.1.ready(),
    {
        Or(self.into_condition(), other.into_condition())
    }
}

impl<V, O, T, Marker> ConditionExt<V, O, Marker> for T where T: IntoCondition<V, O, Marker> {

}

/// A boxed condition is a condition, so that it can be combined like any
/// other.
impl<V, O, C: ConditionSystem<V, O>> ConditionSystem<V, O> for Box<C> {
    open spec fn ready(self) -> bool {
        (*self).ready()
    }

    open spec fn evaluates(before: Self, at: EngineState<V, O>, after: Self, holds: bool) -> bool {
        C::evaluates(*before, at, *after, holds)
    }

    fn eval(&mut self, world: &hecs::World, resources: &Resources<V, O>) -> (holds: bool) {
        (**self).eval(world, resources)
    }
}

// ---------------------------------------------------------------------------
// Laws
// ---------------------------------------------------------------------------

/// Inverting twice is the condition itself.
pub proof fn law_inverting_twice_is_the_condition<V, O, C: ConditionSystem<V, O>>(
    before: C,
    at: EngineState<V, O>,
    after: C,
    holds: bool,
)
    ensures
        <Not<Not<C>> as ConditionSystem<V, O>>::evaluates(
            Not(Not(before)),
            at,
            Not(Not(after)),
            holds,
        ) == C::evaluates(before, at, after, holds),
{
}

/// If the first condition does not hold, both do not, and the second stays as
/// it was: it is not evaluated.
pub proof fn law_and_stops_at_the_first_that_fails<
    V,
    O,
    A: ConditionSystem<V, O>,
    B: ConditionSystem<V, O>,
>(before: And<A, B>, at: EngineState<V, O>, after: And<A, B>, holds: bool)
    requires
        <And<A, B> as ConditionSystem<V, O>>::evaluates(before, at, after, holds),
        !A::evaluates(before.0, at, after.0, true),
    ensures
        !holds,
        after.1 == before.1,
{
}

/// If the first condition holds, one of them does, and the second stays as it
/// was: it is not evaluated.
pub proof fn law_or_stops_at_the_first_that_holds<
    V,
    O,
    A: ConditionSystem<V, O>,
    B: ConditionSystem<V, O>,
>(before: Or<A, B>, at: EngineState<V, O>, after: Or<A, B>, holds: bool)
    requires
        <Or<A, B> as ConditionSystem<V, O>>::evaluates(before, at, after, holds),
        !A::evaluates(before.0, at, after.0, false),
    ensures
        holds,
        after.1 == before.1,
{
}

/// Inverting both and the other way round: not both is either not.
pub proof fn law_not_both_is_either_not<
    V,
    O,
    A: ConditionSystem<V, O>,
    B: ConditionSystem<V, O>,
>(before: And<A, B>, at: EngineState<V, O>, after: And<A, B>, holds: bool)
    ensures
        <Not<And<A, B>> as ConditionSystem<V, O>>::evaluates(
            Not(before),
            at,
            Not(after),
            holds,
        ) == <Or<Not<A>, Not<B>> as ConditionSystem<V, O>>::evaluates(
            Or(Not(before.0), Not(before.1)),
            at,
            Or(Not(after.0), Not(after.1)),
            holds,
        ),
{
}

/// The answer of [`resource_exists`] is whether the resource is there: one of
/// the engine's own always is.
pub proof fn law_resource_exists_asks_the_resources<V, O>(
    before: ResourceExists,
    at: EngineState<V, O>,
    after: ResourceExists,
    holds: bool,
)
    requires
        <ResourceExists as ConditionSystem<V, O>>::evaluates(before, at, after, holds),
    ensures
        after == before,
        holds == match before.key {
            ResourceKey::AppExit => true,
            ResourceKey::BackendReady => true,
            ResourceKey::Events(key) => at.resources.events.dom().contains(key),
            ResourceKey::Custom(key) => at.resources.custom.dom().contains(key),
        },
{
}

/// The inverse holds exactly if the condition does not.
pub proof fn law_not_gives_the_opposite_answer<V, O, C: ConditionSystem<V, O>>(
    before: C,
    at: EngineState<V, O>,
    after: C,
    holds: bool,
)
    ensures
        <Not<C> as ConditionSystem<V, O>>::evaluates(Not(before), at, Not(after), !holds)
            == C::evaluates(before, at, after, holds),
{
}

/// Both hold only if each of them does. If not both hold, one of them was
/// found not to.
pub proof fn law_both_hold_only_if_each_does<
    V,
    O,
    A: ConditionSystem<V, O>,
    B: ConditionSystem<V, O>,
>(before: And<A, B>, at: EngineState<V, O>, after: And<A, B>, holds: bool)
    requires
        <And<A, B> as ConditionSystem<V, O>>::evaluates(before, at, after, holds),
    ensures
        holds ==> A::evaluates(before.0, at, after.0, true) && B::evaluates(
            before.1,
            at,
            after.1,
            true,
        ),
        !holds ==> A::evaluates(before.0, at, after.0, false) || (A::evaluates(
            before.0,
            at,
            after.0,
            true,
        ) && B::evaluates(before.1, at, after.1, false)),
{
}

/// One of two holds only if one of them was found to. If neither holds, each
/// of them was found not to.
pub proof fn law_neither_holds_only_if_both_fail<
    V,
    O,
    A: ConditionSystem<V, O>,
    B: ConditionSystem<V, O>,
>(before: Or<A, B>, at: EngineState<V, O>, after: Or<A, B>, holds: bool)
    requires
        <Or<A, B> as ConditionSystem<V, O>>::evaluates(before, at, after, holds),
    ensures
        !holds ==> A::evaluates(before.0, at, after.0, false) && B::evaluates(
            before.1,
            at,
            after.1,
            false,
        ),
        holds ==> A::evaluates(before.0, at, after.0, true) || (A::evaluates(
            before.0,
            at,
            after.0,
            false,
        ) && B::evaluates(before.1, at, after.1, true)),
{
}

/// A boxed condition answers as the condition in the box does, and a
/// combination can be evaluated exactly if its parts can.
pub proof fn law_boxes_and_combinations_are_conditions<
    V,
    O,
    A: ConditionSystem<V, O>,
    B: ConditionSystem<V, O>,
>(one: A, other: B, at: EngineState<V, O>, after: A, holds: bool)
    ensures
        <Box<A> as ConditionSystem<V, O>>::evaluates(Box::new(one), at, Box::new(after), holds)
            == A::evaluates(one, at, after, holds),
        <Not<A> as ConditionSystem<V, O>>::ready(Not(one)) == one.ready(),
        <And<A, B> as ConditionSystem<V, O>>::ready(And(one, other)) == (one.ready()
            && other.ready()),
        <Or<A, B> as ConditionSystem<V, O>>::ready(Or(one, other)) == (one.ready()
            && other.ready()),
{
}

/// [`resource_exists`] asks for the resource that it was given, and [`not`]
/// inverts the condition that it was given.
pub proof fn law_conditions_are_about_what_they_were_given<V, O, C, Marker>(
    key: ResourceKey,
    exists_now: ResourceExists,
    condition: C,
    inverse: Not<C::Condition>,
) where C: IntoCondition<V, O, Marker>
    requires
        call_ensures(resource_exists, (key,), exists_now),
        call_ensures(not::<V, O, C, Marker>, (condition,), inverse),
    ensures
        exists_now.key == key,
        condition.becomes(inverse.0),
        inverse.0.ready(),
{
}

/// A condition stays the one that it is when it is used as a condition.
pub proof fn law_a_condition_becomes_itself<V, O, C: ConditionSystem<V, O>>(one: C, other: C)
    ensures
        <C as IntoCondition<V, O, BuiltinCondition>>::becomes(one, other) <==> other == one,
        <C as IntoCondition<V, O, BuiltinCondition>>::convertible(one) <==> one.ready(),
{
}

} // verus!
