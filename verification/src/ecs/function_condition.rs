//! Functions as run conditions.
//!
//! Any function that returns `bool` and takes [`SystemParam`]s, eight at most,
//! is a condition.
use vstd::prelude::*;

use crate::ecs::condition::{ConditionSystem, IntoCondition};
use crate::ecs::resources::Resources;
use crate::ecs::system::EngineState;

verus! {

/// What a condition function can take as a parameter: something fetched from
/// the engine's state, or from the state that the condition keeps for it.
pub trait SystemParam<V, O> {
    /// What is kept between evaluations.
    type State: Default;

    /// What the function is given.
    type Item<'a>;

    /// `item` is what may be fetched while `kept` is the kept state.
    spec fn fetches<'a>(
        at: EngineState<V, O>,
        kept: Self::State,
        item: Self::Item<'a>,
    ) -> bool;

    fn fetch<'a>(
        world: &'a hecs::World,
        resources: &'a Resources<V, O>,
        state: &'a mut Self::State,
    ) -> (item: Self::Item<'a>)
        requires
            resources.wf(),
        ensures
            Self::fetches(
                (EngineState { world: *world, resources: resources@ }),
                *old(state),
                item,
            ),
    ;
}

/// State of one condition that persists between its evaluations.
pub struct Local<'s, T>(pub &'s mut T);

impl<'s, V, O, T: Default + 'static> SystemParam<V, O> for Local<'s, T> {
    type State = T;

    type Item<'a> = Local<'a, T>;

    /// The function works on the kept state itself.
    open spec fn fetches<'a>(
        at: EngineState<V, O>,
        kept: T,
        item: Local<'a, T>,
    ) -> bool {
        *item.0 == kept
    }

    fn fetch<'a>(
        _world: &'a hecs::World,
        _resources: &'a Resources<V, O>,
        state: &'a mut T,
    ) -> (item: Local<'a, T>) {
        Local(state)
    }
}

/// A look at the resources.
pub struct Shared<'s, V, O>(pub &'s Resources<V, O>);

impl<'s, V: 'static, O: 'static> SystemParam<V, O> for Shared<'s, V, O> {
    type State = ();

    type Item<'a> = Shared<'a, V, O>;

    /// The function sees the resources as they are.
    open spec fn fetches<'a>(
        at: EngineState<V, O>,
        kept: (),
        item: Shared<'a, V, O>,
    ) -> bool {
        item.0@ == at.resources && item.0.wf()
    }

    fn fetch<'a>(
        _world: &'a hecs::World,
        resources: &'a Resources<V, O>,
        _state: &'a mut (),
    ) -> (item: Shared<'a, V, O>) {
        Shared(resources)
    }
}

/// A predicate function as a [`ConditionSystem`], with the state of its
/// parameters kept between evaluations.
pub struct FunctionCondition<F, Marker, State = ()> {
    pub func: F,
    pub state: State,
    pub _marker: core::marker::PhantomData<Marker>,
}

impl<V, O, T> IntoCondition<V, O, ()> for T where
    T: FnMut() -> bool + 'static,
{
    type Condition = FunctionCondition<T, (), ()>;

    open spec fn convertible(self) -> bool {
        call_requires(self, ())
    }

    open spec fn becomes(self, condition: Self::Condition) -> bool {
        condition.func == self
    }

    fn into_condition(self) -> (condition: Self::Condition) {
        FunctionCondition { func: self, state: (), _marker: core::marker::PhantomData }
    }
}

impl<V, O, T> ConditionSystem<V, O> for FunctionCondition<T, (), ()> where
    T: FnMut() -> bool + 'static,
{
    open spec fn ready(self) -> bool {
        call_requires(self.func, ())
    }

    open spec fn evaluates(before: Self, at: EngineState<V, O>, after: Self, holds: bool) -> bool {
        call_ensures(before.func, (), holds)
    }

    fn eval(&mut self, _world: &hecs::World, _resources: &Resources<V, O>) -> (holds: bool) {
        (self.func)()
    }
}

impl<V, O, T, A> IntoCondition<V, O, (A,)> for T where
    T: FnMut(A) -> bool + for<'a> FnMut(A::Item<'a>) -> bool + 'static,
    A: SystemParam<V, O> + 'static,
{
    type Condition = FunctionCondition<T, (A,), (A::State,)>;

    open spec fn convertible(self) -> bool {
        forall|a: A::Item<'_>| #[trigger] call_requires(self, (a,))
    }

    open spec fn becomes(self, condition: Self::Condition) -> bool {
        &&& condition.func == self
        &&& call_ensures(A::State::default, (), condition.state.0)
    }

    fn into_condition(self) -> (condition: Self::Condition) {
        FunctionCondition {
            func: self,
            state: (A::State::default(),),
            _marker: core::marker::PhantomData,
        }
    }
}

impl<V, O, T, A> ConditionSystem<V, O> for FunctionCondition<T, (A,), (A::State,)> where
    T: FnMut(A) -> bool + for<'a> FnMut(A::Item<'a>) -> bool + 'static,
    A: SystemParam<V, O> + 'static,
{
    open spec fn ready(self) -> bool {
        forall|a: A::Item<'_>| #[trigger] call_requires(self.func, (a,))
    }

    open spec fn evaluates(before: Self, at: EngineState<V, O>, after: Self, holds: bool) -> bool {
        exists|a: A::Item<'_>|
            {
                &&& A::fetches(at, before.state.0, a)
                &&& #[trigger] call_ensures(before.func, (a,), holds)
            }
    }

    fn eval(&mut self, world: &hecs::World, resources: &Resources<V, O>) -> (holds: bool) {
        let a = A::fetch(world, resources, &mut self.state.0);
        (self.func)(a)
    }
}

impl<V, O, T, A, B> IntoCondition<V, O, (A, B)> for T where
    T: FnMut(A, B) -> bool + for<'a> FnMut(A::Item<'a>, B::Item<'a>) -> bool + 'static,
    A: SystemParam<V, O> + 'static,
    B: SystemParam<V, O> + 'static,
{
    type Condition = FunctionCondition<T, (A, B), (A::State, B::State)>;

    open spec fn convertible(self) -> bool {
        forall|a: A::Item<'_>, b: B::Item<'_>| #[trigger] call_requires(self, (a, b))
    }

    open spec fn becomes(self, condition: Self::Condition) -> bool {
        &&& condition.func == self
        &&& call_ensures(A::State::default, (), condition.state.0)
        &&& call_ensures(B::State::default, (), condition.state.1)
    }

    fn into_condition(self) -> (condition: Self::Condition) {
        FunctionCondition {
            func: self,
            state: (A::State::default(), B::State::default()),
            _marker: core::marker::PhantomData,
        }
    }
}

impl<V, O, T, A, B> ConditionSystem<V, O> for FunctionCondition<T, (A, B), (A::State, B::State)> where
    T: FnMut(A, B) -> bool + for<'a> FnMut(A::Item<'a>, B::Item<'a>) -> bool + 'static,
    A: SystemParam<V, O> + 'static,
    B: SystemParam<V, O> + 'static,
{
    open spec fn ready(self) -> bool {
        forall|a: A::Item<'_>, b: B::Item<'_>| #[trigger] call_requires(self.func, (a, b))
    }

    open spec fn evaluates(before: Self, at: EngineState<V, O>, after: Self, holds: bool) -> bool {
        exists|a: A::Item<'_>, b: B::Item<'_>|
            {
                &&& A::fetches(at, before.state.0, a)
                &&& B::fetches(at, before.state.1, b)
                &&& #[trigger] call_ensures(before.func, (a, b), holds)
            }
    }

    fn eval(&mut self, world: &hecs::World, resources: &Resources<V, O>) -> (holds: bool) {
        let a = A::fetch(world, resources, &mut self.state.0);
        let b = B::fetch(world, resources, &mut self.state.1);
        (self.func)(a, b)
    }
}

impl<V, O, T, A, B, C> IntoCondition<V, O, (A, B, C)> for T where
    T: FnMut(A, B, C) -> bool
        + for<'a> FnMut(A::Item<'a>, B::Item<'a>, C::Item<'a>) -> bool
        + 'static,
    A: SystemParam<V, O> + 'static,
    B: SystemParam<V, O> + 'static,
    C: SystemParam<V, O> + 'static,
{
    type Condition = FunctionCondition<T, (A, B, C), (A::State, B::State, C::State)>;

    open spec fn convertible(self) -> bool {
        forall|a: A::Item<'_>, b: B::Item<'_>, c: C::Item<'_>| #[trigger]
            call_requires(self, (a, b, c))
    }

    open spec fn becomes(self, condition: Self::Condition) -> bool {
        &&& condition.func == self
        &&& call_ensures(A::State::default, (), condition.state.0)
        &&& call_ensures(B::State::default, (), condition.state.1)
        &&& call_ensures(C::State::default, (), condition.state.2)
    }

    fn into_condition(self) -> (condition: Self::Condition) {
        FunctionCondition {
            func: self,
            state: (A::State::default(), B::State::default(), C::State::default()),
            _marker: core::marker::PhantomData,
        }
    }
}

impl<V, O, T, A, B, C> ConditionSystem<V, O> for FunctionCondition<
    T,
    (A, B, C),
    (A::State, B::State, C::State),
> where
    T: FnMut(A, B, C) -> bool
        + for<'a> FnMut(A::Item<'a>, B::Item<'a>, C::Item<'a>) -> bool
        + 'static,
    A: SystemParam<V, O> + 'static,
    B: SystemParam<V, O> + 'static,
    C: SystemParam<V, O> + 'static,
{
    open spec fn ready(self) -> bool {
        forall|a: A::Item<'_>, b: B::Item<'_>, c: C::Item<'_>| #[trigger]
            call_requires(self.func, (a, b, c))
    }

    open spec fn evaluates(before: Self, at: EngineState<V, O>, after: Self, holds: bool) -> bool {
        exists|a: A::Item<'_>, b: B::Item<'_>, c: C::Item<'_>|
            {
                &&& A::fetches(at, before.state.0, a)
                &&& B::fetches(at, before.state.1, b)
                &&& C::fetches(at, before.state.2, c)
                &&& #[trigger] call_ensures(before.func, (a, b, c), holds)
            }
    }

    fn eval(&mut self, world: &hecs::World, resources: &Resources<V, O>) -> (holds: bool) {
        let a = A::fetch(world, resources, &mut self.state.0);
        let b = B::fetch(world, resources, &mut self.state.1);
        let c = C::fetch(world, resources, &mut self.state.2);
        (self.func)(a, b, c)
    }
}

impl<V, O, T, A, B, C, D> IntoCondition<V, O, (A, B, C, D)> for T where
    T: FnMut(A, B, C, D) -> bool
        + for<'a> FnMut(A::Item<'a>, B::Item<'a>, C::Item<'a>, D::Item<'a>) -> bool
        + 'static,
    A: SystemParam<V, O> + 'static,
    B: SystemParam<V, O> + 'static,
    C: SystemParam<V, O> + 'static,
    D: SystemParam<V, O> + 'static,
{
    type Condition = FunctionCondition<T, (A, B, C, D), (A::State, B::State, C::State, D::State)>;

    open spec fn convertible(self) -> bool {
        forall|a: A::Item<'_>, b: B::Item<'_>, c: C::Item<'_>, d: D::Item<'_>| #[trigger]
            call_requires(self, (a, b, c, d))
    }

    open spec fn becomes(self, condition: Self::Condition) -> bool {
        &&& condition.func == self
        &&& call_ensures(A::State::default, (), condition.state.0)
        &&& call_ensures(B::State::default, (), condition.state.1)
        &&& call_ensures(C::State::default, (), condition.state.2)
        &&& call_ensures(D::State::default, (), condition.state.3)
    }

    fn into_condition(self) -> (condition: Self::Condition) {
        FunctionCondition {
            func: self,
            state: (A::State::default(), B::State::default(), C::State::default(), D::State::default()),
            _marker: core::marker::PhantomData,
        }
    }
}

impl<V, O, T, A, B, C, D> ConditionSystem<V, O> for FunctionCondition<
    T,
    (A, B, C, D),
    (A::State, B::State, C::State, D::State),
> where
    T: FnMut(A, B, C, D) -> bool
        + for<'a> FnMut(A::Item<'a>, B::Item<'a>, C::Item<'a>, D::Item<'a>) -> bool
        + 'static,
    A: SystemParam<V, O> + 'static,
    B: SystemParam<V, O> + 'static,
    C: SystemParam<V, O> + 'static,
    D: SystemParam<V, O> + 'static,
{
    open spec fn ready(self) -> bool {
        forall|a: A::Item<'_>, b: B::Item<'_>, c: C::Item<'_>, d: D::Item<'_>| #[trigger]
            call_requires(self.func, (a, b, c, d))
    }

    open spec fn evaluates(before: Self, at: EngineState<V, O>, after: Self, holds: bool) -> bool {
        exists|a: A::Item<'_>, b: B::Item<'_>, c: C::Item<'_>, d: D::Item<'_>|
            {
                &&& A::fetches(at, before.state.0, a)
                &&& B::fetches(at, before.state.1, b)
                &&& C::fetches(at, before.state.2, c)
                &&& D::fetches(at, before.state.3, d)
                &&& #[trigger] call_ensures(before.func, (a, b, c, d), holds)
            }
    }

    fn eval(&mut self, world: &hecs::World, resources: &Resources<V, O>) -> (holds: bool) {
        let a = A::fetch(world, resources, &mut self.state.0);
        let b = B::fetch(world, resources, &mut self.state.1);
        let c = C::fetch(world, resources, &mut self.state.2);
        let d = D::fetch(world, resources, &mut self.state.3);
        (self.func)(a, b, c, d)
    }
}

impl<V, O, T, A, B, C, D, E> IntoCondition<V, O, (A, B, C, D, E)> for T where
    T: FnMut(A, B, C, D, E) -> bool
        + for<'a> FnMut(A::Item<'a>, B::Item<'a>, C::Item<'a>, D::Item<'a>, E::Item<'a>) -> bool
        + 'static,
    A: SystemParam<V, O> + 'static,
    B: SystemParam<V, O> + 'static,
    C: SystemParam<V, O> + 'static,
    D: SystemParam<V, O> + 'static,
    E: SystemParam<V, O> + 'static,
{
    type Condition = FunctionCondition<
        T,
        (A, B, C, D, E),
        (A::State, B::State, C::State, D::State, E::State),
    >;

    open spec fn convertible(self) -> bool {
        forall|
            a: A::Item<'_>,
            b: B::Item<'_>,
            c: C::Item<'_>,
            d: D::Item<'_>,
            e: E::Item<'_>,
        | #[trigger]
            call_requires(self, (a, b, c, d, e))
    }

    open spec fn becomes(self, condition: Self::Condition) -> bool {
        &&& condition.func == self
        &&& call_ensures(A::State::default, (), condition.state.0)
        &&& call_ensures(B::State::default, (), condition.state.1)
        &&& call_ensures(C::State::default, (), condition.state.2)
        &&& call_ensures(D::State::default, (), condition.state.3)
        &&& call_ensures(E::State::default, (), condition.state.4)
    }

    fn into_condition(self) -> (condition: Self::Condition) {
        FunctionCondition {
            func: self,
            state: (
                A::State::default(),
                B::State::default(),
                C::State::default(),
                D::State::default(),
                E::State::default(),
            ),
            _marker: core::marker::PhantomData,
        }
    }
}

impl<V, O, T, A, B, C, D, E> ConditionSystem<V, O> for FunctionCondition<
    T,
    (A, B, C, D, E),
    (A::State, B::State, C::State, D::State, E::State),
> where
    T: FnMut(A, B, C, D, E) -> bool
        + for<'a> FnMut(A::Item<'a>, B::Item<'a>, C::Item<'a>, D::Item<'a>, E::Item<'a>) -> bool
        + 'static,
    A: SystemParam<V, O> + 'static,
    B: SystemParam<V, O> + 'static,
    C: SystemParam<V, O> + 'static,
    D: SystemParam<V, O> + 'static,
    E: SystemParam<V, O> + 'static,
{
    open spec fn ready(self) -> bool {
        forall|
            a: A::Item<'_>,
            b: B::Item<'_>,
            c: C::Item<'_>,
            d: D::Item<'_>,
            e: E::Item<'_>,
        | #[trigger]
            call_requires(self.func, (a, b, c, d, e))
    }

    open spec fn evaluates(before: Self, at: EngineState<V, O>, after: Self, holds: bool) -> bool {
        exists|
            a: A::Item<'_>,
            b: B::Item<'_>,
            c: C::Item<'_>,
            d: D::Item<'_>,
            e: E::Item<'_>,
        |
            {
                &&& A::fetches(at, before.state.0, a)
                &&& B::fetches(at, before.state.1, b)
                &&& C::fetches(at, before.state.2, c)
                &&& D::fetches(at, before.state.3, d)
                &&& E::fetches(at, before.state.4, e)
                &&& #[trigger] call_ensures(before.func, (a, b, c, d, e), holds)
            }
    }

    fn eval(&mut self, world: &hecs::World, resources: &Resources<V, O>) -> (holds: bool) {
        let a = A::fetch(world, resources, &mut self.state.0);
        let b = B::fetch(world, resources, &mut self.state.1);
        let c = C::fetch(world, resources, &mut self.state.2);
        let d = D::fetch(world, resources, &mut self.state.3);
        let e = E::fetch(world, resources, &mut self.state.4);
        (self.func)(a, b, c, d, e)
    }
}

impl<V, O, T, A, B, C, D, E, F> IntoCondition<V, O, (A, B, C, D, E, F)> for T where
    T: FnMut(A, B, C, D, E, F) -> bool
        + for<'a> FnMut(
            A::Item<'a>,
            B::Item<'a>,
            C::Item<'a>,
            D::Item<'a>,
            E::Item<'a>,
            F::Item<'a>,
        ) -> bool
        + 'static,
    A: SystemParam<V, O> + 'static,
    B: SystemParam<V, O> + 'static,
    C: SystemParam<V, O> + 'static,
    D: SystemParam<V, O> + 'static,
    E: SystemParam<V, O> + 'static,
    F: SystemParam<V, O> + 'static,
{
    type Condition = FunctionCondition<
        T,
        (A, B, C, D, E, F),
        (A::State, B::State, C::State, D::State, E::State, F::State),
    >;

    open spec fn convertible(self) -> bool {
        forall|
            a: A::Item<'_>,
            b: B::Item<'_>,
            c: C::Item<'_>,
            d: D::Item<'_>,
            e: E::Item<'_>,
            f: F::Item<'_>,
        | #[trigger]
            call_requires(self, (a, b, c, d, e, f))
    }

    open spec fn becomes(self, condition: Self::Condition) -> bool {
        &&& condition.func == self
        &&& call_ensures(A::State::default, (), condition.state.0)
        &&& call_ensures(B::State::default, (), condition.state.1)
        &&& call_ensures(C::State::default, (), condition.state.2)
        &&& call_ensures(D::State::default, (), condition.state.3)
        &&& call_ensures(E::State::default, (), condition.state.4)
        &&& call_ensures(F::State::default, (), condition.state.5)
    }

    fn into_condition(self) -> (condition: Self::Condition) {
        FunctionCondition {
            func: self,
            state: (
                A::State::default(),
                B::State::default(),
                C::State::default(),
                D::State::default(),
                E::State::default(),
                F::State::default(),
            ),
            _marker: core::marker::PhantomData,
        }
    }
}

impl<V, O, T, A, B, C, D, E, F> ConditionSystem<V, O> for FunctionCondition<
    T,
    (A, B, C, D, E, F),
    (A::State, B::State, C::State, D::State, E::State, F::State),
> where
    T: FnMut(A, B, C, D, E, F) -> bool
        + for<'a> FnMut(
            A::Item<'a>,
            B::Item<'a>,
            C::Item<'a>,
            D::Item<'a>,
            E::Item<'a>,
            F::Item<'a>,
        ) -> bool
        + 'static,
    A: SystemParam<V, O> + 'static,
    B: SystemParam<V, O> + 'static,
    C: SystemParam<V, O> + 'static,
    D: SystemParam<V, O> + 'static,
    E: SystemParam<V, O> + 'static,
    F: SystemParam<V, O> + 'static,
{
    open spec fn ready(self) -> bool {
        forall|
            a: A::Item<'_>,
            b: B::Item<'_>,
            c: C::Item<'_>,
            d: D::Item<'_>,
            e: E::Item<'_>,
            f: F::Item<'_>,
        | #[trigger]
            call_requires(self.func, (a, b, c, d, e, f))
    }

    open spec fn evaluates(before: Self, at: EngineState<V, O>, after: Self, holds: bool) -> bool {
        exists|
            a: A::Item<'_>,
            b: B::Item<'_>,
            c: C::Item<'_>,
            d: D::Item<'_>,
            e: E::Item<'_>,
            f: F::Item<'_>,
        |
            {
                &&& A::fetches(at, before.state.0, a)
                &&& B::fetches(at, before.state.1, b)
                &&& C::fetches(at, before.state.2, c)
                &&& D::fetches(at, before.state.3, d)
                &&& E::fetches(at, before.state.4, e)
                &&& F::fetches(at, before.state.5, f)
                &&& #[trigger] call_ensures(before.func, (a, b, c, d, e, f), holds)
            }
    }

    fn eval(&mut self, world: &hecs::World, resources: &Resources<V, O>) -> (holds: bool) {
        let a = A::fetch(world, resources, &mut self.state.0);
        let b = B::fetch(world, resources, &mut self.state.1);
        let c = C::fetch(world, resources, &mut self.state.2);
        let d = D::fetch(world, resources, &mut self.state.3);
        let e = E::fetch(world, resources, &mut self.state.4);
        let f = F::fetch(world, resources, &mut self.state.5);
        (self.func)(a, b, c, d, e, f)
    }
}

impl<V, O, T, A, B, C, D, E, F, G> IntoCondition<V, O, (A, B, C, D, E, F, G)> for T where
    T: FnMut(A, B, C, D, E, F, G) -> bool
        + for<'a> FnMut(
            A::Item<'a>,
            B::Item<'a>,
            C::Item<'a>,
            D::Item<'a>,
            E::Item<'a>,
            F::Item<'a>,
            G::Item<'a>,
        ) -> bool
        + 'static,
    A: SystemParam<V, O> + 'static,
    B: SystemParam<V, O> + 'static,
    C: SystemParam<V, O> + 'static,
    D: SystemParam<V, O> + 'static,
    E: SystemParam<V, O> + 'static,
    F: SystemParam<V, O> + 'static,
    G: SystemParam<V, O> + 'static,
{
    type Condition = FunctionCondition<
        T,
        (A, B, C, D, E, F, G),
        (A::State, B::State, C::State, D::State, E::State, F::State, G::State),
    >;

    open spec fn convertible(self) -> bool {
        forall|
            a: A::Item<'_>,
            b: B::Item<'_>,
            c: C::Item<'_>,
            d: D::Item<'_>,
            e: E::Item<'_>,
            f: F::Item<'_>,
            g: G::Item<'_>,
        | #[trigger]
            call_requires(self, (a, b, c, d, e, f, g))
    }

    open spec fn becomes(self, condition: Self::Condition) -> bool {
        &&& condition.func == self
        &&& call_ensures(A::State::default, (), condition.state.0)
        &&& call_ensures(B::State::default, (), condition.state.1)
        &&& call_ensures(C::State::default, (), condition.state.2)
        &&& call_ensures(D::State::default, (), condition.state.3)
        &&& call_ensures(E::State::default, (), condition.state.4)
        &&& call_ensures(F::State::default, (), condition.state.5)
        &&& call_ensures(G::State::default, (), condition.state.6)
    }

    fn into_condition(self) -> (condition: Self::Condition) {
        FunctionCondition {
            func: self,
            state: (
                A::State::default(),
                B::State::default(),
                C::State::default(),
                D::State::default(),
                E::State::default(),
                F::State::default(),
                G::State::default(),
            ),
            _marker: core::marker::PhantomData,
        }
    }
}

impl<V, O, T, A, B, C, D, E, F, G> ConditionSystem<V, O> for FunctionCondition<
    T,
    (A, B, C, D, E, F, G),
    (A::State, B::State, C::State, D::State, E::State, F::State, G::State),
> where
    T: FnMut(A, B, C, D, E, F, G) -> bool
        + for<'a> FnMut(
            A::Item<'a>,
            B::Item<'a>,
            C::Item<'a>,
            D::Item<'a>,
            E::Item<'a>,
            F::Item<'a>,
            G::Item<'a>,
        ) -> bool
        + 'static,
    A: SystemParam<V, O> + 'static,
    B: SystemParam<V, O> + 'static,
    C: SystemParam<V, O> + 'static,
    D: SystemParam<V, O> + 'static,
    E: SystemParam<V, O> + 'static,
    F: SystemParam<V, O> + 'static,
    G: SystemParam<V, O> + 'static,
{
    open spec fn ready(self) -> bool {
        forall|
            a: A::Item<'_>,
            b: B::Item<'_>,
            c: C::Item<'_>,
            d: D::Item<'_>,
            e: E::Item<'_>,
            f: F::Item<'_>,
            g: G::Item<'_>,
        | #[trigger]
            call_requires(self.func, (a, b, c, d, e, f, g))
    }

    open spec fn evaluates(before: Self, at: EngineState<V, O>, after: Self, holds: bool) -> bool {
        exists|
            a: A::Item<'_>,
            b: B::Item<'_>,
            c: C::Item<'_>,
            d: D::Item<'_>,
            e: E::Item<'_>,
            f: F::Item<'_>,
            g: G::Item<'_>,
        |
            {
                &&& A::fetches(at, before.state.0, a)
                &&& B::fetches(at, before.state.1, b)
                &&& C::fetches(at, before.state.2, c)
                &&& D::fetches(at, before.state.3, d)
                &&& E::fetches(at, before.state.4, e)
                &&& F::fetches(at, before.state.5, f)
                &&& G::fetches(at, before.state.6, g)
                &&& #[trigger] call_ensures(before.func, (a, b, c, d, e, f, g), holds)
            }
    }

    fn eval(&mut self, world: &hecs::World, resources: &Resources<V, O>) -> (holds: bool) {
        let a = A::fetch(world, resources, &mut self.state.0);
        let b = B::fetch(world, resources, &mut self.state.1);
        let c = C::fetch(world, resources, &mut self.state.2);
        let d = D::fetch(world, resources, &mut self.state.3);
        let e = E::fetch(world, resources, &mut self.state.4);
        let f = F::fetch(world, resources, &mut self.state.5);
        let g = G::fetch(world, resources, &mut self.state.6);
        (self.func)(a, b, c, d, e, f, g)
    }
}

impl<V, O, T, A, B, C, D, E, F, G, H> IntoCondition<V, O, (A, B, C, D, E, F, G, H)> for T where
    T: FnMut(A, B, C, D, E, F, G, H) -> bool
        + for<'a> FnMut(
            A::Item<'a>,
            B::Item<'a>,
            C::Item<'a>,
            D::Item<'a>,
            E::Item<'a>,
            F::Item<'a>,
            G::Item<'a>,
            H::Item<'a>,
        ) -> bool
        + 'static,
    A: SystemParam<V, O> + 'static,
    B: SystemParam<V, O> + 'static,
    C: SystemParam<V, O> + 'static,
    D: SystemParam<V, O> + 'static,
    E: SystemParam<V, O> + 'static,
    F: SystemParam<V, O> + 'static,
    G: SystemParam<V, O> + 'static,
    H: SystemParam<V, O> + 'static,
{
    type Condition = FunctionCondition<
        T,
        (A, B, C, D, E, F, G, H),
        (A::State, B::State, C::State, D::State, E::State, F::State, G::State, H::State),
    >;

    open spec fn convertible(self) -> bool {
        forall|
            a: A::Item<'_>,
            b: B::Item<'_>,
            c: C::Item<'_>,
            d: D::Item<'_>,
            e: E::Item<'_>,
            f: F::Item<'_>,
            g: G::Item<'_>,
            h: H::Item<'_>,
        | #[trigger]
            call_requires(self, (a, b, c, d, e, f, g, h))
    }

    open spec fn becomes(self, condition: Self::Condition) -> bool {
        &&& condition.func == self
        &&& call_ensures(A::State::default, (), condition.state.0)
        &&& call_ensures(B::State::default, (), condition.state.1)
        &&& call_ensures(C::State::default, (), condition.state.2)
        &&& call_ensures(D::State::default, (), condition.state.3)
        &&& call_ensures(E::State::default, (), condition.state.4)
        &&& call_ensures(F::State::default, (), condition.state.5)
        &&& call_ensures(G::State::default, (), condition.state.6)
        &&& call_ensures(H::State::default, (), condition.state.7)
    }

    fn into_condition(self) -> (condition: Self::Condition) {
        FunctionCondition {
            func: self,
            state: (
                A::State::default(),
                B::State::default(),
                C::State::default(),
                D::State::default(),
                E::State::default(),
                F::State::default(),
                G::State::default(),
                H::State::default(),
            ),
            _marker: core::marker::PhantomData,
        }
    }
}

impl<V, O, T, A, B, C, D, E, F, G, H> ConditionSystem<V, O> for FunctionCondition<
    T,
    (A, B, C, D, E, F, G, H),
    (A::State, B::State, C::State, D::State, E::State, F::State, G::State, H::State),
> where
    T: FnMut(A, B, C, D, E, F, G, H) -> bool
        + for<'a> FnMut(
            A::Item<'a>,
            B::Item<'a>,
            C::Item<'a>,
            D::Item<'a>,
            E::Item<'a>,
            F::Item<'a>,
            G::Item<'a>,
            H::Item<'a>,
        ) -> bool
        + 'static,
    A: SystemParam<V, O> + 'static,
    B: SystemParam<V, O> + 'static,
    C: SystemParam<V, O> + 'static,
    D: SystemParam<V, O> + 'static,
    E: SystemParam<V, O> + 'static,
    F: SystemParam<V, O> + 'static,
    G: SystemParam<V, O> + 'static,
    H: SystemParam<V, O> + 'static,
{
    open spec fn ready(self) -> bool {
        forall|
            a: A::Item<'_>,
            b: B::Item<'_>,
            c: C::Item<'_>,
            d: D::Item<'_>,
            e: E::Item<'_>,
            f: F::Item<'_>,
            g: G::Item<'_>,
            h: H::Item<'_>,
        | #[trigger]
            call_requires(self.func, (a, b, c, d, e, f, g, h))
    }

    open spec fn evaluates(before: Self, at: EngineState<V, O>, after: Self, holds: bool) -> bool {
        exists|
            a: A::Item<'_>,
            b: B::Item<'_>,
            c: C::Item<'_>,
            d: D::Item<'_>,
            e: E::Item<'_>,
            f: F::Item<'_>,
            g: G::Item<'_>,
            h: H::Item<'_>,
        |
            {
                &&& A::fetches(at, before.state.0, a)
                &&& B::fetches(at, before.state.1, b)
                &&& C::fetches(at, before.state.2, c)
                &&& D::fetches(at, before.state.3, d)
                &&& E::fetches(at, before.state.4, e)
                &&& F::fetches(at, before.state.5, f)
                &&& G::fetches(at, before.state.6, g)
                &&& H::fetches(at, before.state.7, h)
                &&& #[trigger] call_ensures(before.func, (a, b, c, d, e, f, g, h), holds)
            }
    }

    fn eval(&mut self, world: &hecs::World, resources: &Resources<V, O>) -> (holds: bool) {
        let a = A::fetch(world, resources, &mut self.state.0);
        let b = B::fetch(world, resources, &mut self.state.1);
        let c = C::fetch(world, resources, &mut self.state.2);
        let d = D::fetch(world, resources, &mut self.state.3);
        let e = E::fetch(world, resources, &mut self.state.4);
        let f = F::fetch(world, resources, &mut self.state.5);
        let g = G::fetch(world, resources, &mut self.state.6);
        let h = H::fetch(world, resources, &mut self.state.7);
        (self.func)(a, b, c, d, e, f, g, h)
    }
}

// ---------------------------------------------------------------------------
// Laws
// ---------------------------------------------------------------------------

/// A function that keeps state works on the state kept for it, and one that
/// looks at the resources sees them as they are.
pub proof fn law_what_functions_are_given<'s, V: 'static, O: 'static, T: Default + 'static>(
    at: EngineState<V, O>,
    kept: T,
    local: Local<'s, T>,
    shared: Shared<'s, V, O>,
)
    ensures
        <Local<'s, T> as SystemParam<V, O>>::fetches(at, kept, local) <==> *old(local.0) == kept,
        <Shared<'s, V, O> as SystemParam<V, O>>::fetches(at, (), shared) ==> shared.0@
            == at.resources && shared.0.wf(),
{
}

/// A condition that is a function of no parameter gives the answer that the
/// function gives: where that can only be one answer, it is
/// this one.
pub proof fn law_the_answer_is_that_of_the_function_with_no<V, O, T>(
    before: FunctionCondition<T, (), ()>,
    at: EngineState<V, O>,
    after: FunctionCondition<T, (), ()>,
    holds: bool,
    answer: bool,
) where
    T: FnMut() -> bool + 'static,

    requires
        <FunctionCondition<T, (), ()> as ConditionSystem<V, O>>::evaluates(
            before,
            at,
            after,
            holds,
        ),
        forall|returned: bool| #[trigger]
            call_ensures(before.func, (), returned) ==> returned == answer,
    ensures
        holds == answer,
{
}

/// A condition that is a function of one parameter gives the answer that the
/// function gives on what is fetched for it: where that can only be one answer, it is
/// this one.
pub proof fn law_the_answer_is_that_of_the_function_with_one<V, O, T, A>(
    before: FunctionCondition<T, (A,), (A::State,)>,
    at: EngineState<V, O>,
    after: FunctionCondition<T, (A,), (A::State,)>,
    holds: bool,
    answer: bool,
) where
    T: FnMut(A) -> bool
        + for<'a> FnMut(A::Item<'a>) -> bool
        + 'static,
    A: SystemParam<V, O> + 'static,

    requires
        <FunctionCondition<T, (A,), (A::State,)> as ConditionSystem<V, O>>::evaluates(
            before,
            at,
            after,
            holds,
        ),
        forall|
            a: A::Item<'_>,
            returned: bool,
        |
            {
                &&& A::fetches(at, before.state.0, a)
                &&& #[trigger] call_ensures(before.func, (a,), returned)
            } ==> returned == answer,
    ensures
        holds == answer,
{
}

/// A condition that is a function of two parameters gives the answer that the
/// function gives on what is fetched for it: where that can only be one answer, it is
/// this one.
pub proof fn law_the_answer_is_that_of_the_function_with_two<V, O, T, A, B>(
    before: FunctionCondition<T, (A, B), (A::State, B::State)>,
    at: EngineState<V, O>,
    after: FunctionCondition<T, (A, B), (A::State, B::State)>,
    holds: bool,
    answer: bool,
) where
    T: FnMut(A, B) -> bool
        + for<'a> FnMut(A::Item<'a>, B::Item<'a>) -> bool
        + 'static,
    A: SystemParam<V, O> + 'static,
    B: SystemParam<V, O> + 'static,

    requires
        <FunctionCondition<T, (A, B), (A::State, B::State)> as ConditionSystem<V, O>>::evaluates(
            before,
            at,
            after,
            holds,
        ),
        forall|
            a: A::Item<'_>,
            b: B::Item<'_>,
            returned: bool,
        |
            {
                &&& A::fetches(at, before.state.0, a)
                &&& B::fetches(at, before.state.1, b)
                &&& #[trigger] call_ensures(before.func, (a, b), returned)
            } ==> returned == answer,
    ensures
        holds == answer,
{
}

/// A condition that is a function of three parameters gives the answer that the
/// function gives on what is fetched for it: where that can only be one answer, it is
/// this one.
pub proof fn law_the_answer_is_that_of_the_function_with_three<V, O, T, A, B, C>(
    before: FunctionCondition<T, (A, B, C), (A::State, B::State, C::State)>,
    at: EngineState<V, O>,
    after: FunctionCondition<T, (A, B, C), (A::State, B::State, C::State)>,
    holds: bool,
    answer: bool,
) where
    T: FnMut(A, B, C) -> bool
        + for<'a> FnMut(A::Item<'a>, B::Item<'a>, C::Item<'a>) -> bool
        + 'static,
    A: SystemParam<V, O> + 'static,
    B: SystemParam<V, O> + 'static,
    C: SystemParam<V, O> + 'static,

    requires
        <FunctionCondition<T, (A, B, C), (A::State, B::State, C::State)> as ConditionSystem<V, O>>::evaluates(
            before,
            at,
            after,
            holds,
        ),
        forall|
            a: A::Item<'_>,
            b: B::Item<'_>,
            c: C::Item<'_>,
            returned: bool,
        |
            {
                &&& A::fetches(at, before.state.0, a)
                &&& B::fetches(at, before.state.1, b)
                &&& C::fetches(at, before.state.2, c)
                &&& #[trigger] call_ensures(before.func, (a, b, c), returned)
            } ==> returned == answer,
    ensures
        holds == answer,
{
}

/// A condition that is a function of four parameters gives the answer that the
/// function gives on what is fetched for it: where that can only be one answer, it is
/// this one.
pub proof fn law_the_answer_is_that_of_the_function_with_four<V, O, T, A, B, C, D>(
    before: FunctionCondition<T, (A, B, C, D), (A::State, B::State, C::State, D::State)>,
    at: EngineState<V, O>,
    after: FunctionCondition<T, (A, B, C, D), (A::State, B::State, C::State, D::State)>,
    holds: bool,
    answer: bool,
) where
    T: FnMut(A, B, C, D) -> bool
        + for<'a> FnMut(A::Item<'a>, B::Item<'a>, C::Item<'a>, D::Item<'a>) -> bool
        + 'static,
    A: SystemParam<V, O> + 'static,
    B: SystemParam<V, O> + 'static,
    C: SystemParam<V, O> + 'static,
    D: SystemParam<V, O> + 'static,

    requires
        <FunctionCondition<T, (A, B, C, D), (A::State, B::State, C::State, D::State)> as ConditionSystem<V, O>>::evaluates(
            before,
            at,
            after,
            holds,
        ),
        forall|
            a: A::Item<'_>,
            b: B::Item<'_>,
            c: C::Item<'_>,
            d: D::Item<'_>,
            returned: bool,
        |
            {
                &&& A::fetches(at, before.state.0, a)
                &&& B::fetches(at, before.state.1, b)
                &&& C::fetches(at, before.state.2, c)
                &&& D::fetches(at, before.state.3, d)
                &&& #[trigger] call_ensures(before.func, (a, b, c, d), returned)
            } ==> returned == answer,
    ensures
        holds == answer,
{
}

/// A condition that is a function of five parameters gives the answer that the
/// function gives on what is fetched for it: where that can only be one answer, it is
/// this one.
pub proof fn law_the_answer_is_that_of_the_function_with_five<V, O, T, A, B, C, D, E>(
    before: FunctionCondition<T, (A, B, C, D, E), (A::State, B::State, C::State, D::State, E::State)>,
    at: EngineState<V, O>,
    after: FunctionCondition<T, (A, B, C, D, E), (A::State, B::State, C::State, D::State, E::State)>,
    holds: bool,
    answer: bool,
) where
    T: FnMut(A, B, C, D, E) -> bool
        + for<'a> FnMut(A::Item<'a>, B::Item<'a>, C::Item<'a>, D::Item<'a>, E::Item<'a>) -> bool
        + 'static,
    A: SystemParam<V, O> + 'static,
    B: SystemParam<V, O> + 'static,
    C: SystemParam<V, O> + 'static,
    D: SystemParam<V, O> + 'static,
    E: SystemParam<V, O> + 'static,

    requires
        <FunctionCondition<T, (A, B, C, D, E), (A::State, B::State, C::State, D::State, E::State)> as ConditionSystem<V, O>>::evaluates(
            before,
            at,
            after,
            holds,
        ),
        forall|
            a: A::Item<'_>,
            b: B::Item<'_>,
            c: C::Item<'_>,
            d: D::Item<'_>,
            e: E::Item<'_>,
            returned: bool,
        |
            {
                &&& A::fetches(at, before.state.0, a)
                &&& B::fetches(at, before.state.1, b)
                &&& C::fetches(at, before.state.2, c)
                &&& D::fetches(at, before.state.3, d)
                &&& E::fetches(at, before.state.4, e)
                &&& #[trigger] call_ensures(before.func, (a, b, c, d, e), returned)
            } ==> returned == answer,
    ensures
        holds == answer,
{
}

/// A condition that is a function of six parameters gives the answer that the
/// function gives on what is fetched for it: where that can only be one answer, it is
/// this one.
pub proof fn law_the_answer_is_that_of_the_function_with_six<V, O, T, A, B, C, D, E, F>(
    before: FunctionCondition<T, (A, B, C, D, E, F), (A::State, B::State, C::State, D::State, E::State, F::State)>,
    at: EngineState<V, O>,
    after: FunctionCondition<T, (A, B, C, D, E, F), (A::State, B::State, C::State, D::State, E::State, F::State)>,
    holds: bool,
    answer: bool,
) where
    T: FnMut(A, B, C, D, E, F) -> bool
        + for<'a> FnMut(A::Item<'a>, B::Item<'a>, C::Item<'a>, D::Item<'a>, E::Item<'a>, F::Item<'a>) -> bool
        + 'static,
    A: SystemParam<V, O> + 'static,
    B: SystemParam<V, O> + 'static,
    C: SystemParam<V, O> + 'static,
    D: SystemParam<V, O> + 'static,
    E: SystemParam<V, O> + 'static,
    F: SystemParam<V, O> + 'static,

    requires
        <FunctionCondition<T, (A, B, C, D, E, F), (A::State, B::State, C::State, D::State, E::State, F::State)> as ConditionSystem<V, O>>::evaluates(
            before,
            at,
            after,
            holds,
        ),
        forall|
            a: A::Item<'_>,
            b: B::Item<'_>,
            c: C::Item<'_>,
            d: D::Item<'_>,
            e: E::Item<'_>,
            f: F::Item<'_>,
            returned: bool,
        |
            {
                &&& A::fetches(at, before.state.0, a)
                &&& B::fetches(at, before.state.1, b)
                &&& C::fetches(at, before.state.2, c)
                &&& D::fetches(at, before.state.3, d)
                &&& E::fetches(at, before.state.4, e)
                &&& F::fetches(at, before.state.5, f)
                &&& #[trigger] call_ensures(before.func, (a, b, c, d, e, f), returned)
            } ==> returned == answer,
    ensures
        holds == answer,
{
}

/// A condition that is a function of seven parameters gives the answer that the
/// function gives on what is fetched for it: where that can only be one answer, it is
/// this one.
pub proof fn law_the_answer_is_that_of_the_function_with_seven<V, O, T, A, B, C, D, E, F, G>(
    before: FunctionCondition<T, (A, B, C, D, E, F, G), (A::State, B::State, C::State, D::State, E::State, F::State, G::State)>,
    at: EngineState<V, O>,
    after: FunctionCondition<T, (A, B, C, D, E, F, G), (A::State, B::State, C::State, D::State, E::State, F::State, G::State)>,
    holds: bool,
    answer: bool,
) where
    T: FnMut(A, B, C, D, E, F, G) -> bool
        + for<'a> FnMut(A::Item<'a>, B::Item<'a>, C::Item<'a>, D::Item<'a>, E::Item<'a>, F::Item<'a>, G::Item<'a>) -> bool
        + 'static,
    A: SystemParam<V, O> + 'static,
    B: SystemParam<V, O> + 'static,
    C: SystemParam<V, O> + 'static,
    D: SystemParam<V, O> + 'static,
    E: SystemParam<V, O> + 'static,
    F: SystemParam<V, O> + 'static,
    G: SystemParam<V, O> + 'static,

    requires
        <FunctionCondition<T, (A, B, C, D, E, F, G), (A::State, B::State, C::State, D::State, E::State, F::State, G::State)> as ConditionSystem<V, O>>::evaluates(
            before,
            at,
            after,
            holds,
        ),
        forall|
            a: A::Item<'_>,
            b: B::Item<'_>,
            c: C::Item<'_>,
            d: D::Item<'_>,
            e: E::Item<'_>,
            f: F::Item<'_>,
            g: G::Item<'_>,
            returned: bool,
        |
            {
                &&& A::fetches(at, before.state.0, a)
                &&& B::fetches(at, before.state.1, b)
                &&& C::fetches(at, before.state.2, c)
                &&& D::fetches(at, before.state.3, d)
                &&& E::fetches(at, before.state.4, e)
                &&& F::fetches(at, before.state.5, f)
                &&& G::fetches(at, before.state.6, g)
                &&& #[trigger] call_ensures(before.func, (a, b, c, d, e, f, g), returned)
            } ==> returned == answer,
    ensures
        holds == answer,
{
}

/// A condition that is a function of eight parameters gives the answer that the
/// function gives on what is fetched for it: where that can only be one answer, it is
/// this one.
pub proof fn law_the_answer_is_that_of_the_function_with_eight<V, O, T, A, B, C, D, E, F, G, H>(
    before: FunctionCondition<T, (A, B, C, D, E, F, G, H), (A::State, B::State, C::State, D::State, E::State, F::State, G::State, H::State)>,
    at: EngineState<V, O>,
    after: FunctionCondition<T, (A, B, C, D, E, F, G, H), (A::State, B::State, C::State, D::State, E::State, F::State, G::State, H::State)>,
    holds: bool,
    answer: bool,
) where
    T: FnMut(A, B, C, D, E, F, G, H) -> bool
        + for<'a> FnMut(A::Item<'a>, B::Item<'a>, C::Item<'a>, D::Item<'a>, E::Item<'a>, F::Item<'a>, G::Item<'a>, H::Item<'a>) -> bool
        + 'static,
    A: SystemParam<V, O> + 'static,
    B: SystemParam<V, O> + 'static,
    C: SystemParam<V, O> + 'static,
    D: SystemParam<V, O> + 'static,
    E: SystemParam<V, O> + 'static,
    F: SystemParam<V, O> + 'static,
    G: SystemParam<V, O> + 'static,
    H: SystemParam<V, O> + 'static,

    requires
        <FunctionCondition<T, (A, B, C, D, E, F, G, H), (A::State, B::State, C::State, D::State, E::State, F::State, G::State, H::State)> as ConditionSystem<V, O>>::evaluates(
            before,
            at,
            after,
            holds,
        ),
        forall|
            a: A::Item<'_>,
            b: B::Item<'_>,
            c: C::Item<'_>,
            d: D::Item<'_>,
            e: E::Item<'_>,
            f: F::Item<'_>,
            g: G::Item<'_>,
            h: H::Item<'_>,
            returned: bool,
        |
            {
                &&& A::fetches(at, before.state.0, a)
                &&& B::fetches(at, before.state.1, b)
                &&& C::fetches(at, before.state.2, c)
                &&& D::fetches(at, before.state.3, d)
                &&& E::fetches(at, before.state.4, e)
                &&& F::fetches(at, before.state.5, f)
                &&& G::fetches(at, before.state.6, g)
                &&& H::fetches(at, before.state.7, h)
                &&& #[trigger] call_ensures(before.func, (a, b, c, d, e, f, g, h), returned)
            } ==> returned == answer,
    ensures
        holds == answer,
{
}

} // verus!
