//! A typestate framework for peripheral drivers.
//!
//! The legal operating sequence of a peripheral (for example
//! Stopped -> Idle -> Configured -> Running) is encoded in the type system:
//! a peripheral value is carried inside a wrapper whose type parameter names
//! the state the peripheral is currently in, and each state change is a
//! method that consumes the wrapper and produces one with a different tag.
//! Calling an operation in the wrong state is then a build-time error rather
//! than undefined behaviour at run time.
//!
//! This crate root holds the capability vocabulary (marker traits) and the
//! generic wrapper. The `compiler` module turns a declarative peripheral
//! specification into a validated transition table, and the `registry`
//! module is the runtime shadow ledger for peripherals whose state changes
//! the type system cannot observe (for example interrupt-driven ones).
use vstd::prelude::*;

pub mod compiler;
pub mod registry;

verus! {

/// A state tag: a zero-footprint type whose only role is to name, at the
/// type level, one logical state of a peripheral.
pub trait State: Copy + Clone + PartialEq + Eq + core::fmt::Debug {}

/// A peripheral declares its canonical state set by naming one of its
/// state-tag types.
pub trait Peripheral {
    type State: State;
}

/// Capability fact: the implementing peripheral may be wrapped while in
/// state `S`. Established once, at specification-expansion time, and never
/// revoked.
pub trait InState<S> {}

/// Capability fact: the edge `Src -> Dst` is a legal state change for the
/// implementing peripheral. The set of such impls is the transition graph;
/// a pair without an impl is statically uncallable.
pub trait ValidTransition<Src, Dst> {}

/// The typestate wrapper: exclusively owns one peripheral value and carries
/// its current state purely as type information.
///
/// The declared tag always matches the state the peripheral was last
/// transitioned into, because transitions are the only way to change it.
pub struct Stateful<P, S> {
    pub peripheral: P,
    _state: core::marker::PhantomData<S>,
}

/// A wrapper is, in specifications, exactly the peripheral value it
/// carries: the state tag is type information and holds no data.
impl<P, S> View for Stateful<P, S> {
    type V = P;

    closed spec fn view(&self) -> P {
        self.peripheral
    }
}

impl<P: Peripheral, S> Stateful<P, S> where S: State, P: InState<S> {
    /// Wraps a peripheral value. The generated API of a concrete peripheral
    /// exposes exactly one such constructor, fixed to the declared initial
    /// state.
    pub fn new<NewState: State>(peripheral: P) -> (r: Self)
        ensures
            r@ == peripheral,
    {
        Stateful { peripheral, _state: core::marker::PhantomData }
    }

    /// The single primitive every transition method is built on: consumes
    /// the wrapper and returns one tagged with the destination state,
    /// carrying the peripheral value unchanged. Requires the capability
    /// facts that the peripheral may carry `NewS` and that the edge
    /// `S -> NewS` is legal.
    pub fn transition<NewS: State>(self) -> (r: Stateful<P, NewS>)
        where
            P: InState<NewS>,
            P: ValidTransition<S, NewS>,
        ensures
            r@ == self@,
    {
        Stateful { peripheral: self.peripheral, _state: core::marker::PhantomData }
    }

    /// Read-only access to the wrapped peripheral.
    pub fn get(&self) -> (r: &P)
        ensures
            *r == self@,
    {
        &self.peripheral
    }

    /// Scoped-callback invocation: hands the caller-supplied function
    /// exclusive access to the wrapper and returns whatever wrapper and
    /// extra result it produces. The callback runs exactly once, and it
    /// observes the wrapper at its current tag, so a transition method that
    /// calls this after the tag has flipped guarantees the callback sees
    /// the post-transition type.
    pub fn with_callback<F, R>(self, callback: F) -> (r: (Self, R))
        where
            F: FnOnce(Self) -> (Self, R),
        requires
            call_requires(callback, (self,)),
        ensures
            call_ensures(callback, (self,), r),
    {
        callback(self)
    }

    /// A full generated transition: runs the declared transition effect on
    /// the peripheral while it is still tagged `S`, flips the tag to
    /// `NewS`, then runs the caller's callback on the freshly tagged
    /// wrapper. The ordering is visible in the contract: the callback's
    /// input wrapper carries exactly the value the effect produced, so the
    /// effect's action always precedes the callback's.
    pub fn transition_with<NewS: State, E, F, R>(self, effect: E, callback: F) -> (r: (
        Stateful<P, NewS>,
        R,
    ))
        where
            P: InState<NewS>,
            P: ValidTransition<S, NewS>,
            E: FnOnce(P) -> P,
            F: FnOnce(Stateful<P, NewS>) -> (Stateful<P, NewS>, R),
        requires
            call_requires(effect, (self@,)),
            forall|w: Stateful<P, NewS>|
                call_ensures(effect, (self@,), w@) ==> call_requires(callback, (w,)),
        ensures
            exists|w: Stateful<P, NewS>|
                call_ensures(effect, (self@,), w@) && call_ensures(callback, (w,), r),
    {
        let Stateful { peripheral, _state } = self;
        let after_effect = effect(peripheral);
        let staged: Stateful<P, S> = Stateful {
            peripheral: after_effect,
            _state: core::marker::PhantomData,
        };
        let flipped = staged.transition::<NewS>();
        let ghost mid = flipped;
        let r = flipped.with_callback(callback);
        proof {
            assert(call_ensures(effect, (self@,), mid@));
        }
        r
    }

    /// A no-runtime-cost assertion that the wrapper is statically known to
    /// be in state `ExpectedS`: the bound `S: PartialEq<ExpectedS>` holds
    /// only when the two tags are the same type, so a mismatch fails to
    /// build. The wrapper is returned unchanged.
    pub fn expect<ExpectedS: State>(self) -> (r: Self)
        where
            S: core::cmp::PartialEq<ExpectedS>,
            P: InState<ExpectedS>,
        ensures
            r@ == self@,
    {
        self
    }
}

} // verus!
