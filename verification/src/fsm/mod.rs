//! Finite state machines: a state takes an input and either moves on, emitting a value, to a
//! next state, or exits with a final value.
pub mod match_transition;

use vstd::prelude::*;

use crate::cat::Iso;
use crate::never::Never;

verus! {

/// A way to move on from a state: the value emitted and the state moved to.
pub trait Continuation {
    type Emit;
    type Continue;
    type Output: Iso<(Self::Emit, Self::Continue)>;
}

impl<E, S> Continuation for (E, S) {
    type Emit = E;
    type Continue = S;
    type Output = Self;
}

/// A list of the ways to move on from a state: the first one, `Head`, and the list of the
/// others, `Tail`; `Output` holds one of them.
pub trait ContinuationList {
    type Head;
    type Tail;
    type Output;
}

/// The result of a transition: one of the continuations of `Continuation`, or an `Exit`.
pub trait StateTransition {
    type Continuation;
    type Exit;
}

/// A state of a machine.
pub trait State: Sized {
    /// The value that triggers a transition.
    type Input;
    /// What a transition gives: how the machine moves on, or how it exits.
    type Transition;

    /// `t` is a transition of `self` on the input `i`. Unless an implementation says
    /// otherwise, nothing is known of the transition.
    open spec fn sends_to(&self, i: Self::Input, t: Self::Transition) -> bool {
        true
    }

    /// Makes the transition that the input `i` triggers.
    fn send(self, i: Self::Input) -> (t: Self::Transition)
        ensures
            self.sends_to(i, t),
    ;
}

/// No continuation: the one of a state that cannot be reached.
impl Continuation for Never {
    type Emit = Never;
    type Continue = Never;
    type Output = (Never, Never);
}

/// The empty list of continuations.
impl ContinuationList for Never {
    type Head = Never;
    type Tail = Never;
    type Output = Never;
}

/// The transition of a state that cannot be reached.
impl StateTransition for Never {
    type Continuation = Never;
    type Exit = Never;
}

/// The state that cannot be reached.
impl State for Never {
    type Input = Never;
    type Transition = Never;

    fn send(self, i: Never) -> (t: Never) {
        proof {
            use_type_invariant(&self);
        }
        self.absurd()
    }
}

} // verus!
