//! The transition type for states: either one of the continuations of an enumeration, or an
//! exit.
use vstd::prelude::*;

use std::marker::PhantomData;

use crate::cat::enums::Match;
use crate::cat::sum::{Either, Sum};
use crate::cat::{Inj, Iso, Sur};
use crate::fsm::{Continuation, ContinuationList, StateTransition};
use crate::never::Never;

verus! {

/// The list of continuations held by the enumeration `C` (see `Match`).
pub struct MatchContinuation<C>(pub PhantomData<C>);

impl<H, T> ContinuationList for MatchContinuation<Match<H, T>> where
    H: Continuation,
    MatchContinuation<T>: ContinuationList,
 {
    type Head = H;
    type Tail = MatchContinuation<T>;
    type Output = Match<H::Output, <MatchContinuation<T> as ContinuationList>::Output>;
}

/// The outcome of a transition: the machine moves on (`Continue`), or it exits.
pub enum Transition<Next, Exit> {
    Continue(Next),
    Exit(Exit),
}

impl<Next, Exit> Sum for Transition<Next, Exit> {
    type Left = Next;
    type Right = Exit;
    type Output = Self;
}

impl<A, B> Sur<Either<A, B>> for Transition<A, B> {
    open spec fn spec_sur(e: Either<A, B>) -> Self {
        match e {
            Either::Left(cont) => Transition::Continue(cont),
            Either::Right(exit) => Transition::Exit(exit),
        }
    }

    fn sur(e: Either<A, B>) -> (r: Self) {
        match e {
            Either::Left(cont) => Transition::Continue(cont),
            Either::Right(exit) => Transition::Exit(exit),
        }
    }
}

impl<A, B> Inj<Either<A, B>> for Transition<A, B> {
    open spec fn spec_inj(self) -> Either<A, B> {
        match self {
            Transition::Continue(cont) => Either::Left(cont),
            Transition::Exit(exit) => Either::Right(exit),
        }
    }

    fn inj(self) -> (r: Either<A, B>) {
        match self {
            Transition::Continue(cont) => Either::Left(cont),
            Transition::Exit(exit) => Either::Right(exit),
        }
    }
}

impl<A, B> Iso<Either<A, B>> for Transition<A, B> {
    proof fn lemma_inj_of_sur(x: Either<A, B>) {
    }

    proof fn lemma_sur_of_inj(s: Self) {
    }
}

impl<N, E> StateTransition for Transition<N, E> {
    type Continuation = MatchContinuation<N>;
    type Exit = E;
}

/// The end of an enumeration: no continuation.
impl ContinuationList for MatchContinuation<Never> {
    type Head = Never;
    type Tail = Never;
    type Output = Never;
}

} // verus!
