//! Enumerations built by nesting binary sums: `Match<A, Match<B, ...>>`.
use vstd::prelude::*;

use crate::cat::sum::{Either, Sum};
use crate::cat::{Inj, Iso, Sur};
use crate::never::Never;

verus! {

/// The first alternative of an enumeration, or one of the alternatives that follow.
pub enum Match<A, B> {
    Variant(A),
    Next(B),
}

impl<A, B> Sur<Either<A, B>> for Match<A, B> {
    open spec fn spec_sur(e: Either<A, B>) -> Self {
        match e {
            Either::Left(l) => Match::Variant(l),
            Either::Right(r) => Match::Next(r),
        }
    }

    fn sur(e: Either<A, B>) -> (r: Self) {
        match e {
            Either::Left(l) => Match::Variant(l),
            Either::Right(r) => Match::Next(r),
        }
    }
}

impl<A, B> Inj<Either<A, B>> for Match<A, B> {
    open spec fn spec_inj(self) -> Either<A, B> {
        match self {
            Match::Variant(v) => Either::Left(v),
            Match::Next(n) => Either::Right(n),
        }
    }

    fn inj(self) -> (r: Either<A, B>) {
        match self {
            Match::Variant(v) => Either::Left(v),
            Match::Next(n) => Either::Right(n),
        }
    }
}

impl<A, B> Iso<Either<A, B>> for Match<A, B> {
    proof fn lemma_inj_of_sur(x: Either<A, B>) {
    }

    proof fn lemma_sur_of_inj(s: Self) {
    }
}

impl<A, B> Sum for Match<A, B> {
    type Left = A;
    type Right = B;
    type Output = Self;
}

/// An enumeration: its first alternative `Head`, and the enumeration `Tail` of the others.
pub trait Enum: Sized {
    type Head;
    type Tail;
    type Output: Iso<Either<Self::Head, Self::Tail>>;

    spec fn spec_split(self) -> Self::Output;

    fn split(self) -> (r: Self::Output)
        ensures
            r == self.spec_split(),
    ;
}

impl<A, B> Enum for Match<A, B> {
    type Head = A;
    type Tail = B;
    type Output = Self;

    open spec fn spec_split(self) -> Self {
        self
    }

    fn split(self) -> (r: Self) {
        self
    }
}

/// The enumeration of no alternatives.
impl Enum for Never {
    type Head = Never;
    type Tail = Never;
    type Output = Either<Never, Never>;

    open spec fn spec_split(self) -> Either<Never, Never> {
        Either::Left(self)
    }

    fn split(self) -> (r: Either<Never, Never>) {
        Either::Left(self)
    }
}

} // verus!
