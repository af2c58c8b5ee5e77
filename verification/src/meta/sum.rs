//! Sum types and their canonical form.
use vstd::prelude::*;

use crate::never::Never;

verus! {

/// The canonical sum of `L` and `R`.
pub enum Either<L, R> {
    Left(L),
    Right(R),
}

/// A type with two alternatives, which it can be turned into the canonical sum of.
pub trait Sum: Sized {
    type Left;
    type Right;

    spec fn spec_to_canonical(self) -> Either<Self::Left, Self::Right>;

    fn to_canonical(self) -> (r: Either<Self::Left, Self::Right>)
        ensures
            r == self.spec_to_canonical(),
    ;
}

impl<L, R> Sum for Either<L, R> {
    type Left = L;
    type Right = R;

    open spec fn spec_to_canonical(self) -> Self {
        self
    }

    fn to_canonical(self) -> (r: Self) {
        self
    }
}

/// The sum of no alternatives.
impl Sum for Never {
    type Left = Never;
    type Right = Never;

    open spec fn spec_to_canonical(self) -> Either<Never, Never> {
        Either::Left(self)
    }

    fn to_canonical(self) -> (r: Either<Never, Never>) {
        Either::Left(self)
    }
}

} // verus!
