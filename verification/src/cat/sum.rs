//! The canonical binary sum type.
use vstd::prelude::*;

use crate::cat::Iso;
use crate::never::Never;

verus! {

/// The canonical sum of `L` and `R`.
pub enum Either<L, R> {
    Left(L),
    Right(R),
}

/// A type that is a sum of `Left` and `Right`, through its isomorphic `Output`.
pub trait Sum {
    type Left;
    type Right;
    type Output: Iso<Either<Self::Left, Self::Right>>;
}

impl<L, R> Sum for Either<L, R> {
    type Left = L;
    type Right = R;
    type Output = Self;
}

/// The sum of no alternatives.
impl Sum for Never {
    type Left = Never;
    type Right = Never;
    type Output = Either<Never, Never>;
}

} // verus!
