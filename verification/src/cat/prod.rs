//! The canonical binary product.
use vstd::prelude::*;

use crate::cat::Iso;
use crate::never::Never;

verus! {

/// A type that is a product of `Left` and `Right`, through its isomorphic `Output`.
pub trait Prod {
    type Left;
    type Right;
    type Output: Iso<(Self::Left, Self::Right)>;
}

impl<A, B> Prod for (A, B) {
    type Left = A;
    type Right = B;
    type Output = Self;
}

/// The product that cannot be reached.
impl Prod for Never {
    type Left = Never;
    type Right = Never;
    type Output = (Never, Never);
}

} // verus!
