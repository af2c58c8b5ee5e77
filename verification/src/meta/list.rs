//! Lists of types as nested pairs.
use vstd::prelude::*;

use crate::never::Never;

verus! {

/// A list of types: its first type `Head` and the list `Tail` of the others.
pub trait TypeList {
    type Head;
    type Tail;
}

/// A list of values whose types form a `TypeList`.
pub trait List: TypeList + Sized {
    spec fn spec_split(self) -> (Self::Head, Self::Tail);

    /// The first value and the list of the others.
    fn split(self) -> (r: (Self::Head, Self::Tail))
        ensures
            r == self.spec_split(),
    ;
}

impl<H, T> TypeList for (H, T) {
    type Head = H;
    type Tail = T;
}

impl<H, T> List for (H, T) {
    open spec fn spec_split(self) -> (H, T) {
        self
    }

    fn split(self) -> (r: (H, T)) {
        self
    }
}

/// The list that cannot be reached.
impl TypeList for Never {
    type Head = Never;
    type Tail = Never;
}

} // verus!
