//! Products as nested pairs: `(A, (B, (C, ())))`.
use vstd::prelude::*;

use crate::never::Never;

verus! {

/// A product with a first component `Head` and the product `Tail` of the others.
pub trait Prod: Sized {
    type Head;
    type Tail;

    spec fn spec_split(self) -> (Self::Head, Self::Tail);

    fn split(self) -> (r: (Self::Head, Self::Tail))
        ensures
            r == self.spec_split(),
    ;
}

impl Prod for () {
    type Head = ();
    type Tail = ();

    open spec fn spec_split(self) -> ((), ()) {
        ((), ())
    }

    fn split(self) -> (r: ((), ())) {
        ((), ())
    }
}

impl<A> Prod for (A,) {
    type Head = A;
    type Tail = ();

    open spec fn spec_split(self) -> (A, ()) {
        (self.0, ())
    }

    fn split(self) -> (r: (A, ())) {
        (self.0, ())
    }
}

impl<A, B: Prod> Prod for (A, B) {
    type Head = A;
    type Tail = B;

    open spec fn spec_split(self) -> (A, B) {
        self
    }

    fn split(self) -> (r: (A, B)) {
        self
    }
}

/// The product of `H` and `T`, written as nested pairs ending in `()`.
pub trait Pair<H, T> {
    type ProdTail: Prod<Head = T, Tail = ()>;
    type Output: Prod<Head = H, Tail = Self::ProdTail>;
}

impl<H, T> Pair<H, T> for (H, T) {
    type ProdTail = (T,);
    type Output = (H, Self::ProdTail);
}

/// The product that cannot be reached.
impl Prod for Never {
    type Head = Never;
    type Tail = Never;

    open spec fn spec_split(self) -> (Never, Never) {
        (self, self)
    }

    fn split(self) -> (r: (Never, Never)) {
        proof {
            use_type_invariant(&self);
        }
        self.absurd()
    }
}

} // verus!
