//! Sums and products up to isomorphism: a type `T` that implements `Iso<X>` can be turned into
//! an `X` (`inj`) and back (`sur`) without loss.
pub mod enums;
pub mod prod;
pub mod sum;

use vstd::prelude::*;

verus! {

/// Conversion into `X`.
pub trait Inj<X>: Sized {
    spec fn spec_inj(self) -> X;

    fn inj(self) -> (r: X)
        ensures
            r == self.spec_inj(),
    ;
}

/// Conversion from `X`.
pub trait Sur<X>: Sized {
    spec fn spec_sur(x: X) -> Self;

    fn sur(x: X) -> (r: Self)
        ensures
            r == Self::spec_sur(x),
    ;
}

/// `Self` and `X` are isomorphic: `inj` and `sur` are inverse to each other.
pub trait Iso<X>: Sur<X> + Inj<X> {
    /// Going from `X` to `Self` and back gives the original value.
    proof fn lemma_inj_of_sur(x: X)
        ensures
            Self::spec_sur(x).spec_inj() == x,
    ;

    /// Going from `Self` to `X` and back gives the original value.
    proof fn lemma_sur_of_inj(s: Self)
        ensures
            Self::spec_sur(s.spec_inj()) == s,
    ;
}

impl<X> Sur<X> for X {
    open spec fn spec_sur(x: X) -> X {
        x
    }

    fn sur(x: X) -> (r: X) {
        x
    }
}

impl<X> Inj<X> for X {
    open spec fn spec_inj(self) -> X {
        self
    }

    fn inj(self) -> (r: X) {
        self
    }
}

impl<X> Iso<X> for X {
    proof fn lemma_inj_of_sur(x: X) {
    }

    proof fn lemma_sur_of_inj(s: X) {
    }
}

} // verus!
