//! A generator that returns a value at once.
use vstd::prelude::*;

use crate::gen::{runs, GenResult, Generator, Returns, Yields};
use crate::never::Never;

verus! {

/// The generator that yields nothing, its items being of the type with no values, and returns
/// `self.0`.
pub struct GenDone<U>(pub U);

impl<U> Yields for GenDone<U> {
    type Yield = Never;
}

impl<U> Returns for GenDone<U> {
    type Return = U;
}

impl<U> Generator for GenDone<U> {
    open spec fn ready(&self) -> bool {
        true
    }

    open spec fn steps_to(&self, r: GenResult<Self>) -> bool {
        r == GenResult::<Self>::Return(self.0)
    }

    fn next(self) -> (r: GenResult<Self>) {
        GenResult::Return(self.0)
    }
}

/// Turns any value into the generator that returns it.
pub trait Done: Sized {
    fn done(self) -> (r: GenDone<Self>)
        ensures
            r == GenDone(self),
    {
        GenDone(self)
    }
}

impl<U> Done for U {
}

/// `u.done()` yields nothing and returns `u`.
pub proof fn lemma_done_runs<U>(u: U)
    ensures
        runs(GenDone(u), Seq::empty(), u),
{
}

} // verus!
