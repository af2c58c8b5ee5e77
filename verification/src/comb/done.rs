//! A coroutine that returns a value at once.
use vstd::prelude::*;

use crate::co::{co_runs, CoResult, Coroutine};
use crate::never::Never;

verus! {

/// The coroutine that, on any input, returns `self.0` without yielding.
pub struct CoDone<U>(pub U);

impl<I, U> Coroutine<I> for CoDone<U> {
    type Yield = Never;
    type Return = U;

    open spec fn ready(&self) -> bool {
        true
    }

    open spec fn sends_to(&self, i: I, r: CoResult<Never, Self, U>) -> bool {
        r == CoResult::<Never, Self, U>::Return(self.0)
    }

    fn send(self, i: I) -> (r: CoResult<Never, Self, U>) {
        CoResult::Return(self.0)
    }
}

/// Turns any value into the coroutine that returns it.
pub trait Done: Sized {
    fn done(self) -> (r: CoDone<Self>)
        ensures
            r == CoDone(self),
    {
        CoDone(self)
    }
}

impl<U> Done for U {
}

/// `u.done()`, on any input, yields nothing and returns `u`.
pub proof fn lemma_co_done_runs<I, U>(u: U, i: I)
    ensures
        co_runs(CoDone(u), seq![i], Seq::<Never>::empty(), u),
{
}

} // verus!
