//! The coroutine, driven with `()`, of the items of an iterator.
use vstd::prelude::*;

use crate::co::{co_runs, units, CoResult, Coroutine};
use crate::gen::iter::wrap::{GenWrap, IterSpec};
use crate::gen::{runs, GenResult, Generator};

verus! {

/// The coroutine that yields the items of the iterator `self.0`, one per `()` input, and
/// returns the exhausted iterator.
pub struct CoIterWrapper<T>(pub T);

impl<I: IterSpec> Coroutine<()> for CoIterWrapper<I> {
    type Yield = I::Item;
    type Return = I;

    open spec fn ready(&self) -> bool {
        true
    }

    /// Each step is one call of the iterator's `next`.
    open spec fn sends_to(&self, i: (), r: CoResult<I::Item, Self, I>) -> bool {
        let (it, item) = self.0.spec_next();
        match item {
            Some(y) => r == CoResult::<I::Item, Self, I>::Yield(y, CoIterWrapper(it)),
            None => r == CoResult::<I::Item, Self, I>::Return(it),
        }
    }

    fn send(self, _i: ()) -> (r: CoResult<I::Item, Self, I>) {
        let mut i = self.0;
        match i.advance() {
            Some(item) => CoResult::Yield(item, CoIterWrapper(i)),
            _ => CoResult::Return(i),
        }
    }
}

/// Driven with `()`, the coroutine of an iterator's items runs exactly as the generator of
/// them: the same items, then the same exhausted iterator.
pub proof fn lemma_co_iter_wrapper_of_wrap<I: IterSpec>(i: I, ys: Seq<I::Item>, e: I)
    requires
        runs(GenWrap(i), ys, e),
    ensures
        co_runs(CoIterWrapper(i), units(ys.len() + 1), ys, e),
    decreases ys.len(),
{
    let is = units(ys.len() + 1);
    if ys.len() == 0 {
        assert(GenWrap(i).steps_to(GenResult::Return(e)));
        assert(CoIterWrapper(i).sends_to(is[0], CoResult::Return(e)));
    } else {
        let g1 = choose|g1: GenWrap<I>|
            #[trigger] GenWrap(i).steps_to(GenResult::Yield(ys[0], g1)) && runs(g1, ys.drop_first(), e);
        lemma_co_iter_wrapper_of_wrap(g1.0, ys.drop_first(), e);
        assert(g1 == GenWrap(g1.0));
        assert(is.drop_first() =~= units(ys.drop_first().len() + 1));
        assert(CoIterWrapper(i).sends_to(is[0], CoResult::Yield(ys[0], CoIterWrapper(g1.0))));
    }
}

} // verus!
