//! Transforming the value a coroutine returns.
use vstd::prelude::*;

use crate::co::{co_runs, CoResult, Coroutine};

verus! {

/// The coroutine `self.0` whose return value is passed through `self.1`.
pub struct CoMapReturn<C, F>(pub C, pub F);

impl<I, C, F> Coroutine<I> for CoMapReturn<C, F> where C: Coroutine<I>, F: FnOnce<(C::Return,)> {
    type Yield = C::Yield;
    type Return = F::Output;

    open spec fn ready(&self) -> bool {
        &&& self.0.ready()
        &&& forall|x: C::Return| call_requires(self.1, (x,))
    }

    /// Items pass through unchanged; the function is applied to the return value.
    open spec fn sends_to(&self, i: I, r: CoResult<C::Yield, Self, F::Output>) -> bool {
        match r {
            CoResult::Yield(y, rest) => rest.1 == self.1 && self.0.sends_to(
                i,
                CoResult::Yield(y, rest.0),
            ),
            CoResult::Return(v) => exists|x: C::Return|
                self.0.sends_to(i, CoResult::Return(x)) && call_ensures(self.1, (x,), v),
        }
    }

    fn send(self, i: I) -> (r: CoResult<C::Yield, Self, F::Output>) {
        let CoMapReturn(c, f) = self;
        let ghost c0 = c;
        let ghost f0 = f;
        match c.send(i) {
            CoResult::Yield(y, c1) => CoResult::Yield(y, c1.map_return(f)),
            CoResult::Return(x) => {
                let v = f(x);
                let r = CoResult::Return(v);
                assert(c0.sends_to(i, CoResult::Return(x)) && call_ensures(f0, (x,), r->Return_0));
                r
            },
        }
    }
}

/// Attaches a function to the return value of a coroutine.
pub trait MapReturn: Sized {
    fn map_return<F>(self, f: F) -> (r: CoMapReturn<Self, F>)
        ensures
            r == CoMapReturn(self, f),
    {
        CoMapReturn(self, f)
    }
}

impl<C> MapReturn for C {
}

/// A run of `c` that returns `x` is a run of `c.map_return(f)` that returns `f(x)`, on the
/// same inputs and with the same items.
pub proof fn lemma_co_map_return_runs<I, C, F>(
    c: C,
    f: F,
    is: Seq<I>,
    ys: Seq<C::Yield>,
    x: C::Return,
    v: F::Output,
) where C: Coroutine<I>, F: FnOnce<(C::Return,)>
    requires
        co_runs(c, is, ys, x),
        call_ensures(f, (x,), v),
    ensures
        co_runs(CoMapReturn(c, f), is, ys, v),
    decreases ys.len(),
{
    let g = CoMapReturn(c, f);
    if ys.len() == 0 {
        let res = CoResult::<C::Yield, CoMapReturn<C, F>, F::Output>::Return(v);
        assert(g.0.sends_to(is[0], CoResult::Return(x)) && call_ensures(g.1, (x,), res->Return_0));
        assert(g.sends_to(is[0], res));
    } else {
        let c1 = choose|g1: C|
            #[trigger] c.sends_to(is[0], CoResult::Yield(ys[0], g1)) && co_runs(
                g1,
                is.drop_first(),
                ys.drop_first(),
                x,
            );
        lemma_co_map_return_runs(c1, f, is.drop_first(), ys.drop_first(), x, v);
        assert(g.sends_to(is[0], CoResult::Yield(ys[0], CoMapReturn(c1, f))));
    }
}

} // verus!
