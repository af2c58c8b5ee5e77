//! Transforming the items a coroutine yields.
use vstd::prelude::*;

use crate::co::{co_runs, CoResult, Coroutine};

verus! {

/// The coroutine `self.0` whose items are passed through `self.1`.
pub struct CoMapYield<C, F>(pub C, pub F);

impl<I, C, F, O> Coroutine<I> for CoMapYield<C, F> where C: Coroutine<I>, F: FnMut(C::Yield) -> O {
    type Yield = O;
    type Return = C::Return;

    open spec fn ready(&self) -> bool {
        &&& self.0.ready()
        &&& forall|y: C::Yield| call_requires(self.1, (y,))
    }

    /// Each item is passed through the function; the return value is unchanged.
    ///
    /// The rest carries the same function. A call of an `FnMut` closure is modelled by Verus
    /// as leaving the closure as it was (vstd's `axiom_fn_mut_call_ensures`), which holds of
    /// every closure that verified code can build, as none of them changes what it captured.
    /// A closure built elsewhere that changes its captured state goes on, when run, with that
    /// state; of such a closure this clause states only Verus's model.
    open spec fn sends_to(&self, i: I, r: CoResult<O, Self, C::Return>) -> bool {
        match r {
            CoResult::Yield(z, rest) => rest.1 == self.1 && exists|y: C::Yield|
                self.0.sends_to(i, CoResult::Yield(y, rest.0)) && call_ensures(self.1, (y,), z),
            CoResult::Return(v) => self.0.sends_to(i, CoResult::Return(v)),
        }
    }

    fn send(self, i: I) -> (r: CoResult<O, Self, C::Return>) {
        let CoMapYield(c, mut f) = self;
        let ghost c0 = c;
        let ghost f0 = f;
        match c.send(i) {
            CoResult::Yield(y, c1) => {
                let z = f(y);
                let r = CoResult::Yield(z, c1.map_yield(f));
                assert(c0.sends_to(i, CoResult::Yield(y, r->Yield_1.0)) && call_ensures(
                    f0,
                    (y,),
                    r->Yield_0,
                ));
                r
            },
            CoResult::Return(v) => CoResult::Return(v),
        }
    }
}

/// Attaches a function to each item of a coroutine.
pub trait MapYield: Sized {
    fn map_yield<F>(self, f: F) -> (r: CoMapYield<Self, F>)
        ensures
            r == CoMapYield(self, f),
    {
        CoMapYield(self, f)
    }
}

impl<C> MapYield for C {
}

/// A run of `c` with items `ys` is a run of `c.map_yield(f)` with the items `zs` that `f`
/// gives for them, one for one, on the same inputs and with the same return value.
pub proof fn lemma_co_map_yield_runs<I, C, F, O>(
    c: C,
    f: F,
    is: Seq<I>,
    ys: Seq<C::Yield>,
    zs: Seq<O>,
    r: C::Return,
) where C: Coroutine<I>, F: FnMut(C::Yield) -> O
    requires
        co_runs(c, is, ys, r),
        zs.len() == ys.len(),
        forall|k: int| 0 <= k < ys.len() ==> call_ensures(f, (ys[k],), #[trigger] zs[k]),
    ensures
        co_runs(CoMapYield(c, f), is, zs, r),
    decreases ys.len(),
{
    let g = CoMapYield(c, f);
    if ys.len() == 0 {
        assert(g.sends_to(is[0], CoResult::Return(r)));
    } else {
        let c1 = choose|g1: C|
            #[trigger] c.sends_to(is[0], CoResult::Yield(ys[0], g1)) && co_runs(
                g1,
                is.drop_first(),
                ys.drop_first(),
                r,
            );
        assert forall|k: int| 0 <= k < ys.drop_first().len() implies call_ensures(
            f,
            (ys.drop_first()[k],),
            #[trigger] zs.drop_first()[k],
        ) by {
            assert(call_ensures(f, (ys[k + 1],), zs[k + 1]));
        }
        lemma_co_map_yield_runs(c1, f, is.drop_first(), ys.drop_first(), zs.drop_first(), r);
        let res = CoResult::<O, CoMapYield<C, F>, C::Return>::Yield(zs[0], CoMapYield(c1, f));
        assert(g.0.sends_to(is[0], CoResult::Yield(ys[0], res->Yield_1.0)) && call_ensures(
            g.1,
            (ys[0],),
            res->Yield_0,
        ));
        assert(g.sends_to(is[0], res));
    }
}

} // verus!
