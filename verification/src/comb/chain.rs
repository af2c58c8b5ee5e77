//! Running a second coroutine, made from the return value of a first one, after the first.
use vstd::prelude::*;

use crate::co::{co_runs, CoResult, Coroutine};
use crate::join::{converts_all, lemma_co_join_runs, CoJoin, Join};
use crate::map::ret::{lemma_co_map_return_runs, CoMapReturn, MapReturn};

verus! {

/// The coroutine `f`, driven with `()`, followed by the coroutine that `l` makes of what `f`
/// returns.
pub struct CoChain<F, L>(pub CoJoin<CoMapReturn<F, L>>) where
    F: Coroutine<()>,
    L: FnOnce<(F::Return,)>,
;

impl<F, L> Coroutine<()> for CoChain<F, L> where
    F: Coroutine<()>,
    L: FnOnce<(F::Return,)>,
    L::Output: Coroutine<(), Yield = F::Yield>,
 {
    type Yield = F::Yield;
    type Return = <L::Output as Coroutine<()>>::Return;

    open spec fn ready(&self) -> bool {
        self.0.ready()
    }

    /// The steps of the join of `f.map_return(l)`.
    open spec fn sends_to(
        &self,
        u: (),
        r: CoResult<F::Yield, Self, <L::Output as Coroutine<()>>::Return>,
    ) -> bool {
        match r {
            CoResult::Yield(y, rest) => self.0.sends_to((), CoResult::Yield(y, rest.0)),
            CoResult::Return(v) => self.0.sends_to((), CoResult::Return(v)),
        }
    }

    fn send(self, u: ()) -> (r: CoResult<F::Yield, Self, <L::Output as Coroutine<()>>::Return>) {
        match self.0.send(()) {
            CoResult::Yield(y, s) => CoResult::Yield(y, CoChain(s)),
            CoResult::Return(r) => CoResult::Return(r),
        }
    }
}

/// Chains a coroutine with a function that makes the next coroutine of its return value.
pub trait Chain: Coroutine<()> {
    fn chain<L>(self, l: L) -> (r: CoChain<Self, L>) where
        L: FnOnce<(Self::Return,)>,
        L::Output: Coroutine<(), Yield = Self::Yield>,

        ensures
            r == CoChain(CoJoin::Outer(CoMapReturn(self, l))),
    {
        CoChain(self.map_return(l).join())
    }
}

impl<F: Coroutine<()>> Chain for F {
}

/// A run of the join is a run of the chain.
pub proof fn lemma_co_chain_of_join<F, L>(
    j: CoJoin<CoMapReturn<F, L>>,
    us: Seq<()>,
    ys: Seq<F::Yield>,
    r: <L::Output as Coroutine<()>>::Return,
) where F: Coroutine<()>, L: FnOnce<(F::Return,)>, L::Output: Coroutine<(), Yield = F::Yield>
    requires
        co_runs(j, us, ys, r),
    ensures
        co_runs(CoChain(j), us, ys, r),
    decreases ys.len(),
{
    if ys.len() > 0 {
        let j1 = choose|g1: CoJoin<CoMapReturn<F, L>>|
            #[trigger] j.sends_to(us[0], CoResult::Yield(ys[0], g1)) && co_runs(
                g1,
                us.drop_first(),
                ys.drop_first(),
                r,
            );
        lemma_co_chain_of_join(j1, us.drop_first(), ys.drop_first(), r);
        assert(CoChain(j).sends_to(us[0], CoResult::Yield(ys[0], CoChain(j1))));
    }
}

/// A chain yields the items of the first coroutine, then those of the coroutine that `l`
/// made of its return value, each passed through `From`, and returns what that second
/// coroutine returns.
pub proof fn lemma_co_chain_runs<F, L>(
    f: F,
    l: L,
    us: Seq<()>,
    ys: Seq<F::Yield>,
    x: F::Return,
    g: L::Output,
    vs: Seq<()>,
    zs: Seq<F::Yield>,
    zs2: Seq<F::Yield>,
    r: <L::Output as Coroutine<()>>::Return,
) where F: Coroutine<()>, L: FnOnce<(F::Return,)>, L::Output: Coroutine<(), Yield = F::Yield>
    requires
        co_runs(f, us, ys, x),
        call_ensures(l, (x,), g),
        co_runs(g, vs, zs, r),
        converts_all(zs, zs2),
    ensures
        co_runs(CoChain(CoJoin::Outer(CoMapReturn(f, l))), us.drop_last() + vs, ys + zs2, r),
{
    lemma_co_map_return_runs(f, l, us, ys, x, g);
    lemma_co_join_runs(CoMapReturn(f, l), us, ys, g, vs, zs, zs2, r);
    lemma_co_chain_of_join(CoJoin::Outer(CoMapReturn(f, l)), us.drop_last() + vs, ys + zs2, r);
}

} // verus!
