//! Running a second generator, made from the return value of a first one, after the first.
use vstd::prelude::*;

use crate::gen::comb::join::{lemma_join_runs, GenJoin, Join};
use crate::gen::map::ret::{
    lemma_map_return_keeps_fn, lemma_map_return_runs, GenMapReturn, MapReturn,
};
use crate::gen::{runs, GenResult, Generator, Returns};

verus! {

/// `f` followed by the generator that `l` makes of what `f` returns.
pub type GenChain<F, L> = GenJoin<GenMapReturn<F, L>>;

/// Chains a generator with a function that makes the next generator of its return value.
pub trait Chain: Generator {
    fn chain<L>(self, l: L) -> (r: GenChain<Self, L>) where
        L: FnOnce<(Self::Return,)>,
        L::Output: Generator<Yield = Self::Yield>,

        ensures
            r == GenJoin::Outer(GenMapReturn(self, l)),
    {
        self.map_return(l).join()
    }
}

impl<F: Generator> Chain for F {
}

/// A chain is ready to run when its first generator is, when `l` accepts every value and when
/// every generator that `l` makes is ready.
pub proof fn lemma_chain_ready<F, L>(f: F, l: L) where
    F: Generator,
    L: FnOnce<(F::Return,)>,
    L::Output: Generator<Yield = F::Yield>,

    requires
        f.ready(),
        forall|x: F::Return| call_requires(l, (x,)),
        forall|x: F::Return, g: L::Output| call_ensures(l, (x,), g) ==> g.ready(),
    ensures
        GenJoin::Outer(GenMapReturn(f, l)).ready(),
{
    let m = GenMapReturn(f, l);
    assert forall|ys: Seq<F::Yield>, h: GenMapReturn<F, L>, g: L::Output|
        #![trigger crate::gen::yields_to(m, ys, h), h.steps_to(GenResult::Return(g))]
        crate::gen::yields_to(m, ys, h) && h.steps_to(GenResult::Return(g)) implies g.ready() by {
        lemma_map_return_keeps_fn(m, ys, h);
    }
}

/// A chain yields the items of the first generator, then those of the generator that `l`
/// made of its return value, and returns what that second generator returns.
pub proof fn lemma_chain_runs<F, L>(
    f: F,
    l: L,
    ys: Seq<F::Yield>,
    x: F::Return,
    g: L::Output,
    zs: Seq<F::Yield>,
    r: <L::Output as Returns>::Return,
) where F: Generator, L: FnOnce<(F::Return,)>, L::Output: Generator<Yield = F::Yield>
    requires
        runs(f, ys, x),
        call_ensures(l, (x,), g),
        runs(g, zs, r),
    ensures
        runs(GenJoin::Outer(GenMapReturn(f, l)), ys + zs, r),
{
    lemma_map_return_runs(f, l, ys, x, g);
    lemma_join_runs(GenMapReturn(f, l), ys, g, zs, r);
}

} // verus!
