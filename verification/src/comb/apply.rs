//! Applying the function that one coroutine returns to the value that another one returns.
use vstd::prelude::*;

use crate::co::{
    co_all_returns, co_runs, lemma_co_all_returns_now, lemma_co_all_returns_step, units,
    CoResult, Coroutine,
};
use crate::comb::all::{lemma_co_all_runs, CoAll};
use crate::comb::race::{interleave, lemma_interleave_len};
use crate::either::Either;
use crate::race::CoRace;

pub use crate::gen::comb::apply::ApplyFn;

verus! {

/// Runs a coroutine that returns a function and a coroutine that returns its argument in turns
/// (see `CoAll`), driven with `()`, and returns the function applied to the argument.
pub struct CoApply<F: Coroutine<()>, C: Coroutine<()>>(pub CoAll<F, C>);

impl<F, C> CoApply<F, C> where
    F: Coroutine<()>,
    C: Coroutine<(), Yield = F::Yield>,
    F::Return: FnOnce<(C::Return,)>,
 {
    pub fn new(functor: F, c: C) -> (r: Self)
        ensures
            r == CoApply(CoAll::<F, C>::Racing(crate::race::CoRace(crate::either::Either::Former((functor, c))))),
    {
        CoApply(CoAll::new(functor, c))
    }
}

impl<F, C> Coroutine<()> for CoApply<F, C> where
    F: Coroutine<()>,
    C: Coroutine<(), Yield = F::Yield>,
    F::Return: FnOnce<(C::Return,)>,
 {
    type Yield = F::Yield;
    type Return = <F::Return as FnOnce<(C::Return,)>>::Output;

    open spec fn ready(&self) -> bool {
        &&& self.0.ready()
        &&& co_all_returns(self.0, |p: (F::Return, C::Return)| call_requires(p.0, (p.1,)))
    }

    /// The items are those of `CoAll`; its pair of return values is applied.
    open spec fn sends_to(
        &self,
        u: (),
        r: CoResult<F::Yield, Self, <F::Return as FnOnce<(C::Return,)>>::Output>,
    ) -> bool {
        match r {
            CoResult::Yield(y, rest) => self.0.sends_to((), CoResult::Yield(y, rest.0)),
            CoResult::Return(v) => exists|p: (F::Return, C::Return)|
                self.0.sends_to((), CoResult::Return(p)) && call_ensures(p.0, (p.1,), v),
        }
    }

    fn send(self, u: ()) -> (r: CoResult<F::Yield, Self, <F::Return as FnOnce<(C::Return,)>>::Output>) {
        let ghost a0 = self.0;
        match self.0.send(()) {
            CoResult::Yield(y, s) => {
                proof {
                    lemma_co_all_returns_step(
                        a0,
                        |p: (F::Return, C::Return)| call_requires(p.0, (p.1,)),
                        (),
                        y,
                        s,
                    );
                }
                CoResult::Yield(y, CoApply(s))
            },
            CoResult::Return(p) => {
                proof {
                    lemma_co_all_returns_now(
                        a0,
                        |p: (F::Return, C::Return)| call_requires(p.0, (p.1,)),
                        (),
                        p,
                    );
                }
                let ghost p0 = p;
                let v = ApplyFn::new().call_once(p);
                let r = CoResult::Return(v);
                assert(a0.sends_to((), CoResult::Return(p0)) && call_ensures(
                    p0.0,
                    (p0.1,),
                    r->Return_0,
                ));
                r
            },
        }
    }
}

/// Applies the function that `self` returns to the value that `c` returns.
pub trait Apply: Coroutine<()> {
    fn apply<C>(self, c: C) -> (r: CoApply<Self, C>) where
        C: Coroutine<(), Yield = Self::Yield>,
        Self::Return: FnOnce<(C::Return,)>,

        ensures
            r == CoApply(CoAll::<Self, C>::Racing(crate::race::CoRace(crate::either::Either::Former((self, c))))),
    {
        CoApply::new(self, c)
    }
}

impl<T: Coroutine<()>> Apply for T {
}

/// When the two coroutines, run in turns with `()`, yield `ys` and return the function `func`
/// and the argument `x`, the application yields `ys` and returns what `func` gives for `x`.
pub proof fn lemma_co_apply_runs<F, C>(
    a: CoAll<F, C>,
    ys: Seq<F::Yield>,
    func: F::Return,
    x: C::Return,
    v: <F::Return as FnOnce<(C::Return,)>>::Output,
) where F: Coroutine<()>, C: Coroutine<(), Yield = F::Yield>, F::Return: FnOnce<(C::Return,)>
    requires
        co_runs(a, units(ys.len() + 1), ys, (func, x)),
        call_ensures(func, (x,), v),
    ensures
        co_runs(CoApply(a), units(ys.len() + 1), ys, v),
    decreases ys.len(),
{
    let g = CoApply(a);
    let is = units(ys.len() + 1);
    if ys.len() == 0 {
        let r = CoResult::<F::Yield, CoApply<F, C>, <F::Return as FnOnce<(C::Return,)>>::Output>::Return(v);
        assert(a.sends_to((), CoResult::Return((func, x))) && call_ensures(
            (func, x).0,
            ((func, x).1,),
            r->Return_0,
        ));
        assert(g.sends_to(is[0], r));
    } else {
        assert(is.drop_first() =~= units(ys.drop_first().len() + 1));
        let a1 = choose|c1: CoAll<F, C>|
            #[trigger] a.sends_to(is[0], CoResult::Yield(ys[0], c1)) && co_runs(
                c1,
                is.drop_first(),
                ys.drop_first(),
                (func, x),
            );
        lemma_co_apply_runs(a1, ys.drop_first(), func, x, v);
        assert(g.sends_to(is[0], CoResult::Yield(ys[0], CoApply(a1))));
    }
}

/// The whole run of `functor.apply(c)`, driven with `()`: when `functor` alone yields `ys` and
/// returns the function `func`, and `c` alone yields `zs` and returns `x`, the application
/// yields their items in turns, `functor` first, then the rest of the one that runs longer,
/// and returns what `func` gives for `x`.
pub proof fn lemma_co_apply_whole_runs<F, C>(
    functor: F,
    ys: Seq<F::Yield>,
    func: F::Return,
    c: C,
    zs: Seq<F::Yield>,
    x: C::Return,
    v: <F::Return as FnOnce<(C::Return,)>>::Output,
) where F: Coroutine<()>, C: Coroutine<(), Yield = F::Yield>, F::Return: FnOnce<(C::Return,)>
    requires
        co_runs(functor, units(ys.len() + 1), ys, func),
        co_runs(c, units(zs.len() + 1), zs, x),
        call_ensures(func, (x,), v),
    ensures
        co_runs(
            CoApply(CoAll::<F, C>::Racing(CoRace(Either::Former((functor, c))))),
            units(ys.len() + zs.len() + 1),
            interleave(ys, zs),
            v,
        ),
{
    lemma_co_all_runs(functor, ys, func, c, zs, x);
    let a = CoAll::<F, C>::Racing(CoRace(Either::Former((functor, c))));
    let items = interleave(ys, zs);
    lemma_interleave_len(ys, zs);
    assert(units(ys.len() + zs.len() + 1) =~= units(items.len() + 1));
    lemma_co_apply_runs(a, items, func, x, v);
}

} // verus!
