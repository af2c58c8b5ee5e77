//! Applying the function that one generator returns to the value that another one returns.
use vstd::prelude::*;

use std::marker::PhantomData;

use crate::comb::all::{lemma_all_runs, All, GenAll};
use crate::comb::race::{interleave, GenRace};
use crate::either::Either;
use crate::gen::{
    all_returns, lemma_all_returns_now, lemma_all_returns_step, runs, GenResult, Generator,
    Returns, Yields,
};

verus! {

/// Applies the first part of a pair, a function, to the second part.
pub struct ApplyFn<F, I>(pub PhantomData<(F, I)>);

impl<F: FnOnce<(I,)>, I> ApplyFn<F, I> {
    pub fn new() -> (r: Self)
        ensures
            r == ApplyFn::<F, I>(PhantomData),
    {
        ApplyFn(PhantomData)
    }

    /// `fi.0` applied to `fi.1`.
    pub fn call_once(self, fi: (F, I)) -> (r: F::Output)
        requires
            call_requires(fi.0, (fi.1,)),
        ensures
            call_ensures(fi.0, (fi.1,), r),
    {
        let (f, i) = fi;
        f(i)
    }
}

/// Runs a generator that returns a function and a generator that returns its argument in turns
/// (see `GenAll`), and returns the function applied to the argument.
pub struct GenApply<F: Returns, C: Returns>(pub GenAll<F, C>);

impl<F: Yields + Returns, C: Returns> Yields for GenApply<F, C> {
    type Yield = F::Yield;
}

impl<F: Returns, C: Returns> Returns for GenApply<F, C> where F::Return: FnOnce<(C::Return,)> {
    type Return = <F::Return as FnOnce<(C::Return,)>>::Output;
}

/// Every function and argument that `a` can return fit together.
pub open spec fn returns_applicable<F, C>(a: GenAll<F, C>) -> bool where
    F: Generator,
    C: Generator<Yield = F::Yield>,
    F::Return: FnOnce<(C::Return,)>,
 {
    all_returns(a, |p: (F::Return, C::Return)| call_requires(p.0, (p.1,)))
}

impl<F, C> GenApply<F, C> where
    F: Generator,
    C: Generator<Yield = F::Yield>,
    F::Return: FnOnce<(C::Return,)>,
 {
    pub fn new(functor: F, c: C) -> (r: Self)
        ensures
            r == GenApply(GenAll::Racing(
                crate::comb::race::GenRace(crate::either::Either::Former((functor, c))),
            )),
    {
        GenApply(functor.all(c))
    }
}

impl<F, C> Generator for GenApply<F, C> where
    F: Generator,
    C: Generator<Yield = F::Yield>,
    F::Return: FnOnce<(C::Return,)>,
 {
    open spec fn ready(&self) -> bool {
        self.0.ready() && returns_applicable(self.0)
    }

    /// The items are those of `GenAll`; its pair of return values is applied.
    open spec fn steps_to(&self, r: GenResult<Self>) -> bool {
        match r {
            GenResult::Yield(y, rest) => self.0.steps_to(GenResult::Yield(y, rest.0)),
            GenResult::Return(v) => exists|p: (F::Return, C::Return)|
                self.0.steps_to(GenResult::Return(p)) && call_ensures(p.0, (p.1,), v),
        }
    }

    fn next(self) -> (r: GenResult<Self>) {
        let ghost a0 = self.0;
        match self.0.next() {
            GenResult::Yield(y, s) => {
                proof {
                    lemma_all_returns_step(
                        a0,
                        |p: (F::Return, C::Return)| call_requires(p.0, (p.1,)),
                        y,
                        s,
                    );
                }
                GenResult::Yield(y, GenApply(s))
            },
            GenResult::Return(p) => {
                proof {
                    lemma_all_returns_now(
                        a0,
                        |p: (F::Return, C::Return)| call_requires(p.0, (p.1,)),
                        p,
                    );
                }
                let ghost p0 = p;
                let v = ApplyFn::new().call_once(p);
                let r = GenResult::Return(v);
                assert(a0.steps_to(GenResult::Return(p0)) && call_ensures(
                    p0.0,
                    (p0.1,),
                    r->Return_0,
                ));
                r
            },
        }
    }
}

/// Applies the function that `self` returns to the value that `c` returns.
pub trait Apply: Generator {
    fn apply<C>(self, c: C) -> (r: GenApply<Self, C>) where
        C: Generator<Yield = Self::Yield>,
        Self::Return: FnOnce<(C::Return,)>,

        ensures
            r == GenApply(GenAll::Racing(
                crate::comb::race::GenRace(crate::either::Either::Former((self, c))),
            )),
    {
        GenApply::new(self, c)
    }
}

impl<T: Generator> Apply for T {
}

/// When the two generators, run in turns, yield `ys` and return the function `func` and the
/// argument `x`, the application yields `ys` and returns what `func` gives for `x`.
pub proof fn lemma_apply_runs<F, C>(
    a: GenAll<F, C>,
    ys: Seq<F::Yield>,
    func: F::Return,
    x: C::Return,
    v: <F::Return as FnOnce<(C::Return,)>>::Output,
) where F: Generator, C: Generator<Yield = F::Yield>, F::Return: FnOnce<(C::Return,)>
    requires
        runs(a, ys, (func, x)),
        call_ensures(func, (x,), v),
    ensures
        runs(GenApply(a), ys, v),
    decreases ys.len(),
{
    let g = GenApply(a);
    if ys.len() == 0 {
        let r = GenResult::<GenApply<F, C>>::Return(v);
        assert(g.0.steps_to(GenResult::Return((func, x))) && call_ensures(
            (func, x).0,
            ((func, x).1,),
            r->Return_0,
        ));
        assert(g.steps_to(r));
    } else {
        let a1 = choose|g1: GenAll<F, C>|
            #[trigger] a.steps_to(GenResult::Yield(ys[0], g1)) && runs(g1, ys.drop_first(), (func, x));
        lemma_apply_runs(a1, ys.drop_first(), func, x, v);
        assert(g.steps_to(GenResult::Yield(ys[0], GenApply(a1))));
    }
}

/// The whole run of `functor.apply(c)`: when `functor` alone yields `ys` and returns the
/// function `func`, and `c` alone yields `zs` and returns `x`, the application yields their
/// items in turns, `functor` first, then the rest of the one that runs longer, and returns
/// what `func` gives for `x`.
pub proof fn lemma_apply_whole_runs<F, C>(
    functor: F,
    ys: Seq<F::Yield>,
    func: F::Return,
    c: C,
    zs: Seq<F::Yield>,
    x: C::Return,
    v: <F::Return as FnOnce<(C::Return,)>>::Output,
) where F: Generator, C: Generator<Yield = F::Yield>, F::Return: FnOnce<(C::Return,)>
    requires
        runs(functor, ys, func),
        runs(c, zs, x),
        call_ensures(func, (x,), v),
    ensures
        runs(
            GenApply(GenAll::Racing(GenRace(Either::Former((functor, c))))),
            interleave(ys, zs),
            v,
        ),
{
    lemma_all_runs(functor, ys, func, c, zs, x);
    lemma_apply_runs(
        GenAll::Racing(GenRace(Either::Former((functor, c)))),
        interleave(ys, zs),
        func,
        x,
        v,
    );
}

} // verus!
