//! Transforming the value a generator returns.
use vstd::prelude::*;

use crate::gen::{runs, yields_to, GenResult, Generator, Returns, Yields};

verus! {

/// The generator `self.0` whose return value is passed through `self.1`.
pub struct GenMapReturn<C, F>(pub C, pub F);

impl<C: Yields, F> Yields for GenMapReturn<C, F> {
    type Yield = C::Yield;
}

impl<C: Returns, F: FnOnce<(C::Return,)>> Returns for GenMapReturn<C, F> {
    type Return = F::Output;
}

impl<C, F> Generator for GenMapReturn<C, F> where C: Generator, F: FnOnce<(C::Return,)> {
    open spec fn ready(&self) -> bool {
        &&& self.0.ready()
        &&& forall|x: C::Return| call_requires(self.1, (x,))
    }

    /// Items pass through unchanged; the function is applied to the return value.
    open spec fn steps_to(&self, r: GenResult<Self>) -> bool {
        match r {
            GenResult::Yield(y, rest) => rest.1 == self.1 && self.0.steps_to(
                GenResult::Yield(y, rest.0),
            ),
            GenResult::Return(v) => exists|x: C::Return|
                self.0.steps_to(GenResult::Return(x)) && call_ensures(self.1, (x,), v),
        }
    }

    fn next(self) -> (r: GenResult<Self>) {
        let GenMapReturn(c, f) = self;
        match c.next() {
            GenResult::Yield(y, rest) => GenResult::Yield(y, GenMapReturn(rest, f)),
            GenResult::Return(x) => {
                let v = f(x);
                let r = GenResult::Return(v);
                assert(call_ensures(f, (x,), r->Return_0));
                r
            },
        }
    }
}

/// Attaches a function to the return value of a generator.
pub trait MapReturn: Generator {
    fn map_return<F>(self, f: F) -> (r: GenMapReturn<Self, F>) where
        F: FnOnce<(Self::Return,)>,

        ensures
            r == GenMapReturn(self, f),
    {
        GenMapReturn(self, f)
    }
}

impl<C: Generator> MapReturn for C {
}

/// Mapping the return value keeps the items: what `c` yields, `c.map_return(f)` yields.
pub proof fn lemma_map_return_yields<C, F>(c: C, f: F, ys: Seq<C::Yield>, h: C) where
    C: Generator,
    F: FnOnce<(C::Return,)>,

    requires
        yields_to(c, ys, h),
    ensures
        yields_to(GenMapReturn(c, f), ys, GenMapReturn(h, f)),
    decreases ys.len(),
{
    if ys.len() > 0 {
        let c1 = choose|g1: C|
            #[trigger] c.steps_to(GenResult::Yield(ys[0], g1)) && yields_to(g1, ys.drop_first(), h);
        lemma_map_return_yields(c1, f, ys.drop_first(), h);
        assert(GenMapReturn(c, f).steps_to(GenResult::Yield(ys[0], GenMapReturn(c1, f))));
    }
}

/// A run of `c` that returns `x` is a run of `c.map_return(f)` that returns `f(x)`.
pub proof fn lemma_map_return_runs<C, F>(c: C, f: F, ys: Seq<C::Yield>, x: C::Return, v: F::Output) where
    C: Generator,
    F: FnOnce<(C::Return,)>,

    requires
        runs(c, ys, x),
        call_ensures(f, (x,), v),
    ensures
        runs(GenMapReturn(c, f), ys, v),
    decreases ys.len(),
{
    if ys.len() > 0 {
        let c1 = choose|g1: C|
            #[trigger] c.steps_to(GenResult::Yield(ys[0], g1)) && runs(g1, ys.drop_first(), x);
        lemma_map_return_runs(c1, f, ys.drop_first(), x, v);
        assert(GenMapReturn(c, f).steps_to(GenResult::Yield(ys[0], GenMapReturn(c1, f))));
    } else {
        let g = GenMapReturn(c, f);
        let r = GenResult::<GenMapReturn<C, F>>::Return(v);
        assert(g.0.steps_to(GenResult::Return(x)));
        assert(call_ensures(g.1, (x,), r->Return_0));
        assert(g.steps_to(r));
    }
}

/// Every run of `c.map_return(f)` comes from a run of `c` with the same items, whose return
/// value `f` maps to the final one.
pub proof fn lemma_map_return_runs_back<C, F>(c: C, f: F, ys: Seq<C::Yield>, v: F::Output) where
    C: Generator,
    F: FnOnce<(C::Return,)>,

    requires
        runs(GenMapReturn(c, f), ys, v),
    ensures
        exists|x: C::Return| runs(c, ys, x) && call_ensures(f, (x,), v),
    decreases ys.len(),
{
    if ys.len() > 0 {
        let m1 = choose|g1: GenMapReturn<C, F>|
            #[trigger] GenMapReturn(c, f).steps_to(GenResult::Yield(ys[0], g1)) && runs(
                g1,
                ys.drop_first(),
                v,
            );
        lemma_map_return_runs_back(m1.0, f, ys.drop_first(), v);
        let x = choose|x: C::Return| runs(m1.0, ys.drop_first(), x) && call_ensures(f, (x,), v);
        assert(runs(c, ys, x));
    } else {
        let x = choose|x: C::Return| c.steps_to(GenResult::Return(x)) && call_ensures(f, (x,), v);
        assert(runs(c, ys, x));
    }
}

/// Stepping keeps the function: whatever `GenMapReturn(c, f)` yields its way to carries `f`.
pub proof fn lemma_map_return_keeps_fn<C, F>(m: GenMapReturn<C, F>, ys: Seq<C::Yield>, h: GenMapReturn<C, F>) where
    C: Generator,
    F: FnOnce<(C::Return,)>,

    requires
        yields_to(m, ys, h),
    ensures
        h.1 == m.1,
    decreases ys.len(),
{
    if ys.len() > 0 {
        let m1 = choose|g1: GenMapReturn<C, F>|
            #[trigger] m.steps_to(GenResult::Yield(ys[0], g1)) && yields_to(g1, ys.drop_first(), h);
        lemma_map_return_keeps_fn(m1, ys.drop_first(), h);
    }
}

} // verus!
