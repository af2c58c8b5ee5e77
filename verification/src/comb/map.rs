//! Transforming the inputs, the items and the return value of a coroutine.
use vstd::prelude::*;

use crate::co::{co_runs, CoResult, Coroutine};

verus! {

/// A coroutine `c` with a function `f` attached.
pub struct CoMap<C, F> {
    pub c: C,
    pub f: F,
}

/// The coroutine whose inputs are passed through the function before the inner coroutine
/// gets them.
pub struct CoArgMap<C, F>(pub CoMap<C, F>);

/// Attaches a function to the inputs of a coroutine.
pub trait ArgMap: Sized {
    fn arg_map<F>(self, f: F) -> (r: CoArgMap<Self, F>)
        ensures
            r == CoArgMap(CoMap { c: self, f }),
    {
        CoArgMap(CoMap { c: self, f })
    }
}

impl<C> ArgMap for C {
}

impl<I, O, C, F> Coroutine<I> for CoArgMap<C, F> where F: FnMut(I) -> O, C: Coroutine<O> {
    type Yield = C::Yield;
    type Return = C::Return;

    open spec fn ready(&self) -> bool {
        &&& self.0.c.ready()
        &&& forall|i: I| call_requires(self.0.f, (i,))
    }

    /// The inner coroutine takes the step on the input mapped by the function.
    ///
    /// The rest carries the same function. A call of an `FnMut` closure is modelled by Verus
    /// as leaving the closure as it was (vstd's `axiom_fn_mut_call_ensures`), which holds of
    /// every closure that verified code can build, as none of them changes what it captured.
    /// A closure built elsewhere that changes its captured state goes on, when run, with that
    /// state; of such a closure this clause states only Verus's model.
    open spec fn sends_to(&self, i: I, r: CoResult<C::Yield, Self, C::Return>) -> bool {
        exists|o: O|
            call_ensures(self.0.f, (i,), o) && match r {
                CoResult::Yield(y, rest) => rest.0.f == self.0.f && self.0.c.sends_to(
                    o,
                    CoResult::Yield(y, rest.0.c),
                ),
                CoResult::Return(v) => self.0.c.sends_to(o, CoResult::Return(v)),
            }
    }

    fn send(self, i: I) -> (r: CoResult<C::Yield, Self, C::Return>) {
        let CoArgMap(CoMap { c, mut f }) = self;
        let o = f(i);
        let ghost c0 = c;
        match c.send(o) {
            CoResult::Yield(y, c1) => {
                let r = CoResult::Yield(y, c1.arg_map(f));
                assert(c0.sends_to(o, CoResult::Yield(r->Yield_0, r->Yield_1.0.c)));
                r
            },
            CoResult::Return(v) => {
                let r = CoResult::Return(v);
                assert(c0.sends_to(o, CoResult::Return(r->Return_0)));
                r
            },
        }
    }
}

/// The coroutine whose items are passed through the function.
pub struct CoYieldMap<C, F>(pub CoMap<C, F>);

/// Attaches a function to the items of a coroutine.
pub trait YieldMap: Sized {
    fn yield_map<F>(self, f: F) -> (r: CoYieldMap<Self, F>)
        ensures
            r == CoYieldMap(CoMap { c: self, f }),
    {
        CoYieldMap(CoMap { c: self, f })
    }
}

impl<C> YieldMap for C {
}

impl<I, C, F, O> Coroutine<I> for CoYieldMap<C, F> where C: Coroutine<I>, F: FnMut(C::Yield) -> O {
    type Yield = O;
    type Return = C::Return;

    open spec fn ready(&self) -> bool {
        &&& self.0.c.ready()
        &&& forall|y: C::Yield| call_requires(self.0.f, (y,))
    }

    /// The inner coroutine takes the step; an item it yields is passed through the function.
    ///
    /// The rest carries the same function. A call of an `FnMut` closure is modelled by Verus
    /// as leaving the closure as it was (vstd's `axiom_fn_mut_call_ensures`), which holds of
    /// every closure that verified code can build, as none of them changes what it captured.
    /// A closure built elsewhere that changes its captured state goes on, when run, with that
    /// state; of such a closure this clause states only Verus's model.
    open spec fn sends_to(&self, i: I, r: CoResult<O, Self, C::Return>) -> bool {
        match r {
            CoResult::Yield(z, rest) => rest.0.f == self.0.f && exists|y: C::Yield|
                self.0.c.sends_to(i, CoResult::Yield(y, rest.0.c)) && call_ensures(
                    self.0.f,
                    (y,),
                    z,
                ),
            CoResult::Return(v) => self.0.c.sends_to(i, CoResult::Return(v)),
        }
    }

    fn send(self, i: I) -> (r: CoResult<O, Self, C::Return>) {
        let CoYieldMap(CoMap { c, mut f }) = self;
        let ghost c0 = c;
        let ghost f0 = f;
        match c.send(i) {
            CoResult::Yield(y, c1) => {
                let z = f(y);
                let r = CoResult::Yield(z, c1.yield_map(f));
                assert(c0.sends_to(i, CoResult::Yield(y, r->Yield_1.0.c)) && call_ensures(
                    f0,
                    (y,),
                    r->Yield_0,
                ));
                r
            },
            CoResult::Return(v) => CoResult::Return(v),
        }
    }
}

/// The coroutine whose return value is passed through the function.
pub struct CoReturnMap<C, F>(pub CoMap<C, F>);

/// Attaches a function to the return value of a coroutine.
pub trait ReturnMap: Sized {
    fn return_map<F>(self, f: F) -> (r: CoReturnMap<Self, F>)
        ensures
            r == CoReturnMap(CoMap { c: self, f }),
    {
        CoReturnMap(CoMap { c: self, f })
    }
}

impl<C> ReturnMap for C {
}

impl<I, C, F> Coroutine<I> for CoReturnMap<C, F> where C: Coroutine<I>, F: FnOnce<(C::Return,)> {
    type Yield = C::Yield;
    type Return = F::Output;

    open spec fn ready(&self) -> bool {
        &&& self.0.c.ready()
        &&& forall|x: C::Return| call_requires(self.0.f, (x,))
    }

    /// The inner coroutine takes the step; the value it returns is passed through the
    /// function.
    open spec fn sends_to(&self, i: I, r: CoResult<C::Yield, Self, F::Output>) -> bool {
        match r {
            CoResult::Yield(y, rest) => rest.0.f == self.0.f && self.0.c.sends_to(
                i,
                CoResult::Yield(y, rest.0.c),
            ),
            CoResult::Return(v) => exists|x: C::Return|
                self.0.c.sends_to(i, CoResult::Return(x)) && call_ensures(self.0.f, (x,), v),
        }
    }

    fn send(self, i: I) -> (r: CoResult<C::Yield, Self, F::Output>) {
        let CoReturnMap(CoMap { c, f }) = self;
        let ghost c0 = c;
        let ghost f0 = f;
        match c.send(i) {
            CoResult::Yield(y, c1) => CoResult::Yield(y, c1.return_map(f)),
            CoResult::Return(x) => {
                let v = f(x);
                let r = CoResult::Return(v);
                assert(c0.sends_to(i, CoResult::Return(x)) && call_ensures(f0, (x,), r->Return_0));
                r
            },
        }
    }
}

/// When the inner coroutine, given the inputs `os` that `f` makes of `is` one for one, yields
/// `ys` and returns `r`, the coroutine with mapped inputs does so given `is`.
pub proof fn lemma_arg_map_runs<I, O, C, F>(
    c: C,
    f: F,
    is: Seq<I>,
    os: Seq<O>,
    ys: Seq<C::Yield>,
    r: C::Return,
) where F: FnMut(I) -> O, C: Coroutine<O>
    requires
        co_runs(c, os, ys, r),
        is.len() == os.len(),
        forall|k: int| 0 <= k < is.len() ==> call_ensures(f, (is[k],), #[trigger] os[k]),
    ensures
        co_runs(CoArgMap(CoMap { c, f }), is, ys, r),
    decreases ys.len(),
{
    let g = CoArgMap(CoMap { c, f });
    assert(call_ensures(f, (is[0],), os[0]));
    if ys.len() == 0 {
        let res = CoResult::<C::Yield, CoArgMap<C, F>, C::Return>::Return(r);
        assert(call_ensures(g.0.f, (is[0],), os[0]) && g.0.c.sends_to(
            os[0],
            CoResult::Return(res->Return_0),
        ));
        assert(g.sends_to(is[0], res));
    } else {
        let c1 = choose|g1: C|
            #[trigger] c.sends_to(os[0], CoResult::Yield(ys[0], g1)) && co_runs(
                g1,
                os.drop_first(),
                ys.drop_first(),
                r,
            );
        assert forall|k: int| 0 <= k < is.drop_first().len() implies call_ensures(
            f,
            (is.drop_first()[k],),
            #[trigger] os.drop_first()[k],
        ) by {
            assert(call_ensures(f, (is[k + 1],), os[k + 1]));
        }
        lemma_arg_map_runs(c1, f, is.drop_first(), os.drop_first(), ys.drop_first(), r);
        let res = CoResult::<C::Yield, CoArgMap<C, F>, C::Return>::Yield(ys[0], CoArgMap(CoMap { c: c1, f }));
        assert(call_ensures(g.0.f, (is[0],), os[0]) && g.0.c.sends_to(
            os[0],
            CoResult::Yield(res->Yield_0, res->Yield_1.0.c),
        ));
        assert(g.sends_to(is[0], res));
    }
}

/// A run of `c` with items `ys` is a run of `c.yield_map(f)` with the items `zs` that `f`
/// gives for them, one for one, on the same inputs and with the same return value.
pub proof fn lemma_yield_map_runs<I, C, F, O>(
    c: C,
    f: F,
    is: Seq<I>,
    ys: Seq<C::Yield>,
    zs: Seq<O>,
    r: C::Return,
) where C: Coroutine<I>, F: FnMut(C::Yield) -> O
    requires
        co_runs(c, is, ys, r),
        zs.len() == ys.len(),
        forall|k: int| 0 <= k < ys.len() ==> call_ensures(f, (ys[k],), #[trigger] zs[k]),
    ensures
        co_runs(CoYieldMap(CoMap { c, f }), is, zs, r),
    decreases ys.len(),
{
    let g = CoYieldMap(CoMap { c, f });
    if ys.len() == 0 {
        assert(g.sends_to(is[0], CoResult::Return(r)));
    } else {
        let c1 = choose|g1: C|
            #[trigger] c.sends_to(is[0], CoResult::Yield(ys[0], g1)) && co_runs(
                g1,
                is.drop_first(),
                ys.drop_first(),
                r,
            );
        assert forall|k: int| 0 <= k < ys.drop_first().len() implies call_ensures(
            f,
            (ys.drop_first()[k],),
            #[trigger] zs.drop_first()[k],
        ) by {
            assert(call_ensures(f, (ys[k + 1],), zs[k + 1]));
        }
        lemma_yield_map_runs(c1, f, is.drop_first(), ys.drop_first(), zs.drop_first(), r);
        let res = CoResult::<O, CoYieldMap<C, F>, C::Return>::Yield(zs[0], CoYieldMap(CoMap { c: c1, f }));
        assert(g.0.c.sends_to(is[0], CoResult::Yield(ys[0], res->Yield_1.0.c)) && call_ensures(
            g.0.f,
            (ys[0],),
            res->Yield_0,
        ));
        assert(g.sends_to(is[0], res));
    }
}

/// A run of `c` that returns `x` is a run of `c.return_map(f)` that returns `f(x)`, on the
/// same inputs and with the same items.
pub proof fn lemma_return_map_runs<I, C, F>(
    c: C,
    f: F,
    is: Seq<I>,
    ys: Seq<C::Yield>,
    x: C::Return,
    v: F::Output,
) where C: Coroutine<I>, F: FnOnce<(C::Return,)>
    requires
        co_runs(c, is, ys, x),
        call_ensures(f, (x,), v),
    ensures
        co_runs(CoReturnMap(CoMap { c, f }), is, ys, v),
    decreases ys.len(),
{
    let g = CoReturnMap(CoMap { c, f });
    if ys.len() == 0 {
        let res = CoResult::<C::Yield, CoReturnMap<C, F>, F::Output>::Return(v);
        assert(g.0.c.sends_to(is[0], CoResult::Return(x)) && call_ensures(
            g.0.f,
            (x,),
            res->Return_0,
        ));
        assert(g.sends_to(is[0], res));
    } else {
        let c1 = choose|g1: C|
            #[trigger] c.sends_to(is[0], CoResult::Yield(ys[0], g1)) && co_runs(
                g1,
                is.drop_first(),
                ys.drop_first(),
                x,
            );
        lemma_return_map_runs(c1, f, is.drop_first(), ys.drop_first(), x, v);
        assert(g.sends_to(is[0], CoResult::Yield(ys[0], CoReturnMap(CoMap { c: c1, f }))));
    }
}

} // verus!
