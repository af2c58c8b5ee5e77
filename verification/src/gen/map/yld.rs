//! Transforming the items a generator yields.
use vstd::prelude::*;

use crate::gen::{runs, GenResult, Generator, Returns, Yields};

verus! {

/// The generator `self.0` whose items are passed through `self.1`.
pub struct GenMapYield<C, F>(pub C, pub F);

impl<C: Yields, F: FnMut(C::Yield) -> O, O> Yields for GenMapYield<C, F> {
    type Yield = O;
}

impl<C: Returns, F> Returns for GenMapYield<C, F> {
    type Return = C::Return;
}

impl<C, F, O> Generator for GenMapYield<C, F> where C: Generator, F: FnMut(C::Yield) -> O {
    open spec fn ready(&self) -> bool {
        &&& self.0.ready()
        &&& forall|y: C::Yield| call_requires(self.1, (y,))
    }

    /// Each item is passed through the function; the return value is unchanged.
    ///
    /// The rest carries the same function. A call of an `FnMut` closure is modelled by Verus
    /// as leaving the closure as it was (vstd's `axiom_fn_mut_call_ensures`), which holds of
    /// every closure that verified code can build, as none of them changes what it captured.
    /// A closure built elsewhere that changes its captured state goes on, when run, with that
    /// state; of such a closure this clause states only Verus's model.
    open spec fn steps_to(&self, r: GenResult<Self>) -> bool {
        match r {
            GenResult::Yield(z, rest) => rest.1 == self.1 && exists|y: C::Yield|
                self.0.steps_to(GenResult::Yield(y, rest.0)) && call_ensures(self.1, (y,), z),
            GenResult::Return(v) => self.0.steps_to(GenResult::Return(v)),
        }
    }

    fn next(self) -> (r: GenResult<Self>) {
        let GenMapYield(c, mut f) = self;
        match c.next() {
            GenResult::Yield(y, rest) => {
                let z = f(y);
                let r = GenResult::Yield(z, GenMapYield(rest, f));
                assert(call_ensures(f, (y,), r->Yield_0));
                assert(c.steps_to(GenResult::Yield(y, r->Yield_1.0)));
                r
            },
            GenResult::Return(v) => GenResult::Return(v),
        }
    }
}

/// Attaches a function to each item of a generator.
pub trait MapYield: Generator {
    fn map_yield<F, O>(self, f: F) -> (r: GenMapYield<Self, F>) where
        F: FnMut(Self::Yield) -> O,

        ensures
            r == GenMapYield(self, f),
    {
        GenMapYield(self, f)
    }
}

impl<C: Generator> MapYield for C {
}

/// A run of `c` with items `ys` is a run of `c.map_yield(f)` with the items `zs` that `f`
/// gives for them, one for one, and the same return value.
pub proof fn lemma_map_yield_runs<C, F, O>(
    c: C,
    f: F,
    ys: Seq<C::Yield>,
    zs: Seq<O>,
    r: C::Return,
) where C: Generator, F: FnMut(C::Yield) -> O
    requires
        runs(c, ys, r),
        zs.len() == ys.len(),
        forall|i: int| 0 <= i < ys.len() ==> call_ensures(f, (ys[i],), #[trigger] zs[i]),
    ensures
        runs(GenMapYield(c, f), zs, r),
    decreases ys.len(),
{
    if ys.len() > 0 {
        let c1 = choose|g1: C|
            #[trigger] c.steps_to(GenResult::Yield(ys[0], g1)) && runs(g1, ys.drop_first(), r);
        assert forall|i: int| 0 <= i < ys.drop_first().len() implies call_ensures(
            f,
            (ys.drop_first()[i],),
            #[trigger] zs.drop_first()[i],
        ) by {
            assert(call_ensures(f, (ys[i + 1],), zs[i + 1]));
        }
        lemma_map_yield_runs(c1, f, ys.drop_first(), zs.drop_first(), r);
        let g = GenMapYield(c, f);
        let r = GenResult::<GenMapYield<C, F>>::Yield(zs[0], GenMapYield(c1, f));
        assert(call_ensures(g.1, (ys[0],), r->Yield_0));
        assert(g.0.steps_to(GenResult::Yield(ys[0], r->Yield_1.0)));
        assert(GenMapYield(c, f).steps_to(r));
    }
}

/// Mapping the items with `g` and then with `h` runs as mapping them once with a function `k`
/// that gives exactly what `h` gives for what `g` gives: the same items and the same return
/// value.
pub proof fn lemma_map_yield_compose<C, G, M, H, O, K>(
    c: C,
    g: G,
    h: H,
    k: K,
    zs: Seq<O>,
    r: C::Return,
) where
    C: Generator,
    G: FnMut(C::Yield) -> M,
    H: FnMut(M) -> O,
    K: FnMut(C::Yield) -> O,

    requires
        forall|y: C::Yield, z: O|
            #![trigger call_ensures(k, (y,), z)]
            call_ensures(k, (y,), z) <==> exists|m: M|
                call_ensures(g, (y,), m) && call_ensures(h, (m,), z),
    ensures
        runs(GenMapYield(GenMapYield(c, g), h), zs, r) <==> runs(GenMapYield(c, k), zs, r),
    decreases zs.len(),
{
    let d = GenMapYield(GenMapYield(c, g), h);
    let e = GenMapYield(c, k);
    if zs.len() > 0 {
        if runs(d, zs, r) {
            let d1 = choose|g1: GenMapYield<GenMapYield<C, G>, H>|
                #[trigger] d.steps_to(GenResult::Yield(zs[0], g1)) && runs(g1, zs.drop_first(), r);
            let m = choose|m: M|
                d.0.steps_to(GenResult::Yield(m, d1.0)) && call_ensures(h, (m,), zs[0]);
            let y = choose|y: C::Yield|
                c.steps_to(GenResult::Yield(y, d1.0.0)) && call_ensures(g, (y,), m);
            let c1 = d1.0.0;
            assert(d1 == GenMapYield(GenMapYield(c1, g), h));
            lemma_map_yield_compose(c1, g, h, k, zs.drop_first(), r);
            assert(call_ensures(k, (y,), zs[0]));
            let r1 = GenResult::<GenMapYield<C, K>>::Yield(zs[0], GenMapYield(c1, k));
            assert(e.0.steps_to(GenResult::Yield(y, r1->Yield_1.0)) && call_ensures(
                e.1,
                (y,),
                r1->Yield_0,
            ));
            assert(e.steps_to(r1));
        }
        if runs(e, zs, r) {
            let e1 = choose|g1: GenMapYield<C, K>|
                #[trigger] e.steps_to(GenResult::Yield(zs[0], g1)) && runs(g1, zs.drop_first(), r);
            let y = choose|y: C::Yield|
                c.steps_to(GenResult::Yield(y, e1.0)) && call_ensures(k, (y,), zs[0]);
            let c1 = e1.0;
            assert(e1 == GenMapYield(c1, k));
            let m = choose|m: M| call_ensures(g, (y,), m) && call_ensures(h, (m,), zs[0]);
            lemma_map_yield_compose(c1, g, h, k, zs.drop_first(), r);
            let inner = GenMapYield(c, g);
            let r2 = GenResult::<GenMapYield<C, G>>::Yield(m, GenMapYield(c1, g));
            assert(inner.0.steps_to(GenResult::Yield(y, r2->Yield_1.0)) && call_ensures(
                inner.1,
                (y,),
                r2->Yield_0,
            ));
            assert(inner.steps_to(r2));
            let r3 = GenResult::<GenMapYield<GenMapYield<C, G>, H>>::Yield(
                zs[0],
                GenMapYield(GenMapYield(c1, g), h),
            );
            assert(d.0.steps_to(GenResult::Yield(m, r3->Yield_1.0)) && call_ensures(
                d.1,
                (m,),
                r3->Yield_0,
            ));
            assert(d.steps_to(r3));
        }
    }
}

/// Mapping the items with a function that gives back what it is given runs as the generator
/// itself: the same items and the same return value.
pub proof fn lemma_map_yield_identity<C, K>(c: C, k: K, ys: Seq<C::Yield>, r: C::Return) where
    C: Generator,
    K: FnMut(C::Yield) -> C::Yield,

    requires
        forall|y: C::Yield, z: C::Yield| #[trigger] call_ensures(k, (y,), z) <==> z == y,
    ensures
        runs(GenMapYield(c, k), ys, r) <==> runs(c, ys, r),
    decreases ys.len(),
{
    let e = GenMapYield(c, k);
    if ys.len() > 0 {
        if runs(e, ys, r) {
            let e1 = choose|g1: GenMapYield<C, K>|
                #[trigger] e.steps_to(GenResult::Yield(ys[0], g1)) && runs(g1, ys.drop_first(), r);
            let y = choose|y: C::Yield|
                c.steps_to(GenResult::Yield(y, e1.0)) && call_ensures(k, (y,), ys[0]);
            assert(e1 == GenMapYield(e1.0, k));
            lemma_map_yield_identity(e1.0, k, ys.drop_first(), r);
            assert(c.steps_to(GenResult::Yield(ys[0], e1.0)));
        }
        if runs(c, ys, r) {
            let c1 = choose|g1: C|
                #[trigger] c.steps_to(GenResult::Yield(ys[0], g1)) && runs(g1, ys.drop_first(), r);
            lemma_map_yield_identity(c1, k, ys.drop_first(), r);
            let r1 = GenResult::<GenMapYield<C, K>>::Yield(ys[0], GenMapYield(c1, k));
            assert(call_ensures(k, (ys[0],), ys[0]));
            assert(e.0.steps_to(GenResult::Yield(ys[0], r1->Yield_1.0)) && call_ensures(
                e.1,
                (ys[0],),
                r1->Yield_0,
            ));
            assert(e.steps_to(r1));
        }
    }
}

} // verus!
