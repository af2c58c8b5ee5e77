//! Flattening a coroutine that returns a coroutine.
use vstd::prelude::*;

use crate::co::{
    co_all_returns, co_runs, lemma_co_all_returns_now, lemma_co_all_returns_step, CoResult,
    Coroutine,
};

verus! {

/// A coroutine, driven with `()`, that runs `Outer` to its end and then runs the coroutine it
/// returned.
pub enum CoJoin<C: Coroutine<()>> {
    /// The outer coroutine is still running.
    Outer(C),
    /// The outer coroutine has returned this coroutine, which is now running.
    Inner(C::Return),
}

/// `z` is a value that `From` makes of `y`.
pub open spec fn converts<A, B: From<A>>(y: A, z: B) -> bool {
    call_ensures(<B as From<A>>::from, (y,), z)
}

impl<C> Coroutine<()> for CoJoin<C> where
    C: Coroutine<()>,
    C::Return: Coroutine<()>,
    C::Yield: From<<C::Return as Coroutine<()>>::Yield>,
 {
    type Yield = C::Yield;
    type Return = <C::Return as Coroutine<()>>::Return;

    open spec fn ready(&self) -> bool {
        match self {
            CoJoin::Outer(c) => c.ready() && co_all_returns(*c, |i: C::Return| i.ready()),
            CoJoin::Inner(i) => i.ready(),
        }
    }

    /// The items of the outer coroutine come first; when it returns, the returned coroutine
    /// takes over within the same step, and each of its items is converted with `From`.
    open spec fn sends_to(
        &self,
        u: (),
        r: CoResult<C::Yield, Self, <C::Return as Coroutine<()>>::Return>,
    ) -> bool {
        match self {
            CoJoin::Outer(c) => match r {
                CoResult::Yield(y, CoJoin::Outer(c1)) => c.sends_to((), CoResult::Yield(y, c1)),
                CoResult::Yield(z, CoJoin::Inner(i1)) => exists|
                    i: C::Return,
                    y: <C::Return as Coroutine<()>>::Yield,
                |
                    #![trigger c.sends_to((), CoResult::Return(i)), converts(y, z)]
                    c.sends_to((), CoResult::Return(i)) && i.sends_to((), CoResult::Yield(y, i1))
                        && converts(y, z),
                CoResult::Return(v) => exists|i: C::Return|
                    c.sends_to((), CoResult::Return(i)) && i.sends_to((), CoResult::Return(v)),
            },
            CoJoin::Inner(i) => match r {
                CoResult::Yield(z, CoJoin::Inner(i1)) => exists|
                    y: <C::Return as Coroutine<()>>::Yield,
                |
                    #![trigger converts(y, z)]
                    i.sends_to((), CoResult::Yield(y, i1)) && converts(y, z),
                CoResult::Yield(_, CoJoin::Outer(_)) => false,
                CoResult::Return(v) => i.sends_to((), CoResult::Return(v)),
            },
        }
    }

    fn send(self, u: ()) -> (r: CoResult<C::Yield, Self, <C::Return as Coroutine<()>>::Return>) {
        match self {
            CoJoin::Outer(c) => {
                let ghost c0 = c;
                match c.send(()) {
                    CoResult::Yield(y, outer) => {
                        proof {
                            lemma_co_all_returns_step(c0, |i: C::Return| i.ready(), (), y, outer);
                        }
                        CoResult::Yield(y, outer.join())
                    },
                    CoResult::Return(inner) => {
                        proof {
                            lemma_co_all_returns_now(c0, |i: C::Return| i.ready(), (), inner);
                        }
                        let ghost i0 = inner;
                        match inner.send(()) {
                            CoResult::Yield(y, i1) => {
                                let r = CoResult::Yield(y.into(), CoJoin::Inner(i1));
                                assert(c0.sends_to((), CoResult::Return(i0)) && i0.sends_to(
                                    (),
                                    CoResult::Yield(y, r->Yield_1->Inner_0),
                                ) && converts(y, r->Yield_0));
                                r
                            },
                            CoResult::Return(v) => {
                                let r = CoResult::Return(v);
                                assert(c0.sends_to((), CoResult::Return(i0)) && i0.sends_to(
                                    (),
                                    CoResult::Return(r->Return_0),
                                ));
                                r
                            },
                        }
                    },
                }
            },
            CoJoin::Inner(c) => match c.send(()) {
                CoResult::Yield(y, inner) => {
                    let r = CoResult::Yield(y.into(), CoJoin::Inner(inner));
                    assert(converts(y, r->Yield_0));
                    r
                },
                CoResult::Return(result) => CoResult::Return(result),
            },
        }
    }
}

/// Flattens a coroutine whose return value is again a coroutine.
pub trait Join: Coroutine<()> {
    fn join(self) -> (r: CoJoin<Self>)
        ensures
            r == CoJoin::<Self>::Outer(self),
    {
        CoJoin::Outer(self)
    }
}

impl<C: Coroutine<()>> Join for C {
}

/// `zs2` holds, one for one, values that `From` makes of the items `zs`.
pub open spec fn converts_all<A, B: From<A>>(zs: Seq<A>, zs2: Seq<B>) -> bool {
    &&& zs2.len() == zs.len()
    &&& forall|k: int| 0 <= k < zs.len() ==> converts(zs[k], #[trigger] zs2[k])
}

/// A run of the returned coroutine is a run of the joined coroutine in its inner stage, with
/// its items converted.
pub proof fn lemma_co_join_inner_runs<C>(
    i: C::Return,
    us: Seq<()>,
    zs: Seq<<C::Return as Coroutine<()>>::Yield>,
    zs2: Seq<C::Yield>,
    r: <C::Return as Coroutine<()>>::Return,
) where
    C: Coroutine<()>,
    C::Return: Coroutine<()>,
    C::Yield: From<<C::Return as Coroutine<()>>::Yield>,

    requires
        co_runs(i, us, zs, r),
        converts_all(zs, zs2),
    ensures
        co_runs(CoJoin::<C>::Inner(i), us, zs2, r),
    decreases zs.len(),
{
    if zs.len() > 0 {
        let i1 = choose|g1: C::Return|
            #[trigger] i.sends_to(us[0], CoResult::Yield(zs[0], g1)) && co_runs(
                g1,
                us.drop_first(),
                zs.drop_first(),
                r,
            );
        assert(converts(zs[0], zs2[0]));
        assert forall|k: int| 0 <= k < zs.drop_first().len() implies converts(
            zs.drop_first()[k],
            #[trigger] zs2.drop_first()[k],
        ) by {
            assert(converts(zs[k + 1], zs2[k + 1]));
        }
        lemma_co_join_inner_runs::<C>(i1, us.drop_first(), zs.drop_first(), zs2.drop_first(), r);
        let res = CoResult::<C::Yield, CoJoin<C>, <C::Return as Coroutine<()>>::Return>::Yield(
            zs2[0],
            CoJoin::<C>::Inner(i1),
        );
        assert(i.sends_to((), CoResult::Yield(zs[0], i1)) && converts(zs[0], res->Yield_0));
        assert(CoJoin::<C>::Inner(i).sends_to(us[0], CoResult::Yield(zs2[0], CoJoin::<C>::Inner(i1))));
    }
}

/// Joining runs the outer coroutine and then the coroutine it returns: the items are those of
/// the outer run followed by those of the inner run, converted, and the return value is the
/// inner one. The step on which the outer one returns is also the first step of the inner one.
pub proof fn lemma_co_join_runs<C>(
    c: C,
    us: Seq<()>,
    ys: Seq<C::Yield>,
    i: C::Return,
    vs: Seq<()>,
    zs: Seq<<C::Return as Coroutine<()>>::Yield>,
    zs2: Seq<C::Yield>,
    r: <C::Return as Coroutine<()>>::Return,
) where
    C: Coroutine<()>,
    C::Return: Coroutine<()>,
    C::Yield: From<<C::Return as Coroutine<()>>::Yield>,

    requires
        co_runs(c, us, ys, i),
        co_runs(i, vs, zs, r),
        converts_all(zs, zs2),
    ensures
        co_runs(CoJoin::Outer(c), us.drop_last() + vs, ys + zs2, r),
    decreases ys.len(),
{
    if ys.len() > 0 {
        let c1 = choose|g1: C|
            #[trigger] c.sends_to(us[0], CoResult::Yield(ys[0], g1)) && co_runs(
                g1,
                us.drop_first(),
                ys.drop_first(),
                i,
            );
        lemma_co_join_runs(c1, us.drop_first(), ys.drop_first(), i, vs, zs, zs2, r);
        assert(CoJoin::Outer(c).sends_to(us[0], CoResult::Yield(ys[0], CoJoin::Outer(c1))));
        crate::co::lemma_co_runs_cons(
            CoJoin::Outer(c),
            us[0],
            ys[0],
            CoJoin::Outer(c1),
            us.drop_first().drop_last() + vs,
            ys.drop_first() + zs2,
            r,
        );
        assert(seq![us[0]] + (us.drop_first().drop_last() + vs) =~= us.drop_last() + vs);
        assert(seq![ys[0]] + (ys.drop_first() + zs2) =~= ys + zs2);
    } else {
        assert(us.drop_last() + vs =~= vs);
        assert(ys + zs2 =~= zs2);
        let g = CoJoin::<C>::Outer(c);
        if zs.len() == 0 {
            let res = CoResult::<C::Yield, CoJoin<C>, <C::Return as Coroutine<()>>::Return>::Return(r);
            assert(g->Outer_0.sends_to((), CoResult::Return(i)) && i.sends_to(
                (),
                CoResult::Return(res->Return_0),
            ));
            assert(g.sends_to(vs[0], res));
        } else {
            let i1 = choose|g1: C::Return|
                #[trigger] i.sends_to(vs[0], CoResult::Yield(zs[0], g1)) && co_runs(
                    g1,
                    vs.drop_first(),
                    zs.drop_first(),
                    r,
                );
            assert(converts(zs[0], zs2[0]));
            assert forall|k: int| 0 <= k < zs.drop_first().len() implies converts(
                zs.drop_first()[k],
                #[trigger] zs2.drop_first()[k],
            ) by {
                assert(converts(zs[k + 1], zs2[k + 1]));
            }
            lemma_co_join_inner_runs::<C>(i1, vs.drop_first(), zs.drop_first(), zs2.drop_first(), r);
            let res = CoResult::<C::Yield, CoJoin<C>, <C::Return as Coroutine<()>>::Return>::Yield(
                zs2[0],
                CoJoin::Inner(i1),
            );
            assert(g->Outer_0.sends_to((), CoResult::Return(i)) && i.sends_to(
                (),
                CoResult::Yield(zs[0], res->Yield_1->Inner_0),
            ) && converts(zs[0], res->Yield_0));
            assert(g.sends_to(vs[0], res));
        }
    }
}

} // verus!
