//! Flattening a generator that returns a generator.
use vstd::prelude::*;

use crate::gen::{
    all_returns, lemma_all_returns_now, lemma_all_returns_step, runs, GenResult, Generator,
    Returns, Yields,
};

verus! {

/// A generator that runs `Outer` to its end and then runs the generator it returned.
pub enum GenJoin<C: Returns> {
    /// The outer generator is still running.
    Outer(C),
    /// The outer generator has returned this generator, which is now running.
    Inner(C::Return),
}

impl<C: Yields + Returns> Yields for GenJoin<C> {
    type Yield = C::Yield;
}

impl<C: Returns> Returns for GenJoin<C> where C::Return: Returns {
    type Return = <C::Return as Returns>::Return;
}

/// Every value that `c` can return is a generator that is ready to run.
pub open spec fn returns_ready<C: Generator>(c: C) -> bool where C::Return: Generator {
    all_returns(c, |i: C::Return| i.ready())
}

impl<C> Generator for GenJoin<C> where
    C: Generator,
    C::Return: Generator<Yield = C::Yield>,
 {
    open spec fn ready(&self) -> bool {
        match self {
            GenJoin::Outer(c) => c.ready() && returns_ready(*c),
            GenJoin::Inner(i) => i.ready(),
        }
    }

    /// The items of the outer generator come first; when it returns, the returned generator
    /// takes over within the same step.
    open spec fn steps_to(&self, r: GenResult<Self>) -> bool {
        match self {
            GenJoin::Outer(c) => match r {
                GenResult::Yield(y, rest) => match rest {
                    GenJoin::Outer(c1) => c.steps_to(GenResult::Yield(y, c1)),
                    GenJoin::Inner(i1) => exists|i: C::Return|
                        c.steps_to(GenResult::Return(i)) && i.steps_to(GenResult::Yield(y, i1)),
                },
                GenResult::Return(v) => exists|i: C::Return|
                    c.steps_to(GenResult::Return(i)) && i.steps_to(GenResult::Return(v)),
            },
            GenJoin::Inner(i) => match r {
                GenResult::Yield(y, rest) => match rest {
                    GenJoin::Outer(_) => false,
                    GenJoin::Inner(i1) => i.steps_to(GenResult::Yield(y, i1)),
                },
                GenResult::Return(v) => i.steps_to(GenResult::Return(v)),
            },
        }
    }

    fn next(self) -> (r: GenResult<Self>) {
        match self {
            GenJoin::Outer(c) => {
                let ghost c0 = c;
                match c.next() {
                    GenResult::Yield(y, outer) => {
                        proof {
                            lemma_all_returns_step(c0, |i: C::Return| i.ready(), y, outer);
                        }
                        GenResult::Yield(y, outer.join())
                    },
                    GenResult::Return(inner) => {
                        proof {
                            lemma_all_returns_now(c0, |i: C::Return| i.ready(), inner);
                        }
                        let ghost i0 = inner;
                        match inner.next() {
                            GenResult::Yield(y, i1) => {
                                let r = GenResult::Yield(y, GenJoin::Inner(i1));
                                assert(c0.steps_to(GenResult::Return(i0)) && i0.steps_to(
                                    GenResult::Yield(r->Yield_0, r->Yield_1->Inner_0),
                                ));
                                r
                            },
                            GenResult::Return(v) => {
                                let r = GenResult::Return(v);
                                assert(c0.steps_to(GenResult::Return(i0)) && i0.steps_to(
                                    GenResult::Return(r->Return_0),
                                ));
                                r
                            },
                        }
                    },
                }
            },
            GenJoin::Inner(i) => match i.next() {
                GenResult::Yield(y, i1) => GenResult::Yield(y, GenJoin::Inner(i1)),
                GenResult::Return(v) => GenResult::Return(v),
            },
        }
    }
}

/// Flattens a generator whose return value is again a generator.
pub trait Join: Generator {
    fn join(self) -> (r: GenJoin<Self>)
        ensures
            r == GenJoin::<Self>::Outer(self),
    {
        GenJoin::Outer(self)
    }
}

impl<C: Generator> Join for C {
}

/// A run of the returned generator is a run of the joined generator in its inner stage.
pub proof fn lemma_join_inner_runs<C>(i: C::Return, zs: Seq<C::Yield>, r: <C::Return as Returns>::Return) where
    C: Generator,
    C::Return: Generator<Yield = C::Yield>,

    requires
        runs(i, zs, r),
    ensures
        runs(GenJoin::<C>::Inner(i), zs, r),
    decreases zs.len(),
{
    if zs.len() > 0 {
        let i1 = choose|g1: C::Return|
            #[trigger] i.steps_to(GenResult::Yield(zs[0], g1)) && runs(g1, zs.drop_first(), r);
        lemma_join_inner_runs::<C>(i1, zs.drop_first(), r);
        assert(GenJoin::<C>::Inner(i).steps_to(GenResult::Yield(zs[0], GenJoin::<C>::Inner(i1))));
    }
}

/// Joining runs the outer generator and then the generator it returns: the items are those of
/// the outer run followed by those of the inner run, and the return value is the inner one.
pub proof fn lemma_join_runs<C>(
    c: C,
    ys: Seq<C::Yield>,
    i: C::Return,
    zs: Seq<C::Yield>,
    r: <C::Return as Returns>::Return,
) where C: Generator, C::Return: Generator<Yield = C::Yield>
    requires
        runs(c, ys, i),
        runs(i, zs, r),
    ensures
        runs(GenJoin::Outer(c), ys + zs, r),
    decreases ys.len(),
{
    if ys.len() > 0 {
        let c1 = choose|g1: C|
            #[trigger] c.steps_to(GenResult::Yield(ys[0], g1)) && runs(g1, ys.drop_first(), i);
        lemma_join_runs(c1, ys.drop_first(), i, zs, r);
        assert(GenJoin::Outer(c).steps_to(GenResult::Yield(ys[0], GenJoin::Outer(c1))));
        assert(ys.drop_first() + zs =~= (ys + zs).drop_first());
        assert((ys + zs)[0] == ys[0]);
    } else {
        assert(ys + zs =~= zs);
        let g = GenJoin::<C>::Outer(c);
        if zs.len() == 0 {
            let res = GenResult::<GenJoin<C>>::Return(r);
            assert(g->Outer_0.steps_to(GenResult::Return(i)) && i.steps_to(
                GenResult::Return(res->Return_0),
            ));
            assert(g.steps_to(res));
        } else {
            let i1 = choose|g1: C::Return|
                #[trigger] i.steps_to(GenResult::Yield(zs[0], g1)) && runs(g1, zs.drop_first(), r);
            lemma_join_inner_runs::<C>(i1, zs.drop_first(), r);
            let res = GenResult::<GenJoin<C>>::Yield(zs[0], GenJoin::Inner(i1));
            assert(g->Outer_0.steps_to(GenResult::Return(i)) && i.steps_to(
                GenResult::Yield(res->Yield_0, res->Yield_1->Inner_0),
            ));
            assert(g.steps_to(res));
        }
    }
}

} // verus!
