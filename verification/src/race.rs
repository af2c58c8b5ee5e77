//! Running two coroutines in turns until one of them returns.
use vstd::prelude::*;

use crate::co::{co_runs, co_yields_to, lemma_co_runs_cons, CoResult, Coroutine};
use crate::comb::race::{interleave, lemma_interleave_two};
use crate::either::Either;

verus! {

/// Two coroutines that take turns, each input going to the one whose turn it is; the one on
/// the `Former` side steps next.
pub struct CoRace<F, L>(pub Either<(F, L), (F, L)>);

impl<I, F, L> Coroutine<I> for CoRace<F, L> where F: Coroutine<I>, L: Coroutine<I, Yield = F::Yield> {
    type Yield = F::Yield;
    /// The value of the coroutine that finished, with the other one as it was left.
    type Return = Either<(F::Return, L), (F, L::Return)>;

    open spec fn ready(&self) -> bool {
        match self.0 {
            Either::Former((f, l)) => f.ready() && l.ready(),
            Either::Latter((f, l)) => f.ready() && l.ready(),
        }
    }

    /// The coroutine whose turn it is takes the input; after an item the turn passes to the
    /// other one, and when it returns the race is over.
    open spec fn sends_to(
        &self,
        i: I,
        r: CoResult<F::Yield, Self, Either<(F::Return, L), (F, L::Return)>>,
    ) -> bool {
        match self.0 {
            Either::Former((f, l)) => match r {
                CoResult::Yield(y, rest) => match rest.0 {
                    Either::Latter((f1, l1)) => l1 == l && f.sends_to(i, CoResult::Yield(y, f1)),
                    Either::Former(_) => false,
                },
                CoResult::Return(Either::Former((v, l1))) => l1 == l && f.sends_to(
                    i,
                    CoResult::Return(v),
                ),
                CoResult::Return(Either::Latter(_)) => false,
            },
            Either::Latter((f, l)) => match r {
                CoResult::Yield(y, rest) => match rest.0 {
                    Either::Former((f1, l1)) => f1 == f && l.sends_to(i, CoResult::Yield(y, l1)),
                    Either::Latter(_) => false,
                },
                CoResult::Return(Either::Latter((f1, v))) => f1 == f && l.sends_to(
                    i,
                    CoResult::Return(v),
                ),
                CoResult::Return(Either::Former(_)) => false,
            },
        }
    }

    fn send(self, i: I) -> (r: CoResult<F::Yield, Self, Either<(F::Return, L), (F, L::Return)>>) {
        match self.0 {
            Either::Former((f, l)) => match f.send(i) {
                CoResult::Yield(y, f) => CoResult::Yield(y, CoRace(Either::Latter((f, l)))),
                CoResult::Return(f) => CoResult::Return(Either::Former((f, l))),
            },
            Either::Latter((f, l)) => match l.send(i) {
                CoResult::Yield(y, l) => CoResult::Yield(y, CoRace(Either::Former((f, l)))),
                CoResult::Return(l) => CoResult::Return(Either::Latter((f, l))),
            },
        }
    }
}

/// Starts a race of two coroutines in which `self` takes the first turn.
pub trait Race: Sized {
    fn race<L>(self, l: L) -> (r: CoRace<Self, L>)
        ensures
            r == CoRace(Either::Former((self, l))),
    {
        CoRace(Either::Former((self, l)))
    }
}

impl<C> Race for C {
}

/// When the former, on the inputs `as_`, yields `ys` and returns `v`, while the latter, on
/// the inputs `bs`, yields as many items `zs` and is then `l1`, the race, on the inputs taken
/// in turns, yields the items in turns and returns `v` with `l1`.
pub proof fn lemma_co_race_former_wins<I, F, L>(
    f: F,
    as_: Seq<I>,
    ys: Seq<F::Yield>,
    v: F::Return,
    l: L,
    bs: Seq<I>,
    zs: Seq<F::Yield>,
    l1: L,
) where F: Coroutine<I>, L: Coroutine<I, Yield = F::Yield>
    requires
        co_runs(f, as_, ys, v),
        co_yields_to(l, bs, zs, l1),
        ys.len() == zs.len(),
    ensures
        co_runs(
            CoRace(Either::Former((f, l))),
            interleave(as_, bs),
            interleave(ys, zs),
            Either::Former((v, l1)),
        ),
    decreases ys.len(),
{
    let g = CoRace(Either::Former((f, l)));
    if ys.len() == 0 {
        assert(interleave(bs, as_.drop_first()) == as_.drop_first());
        assert(interleave(as_, bs) =~= as_);
        let res = CoResult::<F::Yield, CoRace<F, L>, Either<(F::Return, L), (F, L::Return)>>::Return(
            Either::Former((v, l1)),
        );
        assert(g.sends_to(as_[0], res));
    } else {
        let f1 = choose|g1: F|
            #[trigger] f.sends_to(as_[0], CoResult::Yield(ys[0], g1)) && co_runs(
                g1,
                as_.drop_first(),
                ys.drop_first(),
                v,
            );
        let la = choose|g1: L|
            #[trigger] l.sends_to(bs[0], CoResult::Yield(zs[0], g1)) && co_yields_to(
                g1,
                bs.drop_first(),
                zs.drop_first(),
                l1,
            );
        lemma_co_race_former_wins(
            f1,
            as_.drop_first(),
            ys.drop_first(),
            v,
            la,
            bs.drop_first(),
            zs.drop_first(),
            l1,
        );
        let g1 = CoRace(Either::Latter((f1, l)));
        let g2 = CoRace(Either::Former((f1, la)));
        let rest_in = interleave(as_.drop_first(), bs.drop_first());
        let rest = interleave(ys.drop_first(), zs.drop_first());
        assert(g1.sends_to(bs[0], CoResult::Yield(zs[0], g2)));
        assert(g.sends_to(as_[0], CoResult::Yield(ys[0], g1)));
        lemma_co_runs_cons(g1, bs[0], zs[0], g2, rest_in, rest, Either::Former((v, l1)));
        lemma_co_runs_cons(
            g,
            as_[0],
            ys[0],
            g1,
            seq![bs[0]] + rest_in,
            seq![zs[0]] + rest,
            Either::Former((v, l1)),
        );
        lemma_interleave_two(ys, zs);
        lemma_interleave_two(as_, bs);
        assert(seq![ys[0]] + (seq![zs[0]] + rest) =~= seq![ys[0], zs[0]] + rest);
        assert(seq![as_[0]] + (seq![bs[0]] + rest_in) =~= seq![as_[0], bs[0]] + rest_in);
    }
}

/// When the latter, on the inputs `bs`, yields `zs` and returns `w`, while the former, on the
/// inputs `as_`, yields one item more, `ys`, and is then `f1`, the race, on the inputs taken
/// in turns, yields the items in turns and returns `f1` with `w`.
pub proof fn lemma_co_race_latter_wins<I, F, L>(
    f: F,
    as_: Seq<I>,
    ys: Seq<F::Yield>,
    f1: F,
    l: L,
    bs: Seq<I>,
    zs: Seq<F::Yield>,
    w: L::Return,
) where F: Coroutine<I>, L: Coroutine<I, Yield = F::Yield>
    requires
        co_yields_to(f, as_, ys, f1),
        co_runs(l, bs, zs, w),
        ys.len() == zs.len() + 1,
    ensures
        co_runs(
            CoRace(Either::Former((f, l))),
            interleave(as_, bs),
            interleave(ys, zs),
            Either::Latter((f1, w)),
        ),
    decreases zs.len(),
{
    let g = CoRace(Either::Former((f, l)));
    let fa = choose|g1: F|
        #[trigger] f.sends_to(as_[0], CoResult::Yield(ys[0], g1)) && co_yields_to(
            g1,
            as_.drop_first(),
            ys.drop_first(),
            f1,
        );
    let g1 = CoRace(Either::Latter((fa, l)));
    assert(g.sends_to(as_[0], CoResult::Yield(ys[0], g1)));
    if zs.len() == 0 {
        assert(ys.drop_first().len() == 0);
        assert(as_.drop_first().len() == 0);
        let res = CoResult::<F::Yield, CoRace<F, L>, Either<(F::Return, L), (F, L::Return)>>::Return(
            Either::Latter((f1, w)),
        );
        assert(g1.sends_to(bs[0], res));
        assert(interleave(zs, ys.drop_first()) == ys.drop_first());
        assert(interleave(ys, zs) =~= seq![ys[0]] + zs);
        assert(interleave(bs, as_.drop_first()) =~= bs);
        assert(interleave(as_, bs) =~= seq![as_[0]] + bs);
        lemma_co_runs_cons(g, as_[0], ys[0], g1, bs, zs, Either::Latter((f1, w)));
    } else {
        let la = choose|g2: L|
            #[trigger] l.sends_to(bs[0], CoResult::Yield(zs[0], g2)) && co_runs(
                g2,
                bs.drop_first(),
                zs.drop_first(),
                w,
            );
        lemma_co_race_latter_wins(
            fa,
            as_.drop_first(),
            ys.drop_first(),
            f1,
            la,
            bs.drop_first(),
            zs.drop_first(),
            w,
        );
        let g2 = CoRace(Either::Former((fa, la)));
        let rest_in = interleave(as_.drop_first(), bs.drop_first());
        let rest = interleave(ys.drop_first(), zs.drop_first());
        assert(g1.sends_to(bs[0], CoResult::Yield(zs[0], g2)));
        lemma_co_runs_cons(g1, bs[0], zs[0], g2, rest_in, rest, Either::Latter((f1, w)));
        lemma_co_runs_cons(
            g,
            as_[0],
            ys[0],
            g1,
            seq![bs[0]] + rest_in,
            seq![zs[0]] + rest,
            Either::Latter((f1, w)),
        );
        lemma_interleave_two(ys, zs);
        lemma_interleave_two(as_, bs);
        assert(seq![ys[0]] + (seq![zs[0]] + rest) =~= seq![ys[0], zs[0]] + rest);
        assert(seq![as_[0]] + (seq![bs[0]] + rest_in) =~= seq![as_[0], bs[0]] + rest_in);
    }
}

} // verus!
