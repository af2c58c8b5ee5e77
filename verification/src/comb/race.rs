//! Running two generators in turns until one of them returns.
use vstd::prelude::*;

use crate::either::Either;
use crate::gen::{runs, yields_to, GenResult, Generator, Returns, Yields};

verus! {

/// Two generators that take turns; the one on the `Former` side steps next.
pub struct GenRace<F, L>(pub Either<(F, L), (F, L)>);

impl<F: Yields, L> Yields for GenRace<F, L> {
    type Yield = F::Yield;
}

impl<F: Returns, L: Returns> Returns for GenRace<F, L> {
    /// The value of the generator that finished, with the other one as it was left.
    type Return = Either<(F::Return, L), (F, L::Return)>;
}

impl<F, L> Generator for GenRace<F, L> where F: Generator, L: Generator<Yield = F::Yield> {
    open spec fn ready(&self) -> bool {
        match self.0 {
            Either::Former((f, l)) => f.ready() && l.ready(),
            Either::Latter((f, l)) => f.ready() && l.ready(),
        }
    }

    /// The generator whose turn it is steps; after an item the turn passes to the other one,
    /// and when it returns the race is over.
    open spec fn steps_to(&self, r: GenResult<Self>) -> bool {
        match self.0 {
            Either::Former((f, l)) => match r {
                GenResult::Yield(y, rest) => match rest.0 {
                    Either::Latter((f1, l1)) => l1 == l && f.steps_to(GenResult::Yield(y, f1)),
                    Either::Former(_) => false,
                },
                GenResult::Return(Either::Former((v, l1))) => l1 == l && f.steps_to(
                    GenResult::Return(v),
                ),
                GenResult::Return(Either::Latter(_)) => false,
            },
            Either::Latter((f, l)) => match r {
                GenResult::Yield(y, rest) => match rest.0 {
                    Either::Former((f1, l1)) => f1 == f && l.steps_to(GenResult::Yield(y, l1)),
                    Either::Latter(_) => false,
                },
                GenResult::Return(Either::Latter((f1, v))) => f1 == f && l.steps_to(
                    GenResult::Return(v),
                ),
                GenResult::Return(Either::Former(_)) => false,
            },
        }
    }

    fn next(self) -> (r: GenResult<Self>) {
        match self.0 {
            Either::Former((f, l)) => match f.next() {
                GenResult::Yield(y, f) => GenResult::Yield(y, GenRace(Either::Latter((f, l)))),
                GenResult::Return(f) => GenResult::Return(Either::Former((f, l))),
            },
            Either::Latter((f, l)) => match l.next() {
                GenResult::Yield(y, l) => GenResult::Yield(y, GenRace(Either::Former((f, l)))),
                GenResult::Return(l) => GenResult::Return(Either::Latter((f, l))),
            },
        }
    }
}

/// Starts a race in which `self` takes the first turn.
pub trait Race: Generator {
    fn race<L>(self, l: L) -> (r: GenRace<Self, L>) where
        L: Generator<Yield = Self::Yield>,

        ensures
            r == GenRace(Either::Former((self, l))),
    {
        GenRace(Either::Former((self, l)))
    }
}

impl<C: Generator> Race for C {
}

/// The items of `a` and `b` taken in turns, starting with `a`, as long as there are any.
pub open spec fn interleave<Y>(a: Seq<Y>, b: Seq<Y>) -> Seq<Y>
    decreases a.len() + b.len(),
{
    if a.len() == 0 {
        b
    } else {
        seq![a[0]] + interleave(b, a.drop_first())
    }
}

/// Unfolds two turns of `interleave`.
pub proof fn lemma_interleave_two<Y>(a: Seq<Y>, b: Seq<Y>)
    requires
        a.len() > 0,
        b.len() > 0,
    ensures
        interleave(a, b) == seq![a[0], b[0]] + interleave(a.drop_first(), b.drop_first()),
{
    assert(interleave(b, a.drop_first()) == seq![b[0]] + interleave(a.drop_first(), b.drop_first()));
    assert(seq![a[0]] + (seq![b[0]] + interleave(a.drop_first(), b.drop_first())) =~= seq![a[0], b[0]]
        + interleave(a.drop_first(), b.drop_first()));
}

/// The race with the former's turn: when the former runs to its return value `v` with `n`
/// items while the latter yields `n` items and is then `l1`, the race yields their items in
/// turns and returns `v` with `l1`.
pub proof fn lemma_race_former_wins<F, L>(
    f: F,
    ys: Seq<F::Yield>,
    v: F::Return,
    l: L,
    zs: Seq<F::Yield>,
    l1: L,
) where F: Generator, L: Generator<Yield = F::Yield>
    requires
        runs(f, ys, v),
        yields_to(l, zs, l1),
        ys.len() == zs.len(),
    ensures
        runs(GenRace(Either::Former((f, l))), interleave(ys, zs), Either::Former((v, l1))),
    decreases ys.len(),
{
    let g = GenRace(Either::Former((f, l)));
    if ys.len() == 0 {
        let res = GenResult::<GenRace<F, L>>::Return(Either::Former((v, l1)));
        assert(g.steps_to(res));
    } else {
        let f1 = choose|g1: F|
            #[trigger] f.steps_to(GenResult::Yield(ys[0], g1)) && runs(g1, ys.drop_first(), v);
        let la = choose|g1: L|
            #[trigger] l.steps_to(GenResult::Yield(zs[0], g1)) && yields_to(g1, zs.drop_first(), l1);
        lemma_race_former_wins(f1, ys.drop_first(), v, la, zs.drop_first(), l1);
        let g1 = GenRace(Either::Latter((f1, l)));
        let g2 = GenRace(Either::Former((f1, la)));
        let rest = interleave(ys.drop_first(), zs.drop_first());
        assert(g1.steps_to(GenResult::Yield(zs[0], g2)));
        assert(g.steps_to(GenResult::Yield(ys[0], g1)));
        crate::gen::lemma_runs_cons(g1, zs[0], g2, rest, Either::Former((v, l1)));
        crate::gen::lemma_runs_cons(g, ys[0], g1, seq![zs[0]] + rest, Either::Former((v, l1)));
        lemma_interleave_two(ys, zs);
        assert(seq![ys[0]] + (seq![zs[0]] + rest) =~= seq![ys[0], zs[0]] + rest);
    }
}

/// The race with the former's turn: when the latter runs to its return value `w` with `n`
/// items while the former yields `n + 1` items and is then `f1`, the race yields their items
/// in turns and returns `f1` with `w`.
pub proof fn lemma_race_latter_wins<F, L>(
    f: F,
    ys: Seq<F::Yield>,
    f1: F,
    l: L,
    zs: Seq<F::Yield>,
    w: L::Return,
) where F: Generator, L: Generator<Yield = F::Yield>
    requires
        yields_to(f, ys, f1),
        runs(l, zs, w),
        ys.len() == zs.len() + 1,
    ensures
        runs(GenRace(Either::Former((f, l))), interleave(ys, zs), Either::Latter((f1, w))),
    decreases zs.len(),
{
    let g = GenRace(Either::Former((f, l)));
    let fa = choose|g1: F|
        #[trigger] f.steps_to(GenResult::Yield(ys[0], g1)) && yields_to(g1, ys.drop_first(), f1);
    let g1 = GenRace(Either::Latter((fa, l)));
    assert(g.steps_to(GenResult::Yield(ys[0], g1)));
    if zs.len() == 0 {
        assert(ys.drop_first().len() == 0);
        let res = GenResult::<GenRace<F, L>>::Return(Either::Latter((f1, w)));
        assert(g1.steps_to(res));
        assert(interleave(zs, ys.drop_first()) == ys.drop_first());
        assert(interleave(ys, zs) =~= seq![ys[0]] + zs);
        crate::gen::lemma_runs_cons(g, ys[0], g1, zs, Either::Latter((f1, w)));
    } else {
        let la = choose|g1: L|
            #[trigger] l.steps_to(GenResult::Yield(zs[0], g1)) && runs(g1, zs.drop_first(), w);
        lemma_race_latter_wins(fa, ys.drop_first(), f1, la, zs.drop_first(), w);
        let g2 = GenRace(Either::Former((fa, la)));
        let rest = interleave(ys.drop_first(), zs.drop_first());
        assert(g1.steps_to(GenResult::Yield(zs[0], g2)));
        crate::gen::lemma_runs_cons(g1, zs[0], g2, rest, Either::Latter((f1, w)));
        crate::gen::lemma_runs_cons(g, ys[0], g1, seq![zs[0]] + rest, Either::Latter((f1, w)));
        lemma_interleave_two(ys, zs);
        assert(seq![ys[0]] + (seq![zs[0]] + rest) =~= seq![ys[0], zs[0]] + rest);
    }
}

/// Once the shorter of the two runs out, `interleave` goes on with the rest of the other: the
/// turns cover `a` and as many items of `b` (or `b` and one item more of `a`), and the rest
/// follows.
pub proof fn lemma_interleave_split<Y>(a: Seq<Y>, b: Seq<Y>)
    ensures
        a.len() <= b.len() ==> interleave(a, b) == interleave(a, b.take(a.len() as int)) + b.skip(
            a.len() as int,
        ),
        a.len() > b.len() ==> interleave(a, b) == interleave(a.take(b.len() + 1int), b) + a.skip(
            b.len() + 1int,
        ),
    decreases a.len(),
{
    if a.len() == 0 {
        assert(b.take(0) =~= Seq::<Y>::empty());
        assert(interleave(a, b.take(0)) == b.take(0));
        assert(b.skip(0) =~= b);
        assert(interleave(a, b.take(0)) + b.skip(0) =~= b);
    } else if b.len() == 0 {
        assert(interleave(b, a.drop_first()) == a.drop_first());
        assert(interleave(a, b) =~= a);
        let a1 = a.take(1);
        assert(a1.drop_first() =~= Seq::<Y>::empty());
        assert(interleave(b, a1.drop_first()) == a1.drop_first());
        assert(interleave(a1, b) =~= seq![a[0]]);
        assert(seq![a[0]] + a.skip(1) =~= a);
    } else {
        let a2 = a.drop_first();
        let b2 = b.drop_first();
        lemma_interleave_split(a2, b2);
        lemma_interleave_two(a, b);
        if a.len() <= b.len() {
            let bt = b.take(a.len() as int);
            lemma_interleave_two(a, bt);
            assert(bt.drop_first() =~= b2.take(a2.len() as int));
            assert(b.skip(a.len() as int) =~= b2.skip(a2.len() as int));
            assert(seq![a[0], b[0]] + (interleave(a2, b2.take(a2.len() as int)) + b2.skip(
                a2.len() as int,
            )) =~= (seq![a[0], b[0]] + interleave(a2, b2.take(a2.len() as int))) + b2.skip(
                a2.len() as int,
            ));
        } else {
            let at = a.take(b.len() + 1int);
            lemma_interleave_two(at, b);
            assert(at.drop_first() =~= a2.take(b2.len() + 1int));
            assert(a.skip(b.len() + 1int) =~= a2.skip(b2.len() + 1int));
            assert(seq![a[0], b[0]] + (interleave(a2.take(b2.len() + 1int), b2) + a2.skip(
                b2.len() + 1int,
            )) =~= (seq![a[0], b[0]] + interleave(a2.take(b2.len() + 1int), b2)) + a2.skip(
                b2.len() + 1int,
            ));
        }
    }
}

/// Taking the items in turns keeps all of them.
pub proof fn lemma_interleave_len<Y>(a: Seq<Y>, b: Seq<Y>)
    ensures
        interleave(a, b).len() == a.len() + b.len(),
    decreases a.len() + b.len(),
{
    if a.len() > 0 {
        lemma_interleave_len(b, a.drop_first());
    }
}

} // verus!
