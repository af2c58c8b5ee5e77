//! Running two generators in turns until both have returned.
use vstd::prelude::*;

use std::marker::PhantomData;

use crate::co::{
    co_runs, co_yields_to, lemma_co_runs_cons, lemma_co_runs_split, units, CoResult, Coroutine,
};
use crate::comb::race::{interleave, lemma_interleave_split, lemma_interleave_two, GenRace, Race};
use crate::race::CoRace;
use crate::either::Either;
use crate::gen::{lemma_runs_cons, lemma_runs_split, runs, yields_to, GenResult, Generator, Returns, Yields};

verus! {

/// Puts a value first in a pair.
pub struct Prepend<F>(pub F);

impl<F> Prepend<F> {
    pub fn new(f: F) -> (r: Self)
        ensures
            r.0 == f,
    {
        Prepend(f)
    }

    /// The pair of the held value and `i`.
    pub fn call_once<I>(self, i: I) -> (r: (F, I))
        ensures
            r == (self.0, i),
    {
        (self.0, i)
    }
}

/// Puts a value second in a pair.
pub struct Append<F>(pub F);

impl<F> Append<F> {
    pub fn new(f: F) -> (r: Self)
        ensures
            r.0 == f,
    {
        Append(f)
    }

    /// The pair of `i` and the held value.
    pub fn call_once<I>(self, i: I) -> (r: (I, F))
        ensures
            r == (i, self.0),
    {
        (i, self.0)
    }
}

/// Two generators that take turns until both have returned, with the value of each.
pub enum GenAll<F: Returns, L: Returns> {
    /// Both are running; see `GenRace`.
    Racing(GenRace<F, L>),
    /// The former has returned the held value; the latter runs on alone.
    FormerDone(Prepend<F::Return>, L),
    /// The latter has returned the held value; the former runs on alone.
    LatterDone(F, Append<L::Return>),
}

impl<F: Yields + Returns, L: Returns> Yields for GenAll<F, L> {
    type Yield = F::Yield;
}

impl<F: Returns, L: Returns> Returns for GenAll<F, L> {
    type Return = (F::Return, L::Return);
}

/// Makes, of the end of a race, the stage in which the generator that is left runs alone.
pub struct ContinueRemaining<F, L>(pub PhantomData<(F, L)>);

/// What `ContinueRemaining::call_once` makes of the end of a race.
pub open spec fn spec_continue_remaining<F: Returns, L: Returns>(
    results: Either<(F::Return, L), (F, L::Return)>,
) -> GenAll<F, L> {
    match results {
        Either::Former((u, l)) => GenAll::FormerDone(Prepend(u), l),
        Either::Latter((f, w)) => GenAll::LatterDone(f, Append(w)),
    }
}

impl<F: Returns, L: Returns> ContinueRemaining<F, L> {
    pub fn new() -> (r: Self)
        ensures
            r == ContinueRemaining::<F, L>(PhantomData),
    {
        ContinueRemaining(PhantomData)
    }

    pub fn call_once(self, results: Either<(F::Return, L), (F, L::Return)>) -> (r: GenAll<F, L>)
        ensures
            r == spec_continue_remaining(results),
    {
        match results {
            Either::Former((u, l)) => GenAll::FormerDone(Prepend::new(u), l),
            Either::Latter((f, w)) => GenAll::LatterDone(f, Append::new(w)),
        }
    }
}

impl<F, L> GenAll<F, L> where F: Generator, L: Generator<Yield = F::Yield> {
    /// One step of the stage in which one generator runs alone.
    pub open spec fn remaining_steps_to(&self, r: GenResult<Self>) -> bool {
        match self {
            GenAll::Racing(_) => false,
            GenAll::FormerDone(p, l) => match r {
                GenResult::Yield(y, GenAll::FormerDone(p1, l1)) => p1 == p && l.steps_to(
                    GenResult::Yield(y, l1),
                ),
                GenResult::Yield(_, _) => false,
                GenResult::Return(v) => v.0 == p.0 && l.steps_to(GenResult::Return(v.1)),
            },
            GenAll::LatterDone(f, a) => match r {
                GenResult::Yield(y, GenAll::LatterDone(f1, a1)) => a1 == a && f.steps_to(
                    GenResult::Yield(y, f1),
                ),
                GenResult::Yield(_, _) => false,
                GenResult::Return(v) => v.1 == a.0 && f.steps_to(GenResult::Return(v.0)),
            },
        }
    }

    /// One step of the latter after the former returned.
    fn next_former_done(p: Prepend<F::Return>, l: L) -> (r: GenResult<Self>)
        requires
            l.ready(),
        ensures
            GenAll::<F, L>::FormerDone(p, l).remaining_steps_to(r),
            r matches GenResult::Yield(_, rest) ==> rest.ready(),
    {
        match l.next() {
            GenResult::Yield(y, l) => GenResult::Yield(y, GenAll::FormerDone(p, l)),
            GenResult::Return(w) => GenResult::Return(p.call_once(w)),
        }
    }

    /// One step of the former after the latter returned.
    fn next_latter_done(f: F, a: Append<L::Return>) -> (r: GenResult<Self>)
        requires
            f.ready(),
        ensures
            GenAll::<F, L>::LatterDone(f, a).remaining_steps_to(r),
            r matches GenResult::Yield(_, rest) ==> rest.ready(),
    {
        match f.next() {
            GenResult::Yield(y, f) => GenResult::Yield(y, GenAll::LatterDone(f, a)),
            GenResult::Return(u) => GenResult::Return(a.call_once(u)),
        }
    }
}

impl<F, L> Generator for GenAll<F, L> where F: Generator, L: Generator<Yield = F::Yield> {
    open spec fn ready(&self) -> bool {
        match self {
            GenAll::Racing(race) => race.ready(),
            GenAll::FormerDone(_, l) => l.ready(),
            GenAll::LatterDone(f, _) => f.ready(),
        }
    }

    /// While racing, the race takes the step; when it ends, the generator that is left takes
    /// over within the same step.
    open spec fn steps_to(&self, r: GenResult<Self>) -> bool {
        match self {
            GenAll::Racing(race) => match r {
                GenResult::Yield(y, GenAll::Racing(race1)) => race.steps_to(
                    GenResult::Yield(y, race1),
                ),
                _ => exists|res: Either<(F::Return, L), (F, L::Return)>|
                    race.steps_to(GenResult::Return(res)) && spec_continue_remaining(
                        res,
                    ).remaining_steps_to(r),
            },
            _ => self.remaining_steps_to(r),
        }
    }

    fn next(self) -> (r: GenResult<Self>) {
        match self {
            GenAll::Racing(race) => {
                let ghost race0 = race;
                match race.next() {
                    GenResult::Yield(y, race) => GenResult::Yield(y, GenAll::Racing(race)),
                    GenResult::Return(results) => {
                        let ghost res0 = results;
                        let r = match results {
                            Either::Former((u, l)) => Self::next_former_done(Prepend::new(u), l),
                            Either::Latter((f, w)) => Self::next_latter_done(f, Append::new(w)),
                        };
                        assert(race0.steps_to(GenResult::Return(res0)));
                        assert(spec_continue_remaining::<F, L>(res0).remaining_steps_to(r));
                        r
                    },
                }
            },
            GenAll::FormerDone(p, l) => Self::next_former_done(p, l),
            GenAll::LatterDone(f, a) => Self::next_latter_done(f, a),
        }
    }
}

/// Starts two generators that take turns, `self` first, until both have returned.
pub trait All: Generator {
    fn all<L>(self, l: L) -> (r: GenAll<Self, L>) where
        L: Generator<Yield = Self::Yield>,

        ensures
            r == GenAll::<Self, L>::Racing(GenRace(Either::Former((self, l)))),
    {
        GenAll::Racing(self.race(l))
    }
}

impl<F: Generator> All for F {
}

/// The latter, running alone after the former returned `u`, returns the pair of `u` and its
/// own value.
pub proof fn lemma_former_done_runs<F, L>(u: F::Return, l: L, ws: Seq<F::Yield>, w: L::Return) where
    F: Generator,
    L: Generator<Yield = F::Yield>,

    requires
        runs(l, ws, w),
    ensures
        runs(GenAll::<F, L>::FormerDone(Prepend(u), l), ws, (u, w)),
    decreases ws.len(),
{
    let g = GenAll::<F, L>::FormerDone(Prepend(u), l);
    if ws.len() == 0 {
        assert(g.steps_to(GenResult::Return((u, w))));
    } else {
        let l1 = choose|g1: L|
            #[trigger] l.steps_to(GenResult::Yield(ws[0], g1)) && runs(g1, ws.drop_first(), w);
        lemma_former_done_runs::<F, L>(u, l1, ws.drop_first(), w);
        assert(g.steps_to(GenResult::Yield(ws[0], GenAll::<F, L>::FormerDone(Prepend(u), l1))));
    }
}

/// The former, running alone after the latter returned `w`, returns the pair of its own value
/// and `w`.
pub proof fn lemma_latter_done_runs<F, L>(f: F, w: L::Return, ws: Seq<F::Yield>, u: F::Return) where
    F: Generator,
    L: Generator<Yield = F::Yield>,

    requires
        runs(f, ws, u),
    ensures
        runs(GenAll::<F, L>::LatterDone(f, Append(w)), ws, (u, w)),
    decreases ws.len(),
{
    let g = GenAll::<F, L>::LatterDone(f, Append(w));
    if ws.len() == 0 {
        assert(g.steps_to(GenResult::Return((u, w))));
    } else {
        let f1 = choose|g1: F|
            #[trigger] f.steps_to(GenResult::Yield(ws[0], g1)) && runs(g1, ws.drop_first(), u);
        lemma_latter_done_runs::<F, L>(f1, w, ws.drop_first(), u);
        assert(g.steps_to(GenResult::Yield(ws[0], GenAll::<F, L>::LatterDone(f1, Append(w)))));
    }
}

/// When the former returns `u` after `n` items while the latter has yielded `n` items and then
/// runs on with the items `ws` to `w`, `all` yields the items in turns, then `ws`, and returns
/// `(u, w)`.
pub proof fn lemma_all_former_first<F, L>(
    f: F,
    ys: Seq<F::Yield>,
    u: F::Return,
    l: L,
    zs: Seq<F::Yield>,
    l1: L,
    ws: Seq<F::Yield>,
    w: L::Return,
) where F: Generator, L: Generator<Yield = F::Yield>
    requires
        runs(f, ys, u),
        yields_to(l, zs, l1),
        ys.len() == zs.len(),
        runs(l1, ws, w),
    ensures
        runs(GenAll::Racing(GenRace(Either::Former((f, l)))), interleave(ys, zs) + ws, (u, w)),
    decreases ys.len(),
{
    let g = GenAll::Racing(GenRace(Either::Former((f, l))));
    let race = GenRace(Either::Former((f, l)));
    if ys.len() == 0 {
        assert(interleave(ys, zs) + ws =~= ws);
        let res: Either<(F::Return, L), (F, L::Return)> = Either::Former((u, l));
        assert(race.steps_to(GenResult::Return(res)));
        let rest = spec_continue_remaining::<F, L>(res);
        if ws.len() == 0 {
            let r = GenResult::<GenAll<F, L>>::Return((u, w));
            assert(rest.remaining_steps_to(r));
            assert(g.steps_to(r));
        } else {
            let la = choose|g1: L|
                #[trigger] l.steps_to(GenResult::Yield(ws[0], g1)) && runs(g1, ws.drop_first(), w);
            lemma_former_done_runs::<F, L>(u, la, ws.drop_first(), w);
            let r = GenResult::<GenAll<F, L>>::Yield(ws[0], GenAll::FormerDone(Prepend(u), la));
            assert(rest.remaining_steps_to(r));
            assert(g.steps_to(r));
        }
    } else {
        let f1 = choose|g1: F|
            #[trigger] f.steps_to(GenResult::Yield(ys[0], g1)) && runs(g1, ys.drop_first(), u);
        let la = choose|g1: L|
            #[trigger] l.steps_to(GenResult::Yield(zs[0], g1)) && yields_to(g1, zs.drop_first(), l1);
        lemma_all_former_first(f1, ys.drop_first(), u, la, zs.drop_first(), l1, ws, w);
        let g1 = GenAll::Racing(GenRace(Either::Latter((f1, l))));
        let g2 = GenAll::Racing(GenRace(Either::Former((f1, la))));
        let rest = interleave(ys.drop_first(), zs.drop_first()) + ws;
        assert(g1.steps_to(GenResult::Yield(zs[0], g2)));
        assert(g.steps_to(GenResult::Yield(ys[0], g1)));
        lemma_runs_cons(g1, zs[0], g2, rest, (u, w));
        lemma_runs_cons(g, ys[0], g1, seq![zs[0]] + rest, (u, w));
        lemma_interleave_two(ys, zs);
        assert(seq![ys[0]] + (seq![zs[0]] + rest) =~= interleave(ys, zs) + ws);
    }
}

/// When the latter returns `w` after `n` items while the former has yielded `n + 1` items and
/// then runs on with the items `ws` to `u`, `all` yields the items in turns, then `ws`, and
/// returns `(u, w)`.
pub proof fn lemma_all_latter_first<F, L>(
    f: F,
    ys: Seq<F::Yield>,
    f1: F,
    l: L,
    zs: Seq<F::Yield>,
    w: L::Return,
    ws: Seq<F::Yield>,
    u: F::Return,
) where F: Generator, L: Generator<Yield = F::Yield>
    requires
        yields_to(f, ys, f1),
        runs(l, zs, w),
        ys.len() == zs.len() + 1,
        runs(f1, ws, u),
    ensures
        runs(GenAll::Racing(GenRace(Either::Former((f, l)))), interleave(ys, zs) + ws, (u, w)),
    decreases zs.len(),
{
    let g = GenAll::Racing(GenRace(Either::Former((f, l))));
    let fa = choose|g1: F|
        #[trigger] f.steps_to(GenResult::Yield(ys[0], g1)) && yields_to(g1, ys.drop_first(), f1);
    let g1 = GenAll::Racing(GenRace(Either::Latter((fa, l))));
    assert(g.steps_to(GenResult::Yield(ys[0], g1)));
    if zs.len() == 0 {
        assert(ys.drop_first().len() == 0);
        assert(fa == f1);
        assert(interleave(zs, ys.drop_first()) == ys.drop_first());
        assert(interleave(ys, zs) + ws =~= seq![ys[0]] + ws);
        let race1 = GenRace(Either::Latter((fa, l)));
        let res: Either<(F::Return, L), (F, L::Return)> = Either::Latter((fa, w));
        assert(race1.steps_to(GenResult::Return(res)));
        let rest = spec_continue_remaining::<F, L>(res);
        if ws.len() == 0 {
            let r = GenResult::<GenAll<F, L>>::Return((u, w));
            assert(rest.remaining_steps_to(r));
            assert(g1.steps_to(r));
        } else {
            let fb = choose|g2: F|
                #[trigger] fa.steps_to(GenResult::Yield(ws[0], g2)) && runs(g2, ws.drop_first(), u);
            lemma_latter_done_runs::<F, L>(fb, w, ws.drop_first(), u);
            let r = GenResult::<GenAll<F, L>>::Yield(ws[0], GenAll::LatterDone(fb, Append(w)));
            assert(rest.remaining_steps_to(r));
            assert(g1.steps_to(r));
        }
        lemma_runs_cons(g, ys[0], g1, ws, (u, w));
    } else {
        let la = choose|g2: L|
            #[trigger] l.steps_to(GenResult::Yield(zs[0], g2)) && runs(g2, zs.drop_first(), w);
        lemma_all_latter_first(fa, ys.drop_first(), f1, la, zs.drop_first(), w, ws, u);
        let g2 = GenAll::Racing(GenRace(Either::Former((fa, la))));
        let rest = interleave(ys.drop_first(), zs.drop_first()) + ws;
        assert(g1.steps_to(GenResult::Yield(zs[0], g2)));
        lemma_runs_cons(g1, zs[0], g2, rest, (u, w));
        lemma_runs_cons(g, ys[0], g1, seq![zs[0]] + rest, (u, w));
        lemma_interleave_two(ys, zs);
        assert(seq![ys[0]] + (seq![zs[0]] + rest) =~= interleave(ys, zs) + ws);
    }
}

/// Two coroutines, driven with `()`, that take turns until both have returned, with the value
/// of each.
pub enum CoAll<F: Coroutine<()>, L: Coroutine<()>> {
    /// Both are running; see `CoRace`.
    Racing(CoRace<F, L>),
    /// The former has returned the held value; the latter runs on alone.
    FormerDone(Prepend<F::Return>, L),
    /// The latter has returned the held value; the former runs on alone.
    LatterDone(F, Append<L::Return>),
}

impl<F, L> CoAll<F, L> where F: Coroutine<()>, L: Coroutine<(), Yield = F::Yield> {
    /// Starts the two coroutines, the former taking the first turn.
    pub fn new(f: F, l: L) -> (r: Self)
        ensures
            r == CoAll::<F, L>::Racing(CoRace(Either::Former((f, l)))),
    {
        CoAll::Racing(CoRace(Either::Former((f, l))))
    }

    /// What the stage after a race is, given the end of the race.
    pub open spec fn after_race(results: Either<(F::Return, L), (F, L::Return)>) -> Self {
        match results {
            Either::Former((u, l)) => CoAll::FormerDone(Prepend(u), l),
            Either::Latter((f, w)) => CoAll::LatterDone(f, Append(w)),
        }
    }

    /// One step of the stage in which one coroutine runs alone.
    pub open spec fn remaining_sends_to(
        &self,
        r: CoResult<F::Yield, Self, (F::Return, L::Return)>,
    ) -> bool {
        match self {
            CoAll::Racing(_) => false,
            CoAll::FormerDone(p, l) => match r {
                CoResult::Yield(y, CoAll::FormerDone(p1, l1)) => p1 == p && l.sends_to(
                    (),
                    CoResult::Yield(y, l1),
                ),
                CoResult::Yield(_, _) => false,
                CoResult::Return(v) => v.0 == p.0 && l.sends_to((), CoResult::Return(v.1)),
            },
            CoAll::LatterDone(f, a) => match r {
                CoResult::Yield(y, CoAll::LatterDone(f1, a1)) => a1 == a && f.sends_to(
                    (),
                    CoResult::Yield(y, f1),
                ),
                CoResult::Yield(_, _) => false,
                CoResult::Return(v) => v.1 == a.0 && f.sends_to((), CoResult::Return(v.0)),
            },
        }
    }

    fn send_former_done(p: Prepend<F::Return>, l: L) -> (r: CoResult<
        F::Yield,
        Self,
        (F::Return, L::Return),
    >)
        requires
            l.ready(),
        ensures
            CoAll::<F, L>::FormerDone(p, l).remaining_sends_to(r),
            r matches CoResult::Yield(_, rest) ==> rest.ready(),
    {
        match l.send(()) {
            CoResult::Yield(y, l) => CoResult::Yield(y, CoAll::FormerDone(p, l)),
            CoResult::Return(w) => CoResult::Return(p.call_once(w)),
        }
    }

    fn send_latter_done(f: F, a: Append<L::Return>) -> (r: CoResult<
        F::Yield,
        Self,
        (F::Return, L::Return),
    >)
        requires
            f.ready(),
        ensures
            CoAll::<F, L>::LatterDone(f, a).remaining_sends_to(r),
            r matches CoResult::Yield(_, rest) ==> rest.ready(),
    {
        match f.send(()) {
            CoResult::Yield(y, f) => CoResult::Yield(y, CoAll::LatterDone(f, a)),
            CoResult::Return(u) => CoResult::Return(a.call_once(u)),
        }
    }
}

impl<F, L> Coroutine<()> for CoAll<F, L> where F: Coroutine<()>, L: Coroutine<(), Yield = F::Yield> {
    type Yield = F::Yield;
    type Return = (F::Return, L::Return);

    open spec fn ready(&self) -> bool {
        match self {
            CoAll::Racing(race) => race.ready(),
            CoAll::FormerDone(_, l) => l.ready(),
            CoAll::LatterDone(f, _) => f.ready(),
        }
    }

    /// While racing, the race takes the step; when it ends, the coroutine that is left takes
    /// over within the same step.
    open spec fn sends_to(&self, u: (), r: CoResult<F::Yield, Self, (F::Return, L::Return)>) -> bool {
        match self {
            CoAll::Racing(race) => match r {
                CoResult::Yield(y, CoAll::Racing(race1)) => race.sends_to(
                    (),
                    CoResult::Yield(y, race1),
                ),
                _ => exists|res: Either<(F::Return, L), (F, L::Return)>|
                    race.sends_to((), CoResult::Return(res)) && Self::after_race(
                        res,
                    ).remaining_sends_to(r),
            },
            _ => self.remaining_sends_to(r),
        }
    }

    fn send(self, u: ()) -> (r: CoResult<F::Yield, Self, (F::Return, L::Return)>) {
        match self {
            CoAll::Racing(race) => {
                let ghost race0 = race;
                match race.send(()) {
                    CoResult::Yield(y, race) => CoResult::Yield(y, CoAll::Racing(race)),
                    CoResult::Return(results) => {
                        let ghost res0 = results;
                        let r = match results {
                            Either::Former((u, l)) => Self::send_former_done(Prepend::new(u), l),
                            Either::Latter((f, w)) => Self::send_latter_done(f, Append::new(w)),
                        };
                        assert(race0.sends_to((), CoResult::Return(res0)));
                        assert(Self::after_race(res0).remaining_sends_to(r));
                        r
                    },
                }
            },
            CoAll::FormerDone(p, l) => Self::send_former_done(p, l),
            CoAll::LatterDone(f, a) => Self::send_latter_done(f, a),
        }
    }
}

/// The latter, running alone after the former returned `u`, returns the pair of `u` and its
/// own value.
pub proof fn lemma_co_former_done_runs<F, L>(u: F::Return, l: L, ws: Seq<F::Yield>, w: L::Return) where
    F: Coroutine<()>,
    L: Coroutine<(), Yield = F::Yield>,

    requires
        co_runs(l, units(ws.len() + 1), ws, w),
    ensures
        co_runs(CoAll::<F, L>::FormerDone(Prepend(u), l), units(ws.len() + 1), ws, (u, w)),
    decreases ws.len(),
{
    let g = CoAll::<F, L>::FormerDone(Prepend(u), l);
    let is = units(ws.len() + 1);
    if ws.len() == 0 {
        assert(g.sends_to(is[0], CoResult::Return((u, w))));
    } else {
        assert(is.drop_first() =~= units(ws.drop_first().len() + 1));
        let l1 = choose|c1: L|
            #[trigger] l.sends_to(is[0], CoResult::Yield(ws[0], c1)) && co_runs(
                c1,
                is.drop_first(),
                ws.drop_first(),
                w,
            );
        lemma_co_former_done_runs::<F, L>(u, l1, ws.drop_first(), w);
        assert(g.sends_to(is[0], CoResult::Yield(ws[0], CoAll::<F, L>::FormerDone(Prepend(u), l1))));
    }
}

/// The former, running alone after the latter returned `w`, returns the pair of its own value
/// and `w`.
pub proof fn lemma_co_latter_done_runs<F, L>(f: F, w: L::Return, ws: Seq<F::Yield>, u: F::Return) where
    F: Coroutine<()>,
    L: Coroutine<(), Yield = F::Yield>,

    requires
        co_runs(f, units(ws.len() + 1), ws, u),
    ensures
        co_runs(CoAll::<F, L>::LatterDone(f, Append(w)), units(ws.len() + 1), ws, (u, w)),
    decreases ws.len(),
{
    let g = CoAll::<F, L>::LatterDone(f, Append(w));
    let is = units(ws.len() + 1);
    if ws.len() == 0 {
        assert(g.sends_to(is[0], CoResult::Return((u, w))));
    } else {
        assert(is.drop_first() =~= units(ws.drop_first().len() + 1));
        let f1 = choose|c1: F|
            #[trigger] f.sends_to(is[0], CoResult::Yield(ws[0], c1)) && co_runs(
                c1,
                is.drop_first(),
                ws.drop_first(),
                u,
            );
        lemma_co_latter_done_runs::<F, L>(f1, w, ws.drop_first(), u);
        assert(g.sends_to(is[0], CoResult::Yield(ws[0], CoAll::<F, L>::LatterDone(f1, Append(w)))));
    }
}

/// When, driven with `()`, the former returns `u` after `n` items while the latter has yielded
/// `n` items and then runs on with the items `ws` to `w`, `CoAll` yields the items in turns,
/// then `ws`, and returns `(u, w)`.
pub proof fn lemma_co_all_former_first<F, L>(
    f: F,
    ys: Seq<F::Yield>,
    u: F::Return,
    l: L,
    zs: Seq<F::Yield>,
    l1: L,
    ws: Seq<F::Yield>,
    w: L::Return,
) where F: Coroutine<()>, L: Coroutine<(), Yield = F::Yield>
    requires
        co_runs(f, units(ys.len() + 1), ys, u),
        co_yields_to(l, units(zs.len()), zs, l1),
        ys.len() == zs.len(),
        co_runs(l1, units(ws.len() + 1), ws, w),
    ensures
        co_runs(
            CoAll::<F, L>::Racing(CoRace(Either::Former((f, l)))),
            units(ys.len() + zs.len() + ws.len() + 1),
            interleave(ys, zs) + ws,
            (u, w),
        ),
    decreases ys.len(),
{
    let g = CoAll::<F, L>::Racing(CoRace(Either::Former((f, l))));
    let race = CoRace(Either::Former((f, l)));
    let n = (ys.len() + zs.len() + ws.len() + 1) as nat;
    if ys.len() == 0 {
        assert(zs.len() == 0 && l1 == l);
        assert(interleave(ys, zs) + ws =~= ws);
        assert(units(n) =~= units(ws.len() + 1));
        let res: Either<(F::Return, L), (F, L::Return)> = Either::Former((u, l));
        assert(race.sends_to((), CoResult::Return(res)));
        let rest = CoAll::<F, L>::after_race(res);
        if ws.len() == 0 {
            let r = CoResult::<F::Yield, CoAll<F, L>, (F::Return, L::Return)>::Return((u, w));
            assert(rest.remaining_sends_to(r));
            assert(g.sends_to((), r));
        } else {
            let is = units(ws.len() + 1);
            assert(is.drop_first() =~= units(ws.drop_first().len() + 1));
            let la = choose|c1: L|
                #[trigger] l.sends_to(is[0], CoResult::Yield(ws[0], c1)) && co_runs(
                    c1,
                    is.drop_first(),
                    ws.drop_first(),
                    w,
                );
            lemma_co_former_done_runs::<F, L>(u, la, ws.drop_first(), w);
            let r = CoResult::<F::Yield, CoAll<F, L>, (F::Return, L::Return)>::Yield(
                ws[0],
                CoAll::FormerDone(Prepend(u), la),
            );
            assert(rest.remaining_sends_to(r));
            assert(g.sends_to((), r));
        }
    } else {
        let as_ = units(ys.len() + 1);
        let bs = units(zs.len());
        assert(as_.drop_first() =~= units(ys.drop_first().len() + 1));
        assert(bs.drop_first() =~= units(zs.drop_first().len()));
        let f1 = choose|c1: F|
            #[trigger] f.sends_to(as_[0], CoResult::Yield(ys[0], c1)) && co_runs(
                c1,
                as_.drop_first(),
                ys.drop_first(),
                u,
            );
        let la = choose|c1: L|
            #[trigger] l.sends_to(bs[0], CoResult::Yield(zs[0], c1)) && co_yields_to(
                c1,
                bs.drop_first(),
                zs.drop_first(),
                l1,
            );
        lemma_co_all_former_first(f1, ys.drop_first(), u, la, zs.drop_first(), l1, ws, w);
        let g1 = CoAll::<F, L>::Racing(CoRace(Either::Latter((f1, l))));
        let g2 = CoAll::<F, L>::Racing(CoRace(Either::Former((f1, la))));
        let k = (n - 2) as nat;
        let rest = interleave(ys.drop_first(), zs.drop_first()) + ws;
        assert(g1.sends_to((), CoResult::Yield(zs[0], g2)));
        assert(g.sends_to((), CoResult::Yield(ys[0], g1)));
        lemma_co_runs_cons(g1, (), zs[0], g2, units(k), rest, (u, w));
        lemma_co_runs_cons(g, (), ys[0], g1, seq![()] + units(k), seq![zs[0]] + rest, (u, w));
        lemma_interleave_two(ys, zs);
        assert(seq![ys[0]] + (seq![zs[0]] + rest) =~= interleave(ys, zs) + ws);
        assert(seq![()] + (seq![()] + units(k)) =~= units(n));
    }
}

/// When, driven with `()`, the latter returns `w` after `n` items while the former has yielded
/// `n + 1` items and then runs on with the items `ws` to `u`, `CoAll` yields the items in
/// turns, then `ws`, and returns `(u, w)`.
pub proof fn lemma_co_all_latter_first<F, L>(
    f: F,
    ys: Seq<F::Yield>,
    f1: F,
    l: L,
    zs: Seq<F::Yield>,
    w: L::Return,
    ws: Seq<F::Yield>,
    u: F::Return,
) where F: Coroutine<()>, L: Coroutine<(), Yield = F::Yield>
    requires
        co_yields_to(f, units(ys.len()), ys, f1),
        co_runs(l, units(zs.len() + 1), zs, w),
        ys.len() == zs.len() + 1,
        co_runs(f1, units(ws.len() + 1), ws, u),
    ensures
        co_runs(
            CoAll::<F, L>::Racing(CoRace(Either::Former((f, l)))),
            units(ys.len() + zs.len() + ws.len() + 1),
            interleave(ys, zs) + ws,
            (u, w),
        ),
    decreases zs.len(),
{
    let g = CoAll::<F, L>::Racing(CoRace(Either::Former((f, l))));
    let n = (ys.len() + zs.len() + ws.len() + 1) as nat;
    let as_ = units(ys.len());
    assert(as_.drop_first() =~= units(ys.drop_first().len()));
    let fa = choose|c1: F|
        #[trigger] f.sends_to(as_[0], CoResult::Yield(ys[0], c1)) && co_yields_to(
            c1,
            as_.drop_first(),
            ys.drop_first(),
            f1,
        );
    let g1 = CoAll::<F, L>::Racing(CoRace(Either::Latter((fa, l))));
    assert(g.sends_to((), CoResult::Yield(ys[0], g1)));
    if zs.len() == 0 {
        assert(ys.drop_first().len() == 0);
        assert(fa == f1);
        assert(interleave(zs, ys.drop_first()) == ys.drop_first());
        assert(interleave(ys, zs) + ws =~= seq![ys[0]] + ws);
        let race1 = CoRace(Either::Latter((fa, l)));
        let res: Either<(F::Return, L), (F, L::Return)> = Either::Latter((fa, w));
        assert(race1.sends_to((), CoResult::Return(res)));
        let rest = CoAll::<F, L>::after_race(res);
        if ws.len() == 0 {
            let r = CoResult::<F::Yield, CoAll<F, L>, (F::Return, L::Return)>::Return((u, w));
            assert(rest.remaining_sends_to(r));
            assert(g1.sends_to((), r));
        } else {
            let is = units(ws.len() + 1);
            assert(is.drop_first() =~= units(ws.drop_first().len() + 1));
            let fb = choose|c2: F|
                #[trigger] fa.sends_to(is[0], CoResult::Yield(ws[0], c2)) && co_runs(
                    c2,
                    is.drop_first(),
                    ws.drop_first(),
                    u,
                );
            lemma_co_latter_done_runs::<F, L>(fb, w, ws.drop_first(), u);
            let r = CoResult::<F::Yield, CoAll<F, L>, (F::Return, L::Return)>::Yield(
                ws[0],
                CoAll::LatterDone(fb, Append(w)),
            );
            assert(rest.remaining_sends_to(r));
            assert(g1.sends_to((), r));
        }
        lemma_co_runs_cons(g, (), ys[0], g1, units(ws.len() + 1), ws, (u, w));
        assert(seq![()] + units(ws.len() + 1) =~= units(n));
    } else {
        let bs = units(zs.len() + 1);
        assert(bs.drop_first() =~= units(zs.drop_first().len() + 1));
        let la = choose|c2: L|
            #[trigger] l.sends_to(bs[0], CoResult::Yield(zs[0], c2)) && co_runs(
                c2,
                bs.drop_first(),
                zs.drop_first(),
                w,
            );
        lemma_co_all_latter_first(fa, ys.drop_first(), f1, la, zs.drop_first(), w, ws, u);
        let g2 = CoAll::<F, L>::Racing(CoRace(Either::Former((fa, la))));
        let k = (n - 2) as nat;
        let rest = interleave(ys.drop_first(), zs.drop_first()) + ws;
        assert(g1.sends_to((), CoResult::Yield(zs[0], g2)));
        lemma_co_runs_cons(g1, (), zs[0], g2, units(k), rest, (u, w));
        lemma_co_runs_cons(g, (), ys[0], g1, seq![()] + units(k), seq![zs[0]] + rest, (u, w));
        lemma_interleave_two(ys, zs);
        assert(seq![ys[0]] + (seq![zs[0]] + rest) =~= interleave(ys, zs) + ws);
        assert(seq![()] + (seq![()] + units(k)) =~= units(n));
    }
}

/// Running two generators in turns until both have returned: when `f` alone yields `ys` and
/// returns `u`, and `l` alone yields `zs` and returns `w`, `f.all(l)` yields their items in
/// turns, `f` first, then the rest of the one that runs longer, and returns `(u, w)`.
pub proof fn lemma_all_runs<F, L>(f: F, ys: Seq<F::Yield>, u: F::Return, l: L, zs: Seq<F::Yield>, w: L::Return) where
    F: Generator,
    L: Generator<Yield = F::Yield>,

    requires
        runs(f, ys, u),
        runs(l, zs, w),
    ensures
        runs(GenAll::Racing(GenRace(Either::Former((f, l)))), interleave(ys, zs), (u, w)),
{
    lemma_interleave_split(ys, zs);
    if ys.len() <= zs.len() {
        let k = ys.len();
        let l1 = lemma_runs_split(l, zs, w, k);
        lemma_all_former_first(f, ys, u, l, zs.take(k as int), l1, zs.skip(k as int), w);
    } else {
        let k = zs.len() + 1;
        let f1 = lemma_runs_split(f, ys, u, k);
        lemma_all_latter_first(f, ys.take(k as int), f1, l, zs, w, ys.skip(k as int), u);
    }
}

/// Running two coroutines, driven with `()`, in turns until both have returned: when `f` alone
/// yields `ys` and returns `u`, and `l` alone yields `zs` and returns `w`, `CoAll::new(f, l)`
/// yields their items in turns, `f` first, then the rest of the one that runs longer, and
/// returns `(u, w)`.
pub proof fn lemma_co_all_runs<F, L>(f: F, ys: Seq<F::Yield>, u: F::Return, l: L, zs: Seq<F::Yield>, w: L::Return) where
    F: Coroutine<()>,
    L: Coroutine<(), Yield = F::Yield>,

    requires
        co_runs(f, units(ys.len() + 1), ys, u),
        co_runs(l, units(zs.len() + 1), zs, w),
    ensures
        co_runs(
            CoAll::<F, L>::Racing(CoRace(Either::Former((f, l)))),
            units(ys.len() + zs.len() + 1),
            interleave(ys, zs),
            (u, w),
        ),
{
    lemma_interleave_split(ys, zs);
    if ys.len() <= zs.len() {
        let k = ys.len();
        let l1 = lemma_co_runs_split(l, zs, w, k);
        lemma_co_all_former_first(f, ys, u, l, zs.take(k as int), l1, zs.skip(k as int), w);
    } else {
        let k = zs.len() + 1;
        let f1 = lemma_co_runs_split(f, ys, u, k);
        lemma_co_all_latter_first(f, ys.take(k as int), f1, l, zs, w, ys.skip(k as int), u);
    }
}

} // verus!
