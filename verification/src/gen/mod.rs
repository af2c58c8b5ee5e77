//! Generators: values that, when stepped, either yield an item together with the rest of the
//! generator, or return a final value.
pub mod comb;
pub mod either;
pub mod iter;
pub mod map;

use vstd::prelude::*;

use crate::cat::sum::{Either, Sum};
use crate::cat::{Inj, Iso, Sur};
use crate::fsm::match_transition::Transition;
use crate::fsm::State;
use crate::cat::enums::Match;
use crate::never::Never;

verus! {

/// A type whose values yield items of type `Yield`.
pub trait Yields {
    type Yield;
}

/// A type whose values finish with a value of type `Return`.
pub trait Returns {
    type Return;
}

/// The outcome of one step of a generator `C`: an item and the rest of the generator, or the
/// final value.
pub enum GenResult<C: Yields + Returns> {
    Yield(C::Yield, C),
    Return(C::Return),
}

/// A generator is consumed by each step and handed back, advanced, with each yielded item.
pub trait Generator: Sized + Yields + Returns {
    /// The generator may be stepped: whatever it calls on the next step accepts what it is
    /// given. Unless an implementation says otherwise, it always may.
    open spec fn ready(&self) -> bool {
        true
    }

    /// `r` is an outcome of one step of `self`. Unless an implementation says otherwise,
    /// nothing is known of the outcome.
    open spec fn steps_to(&self, r: GenResult<Self>) -> bool {
        true
    }

    /// Runs the generator up to its next item or to its end.
    fn next(self) -> (r: GenResult<Self>)
        requires
            self.ready(),
        ensures
            self.steps_to(r),
            r matches GenResult::Yield(_, rest) ==> rest.ready(),
    ;
}

/// `g` yields the items `ys`, one step each, and is then the generator `h`.
pub open spec fn yields_to<G: Generator>(g: G, ys: Seq<G::Yield>, h: G) -> bool
    decreases ys.len(),
{
    if ys.len() == 0 {
        g == h
    } else {
        exists|g1: G|
            #[trigger] g.steps_to(GenResult::Yield(ys[0], g1)) && yields_to(g1, ys.drop_first(), h)
    }
}

/// `g` yields exactly the items `ys` and then returns `r`.
pub open spec fn runs<G: Generator>(g: G, ys: Seq<G::Yield>, r: G::Return) -> bool
    decreases ys.len(),
{
    if ys.len() == 0 {
        g.steps_to(GenResult::Return(r))
    } else {
        exists|g1: G|
            #[trigger] g.steps_to(GenResult::Yield(ys[0], g1)) && runs(g1, ys.drop_first(), r)
    }
}

/// Every value that `g` can ever return satisfies `p`.
pub open spec fn all_returns<G: Generator>(g: G, p: spec_fn(G::Return) -> bool) -> bool {
    forall|ys: Seq<G::Yield>, h: G, r: G::Return|
        #![trigger yields_to(g, ys, h), h.steps_to(GenResult::Return(r))]
        yields_to(g, ys, h) && h.steps_to(GenResult::Return(r)) ==> p(r)
}

/// One step followed by a run of items.
pub proof fn lemma_yields_to_cons<G: Generator>(g: G, y: G::Yield, g1: G, ys: Seq<G::Yield>, h: G)
    requires
        g.steps_to(GenResult::Yield(y, g1)),
        yields_to(g1, ys, h),
    ensures
        yields_to(g, seq![y] + ys, h),
{
    assert((seq![y] + ys).drop_first() =~= ys);
    assert((seq![y] + ys)[0] == y);
}

/// One step followed by a complete run.
pub proof fn lemma_runs_cons<G: Generator>(g: G, y: G::Yield, g1: G, ys: Seq<G::Yield>, r: G::Return)
    requires
        g.steps_to(GenResult::Yield(y, g1)),
        runs(g1, ys, r),
    ensures
        runs(g, seq![y] + ys, r),
{
    assert((seq![y] + ys).drop_first() =~= ys);
    assert((seq![y] + ys)[0] == y);
}

/// Yielding `ys` to reach `h`, then running `h` with `zs` to `r`, is a run with `ys + zs`.
pub proof fn lemma_runs_append<G: Generator>(
    g: G,
    ys: Seq<G::Yield>,
    h: G,
    zs: Seq<G::Yield>,
    r: G::Return,
)
    requires
        yields_to(g, ys, h),
        runs(h, zs, r),
    ensures
        runs(g, ys + zs, r),
    decreases ys.len(),
{
    if ys.len() == 0 {
        assert(ys + zs =~= zs);
    } else {
        let g1 = choose|g1: G|
            #[trigger] g.steps_to(GenResult::Yield(ys[0], g1)) && yields_to(g1, ys.drop_first(), h);
        lemma_runs_append(g1, ys.drop_first(), h, zs, r);
        assert(ys.drop_first() + zs =~= (ys + zs).drop_first());
        assert((ys + zs)[0] == ys[0]);
    }
}

/// What holds of every return of `g` holds of every return of what `g` steps to.
pub proof fn lemma_all_returns_step<G: Generator>(
    g: G,
    p: spec_fn(G::Return) -> bool,
    y: G::Yield,
    g1: G,
)
    requires
        all_returns(g, p),
        g.steps_to(GenResult::Yield(y, g1)),
    ensures
        all_returns(g1, p),
{
    assert forall|ys: Seq<G::Yield>, h: G, r: G::Return|
        #![trigger yields_to(g1, ys, h), h.steps_to(GenResult::Return(r))]
        yields_to(g1, ys, h) && h.steps_to(GenResult::Return(r)) implies p(r) by {
        lemma_yields_to_cons(g, y, g1, ys, h);
    }
}

/// What holds of every return of `g` holds of its immediate return.
pub proof fn lemma_all_returns_now<G: Generator>(g: G, p: spec_fn(G::Return) -> bool, r: G::Return)
    requires
        all_returns(g, p),
        g.steps_to(GenResult::Return(r)),
    ensures
        p(r),
{
    assert(yields_to(g, Seq::empty(), g));
}

impl<C: Yields + Returns> Sum for GenResult<C> {
    type Left = (C::Yield, C);
    type Right = C::Return;
    type Output = Self;
}

impl<C: Yields + Returns> Sur<Either<(C::Yield, C), C::Return>> for GenResult<C> {
    open spec fn spec_sur(e: Either<(C::Yield, C), C::Return>) -> Self {
        match e {
            Either::Left((y, c)) => GenResult::Yield(y, c),
            Either::Right(r) => GenResult::Return(r),
        }
    }

    fn sur(e: Either<(C::Yield, C), C::Return>) -> (r: Self) {
        match e {
            Either::Left((y, c)) => GenResult::Yield(y, c),
            Either::Right(r) => GenResult::Return(r),
        }
    }
}

impl<C: Yields + Returns> Inj<Either<(C::Yield, C), C::Return>> for GenResult<C> {
    open spec fn spec_inj(self) -> Either<(C::Yield, C), C::Return> {
        match self {
            GenResult::Yield(y, c) => Either::Left((y, c)),
            GenResult::Return(r) => Either::Right(r),
        }
    }

    fn inj(self) -> (r: Either<(C::Yield, C), C::Return>) {
        match self {
            GenResult::Yield(y, c) => Either::Left((y, c)),
            GenResult::Return(r) => Either::Right(r),
        }
    }
}

impl<C: Yields + Returns> Iso<Either<(C::Yield, C), C::Return>> for GenResult<C> {
    proof fn lemma_inj_of_sur(x: Either<(C::Yield, C), C::Return>) {
    }

    proof fn lemma_sur_of_inj(s: Self) {
    }
}

/// The generator that drives the state machine `self.0` with unit inputs: each continuation,
/// the only alternative of its enumeration, yields the value emitted, and the exit value is
/// returned.
pub struct GenState<S>(pub S);

impl<S, Y, E> Yields for GenState<S> where S: State<Input = (), Transition = Transition<Match<(Y, S), Never>, E>> {
    type Yield = Y;
}

impl<S, Y, E> Returns for GenState<S> where
    S: State<Input = (), Transition = Transition<Match<(Y, S), Never>, E>>,
 {
    type Return = E;
}

impl<S, Y, E> Generator for GenState<S> where
    S: State<Input = (), Transition = Transition<Match<(Y, S), Never>, E>>,
 {
    open spec fn ready(&self) -> bool {
        true
    }

    /// One step is one transition of the state on `()`.
    open spec fn steps_to(&self, r: GenResult<Self>) -> bool {
        match r {
            GenResult::Yield(y, rest) => self.0.sends_to(
                (),
                Transition::Continue(Match::Variant((y, rest.0))),
            ),
            GenResult::Return(e) => self.0.sends_to((), Transition::Exit(e)),
        }
    }

    fn next(self) -> (r: GenResult<Self>) {
        match self.0.send(()).inj() {
            Either::Left(cont) => {
                let (y, c) = match cont.inj() {
                    Either::Left(l) => l,
                    Either::Right(never) => {
                        proof {
                            use_type_invariant(&never);
                        }
                        never.absurd()
                    },
                }.inj();
                GenResult::Yield(y, GenState(c))
            },
            Either::Right(ret) => GenResult::Return(ret),
        }
    }
}

/// The generator of all the numbers from `start` on, in increasing order.
///
/// It never returns. After `usize::MAX` it goes on with `0`.
pub struct GenRangeFrom {
    pub start: usize,
}

/// The generator of `start`, `start + 1`, ... .
pub fn range_from(start: usize) -> (r: GenRangeFrom)
    ensures
        r.start == start,
{
    GenRangeFrom { start }
}

impl Yields for GenRangeFrom {
    type Yield = usize;
}

impl Returns for GenRangeFrom {
    type Return = ();
}

/// The number after `n`, with `0` after `usize::MAX`.
pub open spec fn successor(n: usize) -> usize {
    if n < usize::MAX {
        (n + 1) as usize
    } else {
        0
    }
}

impl Generator for GenRangeFrom {
    open spec fn ready(&self) -> bool {
        true
    }

    open spec fn steps_to(&self, r: GenResult<Self>) -> bool {
        r == GenResult::<Self>::Yield(self.start, GenRangeFrom { start: successor(self.start) })
    }

    fn next(self) -> (r: GenResult<Self>) {
        let following = if self.start < usize::MAX {
            self.start + 1
        } else {
            0
        };
        GenResult::Yield(self.start, GenRangeFrom { start: following })
    }
}

/// A range from `start` yields the `n` numbers after `start` and becomes the range from
/// `start + n`.
pub proof fn lemma_range_from_yields(start: usize, n: nat)
    requires
        start + n <= usize::MAX,
    ensures
        yields_to(
            GenRangeFrom { start },
            Seq::new(n, |i: int| (start + i) as usize),
            GenRangeFrom { start: (start + n) as usize },
        ),
    decreases n,
{
    if n > 0 {
        lemma_range_from_yields((start + 1) as usize, (n - 1) as nat);
        let tail = Seq::new((n - 1) as nat, |i: int| (start + 1 + i) as usize);
        assert(Seq::new(n, |i: int| (start + i) as usize) =~= seq![start] + tail);
        lemma_yields_to_cons(
            GenRangeFrom { start },
            start,
            GenRangeFrom { start: (start + 1) as usize },
            tail,
            GenRangeFrom { start: (start + n) as usize },
        );
    }
}

/// A run can be cut after any number `k` of its items: the generator yields the first `k`
/// items to some `h`, which runs on with the others to the same return value.
pub proof fn lemma_runs_split<G: Generator>(g: G, ys: Seq<G::Yield>, r: G::Return, k: nat) -> (h: G)
    requires
        runs(g, ys, r),
        k <= ys.len(),
    ensures
        yields_to(g, ys.take(k as int), h),
        runs(h, ys.skip(k as int), r),
    decreases k,
{
    if k == 0 {
        assert(ys.take(0) =~= Seq::<G::Yield>::empty());
        assert(ys.skip(0) =~= ys);
        g
    } else {
        let g1 = choose|g1: G|
            #[trigger] g.steps_to(GenResult::Yield(ys[0], g1)) && runs(g1, ys.drop_first(), r);
        let h = lemma_runs_split(g1, ys.drop_first(), r, (k - 1) as nat);
        assert(ys.drop_first().take(k - 1) =~= ys.take(k as int).drop_first());
        assert(ys.drop_first().skip(k - 1) =~= ys.skip(k as int));
        assert(ys.take(k as int)[0] == ys[0]);
        h
    }
}

/// One step of the range from `start`, below `usize::MAX`, yields `start` and leaves the range
/// from `start + 1`, and it can give nothing else.
pub proof fn lemma_range_from_step(start: usize, r: GenResult<GenRangeFrom>)
    requires
        start < usize::MAX,
    ensures
        (GenRangeFrom { start }).steps_to(
            GenResult::Yield(start, (GenRangeFrom { start: (start + 1) as usize })),
        ),
        (GenRangeFrom { start }).steps_to(r) ==> r == GenResult::<GenRangeFrom>::Yield(
            start,
            (GenRangeFrom { start: (start + 1) as usize }),
        ),
{
}

/// Whatever the range from `start` yields in `n` steps, with `start + n` within `usize`, is
/// exactly `start`, `start + 1`, ..., `start + n - 1`, after which it is the range from
/// `start + n`.
pub proof fn lemma_range_from_yields_only(start: usize, ys: Seq<usize>, h: GenRangeFrom)
    requires
        yields_to((GenRangeFrom { start }), ys, h),
        start + ys.len() <= usize::MAX,
    ensures
        ys == Seq::new(ys.len(), |i: int| (start + i) as usize),
        h == (GenRangeFrom { start: (start + ys.len()) as usize }),
    decreases ys.len(),
{
    let g = GenRangeFrom { start };
    if ys.len() == 0 {
        assert(ys =~= Seq::new(0, |i: int| (start + i) as usize));
    } else {
        let g1 = choose|g1: GenRangeFrom|
            #[trigger] g.steps_to(GenResult::Yield(ys[0], g1)) && yields_to(g1, ys.drop_first(), h);
        lemma_range_from_step(start, GenResult::Yield(ys[0], g1));
        lemma_range_from_yields_only((start + 1) as usize, ys.drop_first(), h);
        assert(ys =~= Seq::new(ys.len(), |i: int| (start + i) as usize)) by {
            assert forall|i: int| 0 <= i < ys.len() implies ys[i] == (start + i) as usize by {
                if i > 0 {
                    assert(ys[i] == ys.drop_first()[i - 1]);
                }
            }
        }
    }
}

} // verus!
