//! Coroutines: like generators, but each step takes an input.
use vstd::prelude::*;

use crate::either::Either;
use crate::never::Never;

verus! {

/// The outcome of one step of a coroutine: an item and the rest of the coroutine, or the final
/// value.
pub enum CoResult<Y, C, R> {
    Yield(Y, C),
    Return(R),
}

/// A coroutine that takes inputs of type `I`; it is consumed by each step and handed back,
/// advanced, with each yielded item.
pub trait Coroutine<I>: Sized {
    type Yield;
    type Return;

    /// The coroutine may be stepped: whatever it calls on the next step accepts what it is
    /// given. Unless an implementation says otherwise, it always may.
    open spec fn ready(&self) -> bool {
        true
    }

    /// `r` is an outcome of one step of `self` on the input `i`. Unless an implementation says
    /// otherwise, nothing is known of the outcome.
    open spec fn sends_to(&self, i: I, r: CoResult<Self::Yield, Self, Self::Return>) -> bool {
        true
    }

    /// Runs the coroutine on the input `i` up to its next item or to its end.
    fn send(self, i: I) -> (r: CoResult<Self::Yield, Self, Self::Return>)
        requires
            self.ready(),
        ensures
            self.sends_to(i, r),
            r matches CoResult::Yield(_, rest) ==> rest.ready(),
    ;
}

/// A suspension: an item with the coroutine that continues after it, or something else.
pub trait CoSuspend: Sized {
    type Yield;
    type Continuation;
    type Suspension;

    spec fn spec_get(self) -> Either<(Self::Yield, Self::Continuation), Self::Suspension>;

    /// The item with its continuation, or the other thing held.
    fn get(self) -> (r: Either<(Self::Yield, Self::Continuation), Self::Suspension>)
        ensures
            r == self.spec_get(),
    ;
}

/// The outcome of a step is a suspension with the item and the rest of the coroutine, or else
/// the final value.
impl<Y, C, R> CoSuspend for CoResult<Y, C, R> {
    type Yield = Y;
    type Continuation = C;
    type Suspension = R;

    open spec fn spec_get(self) -> Either<(Y, C), R> {
        match self {
            CoResult::Yield(y, c) => Either::Former((y, c)),
            CoResult::Return(r) => Either::Latter(r),
        }
    }

    fn get(self) -> (r: Either<(Y, C), R>) {
        match self {
            CoResult::Yield(y, c) => Either::Former((y, c)),
            CoResult::Return(r) => Either::Latter(r),
        }
    }
}

/// `c`, given the inputs `is` one per step, yields the items `ys` and is then `h`.
pub open spec fn co_yields_to<I, C: Coroutine<I>>(c: C, is: Seq<I>, ys: Seq<C::Yield>, h: C) -> bool
    decreases ys.len(),
{
    if ys.len() == 0 {
        is.len() == 0 && c == h
    } else {
        &&& is.len() == ys.len()
        &&& exists|c1: C|
            #[trigger] c.sends_to(is[0], CoResult::Yield(ys[0], c1)) && co_yields_to(
                c1,
                is.drop_first(),
                ys.drop_first(),
                h,
            )
    }
}

/// `c`, given the inputs `is` one per step, yields the items `ys` and then, on the last input,
/// returns `r`.
pub open spec fn co_runs<I, C: Coroutine<I>>(c: C, is: Seq<I>, ys: Seq<C::Yield>, r: C::Return) -> bool
    decreases ys.len(),
{
    &&& is.len() == ys.len() + 1
    &&& if ys.len() == 0 {
        c.sends_to(is[0], CoResult::Return(r))
    } else {
        exists|c1: C|
            #[trigger] c.sends_to(is[0], CoResult::Yield(ys[0], c1)) && co_runs(
                c1,
                is.drop_first(),
                ys.drop_first(),
                r,
            )
    }
}

/// `n` unit inputs, as taken by a coroutine driven without input.
pub open spec fn units(n: nat) -> Seq<()> {
    Seq::new(n, |_i: int| ())
}

/// Every value that `c` can ever return, on any inputs, satisfies `p`.
pub open spec fn co_all_returns<I, C: Coroutine<I>>(c: C, p: spec_fn(C::Return) -> bool) -> bool {
    forall|is: Seq<I>, ys: Seq<C::Yield>, h: C, i: I, r: C::Return|
        #![trigger co_yields_to(c, is, ys, h), h.sends_to(i, CoResult::Return(r))]
        co_yields_to(c, is, ys, h) && h.sends_to(i, CoResult::Return(r)) ==> p(r)
}

/// What holds of every return of `c` holds of every return of what `c` steps to.
pub proof fn lemma_co_all_returns_step<I, C: Coroutine<I>>(
    c: C,
    p: spec_fn(C::Return) -> bool,
    i: I,
    y: C::Yield,
    c1: C,
)
    requires
        co_all_returns(c, p),
        c.sends_to(i, CoResult::Yield(y, c1)),
    ensures
        co_all_returns(c1, p),
{
    assert forall|is: Seq<I>, ys: Seq<C::Yield>, h: C, j: I, r: C::Return|
        #![trigger co_yields_to(c1, is, ys, h), h.sends_to(j, CoResult::Return(r))]
        co_yields_to(c1, is, ys, h) && h.sends_to(j, CoResult::Return(r)) implies p(r) by {
        lemma_co_yields_to_cons(c, i, y, c1, is, ys, h);
    }
}

/// What holds of every return of `c` holds of its immediate return.
pub proof fn lemma_co_all_returns_now<I, C: Coroutine<I>>(
    c: C,
    p: spec_fn(C::Return) -> bool,
    i: I,
    r: C::Return,
)
    requires
        co_all_returns(c, p),
        c.sends_to(i, CoResult::Return(r)),
    ensures
        p(r),
{
    assert(co_yields_to(c, Seq::<I>::empty(), Seq::<C::Yield>::empty(), c));
}

/// One step followed by a complete run.
pub proof fn lemma_co_runs_cons<I, C: Coroutine<I>>(
    c: C,
    i: I,
    y: C::Yield,
    c1: C,
    is: Seq<I>,
    ys: Seq<C::Yield>,
    r: C::Return,
)
    requires
        c.sends_to(i, CoResult::Yield(y, c1)),
        co_runs(c1, is, ys, r),
    ensures
        co_runs(c, seq![i] + is, seq![y] + ys, r),
{
    assert((seq![i] + is).drop_first() =~= is);
    assert((seq![y] + ys).drop_first() =~= ys);
    assert((seq![i] + is)[0] == i);
    assert((seq![y] + ys)[0] == y);
}

/// One step followed by more steps.
pub proof fn lemma_co_yields_to_cons<I, C: Coroutine<I>>(
    c: C,
    i: I,
    y: C::Yield,
    c1: C,
    is: Seq<I>,
    ys: Seq<C::Yield>,
    h: C,
)
    requires
        c.sends_to(i, CoResult::Yield(y, c1)),
        co_yields_to(c1, is, ys, h),
    ensures
        co_yields_to(c, seq![i] + is, seq![y] + ys, h),
{
    assert((seq![i] + is).drop_first() =~= is);
    assert((seq![y] + ys).drop_first() =~= ys);
    assert((seq![i] + is)[0] == i);
    assert((seq![y] + ys)[0] == y);
}

/// The coroutine that cannot be reached.
impl<I> Coroutine<I> for Never {
    type Yield = Never;
    type Return = Never;

    fn send(self, i: I) -> (r: CoResult<Never, Never, Never>) {
        proof {
            use_type_invariant(&self);
        }
        self.absurd()
    }
}

/// The suspension that cannot be reached.
impl CoSuspend for Never {
    type Yield = Never;
    type Continuation = Never;
    type Suspension = Never;

    open spec fn spec_get(self) -> Either<(Never, Never), Never> {
        Either::Latter(self)
    }

    fn get(self) -> (r: Either<(Never, Never), Never>) {
        Either::Latter(self)
    }
}

/// A run driven with `()` can be cut after any number `k` of its items: the coroutine yields
/// the first `k` items to some `h`, which runs on with the others to the same return value.
pub proof fn lemma_co_runs_split<C: Coroutine<()>>(c: C, ys: Seq<C::Yield>, r: C::Return, k: nat) -> (h: C)
    requires
        co_runs(c, units(ys.len() + 1), ys, r),
        k <= ys.len(),
    ensures
        co_yields_to(c, units(k), ys.take(k as int), h),
        co_runs(h, units((ys.len() - k + 1) as nat), ys.skip(k as int), r),
    decreases k,
{
    if k == 0 {
        assert(ys.take(0) =~= Seq::<C::Yield>::empty());
        assert(ys.skip(0) =~= ys);
        assert(units(0) =~= Seq::<()>::empty());
        c
    } else {
        let is = units(ys.len() + 1);
        assert(is.drop_first() =~= units(ys.drop_first().len() + 1));
        let c1 = choose|c1: C|
            #[trigger] c.sends_to(is[0], CoResult::Yield(ys[0], c1)) && co_runs(
                c1,
                is.drop_first(),
                ys.drop_first(),
                r,
            );
        let h = lemma_co_runs_split(c1, ys.drop_first(), r, (k - 1) as nat);
        assert(ys.drop_first().take(k - 1) =~= ys.take(k as int).drop_first());
        assert(ys.drop_first().skip(k - 1) =~= ys.skip(k as int));
        assert(units(k).drop_first() =~= units((k - 1) as nat));
        assert(ys.take(k as int)[0] == ys[0]);
        assert(units(k)[0] == is[0]);
        h
    }
}

} // verus!
