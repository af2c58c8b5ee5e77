//! A choice between two values, and the generator that runs whichever of two generators it
//! holds.
use vstd::prelude::*;

use crate::gen::{runs, GenResult, Generator, Returns, Yields};

verus! {

/// One of two values: the former or the latter.
pub enum Either<F, L> {
    Former(F),
    Latter(L),
}

impl<F> Either<F, F> {
    /// The value held, whichever side holds it.
    pub fn collapse(self) -> (r: F)
        ensures
            r == match self {
                Either::Former(f) => f,
                Either::Latter(l) => l,
            },
    {
        match self {
            Either::Former(f) => f,
            Either::Latter(l) => l,
        }
    }
}

impl<F: Yields, L> Yields for Either<F, L> {
    type Yield = F::Yield;
}

impl<F: Returns, L> Returns for Either<F, L> {
    type Return = F::Return;
}

impl<F, L> Generator for Either<F, L> where
    F: Generator,
    L: Generator<Yield = F::Yield, Return = F::Return>,
 {
    open spec fn ready(&self) -> bool {
        match self {
            Either::Former(f) => f.ready(),
            Either::Latter(l) => l.ready(),
        }
    }

    /// The generator held takes the step and stays on its side.
    open spec fn steps_to(&self, r: GenResult<Self>) -> bool {
        match self {
            Either::Former(f) => match r {
                GenResult::Yield(y, Either::Former(f1)) => f.steps_to(GenResult::Yield(y, f1)),
                GenResult::Yield(_, Either::Latter(_)) => false,
                GenResult::Return(v) => f.steps_to(GenResult::Return(v)),
            },
            Either::Latter(l) => match r {
                GenResult::Yield(y, Either::Latter(l1)) => l.steps_to(GenResult::Yield(y, l1)),
                GenResult::Yield(_, Either::Former(_)) => false,
                GenResult::Return(v) => l.steps_to(GenResult::Return(v)),
            },
        }
    }

    fn next(self) -> (r: GenResult<Self>) {
        match self {
            Either::Former(f) => match f.next() {
                GenResult::Yield(y, f) => GenResult::Yield(y, Either::Former(f)),
                GenResult::Return(r) => GenResult::Return(r),
            },
            Either::Latter(l) => match l.next() {
                GenResult::Yield(y, l) => GenResult::Yield(y, Either::Latter(l)),
                GenResult::Return(r) => GenResult::Return(r),
            },
        }
    }
}

/// Holding a generator on either side runs exactly as that generator does.
pub proof fn lemma_either_runs<F, L>(e: Either<F, L>, ys: Seq<F::Yield>, r: F::Return) where
    F: Generator,
    L: Generator<Yield = F::Yield, Return = F::Return>,

    requires
        match e {
            Either::Former(f) => runs(f, ys, r),
            Either::Latter(l) => runs(l, ys, r),
        },
    ensures
        runs(e, ys, r),
    decreases ys.len(),
{
    if ys.len() > 0 {
        match e {
            Either::Former(f) => {
                let f1 = choose|g1: F|
                    #[trigger] f.steps_to(GenResult::Yield(ys[0], g1)) && runs(g1, ys.drop_first(), r);
                lemma_either_runs(Either::<F, L>::Former(f1), ys.drop_first(), r);
                assert(e.steps_to(GenResult::Yield(ys[0], Either::Former(f1))));
            },
            Either::Latter(l) => {
                let l1 = choose|g1: L|
                    #[trigger] l.steps_to(GenResult::Yield(ys[0], g1)) && runs(g1, ys.drop_first(), r);
                lemma_either_runs(Either::<F, L>::Latter(l1), ys.drop_first(), r);
                assert(e.steps_to(GenResult::Yield(ys[0], Either::Latter(l1))));
            },
        }
    }
}

} // verus!
