//! The generator that runs whichever of two generators it holds, as a sum type.
use vstd::prelude::*;

use crate::cat::sum::{Either, Sum};
use crate::cat::{Inj, Iso, Sur};
use crate::gen::{runs, GenResult, Generator, Returns, Yields};

verus! {

/// One of two generators with the same items and return type.
pub enum GenEither<F, L> {
    Former(F),
    Latter(L),
}

impl<F, L> Sum for GenEither<F, L> {
    type Left = F;
    type Right = L;
    type Output = Self;
}

impl<F, L> Sur<Either<F, L>> for GenEither<F, L> {
    open spec fn spec_sur(e: Either<F, L>) -> Self {
        match e {
            Either::Left(l) => GenEither::Former(l),
            Either::Right(r) => GenEither::Latter(r),
        }
    }

    fn sur(e: Either<F, L>) -> (r: Self) {
        match e {
            Either::Left(l) => GenEither::Former(l),
            Either::Right(r) => GenEither::Latter(r),
        }
    }
}

impl<F, L> Inj<Either<F, L>> for GenEither<F, L> {
    open spec fn spec_inj(self) -> Either<F, L> {
        match self {
            GenEither::Former(f) => Either::Left(f),
            GenEither::Latter(l) => Either::Right(l),
        }
    }

    fn inj(self) -> (r: Either<F, L>) {
        match self {
            GenEither::Former(f) => Either::Left(f),
            GenEither::Latter(l) => Either::Right(l),
        }
    }
}

impl<F, L> Iso<Either<F, L>> for GenEither<F, L> {
    proof fn lemma_inj_of_sur(x: Either<F, L>) {
    }

    proof fn lemma_sur_of_inj(s: Self) {
    }
}

impl<F: Yields, L> Yields for GenEither<F, L> {
    type Yield = F::Yield;
}

impl<F: Returns, L> Returns for GenEither<F, L> {
    type Return = F::Return;
}

impl<F, L> Generator for GenEither<F, L> where
    F: Generator,
    L: Generator<Yield = F::Yield, Return = F::Return>,
 {
    open spec fn ready(&self) -> bool {
        match self {
            GenEither::Former(f) => f.ready(),
            GenEither::Latter(l) => l.ready(),
        }
    }

    /// The generator held takes the step and stays on its side.
    open spec fn steps_to(&self, r: GenResult<Self>) -> bool {
        match self {
            GenEither::Former(f) => match r {
                GenResult::Yield(y, GenEither::Former(f1)) => f.steps_to(GenResult::Yield(y, f1)),
                GenResult::Yield(_, GenEither::Latter(_)) => false,
                GenResult::Return(v) => f.steps_to(GenResult::Return(v)),
            },
            GenEither::Latter(l) => match r {
                GenResult::Yield(y, GenEither::Latter(l1)) => l.steps_to(GenResult::Yield(y, l1)),
                GenResult::Yield(_, GenEither::Former(_)) => false,
                GenResult::Return(v) => l.steps_to(GenResult::Return(v)),
            },
        }
    }

    fn next(self) -> (r: GenResult<Self>) {
        match self {
            GenEither::Former(f) => match f.next().inj() {
                Either::Left(s) => {
                    let (y, f) = s;
                    GenResult::Yield(y, GenEither::Former(f))
                },
                Either::Right(r) => GenResult::Return(r),
            },
            GenEither::Latter(l) => match l.next().inj() {
                Either::Left(s) => {
                    let (y, l) = s;
                    GenResult::Yield(y, GenEither::Latter(l))
                },
                Either::Right(r) => GenResult::Return(r),
            },
        }
    }
}

/// Holding a generator on either side runs exactly as that generator does.
pub proof fn lemma_gen_either_runs<F, L>(e: GenEither<F, L>, ys: Seq<F::Yield>, r: F::Return) where
    F: Generator,
    L: Generator<Yield = F::Yield, Return = F::Return>,

    requires
        match e {
            GenEither::Former(f) => runs(f, ys, r),
            GenEither::Latter(l) => runs(l, ys, r),
        },
    ensures
        runs(e, ys, r),
    decreases ys.len(),
{
    if ys.len() > 0 {
        match e {
            GenEither::Former(f) => {
                let f1 = choose|g1: F|
                    #[trigger] f.steps_to(GenResult::Yield(ys[0], g1)) && runs(g1, ys.drop_first(), r);
                lemma_gen_either_runs(GenEither::<F, L>::Former(f1), ys.drop_first(), r);
                assert(e.steps_to(GenResult::Yield(ys[0], GenEither::Former(f1))));
            },
            GenEither::Latter(l) => {
                let l1 = choose|g1: L|
                    #[trigger] l.steps_to(GenResult::Yield(ys[0], g1)) && runs(g1, ys.drop_first(), r);
                lemma_gen_either_runs(GenEither::<F, L>::Latter(l1), ys.drop_first(), r);
                assert(e.steps_to(GenResult::Yield(ys[0], GenEither::Latter(l1))));
            },
        }
    }
}

} // verus!
