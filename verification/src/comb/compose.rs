//! Feeding the items of one coroutine into another as its inputs.
use vstd::prelude::*;

use crate::co::{co_runs, co_yields_to, lemma_co_runs_cons, CoResult, Coroutine};

verus! {

/// The pipeline in which each input goes to `right`, and each item of `right` goes to `left`
/// as its input.
pub struct CoCompose<Left, Right> {
    pub left: Left,
    pub right: Right,
}

/// Which side of a pipeline finished.
pub enum Which<L, R> {
    Left(L),
    Right(R),
}

impl<I, Left, Right> Coroutine<I> for CoCompose<Left, Right> where
    Right: Coroutine<I>,
    Left: Coroutine<Right::Yield>,
 {
    type Yield = Left::Yield;
    /// The side that finished gives its value; the other side is returned as it was left.
    type Return = Which<(Left::Return, Right), (Left, Right::Return)>;

    open spec fn ready(&self) -> bool {
        self.left.ready() && self.right.ready()
    }

    /// `right` takes the input; its item is the input of `left`.
    open spec fn sends_to(
        &self,
        i: I,
        r: CoResult<Left::Yield, Self, Which<(Left::Return, Right), (Left, Right::Return)>>,
    ) -> bool {
        match r {
            CoResult::Yield(y, rest) => exists|m: Right::Yield|
                self.right.sends_to(i, CoResult::Yield(m, rest.right)) && self.left.sends_to(
                    m,
                    CoResult::Yield(y, rest.left),
                ),
            CoResult::Return(Which::Left((lr, right1))) => exists|m: Right::Yield|
                self.right.sends_to(i, CoResult::Yield(m, right1)) && self.left.sends_to(
                    m,
                    CoResult::Return(lr),
                ),
            CoResult::Return(Which::Right((left1, rr))) => left1 == self.left
                && self.right.sends_to(i, CoResult::Return(rr)),
        }
    }

    fn send(self, i: I) -> (r: CoResult<
        Left::Yield,
        Self,
        Which<(Left::Return, Right), (Left, Right::Return)>,
    >) {
        let CoCompose { left, right } = self;
        let ghost l0 = left;
        let ghost r0 = right;
        match right.send(i) {
            CoResult::Yield(m, right1) => {
                match left.send(m) {
                    CoResult::Yield(y, left1) => {
                        let r = CoResult::Yield(y, left1.compose(right1));
                        assert(r0.sends_to(i, CoResult::Yield(m, r->Yield_1.right))
                            && l0.sends_to(m, CoResult::Yield(r->Yield_0, r->Yield_1.left)));
                        r
                    },
                    CoResult::Return(ret) => {
                        let r = CoResult::Return(Which::Left((ret, right1)));
                        assert(r0.sends_to(i, CoResult::Yield(m, r->Return_0->Left_0.1))
                            && l0.sends_to(m, CoResult::Return(r->Return_0->Left_0.0)));
                        r
                    },
                }
            },
            CoResult::Return(ret) => CoResult::Return(Which::Right((left, ret))),
        }
    }
}

/// Builds the pipeline that feeds the items of `r` into `self`.
pub trait Compose: Sized {
    fn compose<Right>(self, r: Right) -> (c: CoCompose<Self, Right>)
        ensures
            c == (CoCompose { left: self, right: r }),
    {
        CoCompose { left: self, right: r }
    }
}

impl<Left> Compose for Left {
}

/// When `right`, on the inputs `is`, yields the items `ms` and is then `right1`, and `left`,
/// on the inputs `ms`, yields `ys` and returns `lr`, the pipeline yields `ys` on `is` and
/// returns `lr` with `right1`.
pub proof fn lemma_compose_left_finishes<I, Left, Right>(
    left: Left,
    right: Right,
    is: Seq<I>,
    ms: Seq<Right::Yield>,
    right1: Right,
    ys: Seq<Left::Yield>,
    lr: Left::Return,
) where Right: Coroutine<I>, Left: Coroutine<Right::Yield>
    requires
        co_yields_to(right, is, ms, right1),
        co_runs(left, ms, ys, lr),
    ensures
        co_runs(
            CoCompose { left, right },
            is,
            ys,
            Which::<(Left::Return, Right), (Left, Right::Return)>::Left((lr, right1)),
        ),
    decreases ys.len(),
{
    let g = CoCompose { left, right };
    let r0 = choose|g1: Right|
        #[trigger] right.sends_to(is[0], CoResult::Yield(ms[0], g1)) && co_yields_to(
            g1,
            is.drop_first(),
            ms.drop_first(),
            right1,
        );
    if ys.len() == 0 {
        assert(ms.drop_first().len() == 0);
        assert(r0 == right1);
        let res = CoResult::<Left::Yield, CoCompose<Left, Right>, Which<(Left::Return, Right), (Left, Right::Return)>>::Return(
            Which::Left((lr, right1)),
        );
        assert(g.right.sends_to(is[0], CoResult::Yield(ms[0], res->Return_0->Left_0.1))
            && g.left.sends_to(ms[0], CoResult::Return(res->Return_0->Left_0.0)));
        assert(g.sends_to(is[0], res));
    } else {
        let l0 = choose|g1: Left|
            #[trigger] left.sends_to(ms[0], CoResult::Yield(ys[0], g1)) && co_runs(
                g1,
                ms.drop_first(),
                ys.drop_first(),
                lr,
            );
        lemma_compose_left_finishes(l0, r0, is.drop_first(), ms.drop_first(), right1, ys.drop_first(), lr);
        let g1 = CoCompose { left: l0, right: r0 };
        let res = CoResult::<Left::Yield, CoCompose<Left, Right>, Which<(Left::Return, Right), (Left, Right::Return)>>::Yield(
            ys[0],
            g1,
        );
        assert(g.right.sends_to(is[0], CoResult::Yield(ms[0], res->Yield_1.right))
            && g.left.sends_to(ms[0], CoResult::Yield(res->Yield_0, res->Yield_1.left)));
        assert(g.sends_to(is[0], res));
    }
}

/// When `right`, on the inputs `is`, yields the items `ms` and then returns `rr`, and `left`,
/// on the inputs `ms`, yields `ys` and is then `left1`, the pipeline yields `ys` on `is` and
/// returns `left1` with `rr`.
pub proof fn lemma_compose_right_finishes<I, Left, Right>(
    left: Left,
    right: Right,
    is: Seq<I>,
    ms: Seq<Right::Yield>,
    rr: Right::Return,
    ys: Seq<Left::Yield>,
    left1: Left,
) where Right: Coroutine<I>, Left: Coroutine<Right::Yield>
    requires
        co_runs(right, is, ms, rr),
        co_yields_to(left, ms, ys, left1),
    ensures
        co_runs(
            CoCompose { left, right },
            is,
            ys,
            Which::<(Left::Return, Right), (Left, Right::Return)>::Right((left1, rr)),
        ),
    decreases ys.len(),
{
    let g = CoCompose { left, right };
    if ys.len() == 0 {
        assert(ms.len() == 0);
        let res = CoResult::<Left::Yield, CoCompose<Left, Right>, Which<(Left::Return, Right), (Left, Right::Return)>>::Return(
            Which::Right((left1, rr)),
        );
        assert(g.sends_to(is[0], res));
    } else {
        let r0 = choose|g1: Right|
            #[trigger] right.sends_to(is[0], CoResult::Yield(ms[0], g1)) && co_runs(
                g1,
                is.drop_first(),
                ms.drop_first(),
                rr,
            );
        let l0 = choose|g1: Left|
            #[trigger] left.sends_to(ms[0], CoResult::Yield(ys[0], g1)) && co_yields_to(
                g1,
                ms.drop_first(),
                ys.drop_first(),
                left1,
            );
        lemma_compose_right_finishes(l0, r0, is.drop_first(), ms.drop_first(), rr, ys.drop_first(), left1);
        let g1 = CoCompose { left: l0, right: r0 };
        let res = CoResult::<Left::Yield, CoCompose<Left, Right>, Which<(Left::Return, Right), (Left, Right::Return)>>::Yield(
            ys[0],
            g1,
        );
        assert(g.right.sends_to(is[0], CoResult::Yield(ms[0], res->Yield_1.right))
            && g.left.sends_to(ms[0], CoResult::Yield(res->Yield_0, res->Yield_1.left)));
        assert(g.sends_to(is[0], res));
    }
}

} // verus!
