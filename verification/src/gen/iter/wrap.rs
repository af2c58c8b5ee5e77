//! The generator of the items of an iterator.
use vstd::prelude::*;

use core::ops::Range;

use crate::co::{co_runs, units};
use crate::gen::{lemma_runs_cons, runs, GenResult, Generator, Returns, Yields};
use crate::iter::iterwrapper::{lemma_co_iter_wrapper_of_wrap, CoIterWrapper};

verus! {

/// An iterator whose next step is known to the verifier.
pub trait IterSpec: Iterator + Sized {
    /// The iterator after one call of `next`, and what that call returns.
    spec fn spec_next(self) -> (Self, Option<Self::Item>);

    /// One call of `next`.
    fn advance(&mut self) -> (r: Option<Self::Item>)
        ensures
            (*final(self), r) == old(self).spec_next(),
    ;
}

impl IterSpec for Range<i32> {
    open spec fn spec_next(self) -> (Self, Option<i32>) {
        vstd::std_specs::range::spec_range_next(self)
    }

    fn advance(&mut self) -> (r: Option<i32>) {
        self.next()
    }
}

impl IterSpec for Range<i64> {
    open spec fn spec_next(self) -> (Self, Option<i64>) {
        vstd::std_specs::range::spec_range_next(self)
    }

    fn advance(&mut self) -> (r: Option<i64>) {
        self.next()
    }
}

impl IterSpec for Range<u64> {
    open spec fn spec_next(self) -> (Self, Option<u64>) {
        vstd::std_specs::range::spec_range_next(self)
    }

    fn advance(&mut self) -> (r: Option<u64>) {
        self.next()
    }
}

impl IterSpec for Range<usize> {
    open spec fn spec_next(self) -> (Self, Option<usize>) {
        vstd::std_specs::range::spec_range_next(self)
    }

    fn advance(&mut self) -> (r: Option<usize>) {
        self.next()
    }
}

impl IterSpec for Range<u8> {
    open spec fn spec_next(self) -> (Self, Option<u8>) {
        vstd::std_specs::range::spec_range_next(self)
    }

    fn advance(&mut self) -> (r: Option<u8>) {
        self.next()
    }
}

impl IterSpec for Range<u16> {
    open spec fn spec_next(self) -> (Self, Option<u16>) {
        vstd::std_specs::range::spec_range_next(self)
    }

    fn advance(&mut self) -> (r: Option<u16>) {
        self.next()
    }
}

impl IterSpec for Range<u32> {
    open spec fn spec_next(self) -> (Self, Option<u32>) {
        vstd::std_specs::range::spec_range_next(self)
    }

    fn advance(&mut self) -> (r: Option<u32>) {
        self.next()
    }
}

impl IterSpec for Range<u128> {
    open spec fn spec_next(self) -> (Self, Option<u128>) {
        vstd::std_specs::range::spec_range_next(self)
    }

    fn advance(&mut self) -> (r: Option<u128>) {
        self.next()
    }
}

impl IterSpec for Range<i8> {
    open spec fn spec_next(self) -> (Self, Option<i8>) {
        vstd::std_specs::range::spec_range_next(self)
    }

    fn advance(&mut self) -> (r: Option<i8>) {
        self.next()
    }
}

impl IterSpec for Range<i16> {
    open spec fn spec_next(self) -> (Self, Option<i16>) {
        vstd::std_specs::range::spec_range_next(self)
    }

    fn advance(&mut self) -> (r: Option<i16>) {
        self.next()
    }
}

impl IterSpec for Range<i128> {
    open spec fn spec_next(self) -> (Self, Option<i128>) {
        vstd::std_specs::range::spec_range_next(self)
    }

    fn advance(&mut self) -> (r: Option<i128>) {
        self.next()
    }
}

impl IterSpec for Range<isize> {
    open spec fn spec_next(self) -> (Self, Option<isize>) {
        vstd::std_specs::range::spec_range_next(self)
    }

    fn advance(&mut self) -> (r: Option<isize>) {
        self.next()
    }
}

/// The generator of the items of the iterator `self.0`, which returns the exhausted iterator.
pub struct GenWrap<I>(pub I);

impl<I: Iterator> Yields for GenWrap<I> {
    type Yield = I::Item;
}

impl<I> Returns for GenWrap<I> {
    type Return = I;
}

impl<I: IterSpec> Generator for GenWrap<I> {
    open spec fn ready(&self) -> bool {
        true
    }

    /// Each step is one call of the iterator's `next`: an item is yielded, and a `None` ends
    /// the generator with the iterator as it was left.
    open spec fn steps_to(&self, r: GenResult<Self>) -> bool {
        let (i, item) = self.0.spec_next();
        match item {
            Some(y) => r == GenResult::<Self>::Yield(y, GenWrap(i)),
            None => r == GenResult::<Self>::Return(i),
        }
    }

    fn next(self) -> (r: GenResult<Self>) {
        let mut i = self.0;
        match i.advance() {
            Some(item) => GenResult::Yield(item, GenWrap(i)),
            None => GenResult::Return(i),
        }
    }
}

/// Turns an iterator into a generator of its items.
pub trait Wrap: Iterator + Sized {
    fn wrap(self) -> (r: GenWrap<Self>)
        ensures
            r == GenWrap(self),
    {
        GenWrap(self)
    }
}

impl<I: Iterator> Wrap for I {
}

/// The range `start..end` yields `start`, ..., `end - 1` and returns the empty range
/// `end..end`.
pub proof fn lemma_wrap_range_runs(start: i32, end: i32)
    requires
        start <= end,
    ensures
        runs(
            GenWrap(start..end),
            Seq::new((end - start) as nat, |i: int| (start + i) as i32),
            end..end,
        ),
    decreases end - start,
{
    let g = GenWrap(start..end);
    if start == end {
        assert(g.steps_to(GenResult::Return(end..end)));
    } else {
        let next = (start + 1) as i32;
        lemma_wrap_range_runs(next, end);
        let tail = Seq::new((end - next) as nat, |i: int| (next + i) as i32);
        assert(g.steps_to(GenResult::Yield(start, GenWrap(next..end))));
        crate::gen::lemma_runs_cons(g, start, GenWrap(next..end), tail, end..end);
        assert(seq![start] + tail =~= Seq::new((end - start) as nat, |i: int| (start + i) as i32));
    }
}

/// One call of `next` on a range of `i8`: a nonempty range gives its first number and
/// moves its start up by one; an empty range gives `None` and stays as it is.
pub proof fn lemma_range_i8_next(r: Range<i8>)
    ensures
        r.start < r.end ==> r.spec_next() == (
            Range { start: (r.start + 1) as i8, end: r.end },
            Some(r.start),
        ),
        r.start >= r.end ==> r.spec_next() == (r, None::<i8>),
{
    broadcast use vstd::std_specs::range::axiom_spec_range_next_i8;

}

/// The range `start..end` of `i8`, as a generator or as a coroutine driven with `()`,
/// yields `start`, ..., `end - 1` and returns the empty range `end..end`.
pub proof fn lemma_range_i8_runs(start: i8, end: i8)
    requires
        start <= end,
    ensures
        runs(
            GenWrap(start..end),
            Seq::new((end - start) as nat, |k: int| (start + k) as i8),
            end..end,
        ),
        co_runs(
            CoIterWrapper(start..end),
            units((end - start + 1) as nat),
            Seq::new((end - start) as nat, |k: int| (start + k) as i8),
            end..end,
        ),
    decreases end - start,
{
    let g = GenWrap(start..end);
    let ys = Seq::new((end - start) as nat, |k: int| (start + k) as i8);
    lemma_range_i8_next(start..end);
    if start == end {
        assert(g.steps_to(GenResult::Return(end..end)));
    } else {
        let next = (start + 1) as i8;
        lemma_range_i8_runs(next, end);
        let tail = Seq::new((end - next) as nat, |k: int| (next + k) as i8);
        assert(g.steps_to(GenResult::Yield(start, GenWrap(next..end))));
        lemma_runs_cons(g, start, GenWrap(next..end), tail, end..end);
        assert(seq![start] + tail =~= ys);
    }
    lemma_co_iter_wrapper_of_wrap(start..end, ys, end..end);
}

/// One call of `next` on a range of `i16`: a nonempty range gives its first number and
/// moves its start up by one; an empty range gives `None` and stays as it is.
pub proof fn lemma_range_i16_next(r: Range<i16>)
    ensures
        r.start < r.end ==> r.spec_next() == (
            Range { start: (r.start + 1) as i16, end: r.end },
            Some(r.start),
        ),
        r.start >= r.end ==> r.spec_next() == (r, None::<i16>),
{
    broadcast use vstd::std_specs::range::axiom_spec_range_next_i16;

}

/// The range `start..end` of `i16`, as a generator or as a coroutine driven with `()`,
/// yields `start`, ..., `end - 1` and returns the empty range `end..end`.
pub proof fn lemma_range_i16_runs(start: i16, end: i16)
    requires
        start <= end,
    ensures
        runs(
            GenWrap(start..end),
            Seq::new((end - start) as nat, |k: int| (start + k) as i16),
            end..end,
        ),
        co_runs(
            CoIterWrapper(start..end),
            units((end - start + 1) as nat),
            Seq::new((end - start) as nat, |k: int| (start + k) as i16),
            end..end,
        ),
    decreases end - start,
{
    let g = GenWrap(start..end);
    let ys = Seq::new((end - start) as nat, |k: int| (start + k) as i16);
    lemma_range_i16_next(start..end);
    if start == end {
        assert(g.steps_to(GenResult::Return(end..end)));
    } else {
        let next = (start + 1) as i16;
        lemma_range_i16_runs(next, end);
        let tail = Seq::new((end - next) as nat, |k: int| (next + k) as i16);
        assert(g.steps_to(GenResult::Yield(start, GenWrap(next..end))));
        lemma_runs_cons(g, start, GenWrap(next..end), tail, end..end);
        assert(seq![start] + tail =~= ys);
    }
    lemma_co_iter_wrapper_of_wrap(start..end, ys, end..end);
}

/// One call of `next` on a range of `i32`: a nonempty range gives its first number and
/// moves its start up by one; an empty range gives `None` and stays as it is.
pub proof fn lemma_range_i32_next(r: Range<i32>)
    ensures
        r.start < r.end ==> r.spec_next() == (
            Range { start: (r.start + 1) as i32, end: r.end },
            Some(r.start),
        ),
        r.start >= r.end ==> r.spec_next() == (r, None::<i32>),
{
    broadcast use vstd::std_specs::range::axiom_spec_range_next_i32;

}

/// The range `start..end` of `i32`, as a generator or as a coroutine driven with `()`,
/// yields `start`, ..., `end - 1` and returns the empty range `end..end`.
pub proof fn lemma_range_i32_runs(start: i32, end: i32)
    requires
        start <= end,
    ensures
        runs(
            GenWrap(start..end),
            Seq::new((end - start) as nat, |k: int| (start + k) as i32),
            end..end,
        ),
        co_runs(
            CoIterWrapper(start..end),
            units((end - start + 1) as nat),
            Seq::new((end - start) as nat, |k: int| (start + k) as i32),
            end..end,
        ),
    decreases end - start,
{
    let g = GenWrap(start..end);
    let ys = Seq::new((end - start) as nat, |k: int| (start + k) as i32);
    lemma_range_i32_next(start..end);
    if start == end {
        assert(g.steps_to(GenResult::Return(end..end)));
    } else {
        let next = (start + 1) as i32;
        lemma_range_i32_runs(next, end);
        let tail = Seq::new((end - next) as nat, |k: int| (next + k) as i32);
        assert(g.steps_to(GenResult::Yield(start, GenWrap(next..end))));
        lemma_runs_cons(g, start, GenWrap(next..end), tail, end..end);
        assert(seq![start] + tail =~= ys);
    }
    lemma_co_iter_wrapper_of_wrap(start..end, ys, end..end);
}

/// One call of `next` on a range of `i64`: a nonempty range gives its first number and
/// moves its start up by one; an empty range gives `None` and stays as it is.
pub proof fn lemma_range_i64_next(r: Range<i64>)
    ensures
        r.start < r.end ==> r.spec_next() == (
            Range { start: (r.start + 1) as i64, end: r.end },
            Some(r.start),
        ),
        r.start >= r.end ==> r.spec_next() == (r, None::<i64>),
{
    broadcast use vstd::std_specs::range::axiom_spec_range_next_i64;

}

/// The range `start..end` of `i64`, as a generator or as a coroutine driven with `()`,
/// yields `start`, ..., `end - 1` and returns the empty range `end..end`.
pub proof fn lemma_range_i64_runs(start: i64, end: i64)
    requires
        start <= end,
    ensures
        runs(
            GenWrap(start..end),
            Seq::new((end - start) as nat, |k: int| (start + k) as i64),
            end..end,
        ),
        co_runs(
            CoIterWrapper(start..end),
            units((end - start + 1) as nat),
            Seq::new((end - start) as nat, |k: int| (start + k) as i64),
            end..end,
        ),
    decreases end - start,
{
    let g = GenWrap(start..end);
    let ys = Seq::new((end - start) as nat, |k: int| (start + k) as i64);
    lemma_range_i64_next(start..end);
    if start == end {
        assert(g.steps_to(GenResult::Return(end..end)));
    } else {
        let next = (start + 1) as i64;
        lemma_range_i64_runs(next, end);
        let tail = Seq::new((end - next) as nat, |k: int| (next + k) as i64);
        assert(g.steps_to(GenResult::Yield(start, GenWrap(next..end))));
        lemma_runs_cons(g, start, GenWrap(next..end), tail, end..end);
        assert(seq![start] + tail =~= ys);
    }
    lemma_co_iter_wrapper_of_wrap(start..end, ys, end..end);
}

/// One call of `next` on a range of `i128`: a nonempty range gives its first number and
/// moves its start up by one; an empty range gives `None` and stays as it is.
pub proof fn lemma_range_i128_next(r: Range<i128>)
    ensures
        r.start < r.end ==> r.spec_next() == (
            Range { start: (r.start + 1) as i128, end: r.end },
            Some(r.start),
        ),
        r.start >= r.end ==> r.spec_next() == (r, None::<i128>),
{
    broadcast use vstd::std_specs::range::axiom_spec_range_next_i128;

}

/// The range `start..end` of `i128`, as a generator or as a coroutine driven with `()`,
/// yields `start`, ..., `end - 1` and returns the empty range `end..end`.
pub proof fn lemma_range_i128_runs(start: i128, end: i128)
    requires
        start <= end,
    ensures
        runs(
            GenWrap(start..end),
            Seq::new((end - start) as nat, |k: int| (start + k) as i128),
            end..end,
        ),
        co_runs(
            CoIterWrapper(start..end),
            units((end - start + 1) as nat),
            Seq::new((end - start) as nat, |k: int| (start + k) as i128),
            end..end,
        ),
    decreases end - start,
{
    let g = GenWrap(start..end);
    let ys = Seq::new((end - start) as nat, |k: int| (start + k) as i128);
    lemma_range_i128_next(start..end);
    if start == end {
        assert(g.steps_to(GenResult::Return(end..end)));
    } else {
        let next = (start + 1) as i128;
        lemma_range_i128_runs(next, end);
        let tail = Seq::new((end - next) as nat, |k: int| (next + k) as i128);
        assert(g.steps_to(GenResult::Yield(start, GenWrap(next..end))));
        lemma_runs_cons(g, start, GenWrap(next..end), tail, end..end);
        assert(seq![start] + tail =~= ys);
    }
    lemma_co_iter_wrapper_of_wrap(start..end, ys, end..end);
}

/// One call of `next` on a range of `isize`: a nonempty range gives its first number and
/// moves its start up by one; an empty range gives `None` and stays as it is.
pub proof fn lemma_range_isize_next(r: Range<isize>)
    ensures
        r.start < r.end ==> r.spec_next() == (
            Range { start: (r.start + 1) as isize, end: r.end },
            Some(r.start),
        ),
        r.start >= r.end ==> r.spec_next() == (r, None::<isize>),
{
    broadcast use vstd::std_specs::range::axiom_spec_range_next_isize;

}

/// The range `start..end` of `isize`, as a generator or as a coroutine driven with `()`,
/// yields `start`, ..., `end - 1` and returns the empty range `end..end`.
pub proof fn lemma_range_isize_runs(start: isize, end: isize)
    requires
        start <= end,
    ensures
        runs(
            GenWrap(start..end),
            Seq::new((end - start) as nat, |k: int| (start + k) as isize),
            end..end,
        ),
        co_runs(
            CoIterWrapper(start..end),
            units((end - start + 1) as nat),
            Seq::new((end - start) as nat, |k: int| (start + k) as isize),
            end..end,
        ),
    decreases end - start,
{
    let g = GenWrap(start..end);
    let ys = Seq::new((end - start) as nat, |k: int| (start + k) as isize);
    lemma_range_isize_next(start..end);
    if start == end {
        assert(g.steps_to(GenResult::Return(end..end)));
    } else {
        let next = (start + 1) as isize;
        lemma_range_isize_runs(next, end);
        let tail = Seq::new((end - next) as nat, |k: int| (next + k) as isize);
        assert(g.steps_to(GenResult::Yield(start, GenWrap(next..end))));
        lemma_runs_cons(g, start, GenWrap(next..end), tail, end..end);
        assert(seq![start] + tail =~= ys);
    }
    lemma_co_iter_wrapper_of_wrap(start..end, ys, end..end);
}

/// One call of `next` on a range of `u8`: a nonempty range gives its first number and
/// moves its start up by one; an empty range gives `None` and stays as it is.
pub proof fn lemma_range_u8_next(r: Range<u8>)
    ensures
        r.start < r.end ==> r.spec_next() == (
            Range { start: (r.start + 1) as u8, end: r.end },
            Some(r.start),
        ),
        r.start >= r.end ==> r.spec_next() == (r, None::<u8>),
{
    broadcast use vstd::std_specs::range::axiom_spec_range_next_u8;

}

/// The range `start..end` of `u8`, as a generator or as a coroutine driven with `()`,
/// yields `start`, ..., `end - 1` and returns the empty range `end..end`.
pub proof fn lemma_range_u8_runs(start: u8, end: u8)
    requires
        start <= end,
    ensures
        runs(
            GenWrap(start..end),
            Seq::new((end - start) as nat, |k: int| (start + k) as u8),
            end..end,
        ),
        co_runs(
            CoIterWrapper(start..end),
            units((end - start + 1) as nat),
            Seq::new((end - start) as nat, |k: int| (start + k) as u8),
            end..end,
        ),
    decreases end - start,
{
    let g = GenWrap(start..end);
    let ys = Seq::new((end - start) as nat, |k: int| (start + k) as u8);
    lemma_range_u8_next(start..end);
    if start == end {
        assert(g.steps_to(GenResult::Return(end..end)));
    } else {
        let next = (start + 1) as u8;
        lemma_range_u8_runs(next, end);
        let tail = Seq::new((end - next) as nat, |k: int| (next + k) as u8);
        assert(g.steps_to(GenResult::Yield(start, GenWrap(next..end))));
        lemma_runs_cons(g, start, GenWrap(next..end), tail, end..end);
        assert(seq![start] + tail =~= ys);
    }
    lemma_co_iter_wrapper_of_wrap(start..end, ys, end..end);
}

/// One call of `next` on a range of `u16`: a nonempty range gives its first number and
/// moves its start up by one; an empty range gives `None` and stays as it is.
pub proof fn lemma_range_u16_next(r: Range<u16>)
    ensures
        r.start < r.end ==> r.spec_next() == (
            Range { start: (r.start + 1) as u16, end: r.end },
            Some(r.start),
        ),
        r.start >= r.end ==> r.spec_next() == (r, None::<u16>),
{
    broadcast use vstd::std_specs::range::axiom_spec_range_next_u16;

}

/// The range `start..end` of `u16`, as a generator or as a coroutine driven with `()`,
/// yields `start`, ..., `end - 1` and returns the empty range `end..end`.
pub proof fn lemma_range_u16_runs(start: u16, end: u16)
    requires
        start <= end,
    ensures
        runs(
            GenWrap(start..end),
            Seq::new((end - start) as nat, |k: int| (start + k) as u16),
            end..end,
        ),
        co_runs(
            CoIterWrapper(start..end),
            units((end - start + 1) as nat),
            Seq::new((end - start) as nat, |k: int| (start + k) as u16),
            end..end,
        ),
    decreases end - start,
{
    let g = GenWrap(start..end);
    let ys = Seq::new((end - start) as nat, |k: int| (start + k) as u16);
    lemma_range_u16_next(start..end);
    if start == end {
        assert(g.steps_to(GenResult::Return(end..end)));
    } else {
        let next = (start + 1) as u16;
        lemma_range_u16_runs(next, end);
        let tail = Seq::new((end - next) as nat, |k: int| (next + k) as u16);
        assert(g.steps_to(GenResult::Yield(start, GenWrap(next..end))));
        lemma_runs_cons(g, start, GenWrap(next..end), tail, end..end);
        assert(seq![start] + tail =~= ys);
    }
    lemma_co_iter_wrapper_of_wrap(start..end, ys, end..end);
}

/// One call of `next` on a range of `u32`: a nonempty range gives its first number and
/// moves its start up by one; an empty range gives `None` and stays as it is.
pub proof fn lemma_range_u32_next(r: Range<u32>)
    ensures
        r.start < r.end ==> r.spec_next() == (
            Range { start: (r.start + 1) as u32, end: r.end },
            Some(r.start),
        ),
        r.start >= r.end ==> r.spec_next() == (r, None::<u32>),
{
    broadcast use vstd::std_specs::range::axiom_spec_range_next_u32;

}

/// The range `start..end` of `u32`, as a generator or as a coroutine driven with `()`,
/// yields `start`, ..., `end - 1` and returns the empty range `end..end`.
pub proof fn lemma_range_u32_runs(start: u32, end: u32)
    requires
        start <= end,
    ensures
        runs(
            GenWrap(start..end),
            Seq::new((end - start) as nat, |k: int| (start + k) as u32),
            end..end,
        ),
        co_runs(
            CoIterWrapper(start..end),
            units((end - start + 1) as nat),
            Seq::new((end - start) as nat, |k: int| (start + k) as u32),
            end..end,
        ),
    decreases end - start,
{
    let g = GenWrap(start..end);
    let ys = Seq::new((end - start) as nat, |k: int| (start + k) as u32);
    lemma_range_u32_next(start..end);
    if start == end {
        assert(g.steps_to(GenResult::Return(end..end)));
    } else {
        let next = (start + 1) as u32;
        lemma_range_u32_runs(next, end);
        let tail = Seq::new((end - next) as nat, |k: int| (next + k) as u32);
        assert(g.steps_to(GenResult::Yield(start, GenWrap(next..end))));
        lemma_runs_cons(g, start, GenWrap(next..end), tail, end..end);
        assert(seq![start] + tail =~= ys);
    }
    lemma_co_iter_wrapper_of_wrap(start..end, ys, end..end);
}

/// One call of `next` on a range of `u64`: a nonempty range gives its first number and
/// moves its start up by one; an empty range gives `None` and stays as it is.
pub proof fn lemma_range_u64_next(r: Range<u64>)
    ensures
        r.start < r.end ==> r.spec_next() == (
            Range { start: (r.start + 1) as u64, end: r.end },
            Some(r.start),
        ),
        r.start >= r.end ==> r.spec_next() == (r, None::<u64>),
{
    broadcast use vstd::std_specs::range::axiom_spec_range_next_u64;

}

/// The range `start..end` of `u64`, as a generator or as a coroutine driven with `()`,
/// yields `start`, ..., `end - 1` and returns the empty range `end..end`.
pub proof fn lemma_range_u64_runs(start: u64, end: u64)
    requires
        start <= end,
    ensures
        runs(
            GenWrap(start..end),
            Seq::new((end - start) as nat, |k: int| (start + k) as u64),
            end..end,
        ),
        co_runs(
            CoIterWrapper(start..end),
            units((end - start + 1) as nat),
            Seq::new((end - start) as nat, |k: int| (start + k) as u64),
            end..end,
        ),
    decreases end - start,
{
    let g = GenWrap(start..end);
    let ys = Seq::new((end - start) as nat, |k: int| (start + k) as u64);
    lemma_range_u64_next(start..end);
    if start == end {
        assert(g.steps_to(GenResult::Return(end..end)));
    } else {
        let next = (start + 1) as u64;
        lemma_range_u64_runs(next, end);
        let tail = Seq::new((end - next) as nat, |k: int| (next + k) as u64);
        assert(g.steps_to(GenResult::Yield(start, GenWrap(next..end))));
        lemma_runs_cons(g, start, GenWrap(next..end), tail, end..end);
        assert(seq![start] + tail =~= ys);
    }
    lemma_co_iter_wrapper_of_wrap(start..end, ys, end..end);
}

/// One call of `next` on a range of `u128`: a nonempty range gives its first number and
/// moves its start up by one; an empty range gives `None` and stays as it is.
pub proof fn lemma_range_u128_next(r: Range<u128>)
    ensures
        r.start < r.end ==> r.spec_next() == (
            Range { start: (r.start + 1) as u128, end: r.end },
            Some(r.start),
        ),
        r.start >= r.end ==> r.spec_next() == (r, None::<u128>),
{
    broadcast use vstd::std_specs::range::axiom_spec_range_next_u128;

}

/// The range `start..end` of `u128`, as a generator or as a coroutine driven with `()`,
/// yields `start`, ..., `end - 1` and returns the empty range `end..end`.
pub proof fn lemma_range_u128_runs(start: u128, end: u128)
    requires
        start <= end,
    ensures
        runs(
            GenWrap(start..end),
            Seq::new((end - start) as nat, |k: int| (start + k) as u128),
            end..end,
        ),
        co_runs(
            CoIterWrapper(start..end),
            units((end - start + 1) as nat),
            Seq::new((end - start) as nat, |k: int| (start + k) as u128),
            end..end,
        ),
    decreases end - start,
{
    let g = GenWrap(start..end);
    let ys = Seq::new((end - start) as nat, |k: int| (start + k) as u128);
    lemma_range_u128_next(start..end);
    if start == end {
        assert(g.steps_to(GenResult::Return(end..end)));
    } else {
        let next = (start + 1) as u128;
        lemma_range_u128_runs(next, end);
        let tail = Seq::new((end - next) as nat, |k: int| (next + k) as u128);
        assert(g.steps_to(GenResult::Yield(start, GenWrap(next..end))));
        lemma_runs_cons(g, start, GenWrap(next..end), tail, end..end);
        assert(seq![start] + tail =~= ys);
    }
    lemma_co_iter_wrapper_of_wrap(start..end, ys, end..end);
}

/// One call of `next` on a range of `usize`: a nonempty range gives its first number and
/// moves its start up by one; an empty range gives `None` and stays as it is.
pub proof fn lemma_range_usize_next(r: Range<usize>)
    ensures
        r.start < r.end ==> r.spec_next() == (
            Range { start: (r.start + 1) as usize, end: r.end },
            Some(r.start),
        ),
        r.start >= r.end ==> r.spec_next() == (r, None::<usize>),
{
    broadcast use vstd::std_specs::range::axiom_spec_range_next_usize;

}

/// The range `start..end` of `usize`, as a generator or as a coroutine driven with `()`,
/// yields `start`, ..., `end - 1` and returns the empty range `end..end`.
pub proof fn lemma_range_usize_runs(start: usize, end: usize)
    requires
        start <= end,
    ensures
        runs(
            GenWrap(start..end),
            Seq::new((end - start) as nat, |k: int| (start + k) as usize),
            end..end,
        ),
        co_runs(
            CoIterWrapper(start..end),
            units((end - start + 1) as nat),
            Seq::new((end - start) as nat, |k: int| (start + k) as usize),
            end..end,
        ),
    decreases end - start,
{
    let g = GenWrap(start..end);
    let ys = Seq::new((end - start) as nat, |k: int| (start + k) as usize);
    lemma_range_usize_next(start..end);
    if start == end {
        assert(g.steps_to(GenResult::Return(end..end)));
    } else {
        let next = (start + 1) as usize;
        lemma_range_usize_runs(next, end);
        let tail = Seq::new((end - next) as nat, |k: int| (next + k) as usize);
        assert(g.steps_to(GenResult::Yield(start, GenWrap(next..end))));
        lemma_runs_cons(g, start, GenWrap(next..end), tail, end..end);
        assert(seq![start] + tail =~= ys);
    }
    lemma_co_iter_wrapper_of_wrap(start..end, ys, end..end);
}

} // verus!
