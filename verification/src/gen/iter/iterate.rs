//! Iterating over the items of a generator.
use vstd::prelude::*;

use crate::gen::{GenResult, Generator};

verus! {

/// The items of a generator, one at a time; `None` once it has returned.
pub struct GenIterate<C>(pub Option<C>);

impl<C: Generator> GenIterate<C> {
    /// The generator held, if any, may be stepped.
    pub open spec fn ready(&self) -> bool {
        match self.0 {
            Some(c) => c.ready(),
            None => true,
        }
    }

    /// The next item, if the generator has not returned yet.
    ///
    /// The value it returns is dropped, and every later call gives `None`.
    pub fn next(&mut self) -> (r: Option<C::Yield>)
        requires
            old(self).ready(),
        ensures
            final(self).ready(),
            match old(self).0 {
                None => r is None && final(self).0 is None,
                Some(c) => match r {
                    Some(y) => final(self).0 matches Some(c1) && c.steps_to(
                        GenResult::Yield(y, c1),
                    ),
                    None => final(self).0 is None && exists|v: C::Return|
                        c.steps_to(GenResult::Return(v)),
                },
            },
    {
        match self.0.take() {
            Some(coro) => {
                match coro.next() {
                    GenResult::Yield(i, cnt) => {
                        self.0 = Some(cnt);
                        Some(i)
                    },
                    GenResult::Return(_) => None,
                }
            },
            None => None,
        }
    }
}

/// Turns a generator into an iterator-like value over its items.
pub trait Iterate: Sized {
    fn iterate(self) -> (r: GenIterate<Self>)
        ensures
            r.0 == Some(self),
    {
        GenIterate(Some(self))
    }
}

impl<C: Generator> Iterate for C {
}

} // verus!
