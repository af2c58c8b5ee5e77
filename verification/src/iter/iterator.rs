//! An iterator-like view of a coroutine that takes unit inputs.
use vstd::prelude::*;

use crate::co::{CoResult, Coroutine};

verus! {

/// The items of a coroutine driven with `()`, one at a time; `None` once it has returned.
pub struct CoIterator<C>(pub Option<C>);

impl<C: Coroutine<()>> CoIterator<C> {
    /// The coroutine held, if any, may be stepped.
    pub open spec fn ready(&self) -> bool {
        match self.0 {
            Some(c) => c.ready(),
            None => true,
        }
    }

    /// The next item, if the coroutine has not returned yet; every call after the end gives
    /// `None`.
    pub fn next(&mut self) -> (r: Option<C::Yield>)
        requires
            old(self).ready(),
        ensures
            final(self).ready(),
            match old(self).0 {
                None => r is None && final(self).0 is None,
                Some(c) => match r {
                    Some(y) => final(self).0 matches Some(c1) && c.sends_to(
                        (),
                        CoResult::Yield(y, c1),
                    ),
                    None => final(self).0 is None && exists|v: C::Return|
                        c.sends_to((), CoResult::Return(v)),
                },
            },
    {
        match self.0.take() {
            Some(coro) => match coro.send(()) {
                CoResult::Yield(i, cnt) => {
                    self.0 = Some(cnt);
                    Some(i)
                },
                _ => None,
            },
            None => None,
        }
    }
}

/// Views a coroutine that takes unit inputs as the sequence of its items.
pub trait CoIter: Coroutine<()> {
    fn iter(self) -> (r: CoIterator<Self>)
        ensures
            r.0 == Some(self),
    {
        CoIterator(Some(self))
    }
}

impl<C: Coroutine<()>> CoIter for C {
}

} // verus!
