//! Iterating over the items of a coroutine that takes unit inputs.
use vstd::prelude::*;

use crate::co::{CoResult, Coroutine};

verus! {

/// The items of a coroutine driven with `()`, one at a time; `None` once it has returned.
pub struct CoIterate<C>(pub Option<C>);

impl<C: Coroutine<()>> CoIterate<C> {
    /// The coroutine held, if any, may be stepped.
    pub open spec fn ready(&self) -> bool {
        match self.0 {
            Some(c) => c.ready(),
            None => true,
        }
    }

    /// The next item, if the coroutine has not returned yet.
    ///
    /// The value it returns is dropped, and every later call gives `None`.
    pub fn next(&mut self) -> (r: Option<C::Yield>)
        requires
            old(self).ready(),
        ensures
            final(self).ready(),
            match old(self).0 {
                None => r is None && final(self).0 is None,
                Some(c) => match r {
                    Some(y) => final(self).0 matches Some(c1) && c.sends_to(
                        (),
                        CoResult::Yield(y, c1),
                    ),
                    None => final(self).0 is None && exists|v: C::Return|
                        c.sends_to((), CoResult::Return(v)),
                },
            },
    {
        match self.0.take() {
            Some(coro) => {
                match coro.send(()) {
                    CoResult::Yield(i, cnt) => {
                        self.0 = Some(cnt);
                        Some(i)
                    },
                    CoResult::Return(_) => None,
                }
            },
            None => None,
        }
    }
}

/// Turns a coroutine that takes unit inputs into an iterator-like value over its items.
pub trait Iterate: Sized {
    fn iterate(self) -> (r: CoIterate<Self>)
        ensures
            r.0 == Some(self),
    {
        CoIterate(Some(self))
    }
}

impl<C: Coroutine<()>> Iterate for C {
}

} // verus!
