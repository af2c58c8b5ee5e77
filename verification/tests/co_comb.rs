use lib::co::{CoResult, Coroutine};
use lib::comb::all::CoAll;
use lib::comb::apply::{Apply, CoApply};
use lib::comb::chain::Chain;
use lib::comb::compose::{Compose, Which};
use lib::comb::done::Done;
use lib::either::Either;
use lib::iter::iterate::Iterate;
use lib::iter::iterator::CoIter;
use lib::iter::iterwrapper::CoIterWrapper;
use lib::join::Join;
use lib::map::ret::MapReturn;
use lib::race::Race;

/// Drives `c` with `()` to its end: its items and the value it returns.
fn drive<C: Coroutine<()>>(c: C) -> (Vec<C::Yield>, C::Return) {
    let mut items = vec![];
    let mut c = c;
    loop {
        match c.send(()) {
            CoResult::Yield(y, rest) => {
                items.push(y);
                c = rest;
            }
            CoResult::Return(r) => return (items, r),
        }
    }
}

/// Adds up its inputs, yielding the running total; an input of 0 ends it with the total.
struct Summer(i64);

impl Coroutine<i64> for Summer {
    type Yield = i64;
    type Return = i64;

    fn send(self, i: i64) -> CoResult<i64, Self, i64> {
        if i == 0 {
            CoResult::Return(self.0)
        } else {
            CoResult::Yield(self.0 + i, Summer(self.0 + i))
        }
    }
}

/// Doubles each input, and stops after `self.0` of them.
struct Doubler(u32);

impl Coroutine<i64> for Doubler {
    type Yield = i64;
    type Return = &'static str;

    fn send(self, i: i64) -> CoResult<i64, Self, &'static str> {
        if self.0 == 0 {
            CoResult::Return("tired")
        } else {
            CoResult::Yield(2 * i, Doubler(self.0 - 1))
        }
    }
}

#[test]
fn done_returns_on_any_input() {
    match Done::done(7u8).send(()) {
        CoResult::Return(v) => assert_eq!(v, 7),
        CoResult::Yield(..) => panic!("a finished coroutine yields nothing"),
    }
    match Coroutine::<&str>::send(Done::done("x"), "anything") {
        CoResult::Return(v) => assert_eq!(v, "x"),
        CoResult::Yield(..) => panic!("a finished coroutine yields nothing"),
    }
}

#[test]
fn iter_wrapper_yields_the_items_and_returns_the_iterator() {
    let (items, rest) = drive(CoIterWrapper(2..5));
    assert_eq!(items, [2, 3, 4]);
    assert_eq!(rest, 5..5);
}

#[test]
fn co_race_takes_turns_until_one_returns() {
    let first = CoIterWrapper(0..2).map_return(|_| "first");
    let second = CoIterWrapper(10..15).map_return(|_| "second");
    let (items, result) = drive(first.race(second));
    assert_eq!(items, [0, 10, 1, 11]);
    match result {
        Either::Former((v, rest)) => {
            assert_eq!(v, "first");
            let (items, v) = drive(rest);
            assert_eq!(items, [12, 13, 14]);
            assert_eq!(v, "second");
        }
        Either::Latter(_) => panic!("the first one is shorter"),
    }
}

#[test]
fn co_race_latter_returns_first() {
    let first = CoIterWrapper(0..4).map_return(|_| "first");
    let second = CoIterWrapper(10..11).map_return(|_| "second");
    let (items, result) = drive(first.race(second));
    assert_eq!(items, [0, 10, 1]);
    match result {
        Either::Latter((rest, v)) => {
            assert_eq!(v, "second");
            let (items, v) = drive(rest);
            assert_eq!(items, [2, 3]);
            assert_eq!(v, "first");
        }
        Either::Former(_) => panic!("the second one is shorter"),
    }
}

#[test]
fn co_all_runs_both_to_their_ends() {
    let first = CoIterWrapper(0..2).map_return(|_| 'a');
    let second = CoIterWrapper(10..14).map_return(|_| 'b');
    let (items, (u, w)) = drive(CoAll::new(first, second));
    assert_eq!(items, [0, 10, 1, 11, 12, 13]);
    assert_eq!((u, w), ('a', 'b'));

    let first = CoIterWrapper(0..3).map_return(|_| 'a');
    let second = CoIterWrapper(10..11).map_return(|_| 'b');
    let (items, (u, w)) = drive(CoAll::new(first, second));
    assert_eq!(items, [0, 10, 1, 2]);
    assert_eq!((u, w), ('a', 'b'));
}

#[test]
fn co_apply_applies_the_returned_function() {
    let functor = CoIterWrapper(0..2).map_return(|_| |x: usize| x * 10);
    let arg = CoIterWrapper(5..8).map_return(|r: std::ops::Range<usize>| r.end);
    let (items, v) = drive(functor.apply(arg));
    assert_eq!(items, [0, 5, 1, 6, 7]);
    assert_eq!(v, 80);

    let (items, v) = drive(CoApply::new(Done::done(|x: u8| x + 1), Done::done(41u8)));
    assert!(items.is_empty());
    assert_eq!(v, 42);
}

#[test]
fn co_chain_runs_the_second_after_the_first() {
    let first = CoIterWrapper(0..3).map_return(|r: std::ops::Range<i32>| r.end);
    let chained = first.chain(|end: i32| CoIterWrapper(end..end + 2).map_return(|_| "end"));
    let (items, v) = drive(chained);
    assert_eq!(items, [0, 1, 2, 3, 4]);
    assert_eq!(v, "end");
}

#[test]
fn co_join_runs_the_returned_coroutine() {
    let outer = CoIterWrapper(0..2).map_return(|_| CoIterWrapper(7..9));
    let (items, rest) = drive(outer.join());
    assert_eq!(items, [0, 1, 7, 8]);
    assert_eq!(rest, 9..9);
}

#[test]
fn compose_feeds_the_items_of_the_right_into_the_left() {
    // the right side ends first
    let pipeline = Doubler(10).compose(Summer(0));
    let mut c = pipeline;
    let mut items = vec![];
    let result = loop {
        let input = match items.len() {
            0 => 1,
            1 => 2,
            2 => 3,
            _ => 0,
        };
        match c.send(input) {
            CoResult::Yield(y, rest) => {
                items.push(y);
                c = rest;
            }
            CoResult::Return(r) => break r,
        }
    };
    assert_eq!(items, [2, 6, 12]);
    match result {
        Which::Right((left, total)) => {
            assert_eq!(total, 6);
            assert_eq!(left.0, 7);
        }
        Which::Left(_) => panic!("the summer stopped first"),
    }

    // the left side ends first
    let mut c = Doubler(1).compose(Summer(100));
    let mut items = vec![];
    let result = loop {
        match c.send(5) {
            CoResult::Yield(y, rest) => {
                items.push(y);
                c = rest;
            }
            CoResult::Return(r) => break r,
        }
    };
    assert_eq!(items, [210]);
    match result {
        Which::Left((msg, right)) => {
            assert_eq!(msg, "tired");
            assert_eq!(right.0, 110);
        }
        Which::Right(_) => panic!("the doubler tires first"),
    }
}

#[test]
fn iterate_and_iter_give_the_items_then_none() {
    let mut it = CoIterWrapper(3..5).iterate();
    assert_eq!(it.next(), Some(3));
    assert_eq!(it.next(), Some(4));
    assert_eq!(it.next(), None);
    assert_eq!(it.next(), None);

    let mut it = CoIterWrapper(0..1).iter();
    assert_eq!(it.next(), Some(0));
    assert_eq!(it.next(), None);
    assert_eq!(it.next(), None);
}

#[test]
fn co_join_converts_the_items_of_the_returned_coroutine() {
    let outer = CoIterWrapper(0i64..2).map_return(|_| CoIterWrapper(7i32..9).map_return(|_| "inner"));
    let (items, v) = drive(outer.join());
    assert_eq!(items, [0i64, 1, 7, 8]);
    assert_eq!(v, "inner");
}
