use lib::gen::iter::wrap::Wrap;
use lib::gen::map::yld::MapYield;
use lib::gen::{range_from, GenResult, Generator};

fn collatz(q: i64) -> (usize, Vec<i64>) {
    let mut x = q;
    let mut v = vec![];
    let mut g = range_from(1);
    loop {
        match g.next() {
            GenResult::Yield(steps, rest) => {
                g = rest;
                v.push(x);
                x = if x == 1 {
                    return (steps, v);
                } else if x % 2 == 0 {
                    x / 2
                } else {
                    x * 3 + 1
                };
            }
            GenResult::Return(()) => unreachable!(),
        }
    }
}

#[test]
fn gen_range_from() {
    let (steps, values) = collatz(10);

    assert_eq!(steps, values.len());
    assert_eq!(values, [10, 5, 16, 8, 4, 2, 1]);
}

#[test]
fn mod_range_from() {
    let (steps, values) = collatz(10);

    assert_eq!(steps, values.len());
    assert_eq!(values, [10, 5, 16, 8, 4, 2, 1]);
}

#[test]
fn range_from_wraps_after_max() {
    let g = range_from(usize::MAX);
    let g = match g.next() {
        GenResult::Yield(n, rest) => {
            assert_eq!(n, usize::MAX);
            rest
        }
        GenResult::Return(()) => unreachable!(),
    };
    match g.next() {
        GenResult::Yield(n, _) => assert_eq!(n, 0),
        GenResult::Return(()) => unreachable!(),
    }
}

/// Counts down to zero, emitting each number on the way.
struct Countdown(u32);

impl lib::fsm::State for Countdown {
    type Input = ();
    type Transition = lib::fsm::match_transition::Transition<
        lib::cat::enums::Match<(u32, Countdown), lib::never::Never>,
        &'static str,
    >;

    fn send(self, _: ()) -> Self::Transition {
        if self.0 == 0 {
            lib::fsm::match_transition::Transition::Exit("liftoff")
        } else {
            lib::fsm::match_transition::Transition::Continue(lib::cat::enums::Match::Variant((
                self.0,
                Countdown(self.0 - 1),
            )))
        }
    }
}

#[test]
fn gen_state_yields_what_the_machine_emits() {
    let mut g = lib::gen::GenState(Countdown(3));
    let mut items = vec![];
    let end = loop {
        match g.next() {
            GenResult::Yield(y, rest) => {
                items.push(y);
                g = rest;
            }
            GenResult::Return(e) => break e,
        }
    };
    assert_eq!(items, [3, 2, 1]);
    assert_eq!(end, "liftoff");
}

#[test]
fn map_yield_takes_a_closure_with_state() {
    let mut calls = 0;
    let mut g = (0..3).wrap().map_yield(move |x: i32| {
        calls += 1;
        x * calls
    });
    let mut items = vec![];
    loop {
        match g.next() {
            GenResult::Yield(y, rest) => {
                items.push(y);
                g = rest;
            }
            GenResult::Return(_) => break,
        }
    }
    assert_eq!(items, [0, 2, 6]);
}

/// Steps `g` to its end: its items and the value it returns.
fn drain<G: Generator>(g: G) -> (Vec<G::Yield>, G::Return) {
    let mut items = vec![];
    let mut g = g;
    loop {
        match g.next() {
            GenResult::Yield(y, rest) => {
                items.push(y);
                g = rest;
            }
            GenResult::Return(r) => return (items, r),
        }
    }
}

#[test]
fn map_yield_twice_is_map_yield_of_the_composition() {
    let twice = (0..4).wrap().map_yield(|x: i32| x + 1).map_yield(|x: i32| x * 10);
    let once = (0..4).wrap().map_yield(|x: i32| (x + 1) * 10);
    let (a, ra) = drain(twice);
    let (b, rb) = drain(once);
    assert_eq!(a, [10, 20, 30, 40]);
    assert_eq!(a, b);
    assert_eq!(ra, rb);
}

#[test]
fn map_yield_of_the_identity_changes_nothing() {
    let (a, ra) = drain((3..6).wrap().map_yield(|x: i32| x));
    let (b, rb) = drain((3..6).wrap());
    assert_eq!(a, [3, 4, 5]);
    assert_eq!(a, b);
    assert_eq!(ra, rb);
}
