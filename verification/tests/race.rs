use lib::comb::all::All;
use lib::comb::race::Race;
use lib::either::Either;
use lib::gen::iter::wrap::Wrap;
use lib::gen::map::ret::MapReturn;
use lib::gen::{GenResult, Generator};

#[test]
fn race_race() {
    let first = (0..5).wrap().map_return(|_| "first");
    let second = (0..10).wrap().map_return(|_| "second");
    let mut trace = vec![];
    let mut g = first.race(second);
    let loser = loop {
        match g.next() {
            GenResult::Yield(i, rest) => {
                g = rest;
                trace.push(i);
            }
            GenResult::Return(result) => {
                break match result {
                    Either::Former((message, latter)) => {
                        assert_eq!(message, "first");
                        latter
                    }
                    _ => panic!("The first one should finish first"),
                };
            }
        }
    };
    assert_eq!(trace, [0, 0, 1, 1, 2, 2, 3, 3, 4, 4]);

    trace.clear();
    let mut g = loser;
    let message = loop {
        match g.next() {
            GenResult::Yield(i, rest) => {
                g = rest;
                trace.push(i);
            }
            GenResult::Return(msg) => break msg,
        }
    };

    assert_eq!(trace, [5, 6, 7, 8, 9]);
    assert_eq!(message, "second");
}

#[test]
fn race_latter_finishes_first() {
    let first = (0..3).wrap().map_return(|_| "first");
    let second = (10..12).wrap().map_return(|_| "second");
    let mut trace = vec![];
    let mut g = first.race(second);
    let result = loop {
        match g.next() {
            GenResult::Yield(i, rest) => {
                g = rest;
                trace.push(i);
            }
            GenResult::Return(result) => break result,
        }
    };
    assert_eq!(trace, [0, 10, 1, 11, 2]);
    match result {
        Either::Latter((former, message)) => {
            assert_eq!(message, "second");
            match former.next() {
                GenResult::Return(msg) => assert_eq!(msg, "first"),
                GenResult::Yield(_, _) => panic!("The first one had nothing left"),
            }
        }
        Either::Former(_) => panic!("The second one should finish first"),
    }
}

#[test]
fn all() {
    let first = (0..5).wrap().map_return(|_| "first");
    let second = (0..10).wrap().map_return(|_| "second");

    let mut trace = vec![];
    let mut g = first.all(second);
    let both = loop {
        match g.next() {
            GenResult::Yield(i, rest) => {
                g = rest;
                trace.push(i);
            }
            GenResult::Return(both) => break both,
        }
    };

    assert_eq!(trace, [0, 0, 1, 1, 2, 2, 3, 3, 4, 4, 5, 6, 7, 8, 9]);
    assert_eq!(both, ("first", "second"));
}

#[test]
fn all_latter_finishes_first() {
    let first = (0..4).wrap().map_return(|_| 'f');
    let second = (7..9).wrap().map_return(|_| 's');

    let mut trace = vec![];
    let mut g = first.all(second);
    let both = loop {
        match g.next() {
            GenResult::Yield(i, rest) => {
                g = rest;
                trace.push(i);
            }
            GenResult::Return(both) => break both,
        }
    };

    assert_eq!(trace, [0, 7, 1, 8, 2, 3]);
    assert_eq!(both, ('f', 's'));
}
