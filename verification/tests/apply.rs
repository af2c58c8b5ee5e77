use lib::gen::comb::apply::Apply;
use lib::gen::comb::done::Done;
use lib::gen::iter::wrap::Wrap;
use lib::gen::map::ret::MapReturn;
use lib::gen::{GenResult, Generator};

fn finish<G: Generator>(g: G) -> (Vec<G::Yield>, G::Return) {
    let mut items = vec![];
    let mut g = g;
    loop {
        match g.next() {
            GenResult::Yield(i, rest) => {
                g = rest;
                items.push(i);
            }
            GenResult::Return(r) => return (items, r),
        }
    }
}

#[test]
fn apply_apply() {
    let four = (|x| x + 1).done().apply(3.done());
    let (_, res) = finish(four);
    assert_eq!(res, 4);
}

#[test]
fn apply_after_items() {
    let functor = (0..2).wrap().map_return(|_| |x: i32| x * 100);
    let argument = (5..8).wrap().map_return(|r: std::ops::Range<i32>| r.end);
    let (items, res) = finish(functor.apply(argument));
    assert_eq!(items, [0, 5, 1, 6, 7]);
    assert_eq!(res, 800);
}

#[test]
fn done_returns_at_once() {
    let (items, res) = finish("here".done());
    assert!(items.is_empty());
    assert_eq!(res, "here");
}
