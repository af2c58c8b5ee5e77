use lib::gen::comb::join::Join;
use lib::gen::iter::wrap::Wrap;
use lib::gen::map::ret::MapReturn;
use lib::gen::{GenResult, Generator};

#[test]
fn join_chain_integers() {
    let first = (1..9).wrap();
    let second = (1..3).wrap();

    let msg = "This is the end";
    let chain = first.map_return(|_| second.map_return(|_| msg)).join();
    let mut elem = 1;
    let mut g = chain;
    let message = loop {
        match g.next() {
            GenResult::Yield(i, rest) => {
                g = rest;
                assert_eq!(i, elem);
                elem = if elem == 8 { 1 } else { elem + 1 };
            }
            GenResult::Return(m) => break m,
        }
    };
    assert_eq!(elem, 3);
    assert_eq!(message, msg);
}

#[test]
fn join_of_an_empty_outer() {
    let chain = (0..0).wrap().map_return(|_| (4..6).wrap()).join();
    let mut items = vec![];
    let mut g = chain;
    let rest = loop {
        match g.next() {
            GenResult::Yield(i, r) => {
                g = r;
                items.push(i);
            }
            GenResult::Return(rest) => break rest,
        }
    };
    assert_eq!(items, [4, 5]);
    assert_eq!(rest, 6..6);
}
