use lib::gen::iter::{Iterate, Wrap};
use lib::gen::{GenResult, Generator};

#[test]
fn iterate_iterate_over_coroutine() {
    let mut cnt = 3;
    let lim = 10;
    let bart = (cnt..lim).wrap();
    let mut items = bart.iterate();
    while let Some(i) = items.next() {
        assert_eq!(i, cnt);
        cnt += 1;
    }
    assert_eq!(cnt, lim);
}

#[test]
fn iterate_wrap_iterator() {
    let mut cnt = 1;
    let mut g = (1..10).wrap();
    let message = loop {
        match g.next() {
            GenResult::Yield(i, rest) => {
                g = rest;
                assert_eq!(i, cnt);
                cnt += 1;
            }
            GenResult::Return(mut iter) => {
                assert_eq!(iter.next(), None);
                assert_eq!(cnt, 10);
                break 42;
            }
        }
    };
    assert_eq!(message, 42);
}

#[test]
fn iterate_stays_finished() {
    let mut items = (0..2).wrap().iterate();
    assert_eq!(items.next(), Some(0));
    assert_eq!(items.next(), Some(1));
    assert_eq!(items.next(), None);
    assert_eq!(items.next(), None);
}
