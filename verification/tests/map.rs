use lib::co::{CoResult, Coroutine};
use lib::comb::map::{ArgMap, ReturnMap, YieldMap};
use lib::iter::iterator::CoIter;
use lib::iter::iterwrapper::CoIterWrapper;

struct Counter {
    i: i64,
    lim: i64,
}

impl Coroutine<()> for Counter {
    type Yield = i64;
    type Return = &'static str;

    fn send(self, _: ()) -> CoResult<i64, Self, &'static str> {
        if self.i < self.lim {
            CoResult::Yield(self.i, Counter { i: self.i + 1, lim: self.lim })
        } else {
            CoResult::Return("I'm done!")
        }
    }
}

fn count_to_the_end(bart: Counter) -> (i64, String) {
    let mut cnt = 3;
    let large_num = 1000;
    let mut c = bart;
    let message = loop {
        match c.send(()) {
            CoResult::Yield(i, rest) => {
                c = rest;
                assert_eq!(i, cnt);
                cnt += 1;
                if large_num < 5 {
                    break String::from("I got broken!");
                }
            }
            CoResult::Return(msg) => break String::from(msg) + " Yayy!",
        }
    };
    (cnt, message)
}

#[test]
fn map_map_app() {
    let bart = Counter { i: 3, lim: 10 };
    let (cnt, message) = count_to_the_end(bart);
    assert_eq!(cnt, 10);
    assert_eq!(message, String::from("I'm done! Yayy!"));
}

#[test]
fn mod_map_app() {
    let bart = Counter { i: 3, lim: 10 };
    let (cnt, message) = count_to_the_end(bart);
    assert_eq!(cnt, 10);
    assert_eq!(message, String::from("I'm done! Yayy!"));
}

#[test]
fn iterator_iterate_over_coroutine() {
    let mut cnt = 3;
    let lim = 10;
    let bart = Counter { i: cnt, lim };
    let mut items = bart.iter();
    while let Some(i) = items.next() {
        assert_eq!(i, cnt);
        cnt += 1;
    }
    assert_eq!(cnt, lim);
}

#[test]
fn iterwrapper_wrap_iterator() {
    let mut cnt = 1;
    let mut c = CoIterWrapper(1..10);
    let message = loop {
        match c.send(()) {
            CoResult::Yield(i, rest) => {
                c = rest;
                assert_eq!(i, cnt);
                cnt += 1;
            }
            CoResult::Return(mut iter) => {
                assert_eq!(iter.next(), None);
                assert_eq!(cnt, 10);
                break 42;
            }
        }
    };
    assert_eq!(message, 42);
}

#[test]
fn maps_of_inputs_items_and_return_value() {
    let bart = Counter { i: 0, lim: 3 };
    let mapped = bart
        .arg_map(|n: u8| {
            assert_eq!(n, 7);
        })
        .yield_map(|i: i64| i * 10)
        .return_map(|msg: &'static str| msg.len());
    let mut c = mapped;
    let mut items = vec![];
    let len = loop {
        match c.send(7u8) {
            CoResult::Yield(i, rest) => {
                c = rest;
                items.push(i);
            }
            CoResult::Return(len) => break len,
        }
    };
    assert_eq!(items, [0, 10, 20]);
    assert_eq!(len, 9);
}
