use lib::gen::iter::wrap::Wrap;
use lib::gen::map::ret::MapReturn;
use lib::gen::map::yld::MapYield;
use lib::gen::{range_from, GenResult, Generator};

#[test]
fn full_each_with_break() {
    let bart = (3..10).wrap().map_return(|_| "I'm done!");
    let mut cnt = 3;
    let mut g = bart;
    let message = loop {
        match g.next() {
            GenResult::Yield(i, rest) => {
                g = rest;
                assert_eq!(i, cnt);
                cnt += 1;
                break "I got broken!";
            }
            GenResult::Return(msg) => break msg,
        }
    };
    assert_eq!(cnt, 4);
    assert_eq!(message, "I got broken!");
}

#[test]
fn full_each_with_capture_patterns() {
    let bart = (3..10).wrap().map_yield(|i| (i, 10)).map_return(|_| ("I'm done!", 10));
    let mut cnt = 3;
    let large_num = 1000;
    let mut g = bart;
    let (message, lim) = loop {
        match g.next() {
            GenResult::Yield((i, lim), rest) => {
                g = rest;
                assert_eq!(i, cnt);
                assert_eq!(lim, 10);
                cnt += 1;
                if large_num < 5 {
                    break (String::from("I got broken!"), -1);
                }
            }
            GenResult::Return((msg, lim)) => break (String::from(msg) + " Yayy!", lim),
        }
    };
    assert_eq!(cnt, 10);
    assert_eq!(message, String::from("I'm done! Yayy!"));
    assert_eq!(lim, 10);
}

#[test]
fn no_with() {
    let bart = (3..10).wrap().map_return(|_| "I'm done!");
    let mut cnt = 3;
    let large_number = 1000;
    let mut g = bart;
    let message = loop {
        match g.next() {
            GenResult::Yield(i, rest) => {
                g = rest;
                assert_eq!(i, cnt);
                cnt += 1;
                if large_number < 5 {
                    break "I got broken!";
                }
            }
            GenResult::Return(_) => break "At last!",
        }
    };
    assert_eq!(cnt, 10);
    assert_eq!(message, "At last!");
}

#[test]
fn no_else() {
    let bart = (3..10).wrap().map_return(|_| "I'm done!");
    let mut cnt = 3;
    let mut g = bart;
    let message = loop {
        match g.next() {
            GenResult::Yield(i, rest) => {
                g = rest;
                assert_eq!(i, cnt);
                cnt += 1;
            }
            GenResult::Return(msg) => break String::from(msg) + " Yayy!",
        }
    };
    assert_eq!(cnt, 10);
    assert_eq!(message, String::from("I'm done! Yayy!"));
}

#[test]
fn no_with_else() {
    let bart = (3..10).wrap().map_return(|_| "I'm done!");
    let mut cnt = 3;
    let mut g = bart;
    let message = loop {
        match g.next() {
            GenResult::Yield(i, rest) => {
                g = rest;
                assert_eq!(i, cnt);
                cnt += 1;
            }
            GenResult::Return(_) => break "At last!",
        }
    };
    assert_eq!(cnt, 10);
    assert_eq!(message, "At last!");
}

#[test]
fn no_then() {
    let bart = (3..10).wrap().map_return(|_| "I'm done!");
    let mut cnt = 3;
    let mut g = bart;
    let message = loop {
        match g.next() {
            GenResult::Yield(i, rest) => {
                g = rest;
                assert_eq!(i, cnt);
                cnt += 1;
                if cnt > 100 {
                    break "bogus";
                }
            }
            GenResult::Return(msg) => break msg,
        }
    };
    assert_eq!(cnt, 10);
    assert_eq!(message, "I'm done!");
}

#[test]
fn no_then_with_break() {
    let bart = range_from(3).map_return(|_| -> &str { unreachable!("An infinite series should not return") });
    let mut cnt = 3;
    let mut g = bart;
    let message = loop {
        match g.next() {
            GenResult::Yield(i, rest) => {
                g = rest;
                assert_eq!(i, cnt);
                cnt += 1;
                if cnt >= 20 {
                    break "I got broken!";
                }
            }
            GenResult::Return(msg) => break msg,
        }
    };
    assert_eq!(cnt, 20);
    assert_eq!(message, "I got broken!");
}

#[test]
fn no_then_else() {
    let bart = (3..10).wrap().map_return(|_| "I'm done!");
    let mut cnt = 3;
    let mut g = bart;
    let message = loop {
        match g.next() {
            GenResult::Yield(i, rest) => {
                g = rest;
                assert_eq!(i, cnt);
                cnt += 1;
            }
            GenResult::Return(msg) => break msg,
        }
    };
    assert_eq!(cnt, 10);
    assert_eq!(message, "I'm done!");
}

/// Runs `stream` to its end or to the first item that `should_break` picks, and says which
/// happened; the rest of a broken stream is handed back.
fn run_keeping_rest<S: Generator, B>(stream: S, should_break: B) -> (String, Vec<S::Yield>, Option<S>)
where
    B: Fn(S::Yield) -> Option<S::Yield>,
    S::Yield: std::fmt::Display + Copy,
    S::Return: std::fmt::Display,
{
    let mut num = vec![];
    let mut rest = None;
    let mut g = stream;
    let message = loop {
        match g.next() {
            GenResult::Yield(i, next) => {
                if let Some(value) = should_break(i) {
                    rest = Some(next);
                    break format!("Broken: {}", value);
                } else {
                    num.push(i);
                    g = next;
                }
            }
            GenResult::Return(msg) => break format!("Finished: {}", msg),
        }
    };
    (message, num, rest)
}

/// Runs `stream` to its end or to the first item that `should_break` picks; a break is told
/// by `broken`, from the item that caused it.
fn run_with<S: Generator, B, E>(stream: S, should_break: B, broken: E) -> (String, Vec<S::Yield>)
where
    B: Fn(S::Yield) -> Option<S::Yield>,
    E: Fn(S::Yield) -> String,
    S::Yield: std::fmt::Display + Copy,
    S::Return: std::fmt::Display,
{
    let mut num = vec![];
    let mut g = stream;
    let message = loop {
        match g.next() {
            GenResult::Yield(i, next) => {
                if let Some(value) = should_break(i) {
                    break broken(value);
                } else {
                    num.push(i);
                    g = next;
                }
            }
            GenResult::Return(msg) => break format!("Finished: {}", msg),
        }
    };
    (message, num)
}

#[test]
fn each_0() {
    // finishes normally
    let bart = (3..10).wrap().map_return(|_| "I'm done!");
    let (msg, num, rest) = run_keeping_rest(bart, |x| if x > 20 { Some(x) } else { None });
    assert_eq!(num, [3, 4, 5, 6, 7, 8, 9]);
    assert_eq!(msg, "Finished: I'm done!");
    assert!(rest.is_none());

    // is broken
    let bart = (3..10).wrap().map_return(|_| "I'm done!");
    let (msg, num, rest) = run_keeping_rest(bart, |x| if x > 6 { Some(x) } else { None });
    assert_eq!(num, [3, 4, 5, 6]);
    assert_eq!(msg, "Broken: 7");
    let stream = rest.expect("The stream was broken, so there should be some left.");
    let (msg, num, rest) = run_keeping_rest(stream, |_| None);
    assert_eq!(num, [8, 9]);
    assert_eq!(msg, "Finished: I'm done!");
    assert!(rest.is_none());

    // is broken, otherwise would never finish
    let bart = range_from(3).map_return(|_| "I'm done!");
    let (msg, num, rest) = run_keeping_rest(bart, |x| if x > 6 { Some(x) } else { None });
    assert_eq!(num, [3, 4, 5, 6]);
    assert_eq!(msg, "Broken: 7");
    let stream = rest.expect("The stream was broken, so there should be some left.");
    let (msg, num, rest) = run_keeping_rest(stream, |x| if x > 12 { Some(x) } else { None });
    assert_eq!(num, [8, 9, 10, 11, 12]);
    assert_eq!(msg, "Broken: 13");
    assert!(rest.is_some());
}

#[test]
fn each_1() {
    // finishes normally
    let bart = (3..10).wrap().map_return(|_| "I'm done!");
    let (msg, num) =
        run_with(bart, |x| if x > 20 { Some(x) } else { None }, |m| format!("Broken: {}", m));
    assert_eq!(num, [3, 4, 5, 6, 7, 8, 9]);
    assert_eq!(msg, "Finished: I'm done!");

    // is broken
    let bart = (3..10).wrap().map_return(|_| "I'm done!");
    let (msg, num) =
        run_with(bart, |x| if x > 6 { Some(x) } else { None }, |m| format!("Broken: {}", m));
    assert_eq!(num, [3, 4, 5, 6]);
    assert_eq!(msg, "Broken: 7");

    // is broken, otherwise would never finish
    let bart = range_from(3).map_return(|_| "I'm done!");
    let (msg, num) =
        run_with(bart, |x| if x > 6 { Some(x) } else { None }, |m| format!("Broken: {}", m));
    assert_eq!(num, [3, 4, 5, 6]);
    assert_eq!(msg, "Broken: 7");
}

#[test]
fn each_2() {
    // finishes normally
    let bart = (3..10).wrap().map_return(|_| "I'm done!");
    let (msg, num) =
        run_with(bart, |x| if x > 20 { Some(x) } else { None }, |m| format!("Broken: {}", m));
    assert_eq!(num, [3, 4, 5, 6, 7, 8, 9]);
    assert_eq!(msg, "Finished: I'm done!");

    // is broken
    let bart = (3..10).wrap().map_return(|_| "I'm done!");
    let (msg, num) =
        run_with(bart, |x| if x > 6 { Some(x) } else { None }, |m| format!("Broken: {}", m));
    assert_eq!(num, [3, 4, 5, 6]);
    assert_eq!(msg, "Broken: 7");

    // is broken, otherwise would never finish
    let bart = range_from(3).map_return(|_| "I'm done!");
    let (msg, num) =
        run_with(bart, |x| if x > 6 { Some(x) } else { None }, |m| format!("Broken: {}", m));
    assert_eq!(num, [3, 4, 5, 6]);
    assert_eq!(msg, "Broken: 7");
}

#[test]
fn each_3() {
    // finishes normally
    let bart = (3..10).wrap().map_return(|_| "I'm done!");
    let (msg, num) =
        run_with(bart, |x| if x > 20 { Some(x) } else { None }, |_| String::from("Broken"));
    assert_eq!(num, [3, 4, 5, 6, 7, 8, 9]);
    assert_eq!(msg, "Finished: I'm done!");

    // is broken
    let bart = (3..10).wrap().map_return(|_| "I'm done!");
    let (msg, num) =
        run_with(bart, |x| if x > 6 { Some(x) } else { None }, |_| String::from("Broken"));
    assert_eq!(num, [3, 4, 5, 6]);
    assert_eq!(msg, "Broken");

    // is broken, otherwise would never finish
    let bart = range_from(3).map_return(|_| "I'm done!");
    let (msg, num) =
        run_with(bart, |x| if x > 6 { Some(x) } else { None }, |_| String::from("Broken"));
    assert_eq!(num, [3, 4, 5, 6]);
    assert_eq!(msg, "Broken");
}
