use lib::cat::enums::{Enum, Match};
use lib::cat::sum::Either;
use lib::cat::{Inj, Sur};
use lib::fsm::match_transition::Transition;
use lib::gen::either::GenEither;
use lib::gen::iter::wrap::GenWrap;
use lib::gen::GenResult;

enum Never {}

#[test]
fn enums_enum_once() {
    type Vars = Match<i32, Match<&'static str, Match<f64, Never>>>;
    let integer: Vars = Match::Variant(42);
    let string: Vars = Match::Next(Match::Variant("Happy!"));
    let float: Vars = Match::Next(Match::Next(Match::Variant(42.0)));

    let answers = ["I am an integer: 42", "I am Happy!", "I am exactly: 42.0"];
    for (item, answer) in [integer, string, float].iter().zip(answers.iter()) {
        let ans = match item {
            &Match::Variant(i) => format!("I am an integer: {}", i),
            &Match::Next(Match::Variant(s)) => format!("I am {}", s),
            &Match::Next(Match::Next(Match::Variant(f))) => format!("I am exactly: {:.1}", f),
            &Match::Next(Match::Next(Match::Next(ref never))) => match *never {},
        };
        assert_eq!(ans, *answer);
    }
}

#[test]
fn match_split_and_inj_sur_round_trip() {
    let m: Match<u8, char> = Match::Next('x');
    match m.split() {
        Match::Next(c) => assert_eq!(c, 'x'),
        Match::Variant(_) => panic!("split keeps the alternative"),
    }
    let e: Either<u8, char> = Match::<u8, char>::Variant(3).inj();
    match e {
        Either::Left(v) => assert_eq!(v, 3),
        Either::Right(_) => panic!("inj keeps the side"),
    }
    match Match::<u8, char>::sur(Either::Right('y')) {
        Match::Next(c) => assert_eq!(c, 'y'),
        Match::Variant(_) => panic!("sur keeps the side"),
    }
}

#[test]
fn transition_inj_sur_round_trip() {
    let t: Transition<u8, &str> = Transition::sur(Either::Right("out"));
    match t.inj() {
        Either::Right(s) => assert_eq!(s, "out"),
        Either::Left(_) => panic!("the exit stays an exit"),
    }
    let t: Transition<u8, &str> = Transition::sur(Either::Left(9));
    match t {
        Transition::Continue(n) => assert_eq!(n, 9),
        Transition::Exit(_) => panic!("a continuation stays a continuation"),
    }
}

#[test]
fn gen_result_inj_sur_round_trip() {
    type G = GenWrap<std::ops::Range<i32>>;
    let r: GenResult<G> = GenResult::Yield(5, GenWrap(6..9));
    match r.inj() {
        Either::Left((y, rest)) => {
            assert_eq!(y, 5);
            assert_eq!(rest.0, 6..9);
        }
        Either::Right(_) => panic!("an item stays an item"),
    }
    let back: GenResult<G> = GenResult::sur(Either::Right(1..1));
    match back {
        GenResult::Return(r) => assert_eq!(r, 1..1),
        GenResult::Yield(_, _) => panic!("a return value stays a return value"),
    }
}

#[test]
fn gen_either_inj_sur_round_trip() {
    let e: GenEither<u8, char> = GenEither::sur(Either::Left(1));
    match e.inj() {
        Either::Left(v) => assert_eq!(v, 1),
        Either::Right(_) => panic!("the former stays the former"),
    }
}
