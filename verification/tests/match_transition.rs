use std::fmt;

use lib::cat::enums::Match;
use lib::fsm::match_transition::Transition;
use lib::fsm::State;

enum Never {}

struct TooSmall;

impl fmt::Display for TooSmall {
    fn fmt(&self, f: &mut fmt::Formatter) -> fmt::Result {
        f.write_str("Too small!")
    }
}

struct TooBig;

impl fmt::Display for TooBig {
    fn fmt(&self, f: &mut fmt::Formatter) -> fmt::Result {
        f.write_str("Too big!")
    }
}

struct Correct;

impl fmt::Display for Correct {
    fn fmt(&self, f: &mut fmt::Formatter) -> fmt::Result {
        f.write_str("You guessed it!")
    }
}

struct Guess(i64);

impl State for Guess {
    type Input = i64;
    type Transition = Transition<Match<(TooSmall, Guess), Match<(TooBig, Guess), Never>>, Correct>;

    fn send(self, i: Self::Input) -> Self::Transition {
        if self.0 == i {
            Transition::Exit(Correct {})
        } else if i < self.0 {
            Transition::Continue(Match::Variant((TooSmall {}, self)))
        } else {
            Transition::Continue(Match::Next(Match::Variant((TooBig {}, self))))
        }
    }
}

struct Game;

impl State for Game {
    type Input = i64;
    type Transition = Transition<Match<((), Guess), Never>, Never>;

    fn send(self, secret: Self::Input) -> Self::Transition {
        Transition::Continue(Match::Variant(((), Guess(secret))))
    }
}

struct Quit;

impl fmt::Display for Quit {
    fn fmt(&self, f: &mut fmt::Formatter) -> fmt::Result {
        f.write_str("I quit!")
    }
}

struct Maverick;

impl State for Maverick {
    type Input = (i64, i64);
    type Transition = Transition<Match<(i64, Strategist), Never>, Quit>;

    fn send(self, range: Self::Input) -> Self::Transition {
        if range.0 > range.1 {
            Transition::Exit(Quit {})
        } else {
            let guess = (range.0 + range.1) / 2;
            Transition::Continue(Match::Variant((guess, Strategist(range.0, guess, range.1))))
        }
    }
}

struct Strategist(i64, i64, i64);

impl State for Strategist {
    type Input = Match<TooSmall, Match<TooBig, Never>>;
    type Transition = Transition<Match<(i64, Strategist), Never>, Quit>;

    fn send(self, result: Self::Input) -> Self::Transition {
        let mav = Maverick {};
        let range = match result {
            Match::Variant(TooSmall) => (self.1 + 1, self.2),
            Match::Next(Match::Variant(TooBig)) => (self.0, self.1 - 1),
            Match::Next(Match::Next(never)) => match never {},
        };
        mav.send(range)
    }
}

#[test]
fn match_transition_guess() {
    let game = Game {};

    let game = match game.send(16) {
        Transition::Continue(Match::Variant(((), game))) => game,
        Transition::Continue(Match::Next(never)) => match never {},
        Transition::Exit(never) => match never {},
    };

    let suspend = match game.send(10) {
        Transition::Continue(suspend) => suspend,
        _ => panic!("We didn't guess the number, so the coroutine should not return yet!"),
    };

    let game = match suspend {
        Match::Variant((msg, guess_again)) => {
            assert_eq!(msg.to_string(), "Too small!");
            guess_again
        }
        _ => panic!("The number was clearly too small! Why do you not see this?"),
    };

    let suspend = match game.send(19) {
        Transition::Continue(suspend) => suspend,
        _ => panic!("We didn't guess the number, so the coroutine should not return yet!"),
    };

    let game = match suspend {
        Match::Next(Match::Variant((msg, guess_again))) => {
            assert_eq!(msg.to_string(), "Too big!");
            guess_again
        }
        _ => panic!("The number was clearly too big! Why do you not see this?"),
    };

    match game.send(16) {
        Transition::Exit(msg) => assert_eq!(msg.to_string(), "You guessed it!"),
        _ => panic!("The answer was correct! The coroutine should return."),
    }
}

enum Finish<G, P> {
    GameWon(G),
    PlayerGaveUp(P),
}

fn play(secret: i64, lo: i64, hi: i64) -> Finish<Correct, Quit> {
    let (_, mut game) = match (Game {}).send(secret) {
        Transition::Continue(Match::Variant(s)) => s,
        Transition::Continue(Match::Next(never)) => match never {},
        Transition::Exit(never) => match never {},
    };

    let player = Maverick {};

    let (mut guess, mut player) = match player.send((lo, hi)) {
        Transition::Continue(Match::Variant(x)) => x,
        Transition::Continue(Match::Next(never)) => match never {},
        Transition::Exit(_) => panic!("The range is valid, why did you return?"),
    };

    loop {
        let (result, game_) = match game.send(guess) {
            Transition::Continue(Match::Variant((r, g))) => (Match::Variant(r), g),
            Transition::Continue(Match::Next(Match::Variant((r, g)))) => {
                (Match::Next(Match::Variant(r)), g)
            }
            Transition::Continue(Match::Next(Match::Next(never))) => match never {},
            Transition::Exit(r) => break Finish::GameWon(r),
        };
        game = game_;
        let (guess_, player_) = match player.send(result) {
            Transition::Continue(Match::Variant(s)) => s,
            Transition::Continue(Match::Next(never)) => match never {},
            Transition::Exit(r) => break Finish::PlayerGaveUp(r),
        };
        guess = guess_;
        player = player_;
    }
}

#[test]
fn match_transition_solo() {
    let msg = match play(75, 10, 100) {
        Finish::GameWon(e) => e.to_string(),
        Finish::PlayerGaveUp(q) => q.to_string(),
    };
    assert_eq!(msg, "You guessed it!");

    let msg = match play(5, 10, 100) {
        Finish::GameWon(e) => e.to_string(),
        Finish::PlayerGaveUp(q) => q.to_string(),
    };
    assert_eq!(msg, "I quit!");
}

struct Idle;
struct Payment;
struct Pouring;

enum Drink {
    Coffee,
    HotChocolate,
    HotWater,
}

impl State for Idle {
    type Input = Drink;
    type Transition =
        Transition<Match<(&'static str, Payment), Match<(&'static str, Pouring), Never>>, Never>;

    fn send(self, product: Self::Input) -> Self::Transition {
        match product {
            Drink::Coffee => {
                Transition::Continue(Match::Variant(("Ten cents and a piece of your soul.", Payment {})))
            }
            Drink::HotChocolate => {
                Transition::Continue(Match::Variant(("9c + $2 for the cream", Payment {})))
            }
            Drink::HotWater => Transition::Continue(Match::Next(Match::Variant((
                "Tea if free, as you should be!",
                Pouring {},
            )))),
        }
    }
}

struct DonePouring;

impl State for Pouring {
    type Input = DonePouring;
    type Transition = Transition<Match<(&'static str, Idle), Never>, Never>;

    fn send(self, _: Self::Input) -> Self::Transition {
        Transition::Continue(Match::Variant(("Enjoy!", Idle {})))
    }
}

enum Decision {
    Pay,
    Cancel,
    SmashTheMachine,
}

struct ContortedMetal;

impl State for Payment {
    type Input = Decision;
    type Transition =
        Transition<Match<(&'static str, Pouring), Match<(&'static str, Idle), Never>>, ContortedMetal>;

    fn send(self, decision: Self::Input) -> Self::Transition {
        match decision {
            Decision::Pay => {
                Transition::Continue(Match::Variant(("Your kindness shall be rewarded!", Pouring {})))
            }
            Decision::Cancel => Transition::Continue(Match::Next(Match::Variant(("Suit yorself!", Idle {})))),
            Decision::SmashTheMachine => Transition::Exit(ContortedMetal {}),
        }
    }
}

#[test]
fn vending_machine_serves_and_breaks() {
    let payment = match Idle.send(Drink::Coffee) {
        Transition::Continue(Match::Variant((msg, payment))) => {
            assert_eq!(msg, "Ten cents and a piece of your soul.");
            payment
        }
        _ => panic!("coffee is paid for first"),
    };
    let pouring = match payment.send(Decision::Pay) {
        Transition::Continue(Match::Variant((msg, pouring))) => {
            assert_eq!(msg, "Your kindness shall be rewarded!");
            pouring
        }
        _ => panic!("paying pours the drink"),
    };
    let idle = match pouring.send(DonePouring) {
        Transition::Continue(Match::Variant((msg, idle))) => {
            assert_eq!(msg, "Enjoy!");
            idle
        }
        Transition::Continue(Match::Next(never)) => match never {},
        Transition::Exit(never) => match never {},
    };
    match idle.send(Drink::HotWater) {
        Transition::Continue(Match::Next(Match::Variant((msg, _)))) => {
            assert_eq!(msg, "Tea if free, as you should be!")
        }
        _ => panic!("hot water is poured at once"),
    }
    let payment = match Idle.send(Drink::HotChocolate) {
        Transition::Continue(Match::Variant((_, payment))) => payment,
        _ => panic!("hot chocolate is paid for first"),
    };
    assert!(matches!(payment.send(Decision::SmashTheMachine), Transition::Exit(ContortedMetal {})));
    let payment = match Idle.send(Drink::Coffee) {
        Transition::Continue(Match::Variant((_, payment))) => payment,
        _ => panic!("coffee is paid for first"),
    };
    match payment.send(Decision::Cancel) {
        Transition::Continue(Match::Next(Match::Variant((msg, _)))) => assert_eq!(msg, "Suit yorself!"),
        _ => panic!("a cancel goes back to idle"),
    }
}
