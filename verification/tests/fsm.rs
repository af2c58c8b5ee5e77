use std::fmt;

use lib::cat::enums::Match;
use lib::fsm::State;

enum Never {}

/// A transition of the machines below: on to a next state, or out.
enum Transition<Next, Exit> {
    Next(Next),
    Exit(Exit),
}

struct TooSmall;

impl fmt::Display for TooSmall {
    fn fmt(&self, f: &mut fmt::Formatter) -> fmt::Result {
        f.write_str("Too small!")
    }
}

struct TooBig;

impl fmt::Display for TooBig {
    fn fmt(&self, f: &mut fmt::Formatter) -> fmt::Result {
        f.write_str("Too big!")
    }
}

struct Correct;

impl fmt::Display for Correct {
    fn fmt(&self, f: &mut fmt::Formatter) -> fmt::Result {
        f.write_str("You guessed it!")
    }
}

struct Guess(i64);

impl State for Guess {
    type Input = i64;
    type Transition = Transition<Match<(TooSmall, Guess), Match<(TooBig, Guess), Never>>, Correct>;

    fn send(self, i: Self::Input) -> Self::Transition {
        if self.0 == i {
            Transition::Exit(Correct {})
        } else if i < self.0 {
            Transition::Next(Match::Variant((TooSmall {}, self)))
        } else {
            Transition::Next(Match::Next(Match::Variant((TooBig {}, self))))
        }
    }
}

struct Game;

impl State for Game {
    type Input = i64;
    type Transition = Transition<Match<((), Guess), Never>, Never>;

    fn send(self, secret: Self::Input) -> Self::Transition {
        Transition::Next(Match::Variant(((), Guess(secret))))
    }
}

struct Quit;

impl fmt::Display for Quit {
    fn fmt(&self, f: &mut fmt::Formatter) -> fmt::Result {
        f.write_str("I quit!")
    }
}

struct Maverick;

impl State for Maverick {
    type Input = (i64, i64);
    type Transition = Transition<Match<(i64, Strategist), Never>, Quit>;

    fn send(self, range: Self::Input) -> Self::Transition {
        if range.0 > range.1 {
            Transition::Exit(Quit {})
        } else {
            let guess = (range.0 + range.1) / 2;
            Transition::Next(Match::Variant((guess, Strategist(range.0, guess, range.1))))
        }
    }
}

struct Strategist(i64, i64, i64);

impl State for Strategist {
    type Input = Match<TooSmall, Match<TooBig, Never>>;
    type Transition = Transition<Match<(i64, Strategist), Never>, Quit>;

    fn send(self, result: Self::Input) -> Self::Transition {
        let mav = Maverick {};
        let range = match result {
            Match::Variant(TooSmall) => (self.1 + 1, self.2),
            Match::Next(Match::Variant(TooBig)) => (self.0, self.1 - 1),
            Match::Next(Match::Next(never)) => match never {},
        };
        mav.send(range)
    }
}

#[test]
fn fsm_guess() {
    let game = Game {};

    let game = match game.send(16) {
        Transition::Next(Match::Variant(((), game))) => game,
        Transition::Next(Match::Next(never)) => match never {},
        Transition::Exit(never) => match never {},
    };

    let suspend = match game.send(10) {
        Transition::Next(suspend) => suspend,
        _ => panic!("We didn't guess the number, so the coroutine should not return yet!"),
    };

    let game = match suspend {
        Match::Variant((msg, guess_again)) => {
            assert_eq!(msg.to_string(), "Too small!");
            guess_again
        }
        _ => panic!("The number was clearly too small! Why do you not see this?"),
    };

    let suspend = match game.send(19) {
        Transition::Next(suspend) => suspend,
        _ => panic!("We didn't guess the number, so the coroutine should not return yet!"),
    };

    let game = match suspend {
        Match::Next(Match::Variant((msg, guess_again))) => {
            assert_eq!(msg.to_string(), "Too big!");
            guess_again
        }
        _ => panic!("The number was clearly too big! Why do you not see this?"),
    };

    match game.send(16) {
        Transition::Exit(msg) => assert_eq!(msg.to_string(), "You guessed it!"),
        _ => panic!("The answer was correct! The coroutine should return."),
    }
}

enum Finish<G, P> {
    GameWon(G),
    PlayerGaveUp(P),
}

fn play(secret: i64, lo: i64, hi: i64) -> Finish<Correct, Quit> {
    let (_, mut game) = match (Game {}).send(secret) {
        Transition::Next(Match::Variant(s)) => s,
        Transition::Next(Match::Next(never)) => match never {},
        Transition::Exit(never) => match never {},
    };

    let player = Maverick {};

    let (mut guess, mut player) = match player.send((lo, hi)) {
        Transition::Next(Match::Variant(x)) => x,
        Transition::Next(Match::Next(never)) => match never {},
        Transition::Exit(_) => panic!("The range is valid, why did you return?"),
    };

    loop {
        let (result, game_) = match game.send(guess) {
            Transition::Next(Match::Variant((r, g))) => (Match::Variant(r), g),
            Transition::Next(Match::Next(Match::Variant((r, g)))) => {
                (Match::Next(Match::Variant(r)), g)
            }
            Transition::Next(Match::Next(Match::Next(never))) => match never {},
            Transition::Exit(r) => break Finish::GameWon(r),
        };
        game = game_;
        let (guess_, player_) = match player.send(result) {
            Transition::Next(Match::Variant(s)) => s,
            Transition::Next(Match::Next(never)) => match never {},
            Transition::Exit(r) => break Finish::PlayerGaveUp(r),
        };
        guess = guess_;
        player = player_;
    }
}

#[test]
fn fsm_solo() {
    let msg = match play(75, 10, 100) {
        Finish::GameWon(e) => e.to_string(),
        Finish::PlayerGaveUp(q) => q.to_string(),
    };
    assert_eq!(msg, "You guessed it!");

    let msg = match play(5, 10, 100) {
        Finish::GameWon(e) => e.to_string(),
        Finish::PlayerGaveUp(q) => q.to_string(),
    };
    assert_eq!(msg, "I quit!");
}
