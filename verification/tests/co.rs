use std::fmt;

use lib::cat::enums::Match;
use lib::co::{CoResult, CoSuspend, Coroutine};
use lib::either::Either;
use lib::never::Never;

struct TooSmall;

impl fmt::Display for TooSmall {
    fn fmt(&self, f: &mut fmt::Formatter) -> fmt::Result {
        f.write_str("Too small!")
    }
}

struct TooBig;

impl fmt::Display for TooBig {
    fn fmt(&self, f: &mut fmt::Formatter) -> fmt::Result {
        f.write_str("Too big!")
    }
}

/// The two hints, as the alternatives of an enumeration.
type Hint = Match<TooSmall, Match<TooBig, Never>>;

struct Correct;

impl fmt::Display for Correct {
    fn fmt(&self, f: &mut fmt::Formatter) -> fmt::Result {
        f.write_str("You guessed it!")
    }
}

struct Quit;

impl fmt::Display for Quit {
    fn fmt(&self, f: &mut fmt::Formatter) -> fmt::Result {
        f.write_str("I quit!")
    }
}

struct Guess(i64);

impl Coroutine<i64> for Guess {
    type Yield = Hint;
    type Return = Correct;

    fn send(self, i: i64) -> CoResult<Hint, Self, Correct> {
        if self.0 == i {
            CoResult::Return(Correct {})
        } else if i < self.0 {
            CoResult::Yield(Match::Variant(TooSmall {}), self)
        } else {
            CoResult::Yield(Match::Next(Match::Variant(TooBig {})), self)
        }
    }
}

/// Takes the secret and hands over to the guessing game.
struct Game;

impl Coroutine<i64> for Game {
    type Yield = Never;
    type Return = Guess;

    fn send(self, secret: i64) -> CoResult<Never, Self, Guess> {
        CoResult::Return(Guess(secret))
    }
}

enum PlayerInput {
    Range(i64, i64),
    Result(Hint),
}

enum Player {
    Maverick,
    Strategist(i64, i64, i64),
}

impl Coroutine<PlayerInput> for Player {
    type Yield = i64;
    type Return = Quit;

    fn send(self, input: PlayerInput) -> CoResult<i64, Self, Quit> {
        let range = match (self, input) {
            (Player::Maverick, PlayerInput::Range(lo, hi)) => (lo, hi),
            (Player::Strategist(lo, guess, hi), PlayerInput::Result(hint)) => match hint {
                Match::Variant(TooSmall) => (guess + 1, hi),
                Match::Next(Match::Variant(TooBig)) => (lo, guess - 1),
                Match::Next(Match::Next(never)) => never.absurd(),
            },
            _ => panic!("A player is given a range first, and then the results of its guesses"),
        };
        if range.0 > range.1 {
            CoResult::Return(Quit {})
        } else {
            let guess = (range.0 + range.1) / 2;
            CoResult::Yield(guess, Player::Strategist(range.0, guess, range.1))
        }
    }
}

#[test]
fn co_guess() {
    let game = Game {};

    let game = match game.send(16) {
        CoResult::Return(game) => game,
        CoResult::Yield(never, _) => never.absurd(),
    };

    let suspend = game.send(10);
    let game = match suspend.get() {
        Either::Former((Match::Variant(msg), guess_again)) => {
            assert_eq!(msg.to_string(), "Too small!");
            guess_again
        }
        _ => panic!("The number was clearly too small! Why do you not see this?"),
    };

    let suspend = game.send(19);
    let game = match suspend.get() {
        Either::Former((Match::Next(Match::Variant(msg)), guess_again)) => {
            assert_eq!(msg.to_string(), "Too big!");
            guess_again
        }
        _ => panic!("The number was clearly too big! Why do you not see this?"),
    };

    match game.send(16) {
        CoResult::Return(msg) => assert_eq!(msg.to_string(), "You guessed it!"),
        _ => panic!("The answer was correct! The coroutine should return."),
    }
}

enum Finish<G, P> {
    GameWon(G),
    PlayerGaveUp(P),
}

fn play(secret: i64, lo: i64, hi: i64) -> Finish<Correct, Quit> {
    let mut game = match Game.send(secret) {
        CoResult::Return(game) => game,
        CoResult::Yield(never, _) => never.absurd(),
    };
    let (mut guess, mut player) = match Player::Maverick.send(PlayerInput::Range(lo, hi)) {
        CoResult::Yield(g, p) => (g, p),
        CoResult::Return(_) => panic!("The range is valid, why did you return?"),
    };
    loop {
        let (result, game_) = match game.send(guess) {
            CoResult::Yield(r, g) => (r, g),
            CoResult::Return(r) => break Finish::GameWon(r),
        };
        game = game_;
        let (guess_, player_) = match player.send(PlayerInput::Result(result)) {
            CoResult::Yield(g, p) => (g, p),
            CoResult::Return(r) => break Finish::PlayerGaveUp(r),
        };
        guess = guess_;
        player = player_;
    }
}

#[test]
fn co_solo() {
    let msg = match play(75, 10, 100) {
        Finish::GameWon(e) => e.to_string(),
        Finish::PlayerGaveUp(q) => q.to_string(),
    };
    assert_eq!(msg, "You guessed it!");

    let msg = match play(5, 10, 100) {
        Finish::GameWon(e) => e.to_string(),
        Finish::PlayerGaveUp(q) => q.to_string(),
    };
    assert_eq!(msg, "I quit!");
}

#[test]
fn co_result_get_gives_the_return_value_as_latter() {
    match Guess(3).send(3).get() {
        Either::Latter(c) => assert_eq!(c.to_string(), "You guessed it!"),
        Either::Former(_) => panic!("The guess was right"),
    }
}
