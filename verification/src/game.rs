//! The game engine. It holds the hidden number and every guess made so far,
//! and judges each new guess against the hidden number.

use crate::random::random_in_range;
use std::cmp::Ordering;
use vstd::prelude::*;

verus! {

/// The smallest hidden number that is drawn.
pub const SECRET_MIN: u32 = 1;

/// The bound below which every drawn hidden number lies.
pub const SECRET_END: u32 = 100;

/// The verdict on one guess.
#[derive(Clone, Copy, Debug, PartialEq, Eq, Structural)]
pub enum GuessResult {
    /// The guess is below the hidden number.
    TooSmall,
    /// The guess is above the hidden number.
    TooBig,
    /// The guess is the hidden number.
    Win,
}

/// What a game is, mathematically: the hidden number and the guesses made so
/// far, oldest first.
pub struct GameModel {
    pub secret: u32,
    pub history: Seq<u32>,
}

impl GameModel {
    /// A fresh game: the hidden number is fixed and nothing has been guessed.
    pub open spec fn start(secret: u32) -> GameModel {
        GameModel { secret, history: Seq::empty() }
    }

    /// The verdict that `guess` earns in this game.
    pub open spec fn outcome(self, guess: u32) -> GuessResult {
        if guess < self.secret {
            GuessResult::TooSmall
        } else if guess > self.secret {
            GuessResult::TooBig
        } else {
            GuessResult::Win
        }
    }

    /// The game after `guess` has been made: the guess is appended to the
    /// history, whatever its verdict, and the hidden number stays.
    pub open spec fn record(self, guess: u32) -> GameModel {
        GameModel { secret: self.secret, history: self.history.push(guess) }
    }

    /// The game after each of `guesses` has been made, in their order.
    pub open spec fn record_all(self, guesses: Seq<u32>) -> GameModel
        decreases guesses.len(),
    {
        if guesses.len() == 0 {
            self
        } else {
            self.record_all(guesses.drop_last()).record(guesses.last())
        }
    }
}

/// However many guesses are made and whatever their verdicts, the history
/// afterwards is the history before followed by exactly those guesses in the
/// order they were made, so it has grown by their number, and the hidden
/// number is the one the game began with.
pub proof fn lemma_guesses_are_recorded_in_order(game: GameModel, guesses: Seq<u32>)
    ensures
        game.record_all(guesses).secret == game.secret,
        game.record_all(guesses).history == game.history + guesses,
        game.record_all(guesses).history.len() == game.history.len() + guesses.len(),
    decreases guesses.len(),
{
    if guesses.len() > 0 {
        lemma_guesses_are_recorded_in_order(game, guesses.drop_last());
    }
}

/// In a game that began fresh, the history is exactly the guesses made, in
/// their order and with the winning guess among them, and its length is their
/// number.
pub proof fn lemma_fresh_game_records_every_guess(secret: u32, guesses: Seq<u32>)
    ensures
        GameModel::start(secret).record_all(guesses).secret == secret,
        GameModel::start(secret).record_all(guesses).history == guesses,
        GameModel::start(secret).record_all(guesses).history.len() == guesses.len(),
{
    lemma_guesses_are_recorded_in_order(GameModel::start(secret), guesses);
}

/// A game in progress.
pub struct GuessGameContext {
    secret_number: u32,
    guess_history: Vec<u32>,
}

impl View for GuessGameContext {
    type V = GameModel;

    closed spec fn view(&self) -> GameModel {
        GameModel { secret: self.secret_number, history: self.guess_history@ }
    }
}

impl GuessGameContext {
    /// Starts a game whose hidden number is `secret_number`.
    pub fn new(secret_number: u32) -> (game: GuessGameContext)
        ensures
            game@ == GameModel::start(secret_number),
    {
        GuessGameContext { secret_number, guess_history: Vec::new() }
    }

    /// Starts a game whose hidden number is drawn at random from
    /// `SECRET_MIN..SECRET_END`. Which number is drawn is not known here: the
    /// contract holds of every draw.
    pub fn new_with_random_secret_number() -> (game: GuessGameContext)
        ensures
            SECRET_MIN <= game@.secret < SECRET_END,
            game@.history == Seq::<u32>::empty(),
    {
        let secret_number: u32 = random_in_range(SECRET_MIN, SECRET_END);
        GuessGameContext::new(secret_number)
    }

    /// Judges `guess` against the hidden number without recording it.
    pub fn compare_guess(&self, guess: u32) -> (verdict: GuessResult)
        ensures
            verdict == self@.outcome(guess),
    {
        match guess.cmp(&self.secret_number) {
            Ordering::Less => GuessResult::TooSmall,
            Ordering::Greater => GuessResult::TooBig,
            Ordering::Equal => GuessResult::Win,
        }
    }

    /// Records `guess` and judges it. Every guess is recorded, the winning one
    /// too, and guesses after a win are recorded like any other.
    pub fn guess(&mut self, guess: u32) -> (verdict: GuessResult)
        ensures
            final(self)@ == old(self)@.record(guess),
            guess < old(self)@.secret ==> verdict == GuessResult::TooSmall,
            guess > old(self)@.secret ==> verdict == GuessResult::TooBig,
            guess == old(self)@.secret ==> verdict == GuessResult::Win,
    {
        self.guess_history.push(guess);
        self.compare_guess(guess)
    }

    /// The number of guesses made so far. It depends on the history alone
    /// and the game is left as it is, so asking again without a guess in
    /// between gives the same number.
    pub fn get_guess_count(&self) -> (count: usize)
        ensures
            count == self@.history.len(),
    {
        self.guess_history.len()
    }

    /// The hidden number.
    pub fn secret_number(&self) -> (secret: u32)
        ensures
            secret == self@.secret,
    {
        self.secret_number
    }

    /// The guesses made so far, oldest first.
    pub fn guess_history(&self) -> (history: &Vec<u32>)
        ensures
            history@ == self@.history,
    {
        &self.guess_history
    }
}

} // verus!
