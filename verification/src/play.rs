//! One turn of play, from a line of text to a verdict, and the remark that a
//! won game earns.

use crate::game::{GameModel, GuessGameContext, GuessResult};
use crate::input::{parse_input, parse_line, ParseError};
use vstd::prelude::*;

verus! {

/// A remark on how many guesses a won game took.
#[derive(Clone, Copy, Debug, PartialEq, Eq, Structural)]
pub enum Commentary {
    /// Won with the first guess.
    Genius,
    /// Won with two, three or four guesses.
    Lucky,
    /// Won with ten guesses or more.
    NextTime,
}

/// The remark that `count` guesses earn: one for a single guess, one for two
/// to four, one for ten or more, and none for five to nine or for no guess.
pub open spec fn commentary_for(count: nat) -> Option<Commentary> {
    if count == 1 {
        Some(Commentary::Genius)
    } else if 2 <= count <= 4 {
        Some(Commentary::Lucky)
    } else if count >= 10 {
        Some(Commentary::NextTime)
    } else {
        None
    }
}

/// The remark that a game won with `count` guesses earns, if any.
pub fn commentary(count: usize) -> (remark: Option<Commentary>)
    ensures
        remark == commentary_for(count as nat),
{
    if count == 1 {
        Some(Commentary::Genius)
    } else if 2 <= count && count <= 4 {
        Some(Commentary::Lucky)
    } else if count >= 10 {
        Some(Commentary::NextTime)
    } else {
        None
    }
}

/// What one line of text does to a game: a line that holds a guess has the
/// guess recorded and judged, and any other line leaves the game as it was.
pub open spec fn turn(game: GameModel, line: Seq<char>) -> (GameModel, Result<GuessResult, ParseError>) {
    match parse_line(line) {
        Ok(guess) => (game.record(guess), Ok(game.outcome(guess))),
        Err(error) => (game, Err(error)),
    }
}

/// Plays one turn with the line of text that the player entered. A line that
/// holds a guess has it recorded and judged. A line that holds none costs
/// nothing: the game stays as it was and the error says why the line was
/// refused.
pub fn play_turn(game: &mut GuessGameContext, line: &str) -> (verdict: Result<GuessResult, ParseError>)
    ensures
        (final(game)@, verdict) == turn(old(game)@, line@),
{
    match parse_input(line) {
        Ok(guess) => Ok(game.guess(guess)),
        Err(error) => Err(error),
    }
}

} // verus!
