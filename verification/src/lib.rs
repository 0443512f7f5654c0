//! A number-guessing game: a hidden number, the guesses made at it, and the
//! verdict on each guess.

pub mod game;
pub mod input;
pub mod play;
mod random;
