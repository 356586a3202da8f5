//! A verified engine for a daily five-letter word-guessing game.
//!
//! The crate covers the pure core of the game: the duplicate-letter-correct
//! scoring of a guess against a solution, the 6x5 board state machine, the
//! save store keyed by puzzle number, the date navigator, and the keyboard
//! hint colors. Everything that touches the outside world (the terminal, the
//! network fetch of a day's puzzle, the save file) lives in the surrounding
//! application, which exchanges plain values with this library.

pub mod board;
pub mod dictionary;
pub mod game;
pub mod keyboard;
pub mod manager;
pub mod puzzle;
pub mod save;
pub mod scoring;
pub mod stats;
pub mod util;
