//! A word-guessing game: scoring of guesses against a hidden word, the
//! per-letter keyboard states, and the game's state machine.
pub mod color;
pub mod game;
pub mod letters;
pub mod scoring;
pub mod words;
