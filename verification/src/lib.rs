//! Core of a terminal word-guessing game: a player has six attempts to
//! guess a hidden five-letter word, with per-letter feedback and an
//! on-screen keyboard that accumulates feedback across guesses.
//!
//! This crate holds the verified game logic: the match evaluator, the
//! keyboard feedback tracker, the round state machine, the word repository,
//! and the pure layout computations of the renderer.  Terminal input and
//! drawing live outside, on top of these contracts.

pub mod ansi;
pub mod evaluator;
pub mod game;
pub mod keyboard;
pub mod layout;
pub mod words;
