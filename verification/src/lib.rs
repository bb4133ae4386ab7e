//! A single-player code-breaking puzzle core: a hidden secret sequence of
//! distinct symbols is generated from a palette, and the player's guesses are
//! scored by position accuracy (`Hit`), presence only (`Blow`) and absence
//! (`Miss`), until the secret is found or the configured turns run out.
//!
//! The library covers the game logic only: secret generation, guess
//! evaluation, the interactive guess-assembly state machine, and the
//! turn-level session state machine. Rendering and input plumbing are left to
//! the caller, which feeds the core abstract selection events and reads plain
//! snapshots back.

use vstd::prelude::*;

pub mod builder;
pub mod hints;
pub mod judge;
pub mod secret;
pub mod select;
pub mod session;
pub mod symbols;

verus! {

/// Failure to start a session: a duplicate-free secret of the requested
/// length cannot be drawn from the given palette.
#[derive(Clone, Copy, PartialEq, Eq, Structural, Debug)]
pub enum Error {
    GenerationError { length: usize, palette_size: usize },
}

/// Rejection of a malformed guess handed to the evaluator.
#[derive(Clone, Copy, PartialEq, Eq, Structural, Debug)]
pub enum InvalidGuess {
    /// The guess does not have the secret's length.
    WrongLength,
    /// Some symbol occurs twice in the guess.
    DuplicateSymbol,
}

} // verus!
