//! A tape machine: thirty thousand wrapping byte cells, a wrapping data
//! pointer, and an interpreter for the eight-instruction language that
//! drives them.
//!
//! - [`tape`]: the cells and the pointer.
//! - [`brackets`]: which `]` closes a loop.
//! - [`engine`]: the interpreter, one step at a time or for a bounded run.
//! - [`loops`], [`runs`]: what is proved of jumps, loops and whole runs.
//! - [`escape`], [`display`]: the visible form of output bytes and of the tape.
//! - [`error`]: the fatal conditions.

pub mod brackets;
pub mod display;
pub mod engine;
pub mod error;
pub mod escape;
pub mod loops;
pub mod runs;
pub mod tape;
