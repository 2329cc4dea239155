//! What can stop a run before the program's end.

use vstd::prelude::*;

verus! {

/// The kinds of fatal condition.
#[derive(Clone, Copy, Debug, PartialEq, Eq, Structural)]
pub enum VMError {
    /// A `[` met a zero cell and no `]` closes it before the program ends.
    UnmatchedOpenBrace,
    /// A `]` was reached while no loop was open.
    UnmatchedCloseBrace,
    /// A `,` found no byte left to read.
    InputExhausted,
}

/// A fatal condition together with the position of the instruction that met it.
#[derive(Clone, Copy, Debug, PartialEq, Eq, Structural)]
pub struct Fault {
    pub error: VMError,
    pub position: usize,
}

} // verus!
