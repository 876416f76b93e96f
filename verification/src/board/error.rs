//! Error types for the board module.

use vstd::prelude::*;

verus! {

/// Errors returned by the board when attempting to make an invalid move.
#[derive(Debug, PartialEq, Eq, Structural, Clone, Copy)]
pub enum MoveError {
    /// No possible move matches the given command.
    NoPossibleMove,
    /// A move was found, but making it would be illegal: it leaves the
    /// mover's king in check, or castles out of or through check.
    IllegalMove,
    /// More than one move matches the command and the discriminant, if any,
    /// does not single one out.
    TooManyMoves,
}

} // verus!
