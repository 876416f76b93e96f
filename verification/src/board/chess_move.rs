//! The [Move] type: a concrete move on a given board, already resolved to a
//! starting square, together with its [MoveData] payload.

use vstd::prelude::*;

use crate::board::square::Square;
use crate::parse::move_command::MoveCommandData;

verus! {

/// The direction the player is castling.
#[derive(Debug, PartialEq, Eq, Structural, Clone, Copy)]
pub enum CastlingDirection {
    /// A castle towards the h-file.
    Kingside,
    /// A castle towards the a-file.
    Queenside,
}

/// A concrete move on the board.
///
/// Where a move command mirrors the notation it was read from, a `Move` also
/// records the starting square, resolved against a particular board. A `Move`
/// is meaningful only relative to the board it was derived from, and may
/// still be illegal (for example, it may leave the mover's king in check).
#[derive(Debug, PartialEq, Eq, Structural, Clone, Copy)]
pub enum Move {
    /// Any move that is not a castle, captures included.
    NormalMove(MoveData),
    /// A castle in the given direction.
    Castle(CastlingDirection),
}

/// The payload of a normal move: where it starts, where it ends, and whether
/// it captures.
#[derive(Debug, PartialEq, Eq, Structural, Clone, Copy)]
pub struct MoveData {
    /// The square that the move starts on.
    pub starting_square: Square,
    /// Whether or not this move is a capture.
    pub capture: bool,
    /// The square that this move ends on.
    pub target_square: Square,
}

impl MoveData {
    /// Constructs a new [MoveData].
    pub fn new(starting_square: Square, target_square: Square, capture: bool) -> (r: Self)
        ensures
            r == (MoveData { starting_square, capture, target_square }),
    {
        MoveData { starting_square, capture, target_square }
    }

    /// Builds a [MoveData] from a parsed move command plus the starting
    /// square that the command was resolved to.
    pub fn from_move_command_data(move_command_data: &MoveCommandData, starting_square: Square) -> (
        r: Self)
        ensures
            r == (MoveData {
                starting_square,
                capture: move_command_data.capture,
                target_square: move_command_data.target_square,
            }),
    {
        MoveData {
            starting_square,
            capture: move_command_data.capture,
            target_square: move_command_data.target_square,
        }
    }

    /// The square that the move starts on.
    pub fn starting_square(&self) -> (r: Square)
        ensures
            r == self.starting_square,
    {
        self.starting_square
    }

    /// The square that the move ends on.
    pub fn target_square(&self) -> (r: Square)
        ensures
            r == self.target_square,
    {
        self.target_square
    }

    /// Whether or not this move is a capture.
    pub fn capture(&self) -> (r: bool)
        ensures
            r == self.capture,
    {
        self.capture
    }

    /// Whether or not this move is a capture.
    pub fn is_capture(&self) -> (r: bool)
        ensures
            r == self.capture,
    {
        self.capture
    }
}

} // verus!
