//! The [PieceType] type: the six chess piece kinds.

use vstd::prelude::*;

verus! {

/// One of the six valid chess piece types.
#[derive(Debug, PartialEq, Eq, Structural, Hash, Clone, Copy)]
pub enum PieceType {
    /// A pawn piece.
    Pawn,
    /// A knight piece.
    Knight,
    /// A bishop piece.
    Bishop,
    /// A rook piece.
    Rook,
    /// A queen piece.
    Queen,
    /// A king piece.
    King,
}

} // verus!
