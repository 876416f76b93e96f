//! The [Piece] type: a piece kind together with its owner's color.

use vstd::prelude::*;

use crate::board::piece_type::PieceType;
use crate::board::player_color::PlayerColor;

verus! {

/// Represents one of the player's pieces: the piece type and the owner color.
#[derive(Debug, PartialEq, Eq, Structural, Hash, Clone, Copy)]
pub struct Piece {
    /// The kind of the piece.
    pub piece_type: PieceType,
    /// The color of the side owning the piece.
    pub color: PlayerColor,
}

impl Piece {
    /// Creates a new piece of the given color and type.
    pub fn new(color: PlayerColor, piece_type: PieceType) -> (p: Piece)
        ensures
            p == (Piece { piece_type, color }),
    {
        Piece { piece_type, color }
    }

    /// Gets the type of the piece.
    pub fn piece_type(&self) -> (r: PieceType)
        ensures
            r == self.piece_type,
    {
        self.piece_type
    }

    /// Gets the color of the piece.
    pub fn color(&self) -> (r: PlayerColor)
        ensures
            r == self.color,
    {
        self.color
    }
}

} // verus!
