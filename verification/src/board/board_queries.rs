//! Queries for the pieces of a given color or type, as bitboards.

use vstd::prelude::*;

use crate::bitboard::Bitboard;
use crate::board::board_core::Board;
use crate::board::piece_type::PieceType;
use crate::board::player_color::PlayerColor;

verus! {

impl Board {
    /// Gets all the pieces of a specific color as one bitboard.
    pub fn color_pieces(&self, color: PlayerColor) -> (r: Bitboard)
        ensures
            r.0 == self.color_bits(color),
    {
        match color {
            PlayerColor::White => self.white_pieces,
            PlayerColor::Black => self.black_pieces,
        }
    }

    /// Gets all the pieces of a specific type, of either color, as one
    /// bitboard.
    pub fn type_pieces(&self, piece_type: PieceType) -> (r: Bitboard)
        ensures
            r.0 == self.type_bits(piece_type),
    {
        match piece_type {
            PieceType::Pawn => self.pawn_pieces,
            PieceType::Bishop => self.bishop_pieces,
            PieceType::Knight => self.knight_pieces,
            PieceType::Rook => self.rook_pieces,
            PieceType::Queen => self.queen_pieces,
            PieceType::King => self.king_pieces,
        }
    }

    /// Gets all the pieces of a specific type and color as one bitboard.
    pub fn color_type_pieces(&self, color: PlayerColor, piece_type: PieceType) -> (r: Bitboard)
        ensures
            r.0 == self.color_bits(color) & self.type_bits(piece_type),
    {
        let c = self.color_pieces(color);
        let t = self.type_pieces(piece_type);
        Bitboard(c.0 & t.0)
    }

    /// Gets the bitboard of the pieces of a specific color; same as
    /// [Self::color_pieces].
    pub fn pieces_of_color(&self, color: PlayerColor) -> (r: Bitboard)
        ensures
            r.0 == self.color_bits(color),
    {
        self.color_pieces(color)
    }

    /// Gets the bitboard of the pieces of a specific type; same as
    /// [Self::type_pieces].
    pub fn pieces_of_type(&self, piece_type: PieceType) -> (r: Bitboard)
        ensures
            r.0 == self.type_bits(piece_type),
    {
        self.type_pieces(piece_type)
    }

    /// Borrows the bitboard of the given color mutably. Writing through the
    /// result can break the board's well-formedness; it is meant for code
    /// that re-establishes it, the way [Board::add_piece] does.
    pub fn pieces_of_color_as_mut(&mut self, color: PlayerColor) -> (r: &mut Bitboard)
        ensures
            *r == (match color {
                PlayerColor::White => old(self).white_pieces,
                PlayerColor::Black => old(self).black_pieces,
            }),
            *final(self) == (match color {
                PlayerColor::White => (Board { white_pieces: *final(r), ..*old(self) }),
                PlayerColor::Black => (Board { black_pieces: *final(r), ..*old(self) }),
            }),
    {
        match color {
            PlayerColor::White => &mut self.white_pieces,
            PlayerColor::Black => &mut self.black_pieces,
        }
    }

    /// Borrows the bitboard of the given piece type mutably. Writing through
    /// the result can break the board's well-formedness; it is meant for
    /// code that re-establishes it.
    pub fn pieces_of_type_as_mut(&mut self, piece_type: PieceType) -> (r: &mut Bitboard)
        ensures
            *r == (match piece_type {
                PieceType::Pawn => old(self).pawn_pieces,
                PieceType::Rook => old(self).rook_pieces,
                PieceType::King => old(self).king_pieces,
                PieceType::Queen => old(self).queen_pieces,
                PieceType::Knight => old(self).knight_pieces,
                PieceType::Bishop => old(self).bishop_pieces,
            }),
            *final(self) == (match piece_type {
                PieceType::Pawn => (Board { pawn_pieces: *final(r), ..*old(self) }),
                PieceType::Rook => (Board { rook_pieces: *final(r), ..*old(self) }),
                PieceType::King => (Board { king_pieces: *final(r), ..*old(self) }),
                PieceType::Queen => (Board { queen_pieces: *final(r), ..*old(self) }),
                PieceType::Knight => (Board { knight_pieces: *final(r), ..*old(self) }),
                PieceType::Bishop => (Board { bishop_pieces: *final(r), ..*old(self) }),
            }),
    {
        match piece_type {
            PieceType::Pawn => &mut self.pawn_pieces,
            PieceType::Rook => &mut self.rook_pieces,
            PieceType::King => &mut self.king_pieces,
            PieceType::Queen => &mut self.queen_pieces,
            PieceType::Knight => &mut self.knight_pieces,
            PieceType::Bishop => &mut self.bishop_pieces,
        }
    }
}

} // verus!
