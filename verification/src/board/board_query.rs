//! The [BoardQuery] builder: a chainable filter over the board's bitboards.

use vstd::prelude::*;

use crate::bitboard::{bit_set, Bitboard, OutOfBoundsError};
use crate::board::board_core::Board;
use crate::board::piece_type::PieceType;
use crate::board::player_color::PlayerColor;
use crate::board::square::Square;

verus! {

/// A query in progress over a board: holds the board being queried and the
/// running result, which starts as the mask of all occupied squares and is
/// narrowed by each filter.
pub struct BoardQuery<'a, T> {
    /// The board being queried.
    pub board: &'a Board,
    /// The result that this query will return.
    pub result: T,
}

impl<'a, T> BoardQuery<'a, T> {
    /// Finishes the query and hands out its result.
    pub fn result(self) -> (r: T)
        ensures
            r == self.result,
    {
        self.result
    }
}

impl<'a> BoardQuery<'a, Bitboard> {
    /// Narrows the running mask to the pieces of the given color.
    pub fn color(self, color: PlayerColor) -> (r: Self)
        ensures
            r.board == self.board,
            r.result.0 == self.result.0 & self.board.color_bits(color),
    {
        let piece_color_mask = self.board.color_pieces(color);
        BoardQuery { result: Bitboard(self.result.0 & piece_color_mask.0), board: self.board }
    }

    /// Narrows the running mask to the pieces of the given type, of either
    /// color; chain with [BoardQuery::color] for one color's pieces.
    pub fn piece_type(self, piece_type: PieceType) -> (r: Self)
        ensures
            r.board == self.board,
            r.result.0 == self.result.0 & self.board.type_bits(piece_type),
    {
        let piece_type_mask = self.board.type_pieces(piece_type);
        BoardQuery { result: Bitboard(self.result.0 & piece_type_mask.0), board: self.board }
    }

    /// Finishes the mask into a yes-or-no answer for one square: whether
    /// the running mask covers it. An out-of-bounds square is an error.
    pub fn piece_at(self, at: Square) -> (r: Result<BoardQuery<'a, bool>, OutOfBoundsError>)
        ensures
            at.in_bounds() ==> r is Ok && r->Ok_0.board == self.board && r->Ok_0.result == bit_set(
                self.result.0,
                at.sq_index(),
            ),
            !at.in_bounds() ==> r is Err,
    {
        match Bitboard::coords_to_index(at) {
            Ok(bit_index) => Ok(
                BoardQuery { result: self.result.is_bit_set(bit_index), board: self.board },
            ),
            Err(e) => Err(e),
        }
    }

    /// Same as [Self::piece_at] but requires the square to be in bounds; a
    /// caller that breaks the contract panics at the inner unwrap.
    pub fn piece_at_unchecked(self, at: Square) -> (r: BoardQuery<'a, bool>)
        requires
            at.in_bounds(),
        ensures
            r.board == self.board,
            r.result == bit_set(self.result.0, at.sq_index()),
    {
        self.piece_at(at).unwrap()
    }
}

impl Board {
    /// Starts a new query; with no filter applied the running mask holds
    /// every occupied square.
    pub fn query(&self) -> (r: BoardQuery<'_, Bitboard>)
        ensures
            r.board == self,
            r.result.0 == self.white_pieces.0 | self.black_pieces.0,
    {
        let mask_of_all_pieces = Bitboard(self.white_pieces.0 | self.black_pieces.0);
        BoardQuery { board: self, result: mask_of_all_pieces }
    }
}

} // verus!
