//! Rendering a board as text, one bracketed cell per square, the way a
//! terminal front end prints it.

use vstd::prelude::*;

use crate::board::board_core::Board;
use crate::board::piece::Piece;
use crate::board::piece_type::PieceType;
use crate::board::player_color::PlayerColor;
use crate::board::square::Square;

verus! {

/// The one-letter FEN-style name of a piece: white pieces in upper case,
/// black pieces in lower case.
pub fn piece_symbol(piece: &Piece) -> (r: &'static str) {
    match (piece.color, piece.piece_type) {
        (PlayerColor::White, PieceType::Pawn) => "P",
        (PlayerColor::White, PieceType::Bishop) => "B",
        (PlayerColor::White, PieceType::Knight) => "N",
        (PlayerColor::White, PieceType::Rook) => "R",
        (PlayerColor::White, PieceType::Queen) => "Q",
        (PlayerColor::White, PieceType::King) => "K",
        (PlayerColor::Black, PieceType::Pawn) => "p",
        (PlayerColor::Black, PieceType::Bishop) => "b",
        (PlayerColor::Black, PieceType::Knight) => "n",
        (PlayerColor::Black, PieceType::Rook) => "r",
        (PlayerColor::Black, PieceType::Queen) => "q",
        (PlayerColor::Black, PieceType::King) => "k",
    }
}

impl Board {
    /// Renders the board as the text grid a terminal front end prints: a
    /// file header, then the ranks from Black's side down, each square as
    /// a bracketed cell.
    pub fn board_string(&self) -> String
        requires
            self.wf(),
    {
        let mut out = String::from_str("   a  b  c  d  e  f  g  h \n");
        let mut rank: u8 = 8;
        while rank > 0
            invariant
                rank <= 8,
                self.wf(),
            decreases rank,
        {
            let r = rank - 1;
            let prefix = match r {
                7u8 => "8 ",
                6u8 => "7 ",
                5u8 => "6 ",
                4u8 => "5 ",
                3u8 => "4 ",
                2u8 => "3 ",
                1u8 => "2 ",
                _ => "1 ",
            };
            out.append(prefix);
            let mut file: u8 = 0;
            while file < 8
                invariant
                    file <= 8,
                    r < 8,
                    self.wf(),
                decreases 8 - file,
            {
                out.append("[");
                match self.piece_at(&Square::new(r, file)) {
                    Some(piece) => {
                        out.append(piece_symbol(&piece));
                    },
                    None => {
                        out.append(" ");
                    },
                }
                out.append("]");
                file = file + 1;
            }
            out.append("\n");
            rank = rank - 1;
        }
        out
    }
}

} // verus!
