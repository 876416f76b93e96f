//! Parsing a piece type from its letter.

use vstd::prelude::*;

use crate::board::piece_type::PieceType;
use crate::parse::coordinates::str_chars;
use crate::parse::error::NotationParseError;

verus! {

/// The piece type named by a FEN or notation letter, in either case. Here,
/// unlike in move commands, p and P name a pawn.
pub open spec fn fen_piece_letter(c: char) -> Option<PieceType> {
    if c == 'n' || c == 'N' {
        Some(PieceType::Knight)
    } else if c == 'b' || c == 'B' {
        Some(PieceType::Bishop)
    } else if c == 'r' || c == 'R' {
        Some(PieceType::Rook)
    } else if c == 'q' || c == 'Q' {
        Some(PieceType::Queen)
    } else if c == 'k' || c == 'K' {
        Some(PieceType::King)
    } else if c == 'p' || c == 'P' {
        Some(PieceType::Pawn)
    } else {
        None
    }
}

/// The exec twin of [fen_piece_letter].
pub fn fen_piece_letter_of(c: char) -> (r: Option<PieceType>)
    ensures
        r == fen_piece_letter(c),
{
    if c == 'n' || c == 'N' {
        Some(PieceType::Knight)
    } else if c == 'b' || c == 'B' {
        Some(PieceType::Bishop)
    } else if c == 'r' || c == 'R' {
        Some(PieceType::Rook)
    } else if c == 'q' || c == 'Q' {
        Some(PieceType::Queen)
    } else if c == 'k' || c == 'K' {
        Some(PieceType::King)
    } else if c == 'p' || c == 'P' {
        Some(PieceType::Pawn)
    } else {
        None
    }
}

/// Parses a piece type from the first character of the string: the empty
/// string names a pawn, as an unmarked move command does.
pub fn parse_piece_type(s: &str) -> (r: Result<PieceType, NotationParseError>)
    ensures
        s@.len() == 0 ==> r == Ok::<PieceType, NotationParseError>(PieceType::Pawn),
        s@.len() > 0 ==> r == (match fen_piece_letter(s@[0]) {
            Some(t) => Ok::<PieceType, NotationParseError>(t),
            None => Err::<PieceType, NotationParseError>(
                NotationParseError::InvalidPieceCharacter(s@[0]),
            ),
        }),
{
    let chars = str_chars(s);
    if chars.len() == 0 {
        return Ok(PieceType::Pawn);
    }
    match fen_piece_letter_of(chars[0]) {
        Some(t) => Ok(t),
        None => Err(NotationParseError::InvalidPieceCharacter(chars[0])),
    }
}

} // verus!
