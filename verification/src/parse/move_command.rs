//! The [MoveCommand] type: a parsed move, one-to-one with its notation.

use vstd::prelude::*;

use crate::board::line::Line;
use crate::board::piece_type::PieceType;
use crate::board::square::Square;
use crate::parse::coordinates::{digit_val, is_digit_char, str_chars};
use crate::parse::error::NotationParseError;

verus! {

/// The zero-based file named by a file letter a-h, in either case.
pub open spec fn file_letter_val(c: char) -> Option<u8> {
    if 'a' <= c && c <= 'h' {
        Some(((c as int) - ('a' as int)) as u8)
    } else if 'A' <= c && c <= 'H' {
        Some(((c as int) - ('A' as int)) as u8)
    } else {
        None
    }
}

/// The piece type named by a move-command letter, in either case. Pawns
/// have no letter in move commands.
pub open spec fn piece_letter(c: char) -> Option<PieceType> {
    if c == 'n' || c == 'N' {
        Some(PieceType::Knight)
    } else if c == 'b' || c == 'B' {
        Some(PieceType::Bishop)
    } else if c == 'r' || c == 'R' {
        Some(PieceType::Rook)
    } else if c == 'q' || c == 'Q' {
        Some(PieceType::Queen)
    } else if c == 'k' || c == 'K' {
        Some(PieceType::King)
    } else {
        None
    }
}

/// How a normal move command reads, from the right: the last two characters
/// name the destination square, an optional x before them marks a capture,
/// an optional leading piece letter names the mover (a pawn otherwise), and
/// whatever lies between is the discriminant: a file letter, a rank digit,
/// or both. Anything else, a zero rank digit included, fails.
pub open spec fn spec_move_command_data(s: Seq<char>) -> Option<MoveCommandData> {
    if s.len() < 2 {
        None
    } else {
        let fc = s[s.len() - 2];
        let rc = s[s.len() - 1];
        if file_letter_val(fc) is None || !is_digit_char(rc) {
            None
        } else if digit_val(rc) == 0 {
            None
        } else {
            let target = Square {
                rank: (digit_val(rc) - 1) as u8,
                file: file_letter_val(fc)->0,
            };
            let rest0 = s.len() - 2;
            let capture = rest0 > 0 && (s[rest0 - 1] == 'x' || s[rest0 - 1] == 'X');
            let rest = if capture {
                rest0 - 1
            } else {
                rest0
            };
            let has_piece = rest > 0 && piece_letter(s[0]) is Some;
            let pt = if has_piece {
                piece_letter(s[0])->0
            } else {
                PieceType::Pawn
            };
            let ds: int = if has_piece {
                1
            } else {
                0
            };
            let dlen = rest - ds;
            if dlen == 0 {
                Some(
                    MoveCommandData {
                        piece_type: pt,
                        discriminant: None,
                        capture,
                        target_square: target,
                    },
                )
            } else if dlen == 1 {
                if file_letter_val(s[ds]) is Some {
                    Some(
                        MoveCommandData {
                            piece_type: pt,
                            discriminant: Some(Line::File(file_letter_val(s[ds])->0)),
                            capture,
                            target_square: target,
                        },
                    )
                } else if is_digit_char(s[ds]) && digit_val(s[ds]) >= 1 {
                    Some(
                        MoveCommandData {
                            piece_type: pt,
                            discriminant: Some(Line::Rank((digit_val(s[ds]) - 1) as u8)),
                            capture,
                            target_square: target,
                        },
                    )
                } else {
                    None
                }
            } else if dlen == 2 {
                if file_letter_val(s[ds]) is Some && is_digit_char(s[ds + 1]) && digit_val(
                    s[ds + 1],
                ) >= 1 {
                    Some(
                        MoveCommandData {
                            piece_type: pt,
                            discriminant: Some(
                                Line::RankAndFile(
                                    (digit_val(s[ds + 1]) - 1) as u8,
                                    file_letter_val(s[ds])->0,
                                ),
                            ),
                            capture,
                            target_square: target,
                        },
                    )
                } else {
                    None
                }
            } else {
                None
            }
        }
    }
}

/// The string is exactly a kingside castle, in one of its two spellings.
pub open spec fn is_kingside_notation(s: Seq<char>) -> bool {
    s.len() == 3 && ((s[0] == 'o' && s[1] == '-' && s[2] == 'o') || (s[0] == 'O' && s[1] == '-'
        && s[2] == 'O'))
}

/// The string is exactly a queenside castle, in one of its two spellings.
pub open spec fn is_queenside_notation(s: Seq<char>) -> bool {
    s.len() == 5 && ((s[0] == 'o' && s[1] == '-' && s[2] == 'o' && s[3] == '-' && s[4] == 'o') || (
    s[0] == 'O' && s[1] == '-' && s[2] == 'O' && s[3] == '-' && s[4] == 'O'))
}

/// Parses a normal move command: an optional piece letter, an optional
/// discriminant, an optional x for a capture, and the destination square.
pub fn parse_move_command_data(s: &str) -> (r: Result<MoveCommandData, NotationParseError>)
    ensures
        (match spec_move_command_data(s@) {
            Some(mcd) => r == Ok::<MoveCommandData, NotationParseError>(mcd),
            None => r is Err,
        }),
{
    let chars = str_chars(s);
    let n = chars.len();
    if n < 2 {
        return Err(NotationParseError::InvalidFormat(String::from_str(s)));
    }
    let fc = chars[n - 2];
    let rc = chars[n - 1];
    let file = match file_letter(fc) {
        Some(f) => f,
        None => {
            return Err(NotationParseError::InvalidFormat(String::from_str(s)));
        },
    };
    if !('0' <= rc && rc <= '9') {
        return Err(NotationParseError::InvalidFormat(String::from_str(s)));
    }
    if rc == '0' {
        return Err(NotationParseError::ZeroRankIndex);
    }
    let rank: u8 = ((rc as u32) - 49) as u8;
    let target = Square::new(rank, file);
    proof {
        assert(rank as int == digit_val(s@[s@.len() - 1]) - 1);
    }
    let mut rest: usize = n - 2;
    let mut capture = false;
    if rest > 0 && (chars[rest - 1] == 'x' || chars[rest - 1] == 'X') {
        capture = true;
        rest = rest - 1;
    }
    let mut ds: usize = 0;
    let mut piece_type = PieceType::Pawn;
    if rest > 0 {
        match piece_letter_of(chars[0]) {
            Some(pt) => {
                piece_type = pt;
                ds = 1;
            },
            None => {},
        }
    }
    if rest < ds {
        return Err(NotationParseError::InvalidFormat(String::from_str(s)));
    }
    let dlen = rest - ds;
    let discriminant: Option<Line> = if dlen == 0 {
        None
    } else if dlen == 1 {
        let c = chars[ds];
        match file_letter(c) {
            Some(f) => Some(Line::File(f)),
            None => {
                if '1' <= c && c <= '9' {
                    Some(Line::Rank(((c as u32) - 49) as u8))
                } else if c == '0' {
                    return Err(NotationParseError::ZeroRankIndex);
                } else {
                    return Err(NotationParseError::InvalidFormat(String::from_str(s)));
                }
            },
        }
    } else if dlen == 2 {
        let cf = chars[ds];
        let cr = chars[ds + 1];
        match file_letter(cf) {
            Some(f) => {
                if '1' <= cr && cr <= '9' {
                    Some(Line::RankAndFile(((cr as u32) - 49) as u8, f))
                } else if cr == '0' {
                    return Err(NotationParseError::ZeroRankIndex);
                } else {
                    return Err(NotationParseError::InvalidFormat(String::from_str(s)));
                }
            },
            None => {
                return Err(NotationParseError::InvalidFormat(String::from_str(s)));
            },
        }
    } else {
        return Err(NotationParseError::InvalidFormat(String::from_str(s)));
    };
    Ok(MoveCommandData { piece_type, discriminant, capture, target_square: target })
}

/// The zero-based file of a file letter a-h in either case, if it is one.
fn file_letter(c: char) -> (r: Option<u8>)
    ensures
        r == file_letter_val(c),
{
    if 'a' <= c && c <= 'h' {
        Some(((c as u32) - 97) as u8)
    } else if 'A' <= c && c <= 'H' {
        Some(((c as u32) - 65) as u8)
    } else {
        None
    }
}

/// The piece type of a move-command letter, if it is one.
fn piece_letter_of(c: char) -> (r: Option<PieceType>)
    ensures
        r == piece_letter(c),
{
    if c == 'n' || c == 'N' {
        Some(PieceType::Knight)
    } else if c == 'b' || c == 'B' {
        Some(PieceType::Bishop)
    } else if c == 'r' || c == 'R' {
        Some(PieceType::Rook)
    } else if c == 'q' || c == 'Q' {
        Some(PieceType::Queen)
    } else if c == 'k' || c == 'K' {
        Some(PieceType::King)
    } else {
        None
    }
}

/// Parses a move command: one of the two castle notations, or a normal
/// move.
pub fn parse_move_command(s: &str) -> (r: Result<MoveCommand, NotationParseError>)
    ensures
        is_kingside_notation(s@) ==> r == Ok::<MoveCommand, NotationParseError>(
            MoveCommand::KingsideCastle,
        ),
        is_queenside_notation(s@) ==> r == Ok::<MoveCommand, NotationParseError>(
            MoveCommand::QueensideCastle,
        ),
        !is_kingside_notation(s@) && !is_queenside_notation(s@) ==> (
        match spec_move_command_data(s@) {
            Some(mcd) => r == Ok::<MoveCommand, NotationParseError>(MoveCommand::NormalMove(mcd)),
            None => r is Err,
        }),
{
    let chars = str_chars(s);
    let n = chars.len();
    if n == 3 && ((chars[0] == 'o' && chars[1] == '-' && chars[2] == 'o') || (chars[0] == 'O'
        && chars[1] == '-' && chars[2] == 'O')) {
        return Ok(MoveCommand::KingsideCastle);
    }
    if n == 5 && ((chars[0] == 'o' && chars[1] == '-' && chars[2] == 'o' && chars[3] == '-'
        && chars[4] == 'o') || (chars[0] == 'O' && chars[1] == '-' && chars[2] == 'O' && chars[3]
        == '-' && chars[4] == 'O')) {
        return Ok(MoveCommand::QueensideCastle);
    }
    proof {
        assert(!is_kingside_notation(s@));
        assert(!is_queenside_notation(s@));
    }
    match parse_move_command_data(s) {
        Ok(mcd) => Ok(MoveCommand::NormalMove(mcd)),
        Err(e) => Err(e),
    }
}

/// Represents a parsed move from algebraic notation.
///
/// The contained move is grammatically sound but has not been checked
/// against any board: it may be impossible or illegal there.
#[derive(Debug, PartialEq, Eq, Structural, Clone, Copy)]
pub enum MoveCommand {
    /// A "normal" chess move: any move that is not a castle.
    NormalMove(MoveCommandData),
    /// A kingside castle (notated as O-O).
    KingsideCastle,
    /// A queenside castle (notated as O-O-O).
    QueensideCastle,
}

impl MoveCommand {
    /// Returns true when this move is not a castle.
    pub fn is_normal_move(&self) -> (r: bool)
        ensures
            r == (self is NormalMove),
    {
        match self {
            MoveCommand::NormalMove(_) => true,
            MoveCommand::KingsideCastle => false,
            MoveCommand::QueensideCastle => false,
        }
    }

    /// Returns true if this move is a castling move.
    pub fn is_castle(&self) -> (r: bool)
        ensures
            r == !(self is NormalMove),
    {
        match self {
            MoveCommand::NormalMove(_) => false,
            MoveCommand::KingsideCastle => true,
            MoveCommand::QueensideCastle => true,
        }
    }

    /// Returns true if this move is a kingside castle.
    pub fn is_kingside_castle(&self) -> (r: bool)
        ensures
            r == (self is KingsideCastle),
    {
        match self {
            MoveCommand::NormalMove(_) => false,
            MoveCommand::QueensideCastle => false,
            MoveCommand::KingsideCastle => true,
        }
    }

    /// Returns true if this move is a queenside castle.
    pub fn is_queenside_castle(&self) -> (r: bool)
        ensures
            r == (self is QueensideCastle),
    {
        match self {
            MoveCommand::NormalMove(_) => false,
            MoveCommand::KingsideCastle => false,
            MoveCommand::QueensideCastle => true,
        }
    }

    /// Returns the payload of a normal move, or `None` for a castle.
    pub fn get_move_data(&self) -> (r: Option<MoveCommandData>)
        ensures
            r == (match *self {
                MoveCommand::NormalMove(x) => Some(x),
                _ => None::<MoveCommandData>,
            }),
    {
        match self {
            MoveCommand::NormalMove(x) => Some(*x),
            MoveCommand::KingsideCastle => None,
            MoveCommand::QueensideCastle => None,
        }
    }
}

/// The information carried by a normal algebraically notated move: the piece
/// type, an optional discriminant, whether it captures, and the destination.
#[derive(Debug, PartialEq, Eq, Structural, Clone, Copy)]
pub struct MoveCommandData {
    /// What piece type is being moved; a pawn when no letter was given.
    pub piece_type: PieceType,
    /// An optional filter naming which of several identical pieces moves.
    pub discriminant: Option<Line>,
    /// Whether or not this move is a capture.
    pub capture: bool,
    /// The destination square.
    pub target_square: Square,
}

impl MoveCommandData {
    /// What piece type is being moved.
    pub fn piece_type(&self) -> (r: PieceType)
        ensures
            r == self.piece_type,
    {
        self.piece_type
    }

    /// The discriminant, if the notation carried one.
    pub fn discriminant(&self) -> (r: Option<Line>)
        ensures
            r == self.discriminant,
    {
        self.discriminant
    }

    /// Whether or not this move is a capture.
    pub fn capture(&self) -> (r: bool)
        ensures
            r == self.capture,
    {
        self.capture
    }

    /// The destination square.
    pub fn target_square(&self) -> (r: Square)
        ensures
            r == self.target_square,
    {
        self.target_square
    }
}

} // verus!
