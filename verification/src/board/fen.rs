//! Reading a [BoardConfiguration] from a FEN-style record: six
//! whitespace-separated fields for the piece grid, the side to move, the
//! castling rights, the en passant square, and the two clocks.

use vstd::prelude::*;

use crate::board::board_config::{
    blank_mailbox, blank_mailbox_seq, BoardConfiguration, CastlingAvailability,
};
use crate::board::piece::Piece;
use crate::board::piece_type::PieceType;
use crate::board::player_color::PlayerColor;
use crate::board::square::Square;
use crate::parse::coordinates::{
    digit_val, digits_value, is_digit_char, is_u8_number, is_ws_char, parse_square_str,
    spec_square_of, square_shape, str_chars,
};
use crate::parse::parse_piece_type::{fen_piece_letter, fen_piece_letter_of};

verus! {

/// An error returned when a FEN-style record cannot be read.
#[derive(Debug, PartialEq, Eq, Clone)]
pub enum InvalidFENError {
    /// The record is missing the field with the given index.
    MissingFENSection(u8, String),
    /// The piece grid has too few ranks.
    TooFewRanks(String),
    /// The piece grid has too many ranks.
    TooManyRanks(String),
    /// A rank of the grid covers fewer than 8 files.
    TooFewFiles(u8, u8, String),
    /// A rank of the grid covers more than 8 files.
    TooManyFiles(u8, u8, String),
    /// The grid holds a character that names no piece.
    InvalidPieceCharacter(char, String),
    /// The active-color field is neither w nor b.
    InvalidTurnCharacter(String),
    /// The castling field holds a character outside K, Q, k, q and -.
    InvalidCastlingCharacter(char, String),
    /// The en passant field is neither - nor a square.
    InvalidEnPassantTargetSquare(String),
    /// The halfmove-clock field is not a number of the clock's type.
    InvalidHalfMoveClock(String),
    /// The fullmove-number field is not a number of the clock's type.
    InvalidFullMoveNumber(String),
}

/// The whitespace-separated tokens of `s`, reading from index `i` with the
/// token `cur` in progress and the tokens `acc` already taken.
pub open spec fn spec_tokens(s: Seq<char>, i: int, cur: Seq<char>, acc: Seq<Seq<char>>) -> Seq<
    Seq<char>,
>
    decreases s.len() - i,
{
    if i >= s.len() || i < 0 {
        if cur.len() > 0 {
            acc.push(cur)
        } else {
            acc
        }
    } else if is_ws_char(s[i]) {
        if cur.len() > 0 {
            spec_tokens(s, i + 1, Seq::empty(), acc.push(cur))
        } else {
            spec_tokens(s, i + 1, Seq::empty(), acc)
        }
    } else {
        spec_tokens(s, i + 1, cur.push(s[i]), acc)
    }
}

/// The whitespace-separated fields of a record.
pub open spec fn spec_fields(s: Seq<char>) -> Seq<Seq<char>> {
    spec_tokens(s, 0, Seq::empty(), Seq::empty())
}

/// The mailbox described by the piece grid, reading from index `i` at the
/// given rank and file: a piece letter fills a square, a digit skips that
/// many files, and a slash closes a rank, which must cover exactly eight
/// files. The grid walks ranks from the top (Black's back rank) down.
pub open spec fn spec_grid(
    s: Seq<char>,
    i: int,
    rank: int,
    file: int,
    mb: Seq<Option<Piece>>,
) -> Option<Seq<Option<Piece>>>
    decreases s.len() - i,
{
    if i >= s.len() || i < 0 {
        if rank == 0 && file == 8 {
            Some(mb)
        } else {
            None
        }
    } else {
        let c = s[i];
        if c == '/' {
            if file == 8 && rank > 0 {
                spec_grid(s, i + 1, rank - 1, 0, mb)
            } else {
                None
            }
        } else if is_digit_char(c) {
            if file + digit_val(c) > 8 {
                None
            } else {
                spec_grid(s, i + 1, rank, file + digit_val(c), mb)
            }
        } else {
            match fen_piece_letter(c) {
                Some(pt) => {
                    if file >= 8 {
                        None
                    } else {
                        let color = if 'A' <= c && c <= 'Z' {
                            PlayerColor::White
                        } else {
                            PlayerColor::Black
                        };
                        spec_grid(
                            s,
                            i + 1,
                            rank,
                            file + 1,
                            mb.update(rank * 8 + file, Some(Piece { piece_type: pt, color })),
                        )
                    }
                },
                None => None,
            }
        }
    }
}

/// The castling rights named by the castling field, folded one character at
/// a time over `acc`: K, Q, k and q grant a right, a dash grants nothing,
/// anything else fails.
pub open spec fn spec_castling(s: Seq<char>, i: int, acc: CastlingAvailability) -> Option<
    CastlingAvailability,
>
    decreases s.len() - i,
{
    if i >= s.len() || i < 0 {
        Some(acc)
    } else if s[i] == 'K' {
        spec_castling(s, i + 1, CastlingAvailability { white_castle_kingside: true, ..acc })
    } else if s[i] == 'Q' {
        spec_castling(s, i + 1, CastlingAvailability { white_castle_queenside: true, ..acc })
    } else if s[i] == 'k' {
        spec_castling(s, i + 1, CastlingAvailability { black_castle_kingside: true, ..acc })
    } else if s[i] == 'q' {
        spec_castling(s, i + 1, CastlingAvailability { black_castle_queenside: true, ..acc })
    } else if s[i] == '-' {
        spec_castling(s, i + 1, acc)
    } else {
        None
    }
}

/// The castling rights with nothing granted.
pub open spec fn no_castling() -> CastlingAvailability {
    CastlingAvailability {
        white_castle_kingside: false,
        white_castle_queenside: false,
        black_castle_kingside: false,
        black_castle_queenside: false,
    }
}

/// What a whole FEN record describes, or nothing when any field fails: the
/// mailbox, the side to move, the castling rights, the en passant square,
/// and the two clocks. Fields beyond the sixth are ignored.
pub open spec fn spec_parse_fen(s: Seq<char>) -> Option<
    (Seq<Option<Piece>>, PlayerColor, CastlingAvailability, Option<Square>, u8, u8),
> {
    let flds = spec_fields(s);
    if flds.len() < 6 {
        None
    } else {
        let mb = spec_grid(flds[0], 0, 7, 0, blank_mailbox_seq());
        let turn = if flds[1].len() == 1 && flds[1][0] == 'w' {
            Some(PlayerColor::White)
        } else if flds[1].len() == 1 && flds[1][0] == 'b' {
            Some(PlayerColor::Black)
        } else {
            None
        };
        let castling = spec_castling(flds[2], 0, no_castling());
        let ep: Option<Option<Square>> = if flds[3].len() == 1 && flds[3][0] == '-' {
            Some(None)
        } else if (exists|letters: int| square_shape(flds[3], letters)) && spec_square_of(
            flds[3],
        ) is Ok {
            Some(Some(spec_square_of(flds[3])->Ok_0))
        } else {
            None
        };
        let half = if is_u8_number(flds[4]) {
            Some(digits_value(flds[4], flds[4].len() as int) as u8)
        } else {
            None
        };
        let full = if is_u8_number(flds[5]) {
            Some(digits_value(flds[5], flds[5].len() as int) as u8)
        } else {
            None
        };
        if mb is Some && turn is Some && castling is Some && ep is Some && half is Some && full
            is Some {
            Some((mb->0, turn->0, castling->0, ep->0, half->0, full->0))
        } else {
            None
        }
    }
}

/// Splits a record into its whitespace-separated fields.
fn split_fields<'a>(s: &'a str) -> (r: Vec<&'a str>)
    ensures
        r@.len() == spec_fields(s@).len(),
        forall|k: int| 0 <= k < r@.len() ==> (#[trigger] r@[k])@ == spec_fields(s@)[k],
{
    let chars = str_chars(s);
    let n = chars.len();
    let mut fields: Vec<&'a str> = Vec::new();
    let ghost mut acc: Seq<Seq<char>> = Seq::empty();
    let mut i: usize = 0;
    let mut start: usize = 0;
    let mut in_tok = false;
    while i < n
        invariant
            i <= n,
            n == s@.len(),
            chars@ == s@,
            in_tok ==> start < i,
            !in_tok ==> start <= i,
            fields@.len() == acc.len(),
            forall|k: int| 0 <= k < acc.len() ==> (#[trigger] fields@[k])@ == acc[k],
            spec_fields(s@) == spec_tokens(
                s@,
                i as int,
                if in_tok {
                    s@.subrange(start as int, i as int)
                } else {
                    Seq::empty()
                },
                acc,
            ),
        decreases n - i,
    {
        let c = chars[i];
        let ws = c == ' ' || c == '\t' || c == '\n' || c == '\r';
        if ws {
            if in_tok {
                let tok = s.substring_char(start, i);
                proof {
                    assert(tok@ =~= s@.subrange(start as int, i as int));
                    acc = acc.push(tok@);
                }
                fields.push(tok);
                in_tok = false;
            }
            proof {
                assert(Seq::<char>::empty().len() == 0);
            }
        } else {
            if !in_tok {
                start = i;
                in_tok = true;
                proof {
                    assert(s@.subrange(start as int, i as int + 1) =~= Seq::empty().push(s@[i as int]));
                }
            } else {
                proof {
                    assert(s@.subrange(start as int, i as int + 1) =~= s@.subrange(
                        start as int,
                        i as int,
                    ).push(s@[i as int]));
                }
            }
        }
        i = i + 1;
    }
    if in_tok {
        let tok = s.substring_char(start, n);
        proof {
            assert(tok@ =~= s@.subrange(start as int, n as int));
            acc = acc.push(tok@);
        }
        fields.push(tok);
    }
    fields
}

/// Parses the piece-grid field of a FEN record into a mailbox.
fn parse_grid(field: &str, whole: &str) -> (r: Result<Vec<Option<Piece>>, InvalidFENError>)
    ensures
        (match spec_grid(field@, 0, 7, 0, blank_mailbox_seq()) {
            Some(mb) => r is Ok && r->Ok_0@ == mb,
            None => r is Err,
        }),
        r is Ok ==> r->Ok_0@.len() == 64,
{
    let chars = str_chars(field);
    let n = chars.len();
    let mut mb = blank_mailbox();
    let mut rank: u8 = 7;
    let mut file: u8 = 0;
    let mut i: usize = 0;
    while i < n
        invariant
            i <= n,
            n == field@.len(),
            chars@ == field@,
            rank <= 7,
            file <= 8,
            mb@.len() == 64,
            spec_grid(field@, 0, 7, 0, blank_mailbox_seq()) == spec_grid(
                field@,
                i as int,
                rank as int,
                file as int,
                mb@,
            ),
        decreases n - i,
    {
        let c = chars[i];
        if c == '/' {
            if file == 8 && rank > 0 {
                rank = rank - 1;
                file = 0;
            } else if rank == 0 {
                return Err(InvalidFENError::TooManyRanks(String::from_str(whole)));
            } else {
                return Err(InvalidFENError::TooFewFiles(rank, file, String::from_str(whole)));
            }
        } else if '0' <= c && c <= '9' {
            let d: u8 = ((c as u32) - 48) as u8;
            proof {
                assert(d as int == digit_val(c));
            }
            if file + d > 8 {
                return Err(InvalidFENError::TooManyFiles(rank, file, String::from_str(whole)));
            }
            file = file + d;
        } else {
            match fen_piece_letter_of(c) {
                Some(pt) => {
                    if file >= 8 {
                        return Err(
                            InvalidFENError::TooManyFiles(rank, file, String::from_str(whole)),
                        );
                    }
                    let color = if 'A' <= c && c <= 'Z' {
                        PlayerColor::White
                    } else {
                        PlayerColor::Black
                    };
                    let idx: usize = (rank as usize) * 8 + (file as usize);
                    mb.set(idx, Some(Piece { piece_type: pt, color }));
                    file = file + 1;
                },
                None => {
                    return Err(InvalidFENError::InvalidPieceCharacter(c, String::from_str(whole)));
                },
            }
        }
        i = i + 1;
    }
    if rank == 0 && file == 8 {
        Ok(mb)
    } else if rank > 0 {
        Err(InvalidFENError::TooFewRanks(String::from_str(whole)))
    } else {
        Err(InvalidFENError::TooFewFiles(rank, file, String::from_str(whole)))
    }
}

/// Parses the castling field of a FEN record.
pub fn parse_castling_availability(field: &str) -> (r: Result<
    CastlingAvailability,
    InvalidFENError,
>)
    ensures
        (match spec_castling(field@, 0, no_castling()) {
            Some(avail) => r == Ok::<CastlingAvailability, InvalidFENError>(avail),
            None => r is Err,
        }),
{
    let chars = str_chars(field);
    let n = chars.len();
    let mut avail = CastlingAvailability::new(false, false, false, false);
    let mut i: usize = 0;
    while i < n
        invariant
            i <= n,
            n == field@.len(),
            chars@ == field@,
            spec_castling(field@, 0, no_castling()) == spec_castling(field@, i as int, avail),
        decreases n - i,
    {
        let c = chars[i];
        if c == 'K' {
            avail.white_castle_kingside = true;
        } else if c == 'Q' {
            avail.white_castle_queenside = true;
        } else if c == 'k' {
            avail.black_castle_kingside = true;
        } else if c == 'q' {
            avail.black_castle_queenside = true;
        } else if c == '-' {
        } else {
            return Err(InvalidFENError::InvalidCastlingCharacter(c, String::from_str(field)));
        }
        i = i + 1;
    }
    Ok(avail)
}

/// Parses a clock field: a plain number of the clock's type.
fn parse_clock(field: &str) -> (r: Option<u8>)
    ensures
        is_u8_number(field@) ==> r == Some(digits_value(field@, field@.len() as int) as u8),
        !is_u8_number(field@) ==> r is None,
{
    let chars = str_chars(field);
    let n = chars.len();
    if n == 0 {
        return None;
    }
    let mut value: u32 = 0;
    let mut i: usize = 0;
    while i < n
        invariant
            i <= n,
            n == field@.len(),
            n > 0,
            chars@ == field@,
            forall|j: int| 0 <= j < i as int ==> is_digit_char(#[trigger] field@[j]),
            value as int == digits_value(field@, i as int),
            value <= 255,
        decreases n - i,
    {
        let c = chars[i];
        if !('0' <= c && c <= '9') {
            proof {
                assert(!is_digit_char(field@[i as int]));
            }
            return None;
        }
        let d: u32 = (c as u32) - 48;
        proof {
            assert(d as int == digit_val(c));
        }
        value = value * 10 + d;
        proof {
            assert(value as int == digits_value(field@, i as int + 1));
        }
        if value > 255 {
            proof {
                if forall|j: int| 0 <= j < field@.len() ==> is_digit_char(#[trigger] field@[j]) {
                    crate::parse::coordinates::lemma_digits_le(field@, i as int + 1, n as int);
                }
            }
            return None;
        }
        i = i + 1;
    }
    Some(value as u8)
}

impl BoardConfiguration {
    /// Reads a configuration from a FEN-style record: the piece grid, the
    /// side to move, the castling rights, the en passant target square, and
    /// the two clocks, separated by whitespace.
    pub fn from_fen(s: &str) -> (r: Result<BoardConfiguration, InvalidFENError>)
        ensures
            (match spec_parse_fen(s@) {
                Some(t) => {
                    &&& r is Ok
                    &&& r->Ok_0.wf()
                    &&& r->Ok_0.pieces@ == t.0
                    &&& r->Ok_0.active_color == t.1
                    &&& r->Ok_0.castling_availability == t.2
                    &&& r->Ok_0.en_passant_target_square == t.3
                    &&& r->Ok_0.halfmove_clock == t.4
                    &&& r->Ok_0.fullmove_number == t.5
                },
                None => r is Err,
            }),
    {
        let fields = split_fields(s);
        if fields.len() < 6 {
            let missing: u8 = fields.len() as u8;
            return Err(InvalidFENError::MissingFENSection(missing, String::from_str(s)));
        }
        let pieces = match parse_grid(fields[0], s) {
            Ok(mb) => mb,
            Err(e) => {
                return Err(e);
            },
        };
        let turn_chars = str_chars(fields[1]);
        let active_color = if turn_chars.len() == 1 && turn_chars[0] == 'w' {
            PlayerColor::White
        } else if turn_chars.len() == 1 && turn_chars[0] == 'b' {
            PlayerColor::Black
        } else {
            return Err(InvalidFENError::InvalidTurnCharacter(String::from_str(s)));
        };
        let castling_availability = match parse_castling_availability(fields[2]) {
            Ok(avail) => avail,
            Err(e) => {
                return Err(e);
            },
        };
        let ep_chars = str_chars(fields[3]);
        let en_passant_target_square: Option<Square> = if ep_chars.len() == 1 && ep_chars[0]
            == '-' {
            None
        } else {
            match parse_square_str(fields[3]) {
                Ok(sq) => Some(sq),
                Err(_) => {
                    return Err(
                        InvalidFENError::InvalidEnPassantTargetSquare(String::from_str(s)),
                    );
                },
            }
        };
        let halfmove_clock = match parse_clock(fields[4]) {
            Some(v) => v,
            None => {
                return Err(InvalidFENError::InvalidHalfMoveClock(String::from_str(s)));
            },
        };
        let fullmove_number = match parse_clock(fields[5]) {
            Some(v) => v,
            None => {
                return Err(InvalidFENError::InvalidFullMoveNumber(String::from_str(s)));
            },
        };
        Ok(
            BoardConfiguration {
                pieces,
                active_color,
                castling_availability,
                en_passant_target_square,
                halfmove_clock,
                fullmove_number,
            },
        )
    }
}

impl core::str::FromStr for BoardConfiguration {
    type Err = InvalidFENError;

    /// See [BoardConfiguration::from_fen].
    fn from_str(s: &str) -> Result<Self, Self::Err> {
        BoardConfiguration::from_fen(s)
    }
}

impl core::str::FromStr for CastlingAvailability {
    type Err = InvalidFENError;

    /// See [parse_castling_availability].
    fn from_str(s: &str) -> Result<Self, Self::Err> {
        parse_castling_availability(s)
    }
}

} // verus!
