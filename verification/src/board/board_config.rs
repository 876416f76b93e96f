//! Board configurations: the FEN-equivalent record of a position, castling
//! rights, the side to move, and the two clocks.

use vstd::prelude::*;

use crate::board::chess_move::Move;
use crate::board::piece::Piece;
use crate::board::piece_type::PieceType;
use crate::board::player_color::PlayerColor;
use crate::board::square::Square;

verus! {

/// A mailbox of 64 entries, one per square, all empty.
pub open spec fn blank_mailbox_seq() -> Seq<Option<Piece>> {
    Seq::new(64, |i: int| None::<Piece>)
}

/// Builds the empty 64-entry mailbox.
pub fn blank_mailbox() -> (r: Vec<Option<Piece>>)
    ensures
        r@ == blank_mailbox_seq(),
{
    let mut v: Vec<Option<Piece>> = Vec::new();
    let mut i: u8 = 0;
    while i < 64
        invariant
            i <= 64,
            v@.len() == i as int,
            forall|j: int| 0 <= j < i as int ==> v@[j] is None,
        decreases 64 - i,
    {
        v.push(None);
        i = i + 1;
    }
    proof {
        assert(v@ =~= blank_mailbox_seq());
    }
    v
}

/// The occupant of the square with mask index `i` in the standard starting
/// arrangement: the classic back ranks and a row of pawns for each side.
pub open spec fn standard_piece_at(i: int) -> Option<Piece> {
    let rank = i / 8;
    let file = i % 8;
    if rank == 1 {
        Some(Piece { piece_type: PieceType::Pawn, color: PlayerColor::White })
    } else if rank == 6 {
        Some(Piece { piece_type: PieceType::Pawn, color: PlayerColor::Black })
    } else if rank == 0 || rank == 7 {
        let color = if rank == 0 {
            PlayerColor::White
        } else {
            PlayerColor::Black
        };
        let piece_type = if file == 0 || file == 7 {
            PieceType::Rook
        } else if file == 1 || file == 6 {
            PieceType::Knight
        } else if file == 2 || file == 5 {
            PieceType::Bishop
        } else if file == 3 {
            PieceType::Queen
        } else {
            PieceType::King
        };
        Some(Piece { piece_type, color })
    } else {
        None
    }
}

/// The 64-entry mailbox of the standard starting arrangement.
pub open spec fn standard_mailbox_seq() -> Seq<Option<Piece>> {
    Seq::new(64, |i: int| standard_piece_at(i))
}

/// Builds the standard starting mailbox: 32 pieces in the classic layout.
pub fn standard_mailbox() -> (r: Vec<Option<Piece>>)
    ensures
        r@ == standard_mailbox_seq(),
{
    let mut v: Vec<Option<Piece>> = Vec::new();
    let mut i: u8 = 0;
    while i < 64
        invariant
            i <= 64,
            v@.len() == i as int,
            forall|j: int| 0 <= j < i as int ==> v@[j] == standard_piece_at(j),
        decreases 64 - i,
    {
        let rank = i / 8;
        let file = i % 8;
        let entry: Option<Piece> = if rank == 1 {
            Some(Piece { piece_type: PieceType::Pawn, color: PlayerColor::White })
        } else if rank == 6 {
            Some(Piece { piece_type: PieceType::Pawn, color: PlayerColor::Black })
        } else if rank == 0 || rank == 7 {
            let color = if rank == 0 {
                PlayerColor::White
            } else {
                PlayerColor::Black
            };
            let piece_type = if file == 0 || file == 7 {
                PieceType::Rook
            } else if file == 1 || file == 6 {
                PieceType::Knight
            } else if file == 2 || file == 5 {
                PieceType::Bishop
            } else if file == 3 {
                PieceType::Queen
            } else {
                PieceType::King
            };
            Some(Piece { piece_type, color })
        } else {
            None
        };
        v.push(entry);
        i = i + 1;
    }
    proof {
        assert(v@ =~= standard_mailbox_seq());
    }
    v
}

/// Records who may still castle, and on which side.
///
/// Castling is available only while the king and the rook on the side in
/// question have not moved; these four flags carry that information the way a
/// FEN record does, since the board keeps no move history.
#[derive(Debug, PartialEq, Eq, Structural, Clone, Copy)]
pub struct CastlingAvailability {
    /// Can the white player castle kingside?
    pub white_castle_kingside: bool,
    /// Can the white player castle queenside?
    pub white_castle_queenside: bool,
    /// Can the black player castle kingside?
    pub black_castle_kingside: bool,
    /// Can the black player castle queenside?
    pub black_castle_queenside: bool,
}

impl CastlingAvailability {
    /// Returns a new [CastlingAvailability] with the four flags as given.
    pub fn new(
        white_castle_kingside: bool,
        white_castle_queenside: bool,
        black_castle_kingside: bool,
        black_castle_queenside: bool,
    ) -> (r: Self)
        ensures
            r == (CastlingAvailability {
                white_castle_kingside,
                white_castle_queenside,
                black_castle_kingside,
                black_castle_queenside,
            }),
    {
        CastlingAvailability {
            white_castle_kingside,
            white_castle_queenside,
            black_castle_kingside,
            black_castle_queenside,
        }
    }

    /// Can the white player castle kingside?
    pub fn white_castle_kingside(&self) -> (r: bool)
        ensures
            r == self.white_castle_kingside,
    {
        self.white_castle_kingside
    }

    /// Can the white player castle queenside?
    pub fn white_castle_queenside(&self) -> (r: bool)
        ensures
            r == self.white_castle_queenside,
    {
        self.white_castle_queenside
    }

    /// Can the black player castle kingside?
    pub fn black_castle_kingside(&self) -> (r: bool)
        ensures
            r == self.black_castle_kingside,
    {
        self.black_castle_kingside
    }

    /// Can the black player castle queenside?
    pub fn black_castle_queenside(&self) -> (r: bool)
        ensures
            r == self.black_castle_queenside,
    {
        self.black_castle_queenside
    }

    /// The rights left after the given side plays the given move: a castle
    /// revokes both of the mover's rights; a move from a king or rook home
    /// square revokes the rights that depended on that square, and a capture
    /// onto a rook home square revokes the right on that side.
    pub open spec fn spec_updated_with_move(self, color: PlayerColor, m: Move) -> Self {
        match m {
            Move::Castle(_) => match color {
                PlayerColor::White => CastlingAvailability {
                    white_castle_kingside: false,
                    white_castle_queenside: false,
                    ..self
                },
                PlayerColor::Black => CastlingAvailability {
                    black_castle_kingside: false,
                    black_castle_queenside: false,
                    ..self
                },
            },
            Move::NormalMove(d) => {
                let s = d.starting_square;
                let t = d.target_square;
                CastlingAvailability {
                    white_castle_kingside: self.white_castle_kingside && !(s == (Square {
                        rank: 0,
                        file: 4,
                    }) || s == (Square { rank: 0, file: 7 }) || t == (Square { rank: 0, file: 7 })),
                    white_castle_queenside: self.white_castle_queenside && !(s == (Square {
                        rank: 0,
                        file: 4,
                    }) || s == (Square { rank: 0, file: 0 }) || t == (Square { rank: 0, file: 0 })),
                    black_castle_kingside: self.black_castle_kingside && !(s == (Square {
                        rank: 7,
                        file: 4,
                    }) || s == (Square { rank: 7, file: 7 }) || t == (Square { rank: 7, file: 7 })),
                    black_castle_queenside: self.black_castle_queenside && !(s == (Square {
                        rank: 7,
                        file: 4,
                    }) || s == (Square { rank: 7, file: 0 }) || t == (Square { rank: 7, file: 0 })),
                }
            },
        }
    }

    /// Revokes whatever rights the given move costs the given side.
    pub fn update_with_move(&mut self, color: PlayerColor, m: &Move)
        ensures
            *final(self) == old(self).spec_updated_with_move(color, *m),
    {
        match m {
            Move::Castle(_) => {
                match color {
                    PlayerColor::White => {
                        self.white_castle_kingside = false;
                        self.white_castle_queenside = false;
                    },
                    PlayerColor::Black => {
                        self.black_castle_kingside = false;
                        self.black_castle_queenside = false;
                    },
                }
            },
            Move::NormalMove(d) => {
                let s = d.starting_square;
                let t = d.target_square;
                if (s.rank == 0 && s.file == 4) || (s.rank == 0 && s.file == 7) || (t.rank == 0
                    && t.file == 7) {
                    self.white_castle_kingside = false;
                }
                if (s.rank == 0 && s.file == 4) || (s.rank == 0 && s.file == 0) || (t.rank == 0
                    && t.file == 0) {
                    self.white_castle_queenside = false;
                }
                if (s.rank == 7 && s.file == 4) || (s.rank == 7 && s.file == 7) || (t.rank == 7
                    && t.file == 7) {
                    self.black_castle_kingside = false;
                }
                if (s.rank == 7 && s.file == 4) || (s.rank == 7 && s.file == 0) || (t.rank == 7
                    && t.file == 0) {
                    self.black_castle_queenside = false;
                }
            },
        }
    }
}

/// A specified arrangement of pieces plus the rest of a FEN record: the side
/// to move, castling rights, the en passant target square, and the two
/// clocks. The pieces are a 64-entry mailbox indexed by `rank * 8 + file`.
#[derive(Debug, PartialEq, Eq, Clone)]
pub struct BoardConfiguration {
    /// What stands on each square; entry `rank * 8 + file` is the square's
    /// occupant, if any.
    pub pieces: Vec<Option<Piece>>,
    /// Whose turn it is.
    pub active_color: PlayerColor,
    /// Which players can still castle, and on which side.
    pub castling_availability: CastlingAvailability,
    /// The square a pawn may capture onto en passant, if any.
    pub en_passant_target_square: Option<Square>,
    /// Half-moves since the last capture or pawn advance.
    pub halfmove_clock: u8,
    /// Full moves played; starts at 1 and increments after Black's move.
    pub fullmove_number: u8,
}

impl BoardConfiguration {
    /// The mailbox holds exactly one entry for each of the 64 squares.
    pub open spec fn wf(self) -> bool {
        self.pieces@.len() == 64
    }

    /// Creates a new configuration with every field as given.
    pub fn new(
        pieces: Vec<Option<Piece>>,
        active_color: PlayerColor,
        castling_availability: CastlingAvailability,
        en_passant_target_square: Option<Square>,
        halfmove_clock: u8,
        fullmove_number: u8,
    ) -> (r: Self)
        requires
            pieces@.len() == 64,
        ensures
            r == (BoardConfiguration {
                pieces,
                active_color,
                castling_availability,
                en_passant_target_square,
                halfmove_clock,
                fullmove_number,
            }),
            r.wf(),
    {
        BoardConfiguration {
            pieces,
            active_color,
            castling_availability,
            en_passant_target_square,
            halfmove_clock,
            fullmove_number,
        }
    }

    /// Gets the mailbox of pieces.
    pub fn get_pieces(&self) -> (r: &Vec<Option<Piece>>)
        ensures
            r@ == self.pieces@,
    {
        &self.pieces
    }

    /// Whose turn it is.
    pub fn active_color(&self) -> (r: PlayerColor)
        ensures
            r == self.active_color,
    {
        self.active_color
    }

    /// Which players can still castle, and on which side.
    pub fn castling_availability(&self) -> (r: CastlingAvailability)
        ensures
            r == self.castling_availability,
    {
        self.castling_availability
    }

    /// The en passant target square, if any.
    pub fn en_passant_target_square(&self) -> (r: Option<Square>)
        ensures
            r == self.en_passant_target_square,
    {
        self.en_passant_target_square
    }

    /// Half-moves since the last capture or pawn advance.
    pub fn halfmove_clock(&self) -> (r: u8)
        ensures
            r == self.halfmove_clock,
    {
        self.halfmove_clock
    }

    /// Full moves played.
    pub fn fullmove_number(&self) -> (r: u8)
        ensures
            r == self.fullmove_number,
    {
        self.fullmove_number
    }
}

impl Default for BoardConfiguration {
    /// The standard chess starting configuration: the classic arrangement
    /// of 32 pieces, White to move, full castling rights, fresh clocks.
    fn default() -> (r: Self)
        ensures
            r.pieces@ == standard_mailbox_seq(),
            r.active_color == PlayerColor::White,
            r.castling_availability == (CastlingAvailability {
                white_castle_kingside: true,
                white_castle_queenside: true,
                black_castle_kingside: true,
                black_castle_queenside: true,
            }),
            r.en_passant_target_square is None,
            r.halfmove_clock == 0,
            r.fullmove_number == 1,
            r.wf(),
    {
        BoardConfiguration {
            pieces: standard_mailbox(),
            active_color: PlayerColor::White,
            castling_availability: CastlingAvailability::new(true, true, true, true),
            en_passant_target_square: None,
            halfmove_clock: 0,
            fullmove_number: 1,
        }
    }
}

/// A builder for [BoardConfiguration]: every field is optional and falls back
/// to its documented default when [BoardConfigurationBuilder::build] is
/// called.
#[derive(Debug, Clone)]
pub struct BoardConfigurationBuilder {
    /// The mailbox of pieces, if one was given.
    pub pieces: Option<Vec<Option<Piece>>>,
    /// The side to move, if given; defaults to White.
    pub active_color: Option<PlayerColor>,
    /// The castling rights, if given; defaults to all four available.
    pub castling_availability: Option<CastlingAvailability>,
    /// The en passant target square; defaults to none.
    pub en_passant_target_square: Option<Square>,
    /// The halfmove clock, if given; defaults to 0.
    pub halfmove_clock: Option<u8>,
    /// The fullmove number, if given; defaults to 1.
    pub fullmove_number: Option<u8>,
}

impl Default for BoardConfigurationBuilder {
    /// A builder with nothing set: building it gives a blank board with
    /// White to move.
    fn default() -> (r: Self)
        ensures
            r == (BoardConfigurationBuilder {
                pieces: None::<Vec<Option<Piece>>>,
                active_color: None::<PlayerColor>,
                castling_availability: None::<CastlingAvailability>,
                en_passant_target_square: None::<Square>,
                halfmove_clock: None::<u8>,
                fullmove_number: None::<u8>,
            }),
    {
        BoardConfigurationBuilder {
            pieces: None,
            active_color: None,
            castling_availability: None,
            en_passant_target_square: None,
            halfmove_clock: None,
            fullmove_number: None,
        }
    }
}

impl BoardConfigurationBuilder {
    /// Replaces the board's pieces with the given 64-entry mailbox.
    pub fn set_pieces(self, pieces: Vec<Option<Piece>>) -> (r: Self)
        requires
            pieces@.len() == 64,
        ensures
            r == (BoardConfigurationBuilder { pieces: Some(pieces), ..self }),
    {
        BoardConfigurationBuilder { pieces: Some(pieces), ..self }
    }

    /// Adds one piece on the given square, replacing whatever stood there.
    pub fn add_piece(self, piece: Piece, square: Square) -> (r: Self)
        requires
            square.in_bounds(),
            self.pieces is Some ==> self.pieces->0@.len() == 64,
        ensures
            r.pieces is Some,
            r.pieces->0@ == (match self.pieces {
                Some(v) => v@,
                None => blank_mailbox_seq(),
            }).update(square.sq_index(), Some(piece)),
            r == (BoardConfigurationBuilder { pieces: r.pieces, ..self }),
    {
        let mut mailbox: Vec<Option<Piece>> = match self.pieces {
            Some(v) => v,
            None => blank_mailbox(),
        };
        let idx: usize = (square.rank as usize) * 8 + (square.file as usize);
        mailbox.set(idx, Some(piece));
        BoardConfigurationBuilder { pieces: Some(mailbox), ..self }
    }

    /// Sets the active player's turn.
    pub fn set_active_color(self, color: PlayerColor) -> (r: Self)
        ensures
            r == (BoardConfigurationBuilder { active_color: Some(color), ..self }),
    {
        BoardConfigurationBuilder { active_color: Some(color), ..self }
    }

    /// Sets which directions are available for each player to castle in.
    pub fn set_castling_availability(self, castling_availability: CastlingAvailability) -> (r: Self)
        ensures
            r == (BoardConfigurationBuilder {
                castling_availability: Some(castling_availability),
                ..self
            }),
    {
        BoardConfigurationBuilder { castling_availability: Some(castling_availability), ..self }
    }

    /// Sets the en passant target square.
    pub fn set_en_passant_target_square(self, square: Square) -> (r: Self)
        ensures
            r == (BoardConfigurationBuilder { en_passant_target_square: Some(square), ..self }),
    {
        BoardConfigurationBuilder { en_passant_target_square: Some(square), ..self }
    }

    /// Sets the halfmove clock.
    pub fn set_halfmove_clock(self, halfmove_clock: u8) -> (r: Self)
        ensures
            r == (BoardConfigurationBuilder { halfmove_clock: Some(halfmove_clock), ..self }),
    {
        BoardConfigurationBuilder { halfmove_clock: Some(halfmove_clock), ..self }
    }

    /// Sets the fullmove number.
    pub fn set_fullmove_number(self, fullmove_number: u8) -> (r: Self)
        ensures
            r == (BoardConfigurationBuilder { fullmove_number: Some(fullmove_number), ..self }),
    {
        BoardConfigurationBuilder { fullmove_number: Some(fullmove_number), ..self }
    }

    /// Builds the configuration, filling every unset field with its default.
    pub fn build(self) -> (r: BoardConfiguration)
        requires
            self.pieces is Some ==> self.pieces->0@.len() == 64,
        ensures
            r.pieces@ == (match self.pieces {
                Some(v) => v@,
                None => blank_mailbox_seq(),
            }),
            r.active_color == (match self.active_color {
                Some(c) => c,
                None => PlayerColor::White,
            }),
            r.castling_availability == (match self.castling_availability {
                Some(c) => c,
                None => CastlingAvailability {
                    white_castle_kingside: true,
                    white_castle_queenside: true,
                    black_castle_kingside: true,
                    black_castle_queenside: true,
                },
            }),
            r.en_passant_target_square == self.en_passant_target_square,
            r.halfmove_clock == (match self.halfmove_clock {
                Some(c) => c,
                None => 0u8,
            }),
            r.fullmove_number == (match self.fullmove_number {
                Some(c) => c,
                None => 1u8,
            }),
            r.wf(),
    {
        let pieces: Vec<Option<Piece>> = match self.pieces {
            Some(v) => v,
            None => blank_mailbox(),
        };
        let active_color = match self.active_color {
            Some(c) => c,
            None => PlayerColor::White,
        };
        let castling_availability = match self.castling_availability {
            Some(c) => c,
            None => CastlingAvailability::new(true, true, true, true),
        };
        let halfmove_clock = match self.halfmove_clock {
            Some(c) => c,
            None => 0,
        };
        let fullmove_number = match self.fullmove_number {
            Some(c) => c,
            None => 1,
        };
        BoardConfiguration {
            pieces,
            active_color,
            castling_availability,
            en_passant_target_square: self.en_passant_target_square,
            halfmove_clock,
            fullmove_number,
        }
    }
}

} // verus!
