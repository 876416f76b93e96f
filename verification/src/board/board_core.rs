//! The [Board] type: the mailbox of pieces, the seven redundant bitboards,
//! and the game metadata, together with the primitive writers that keep the
//! two representations consistent.

use vstd::prelude::*;

use crate::bitboard::{bit_set, square_mask, Bitboard};
use crate::board::board_config::{blank_mailbox, BoardConfiguration, CastlingAvailability};
use crate::board::chess_move::{CastlingDirection, Move};
use crate::board::piece::Piece;
use crate::board::piece_type::PieceType;
use crate::board::player_color::PlayerColor;
use crate::board::square::{square_of_index, Square};

verus! {

/// The mathematical content of a board: what stands where, whose turn it is,
/// the castling rights, the en passant square and the two clocks. The
/// bitboards of a well-formed [Board] are determined by this model.
pub ghost struct BoardModel {
    /// Entry `rank * 8 + file` is the occupant of that square, if any.
    pub mailbox: Seq<Option<Piece>>,
    /// Whose turn it is.
    pub active_color: PlayerColor,
    /// Which players can still castle, and on which side.
    pub castling_availability: CastlingAvailability,
    /// The en passant target square, if any.
    pub en_passant_target_square: Option<Square>,
    /// Half-moves since the last capture or pawn advance.
    pub halfmove_clock: u8,
    /// Full moves played.
    pub fullmove_number: u8,
}

impl BoardModel {
    /// The mailbox has one entry per square.
    pub open spec fn wf(self) -> bool {
        self.mailbox.len() == 64
    }

    /// The occupant of the square with mask index `i`.
    pub open spec fn at(self, i: int) -> Option<Piece> {
        self.mailbox[i]
    }

    /// Whether the square with index `i` holds any piece.
    pub open spec fn occupied(self, i: int) -> bool {
        0 <= i < 64 && self.mailbox[i] is Some
    }

    /// Whether the square with index `i` holds a piece of color `c`.
    pub open spec fn color_at(self, i: int, c: PlayerColor) -> bool {
        self.occupied(i) && self.mailbox[i]->0.color == c
    }

    /// Whether the square with index `i` holds the piece `(c, t)`.
    pub open spec fn piece_at_is(self, i: int, c: PlayerColor, t: PieceType) -> bool {
        self.occupied(i) && self.mailbox[i]->0.color == c && self.mailbox[i]->0.piece_type == t
    }

    /// The occupant of a square, `None` when the square is out of bounds.
    pub open spec fn piece_on(self, square: Square) -> Option<Piece> {
        if square.in_bounds() {
            self.mailbox[square.sq_index()]
        } else {
            None
        }
    }
}

/// The piece placement of a board: the mailbox and the raw bits of the seven
/// bitboards, without the game metadata.
pub ghost struct Placement {
    /// Entry `rank * 8 + file` is the occupant of that square, if any.
    pub mailbox: Seq<Option<Piece>>,
    /// The bits of the white-pieces bitboard.
    pub white: u64,
    /// The bits of the black-pieces bitboard.
    pub black: u64,
    /// The bits of the pawn bitboard.
    pub pawn: u64,
    /// The bits of the knight bitboard.
    pub knight: u64,
    /// The bits of the bishop bitboard.
    pub bishop: u64,
    /// The bits of the rook bitboard.
    pub rook: u64,
    /// The bits of the queen bitboard.
    pub queen: u64,
    /// The bits of the king bitboard.
    pub king: u64,
}

/// Each bitboard bit at index `i` is set exactly when the mailbox holds a
/// piece of the matching color or type on that square.
pub open spec fn placement_square_ok(pl: Placement, i: int) -> bool {
    let here = pl.mailbox[i];
    &&& bit_set(pl.white, i) == (here is Some && here->0.color is White)
    &&& bit_set(pl.black, i) == (here is Some && here->0.color is Black)
    &&& bit_set(pl.pawn, i) == (here is Some && here->0.piece_type is Pawn)
    &&& bit_set(pl.knight, i) == (here is Some && here->0.piece_type is Knight)
    &&& bit_set(pl.bishop, i) == (here is Some && here->0.piece_type is Bishop)
    &&& bit_set(pl.rook, i) == (here is Some && here->0.piece_type is Rook)
    &&& bit_set(pl.queen, i) == (here is Some && here->0.piece_type is Queen)
    &&& bit_set(pl.king, i) == (here is Some && here->0.piece_type is King)
}

/// A given board state.
///
/// A board holds a certain arrangement of pieces on the 8x8 chessboard, in
/// two mutually consistent forms: the piece mailbox (the source of truth) and
/// seven derived bitboards, one per color and one per piece type. Boards are
/// logically immutable: every public mutation returns a new board. The fields
/// are public so that contracts can speak about them; use the constructors
/// and [Board::attempt_move] to obtain well-formed boards.
#[derive(Debug, Clone)]
pub struct Board {
    /// What piece, if any, is on each square; entry `rank * 8 + file`.
    pub piece_mailbox: Vec<Option<Piece>>,
    /// All white pieces.
    pub white_pieces: Bitboard,
    /// All black pieces.
    pub black_pieces: Bitboard,
    /// All kings of either color.
    pub king_pieces: Bitboard,
    /// All queens of either color.
    pub queen_pieces: Bitboard,
    /// All rooks of either color.
    pub rook_pieces: Bitboard,
    /// All knights of either color.
    pub knight_pieces: Bitboard,
    /// All bishops of either color.
    pub bishop_pieces: Bitboard,
    /// All pawns of either color.
    pub pawn_pieces: Bitboard,
    /// Whose turn it is.
    pub active_color: PlayerColor,
    /// Which players can still castle, and on which side.
    pub castling_availability: CastlingAvailability,
    /// The en passant target square, if any.
    pub en_passant_target_square: Option<Square>,
    /// Half-moves since the last capture or pawn advance; saturates at 255.
    pub halfmove_clock: u8,
    /// Full moves played; increments after Black's move and saturates at 255.
    pub fullmove_number: u8,
}

/// One more than `x`, capped at 255.
pub open spec fn sat_inc(x: u8) -> u8 {
    if x == 255 {
        255u8
    } else {
        (x + 1) as u8
    }
}

/// One more than `x`, capped at the counter type's ceiling.
pub open spec fn sat_inc_usize(x: usize) -> usize {
    if x == usize::MAX {
        x
    } else {
        (x + 1) as usize
    }
}

/// The model of the board reached by playing `m`: the touched mailbox
/// entries move, the clocks advance, castling rights are revoked, and the
/// turn passes to the opponent. Everything else is unchanged.
pub open spec fn spec_move_result(model: BoardModel, m: Move) -> BoardModel {
    let half = match m {
        Move::Castle(_) => sat_inc(model.halfmove_clock),
        Move::NormalMove(d) => {
            let piece = model.at(d.starting_square.sq_index())->0;
            if piece.piece_type is Pawn || d.capture {
                0u8
            } else {
                sat_inc(model.halfmove_clock)
            }
        },
    };
    let mailbox = match m {
        Move::Castle(dir) => {
            let rank: int = if model.active_color is White {
                0
            } else {
                7
            };
            let king_to: int = if dir is Kingside {
                6
            } else {
                2
            };
            let rook_from: int = if dir is Kingside {
                7
            } else {
                0
            };
            let rook_to: int = if dir is Kingside {
                5
            } else {
                3
            };
            let king = model.at(rank * 8 + 4)->0;
            let rook = model.at(rank * 8 + rook_from)->0;
            model.mailbox.update(rank * 8 + 4, None).update(rank * 8 + rook_from, None).update(
                rank * 8 + king_to,
                Some(king),
            ).update(rank * 8 + rook_to, Some(rook))
        },
        Move::NormalMove(d) => {
            let piece = model.at(d.starting_square.sq_index())->0;
            model.mailbox.update(d.starting_square.sq_index(), None).update(
                d.target_square.sq_index(),
                Some(piece),
            )
        },
    };
    BoardModel {
        mailbox,
        active_color: model.active_color.spec_not(),
        castling_availability: model.castling_availability.spec_updated_with_move(
            model.active_color,
            m,
        ),
        en_passant_target_square: model.en_passant_target_square,
        halfmove_clock: half,
        fullmove_number: if model.active_color is Black {
            sat_inc(model.fullmove_number)
        } else {
            model.fullmove_number
        },
    }
}

/// The mask indices of the squares that playing `m` touches: start and
/// target for a normal move, the king and rook squares for a castle.
pub open spec fn move_touches(model: BoardModel, m: Move, i: int) -> bool {
    match m {
        Move::NormalMove(d) => i == d.starting_square.sq_index() || i
            == d.target_square.sq_index(),
        Move::Castle(dir) => {
            let rank: int = if model.active_color is White {
                0
            } else {
                7
            };
            if dir is Kingside {
                i == rank * 8 + 4 || i == rank * 8 + 5 || i == rank * 8 + 6 || i == rank * 8 + 7
            } else {
                i == rank * 8 + 0 || i == rank * 8 + 2 || i == rank * 8 + 3 || i == rank * 8 + 4
            }
        },
    }
}

/// For every board model and move, only the squares touched by the move
/// change between the model and the model after the move; every other square
/// holds exactly the same occupant, and the en passant field is untouched.
pub proof fn lemma_move_changes_only_touched_squares(model: BoardModel, m: Move)
    requires
        model.wf(),
        move_applicable(model, m),
    ensures
        spec_move_result(model, m).mailbox.len() == 64,
        forall|i: int|
            0 <= i < 64 && !move_touches(model, m, i) ==> spec_move_result(model, m).mailbox[i]
                == model.mailbox[i],
        spec_move_result(model, m).en_passant_target_square == model.en_passant_target_square,
{
    assert forall|i: int| 0 <= i < 64 && !move_touches(model, m, i) implies spec_move_result(
        model,
        m,
    ).mailbox[i] == model.mailbox[i] by {
        match m {
            Move::NormalMove(d) => {
                assert(0 <= d.starting_square.sq_index() < 64);
                assert(0 <= d.target_square.sq_index() < 64);
            },
            Move::Castle(_) => {},
        }
    }
}

/// For every well-formed board, the union of the two color bitboards, the
/// union of the six type bitboards, and the occupied squares of the mailbox
/// all agree, and no square is set in more than one type bitboard.
pub proof fn lemma_bitboard_mailbox_consistency(b: Board)
    requires
        b.wf(),
    ensures
        forall|i: int|
            0 <= i < 64 ==> bit_set(b.white_pieces.0 | b.black_pieces.0, i) == #[trigger] b.model().occupied(i),
        forall|i: int|
            0 <= i < 64 ==> bit_set(
                b.pawn_pieces.0 | b.knight_pieces.0 | b.bishop_pieces.0 | b.rook_pieces.0
                    | b.queen_pieces.0 | b.king_pieces.0,
                i,
            ) == #[trigger] b.model().occupied(i),
        forall|t1: PieceType, t2: PieceType, i: int|
            0 <= i < 64 && t1 != t2 ==> !(#[trigger] bit_set(b.type_bits(t1), i)
                && #[trigger] bit_set(b.type_bits(t2), i)),
{
    broadcast use crate::bitboard::lemma_bit_or;

    assert forall|i: int| 0 <= i < 64 implies bit_set(b.white_pieces.0 | b.black_pieces.0, i)
        == #[trigger] b.model().occupied(i) by {
        assert(placement_square_ok(b.placement(), i));
    }
    assert forall|i: int| 0 <= i < 64 implies bit_set(
        b.pawn_pieces.0 | b.knight_pieces.0 | b.bishop_pieces.0 | b.rook_pieces.0
            | b.queen_pieces.0 | b.king_pieces.0,
        i,
    ) == #[trigger] b.model().occupied(i) by {
        assert(placement_square_ok(b.placement(), i));
    }
    assert forall|t1: PieceType, t2: PieceType, i: int|
        0 <= i < 64 && t1 != t2 implies !(#[trigger] bit_set(b.type_bits(t1), i)
        && #[trigger] bit_set(b.type_bits(t2), i)) by {
        assert(placement_square_ok(b.placement(), i));
    }
}

/// Whether `m` names squares that a move application can work with: the
/// moved piece exists and every touched square is on the board.
pub open spec fn move_applicable(model: BoardModel, m: Move) -> bool {
    match m {
        Move::NormalMove(d) => d.starting_square.in_bounds() && d.target_square.in_bounds()
            && model.at(d.starting_square.sq_index()) is Some,
        Move::Castle(dir) => {
            let rank: int = if model.active_color is White {
                0
            } else {
                7
            };
            let rook_from: int = if dir is Kingside {
                7
            } else {
                0
            };
            model.at(rank * 8 + 4) is Some && model.at(rank * 8 + rook_from) is Some
        },
    }
}

impl Board {
    /// The mathematical model of the board.
    pub open spec fn model(self) -> BoardModel {
        BoardModel {
            mailbox: self.piece_mailbox@,
            active_color: self.active_color,
            castling_availability: self.castling_availability,
            en_passant_target_square: self.en_passant_target_square,
            halfmove_clock: self.halfmove_clock,
            fullmove_number: self.fullmove_number,
        }
    }

    /// The bits of the bitboard holding all pieces of color `c`.
    pub open spec fn color_bits(self, c: PlayerColor) -> u64 {
        match c {
            PlayerColor::White => self.white_pieces.0,
            PlayerColor::Black => self.black_pieces.0,
        }
    }

    /// The bits of the bitboard holding all pieces of type `t`.
    pub open spec fn type_bits(self, t: PieceType) -> u64 {
        match t {
            PieceType::Pawn => self.pawn_pieces.0,
            PieceType::Knight => self.knight_pieces.0,
            PieceType::Bishop => self.bishop_pieces.0,
            PieceType::Rook => self.rook_pieces.0,
            PieceType::Queen => self.queen_pieces.0,
            PieceType::King => self.king_pieces.0,
        }
    }

    /// The piece placement of the board: the mailbox together with the bits
    /// of the seven bitboards, free of the game metadata.
    pub open spec fn placement(self) -> Placement {
        Placement {
            mailbox: self.piece_mailbox@,
            white: self.white_pieces.0,
            black: self.black_pieces.0,
            pawn: self.pawn_pieces.0,
            knight: self.knight_pieces.0,
            bishop: self.bishop_pieces.0,
            rook: self.rook_pieces.0,
            queen: self.queen_pieces.0,
            king: self.king_pieces.0,
        }
    }

    /// Each bitboard agrees with the mailbox on the square with index `i`.
    pub open spec fn square_ok(self, i: int) -> bool {
        placement_square_ok(self.placement(), i)
    }

    /// Well-formedness: the mailbox has one entry per square, and every
    /// bitboard mirrors the mailbox on every square.
    pub open spec fn wf(self) -> bool {
        &&& self.piece_mailbox@.len() == 64
        &&& forall|i: int| 0 <= i < 64 ==> #[trigger] placement_square_ok(self.placement(), i)
    }

    /// Whose turn it is.
    pub fn active_color(&self) -> (r: PlayerColor)
        ensures
            r == self.active_color,
    {
        self.active_color
    }

    /// Gets the piece located on a given square, or `None` when the square
    /// is empty or out of bounds.
    pub fn piece_at(&self, square: &Square) -> (r: Option<Piece>)
        requires
            self.wf(),
        ensures
            r == self.model().piece_on(*square),
    {
        if square.rank < 8 && square.file < 8 {
            let idx: usize = (square.rank as usize) * 8 + (square.file as usize);
            self.piece_mailbox[idx]
        } else {
            None
        }
    }

    /// Adds a piece onto the board in the given position, overwriting
    /// whatever stood there, and keeps mailbox and bitboards consistent.
    pub fn add_piece(&mut self, piece: Piece, position: &Square)
        requires
            old(self).wf(),
            position.in_bounds(),
        ensures
            final(self).wf(),
            final(self).model() == (BoardModel {
                mailbox: old(self).model().mailbox.update(position.sq_index(), Some(piece)),
                ..old(self).model()
            }),
    {
        let idx8: u8 = 8 * position.rank + position.file;
        let idx: usize = idx8 as usize;
        self.piece_mailbox.set(idx, Some(piece));
        let is_white = match piece.color {
            PlayerColor::White => true,
            PlayerColor::Black => false,
        };
        self.white_pieces = self.white_pieces.set_bit(idx8, is_white);
        self.black_pieces = self.black_pieces.set_bit(idx8, !is_white);
        self.pawn_pieces = self.pawn_pieces.set_bit(
            idx8,
            match piece.piece_type {
                PieceType::Pawn => true,
                _ => false,
            },
        );
        self.knight_pieces = self.knight_pieces.set_bit(
            idx8,
            match piece.piece_type {
                PieceType::Knight => true,
                _ => false,
            },
        );
        self.bishop_pieces = self.bishop_pieces.set_bit(
            idx8,
            match piece.piece_type {
                PieceType::Bishop => true,
                _ => false,
            },
        );
        self.rook_pieces = self.rook_pieces.set_bit(
            idx8,
            match piece.piece_type {
                PieceType::Rook => true,
                _ => false,
            },
        );
        self.queen_pieces = self.queen_pieces.set_bit(
            idx8,
            match piece.piece_type {
                PieceType::Queen => true,
                _ => false,
            },
        );
        self.king_pieces = self.king_pieces.set_bit(
            idx8,
            match piece.piece_type {
                PieceType::King => true,
                _ => false,
            },
        );
        proof {
            assert(final(self).model() =~= (BoardModel {
                mailbox: old(self).model().mailbox.update(position.sq_index(), Some(piece)),
                ..old(self).model()
            }));
            assert forall|i: int| 0 <= i < 64 implies placement_square_ok(
                final(self).placement(),
                i,
            ) by {
                assert(placement_square_ok(old(self).placement(), i));
            }
        }
    }

    /// Erases whatever piece, if any, stands on the given square, keeping
    /// mailbox and bitboards consistent, and returns the removed piece.
    pub fn remove_piece(&mut self, position: &Square) -> (r: Option<Piece>)
        requires
            old(self).wf(),
            position.in_bounds(),
        ensures
            final(self).wf(),
            r == old(self).model().at(position.sq_index()),
            final(self).model() == (BoardModel {
                mailbox: old(self).model().mailbox.update(position.sq_index(), None),
                ..old(self).model()
            }),
    {
        let idx8: u8 = 8 * position.rank + position.file;
        let idx: usize = idx8 as usize;
        let piece = self.piece_mailbox[idx];
        self.piece_mailbox.set(idx, None);
        self.white_pieces = self.white_pieces.set_bit(idx8, false);
        self.black_pieces = self.black_pieces.set_bit(idx8, false);
        self.pawn_pieces = self.pawn_pieces.set_bit(idx8, false);
        self.knight_pieces = self.knight_pieces.set_bit(idx8, false);
        self.bishop_pieces = self.bishop_pieces.set_bit(idx8, false);
        self.rook_pieces = self.rook_pieces.set_bit(idx8, false);
        self.queen_pieces = self.queen_pieces.set_bit(idx8, false);
        self.king_pieces = self.king_pieces.set_bit(idx8, false);
        proof {
            assert(final(self).model() =~= (BoardModel {
                mailbox: old(self).model().mailbox.update(position.sq_index(), None),
                ..old(self).model()
            }));
            assert forall|i: int| 0 <= i < 64 implies placement_square_ok(
                final(self).placement(),
                i,
            ) by {
                assert(placement_square_ok(old(self).placement(), i));
            }
        }
        piece
    }

    /// Allows creation of a new board with a custom configuration: the
    /// board's model is exactly the configuration's content.
    pub fn new_board_with_configuration(board_configuration: &BoardConfiguration) -> (r: Self)
        requires
            board_configuration.wf(),
        ensures
            r.wf(),
            r.model() == (BoardModel {
                mailbox: board_configuration.pieces@,
                active_color: board_configuration.active_color,
                castling_availability: board_configuration.castling_availability,
                en_passant_target_square: board_configuration.en_passant_target_square,
                halfmove_clock: board_configuration.halfmove_clock,
                fullmove_number: board_configuration.fullmove_number,
            }),
    {
        let mut new_board = Board {
            piece_mailbox: blank_mailbox(),
            white_pieces: Bitboard::new(0),
            black_pieces: Bitboard::new(0),
            king_pieces: Bitboard::new(0),
            queen_pieces: Bitboard::new(0),
            rook_pieces: Bitboard::new(0),
            knight_pieces: Bitboard::new(0),
            bishop_pieces: Bitboard::new(0),
            pawn_pieces: Bitboard::new(0),
            active_color: board_configuration.active_color(),
            castling_availability: board_configuration.castling_availability(),
            en_passant_target_square: board_configuration.en_passant_target_square(),
            halfmove_clock: board_configuration.halfmove_clock(),
            fullmove_number: board_configuration.fullmove_number(),
        };
        proof {
            assert(forall|j: u64| j < 64 ==> (0u64 >> j) & 1u64 == 0u64) by (bit_vector);
            assert(forall|i: int| 0 <= i < 64 ==> !bit_set(0u64, i));
            assert(new_board.wf());
        }
        let mut i: u8 = 0;
        while i < 64
            invariant
                i <= 64,
                new_board.wf(),
                board_configuration.wf(),
                new_board.active_color == board_configuration.active_color,
                new_board.castling_availability == board_configuration.castling_availability,
                new_board.en_passant_target_square
                    == board_configuration.en_passant_target_square,
                new_board.halfmove_clock == board_configuration.halfmove_clock,
                new_board.fullmove_number == board_configuration.fullmove_number,
                new_board.piece_mailbox@.len() == 64,
                forall|j: int|
                    0 <= j < i as int ==> new_board.piece_mailbox@[j]
                        == board_configuration.pieces@[j],
                forall|j: int| i as int <= j < 64 ==> new_board.piece_mailbox@[j] is None,
            decreases 64 - i,
        {
            let idx: usize = i as usize;
            match board_configuration.get_pieces()[idx] {
                Some(piece) => {
                    let square = Square::new(i / 8, i % 8);
                    proof {
                        assert(square.in_bounds());
                        assert(square.sq_index() == i as int);
                    }
                    new_board.add_piece(piece, &square);
                },
                None => {},
            }
            i = i + 1;
        }
        proof {
            assert(new_board.model().mailbox =~= board_configuration.pieces@);
        }
        new_board
    }

    /// Creates a new board with the standard starting configuration: the
    /// classic arrangement of 32 pieces, White to move.
    pub fn new_default_starting_board() -> (r: Self)
        ensures
            r.wf(),
            r.model().mailbox == crate::board::board_config::standard_mailbox_seq(),
            r.active_color == PlayerColor::White,
            r.castling_availability == (CastlingAvailability {
                white_castle_kingside: true,
                white_castle_queenside: true,
                black_castle_kingside: true,
                black_castle_queenside: true,
            }),
            r.en_passant_target_square is None,
            r.halfmove_clock == 0,
            r.fullmove_number == 1,
    {
        Self::new_board_with_configuration(&BoardConfiguration::default())
    }

    /// Creates a new empty board: no pieces, White to move, full castling
    /// rights, and fresh clocks.
    pub fn new_blank_board() -> (r: Self)
        ensures
            r.wf(),
            r.model().mailbox == crate::board::board_config::blank_mailbox_seq(),
            r.active_color == PlayerColor::White,
            r.halfmove_clock == 0,
            r.fullmove_number == 1,
    {
        let board_config_builder = crate::board::board_config::BoardConfigurationBuilder::default();
        let board_config = board_config_builder.build();
        Self::new_board_with_configuration(&board_config)
    }

    /// Gets the board configuration associated with the current board state.
    pub fn board_configuration(&self) -> (r: BoardConfiguration)
        requires
            self.wf(),
        ensures
            r.wf(),
            r.pieces@ == self.model().mailbox,
            r.active_color == self.active_color,
            r.castling_availability == self.castling_availability,
            r.en_passant_target_square == self.en_passant_target_square,
            r.halfmove_clock == self.halfmove_clock,
            r.fullmove_number == self.fullmove_number,
    {
        let mut pieces: Vec<Option<Piece>> = Vec::new();
        let mut i: usize = 0;
        while i < 64
            invariant
                i <= 64,
                self.piece_mailbox@.len() == 64,
                pieces@ == self.piece_mailbox@.take(i as int),
            decreases 64 - i,
        {
            pieces.push(self.piece_mailbox[i]);
            proof {
                assert(pieces@ =~= self.piece_mailbox@.take(i + 1));
            }
            i = i + 1;
        }
        proof {
            assert(pieces@ =~= self.piece_mailbox@);
        }
        BoardConfiguration::new(
            pieces,
            self.active_color,
            self.castling_availability,
            self.en_passant_target_square,
            self.halfmove_clock,
            self.fullmove_number,
        )
    }

    /// Consumes a move and applies it to this board in place. The move must
    /// have been produced against this very board state.
    pub fn make_move_in_place(&mut self, m: &Move)
        requires
            old(self).wf(),
            move_applicable(old(self).model(), *m),
        ensures
            final(self).wf(),
            final(self).model() == spec_move_result(old(self).model(), *m),
    {
        let ghost mut placed = old(self).placement();
        match m {
            Move::Castle(direction) => {
                let rank: u8 = match self.active_color {
                    PlayerColor::White => 0,
                    PlayerColor::Black => 7,
                };
                let (king_to_file, rook_from_file, rook_to_file): (u8, u8, u8) = match direction {
                    CastlingDirection::Kingside => (6, 7, 5),
                    CastlingDirection::Queenside => (2, 0, 3),
                };
                let king = self.remove_piece(&Square::new(rank, 4)).unwrap();
                let rook = self.remove_piece(&Square::new(rank, rook_from_file)).unwrap();
                self.add_piece(king, &Square::new(rank, king_to_file));
                self.add_piece(rook, &Square::new(rank, rook_to_file));
                proof {
                    placed = self.placement();
                    assert(forall|i: int|
                        0 <= i < 64 ==> #[trigger] placement_square_ok(placed, i));
                }
                // Castles are neither captures nor pawn moves: the halfmove
                // clock advances.
                if self.halfmove_clock < 255 {
                    self.halfmove_clock = self.halfmove_clock + 1;
                }
            },
            Move::NormalMove(move_data) => {
                let piece = self.remove_piece(&move_data.starting_square()).unwrap();
                if move_data.is_capture() {
                    let _captured = self.remove_piece(&move_data.target_square());
                }
                self.add_piece(piece, &move_data.target_square());
                proof {
                    placed = self.placement();
                    assert(forall|i: int|
                        0 <= i < 64 ==> #[trigger] placement_square_ok(placed, i));
                }
                match (piece.piece_type, move_data.is_capture()) {
                    (PieceType::Pawn, _) => {
                        self.halfmove_clock = 0;
                    },
                    (_, true) => {
                        self.halfmove_clock = 0;
                    },
                    _ => {
                        if self.halfmove_clock < 255 {
                            self.halfmove_clock = self.halfmove_clock + 1;
                        }
                    },
                }
            },
        }
        match self.active_color {
            PlayerColor::Black => {
                if self.fullmove_number < 255 {
                    self.fullmove_number = self.fullmove_number + 1;
                }
            },
            PlayerColor::White => {},
        }
        self.castling_availability.update_with_move(self.active_color, m);
        self.active_color = self.active_color.not();
        proof {
            assert(final(self).model().mailbox =~= spec_move_result(old(self).model(), *m).mailbox);
            assert(final(self).model() =~= spec_move_result(old(self).model(), *m));
            assert(final(self).placement() == placed);
            assert forall|i: int| 0 <= i < 64 implies placement_square_ok(
                final(self).placement(),
                i,
            ) by {
                assert(placement_square_ok(placed, i));
            }
        }
    }

    /// Returns a new board where the given move has been made; the receiving
    /// board is untouched.
    pub fn make_move(&self, m: &Move) -> (r: Self)
        requires
            self.wf(),
            move_applicable(self.model(), *m),
        ensures
            r.wf(),
            r.model() == spec_move_result(self.model(), *m),
    {
        let mut new_board = self.duplicate();
        new_board.make_move_in_place(m);
        new_board
    }

    /// A field-for-field copy of the board.
    pub fn duplicate(&self) -> (r: Self)
        ensures
            r.model() == self.model(),
            r.white_pieces == self.white_pieces,
            r.black_pieces == self.black_pieces,
            r.pawn_pieces == self.pawn_pieces,
            r.knight_pieces == self.knight_pieces,
            r.bishop_pieces == self.bishop_pieces,
            r.rook_pieces == self.rook_pieces,
            r.queen_pieces == self.queen_pieces,
            r.king_pieces == self.king_pieces,
            self.wf() ==> r.wf(),
    {
        let mut pieces: Vec<Option<Piece>> = Vec::new();
        let mut i: usize = 0;
        let n: usize = self.piece_mailbox.len();
        while i < n
            invariant
                i <= n,
                n == self.piece_mailbox@.len(),
                pieces@ == self.piece_mailbox@.take(i as int),
            decreases n - i,
        {
            pieces.push(self.piece_mailbox[i]);
            proof {
                assert(pieces@ =~= self.piece_mailbox@.take(i + 1));
            }
            i = i + 1;
        }
        proof {
            assert(pieces@ =~= self.piece_mailbox@);
        }
        let r = Board {
            piece_mailbox: pieces,
            white_pieces: self.white_pieces,
            black_pieces: self.black_pieces,
            king_pieces: self.king_pieces,
            queen_pieces: self.queen_pieces,
            rook_pieces: self.rook_pieces,
            knight_pieces: self.knight_pieces,
            bishop_pieces: self.bishop_pieces,
            pawn_pieces: self.pawn_pieces,
            active_color: self.active_color,
            castling_availability: self.castling_availability,
            en_passant_target_square: self.en_passant_target_square,
            halfmove_clock: self.halfmove_clock,
            fullmove_number: self.fullmove_number,
        };
        proof {
            if self.wf() {
                assert forall|j: int| 0 <= j < 64 implies placement_square_ok(
                    r.placement(),
                    j,
                ) by {
                    assert(placement_square_ok(self.placement(), j));
                }
            }
        }
        r
    }
}

} // verus!
