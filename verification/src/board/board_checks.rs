//! Check detection and the legality filter: king safety, castling through
//! check, and the test every candidate move must pass.

use vstd::prelude::*;

use crate::bitboard::{bit_set, Bitboard};
use crate::board::board_config::CastlingAvailability;
use crate::board::board_core::{
    move_applicable, placement_square_ok, spec_move_result, Board, BoardModel,
};
use crate::board::board_logic::{lemma_matching_nonempty_iff, reach_by_kind, QueryKind};
use crate::board::board_movegen::piece_capture_reach;
use crate::board::chess_move::{CastlingDirection, Move, MoveData};
use crate::board::piece_type::PieceType;
use crate::board::player_color::PlayerColor;
use crate::board::square::{square_of_index, Square};

verus! {

/// The model holds exactly one king of the given color.
pub open spec fn has_one_king(model: BoardModel, color: PlayerColor) -> bool {
    exists|i: int|
        0 <= i < 64 && #[trigger] model.piece_at_is(i, color, PieceType::King) && (forall|j: int|
            0 <= j < 64 && #[trigger] model.piece_at_is(j, color, PieceType::King) ==> j == i)
}

/// The mask index of the king of the given color; meaningful only when the
/// model holds exactly one such king.
pub open spec fn king_index(model: BoardModel, color: PlayerColor) -> int {
    choose|i: int| 0 <= i < 64 && #[trigger] model.piece_at_is(i, color, PieceType::King)
}

/// Some piece of the attacking color can capture on the target square.
pub open spec fn square_attacked(
    model: BoardModel,
    attacking_color: PlayerColor,
    target: Square,
) -> bool {
    exists|s: Square|
        #![auto]
        s.in_bounds() && model.color_at(s.sq_index(), attacking_color) && piece_capture_reach(
            model,
            attacking_color,
            model.at(s.sq_index())->0.piece_type,
            s,
            target.sq_index(),
        )
}

/// The king of the given color stands on a square some enemy piece can
/// capture on.
pub open spec fn model_in_check(model: BoardModel, color: PlayerColor) -> bool {
    square_attacked(model, color.spec_not(), square_of_index(king_index(model, color)))
}

/// The back rank of the given color, where its king starts and castles.
pub open spec fn castle_rank(color: PlayerColor) -> u8 {
    if color is White {
        0
    } else {
        7
    }
}

/// The path a castling king crosses is attacked: its start square, the
/// square it passes over, or its destination.
pub open spec fn castle_path_attacked(
    model: BoardModel,
    moving_color: PlayerColor,
    attacking_color: PlayerColor,
    dir: CastlingDirection,
) -> bool {
    let rank = castle_rank(moving_color);
    match dir {
        CastlingDirection::Kingside => {
            ||| square_attacked(model, attacking_color, Square { rank, file: 4 })
            ||| square_attacked(model, attacking_color, Square { rank, file: 5 })
            ||| square_attacked(model, attacking_color, Square { rank, file: 6 })
        },
        CastlingDirection::Queenside => {
            ||| square_attacked(model, attacking_color, Square { rank, file: 4 })
            ||| square_attacked(model, attacking_color, Square { rank, file: 3 })
            ||| square_attacked(model, attacking_color, Square { rank, file: 2 })
        },
    }
}

/// The castling-rights flag of the given color and direction.
pub open spec fn castle_right(avail: CastlingAvailability, color: PlayerColor, dir: CastlingDirection) -> bool {
    match (color, dir) {
        (PlayerColor::White, CastlingDirection::Kingside) => avail.white_castle_kingside,
        (PlayerColor::White, CastlingDirection::Queenside) => avail.white_castle_queenside,
        (PlayerColor::Black, CastlingDirection::Kingside) => avail.black_castle_kingside,
        (PlayerColor::Black, CastlingDirection::Queenside) => avail.black_castle_queenside,
    }
}

impl Board {
    /// The legality test for a resolved move: it must not leave the mover's
    /// own king in check, and a castle additionally needs the castling right
    /// and a king path free of attacked squares.
    pub open spec fn spec_check_move(self, m: Move) -> bool {
        &&& !model_in_check(spec_move_result(self.model(), m), self.active_color)
        &&& (match m {
            Move::NormalMove(_) => true,
            Move::Castle(dir) => castle_right(self.castling_availability, self.active_color, dir)
                && !castle_path_attacked(
                self.model(),
                self.active_color,
                self.active_color.spec_not(),
                dir,
            ),
        })
    }

    /// Returns true if the king of the given color is in check on the
    /// current board.
    pub fn is_king_in_check(&self, king_color: PlayerColor) -> (r: bool)
        requires
            self.wf(),
            has_one_king(self.model(), king_color),
        ensures
            r == model_in_check(self.model(), king_color),
    {
        let king_bb = self.color_type_pieces(king_color, PieceType::King);
        let ghost ki = king_index(self.model(), king_color);
        proof {
            assert(0 <= ki < 64 && self.model().piece_at_is(ki, king_color, PieceType::King));
            assert forall|j: int| 0 <= j < 64 implies (#[trigger] bit_set(king_bb.0, j) <==> j
                == ki) by {
                crate::bitboard::lemma_bit_and(
                    self.color_bits(king_color),
                    self.type_bits(PieceType::King),
                    j,
                );
                assert(placement_square_ok(self.placement(), j));
                if bit_set(king_bb.0, j) {
                    assert(self.model().piece_at_is(j, king_color, PieceType::King));
                }
                if j == ki {
                    assert(bit_set(self.color_bits(king_color), j) && bit_set(
                        self.type_bits(PieceType::King),
                        j,
                    ));
                }
            }
            crate::bitboard::lemma_squares_upto_single(king_bb.0, ki, 64);
        }
        let king_squares = king_bb.squares();
        let king_square = king_squares[0];
        proof {
            assert(king_square == square_of_index(ki));
            crate::board::square::lemma_square_index_bijective(king_square);
        }
        let enemy = king_color.not();
        let r = self.any_capturer(enemy, king_square);
        proof {
            lemma_square_attacked_iff_queries(*self, enemy, king_square);
        }
        r
    }

    /// Whether any piece of the attacking color can capture on the target:
    /// the six piece types are scanned in turn.
    fn any_capturer(&self, attacking_color: PlayerColor, target: Square) -> (r: bool)
        requires
            self.wf(),
            target.in_bounds(),
        ensures
            r == ({
                ||| self.spec_matching_capturers(attacking_color, PieceType::Pawn, target).len() > 0
                ||| self.spec_matching_capturers(attacking_color, PieceType::Knight, target).len()
                    > 0
                ||| self.spec_matching_capturers(attacking_color, PieceType::Bishop, target).len()
                    > 0
                ||| self.spec_matching_capturers(attacking_color, PieceType::Rook, target).len() > 0
                ||| self.spec_matching_capturers(attacking_color, PieceType::Queen, target).len()
                    > 0
                ||| self.spec_matching_capturers(attacking_color, PieceType::King, target).len() > 0
            }),
    {
        let pawn_attacks = self.squares_of_type_that_can_capture_square(
            attacking_color,
            PieceType::Pawn,
            target,
        );
        if pawn_attacks.len() > 0 {
            return true;
        }
        let knight_attacks = self.squares_of_type_that_can_capture_square(
            attacking_color,
            PieceType::Knight,
            target,
        );
        if knight_attacks.len() > 0 {
            return true;
        }
        let bishop_attacks = self.squares_of_type_that_can_capture_square(
            attacking_color,
            PieceType::Bishop,
            target,
        );
        if bishop_attacks.len() > 0 {
            return true;
        }
        let rook_attacks = self.squares_of_type_that_can_capture_square(
            attacking_color,
            PieceType::Rook,
            target,
        );
        if rook_attacks.len() > 0 {
            return true;
        }
        let queen_attacks = self.squares_of_type_that_can_capture_square(
            attacking_color,
            PieceType::Queen,
            target,
        );
        if queen_attacks.len() > 0 {
            return true;
        }
        let king_attacks = self.squares_of_type_that_can_capture_square(
            attacking_color,
            PieceType::King,
            target,
        );
        if king_attacks.len() > 0 {
            return true;
        }
        false
    }

    /// Tests at run time whether the board holds exactly one king of the
    /// given color: the executable form of the one-king well-formedness
    /// assumption.
    pub fn has_exactly_one_king(&self, color: PlayerColor) -> (r: bool)
        requires
            self.wf(),
        ensures
            r == has_one_king(self.model(), color),
    {
        let mut found: Option<u8> = None;
        let mut duplicate = false;
        let mut i: u8 = 0;
        while i < 64
            invariant
                i <= 64,
                self.wf(),
                (match found {
                    None => forall|j: int|
                        0 <= j < i as int ==> !self.model().piece_at_is(
                            j,
                            color,
                            PieceType::King,
                        ),
                    Some(k) => k < i && self.model().piece_at_is(k as int, color, PieceType::King)
                        && (duplicate || (forall|j: int|
                        0 <= j < i as int && #[trigger] self.model().piece_at_is(
                            j,
                            color,
                            PieceType::King,
                        ) ==> j == k as int)),
                }),
                duplicate ==> (exists|j1: int, j2: int|
                    #![trigger self.model().piece_at_is(j1, color, PieceType::King), self.model().piece_at_is(j2, color, PieceType::King)]
                    0 <= j1 < j2 < i as int && self.model().piece_at_is(
                        j1,
                        color,
                        PieceType::King,
                    ) && self.model().piece_at_is(j2, color, PieceType::King)),
                duplicate ==> found is Some,
            decreases 64 - i,
        {
            proof {
                assert(placement_square_ok(self.placement(), i as int));
            }
            let here = self.color_pieces(color).is_bit_set(i) && self.type_pieces(
                PieceType::King,
            ).is_bit_set(i);
            if here {
                match found {
                    None => {
                        found = Some(i);
                    },
                    Some(k) => {
                        proof {
                            assert(self.model().piece_at_is(k as int, color, PieceType::King)
                                && self.model().piece_at_is(i as int, color, PieceType::King));
                        }
                        duplicate = true;
                    },
                }
            }
            i = i + 1;
        }
        match found {
            None => false,
            Some(k) => {
                if duplicate {
                    proof {
                        if has_one_king(self.model(), color) {
                            let (j1, j2) = choose|j1: int, j2: int|
                                #![trigger self.model().piece_at_is(j1, color, PieceType::King), self.model().piece_at_is(j2, color, PieceType::King)]
                                0 <= j1 < j2 < 64 && self.model().piece_at_is(
                                    j1,
                                    color,
                                    PieceType::King,
                                ) && self.model().piece_at_is(
                                    j2,
                                    color,
                                    PieceType::King,
                                );
                            assert(false);
                        }
                    }
                    false
                } else {
                    true
                }
            },
        }
    }

    /// Checks whether the squares the kingside-castling king crosses are
    /// attacked by the opponent of the side to move, its current square
    /// included.
    pub fn kingside_castle_moves_through_check(&self, moving_color: PlayerColor) -> (r: bool)
        requires
            self.wf(),
        ensures
            r == castle_path_attacked(
                self.model(),
                moving_color,
                self.active_color.spec_not(),
                CastlingDirection::Kingside,
            ),
    {
        let rank: u8 = match moving_color {
            PlayerColor::White => 0,
            PlayerColor::Black => 7,
        };
        let mut castling_squares: Vec<Square> = Vec::new();
        castling_squares.push(Square::new(rank, 4));
        castling_squares.push(Square::new(rank, 5));
        castling_squares.push(Square::new(rank, 6));
        let r = self.check_squares_for_attack(&castling_squares);
        proof {
            assert(castling_squares@.len() == 3);
            assert(castling_squares@[0] == (Square { rank, file: 4 }));
            assert(castling_squares@[1] == (Square { rank, file: 5 }));
            assert(castling_squares@[2] == (Square { rank, file: 6 }));
            assert(rank == castle_rank(moving_color));
            if !r {
                assert(!square_attacked(
                    self.model(),
                    self.active_color.spec_not(),
                    castling_squares@[0],
                ));
                assert(!square_attacked(
                    self.model(),
                    self.active_color.spec_not(),
                    castling_squares@[1],
                ));
                assert(!square_attacked(
                    self.model(),
                    self.active_color.spec_not(),
                    castling_squares@[2],
                ));
            }
        }
        r
    }

    /// Checks whether the squares the queenside-castling king crosses are
    /// attacked by the opponent of the side to move, its current square
    /// included.
    pub fn queenside_castle_moves_through_check(&self, moving_color: PlayerColor) -> (r: bool)
        requires
            self.wf(),
        ensures
            r == castle_path_attacked(
                self.model(),
                moving_color,
                self.active_color.spec_not(),
                CastlingDirection::Queenside,
            ),
    {
        let rank: u8 = match moving_color {
            PlayerColor::White => 0,
            PlayerColor::Black => 7,
        };
        let mut castling_squares: Vec<Square> = Vec::new();
        castling_squares.push(Square::new(rank, 4));
        castling_squares.push(Square::new(rank, 3));
        castling_squares.push(Square::new(rank, 2));
        let r = self.check_squares_for_attack(&castling_squares);
        proof {
            assert(castling_squares@.len() == 3);
            assert(castling_squares@[0] == (Square { rank, file: 4 }));
            assert(castling_squares@[1] == (Square { rank, file: 3 }));
            assert(castling_squares@[2] == (Square { rank, file: 2 }));
            assert(rank == castle_rank(moving_color));
            if !r {
                assert(!square_attacked(
                    self.model(),
                    self.active_color.spec_not(),
                    castling_squares@[0],
                ));
                assert(!square_attacked(
                    self.model(),
                    self.active_color.spec_not(),
                    castling_squares@[1],
                ));
                assert(!square_attacked(
                    self.model(),
                    self.active_color.spec_not(),
                    castling_squares@[2],
                ));
            }
        }
        r
    }

    /// Returns true if the given side still has the castling right in the
    /// given direction.
    pub fn has_castled_already(&self, color: PlayerColor, check_direction: CastlingDirection) -> (r:
        bool)
        ensures
            r == castle_right(self.castling_availability, color, check_direction),
    {
        match (color, check_direction) {
            (PlayerColor::White, CastlingDirection::Kingside) => self.castling_availability.white_castle_kingside(),
            (PlayerColor::White, CastlingDirection::Queenside) => self.castling_availability.white_castle_queenside(),
            (PlayerColor::Black, CastlingDirection::Kingside) => self.castling_availability.black_castle_kingside(),
            (PlayerColor::Black, CastlingDirection::Queenside) => self.castling_availability.black_castle_queenside(),
        }
    }

    /// Whether any of the given squares is attacked by the opponent of the
    /// side to move.
    fn check_squares_for_attack(&self, check_squares: &Vec<Square>) -> (r: bool)
        requires
            self.wf(),
            forall|k: int| 0 <= k < check_squares@.len() ==> (#[trigger] check_squares@[k]).in_bounds(),
        ensures
            r == (exists|k: int|
                0 <= k < check_squares@.len() && square_attacked(
                    self.model(),
                    self.active_color.spec_not(),
                    #[trigger] check_squares@[k],
                )),
    {
        let mut i: usize = 0;
        let enemy = self.active_color.not();
        while i < check_squares.len()
            invariant
                i <= check_squares@.len(),
                self.wf(),
                enemy == self.active_color.spec_not(),
                forall|k: int|
                    0 <= k < check_squares@.len() ==> (#[trigger] check_squares@[k]).in_bounds(),
                forall|k: int|
                    0 <= k < i as int ==> !square_attacked(
                        self.model(),
                        self.active_color.spec_not(),
                        #[trigger] check_squares@[k],
                    ),
            decreases check_squares@.len() - i,
        {
            let square = check_squares[i];
            let attackers = self.all_squares_that_can_capture_square(enemy, square);
            proof {
                lemma_all_capturers_iff(*self, enemy, square);
            }
            if attackers.len() > 0 {
                return true;
            }
            i = i + 1;
        }
        false
    }
}

impl Board {
    /// Checks if a given move would leave the current player's king in
    /// check after it; this covers both leaving a king in check and moving
    /// a king into check.
    pub fn move_leaves_king_in_check(&self, m: &Move) -> (r: bool)
        requires
            self.wf(),
            move_applicable(self.model(), *m),
            has_one_king(spec_move_result(self.model(), *m), self.active_color),
        ensures
            r == model_in_check(spec_move_result(self.model(), *m), self.active_color),
    {
        self.leaves_color_king_in_check(m, self.active_color)
    }

    /// Whether playing `m` leaves the king of `color` in check.
    pub(crate) fn leaves_color_king_in_check(&self, m: &Move, color: PlayerColor) -> (r: bool)
        requires
            self.wf(),
            move_applicable(self.model(), *m),
            has_one_king(spec_move_result(self.model(), *m), color),
        ensures
            r == model_in_check(spec_move_result(self.model(), *m), color),
    {
        let theoretical_next_board = self.make_move(m);
        theoretical_next_board.is_king_in_check(color)
    }

    /// Checks whether a resolved move is legal: it must not leave the
    /// mover's king in check, and a castle must have the right left and a
    /// path free of attacked squares.
    pub fn check_move(&self, attempted_move: &Move) -> (r: bool)
        requires
            self.wf(),
            move_applicable(self.model(), *attempted_move),
            has_one_king(spec_move_result(self.model(), *attempted_move), self.active_color),
        ensures
            r == self.spec_check_move(*attempted_move),
    {
        if self.move_leaves_king_in_check(attempted_move) {
            return false;
        }
        match attempted_move {
            Move::Castle(CastlingDirection::Kingside) => {
                if !self.has_castled_already(self.active_color, CastlingDirection::Kingside) {
                    return false;
                }
                if self.kingside_castle_moves_through_check(self.active_color) {
                    return false;
                }
            },
            Move::Castle(CastlingDirection::Queenside) => {
                if !self.has_castled_already(self.active_color, CastlingDirection::Queenside) {
                    return false;
                }
                if self.queenside_castle_moves_through_check(self.active_color) {
                    return false;
                }
            },
            _ => {},
        }
        true
    }
}

/// A normal move of one of `color`'s pieces onto a square not held by
/// `color` keeps that side's king unique.
pub proof fn lemma_move_preserves_one_king(model: BoardModel, color: PlayerColor, md: MoveData)
    requires
        model.wf(),
        has_one_king(model, color),
        md.starting_square.in_bounds(),
        md.target_square.in_bounds(),
        model.color_at(md.starting_square.sq_index(), color),
        !model.color_at(md.target_square.sq_index(), color),
    ensures
        has_one_king(spec_move_result(model, Move::NormalMove(md)), color),
{
    let start = md.starting_square.sq_index();
    let target = md.target_square.sq_index();
    let after = spec_move_result(model, Move::NormalMove(md));
    let ki = choose|i: int|
        0 <= i < 64 && #[trigger] model.piece_at_is(i, color, PieceType::King) && (forall|j: int|
            0 <= j < 64 && #[trigger] model.piece_at_is(j, color, PieceType::King) ==> j == i);
    if start == ki {
        assert(after.piece_at_is(target, color, PieceType::King));
        assert forall|j: int|
            0 <= j < 64 && #[trigger] after.piece_at_is(j, color, PieceType::King) implies j
            == target by {
            if j != target && j != start {
                assert(model.piece_at_is(j, color, PieceType::King));
            }
        }
    } else {
        assert(ki != target);
        assert(after.piece_at_is(ki, color, PieceType::King));
        assert forall|j: int|
            0 <= j < 64 && #[trigger] after.piece_at_is(j, color, PieceType::King) implies j
            == ki by {
            if j == target {
                assert(model.piece_at_is(start, color, PieceType::King));
            } else if j != start {
                assert(model.piece_at_is(j, color, PieceType::King));
            }
        }
    }
}

/// A castle by the side to move keeps its king unique: the king moves from
/// its home square to the castled square.
pub proof fn lemma_castle_preserves_one_king(model: BoardModel, dir: CastlingDirection)
    requires
        model.wf(),
        has_one_king(model, model.active_color),
        move_applicable(model, Move::Castle(dir)),
        model.piece_at_is(
            castle_rank(model.active_color) * 8 + 4,
            model.active_color,
            PieceType::King,
        ),
    ensures
        has_one_king(spec_move_result(model, Move::Castle(dir)), model.active_color),
{
    let color = model.active_color;
    let rank = castle_rank(color) as int;
    let after = spec_move_result(model, Move::Castle(dir));
    let king_to: int = if dir is Kingside {
        rank * 8 + 6
    } else {
        rank * 8 + 2
    };
    let rook_from: int = if dir is Kingside {
        rank * 8 + 7
    } else {
        rank * 8 + 0
    };
    let rook_to: int = if dir is Kingside {
        rank * 8 + 5
    } else {
        rank * 8 + 3
    };
    let ki = choose|i: int|
        0 <= i < 64 && #[trigger] model.piece_at_is(i, color, PieceType::King) && (forall|j: int|
            0 <= j < 64 && #[trigger] model.piece_at_is(j, color, PieceType::King) ==> j == i);
    assert(ki == rank * 8 + 4);
    assert(after.piece_at_is(king_to, color, PieceType::King));
    assert forall|j: int|
        0 <= j < 64 && #[trigger] after.piece_at_is(j, color, PieceType::King) implies j
        == king_to by {
        if j != king_to && j != rook_to && j != rook_from && j != rank * 8 + 4 {
            assert(model.piece_at_is(j, color, PieceType::King));
        }
        if j == rook_to {
            assert(model.piece_at_is(rook_from, color, PieceType::King) ==> rook_from == ki);
        }
    }
}

/// The six per-type capture queries together are nonempty exactly when the
/// target square is attacked.
pub proof fn lemma_square_attacked_iff_queries(b: Board, c: PlayerColor, target: Square)
    requires
        b.wf(),
        target.in_bounds(),
    ensures
        square_attacked(b.model(), c, target) <==> ({
            ||| b.spec_matching_capturers(c, PieceType::Pawn, target).len() > 0
            ||| b.spec_matching_capturers(c, PieceType::Knight, target).len() > 0
            ||| b.spec_matching_capturers(c, PieceType::Bishop, target).len() > 0
            ||| b.spec_matching_capturers(c, PieceType::Rook, target).len() > 0
            ||| b.spec_matching_capturers(c, PieceType::Queen, target).len() > 0
            ||| b.spec_matching_capturers(c, PieceType::King, target).len() > 0
        }),
{
    if square_attacked(b.model(), c, target) {
        let s = choose|s: Square|
            #![auto]
            s.in_bounds() && b.model().color_at(s.sq_index(), c) && piece_capture_reach(
                b.model(),
                c,
                b.model().at(s.sq_index())->0.piece_type,
                s,
                target.sq_index(),
            );
        let t = b.model().at(s.sq_index())->0.piece_type;
        lemma_capturers_nonempty(b, c, t, target, s);
    }
    lemma_queries_give_attacker(b, c, PieceType::Pawn, target);
    lemma_queries_give_attacker(b, c, PieceType::Knight, target);
    lemma_queries_give_attacker(b, c, PieceType::Bishop, target);
    lemma_queries_give_attacker(b, c, PieceType::Rook, target);
    lemma_queries_give_attacker(b, c, PieceType::Queen, target);
    lemma_queries_give_attacker(b, c, PieceType::King, target);
}

/// The full attacker query is nonempty exactly when the target square is
/// attacked.
pub proof fn lemma_all_capturers_iff(b: Board, c: PlayerColor, target: Square)
    requires
        b.wf(),
        target.in_bounds(),
    ensures
        (b.spec_all_capturers(c, target).len() > 0) <==> square_attacked(b.model(), c, target),
{
    lemma_square_attacked_iff_queries(b, c, target);
}

/// A piece of color `c` and type `t` on `s` that can capture on the target
/// makes the matching query nonempty.
proof fn lemma_capturers_nonempty(b: Board, c: PlayerColor, t: PieceType, target: Square, s: Square)
    requires
        b.wf(),
        s.in_bounds(),
        b.model().piece_at_is(s.sq_index(), c, t),
        piece_capture_reach(b.model(), c, t, s, target.sq_index()),
    ensures
        b.spec_matching_capturers(c, t, target).len() > 0,
{
    let bits = b.color_bits(c) & b.type_bits(t);
    let cands = crate::bitboard::squares_of(bits);
    assert(placement_square_ok(b.placement(), s.sq_index()));
    assert(bit_set(bits, s.sq_index())) by {
        crate::bitboard::lemma_bit_and(b.color_bits(c), b.type_bits(t), s.sq_index());
    }
    crate::bitboard::lemma_squares_upto_contains(bits, 64, s);
    assert(cands.contains(s));
    let k = choose|k: int| 0 <= k < cands.len() && cands[k] == s;
    lemma_matching_nonempty_iff(b, c, t, target, QueryKind::Captures, cands, cands.len() as int);
    assert(reach_by_kind(b.model(), c, t, QueryKind::Captures, cands[k], target.sq_index()));
}

/// A nonempty capture query names an attacker of the target square.
proof fn lemma_queries_give_attacker(b: Board, c: PlayerColor, t: PieceType, target: Square)
    requires
        b.wf(),
    ensures
        b.spec_matching_capturers(c, t, target).len() > 0 ==> square_attacked(
            b.model(),
            c,
            target,
        ),
{
    if b.spec_matching_capturers(c, t, target).len() > 0 {
        let q = b.spec_matching_capturers(c, t, target);
        assert(q.contains(q[0]));
        crate::board::board_logic::lemma_matching_contains_props(
            b,
            c,
            t,
            target,
            QueryKind::Captures,
            q[0],
        );
        let s = q[0];
        assert(s.in_bounds() && b.model().color_at(s.sq_index(), c) && piece_capture_reach(
            b.model(),
            c,
            b.model().at(s.sq_index())->0.piece_type,
            s,
            target.sq_index(),
        ));
    }
}

} // verus!
