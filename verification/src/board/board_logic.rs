//! Inverse move queries: which squares hold a piece that can move to, or
//! capture on, a given target square. These resolve ambiguous move commands
//! and drive the check detection.

use vstd::prelude::*;

use crate::bitboard::{bit_set, squares_of, squares_upto, Bitboard};
use crate::board::board_checks::{
    has_one_king, lemma_castle_preserves_one_king, lemma_move_preserves_one_king, model_in_check,
};
use crate::board::board_core::{
    move_applicable, placement_square_ok, spec_move_result, Board, BoardModel,
};
use crate::board::board_movegen::{
    piece_capture_reach, piece_guard_reach, piece_move_reach, piece_possible_reach, ray_hit,
};
use crate::board::board_result::{BoardResult, DrawReason};
use crate::board::chess_move::{CastlingDirection, Move, MoveData};
use crate::board::error::MoveError;
use crate::board::line::Line;
use crate::board::piece_type::PieceType;
use crate::board::player_color::PlayerColor;
use crate::board::square::{square_of_index, Square};
use crate::parse::move_command::{MoveCommand, MoveCommandData};

verus! {

/// Which reachability relation an inverse query asks about: plain moves,
/// captures, or guarded squares (captures regardless of occupancy).
#[derive(Debug, PartialEq, Eq, Structural, Clone, Copy)]
pub enum QueryKind {
    /// Squares the piece can move to.
    Moves,
    /// Squares the piece can capture on.
    Captures,
    /// Squares the piece guards, whatever stands there.
    Guards,
}

/// The reachability relation selected by `kind`.
pub open spec fn reach_by_kind(
    model: crate::board::board_core::BoardModel,
    c: PlayerColor,
    t: PieceType,
    kind: QueryKind,
    from: Square,
    i: int,
) -> bool {
    match kind {
        QueryKind::Moves => piece_move_reach(model, c, t, from, i),
        QueryKind::Captures => piece_capture_reach(model, c, t, from, i),
        QueryKind::Guards => piece_guard_reach(model, c, t, from, i),
    }
}

impl Board {
    /// The prefix of `cands` whose squares hold a piece that reaches the
    /// target square under the given relation, order kept.
    pub open spec fn matching_upto(
        self,
        c: PlayerColor,
        t: PieceType,
        target: Square,
        kind: QueryKind,
        cands: Seq<Square>,
        n: int,
    ) -> Seq<Square>
        decreases n,
    {
        if n <= 0 {
            Seq::empty()
        } else {
            let prev = self.matching_upto(c, t, target, kind, cands, n - 1);
            if reach_by_kind(self.model(), c, t, kind, cands[n - 1], target.sq_index()) {
                prev.push(cands[n - 1])
            } else {
                prev
            }
        }
    }

    /// The squares, in ascending index order, of the pieces of color `c` and
    /// type `t` that reach `target` under the given relation.
    pub open spec fn spec_matching_squares(
        self,
        c: PlayerColor,
        t: PieceType,
        target: Square,
        kind: QueryKind,
    ) -> Seq<Square> {
        let cands = squares_of(self.color_bits(c) & self.type_bits(t));
        self.matching_upto(c, t, target, kind, cands, cands.len() as int)
    }

    /// The squares of the pieces of color `c` and type `t` that can move to
    /// `target`.
    pub open spec fn spec_matching_movers(
        self,
        c: PlayerColor,
        t: PieceType,
        target: Square,
    ) -> Seq<Square> {
        self.spec_matching_squares(c, t, target, QueryKind::Moves)
    }

    /// The squares of the pieces of color `c` and type `t` that can capture
    /// on `target`.
    pub open spec fn spec_matching_capturers(
        self,
        c: PlayerColor,
        t: PieceType,
        target: Square,
    ) -> Seq<Square> {
        self.spec_matching_squares(c, t, target, QueryKind::Captures)
    }

    /// The squares of all the pieces of color `c` that can capture on
    /// `target`, scanned one piece type at a time.
    pub open spec fn spec_all_capturers(self, c: PlayerColor, target: Square) -> Seq<Square> {
        self.spec_matching_capturers(c, PieceType::Pawn, target) + self.spec_matching_capturers(
            c,
            PieceType::Knight,
            target,
        ) + self.spec_matching_capturers(c, PieceType::Bishop, target)
            + self.spec_matching_capturers(c, PieceType::Rook, target)
            + self.spec_matching_capturers(c, PieceType::Queen, target)
            + self.spec_matching_capturers(c, PieceType::King, target)
    }

    /// The squares of all the pieces of color `c` that guard `target`,
    /// whatever stands on it.
    pub open spec fn spec_all_guards(self, c: PlayerColor, target: Square) -> Seq<Square> {
        self.spec_matching_squares(c, PieceType::Pawn, target, QueryKind::Guards)
            + self.spec_matching_squares(c, PieceType::Knight, target, QueryKind::Guards)
            + self.spec_matching_squares(c, PieceType::Bishop, target, QueryKind::Guards)
            + self.spec_matching_squares(c, PieceType::Rook, target, QueryKind::Guards)
            + self.spec_matching_squares(c, PieceType::Queen, target, QueryKind::Guards)
            + self.spec_matching_squares(c, PieceType::King, target, QueryKind::Guards)
    }

    /// The guard mask of a piece: diagonal attack squares for a pawn
    /// regardless of occupancy, the usual mask for every other piece.
    pub fn piece_guards(&self, active_color: PlayerColor, piece_type: PieceType, from: Square) -> (r:
        Bitboard)
        requires
            self.wf(),
            from.in_bounds(),
        ensures
            forall|i: int|
                0 <= i < 64 ==> #[trigger] bit_set(r.0, i) == piece_guard_reach(
                    self.model(),
                    active_color,
                    piece_type,
                    from,
                    i,
                ),
    {
        match piece_type {
            PieceType::Pawn => self.pawn_attacks_theoretical(active_color, from),
            PieceType::Knight => self.knight_moves(active_color, from),
            PieceType::Bishop => self.bishop_moves(active_color, from),
            PieceType::Rook => self.rook_moves(active_color, from),
            PieceType::Queen => self.queen_moves(active_color, from),
            PieceType::King => self.king_moves(active_color, from),
        }
    }

    /// The shared body of the inverse queries: scan the pieces of the given
    /// color and type, ascending, and keep those whose mask covers `target`.
    fn matching_squares(
        &self,
        piece_color: PlayerColor,
        piece_type: PieceType,
        target: Square,
        kind: QueryKind,
    ) -> (r: Vec<Square>)
        requires
            self.wf(),
            target.in_bounds(),
        ensures
            r@ == self.spec_matching_squares(piece_color, piece_type, target, kind),
    {
        let piece_map = self.color_type_pieces(piece_color, piece_type);
        let candidates = piece_map.squares();
        let target_idx = Bitboard::coords_to_index_unchecked(target);
        let ghost cands = candidates@;
        let mut result: Vec<Square> = Vec::new();
        let mut i: usize = 0;
        while i < candidates.len()
            invariant
                i <= candidates@.len(),
                candidates@ == cands,
                cands == squares_of(self.color_bits(piece_color) & self.type_bits(piece_type)),
                self.wf(),
                target.in_bounds(),
                target_idx == target.sq_index(),
                result@ == self.matching_upto(
                    piece_color,
                    piece_type,
                    target,
                    kind,
                    cands,
                    i as int,
                ),
            decreases candidates@.len() - i,
        {
            let cand = candidates[i];
            proof {
                assert(cands.contains(cand));
                crate::bitboard::lemma_squares_upto_contains(
                    self.color_bits(piece_color) & self.type_bits(piece_type),
                    64,
                    cand,
                );
            }
            let mask = match kind {
                QueryKind::Moves => self.piece_moves(piece_color, piece_type, cand),
                QueryKind::Captures => self.piece_captures(piece_color, piece_type, cand),
                QueryKind::Guards => self.piece_guards(piece_color, piece_type, cand),
            };
            if mask.is_bit_set(target_idx) {
                result.push(cand);
            }
            i = i + 1;
        }
        result
    }

    /// Gets the squares of all the pieces of a type and color that can move
    /// to a given square, in ascending square order.
    pub fn squares_of_type_that_can_move_to_square(
        &self,
        piece_color: PlayerColor,
        piece_type: PieceType,
        square: Square,
    ) -> (r: Vec<Square>)
        requires
            self.wf(),
            square.in_bounds(),
        ensures
            r@ == self.spec_matching_movers(piece_color, piece_type, square),
    {
        self.matching_squares(piece_color, piece_type, square, QueryKind::Moves)
    }

    /// Gets the squares of all the pieces of a type and color that can
    /// capture on a given square, in ascending square order. The only
    /// difference from [Self::squares_of_type_that_can_move_to_square] is
    /// for pawns, whose move and capture sets are disjoint.
    pub fn squares_of_type_that_can_capture_square(
        &self,
        piece_color: PlayerColor,
        piece_type: PieceType,
        target_square: Square,
    ) -> (r: Vec<Square>)
        requires
            self.wf(),
            target_square.in_bounds(),
        ensures
            r@ == self.spec_matching_capturers(piece_color, piece_type, target_square),
    {
        self.matching_squares(piece_color, piece_type, target_square, QueryKind::Captures)
    }

    /// Gets the squares of all the pieces of a color, of any type, that can
    /// capture on a given square.
    pub fn all_squares_that_can_capture_square(
        &self,
        attacking_color: PlayerColor,
        target_square: Square,
    ) -> (r: Vec<Square>)
        requires
            self.wf(),
            target_square.in_bounds(),
        ensures
            r@ == self.spec_all_capturers(attacking_color, target_square),
    {
        let mut result = self.squares_of_type_that_can_capture_square(
            attacking_color,
            PieceType::Pawn,
            target_square,
        );
        let mut part = self.squares_of_type_that_can_capture_square(
            attacking_color,
            PieceType::Knight,
            target_square,
        );
        result.append(&mut part);
        let mut part = self.squares_of_type_that_can_capture_square(
            attacking_color,
            PieceType::Bishop,
            target_square,
        );
        result.append(&mut part);
        let mut part = self.squares_of_type_that_can_capture_square(
            attacking_color,
            PieceType::Rook,
            target_square,
        );
        result.append(&mut part);
        let mut part = self.squares_of_type_that_can_capture_square(
            attacking_color,
            PieceType::Queen,
            target_square,
        );
        result.append(&mut part);
        let mut part = self.squares_of_type_that_can_capture_square(
            attacking_color,
            PieceType::King,
            target_square,
        );
        result.append(&mut part);
        result
    }

    /// Gets the squares of all the pieces of a color that guard a given
    /// square, whether or not something stands on it. This is the attacker
    /// count used by the centre-control evaluation.
    pub fn all_squares_that_can_capture_square_theoretical(
        &self,
        attacking_color: PlayerColor,
        target_square: Square,
    ) -> (r: Vec<Square>)
        requires
            self.wf(),
            target_square.in_bounds(),
        ensures
            r@ == self.spec_all_guards(attacking_color, target_square),
    {
        let mut result = self.matching_squares(
            attacking_color,
            PieceType::Pawn,
            target_square,
            QueryKind::Guards,
        );
        let mut part = self.matching_squares(
            attacking_color,
            PieceType::Knight,
            target_square,
            QueryKind::Guards,
        );
        result.append(&mut part);
        let mut part = self.matching_squares(
            attacking_color,
            PieceType::Bishop,
            target_square,
            QueryKind::Guards,
        );
        result.append(&mut part);
        let mut part = self.matching_squares(
            attacking_color,
            PieceType::Rook,
            target_square,
            QueryKind::Guards,
        );
        result.append(&mut part);
        let mut part = self.matching_squares(
            attacking_color,
            PieceType::Queen,
            target_square,
            QueryKind::Guards,
        );
        result.append(&mut part);
        let mut part = self.matching_squares(
            attacking_color,
            PieceType::King,
            target_square,
            QueryKind::Guards,
        );
        result.append(&mut part);
        result
    }
}

impl Board {
    /// The target squares, ascending and below index `n`, that the piece of
    /// the given color and type on `from` can move to or capture on.
    pub open spec fn possible_targets_upto(
        self,
        color: PlayerColor,
        t: PieceType,
        from: Square,
        n: int,
    ) -> Seq<Square>
        decreases n,
    {
        if n <= 0 {
            Seq::empty()
        } else {
            let prev = self.possible_targets_upto(color, t, from, n - 1);
            if piece_possible_reach(self.model(), color, t, from, n - 1) {
                prev.push(square_of_index(n - 1))
            } else {
                prev
            }
        }
    }

    /// The target squares of the piece standing on `from`, or the empty
    /// sequence when the square is empty.
    pub open spec fn spec_possible_targets(self, color: PlayerColor, from: Square) -> Seq<Square> {
        match self.model().piece_on(from) {
            None => Seq::empty(),
            Some(p) => self.possible_targets_upto(color, p.piece_type, from, 64),
        }
    }

    /// The moves built from a prefix of the target squares, keeping those
    /// that do not leave the given side's king in check. Each move records
    /// whether its target square is occupied, which on these boards means a
    /// capture.
    pub open spec fn legal_from_targets(
        self,
        color: PlayerColor,
        from: Square,
        targets: Seq<Square>,
        n: int,
    ) -> Seq<Move>
        decreases n,
    {
        if n <= 0 {
            Seq::empty()
        } else {
            let prev = self.legal_from_targets(color, from, targets, n - 1);
            let t = targets[n - 1];
            let m = Move::NormalMove(
                MoveData {
                    starting_square: from,
                    capture: self.model().occupied(t.sq_index()),
                    target_square: t,
                },
            );
            if !model_in_check(spec_move_result(self.model(), m), color) {
                prev.push(m)
            } else {
                prev
            }
        }
    }

    /// All legal moves of the piece on `from`, in ascending target order.
    pub open spec fn spec_legal_moves_for_piece(self, color: PlayerColor, from: Square) -> Seq<
        Move,
    > {
        let targets = self.spec_possible_targets(color, from);
        self.legal_from_targets(color, from, targets, targets.len() as int)
    }

    /// All legal moves of the given side from squares below index `n`,
    /// ascending by source square and then by target square.
    pub open spec fn side_moves_upto(self, color: PlayerColor, n: int) -> Seq<Move>
        decreases n,
    {
        if n <= 0 {
            Seq::empty()
        } else {
            self.side_moves_upto(color, n - 1) + (if self.model().color_at(n - 1, color) {
                self.spec_legal_moves_for_piece(color, square_of_index(n - 1))
            } else {
                Seq::empty()
            })
        }
    }

    /// All legal moves of the given side, in the enumeration order used for
    /// reproducible tie-breaking: ascending source square, then ascending
    /// target square.
    pub open spec fn spec_moves_for_side(self, color: PlayerColor) -> Seq<Move> {
        self.side_moves_upto(color, 64)
    }

    /// Generates the bitboard of all possible target squares for the piece
    /// on the given square, or `None` when the square is empty.
    pub fn generate_possible_moves_for_piece(&self, player_color: PlayerColor, square: Square) -> (r:
        Option<Bitboard>)
        requires
            self.wf(),
            square.in_bounds(),
        ensures
            (match self.model().piece_on(square) {
                None => r is None,
                Some(p) => r is Some && forall|i: int|
                    0 <= i < 64 ==> #[trigger] bit_set((r->0).0, i) == piece_possible_reach(
                        self.model(),
                        player_color,
                        p.piece_type,
                        square,
                        i,
                    ),
            }),
    {
        let piece = match self.piece_at(&square) {
            Some(p) => p,
            None => {
                return None;
            },
        };
        let r = match piece.piece_type() {
            PieceType::Pawn => {
                let moves = self.pawn_moves(player_color, square);
                let attacks = self.pawn_attacks(player_color, square);
                let bb = Bitboard(moves.0 | attacks.0);
                proof {
                    broadcast use crate::bitboard::lemma_bit_or;

                }
                bb
            },
            PieceType::Knight => self.knight_moves(player_color, square),
            PieceType::Bishop => self.bishop_moves(player_color, square),
            PieceType::Rook => self.rook_moves(player_color, square),
            PieceType::Queen => self.queen_moves(player_color, square),
            PieceType::King => self.king_moves(player_color, square),
        };
        Some(r)
    }

    /// Returns all legal moves for the piece on the given square: possible
    /// by its movement rules, and leaving the given side's king out of
    /// check. An empty square gives an empty list.
    pub fn generate_legal_moves_for_piece(&self, player_color: PlayerColor, starting_square: Square) -> (r:
        Vec<Move>)
        requires
            self.wf(),
            starting_square.in_bounds(),
            has_one_king(self.model(), player_color),
            (match self.model().piece_on(starting_square) {
                Some(p) => p.color == player_color,
                None => true,
            }),
        ensures
            r@ == self.spec_legal_moves_for_piece(player_color, starting_square),
    {
        let bb = match self.generate_possible_moves_for_piece(player_color, starting_square) {
            Some(bb) => bb,
            None => {
                return Vec::new();
            },
        };
        let ghost piece_type = self.model().piece_on(starting_square)->0.piece_type;
        proof {
            lemma_possible_targets_match(
                *self,
                player_color,
                piece_type,
                starting_square,
                bb.0,
                64,
            );
        }
        let targets = bb.squares();
        let ghost gtargets = targets@;
        let mut result: Vec<Move> = Vec::new();
        let mut i: usize = 0;
        while i < targets.len()
            invariant
                i <= targets@.len(),
                targets@ == gtargets,
                gtargets == self.spec_possible_targets(player_color, starting_square),
                gtargets == squares_of(bb.0),
                forall|q: int|
                    0 <= q < 64 ==> #[trigger] bit_set(bb.0, q) == piece_possible_reach(
                        self.model(),
                        player_color,
                        piece_type,
                        starting_square,
                        q,
                    ),
                self.wf(),
                starting_square.in_bounds(),
                has_one_king(self.model(), player_color),
                self.model().color_at(starting_square.sq_index(), player_color),
                piece_type == self.model().piece_on(starting_square)->0.piece_type,
                result@ == self.legal_from_targets(player_color, starting_square, gtargets, i as int),
            decreases targets@.len() - i,
        {
            let t = targets[i];
            proof {
                assert(gtargets.contains(t));
                crate::bitboard::lemma_squares_upto_contains(bb.0, 64, t);
                assert(piece_possible_reach(
                    self.model(),
                    player_color,
                    piece_type,
                    starting_square,
                    t.sq_index(),
                ));
                lemma_possible_reach_not_own(
                    self.model(),
                    player_color,
                    piece_type,
                    starting_square,
                    t.sq_index(),
                );
            }
            let capture = self.piece_at(&t).is_some();
            let m = Move::NormalMove(MoveData::new(starting_square, t, capture));
            proof {
                lemma_move_preserves_one_king(
                    self.model(),
                    player_color,
                    MoveData { starting_square, capture, target_square: t },
                );
            }
            if !self.leaves_color_king_in_check(&m, player_color) {
                result.push(m);
            }
            i = i + 1;
        }
        result
    }

    /// Returns all legal moves the given side can make with any of its
    /// pieces, in ascending source-then-target order.
    pub fn generate_moves_for_side(&self, player_color: PlayerColor) -> (r: Vec<Move>)
        requires
            self.wf(),
            has_one_king(self.model(), player_color),
        ensures
            r@ == self.spec_moves_for_side(player_color),
    {
        let mut moves: Vec<Move> = Vec::new();
        let mut idx: u8 = 0;
        let own = self.color_pieces(player_color);
        while idx < 64
            invariant
                idx <= 64,
                self.wf(),
                has_one_king(self.model(), player_color),
                own.0 == self.color_bits(player_color),
                moves@ == self.side_moves_upto(player_color, idx as int),
            decreases 64 - idx,
        {
            proof {
                assert(placement_square_ok(self.placement(), idx as int));
            }
            if own.is_bit_set(idx) {
                let square = Square::new(idx / 8, idx % 8);
                proof {
                    assert(square == square_of_index(idx as int));
                    assert(square.sq_index() == idx as int);
                }
                let mut part = self.generate_legal_moves_for_piece(player_color, square);
                moves.append(&mut part);
            } else {
                proof {
                    assert(moves@ + Seq::<Move>::empty() =~= moves@);
                }
            }
            idx = idx + 1;
        }
        moves
    }

    /// The prefix of `cands` lying on the discriminant line, order kept.
    pub open spec fn disc_filter_upto(cands: Seq<Square>, d: Line, n: int) -> Seq<Square>
        decreases n,
    {
        if n <= 0 {
            Seq::empty()
        } else {
            let prev = Self::disc_filter_upto(cands, d, n - 1);
            if d.spec_has_square(cands[n - 1]) {
                prev.push(cands[n - 1])
            } else {
                prev
            }
        }
    }

    /// The candidates lying on the discriminant line, order kept.
    pub open spec fn spec_disc_filter(cands: Seq<Square>, d: Line) -> Seq<Square> {
        Self::disc_filter_upto(cands, d, cands.len() as int)
    }

    /// How a normal move command resolves against this board: the matching
    /// pieces are collected, the discriminant breaks ties, and anything but
    /// exactly one match is an error.
    pub open spec fn spec_parse_normal_move(self, data: MoveCommandData) -> Result<
        Move,
        MoveError,
    > {
        let cands = if data.capture {
            self.spec_matching_capturers(self.active_color, data.piece_type, data.target_square)
        } else {
            self.spec_matching_movers(self.active_color, data.piece_type, data.target_square)
        };
        if cands.len() == 0 {
            Err(MoveError::NoPossibleMove)
        } else if cands.len() == 1 {
            Ok(
                Move::NormalMove(
                    MoveData {
                        starting_square: cands[0],
                        capture: data.capture,
                        target_square: data.target_square,
                    },
                ),
            )
        } else {
            match data.discriminant {
                None => Err(MoveError::TooManyMoves),
                Some(d) => {
                    let f = Self::spec_disc_filter(cands, d);
                    if f.len() == 0 {
                        Err(MoveError::NoPossibleMove)
                    } else if f.len() == 1 {
                        Ok(
                            Move::NormalMove(
                                MoveData {
                                    starting_square: f[0],
                                    capture: data.capture,
                                    target_square: data.target_square,
                                },
                            ),
                        )
                    } else {
                        Err(MoveError::TooManyMoves)
                    }
                },
            }
        }
    }

    /// Converts a normal move command into a concrete move, resolving which
    /// piece moves by the inverse queries and the optional discriminant.
    pub fn parse_normal_move(&self, move_data: &MoveCommandData) -> (r: Result<Move, MoveError>)
        requires
            self.wf(),
            move_data.target_square.in_bounds(),
        ensures
            r == self.spec_parse_normal_move(*move_data),
    {
        let starting_squares = match move_data.capture() {
            false => self.squares_of_type_that_can_move_to_square(
                self.active_color,
                move_data.piece_type(),
                move_data.target_square(),
            ),
            true => self.squares_of_type_that_can_capture_square(
                self.active_color,
                move_data.piece_type(),
                move_data.target_square(),
            ),
        };
        if starting_squares.len() == 0 {
            return Err(MoveError::NoPossibleMove);
        }
        if starting_squares.len() == 1 {
            return Ok(
                Move::NormalMove(MoveData::from_move_command_data(move_data, starting_squares[0])),
            );
        }
        match move_data.discriminant() {
            None => Err(MoveError::TooManyMoves),
            Some(discriminant) => {
                let mut filtered: Vec<Square> = Vec::new();
                let mut i: usize = 0;
                while i < starting_squares.len()
                    invariant
                        i <= starting_squares@.len(),
                        filtered@ == Self::disc_filter_upto(
                            starting_squares@,
                            discriminant,
                            i as int,
                        ),
                    decreases starting_squares@.len() - i,
                {
                    let cand = starting_squares[i];
                    if discriminant.has_square(&cand) {
                        filtered.push(cand);
                    }
                    i = i + 1;
                }
                if filtered.len() == 0 {
                    Err(MoveError::NoPossibleMove)
                } else if filtered.len() == 1 {
                    Ok(
                        Move::NormalMove(
                            MoveData::from_move_command_data(move_data, filtered[0]),
                        ),
                    )
                } else {
                    Err(MoveError::TooManyMoves)
                }
            },
        }
    }

    /// How a move command resolves against this board: castles resolve
    /// unconditionally; normal moves go through the inverse queries.
    pub open spec fn spec_get_move(self, cmd: MoveCommand) -> Result<Move, MoveError> {
        match cmd {
            MoveCommand::KingsideCastle => Ok(Move::Castle(CastlingDirection::Kingside)),
            MoveCommand::QueensideCastle => Ok(Move::Castle(CastlingDirection::Queenside)),
            MoveCommand::NormalMove(data) => self.spec_parse_normal_move(data),
        }
    }

    /// Converts a move command into a concrete move that may or may not be
    /// legal; legality is checked separately.
    pub fn get_move(&self, move_command: &MoveCommand) -> (r: Result<Move, MoveError>)
        requires
            self.wf(),
            (match *move_command {
                MoveCommand::NormalMove(data) => data.target_square.in_bounds(),
                _ => true,
            }),
        ensures
            r == self.spec_get_move(*move_command),
    {
        match move_command {
            MoveCommand::KingsideCastle => Ok(Move::Castle(CastlingDirection::Kingside)),
            MoveCommand::QueensideCastle => Ok(Move::Castle(CastlingDirection::Queenside)),
            MoveCommand::NormalMove(data) => self.parse_normal_move(data),
        }
    }

    /// A castle command can be applied: the mover's king stands on its home
    /// square and some piece stands on the rook's home square.
    pub open spec fn castle_applicable(self, dir: CastlingDirection) -> bool {
        let rank = crate::board::board_checks::castle_rank(self.active_color) as int;
        let rook_from: int = if dir is Kingside {
            7
        } else {
            0
        };
        &&& self.model().piece_at_is(rank * 8 + 4, self.active_color, PieceType::King)
        &&& self.model().at(rank * 8 + rook_from) is Some
    }

    /// Attempts to make a move on the board, returning the new board state
    /// when the command resolves to a legal move, and the exact error
    /// otherwise: `NoPossibleMove` or `TooManyMoves` from resolution, or
    /// `IllegalMove` when the resolved move fails the legality filter.
    pub fn attempt_move(&self, attempted_move: &MoveCommand) -> (r: Result<Board, MoveError>)
        requires
            self.wf(),
            has_one_king(self.model(), self.active_color),
            (match *attempted_move {
                MoveCommand::NormalMove(data) => data.target_square.in_bounds(),
                MoveCommand::KingsideCastle => self.castle_applicable(CastlingDirection::Kingside),
                MoveCommand::QueensideCastle => self.castle_applicable(
                    CastlingDirection::Queenside,
                ),
            }),
        ensures
            (match self.spec_get_move(*attempted_move) {
                Err(e) => r is Err && r->Err_0 == e,
                Ok(m) => {
                    if self.spec_check_move(m) {
                        &&& r is Ok
                        &&& r->Ok_0.wf()
                        &&& r->Ok_0.model() == spec_move_result(self.model(), m)
                    } else {
                        r is Err && r->Err_0 == MoveError::IllegalMove
                    }
                },
            }),
    {
        let m = match self.get_move(attempted_move) {
            Ok(m) => m,
            Err(e) => {
                return Err(e);
            },
        };
        proof {
            lemma_resolved_move_usable(*self, *attempted_move, m);
        }
        if !self.check_move(&m) {
            return Err(MoveError::IllegalMove);
        }
        Ok(self.make_move(&m))
    }

    /// What the game result is: a draw once the halfmove clock reaches 50;
    /// else, with no legal move left, a win for the opponent when the side
    /// to move is in check and a stalemate when it is not; else the game is
    /// still in progress.
    pub open spec fn spec_game_result(self) -> BoardResult {
        if self.halfmove_clock >= 50 {
            BoardResult::Draw(DrawReason::FiftyMoveRule)
        } else if self.spec_moves_for_side(self.active_color).len() == 0 {
            if model_in_check(self.model(), self.active_color) {
                BoardResult::Win(self.active_color.spec_not())
            } else {
                BoardResult::Draw(DrawReason::Stalemate)
            }
        } else {
            BoardResult::InProgress
        }
    }

    /// Returns the current result of the board: whether the game is over,
    /// who won it, or why it is drawn. Threefold repetition and insufficient
    /// material are not evaluated here.
    pub fn game_result(&self) -> (r: BoardResult)
        requires
            self.wf(),
            has_one_king(self.model(), self.active_color),
        ensures
            r == self.spec_game_result(),
    {
        if self.halfmove_clock >= 50 {
            return BoardResult::Draw(DrawReason::FiftyMoveRule);
        }
        let in_check = self.is_king_in_check(self.active_color);
        let no_moves = self.generate_moves_for_side(self.active_color).len() == 0;
        match (in_check, no_moves) {
            (true, true) => BoardResult::Win(self.active_color.not()),
            (false, true) => BoardResult::Draw(DrawReason::Stalemate),
            (_, false) => BoardResult::InProgress,
        }
    }
}

/// A possible target of a piece never holds one of the mover's own pieces.
proof fn lemma_possible_reach_not_own(
    model: BoardModel,
    c: PlayerColor,
    t: PieceType,
    from: Square,
    i: int,
)
    requires
        piece_possible_reach(model, c, t, from, i),
    ensures
        !model.color_at(i, c),
{
    if piece_move_reach(model, c, t, from, i) {
        lemma_reach_not_own(model, c, t, QueryKind::Moves, from, i);
    } else {
        lemma_reach_not_own(model, c, t, QueryKind::Captures, from, i);
    }
}

/// Move and capture targets never hold one of the mover's own pieces: a
/// pawn pushes onto empty squares and captures enemies, and every other
/// mask excludes the mover's own color.
pub proof fn lemma_reach_not_own(
    model: BoardModel,
    c: PlayerColor,
    t: PieceType,
    kind: QueryKind,
    from: Square,
    i: int,
)
    requires
        kind != QueryKind::Guards,
        reach_by_kind(model, c, t, kind, from, i),
    ensures
        !model.color_at(i, c),
{
    match t {
        PieceType::Pawn => {
            if kind is Captures {
                assert(model.color_at(i, c.spec_not()));
            }
        },
        PieceType::Knight => {},
        PieceType::King => {},
        PieceType::Bishop => {
            lemma_ray_target_not_own(model, c, from, i);
        },
        PieceType::Rook => {
            lemma_ray_target_not_own(model, c, from, i);
        },
        PieceType::Queen => {
            lemma_ray_target_not_own(model, c, from, i);
        },
    }
}

/// Whichever ray reached the target, the target does not hold one of the
/// mover's own pieces.
proof fn lemma_ray_target_not_own(model: BoardModel, c: PlayerColor, from: Square, i: int)
    requires
        exists|dv: int, dh: int, k: int| #[trigger] ray_hit(model, c, from, dv, dh, i, k),
    ensures
        !model.color_at(i, c),
{
    let (dv, dh, k) = choose|dv: int, dh: int, k: int| #[trigger] ray_hit(model, c, from, dv, dh, i, k);
}

/// A move produced by command resolution can be applied to the board and
/// keeps the side to move's king unique: the requirements of the legality
/// check.
proof fn lemma_resolved_move_usable(b: Board, cmd: MoveCommand, m: Move)
    requires
        b.wf(),
        has_one_king(b.model(), b.active_color),
        b.spec_get_move(cmd) == Ok::<Move, MoveError>(m),
        (match cmd {
            MoveCommand::NormalMove(data) => data.target_square.in_bounds(),
            MoveCommand::KingsideCastle => b.castle_applicable(CastlingDirection::Kingside),
            MoveCommand::QueensideCastle => b.castle_applicable(CastlingDirection::Queenside),
        }),
    ensures
        move_applicable(b.model(), m),
        has_one_king(spec_move_result(b.model(), m), b.active_color),
{
    match cmd {
        MoveCommand::KingsideCastle => {
            lemma_castle_preserves_one_king(b.model(), CastlingDirection::Kingside);
        },
        MoveCommand::QueensideCastle => {
            lemma_castle_preserves_one_king(b.model(), CastlingDirection::Queenside);
        },
        MoveCommand::NormalMove(data) => {
            let kind = if data.capture {
                QueryKind::Captures
            } else {
                QueryKind::Moves
            };
            let cands = if data.capture {
                b.spec_matching_capturers(b.active_color, data.piece_type, data.target_square)
            } else {
                b.spec_matching_movers(b.active_color, data.piece_type, data.target_square)
            };
            let md = m->NormalMove_0;
            let start = md.starting_square;
            if cands.len() == 1 {
                assert(cands.contains(cands[0]));
                assert(start == cands[0]);
            } else {
                let d = data.discriminant->0;
                let f = Board::spec_disc_filter(cands, d);
                assert(f.contains(f[0]));
                assert(start == f[0]);
                lemma_disc_filter_sub(cands, d, cands.len() as int, f[0]);
            }
            assert(cands.contains(start));
            lemma_matching_contains_props(
                b,
                b.active_color,
                data.piece_type,
                data.target_square,
                kind,
                start,
            );
            lemma_reach_not_own(
                b.model(),
                b.active_color,
                data.piece_type,
                kind,
                start,
                data.target_square.sq_index(),
            );
            lemma_move_preserves_one_king(b.model(), b.active_color, md);
        },
    }
}

/// A matching sequence never holds more squares than were scanned.
pub proof fn lemma_matching_len(
    b: Board,
    c: PlayerColor,
    t: PieceType,
    target: Square,
    kind: QueryKind,
    cands: Seq<Square>,
    n: int,
)
    requires
        0 <= n,
    ensures
        b.matching_upto(c, t, target, kind, cands, n).len() <= n,
    decreases n,
{
    if n > 0 {
        lemma_matching_len(b, c, t, target, kind, cands, n - 1);
    }
}

/// The guard query over all six piece types reports at most six times
/// sixty-four squares.
pub proof fn lemma_all_guards_len(b: Board, c: PlayerColor, target: Square)
    ensures
        b.spec_all_guards(c, target).len() <= 384,
{
    lemma_one_guard_len(b, c, PieceType::Pawn, target);
    lemma_one_guard_len(b, c, PieceType::Knight, target);
    lemma_one_guard_len(b, c, PieceType::Bishop, target);
    lemma_one_guard_len(b, c, PieceType::Rook, target);
    lemma_one_guard_len(b, c, PieceType::Queen, target);
    lemma_one_guard_len(b, c, PieceType::King, target);
}

/// One piece type contributes at most sixty-four guard squares.
proof fn lemma_one_guard_len(b: Board, c: PlayerColor, t: PieceType, target: Square)
    ensures
        b.spec_matching_squares(c, t, target, QueryKind::Guards).len() <= 64,
{
    let cands = squares_of(b.color_bits(c) & b.type_bits(t));
    crate::bitboard::lemma_squares_upto_len(b.color_bits(c) & b.type_bits(t), 64);
    lemma_matching_len(b, c, t, target, QueryKind::Guards, cands, cands.len() as int);
}

/// A piece's possible-target list holds at most the indices it scanned.
pub proof fn lemma_possible_targets_len(
    b: Board,
    color: PlayerColor,
    t: PieceType,
    from: Square,
    n: int,
)
    requires
        0 <= n,
    ensures
        b.possible_targets_upto(color, t, from, n).len() <= n,
    decreases n,
{
    if n > 0 {
        lemma_possible_targets_len(b, color, t, from, n - 1);
    }
}

/// The legal moves from a target list are no more numerous than the list.
pub proof fn lemma_legal_from_targets_len(
    b: Board,
    color: PlayerColor,
    from: Square,
    targets: Seq<Square>,
    n: int,
)
    requires
        0 <= n,
    ensures
        b.legal_from_targets(color, from, targets, n).len() <= n,
    decreases n,
{
    if n > 0 {
        lemma_legal_from_targets_len(b, color, from, targets, n - 1);
    }
}

/// One piece never has more than sixty-four legal moves.
pub proof fn lemma_legal_moves_len(b: Board, color: PlayerColor, from: Square)
    ensures
        b.spec_legal_moves_for_piece(color, from).len() <= 64,
{
    match b.model().piece_on(from) {
        None => {
            let targets = b.spec_possible_targets(color, from);
            lemma_legal_from_targets_len(b, color, from, targets, targets.len() as int);
        },
        Some(p) => {
            let targets = b.spec_possible_targets(color, from);
            lemma_possible_targets_len(b, color, p.piece_type, from, 64);
            lemma_legal_from_targets_len(b, color, from, targets, targets.len() as int);
        },
    }
}

/// A side never has more than sixty-four times sixty-four legal moves.
pub proof fn lemma_side_moves_len(b: Board, color: PlayerColor, n: int)
    requires
        0 <= n <= 64,
    ensures
        b.side_moves_upto(color, n).len() <= n * 64,
    decreases n,
{
    if n > 0 {
        lemma_side_moves_len(b, color, n - 1);
        lemma_legal_moves_len(b, color, square_of_index(n - 1));
    }
}

/// Every element of a possible-target prefix is an in-bounds square the
/// piece can move to or capture on.
proof fn lemma_possible_targets_elem(
    b: Board,
    color: PlayerColor,
    t: PieceType,
    from: Square,
    n: int,
    s: Square,
)
    requires
        0 <= n <= 64,
        b.possible_targets_upto(color, t, from, n).contains(s),
    ensures
        s.in_bounds(),
        piece_possible_reach(b.model(), color, t, from, s.sq_index()),
    decreases n,
{
    if n > 0 {
        let prev = b.possible_targets_upto(color, t, from, n - 1);
        let cur = b.possible_targets_upto(color, t, from, n);
        if piece_possible_reach(b.model(), color, t, from, n - 1) {
            let i = choose|i: int| 0 <= i < cur.len() && cur[i] == s;
            if i < prev.len() {
                assert(prev[i] == s);
                assert(prev.contains(s));
                lemma_possible_targets_elem(b, color, t, from, n - 1, s);
            } else {
                assert(s == square_of_index(n - 1));
                assert(s.sq_index() == n - 1);
            }
        } else {
            lemma_possible_targets_elem(b, color, t, from, n - 1, s);
        }
    }
}

/// Every element of a legal-move prefix is a normal move from `from` onto
/// one of the targets, with its capture flag matching the target's
/// occupancy, and leaves the mover's king out of check.
proof fn lemma_legal_from_targets_elem(
    b: Board,
    color: PlayerColor,
    from: Square,
    targets: Seq<Square>,
    n: int,
    m: Move,
)
    requires
        0 <= n <= targets.len(),
        b.legal_from_targets(color, from, targets, n).contains(m),
    ensures
        m is NormalMove,
        (m->NormalMove_0).starting_square == from,
        targets.contains((m->NormalMove_0).target_square),
        (m->NormalMove_0).capture == b.model().occupied(
            (m->NormalMove_0).target_square.sq_index(),
        ),
        !model_in_check(spec_move_result(b.model(), m), color),
    decreases n,
{
    if n > 0 {
        let prev = b.legal_from_targets(color, from, targets, n - 1);
        let cur = b.legal_from_targets(color, from, targets, n);
        let t = targets[n - 1];
        let built = Move::NormalMove(
            MoveData {
                starting_square: from,
                capture: b.model().occupied(t.sq_index()),
                target_square: t,
            },
        );
        if !model_in_check(spec_move_result(b.model(), built), color) {
            let i = choose|i: int| 0 <= i < cur.len() && cur[i] == m;
            if i < prev.len() {
                assert(prev[i] == m);
                assert(prev.contains(m));
                lemma_legal_from_targets_elem(b, color, from, targets, n - 1, m);
            } else {
                assert(m == built);
                assert(targets[n - 1] == t);
                assert(targets.contains(t));
            }
        } else {
            lemma_legal_from_targets_elem(b, color, from, targets, n - 1, m);
        }
    }
}

/// Every element of a per-piece legal-move list can be applied to the
/// board: it moves the piece on `from` to an in-bounds square not held by
/// the same side, and leaves that side's king out of check.
proof fn lemma_legal_moves_elem(b: Board, color: PlayerColor, from: Square, m: Move)
    requires
        b.wf(),
        b.spec_legal_moves_for_piece(color, from).contains(m),
        (match b.model().piece_on(from) {
            Some(p) => p.color == color,
            None => true,
        }),
    ensures
        m is NormalMove,
        (m->NormalMove_0).starting_square == from,
        (m->NormalMove_0).target_square.in_bounds(),
        b.model().piece_on(from) is Some,
        !b.model().color_at((m->NormalMove_0).target_square.sq_index(), color),
        (m->NormalMove_0).capture == b.model().occupied(
            (m->NormalMove_0).target_square.sq_index(),
        ),
        !model_in_check(spec_move_result(b.model(), m), color),
{
    let targets = b.spec_possible_targets(color, from);
    lemma_legal_from_targets_elem(b, color, from, targets, targets.len() as int, m);
    let md = m->NormalMove_0;
    match b.model().piece_on(from) {
        None => {
            assert(targets.len() == 0);
            assert(false);
        },
        Some(p) => {
            lemma_possible_targets_elem(
                b,
                color,
                p.piece_type,
                from,
                64,
                md.target_square,
            );
            lemma_possible_reach_not_own(
                b.model(),
                color,
                p.piece_type,
                from,
                md.target_square.sq_index(),
            );
        },
    }
}

/// Every move a side generates can be applied to the board and keeps that
/// side's king unique and out of check: the facts a caller needs to play
/// the move.
pub proof fn lemma_side_move_props(b: Board, color: PlayerColor, m: Move)
    requires
        b.wf(),
        has_one_king(b.model(), color),
        b.spec_moves_for_side(color).contains(m),
    ensures
        m is NormalMove,
        (m->NormalMove_0).starting_square.in_bounds(),
        (m->NormalMove_0).target_square.in_bounds(),
        b.model().color_at((m->NormalMove_0).starting_square.sq_index(), color),
        !b.model().color_at((m->NormalMove_0).target_square.sq_index(), color),
        move_applicable(b.model(), m),
        has_one_king(spec_move_result(b.model(), m), color),
        !model_in_check(spec_move_result(b.model(), m), color),
{
    lemma_side_moves_contains(b, color, 64, m);
}

/// A move of a side-move prefix comes from the legal moves of one of that
/// side's pieces, with all their properties.
proof fn lemma_side_moves_contains(b: Board, color: PlayerColor, n: int, m: Move)
    requires
        b.wf(),
        has_one_king(b.model(), color),
        0 <= n <= 64,
        b.side_moves_upto(color, n).contains(m),
    ensures
        m is NormalMove,
        (m->NormalMove_0).starting_square.in_bounds(),
        (m->NormalMove_0).target_square.in_bounds(),
        b.model().color_at((m->NormalMove_0).starting_square.sq_index(), color),
        !b.model().color_at((m->NormalMove_0).target_square.sq_index(), color),
        move_applicable(b.model(), m),
        has_one_king(spec_move_result(b.model(), m), color),
        !model_in_check(spec_move_result(b.model(), m), color),
    decreases n,
{
    if n > 0 {
        let prev = b.side_moves_upto(color, n - 1);
        let here = if b.model().color_at(n - 1, color) {
            b.spec_legal_moves_for_piece(color, square_of_index(n - 1))
        } else {
            Seq::<Move>::empty()
        };
        let cur = prev + here;
        let i = choose|i: int| 0 <= i < cur.len() && cur[i] == m;
        if i < prev.len() {
            assert(prev[i] == m);
            assert(prev.contains(m));
            lemma_side_moves_contains(b, color, n - 1, m);
        } else {
            assert(here[i - prev.len()] == m);
            assert(here.contains(m));
            assert(b.model().color_at(n - 1, color));
            let from = square_of_index(n - 1);
            assert(from.in_bounds() && from.sq_index() == n - 1);
            lemma_legal_moves_elem(b, color, from, m);
            let md = m->NormalMove_0;
            lemma_move_preserves_one_king(b.model(), color, md);
        }
    }
}

/// A member of a discriminant-filtered prefix is a member of the candidate
/// sequence.
proof fn lemma_disc_filter_sub(cands: Seq<Square>, d: Line, n: int, s: Square)
    requires
        n <= cands.len(),
        Board::disc_filter_upto(cands, d, n).contains(s),
    ensures
        cands.contains(s),
    decreases n,
{
    if n > 0 {
        let prev = Board::disc_filter_upto(cands, d, n - 1);
        let cur = Board::disc_filter_upto(cands, d, n);
        if d.spec_has_square(cands[n - 1]) {
            let i = choose|i: int| 0 <= i < cur.len() && cur[i] == s;
            if i < prev.len() {
                assert(prev[i] == s);
                assert(prev.contains(s));
                lemma_disc_filter_sub(cands, d, n - 1, s);
            } else {
                assert(s == cands[n - 1]);
            }
        } else {
            lemma_disc_filter_sub(cands, d, n - 1, s);
        }
    }
}

/// When the bits of `v` agree with the possible-move relation, the squares
/// of `v` are exactly the possible targets.
proof fn lemma_possible_targets_match(
    b: Board,
    color: PlayerColor,
    t: PieceType,
    from: Square,
    v: u64,
    n: int,
)
    requires
        0 <= n <= 64,
        forall|i: int|
            0 <= i < 64 ==> #[trigger] bit_set(v, i) == piece_possible_reach(
                b.model(),
                color,
                t,
                from,
                i,
            ),
    ensures
        squares_upto(v, n) == b.possible_targets_upto(color, t, from, n),
    decreases n,
{
    if n > 0 {
        lemma_possible_targets_match(b, color, t, from, v, n - 1);
    }
}

/// Every square in a matching sequence is in bounds, holds a piece of the
/// queried color and type, and reaches the target under the queried
/// relation.
pub proof fn lemma_matching_contains_props(
    b: Board,
    c: PlayerColor,
    t: PieceType,
    target: Square,
    kind: QueryKind,
    s: Square,
)
    requires
        b.wf(),
        b.spec_matching_squares(c, t, target, kind).contains(s),
    ensures
        s.in_bounds(),
        b.model().piece_at_is(s.sq_index(), c, t),
        reach_by_kind(b.model(), c, t, kind, s, target.sq_index()),
{
    let bits = b.color_bits(c) & b.type_bits(t);
    let cands = squares_of(bits);
    lemma_matching_sub(b, c, t, target, kind, cands, cands.len() as int, s);
    crate::bitboard::lemma_squares_upto_contains(bits, 64, s);
    assert(placement_square_ok(b.placement(), s.sq_index()));
    assert(bit_set(b.color_bits(c), s.sq_index()) && bit_set(b.type_bits(t), s.sq_index())) by {
        crate::bitboard::lemma_bit_and(b.color_bits(c), b.type_bits(t), s.sq_index());
    }
}

/// A member of a matching prefix is a candidate that reaches the target.
proof fn lemma_matching_sub(
    b: Board,
    c: PlayerColor,
    t: PieceType,
    target: Square,
    kind: QueryKind,
    cands: Seq<Square>,
    n: int,
    s: Square,
)
    requires
        n <= cands.len(),
        b.matching_upto(c, t, target, kind, cands, n).contains(s),
    ensures
        cands.contains(s),
        reach_by_kind(b.model(), c, t, kind, s, target.sq_index()),
    decreases n,
{
    if n > 0 {
        let prev = b.matching_upto(c, t, target, kind, cands, n - 1);
        let cur = b.matching_upto(c, t, target, kind, cands, n);
        if reach_by_kind(b.model(), c, t, kind, cands[n - 1], target.sq_index()) {
            if cur.contains(s) {
                let i = choose|i: int| 0 <= i < cur.len() && cur[i] == s;
                if i < prev.len() {
                    assert(prev[i] == s);
                    assert(prev.contains(s));
                    lemma_matching_sub(b, c, t, target, kind, cands, n - 1, s);
                } else {
                    assert(s == cands[n - 1]);
                }
            }
        } else {
            lemma_matching_sub(b, c, t, target, kind, cands, n - 1, s);
        }
    }
}

/// A matching prefix is nonempty exactly when some candidate below the
/// cutoff reaches the target.
pub proof fn lemma_matching_nonempty_iff(
    b: Board,
    c: PlayerColor,
    t: PieceType,
    target: Square,
    kind: QueryKind,
    cands: Seq<Square>,
    n: int,
)
    requires
        0 <= n <= cands.len(),
    ensures
        (b.matching_upto(c, t, target, kind, cands, n).len() > 0) <==> (exists|k: int|
            0 <= k < n && reach_by_kind(
                b.model(),
                c,
                t,
                kind,
                #[trigger] cands[k],
                target.sq_index(),
            )),
    decreases n,
{
    if n > 0 {
        lemma_matching_nonempty_iff(b, c, t, target, kind, cands, n - 1);
    }
}

} // verus!
