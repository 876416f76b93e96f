//! Position evaluation: the [Evaluation] value with its total order, the
//! [EvaluationWeights] configuration, and the static scoring of a board.

use vstd::prelude::*;

use crate::board::board_checks::has_one_king;
use crate::board::board_core::Board;
use crate::board::board_result::BoardResult;
use crate::board::piece_type::PieceType;
use crate::board::player_color::PlayerColor;
use crate::board::square::Square;

verus! {

/// How highly to evaluate certain aspects of a position. The weights are
/// integers in tenths of a pawn: the documented defaults make a queen worth
/// 9 pawns and a unit of centre control or mobility worth 0.4 of one.
#[derive(Debug, PartialEq, Eq, Structural, Clone, Copy)]
pub struct EvaluationWeights {
    /// Scales the whole material term.
    pub overall_material_weight: i64,
    /// The worth of a queen, in tenths of a pawn.
    pub queen_material_weight: i64,
    /// The worth of a rook, in tenths of a pawn.
    pub rook_material_weight: i64,
    /// The worth of a bishop, in tenths of a pawn.
    pub bishop_material_weight: i64,
    /// The worth of a knight, in tenths of a pawn.
    pub knight_material_weight: i64,
    /// The worth of a pawn, in tenths of a pawn.
    pub pawn_material_weight: i64,
    /// The worth of one extra attacker on a centre square.
    pub center_control_weight: i64,
    /// The worth of one extra legal move.
    pub mobility_weight: i64,
}

impl EvaluationWeights {
    /// The weights are small enough that no score computation can overflow.
    pub open spec fn wf(self) -> bool {
        &&& -10000 <= self.overall_material_weight <= 10000
        &&& -10000 <= self.queen_material_weight <= 10000
        &&& -10000 <= self.rook_material_weight <= 10000
        &&& -10000 <= self.bishop_material_weight <= 10000
        &&& -10000 <= self.knight_material_weight <= 10000
        &&& -10000 <= self.pawn_material_weight <= 10000
        &&& -10000 <= self.center_control_weight <= 10000
        &&& -10000 <= self.mobility_weight <= 10000
    }
}

impl Default for EvaluationWeights {
    /// The documented default weights: material 9/5/3/3/1 in pawns, and
    /// 0.4 of a pawn for each unit of centre control and mobility.
    fn default() -> (r: Self)
        ensures
            r == (EvaluationWeights {
                overall_material_weight: 1i64,
                queen_material_weight: 90i64,
                rook_material_weight: 50i64,
                bishop_material_weight: 30i64,
                knight_material_weight: 30i64,
                pawn_material_weight: 10i64,
                center_control_weight: 4i64,
                mobility_weight: 4i64,
            }),
            r.wf(),
    {
        EvaluationWeights {
            overall_material_weight: 1,
            queen_material_weight: 90,
            rook_material_weight: 50,
            bishop_material_weight: 30,
            knight_material_weight: 30,
            pawn_material_weight: 10,
            center_control_weight: 4,
            mobility_weight: 4,
        }
    }
}

/// The evaluated outcome of a position: a decided game, a forced mate in a
/// known number of moves, or a heuristic score in tenths of a pawn,
/// positive when better for White.
#[derive(Debug, Clone, Copy)]
pub enum Evaluation {
    /// The position is over; White has won.
    WhiteWin,
    /// White forces mate in the given number of moves with perfect play.
    WhiteCheckmateIn(usize),
    /// The position is drawn.
    Draw,
    /// Black forces mate in the given number of moves with perfect play.
    BlackCheckmateIn(usize),
    /// The position is over; Black has won.
    BlackWin,
    /// An undecided position's heuristic score, in tenths of a pawn.
    Score(i64),
}

/// The coarse band of an evaluation in the total order, ascending in
/// goodness for White: a black win, a black mate, the scores (a draw counts
/// as a score of zero), a white mate, a white win.
pub open spec fn eval_class(e: Evaluation) -> int {
    match e {
        Evaluation::BlackWin => 0,
        Evaluation::BlackCheckmateIn(_) => 1,
        Evaluation::Draw => 2,
        Evaluation::Score(_) => 2,
        Evaluation::WhiteCheckmateIn(_) => 3,
        Evaluation::WhiteWin => 4,
    }
}

/// The position of an evaluation inside its band: fewer moves to mate is
/// better for the mating side, so a shorter black mate ranks higher and a
/// shorter white mate ranks lower.
pub open spec fn eval_key(e: Evaluation) -> int {
    match e {
        Evaluation::BlackCheckmateIn(k) => -(k as int),
        Evaluation::Score(x) => x as int,
        Evaluation::WhiteCheckmateIn(k) => k as int,
        _ => 0,
    }
}

/// The total order on evaluations, as an ordering value.
pub open spec fn spec_eval_cmp(a: Evaluation, b: Evaluation) -> core::cmp::Ordering {
    if eval_class(a) < eval_class(b) {
        core::cmp::Ordering::Less
    } else if eval_class(a) > eval_class(b) {
        core::cmp::Ordering::Greater
    } else if eval_key(a) < eval_key(b) {
        core::cmp::Ordering::Less
    } else if eval_key(a) > eval_key(b) {
        core::cmp::Ordering::Greater
    } else {
        core::cmp::Ordering::Equal
    }
}

/// `a` ranks strictly below `b`: worse for White, better for Black.
pub open spec fn eval_lt(a: Evaluation, b: Evaluation) -> bool {
    spec_eval_cmp(a, b) is Less
}

impl Evaluation {
    /// Compares two evaluations in the total order used by the search.
    pub fn cmp(&self, other: &Evaluation) -> (r: core::cmp::Ordering)
        ensures
            r == spec_eval_cmp(*self, *other),
    {
        match (self, other) {
            (Evaluation::WhiteCheckmateIn(x), Evaluation::WhiteCheckmateIn(y)) => {
                if *x < *y {
                    core::cmp::Ordering::Less
                } else if *x > *y {
                    core::cmp::Ordering::Greater
                } else {
                    core::cmp::Ordering::Equal
                }
            },
            (Evaluation::BlackCheckmateIn(x), Evaluation::BlackCheckmateIn(y)) => {
                if *x > *y {
                    core::cmp::Ordering::Less
                } else if *x < *y {
                    core::cmp::Ordering::Greater
                } else {
                    core::cmp::Ordering::Equal
                }
            },
            (Evaluation::Score(x), Evaluation::Score(y)) => {
                if *x < *y {
                    core::cmp::Ordering::Less
                } else if *x > *y {
                    core::cmp::Ordering::Greater
                } else {
                    core::cmp::Ordering::Equal
                }
            },
            (Evaluation::Score(x), Evaluation::Draw) => {
                if *x < 0 {
                    core::cmp::Ordering::Less
                } else if *x > 0 {
                    core::cmp::Ordering::Greater
                } else {
                    core::cmp::Ordering::Equal
                }
            },
            (Evaluation::Draw, Evaluation::Score(y)) => {
                if 0 < *y {
                    core::cmp::Ordering::Less
                } else if 0 > *y {
                    core::cmp::Ordering::Greater
                } else {
                    core::cmp::Ordering::Equal
                }
            },
            _ => {
                let a_class: i64 = match self {
                    Evaluation::BlackWin => 0,
                    Evaluation::BlackCheckmateIn(_) => 1,
                    Evaluation::Draw => 2,
                    Evaluation::Score(_) => 2,
                    Evaluation::WhiteCheckmateIn(_) => 3,
                    Evaluation::WhiteWin => 4,
                };
                let b_class: i64 = match other {
                    Evaluation::BlackWin => 0,
                    Evaluation::BlackCheckmateIn(_) => 1,
                    Evaluation::Draw => 2,
                    Evaluation::Score(_) => 2,
                    Evaluation::WhiteCheckmateIn(_) => 3,
                    Evaluation::WhiteWin => 4,
                };
                if a_class < b_class {
                    core::cmp::Ordering::Less
                } else if a_class > b_class {
                    core::cmp::Ordering::Greater
                } else {
                    core::cmp::Ordering::Equal
                }
            },
        }
    }

    /// The larger of two evaluations in the search's order.
    pub fn max(self, other: Evaluation) -> (r: Evaluation)
        ensures
            r == if eval_lt(self, other) {
                other
            } else {
                self
            },
    {
        match self.cmp(&other) {
            core::cmp::Ordering::Less => other,
            _ => self,
        }
    }

    /// The smaller of two evaluations in the search's order.
    pub fn min(self, other: Evaluation) -> (r: Evaluation)
        ensures
            r == if eval_lt(other, self) {
                other
            } else {
                self
            },
    {
        match self.cmp(&other) {
            core::cmp::Ordering::Greater => other,
            _ => self,
        }
    }
}

impl PartialEq for Evaluation {
    /// Two evaluations are equal when neither ranks below the other; a
    /// draw and a score of zero compare equal.
    fn eq(&self, other: &Self) -> bool {
        match self.cmp(other) {
            core::cmp::Ordering::Equal => true,
            _ => false,
        }
    }
}

impl vstd::std_specs::cmp::PartialEqSpecImpl for Evaluation {
    open spec fn obeys_eq_spec() -> bool {
        true
    }

    open spec fn eq_spec(&self, other: &Evaluation) -> bool {
        spec_eval_cmp(*self, *other) is Equal
    }
}

impl Eq for Evaluation {

}

impl PartialOrd for Evaluation {
    /// The total order of the search, ascending in goodness for White.
    fn partial_cmp(&self, other: &Self) -> Option<core::cmp::Ordering> {
        Some(self.cmp(other))
    }
}

impl vstd::std_specs::cmp::PartialOrdSpecImpl for Evaluation {
    open spec fn obeys_partial_cmp_spec() -> bool {
        true
    }

    open spec fn partial_cmp_spec(&self, other: &Evaluation) -> Option<core::cmp::Ordering> {
        Some(spec_eval_cmp(*self, *other))
    }
}

/// Converting a signed mate distance: a positive count is a mate for
/// White in that many moves, a negative one a mate for Black, and zero is
/// a draw.
impl core::convert::From<isize> for Evaluation {
    fn from(value: isize) -> Evaluation {
        if value > 0 {
            Evaluation::WhiteCheckmateIn(value as usize)
        } else if value < 0 {
            let magnitude: usize = ((-(value + 1)) as usize) + 1;
            proof {
                assert(magnitude as int == -(value as int));
            }
            Evaluation::BlackCheckmateIn(magnitude)
        } else {
            Evaluation::Draw
        }
    }
}

impl vstd::std_specs::convert::FromSpecImpl<isize> for Evaluation {
    open spec fn obeys_from_spec() -> bool {
        true
    }

    open spec fn from_spec(value: isize) -> Evaluation {
        if value > 0 {
            Evaluation::WhiteCheckmateIn(value as usize)
        } else if value < 0 {
            Evaluation::BlackCheckmateIn((-value) as usize)
        } else {
            Evaluation::Draw
        }
    }
}

/// Shorter mates rank as the mating side prefers: between two black mates
/// the shorter ranks higher, and between two white mates the shorter ranks
/// lower.
pub proof fn lemma_checkmate_distance_order(k1: usize, k2: usize)
    requires
        k1 < k2,
    ensures
        eval_lt(Evaluation::BlackCheckmateIn(k2), Evaluation::BlackCheckmateIn(k1)),
        eval_lt(Evaluation::WhiteCheckmateIn(k1), Evaluation::WhiteCheckmateIn(k2)),
{
}

/// The total order is indeed total: of any two evaluations, one ranks no
/// higher than the other, and ranking below is transitive.
pub proof fn lemma_eval_order_total(a: Evaluation, b: Evaluation, c: Evaluation)
    ensures
        eval_lt(a, b) || eval_lt(b, a) || spec_eval_cmp(a, b) is Equal,
        eval_lt(a, b) && eval_lt(b, c) ==> eval_lt(a, c),
{
}

impl Board {
    /// The number of pieces of the given color and type on the board.
    pub open spec fn spec_piece_count(self, c: PlayerColor, t: PieceType) -> int {
        crate::bitboard::squares_of(self.color_bits(c) & self.type_bits(t)).len() as int
    }

    /// The weighted material difference: for each piece type, the count
    /// difference between White and Black times that type's weight, summed
    /// and scaled by the overall material weight.
    pub open spec fn spec_material_score(self, w: EvaluationWeights) -> int {
        ((self.spec_piece_count(PlayerColor::White, PieceType::Queen) - self.spec_piece_count(
            PlayerColor::Black,
            PieceType::Queen,
        )) * w.queen_material_weight + (self.spec_piece_count(PlayerColor::White, PieceType::Rook)
            - self.spec_piece_count(PlayerColor::Black, PieceType::Rook)) * w.rook_material_weight
            + (self.spec_piece_count(PlayerColor::White, PieceType::Bishop)
            - self.spec_piece_count(PlayerColor::Black, PieceType::Bishop))
            * w.bishop_material_weight + (self.spec_piece_count(
            PlayerColor::White,
            PieceType::Knight,
        ) - self.spec_piece_count(PlayerColor::Black, PieceType::Knight))
            * w.knight_material_weight + (self.spec_piece_count(
            PlayerColor::White,
            PieceType::Pawn,
        ) - self.spec_piece_count(PlayerColor::Black, PieceType::Pawn)) * w.pawn_material_weight)
            * w.overall_material_weight
    }

    /// The number of guards the given side has on one square.
    pub open spec fn spec_guard_count(self, c: PlayerColor, target: Square) -> int {
        self.spec_all_guards(c, target).len() as int
    }

    /// The centre-control difference: over the four central squares, the
    /// difference in guard counts between White and Black, times the
    /// centre-control weight.
    pub open spec fn spec_center_control_score(self, w: EvaluationWeights) -> int {
        ((self.spec_guard_count(PlayerColor::White, Square { rank: 3, file: 3 })
            - self.spec_guard_count(PlayerColor::Black, Square { rank: 3, file: 3 }))
            + (self.spec_guard_count(PlayerColor::White, Square { rank: 3, file: 4 })
            - self.spec_guard_count(PlayerColor::Black, Square { rank: 3, file: 4 }))
            + (self.spec_guard_count(PlayerColor::White, Square { rank: 4, file: 4 })
            - self.spec_guard_count(PlayerColor::Black, Square { rank: 4, file: 4 }))
            + (self.spec_guard_count(PlayerColor::White, Square { rank: 4, file: 3 })
            - self.spec_guard_count(PlayerColor::Black, Square { rank: 4, file: 3 })))
            * w.center_control_weight
    }

    /// The mobility difference: White's legal-move count less Black's,
    /// times the mobility weight.
    pub open spec fn spec_mobility_score(self, w: EvaluationWeights) -> int {
        (self.spec_moves_for_side(PlayerColor::White).len() as int - self.spec_moves_for_side(
            PlayerColor::Black,
        ).len() as int) * w.mobility_weight
    }

    /// The whole static score of an undecided position.
    pub open spec fn spec_static_score(self, w: EvaluationWeights) -> int {
        self.spec_material_score(w) + self.spec_center_control_score(w)
            + self.spec_mobility_score(w)
    }

    /// What the static evaluation of the board is: the game result when it
    /// is decided, else the weighted sum of material, centre control and
    /// mobility.
    pub open spec fn spec_evaluate_approximate(self, w: EvaluationWeights) -> Evaluation {
        match self.spec_game_result() {
            BoardResult::Win(PlayerColor::White) => Evaluation::WhiteWin,
            BoardResult::Win(PlayerColor::Black) => Evaluation::BlackWin,
            BoardResult::Draw(_) => Evaluation::Draw,
            BoardResult::InProgress => Evaluation::Score(self.spec_static_score(w) as i64),
        }
    }

    /// Counts the pieces of one color and type.
    fn piece_count(&self, c: PlayerColor, t: PieceType) -> (r: usize)
        ensures
            r as int == self.spec_piece_count(c, t),
            r <= 64,
    {
        let bb = self.color_type_pieces(c, t);
        proof {
            crate::bitboard::lemma_squares_upto_len(bb.0, 64);
        }
        bb.squares().len()
    }

    /// Compares the amount of material each side has and returns the total
    /// weighted difference.
    pub fn evaluate_material_score(&self, evaluation_weights: &EvaluationWeights) -> (r: i64)
        requires
            evaluation_weights.wf(),
        ensures
            r as int == self.spec_material_score(*evaluation_weights),
            -32000000000 <= r <= 32000000000,
    {
        let queen_diff: i64 = (self.piece_count(PlayerColor::White, PieceType::Queen) as i64)
            - (self.piece_count(PlayerColor::Black, PieceType::Queen) as i64);
        let rook_diff: i64 = (self.piece_count(PlayerColor::White, PieceType::Rook) as i64)
            - (self.piece_count(PlayerColor::Black, PieceType::Rook) as i64);
        let bishop_diff: i64 = (self.piece_count(PlayerColor::White, PieceType::Bishop) as i64)
            - (self.piece_count(PlayerColor::Black, PieceType::Bishop) as i64);
        let knight_diff: i64 = (self.piece_count(PlayerColor::White, PieceType::Knight) as i64)
            - (self.piece_count(PlayerColor::Black, PieceType::Knight) as i64);
        let pawn_diff: i64 = (self.piece_count(PlayerColor::White, PieceType::Pawn) as i64)
            - (self.piece_count(PlayerColor::Black, PieceType::Pawn) as i64);
        proof {
            lemma_weight_product(queen_diff as int, evaluation_weights.queen_material_weight as int);
            lemma_weight_product(rook_diff as int, evaluation_weights.rook_material_weight as int);
            lemma_weight_product(
                bishop_diff as int,
                evaluation_weights.bishop_material_weight as int,
            );
            lemma_weight_product(
                knight_diff as int,
                evaluation_weights.knight_material_weight as int,
            );
            lemma_weight_product(pawn_diff as int, evaluation_weights.pawn_material_weight as int);
        }
        let sum: i64 = queen_diff * evaluation_weights.queen_material_weight + rook_diff
            * evaluation_weights.rook_material_weight + bishop_diff
            * evaluation_weights.bishop_material_weight + knight_diff
            * evaluation_weights.knight_material_weight + pawn_diff
            * evaluation_weights.pawn_material_weight;
        proof {
            lemma_sum_product(sum as int, evaluation_weights.overall_material_weight as int);
        }
        sum * evaluation_weights.overall_material_weight
    }
}

impl Board {
    /// Counts the guards one side has on one square.
    fn guard_count(&self, c: PlayerColor, target: Square) -> (r: usize)
        requires
            self.wf(),
            target.in_bounds(),
        ensures
            r as int == self.spec_guard_count(c, target),
            r <= 384,
    {
        proof {
            crate::board::board_logic::lemma_all_guards_len(*self, c, target);
        }
        self.all_squares_that_can_capture_square_theoretical(c, target).len()
    }

    /// The centre-control term of the static score: the difference in
    /// guard counts over the four central squares, weighted.
    pub fn evaluate_center_control(&self, evaluation_weights: &EvaluationWeights) -> (r: i64)
        requires
            self.wf(),
            evaluation_weights.wf(),
        ensures
            r as int == self.spec_center_control_score(*evaluation_weights),
            -50000000 <= r <= 50000000,
    {
        let d1: i64 = (self.guard_count(PlayerColor::White, Square::new(3, 3)) as i64)
            - (self.guard_count(PlayerColor::Black, Square::new(3, 3)) as i64);
        let d2: i64 = (self.guard_count(PlayerColor::White, Square::new(3, 4)) as i64)
            - (self.guard_count(PlayerColor::Black, Square::new(3, 4)) as i64);
        let d3: i64 = (self.guard_count(PlayerColor::White, Square::new(4, 4)) as i64)
            - (self.guard_count(PlayerColor::Black, Square::new(4, 4)) as i64);
        let d4: i64 = (self.guard_count(PlayerColor::White, Square::new(4, 3)) as i64)
            - (self.guard_count(PlayerColor::Black, Square::new(4, 3)) as i64);
        proof {
            lemma_count_product(
                d1 as int + d2 as int + d3 as int + d4 as int,
                evaluation_weights.center_control_weight as int,
            );
        }
        (d1 + d2 + d3 + d4) * evaluation_weights.center_control_weight
    }

    /// The mobility term of the static score: the difference in legal-move
    /// counts, weighted.
    pub fn evaluate_mobility(&self, evaluation_weights: &EvaluationWeights) -> (r: i64)
        requires
            self.wf(),
            has_one_king(self.model(), PlayerColor::White),
            has_one_king(self.model(), PlayerColor::Black),
            evaluation_weights.wf(),
        ensures
            r as int == self.spec_mobility_score(*evaluation_weights),
            -50000000 <= r <= 50000000,
    {
        proof {
            crate::board::board_logic::lemma_side_moves_len(*self, PlayerColor::White, 64);
            crate::board::board_logic::lemma_side_moves_len(*self, PlayerColor::Black, 64);
        }
        let white_moves = self.generate_moves_for_side(PlayerColor::White).len();
        let black_moves = self.generate_moves_for_side(PlayerColor::Black).len();
        let diff: i64 = (white_moves as i64) - (black_moves as i64);
        proof {
            lemma_count_product(diff as int, evaluation_weights.mobility_weight as int);
        }
        diff * evaluation_weights.mobility_weight
    }

    /// Evaluates the position without looking at future moves: the game
    /// result when it is decided, else the weighted material, centre
    /// control and mobility heuristics.
    pub fn evaluate_approximate(&self, evaluation_weights: &EvaluationWeights) -> (r: Evaluation)
        requires
            self.wf(),
            has_one_king(self.model(), PlayerColor::White),
            has_one_king(self.model(), PlayerColor::Black),
            evaluation_weights.wf(),
        ensures
            r == self.spec_evaluate_approximate(*evaluation_weights),
    {
        match self.game_result() {
            BoardResult::Win(PlayerColor::White) => Evaluation::WhiteWin,
            BoardResult::Win(PlayerColor::Black) => Evaluation::BlackWin,
            BoardResult::Draw(_) => Evaluation::Draw,
            BoardResult::InProgress => {
                let material_score = self.evaluate_material_score(evaluation_weights);
                let center_control_score = self.evaluate_center_control(evaluation_weights);
                let mobility_score = self.evaluate_mobility(evaluation_weights);
                Evaluation::Score(material_score + center_control_score + mobility_score)
            },
        }
    }
}

/// A piece-count difference times a bounded weight stays far within range.
proof fn lemma_weight_product(diff: int, w: int)
    by (nonlinear_arith)
    requires
        -64 <= diff <= 64,
        -10000 <= w <= 10000,
    ensures
        -640000 <= diff * w <= 640000,
{
}

/// A bounded weighted sum times the overall weight stays within range.
proof fn lemma_sum_product(sum: int, w: int)
    by (nonlinear_arith)
    requires
        -3200000 <= sum <= 3200000,
        -10000 <= w <= 10000,
    ensures
        -32000000000 <= sum * w <= 32000000000,
{
}

/// A bounded count difference times a bounded weight stays within range.
proof fn lemma_count_product(diff: int, w: int)
    by (nonlinear_arith)
    requires
        -5000 <= diff <= 5000,
        -10000 <= w <= 10000,
    ensures
        -50000000 <= diff * w <= 50000000,
{
}

} // verus!
