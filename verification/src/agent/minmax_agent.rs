//! The [MinmaxAgent]: a depth-bounded minimax search with alpha-beta
//! pruning over the static evaluation, picking the best root move.

use vstd::prelude::*;

use crate::agent::Agent;
use crate::board::board_checks::has_one_king;
use crate::board::board_core::Board;
use crate::board::board_evaluation::{eval_lt, Evaluation, EvaluationWeights};
use crate::board::board_logic::lemma_side_move_props;
use crate::board::board_result::BoardResult;
use crate::board::chess_move::Move;
use crate::board::player_color::PlayerColor;
use crate::game::GameState;

verus! {

/// An agent that uses the minimax algorithm with alpha-beta pruning to
/// pick the move it believes best.
pub struct MinmaxAgent {
    /// The weights handed to the static evaluation at the leaves.
    pub evaluation_weights: EvaluationWeights,
    /// How many moves into the future to evaluate.
    pub evaluation_depth: usize,
}

impl MinmaxAgent {
    /// Creates a new agent searching to the given depth with the default
    /// evaluation weights.
    pub fn new(evaluation_depth: usize) -> (r: Self)
        ensures
            r.evaluation_depth == evaluation_depth,
            r.evaluation_weights.wf(),
    {
        MinmaxAgent { evaluation_weights: EvaluationWeights::default(), evaluation_depth }
    }

    /// Evaluates a position `depth` moves into the future, with alpha-beta
    /// pruning over the full window.
    pub fn evaluate(board: &Board, evaluation_weights: &EvaluationWeights, depth: usize) -> (r:
        Evaluation)
        requires
            board.wf(),
            has_one_king(board.model(), PlayerColor::White),
            has_one_king(board.model(), PlayerColor::Black),
            evaluation_weights.wf(),
        ensures
            depth == 0 ==> r == board.spec_evaluate_approximate(*evaluation_weights),
            depth > 0 ==> (match board.spec_game_result() {
                BoardResult::Win(PlayerColor::White) => r == Evaluation::WhiteWin,
                BoardResult::Win(PlayerColor::Black) => r == Evaluation::BlackWin,
                BoardResult::Draw(_) => r == Evaluation::Draw,
                BoardResult::InProgress => r is WhiteCheckmateIn || r is BlackCheckmateIn || r
                    is Score,
            }),
    {
        Self::evaluate_recursive(
            board,
            evaluation_weights,
            Evaluation::BlackWin,
            Evaluation::WhiteWin,
            depth,
        )
    }

    /// Recursively evaluates every move up to `depth` moves ahead, with
    /// minimax and alpha-beta pruning. A decided game evaluates to its
    /// result; at depth zero the static evaluation decides; a forced-mate
    /// value moving one ply up gains one move of distance; and a move onto
    /// the opposing king, which legal play never offers, counts as an
    /// immediate win without recursing. Each node keeps its own window:
    /// sibling branches share no pruning state, so the value cannot depend
    /// on the order branches are visited in.
    pub fn evaluate_recursive(
        board: &Board,
        evaluation_weights: &EvaluationWeights,
        alpha: Evaluation,
        beta: Evaluation,
        depth: usize,
    ) -> (r: Evaluation)
        requires
            board.wf(),
            has_one_king(board.model(), PlayerColor::White),
            has_one_king(board.model(), PlayerColor::Black),
            evaluation_weights.wf(),
        ensures
            depth == 0 ==> r == board.spec_evaluate_approximate(*evaluation_weights),
            depth > 0 ==> (match board.spec_game_result() {
                BoardResult::Win(PlayerColor::White) => r == Evaluation::WhiteWin,
                BoardResult::Win(PlayerColor::Black) => r == Evaluation::BlackWin,
                BoardResult::Draw(_) => r == Evaluation::Draw,
                BoardResult::InProgress => r is WhiteCheckmateIn || r is BlackCheckmateIn || r
                    is Score,
            }),
        decreases depth,
    {
        if depth == 0 {
            return board.evaluate_approximate(evaluation_weights);
        }
        match board.game_result() {
            BoardResult::Win(PlayerColor::White) => {
                return Evaluation::WhiteWin;
            },
            BoardResult::Win(PlayerColor::Black) => {
                return Evaluation::BlackWin;
            },
            BoardResult::Draw(_) => {
                return Evaluation::Draw;
            },
            BoardResult::InProgress => {},
        }
        let active = board.active_color();
        let possible_moves = board.generate_moves_for_side(active);
        let maximizing = match active {
            PlayerColor::White => true,
            PlayerColor::Black => false,
        };
        let mut best_value = if maximizing {
            Evaluation::BlackWin
        } else {
            Evaluation::WhiteWin
        };
        let mut node_alpha = alpha;
        let mut node_beta = beta;
        let mut i: usize = 0;
        while i < possible_moves.len()
            invariant
                board.wf(),
                has_one_king(board.model(), PlayerColor::White),
                has_one_king(board.model(), PlayerColor::Black),
                evaluation_weights.wf(),
                active == board.active_color,
                depth >= 1,
                possible_moves@ == board.spec_moves_for_side(active),
            decreases possible_moves@.len() - i,
        {
            let m = possible_moves[i];
            proof {
                assert(board.spec_moves_for_side(active).contains(m));
                lemma_side_move_props(*board, active, m);
            }
            let next_board = board.make_move(&m);
            let value = if next_board.has_exactly_one_king(PlayerColor::White)
                && next_board.has_exactly_one_king(PlayerColor::Black) {
                Self::evaluate_recursive(
                    &next_board,
                    evaluation_weights,
                    node_alpha,
                    node_beta,
                    depth - 1,
                )
            } else {
                // The move took the opposing king: an immediate win for
                // the mover.
                if maximizing {
                    Evaluation::WhiteWin
                } else {
                    Evaluation::BlackWin
                }
            };
            if maximizing {
                best_value = best_value.max(value);
                match best_value.cmp(&node_beta) {
                    core::cmp::Ordering::Less => {},
                    _ => {
                        // Beta cutoff: the minimizer already has a better
                        // guarantee elsewhere.
                        i = i + 1;
                        break ;
                    },
                }
                node_alpha = node_alpha.max(best_value);
            } else {
                best_value = best_value.min(value);
                match best_value.cmp(&node_alpha) {
                    core::cmp::Ordering::Greater => {},
                    _ => {
                        // Alpha cutoff: the maximizer already has a better
                        // guarantee elsewhere.
                        i = i + 1;
                        break ;
                    },
                }
                node_beta = node_beta.min(best_value);
            }
            i = i + 1;
        }
        Self::step_back(best_value)
    }

    /// Evaluates a position with plain, unpruned minimax: the same value
    /// the pruned search computes, visiting every node.
    pub fn evaluate_minimax(board: &Board, evaluation_weights: &EvaluationWeights, depth: usize) -> (r:
        Evaluation)
        requires
            board.wf(),
            has_one_king(board.model(), PlayerColor::White),
            has_one_king(board.model(), PlayerColor::Black),
            evaluation_weights.wf(),
        ensures
            depth == 0 ==> r == board.spec_evaluate_approximate(*evaluation_weights),
            depth > 0 ==> (match board.spec_game_result() {
                BoardResult::Win(PlayerColor::White) => r == Evaluation::WhiteWin,
                BoardResult::Win(PlayerColor::Black) => r == Evaluation::BlackWin,
                BoardResult::Draw(_) => r == Evaluation::Draw,
                BoardResult::InProgress => r is WhiteCheckmateIn || r is BlackCheckmateIn || r
                    is Score,
            }),
        decreases depth,
    {
        if depth == 0 {
            return board.evaluate_approximate(evaluation_weights);
        }
        match board.game_result() {
            BoardResult::Win(PlayerColor::White) => {
                return Evaluation::WhiteWin;
            },
            BoardResult::Win(PlayerColor::Black) => {
                return Evaluation::BlackWin;
            },
            BoardResult::Draw(_) => {
                return Evaluation::Draw;
            },
            BoardResult::InProgress => {},
        }
        let active = board.active_color();
        let possible_moves = board.generate_moves_for_side(active);
        let maximizing = match active {
            PlayerColor::White => true,
            PlayerColor::Black => false,
        };
        let mut best_value = if maximizing {
            Evaluation::BlackWin
        } else {
            Evaluation::WhiteWin
        };
        let mut i: usize = 0;
        while i < possible_moves.len()
            invariant
                board.wf(),
                has_one_king(board.model(), PlayerColor::White),
                has_one_king(board.model(), PlayerColor::Black),
                evaluation_weights.wf(),
                active == board.active_color,
                depth >= 1,
                possible_moves@ == board.spec_moves_for_side(active),
            decreases possible_moves@.len() - i,
        {
            let m = possible_moves[i];
            proof {
                assert(board.spec_moves_for_side(active).contains(m));
                lemma_side_move_props(*board, active, m);
            }
            let next_board = board.make_move(&m);
            let value = if next_board.has_exactly_one_king(PlayerColor::White)
                && next_board.has_exactly_one_king(PlayerColor::Black) {
                Self::evaluate_minimax(&next_board, evaluation_weights, depth - 1)
            } else {
                if maximizing {
                    Evaluation::WhiteWin
                } else {
                    Evaluation::BlackWin
                }
            };
            if maximizing {
                best_value = best_value.max(value);
            } else {
                best_value = best_value.min(value);
            }
            i = i + 1;
        }
        Self::step_back(best_value)
    }

    /// Moves a subtree's value one ply up: a decided win becomes a mate in
    /// one, a forced mate gains one move of distance, a draw collapses to
    /// a score of zero, and plain scores pass through unchanged. The mate
    /// counters stop growing at the counter type's ceiling, far beyond any
    /// reachable depth.
    fn step_back(value: Evaluation) -> (r: Evaluation)
        ensures
            r == (match value {
                Evaluation::WhiteWin => Evaluation::WhiteCheckmateIn(1),
                Evaluation::WhiteCheckmateIn(x) => Evaluation::WhiteCheckmateIn(
                    crate::board::board_core::sat_inc_usize(x),
                ),
                Evaluation::BlackWin => Evaluation::BlackCheckmateIn(1),
                Evaluation::BlackCheckmateIn(x) => Evaluation::BlackCheckmateIn(
                    crate::board::board_core::sat_inc_usize(x),
                ),
                Evaluation::Draw => Evaluation::Score(0),
                Evaluation::Score(x) => Evaluation::Score(x),
            }),
    {
        match value {
            Evaluation::WhiteWin => Evaluation::WhiteCheckmateIn(1),
            Evaluation::WhiteCheckmateIn(x) => {
                if x < usize::MAX {
                    Evaluation::WhiteCheckmateIn(x + 1)
                } else {
                    Evaluation::WhiteCheckmateIn(x)
                }
            },
            Evaluation::BlackWin => Evaluation::BlackCheckmateIn(1),
            Evaluation::BlackCheckmateIn(x) => {
                if x < usize::MAX {
                    Evaluation::BlackCheckmateIn(x + 1)
                } else {
                    Evaluation::BlackCheckmateIn(x)
                }
            },
            Evaluation::Draw => Evaluation::Score(0),
            Evaluation::Score(x) => Evaluation::Score(x),
        }
    }
}

/// Whether the mover prefers the new evaluation over the old one: White
/// wants the ranking to rise, Black wants it to fall.
pub fn is_new_score_better_than_old_score(
    player_color: PlayerColor,
    old_score: Evaluation,
    new_score: Evaluation,
) -> (r: bool)
    ensures
        r == (match player_color {
            PlayerColor::White => eval_lt(old_score, new_score),
            PlayerColor::Black => eval_lt(new_score, old_score),
        }),
{
    match player_color {
        PlayerColor::White => match old_score.cmp(&new_score) {
            core::cmp::Ordering::Less => true,
            _ => false,
        },
        PlayerColor::Black => match new_score.cmp(&old_score) {
            core::cmp::Ordering::Less => true,
            _ => false,
        },
    }
}

impl Agent for MinmaxAgent {
    fn agent_move_request(&mut self, game_state: &GameState) -> (r: Move) {
        let board = game_state.current_board();
        let agent_color = board.active_color();
        let moves = board.generate_moves_for_side(agent_color);
        let mut best_move = moves[0];
        proof {
            assert(board.spec_moves_for_side(agent_color).contains(moves@[0]));
            lemma_side_move_props(*board, agent_color, moves@[0]);
        }
        if !self.weights_ok() {
            // Degenerate weights would overflow the scorer; fall back to
            // the first legal move.
            return best_move;
        }
        let mut best_score = Self::score_root_move(
            board,
            &self.evaluation_weights,
            &best_move,
            self.evaluation_depth,
        );
        let mut i: usize = 1;
        while i < moves.len()
            invariant
                board.wf(),
                has_one_king(board.model(), PlayerColor::White),
                has_one_king(board.model(), PlayerColor::Black),
                self.evaluation_weights.wf(),
                agent_color == board.active_color,
                moves@ == board.spec_moves_for_side(agent_color),
                board.spec_moves_for_side(agent_color).contains(best_move),
            decreases moves@.len() - i,
        {
            let m = moves[i];
            proof {
                assert(board.spec_moves_for_side(agent_color).contains(moves@[i as int]));
                lemma_side_move_props(*board, agent_color, moves@[i as int]);
            }
            let score = Self::score_root_move(
                board,
                &self.evaluation_weights,
                &m,
                self.evaluation_depth,
            );
            if is_new_score_better_than_old_score(agent_color, best_score, score) {
                best_move = m;
                best_score = score;
            }
            i = i + 1;
        }
        best_move
    }
}

impl MinmaxAgent {
    /// Whether the agent's weights lie in the range the scorer accepts.
    fn weights_ok(&self) -> (r: bool)
        ensures
            r == self.evaluation_weights.wf(),
    {
        let w = &self.evaluation_weights;
        -10000 <= w.overall_material_weight && w.overall_material_weight <= 10000
            && -10000 <= w.queen_material_weight && w.queen_material_weight <= 10000
            && -10000 <= w.rook_material_weight && w.rook_material_weight <= 10000
            && -10000 <= w.bishop_material_weight && w.bishop_material_weight <= 10000
            && -10000 <= w.knight_material_weight && w.knight_material_weight <= 10000
            && -10000 <= w.pawn_material_weight && w.pawn_material_weight <= 10000
            && -10000 <= w.center_control_weight && w.center_control_weight <= 10000
            && -10000 <= w.mobility_weight && w.mobility_weight <= 10000
    }

    /// Evaluates one root move on its own board copy, with its own
    /// alpha-beta window: root branches share no pruning state, so their
    /// values do not depend on the order they are visited in.
    fn score_root_move(
        board: &Board,
        evaluation_weights: &EvaluationWeights,
        m: &Move,
        depth: usize,
    ) -> (r: Evaluation)
        requires
            board.wf(),
            has_one_king(board.model(), board.active_color),
            crate::board::board_core::move_applicable(board.model(), *m),
            has_one_king(
                crate::board::board_core::spec_move_result(board.model(), *m),
                board.active_color,
            ),
            evaluation_weights.wf(),
    {
        let next_board = board.make_move(m);
        if next_board.has_exactly_one_king(PlayerColor::White) && next_board.has_exactly_one_king(
            PlayerColor::Black,
        ) {
            Self::evaluate(&next_board, evaluation_weights, depth)
        } else {
            // The move took the opposing king: an immediate win for the
            // mover.
            match board.active_color() {
                PlayerColor::White => Evaluation::WhiteWin,
                PlayerColor::Black => Evaluation::BlackWin,
            }
        }
    }
}

} // verus!
