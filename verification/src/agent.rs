//! The [Agent] trait and the bundled agents: a decision source hands the
//! game one of the current board's own legal moves.

pub mod local_agent;
pub mod minmax_agent;
pub mod random_agent;

pub use local_agent::LocalAgent;
pub use minmax_agent::MinmaxAgent;
pub use random_agent::RandomAgent;

use vstd::prelude::*;

use crate::game::GameState;
use crate::board::chess_move::Move;

verus! {

/// A decision source for one side of a game: given the current game state,
/// it picks the move to play. The game guarantees an ongoing position, and
/// the agent must answer with one of the board's own legal moves.
pub trait Agent {
    /// Requests a move for the current state. The chosen move must be one
    /// of the moves the current board itself generates.
    fn agent_move_request(&mut self, game_state: &GameState) -> (r: Move)
        requires
            game_state.wf(),
            game_state.current_board.spec_game_result() is InProgress,
        ensures
            game_state.current_board.spec_moves_for_side(
                game_state.current_board.active_color,
            ).contains(r),
    ;
}

} // verus!
