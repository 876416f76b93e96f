//! The [RandomAgent]: an agent that plays a uniformly chosen legal move.
//! Useful mostly for debugging and as the simplest opponent.

use vstd::prelude::*;

use crate::agent::Agent;
use crate::board::chess_move::Move;
use crate::game::GameState;

verus! {

/// An agent that makes random moves.
pub struct RandomAgent;

/// Relies on rand::random_range over `0..bound`: a value drawn from the
/// given range, so below the bound. Nothing is assumed about how the value
/// is distributed.
#[verifier::external_body]
fn random_index(bound: usize) -> (r: usize)
    requires
        bound > 0,
    ensures
        r < bound,
{
    rand::random_range(0..bound)
}

impl Agent for RandomAgent {
    fn agent_move_request(&mut self, game_state: &GameState) -> (r: Move) {
        let board = game_state.current_board();
        let moving_color = board.active_color();
        let moves = board.generate_moves_for_side(moving_color);
        let move_index: usize = random_index(moves.len());
        let chosen = moves[move_index];
        proof {
            assert(board.spec_moves_for_side(moving_color).contains(chosen));
        }
        chosen
    }
}

} // verus!
