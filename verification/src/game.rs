//! The game loop's state: the current board, the move application that
//! advances it, and the round-by-round progression between two agents.

use vstd::prelude::*;

use crate::agent::Agent;
use crate::board::board_checks::has_one_king;
use crate::board::board_core::{spec_move_result, Board};
use crate::board::board_logic::lemma_side_move_props;
use crate::board::board_result::BoardResult;
use crate::board::chess_move::Move;
use crate::board::error::MoveError;
use crate::board::player_color::PlayerColor;

verus! {

/// Holds the current board of an ongoing game.
pub struct GameState {
    /// The current board.
    pub current_board: Board,
}

impl GameState {
    /// The state's well-formedness: a consistent board with one king per
    /// side.
    pub open spec fn wf(self) -> bool {
        &&& self.current_board.wf()
        &&& has_one_king(self.current_board.model(), PlayerColor::White)
        &&& has_one_king(self.current_board.model(), PlayerColor::Black)
    }

    /// Gets the current board.
    pub fn current_board(&self) -> (r: &Board)
        ensures
            *r == self.current_board,
    {
        &self.current_board
    }

    /// Plays one of the current board's own legal moves and returns the
    /// advanced state. The move must come from the board's move
    /// generation, so the error arm is never taken.
    pub fn update(&self, m: &Move) -> (r: Result<GameState, MoveError>)
        requires
            self.current_board.wf(),
            has_one_king(self.current_board.model(), self.current_board.active_color),
            self.current_board.spec_moves_for_side(self.current_board.active_color).contains(*m),
        ensures
            r is Ok,
            r->Ok_0.current_board.wf(),
            r->Ok_0.current_board.model() == spec_move_result(self.current_board.model(), *m),
    {
        proof {
            lemma_side_move_props(self.current_board, self.current_board.active_color, *m);
        }
        Ok(GameState { current_board: self.current_board.make_move(m) })
    }
}

/// A game of chess between two agents; the white agent moves first in each
/// round.
pub struct Game<A1, A2> where A1: Agent, A2: Agent {
    /// The running state of the game.
    pub game_state: GameState,
    /// The agent playing White.
    pub agent_white: A1,
    /// The agent playing Black.
    pub agent_black: A2,
}

impl<A1, A2> Game<A1, A2> where A1: Agent, A2: Agent {
    /// Creates a new game between the given agents, on the standard
    /// starting board.
    pub fn new(agent_white: A1, agent_black: A2) -> (r: Self)
        ensures
            r.game_state.wf(),
            r.game_state.current_board.model().mailbox
                == crate::board::board_config::standard_mailbox_seq(),
    {
        let board = Board::new_default_starting_board();
        proof {
            lemma_standard_board_kings(board);
        }
        Game { game_state: GameState { current_board: board }, agent_white, agent_black }
    }

    /// Progresses the game by one round: one move by White and, if the
    /// game is still going and both kings stand, one move by Black.
    pub fn next_round(&mut self)
        requires
            old(self).game_state.wf(),
        ensures
            final(self).game_state.current_board.wf(),
    {
        if self.playable() {
            let m = self.agent_white.agent_move_request(&self.game_state);
            match self.game_state.update(&m) {
                Ok(next) => {
                    self.game_state = next;
                },
                Err(_) => {},
            }
        }
        if self.playable() {
            let m = self.agent_black.agent_move_request(&self.game_state);
            match self.game_state.update(&m) {
                Ok(next) => {
                    self.game_state = next;
                },
                Err(_) => {},
            }
        }
    }

    /// Whether the game can accept another move: both kings stand and the
    /// result is still in progress.
    fn playable(&self) -> (r: bool)
        requires
            self.game_state.current_board.wf(),
        ensures
            r ==> self.game_state.wf() && self.game_state.current_board.spec_game_result()
                is InProgress,
    {
        let board = &self.game_state.current_board;
        if !board.has_exactly_one_king(PlayerColor::White) {
            return false;
        }
        if !board.has_exactly_one_king(PlayerColor::Black) {
            return false;
        }
        match board.game_result() {
            BoardResult::InProgress => true,
            _ => false,
        }
    }
}

/// The standard starting board has one king per side.
proof fn lemma_standard_board_kings(b: Board)
    requires
        b.model().mailbox == crate::board::board_config::standard_mailbox_seq(),
    ensures
        has_one_king(b.model(), PlayerColor::White),
        has_one_king(b.model(), PlayerColor::Black),
{
    assert(b.model().piece_at_is(4, PlayerColor::White, crate::board::piece_type::PieceType::King));
    assert(b.model().piece_at_is(
        60,
        PlayerColor::Black,
        crate::board::piece_type::PieceType::King,
    ));
    assert forall|j: int|
        0 <= j < 64 && #[trigger] b.model().piece_at_is(
            j,
            PlayerColor::White,
            crate::board::piece_type::PieceType::King,
        ) implies j == 4 by {}
    assert forall|j: int|
        0 <= j < 64 && #[trigger] b.model().piece_at_is(
            j,
            PlayerColor::Black,
            crate::board::piece_type::PieceType::King,
        ) implies j == 60 by {}
}

} // verus!
