//! Tests for the evaluation order, the static scorer, the search, and the
//! move generator's counts.

use std::str::FromStr;

use rust_chess_engine::agent::minmax_agent::MinmaxAgent;
use rust_chess_engine::board::{
    Board, BoardConfiguration, Evaluation, EvaluationWeights, MoveError, PlayerColor,
};
use rust_chess_engine::agent::{Agent, RandomAgent};
use rust_chess_engine::game::{Game, GameState};
use rust_chess_engine::parse::MoveCommand;

#[test]
fn test_equal_evaluations_draw() {
    assert!(Evaluation::WhiteWin == Evaluation::WhiteWin);
    assert!(Evaluation::WhiteCheckmateIn(1) == Evaluation::WhiteCheckmateIn(1));
    assert!(Evaluation::Draw == Evaluation::Draw);
    assert!(Evaluation::BlackCheckmateIn(1) == Evaluation::BlackCheckmateIn(1));
    assert!(Evaluation::BlackWin == Evaluation::BlackWin);
    assert!(Evaluation::Score(0) == Evaluation::Score(0));
}

#[test]
fn test_evaluation_white_win_greater_than_all_others() {
    assert!(Evaluation::WhiteWin > Evaluation::WhiteCheckmateIn(1));
    assert!(Evaluation::WhiteWin > Evaluation::Draw);
    assert!(Evaluation::WhiteWin > Evaluation::Score(999999));
    assert!(Evaluation::WhiteWin > Evaluation::BlackCheckmateIn(1));
    assert!(Evaluation::WhiteWin > Evaluation::BlackWin);
}

#[test]
fn test_evaluation_white_checkmate() {
    assert!(Evaluation::WhiteCheckmateIn(1) < Evaluation::WhiteWin);
    assert!(Evaluation::WhiteCheckmateIn(1) > Evaluation::Score(999999));
    assert!(Evaluation::WhiteCheckmateIn(1) > Evaluation::Draw);
    assert!(Evaluation::WhiteCheckmateIn(1) > Evaluation::BlackCheckmateIn(1));
    assert!(Evaluation::WhiteCheckmateIn(1) > Evaluation::BlackWin);
}

#[test]
fn test_relative_scores() {
    // White wants to maximize the evaluation: a shorter mate for the
    // mating side outranks a longer one, on both sides of the order.
    assert!(Evaluation::BlackCheckmateIn(1) > Evaluation::BlackCheckmateIn(2));
    assert!(Evaluation::WhiteCheckmateIn(1) < Evaluation::WhiteCheckmateIn(2));
    assert!(Evaluation::Score(1000) > Evaluation::Score(-30));
    assert!(Evaluation::Score(10) > Evaluation::Draw);
    assert!(Evaluation::Score(-10) < Evaluation::Draw);
}

#[test]
fn evaluate_center_control() {
    let board = Board::new_board_with_configuration(
        &BoardConfiguration::from_str(
            "r1bqkbnr/pppppppp/2n5/8/4P3/8/PPPP1PPP/RNBQKBNR b KQkq - 0 1",
        )
        .unwrap(),
    );
    let mut evaluation_weights = EvaluationWeights::default();
    evaluation_weights.center_control_weight = 10;
    // One centre square guarded by White against two guarded by Black.
    assert_eq!(-10, board.evaluate_center_control(&evaluation_weights));
}

#[test]
fn material_score_counts_pieces() {
    let board = Board::new_board_with_configuration(
        &BoardConfiguration::from_str("q6k/8/8/3B4/8/8/8/K7 w - - 0 1").unwrap(),
    );
    let weights = EvaluationWeights::default();
    // A white bishop against a black queen: 3 pawns less 9 pawns, in
    // tenths.
    assert_eq!(-60, board.evaluate_material_score(&weights));
}

#[test]
fn default_starting_board_has_twenty_moves() {
    let board = Board::new_default_starting_board();
    let moves = board.generate_moves_for_side(PlayerColor::White);
    assert_eq!(moves.len(), 20);
    let mut pawn_moves = 0;
    for m in moves.iter() {
        match m {
            rust_chess_engine::board::Move::NormalMove(data) => {
                if data.starting_square.rank == 1 {
                    pawn_moves += 1;
                }
            }
            _ => {}
        }
    }
    // Sixteen pawn moves and four knight moves.
    assert_eq!(pawn_moves, 16);
}

#[test]
fn resolution_errors_are_reported() {
    let board = Board::new_default_starting_board();
    // No queen reaches e3 from the starting position.
    let no_move = board.attempt_move(&MoveCommand::from_str("Qe3").unwrap());
    assert_eq!(no_move.unwrap_err(), MoveError::NoPossibleMove);
    // Two knights reach f4 and nothing disambiguates them.
    let ambiguous_board = Board::new_board_with_configuration(
        &BoardConfiguration::from_str("k7/8/8/8/8/8/1K2N1N1/8 w - - 0 1").unwrap(),
    );
    let too_many = ambiguous_board.attempt_move(&MoveCommand::from_str("Nf4").unwrap());
    assert_eq!(too_many.unwrap_err(), MoveError::TooManyMoves);
    // A discriminant resolves the same command.
    let resolved = ambiguous_board.attempt_move(&MoveCommand::from_str("Ngf4").unwrap());
    assert!(resolved.is_ok());
    // Exposing the king is possible but illegal.
    let pinned_board = Board::new_board_with_configuration(
        &BoardConfiguration::from_str("q6k/8/8/3B4/8/8/8/K7 w - - 0 1").unwrap(),
    );
    let illegal = pinned_board.attempt_move(&MoveCommand::from_str("Bc4").unwrap());
    assert_eq!(illegal.unwrap_err(), MoveError::IllegalMove);
}

#[test]
fn alpha_beta_matches_full_minimax() {
    let weights = EvaluationWeights::default();
    let sparse = Board::new_board_with_configuration(
        &BoardConfiguration::from_str("q6k/8/8/3B4/8/8/8/K7 w - - 0 1").unwrap(),
    );
    for depth in 0..3 {
        let pruned = MinmaxAgent::evaluate(&sparse, &weights, depth);
        let full = MinmaxAgent::evaluate_minimax(&sparse, &weights, depth);
        assert_eq!(pruned, full);
    }
    let start = Board::new_default_starting_board();
    let pruned = MinmaxAgent::evaluate(&start, &weights, 2);
    let full = MinmaxAgent::evaluate_minimax(&start, &weights, 2);
    assert_eq!(pruned, full);
}

#[test]
fn search_finds_mate_in_one() {
    // White mates with Qd7; the search must see the forced mate one move
    // out.
    let board = Board::new_board_with_configuration(
        &BoardConfiguration::from_str("3k4/8/3K4/8/Q7/8/8/8 w - - 0 1").unwrap(),
    );
    let weights = EvaluationWeights::default();
    let value = MinmaxAgent::evaluate(&board, &weights, 2);
    assert_eq!(value, Evaluation::WhiteCheckmateIn(1));
}

#[test]
fn minmax_agent_picks_a_legal_move() {
    let mut agent = MinmaxAgent::new(1);
    let game = GameState {
        current_board: Board::new_default_starting_board(),
    };
    let chosen = agent.agent_move_request(&game);
    let legal = game.current_board().generate_moves_for_side(PlayerColor::White);
    assert!(legal.contains(&chosen));
}

#[test]
fn random_agent_picks_a_legal_move() {
    let mut agent = RandomAgent;
    let game = GameState {
        current_board: Board::new_default_starting_board(),
    };
    let chosen = agent.agent_move_request(&game);
    let legal = game.current_board().generate_moves_for_side(PlayerColor::White);
    assert!(legal.contains(&chosen));
}

#[test]
fn game_round_advances_both_sides() {
    let mut game = Game::new(MinmaxAgent::new(1), MinmaxAgent::new(1));
    game.next_round();
    // After one round each side has moved once.
    assert_eq!(
        game.game_state.current_board.board_configuration().fullmove_number(),
        2
    );
}

#[test]
fn evaluation_from_signed_mate_distance() {
    let evaluation = Evaluation::from(2isize);
    assert_eq!(Evaluation::WhiteCheckmateIn(2), evaluation);
    let evaluation: Evaluation = (-10isize).into();
    assert_eq!(Evaluation::BlackCheckmateIn(10), evaluation);
    let evaluation: Evaluation = 0isize.into();
    assert_eq!(Evaluation::Draw, evaluation);
}
