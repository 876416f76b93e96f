//! Tests for board construction, move application, game results, clocks,
//! and castling.

use std::str::FromStr;

use rust_chess_engine::board::{Board, BoardConfiguration, Piece, PieceType, PlayerColor, Square};
use rust_chess_engine::parse::MoveCommand;

#[test]
fn test_making_legal_move_works() {
    let board = Board::new_default_starting_board();
    let move_command = MoveCommand::from_str("e4").unwrap();
    let new_board = board.attempt_move(&move_command).unwrap();
    let expected_new_board_config =
        BoardConfiguration::from_str("rnbqkbnr/pppppppp/8/8/4P3/8/PPPP1PPP/RNBQKBNR b KQkq - 0 1")
            .unwrap();
    assert_eq!(expected_new_board_config, new_board.board_configuration());
}

#[test]
fn test_making_impossible_move_fails() {
    let board = Board::new_default_starting_board();
    let move_command = MoveCommand::from_str("Qe3").unwrap();
    let new_board = board.attempt_move(&move_command);
    assert!(new_board.is_err());
}

#[test]
fn test_moving_through_occupancy_fails() {
    let board = Board::new_default_starting_board();
    let move_command = MoveCommand::from_str("Qd3").unwrap();
    let new_board = board.attempt_move(&move_command);
    assert!(new_board.is_err());
}

#[test]
fn test_moving_while_in_check_fails() {
    let board = Board::new_board_with_configuration(
        &BoardConfiguration::from_str("q6k/8/8/3B4/8/8/8/K7 w - - 0 1").unwrap(),
    );
    let move_command = MoveCommand::from_str("Bc4").unwrap();
    let new_board = board.attempt_move(&move_command);
    assert!(new_board.is_err());
}

#[test]
fn test_moving_out_of_check_succeeds() {
    let board = Board::new_board_with_configuration(
        &BoardConfiguration::from_str("q6k/8/8/3B4/8/8/8/K7 w - - 0 1").unwrap(),
    );
    let move_command = MoveCommand::from_str("Kb2").unwrap();
    let new_board = board.attempt_move(&move_command);
    assert!(new_board.is_ok());
}

#[test]
fn test_blocking_check_works() {
    let board = Board::new_board_with_configuration(
        &BoardConfiguration::from_str("q6k/8/8/3B4/8/8/8/K7 w - - 0 1").unwrap(),
    );
    let move_command = MoveCommand::from_str("Ba2").unwrap();
    let new_board = board.attempt_move(&move_command);
    assert!(new_board.is_ok());
}

#[test]
fn test_capturing_checking_piece_works() {
    let board = Board::new_board_with_configuration(
        &BoardConfiguration::from_str("q6k/8/8/3B4/8/8/8/K7 w - - 0 1").unwrap(),
    );
    let move_command = MoveCommand::from_str("Bxa8").unwrap();
    let new_board = board.attempt_move(&move_command);
    assert!(new_board.is_ok());
}

#[test]
fn test_clone_configuration_identical() {
    let board = Board::new_default_starting_board();
    let new_board = board.clone();
    assert_eq!(board.board_configuration(), new_board.board_configuration());
}

#[test]
fn test_clone_identical_for_custom_board_config() {
    let board_config = BoardConfiguration::from_str("q7/8/8/8/8/8/1Q6/1K6 w - - 0 1").unwrap();
    let board = Board::new_board_with_configuration(&board_config);
    let new_board = board.clone();
    assert_eq!(board_config, new_board.board_configuration());
}

#[test]
fn initialize_board_in_progress() {
    let board = Board::new_default_starting_board();
    assert!(board.game_result().is_in_progress());
}

#[test]
fn initialize_board_in_end_position() {
    let board_config = BoardConfiguration::from_str("3k4/3Q4/3K4/8/8/8/8/8 b - - 0 1").unwrap();
    let board = Board::new_board_with_configuration(&board_config);
    assert!(board.game_result().is_over());
    assert!(!board.game_result().is_draw());
    assert_eq!(PlayerColor::White, board.game_result().get_winner().unwrap());
}

#[test]
fn initialize_board_move_into_end_position() {
    let board_config = BoardConfiguration::from_str("3k4/8/3K4/8/Q7/8/8/8 w - - 0 1").unwrap();
    let board = Board::new_board_with_configuration(&board_config);
    let mv = MoveCommand::from_str("Qd7").unwrap();
    let new_board = board.attempt_move(&mv).unwrap();
    assert!(new_board.game_result().is_over());
    assert!(!new_board.game_result().is_draw());
    assert_eq!(PlayerColor::White, new_board.game_result().get_winner().unwrap());
}

#[test]
fn adding_piece_to_board_works() {
    let mut board = Board::new_blank_board();
    let square = Square::new(0, 0);
    let new_piece = Piece::new(PlayerColor::White, PieceType::Pawn);
    assert!(board.piece_at(&square).is_none());
    board.add_piece(new_piece, &square);
    assert!(board.piece_at(&square).is_some());
    assert_eq!(new_piece, board.piece_at(&square).unwrap());
}

#[test]
fn removing_piece_from_board_works() {
    let mut board = Board::new_default_starting_board();
    let square = Square::new(0, 0);
    assert!(board.piece_at(&square).is_some());
    board.remove_piece(&square);
    assert!(board.piece_at(&square).is_none());
}

#[test]
fn default_starting_board_has_all_correct_pieces() {
    let squares_to_pieces = [
        ("a1", Piece::new(PlayerColor::White, PieceType::Rook)),
        ("b1", Piece::new(PlayerColor::White, PieceType::Knight)),
        ("c1", Piece::new(PlayerColor::White, PieceType::Bishop)),
        ("d1", Piece::new(PlayerColor::White, PieceType::Queen)),
        ("e1", Piece::new(PlayerColor::White, PieceType::King)),
        ("f1", Piece::new(PlayerColor::White, PieceType::Bishop)),
        ("g1", Piece::new(PlayerColor::White, PieceType::Knight)),
        ("h1", Piece::new(PlayerColor::White, PieceType::Rook)),
        ("a2", Piece::new(PlayerColor::White, PieceType::Pawn)),
        ("b2", Piece::new(PlayerColor::White, PieceType::Pawn)),
        ("c2", Piece::new(PlayerColor::White, PieceType::Pawn)),
        ("d2", Piece::new(PlayerColor::White, PieceType::Pawn)),
        ("e2", Piece::new(PlayerColor::White, PieceType::Pawn)),
        ("f2", Piece::new(PlayerColor::White, PieceType::Pawn)),
        ("g2", Piece::new(PlayerColor::White, PieceType::Pawn)),
        ("a8", Piece::new(PlayerColor::Black, PieceType::Rook)),
        ("b8", Piece::new(PlayerColor::Black, PieceType::Knight)),
        ("c8", Piece::new(PlayerColor::Black, PieceType::Bishop)),
        ("d8", Piece::new(PlayerColor::Black, PieceType::Queen)),
        ("e8", Piece::new(PlayerColor::Black, PieceType::King)),
        ("f8", Piece::new(PlayerColor::Black, PieceType::Bishop)),
        ("g8", Piece::new(PlayerColor::Black, PieceType::Knight)),
        ("h8", Piece::new(PlayerColor::Black, PieceType::Rook)),
        ("a7", Piece::new(PlayerColor::Black, PieceType::Pawn)),
        ("b7", Piece::new(PlayerColor::Black, PieceType::Pawn)),
        ("c7", Piece::new(PlayerColor::Black, PieceType::Pawn)),
        ("d7", Piece::new(PlayerColor::Black, PieceType::Pawn)),
        ("e7", Piece::new(PlayerColor::Black, PieceType::Pawn)),
        ("f7", Piece::new(PlayerColor::Black, PieceType::Pawn)),
        ("g7", Piece::new(PlayerColor::Black, PieceType::Pawn)),
        ("h7", Piece::new(PlayerColor::Black, PieceType::Pawn)),
    ];

    let board = Board::new_default_starting_board();
    for (square_str, piece) in squares_to_pieces {
        let result = board.piece_at(&Square::from_str(square_str).unwrap());
        assert!(result.is_some());
        assert_eq!(piece, result.unwrap());
    }
}

#[test]
fn display_default_starting_board_string() {
    let default_board_str = "   a  b  c  d  e  f  g  h \n\
         8 [r][n][b][q][k][b][n][r]\n\
         7 [p][p][p][p][p][p][p][p]\n\
         6 [ ][ ][ ][ ][ ][ ][ ][ ]\n\
         5 [ ][ ][ ][ ][ ][ ][ ][ ]\n\
         4 [ ][ ][ ][ ][ ][ ][ ][ ]\n\
         3 [ ][ ][ ][ ][ ][ ][ ][ ]\n\
         2 [P][P][P][P][P][P][P][P]\n\
         1 [R][N][B][Q][K][B][N][R]\n";
    let board = Board::new_default_starting_board();
    assert_eq!(default_board_str, board.board_string());
}

#[test]
fn test_white_castle_kingside() {
    let board = Board::new_board_with_configuration(
        &BoardConfiguration::from_str(
            "r1bqk1nr/pppp1ppp/2n5/2b1p3/2B1P3/5N2/PPPP1PPP/RNBQK2R w KQkq - 4 4",
        )
        .unwrap(),
    );
    let castle_move = MoveCommand::from_str("O-O").unwrap();
    let new_board = board.attempt_move(&castle_move).unwrap();
    let expected_board_configuration = BoardConfiguration::from_str(
        "r1bqk1nr/pppp1ppp/2n5/2b1p3/2B1P3/5N2/PPPP1PPP/RNBQ1RK1 b kq - 5 4",
    )
    .unwrap();
    assert_eq!(new_board.board_configuration(), expected_board_configuration);
    assert_eq!(
        new_board.piece_at(&Square::new(0, 5)).unwrap().piece_type(),
        PieceType::Rook
    );
    assert_eq!(
        new_board.piece_at(&Square::new(0, 6)).unwrap().piece_type(),
        PieceType::King
    );
}

#[test]
fn test_black_castle_kingside() {
    let board = Board::new_board_with_configuration(
        &BoardConfiguration::from_str(
            "r1bqk2r/pppp1ppp/2n2n2/2b1p3/2B1P3/3P1N2/PPP2PPP/RNBQ1RK1 b kq - 0 5",
        )
        .unwrap(),
    );
    let castle_move = MoveCommand::from_str("O-O").unwrap();
    let new_board = board.attempt_move(&castle_move).unwrap();
    assert_eq!(
        new_board.board_configuration(),
        BoardConfiguration::from_str(
            "r1bq1rk1/pppp1ppp/2n2n2/2b1p3/2B1P3/3P1N2/PPP2PPP/RNBQ1RK1 w - - 1 6"
        )
        .unwrap()
    );
    assert_eq!(
        new_board.piece_at(&Square::new(7, 5)).unwrap().piece_type(),
        PieceType::Rook
    );
    assert_eq!(
        new_board.piece_at(&Square::new(7, 6)).unwrap().piece_type(),
        PieceType::King
    );
}

#[test]
fn test_white_castle_queenside() {
    let board = Board::new_board_with_configuration(
        &BoardConfiguration::from_str(
            "rnb1k2r/pppqbppp/4pn2/3p4/3P1B2/2P1P3/PPQN1PPP/R3KBNR w KQkq - 5 7",
        )
        .unwrap(),
    );
    let castle_move = MoveCommand::from_str("O-O-O").unwrap();
    let new_board = board.attempt_move(&castle_move).unwrap();
    assert_eq!(
        new_board.board_configuration(),
        BoardConfiguration::from_str(
            "rnb1k2r/pppqbppp/4pn2/3p4/3P1B2/2P1P3/PPQN1PPP/2KR1BNR b kq - 6 7"
        )
        .unwrap()
    );
    assert_eq!(
        new_board.piece_at(&Square::new(0, 3)).unwrap().piece_type(),
        PieceType::Rook
    );
    assert_eq!(
        new_board.piece_at(&Square::new(0, 2)).unwrap().piece_type(),
        PieceType::King
    );
}

#[test]
fn test_black_castle_queenside() {
    let board = Board::new_board_with_configuration(
        &BoardConfiguration::from_str(
            "r3k2r/pp1bbppp/2nqpn2/2ppN3/3P4/2PBP3/PPQN1PPP/2KR3R b kq - 3 11",
        )
        .unwrap(),
    );
    let castle_move = MoveCommand::from_str("O-O-O").unwrap();
    let new_board = board.attempt_move(&castle_move).unwrap();
    assert_eq!(
        new_board.board_configuration(),
        BoardConfiguration::from_str(
            "2kr3r/pp1bbppp/2nqpn2/2ppN3/3P4/2PBP3/PPQN1PPP/2KR3R w - - 4 12"
        )
        .unwrap()
    );
    assert_eq!(
        new_board.piece_at(&Square::new(7, 3)).unwrap().piece_type(),
        PieceType::Rook
    );
    assert_eq!(
        new_board.piece_at(&Square::new(7, 2)).unwrap().piece_type(),
        PieceType::King
    );
}

#[test]
fn white_move_increments_halfmove_clock_but_not_fullmove_number() {
    let board = Board::new_default_starting_board();
    let mv = MoveCommand::from_str("Nc3").unwrap();
    let new_board = board.attempt_move(&mv).unwrap();
    assert_eq!(1, new_board.board_configuration().halfmove_clock());
    assert_eq!(1, new_board.board_configuration().fullmove_number());
}

#[test]
fn black_move_increment_halfmove_clock_and_fullmove_number() {
    let board = Board::new_board_with_configuration(
        &BoardConfiguration::from_str("rnbqkbnr/pppppppp/8/8/8/2N5/PPPPPPPP/R1BQKBNR b KQkq - 1 1")
            .unwrap(),
    );
    let mv = MoveCommand::from_str("Nf6").unwrap();
    let new_board = board.attempt_move(&mv).unwrap();
    assert_eq!(2, new_board.board_configuration().halfmove_clock());
    assert_eq!(2, new_board.board_configuration().fullmove_number());
}

#[test]
fn pawn_move_resets_halfmove_clock() {
    let board = Board::new_board_with_configuration(
        &BoardConfiguration::from_str("rnbqkb1r/pppppppp/5n2/8/8/2N5/PPPPPPPP/R1BQKBNR w KQkq - 2 2")
            .unwrap(),
    );
    let mv = MoveCommand::from_str("e4").unwrap();
    let new_board = board.attempt_move(&mv).unwrap();
    assert_eq!(0, new_board.board_configuration().halfmove_clock());
}

#[test]
fn capture_resets_halfmove_clock() {
    let board = Board::new_board_with_configuration(
        &BoardConfiguration::from_str("rnbqkb1r/pppppppp/5n2/8/4N3/8/PPPPPPPP/R1BQKBNR b KQkq - 3 2")
            .unwrap(),
    );
    let mv = MoveCommand::from_str("Nxe4").unwrap();
    let new_board = board.attempt_move(&mv).unwrap();
    assert_eq!(0, new_board.board_configuration().halfmove_clock());
}

#[test]
fn move_changes_only_touched_squares() {
    let board = Board::new_default_starting_board();
    let mv = MoveCommand::from_str("e4").unwrap();
    let new_board = board.attempt_move(&mv).unwrap();
    for rank in 0..8u8 {
        for file in 0..8u8 {
            let square = Square::new(rank, file);
            if (rank == 1 && file == 4) || (rank == 3 && file == 4) {
                continue;
            }
            assert_eq!(board.piece_at(&square), new_board.piece_at(&square));
        }
    }
    assert!(new_board.piece_at(&Square::new(1, 4)).is_none());
    assert_eq!(
        new_board.piece_at(&Square::new(3, 4)),
        Some(Piece::new(PlayerColor::White, PieceType::Pawn))
    );
}

#[test]
fn bitboards_mirror_mailbox() {
    let board = Board::new_board_with_configuration(
        &BoardConfiguration::from_str("r3k2r/pp1bbppp/2nqpn2/2ppN3/3P4/2PBP3/PPQN1PPP/2KR3R b kq - 3 11")
            .unwrap(),
    );
    let colors = board.pieces_of_color(PlayerColor::White).0 | board.pieces_of_color(PlayerColor::Black).0;
    let types = board.pieces_of_type(PieceType::Pawn).0
        | board.pieces_of_type(PieceType::Knight).0
        | board.pieces_of_type(PieceType::Bishop).0
        | board.pieces_of_type(PieceType::Rook).0
        | board.pieces_of_type(PieceType::Queen).0
        | board.pieces_of_type(PieceType::King).0;
    assert_eq!(colors, types);
    for index in 0..64u8 {
        let square = Square::new(index / 8, index % 8);
        let occupied = board.piece_at(&square).is_some();
        assert_eq!(occupied, (colors >> index) & 1 == 1);
    }
}

#[test]
fn castle_through_attacked_square_is_illegal() {
    // A black rook on f8 covers f1, the square the white king crosses.
    let board = Board::new_board_with_configuration(
        &BoardConfiguration::from_str("5rk1/8/8/8/8/8/8/4K2R w K - 0 1").unwrap(),
    );
    let castle_move = MoveCommand::from_str("O-O").unwrap();
    assert!(board.attempt_move(&castle_move).is_err());
}

#[test]
fn castle_without_right_is_illegal() {
    // The same position with the kingside right already gone.
    let board = Board::new_board_with_configuration(
        &BoardConfiguration::from_str("6k1/8/8/8/8/8/8/4K2R w - - 0 1").unwrap(),
    );
    let castle_move = MoveCommand::from_str("O-O").unwrap();
    assert!(board.attempt_move(&castle_move).is_err());
    // With the right intact and the path clear, the same castle stands.
    let allowed = Board::new_board_with_configuration(
        &BoardConfiguration::from_str("6k1/8/8/8/8/8/8/4K2R w K - 0 1").unwrap(),
    );
    assert!(allowed.attempt_move(&castle_move).is_ok());
}
