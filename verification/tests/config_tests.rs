//! Tests for board configurations, FEN reading, and the board result type.

use std::str::FromStr;

use rust_chess_engine::board::{
    BoardConfiguration, BoardConfigurationBuilder, BoardResult, CastlingAvailability, DrawReason,
    Piece, PieceType, PlayerColor, Square,
};

fn place(expected: &mut Vec<Option<Piece>>, rank: u8, file: u8, color: PlayerColor, t: PieceType) {
    expected[(rank as usize) * 8 + (file as usize)] = Some(Piece::new(color, t));
}

fn standard_expected() -> Vec<Option<Piece>> {
    let mut expected: Vec<Option<Piece>> = vec![None; 64];
    let back = [
        PieceType::Rook,
        PieceType::Knight,
        PieceType::Bishop,
        PieceType::Queen,
        PieceType::King,
        PieceType::Bishop,
        PieceType::Knight,
        PieceType::Rook,
    ];
    for file in 0..8u8 {
        place(&mut expected, 0, file, PlayerColor::White, back[file as usize]);
        place(&mut expected, 1, file, PlayerColor::White, PieceType::Pawn);
        place(&mut expected, 6, file, PlayerColor::Black, PieceType::Pawn);
        place(&mut expected, 7, file, PlayerColor::Black, back[file as usize]);
    }
    expected
}

#[test]
fn board_config_test_default_configuration() {
    let board_config =
        BoardConfiguration::from_str("rnbqkbnr/pppppppp/8/8/8/8/PPPPPPPP/RNBQKBNR w KQkq - 0 1")
            .unwrap();
    assert_eq!(*board_config.get_pieces(), standard_expected());
}

#[test]
fn board_config_test_empty_configuration() {
    let board_config = BoardConfiguration::from_str("8/8/8/8/8/8/8/8 w KQkq - 0 1").unwrap();
    let expected: Vec<Option<Piece>> = vec![None; 64];
    assert_eq!(*board_config.get_pieces(), expected);
}

#[test]
fn board_config_test_invalid_configuration() {
    let board_config = BoardConfiguration::from_str("");
    assert!(board_config.is_err());
    let board_config = BoardConfiguration::from_str("asdkjfhaskldjfh");
    assert!(board_config.is_err());
    let board_config = BoardConfiguration::from_str("8/8/8/7/8/8/8/8 w KQkq - 0 1");
    assert!(board_config.is_err());
    let board_config =
        BoardConfiguration::from_str("rnbqkbnF/pppppppp/8/8/8/8/PPPPPPPP/RNBQKBNR w KWkq - 0 1");
    assert!(board_config.is_err());
}

#[test]
fn default_configuration_round_trips_to_fen() {
    let from_fen =
        BoardConfiguration::from_str("rnbqkbnr/pppppppp/8/8/8/8/PPPPPPPP/RNBQKBNR w KQkq - 0 1")
            .unwrap();
    let built = BoardConfiguration::default();
    assert_eq!(from_fen, built);
    let board = rust_chess_engine::board::Board::new_default_starting_board();
    assert_eq!(board.board_configuration(), from_fen);
}

#[test]
fn fen_reads_remaining_fields() {
    let config = BoardConfiguration::from_str("8/8/8/8/8/8/8/8 b Kq e3 12 34").unwrap();
    assert_eq!(config.active_color(), PlayerColor::Black);
    assert!(config.castling_availability().white_castle_kingside());
    assert!(!config.castling_availability().white_castle_queenside());
    assert!(!config.castling_availability().black_castle_kingside());
    assert!(config.castling_availability().black_castle_queenside());
    assert_eq!(config.en_passant_target_square(), Some(Square::new(2, 4)));
    assert_eq!(config.halfmove_clock(), 12);
    assert_eq!(config.fullmove_number(), 34);
}

#[test]
fn test_is_in_progress() {
    assert_eq!(false, BoardResult::Win(PlayerColor::Black).is_in_progress());
    assert_eq!(false, BoardResult::Win(PlayerColor::White).is_in_progress());
    assert_eq!(
        false,
        BoardResult::Draw(DrawReason::Agreement).is_in_progress()
    );
    assert_eq!(true, BoardResult::InProgress.is_in_progress());
}

#[test]
fn test_is_over() {
    assert_eq!(true, BoardResult::Win(PlayerColor::Black).is_over());
    assert_eq!(true, BoardResult::Win(PlayerColor::White).is_over());
    assert_eq!(true, BoardResult::Draw(DrawReason::Agreement).is_over());
    assert_eq!(false, BoardResult::InProgress.is_over());
}

#[test]
fn test_winner() {
    assert!(BoardResult::InProgress.get_winner().is_err());
    assert!(BoardResult::Draw(DrawReason::Agreement).get_winner().is_err());
    assert_eq!(
        Ok(PlayerColor::White),
        BoardResult::Win(PlayerColor::White).get_winner()
    );
    assert_eq!(
        Ok(PlayerColor::Black),
        BoardResult::Win(PlayerColor::Black).get_winner()
    );
}

#[test]
fn test_is_draw() {
    assert_eq!(false, BoardResult::Win(PlayerColor::Black).is_draw());
    assert_eq!(false, BoardResult::Win(PlayerColor::White).is_draw());
    assert_eq!(true, BoardResult::Draw(DrawReason::Agreement).is_draw());
    assert_eq!(false, BoardResult::InProgress.is_draw());
}

#[test]
fn test_get_draw_reason() {
    assert_eq!(None, BoardResult::Win(PlayerColor::Black).get_draw_reason());
    assert_eq!(None, BoardResult::Win(PlayerColor::White).get_draw_reason());
    assert_eq!(None, BoardResult::InProgress.get_draw_reason());
    assert_eq!(
        Some(DrawReason::Agreement),
        BoardResult::Draw(DrawReason::Agreement).get_draw_reason()
    );
}

#[test]
fn fifty_move_rule_draws() {
    let config =
        BoardConfiguration::from_str("rnbqkbnr/pppppppp/8/8/8/8/PPPPPPPP/RNBQKBNR w KQkq - 50 1")
            .unwrap();
    let board = rust_chess_engine::board::Board::new_board_with_configuration(&config);
    assert_eq!(
        board.game_result().get_draw_reason(),
        Some(DrawReason::FiftyMoveRule)
    );
}

#[test]
fn stalemate_draws() {
    let config = BoardConfiguration::from_str("7k/5Q2/6K1/8/8/8/8/8 b - - 0 1").unwrap();
    let board = rust_chess_engine::board::Board::new_board_with_configuration(&config);
    assert_eq!(
        board.game_result().get_draw_reason(),
        Some(DrawReason::Stalemate)
    );
}

#[test]
fn builder_fills_defaults() {
    let builder = BoardConfigurationBuilder::default();
    let builder = builder.add_piece(
        Piece::new(PlayerColor::White, PieceType::King),
        Square::new(0, 0),
    );
    let config = builder.build();
    assert_eq!(config.active_color(), PlayerColor::White);
    assert_eq!(config.halfmove_clock(), 0);
    assert_eq!(config.fullmove_number(), 1);
    assert!(config.castling_availability().white_castle_kingside());
    assert_eq!(
        config.get_pieces()[0],
        Some(Piece::new(PlayerColor::White, PieceType::King))
    );
    assert!(config.en_passant_target_square().is_none());
}

#[test]
fn castling_availability_parse() {
    let all = CastlingAvailability::from_str("KQkq").unwrap();
    assert_eq!(all, CastlingAvailability::new(true, true, true, true));
    let none = CastlingAvailability::from_str("-").unwrap();
    assert_eq!(none, CastlingAvailability::new(false, false, false, false));
    let some = CastlingAvailability::from_str("kq").unwrap();
    assert_eq!(some, CastlingAvailability::new(false, false, true, true));
    assert!(CastlingAvailability::from_str("KW").is_err());
}

#[test]
fn parse_board_config_test_default_configuration() {
    let board_config =
        BoardConfiguration::from_str("rnbqkbnr/pppppppp/8/8/8/8/PPPPPPPP/RNBQKBNR w KQkq - 0 1")
            .unwrap();
    assert_eq!(*board_config.get_pieces(), standard_expected());
}

#[test]
fn parse_board_config_test_empty_configuration() {
    let board_config = BoardConfiguration::from_str("8/8/8/8/8/8/8/8 w KQkq - 0 1").unwrap();
    let expected: Vec<Option<Piece>> = vec![None; 64];
    assert_eq!(*board_config.get_pieces(), expected);
}

#[test]
fn parse_board_config_test_invalid_configuration() {
    let board_config = BoardConfiguration::from_str("");
    assert!(board_config.is_err());
    let board_config = BoardConfiguration::from_str("asdkjfhaskldjfh");
    assert!(board_config.is_err());
    let board_config = BoardConfiguration::from_str("8/8/8/7/8/8/8/8 w KQkq - 0 1");
    assert!(board_config.is_err());
    let board_config =
        BoardConfiguration::from_str("rnbqkbnF/pppppppp/8/8/8/8/PPPPPPPP/RNBQKBNR w KWkq - 0 1");
    assert!(board_config.is_err());
}
