//! Tests for the per-piece move masks, the inverse queries, and the board
//! query API.

use std::str::FromStr;

use rust_chess_engine::bitboard::Bitboard;
use rust_chess_engine::board::{Board, BoardConfiguration, PieceType, PlayerColor, Square};

#[test]
fn knight_moves_from_center() {
    let board = Board::new_blank_board();
    let knight_move_mask = board.knight_moves(PlayerColor::White, Square::new(3, 3));
    let expected_bitboard: Bitboard = Bitboard::from(Square::new(1, 2))
        | Bitboard::from(Square::new(1, 4))
        | Bitboard::from(Square::new(2, 1))
        | Bitboard::from(Square::new(2, 5))
        | Bitboard::from(Square::new(4, 1))
        | Bitboard::from(Square::new(4, 5))
        | Bitboard::from(Square::new(5, 2))
        | Bitboard::from(Square::new(5, 4));
    assert_eq!(knight_move_mask, expected_bitboard);
}

#[test]
fn knight_moves_from_corner_1() {
    let board = Board::new_blank_board();
    let knight_move_mask = board.knight_moves(PlayerColor::White, Square::new(0, 0));
    let expected_bitboard: Bitboard =
        Bitboard::from(Square::new(1, 2)) | Square::new(2, 1).into();
    assert_eq!(knight_move_mask, expected_bitboard);
}

#[test]
fn knight_moves_from_corner_2() {
    let board = Board::new_blank_board();
    let knight_move_mask = board.knight_moves(PlayerColor::White, Square::new(7, 7));
    let expected_bitboard = Bitboard::from(Square::new(6, 5)) | Square::new(5, 6).into();
    assert_eq!(knight_move_mask, expected_bitboard);
}

#[test]
fn knight_moves_from_side() {
    let board = Board::new_blank_board();
    let knight_move_mask = board.knight_moves(PlayerColor::White, Square::new(3, 7));
    let expected_bitboard = Bitboard::from(Square::new(1, 6))
        | Square::new(2, 5).into()
        | Square::new(4, 5).into()
        | Square::new(5, 6).into();
    assert_eq!(knight_move_mask, expected_bitboard);
}

#[test]
fn knight_moves_with_occupancy_checks() {
    let board = Board::new_default_starting_board();
    let square = Square::new(0, 1);
    let knight_move_mask = board.knight_moves(PlayerColor::White, square);
    let expected_bitboard = Bitboard::from(Square::new(2, 0)) | Square::new(2, 2).into();
    assert_eq!(knight_move_mask, expected_bitboard);
}

#[test]
fn knight_moves_with_occupancy_check_enemy_side() {
    let board = Board::new_default_starting_board();
    let square = Square::new(5, 2);
    let knight_move_mask = board.knight_moves(PlayerColor::White, square);
    let expected_bitboard = Bitboard::from(Square::new(7, 1))
        | Square::new(7, 3).into()
        | Square::new(6, 4).into()
        | Square::new(4, 4).into()
        | Square::new(3, 1).into()
        | Square::new(3, 3).into()
        | Square::new(4, 0).into()
        | Square::new(6, 0).into();
    assert_eq!(knight_move_mask, expected_bitboard);
}

#[test]
fn king_moves_from_center() {
    let board = Board::new_blank_board();
    let king_move_mask = board.king_moves(PlayerColor::White, Square::new(1, 1));
    let expected_bitboard = Bitboard::from(Square::new(0, 0))
        | Square::new(0, 1).into()
        | Square::new(0, 2).into()
        | Square::new(1, 2).into()
        | Square::new(2, 2).into()
        | Square::new(2, 1).into()
        | Square::new(2, 0).into()
        | Square::new(1, 0).into();
    assert_eq!(king_move_mask, expected_bitboard);
}

#[test]
fn king_moves_from_corner() {
    let board = Board::new_blank_board();
    let king_move_mask = board.king_moves(PlayerColor::White, Square::new(0, 0));
    let expected_bitboard = Bitboard::from(Square::new(0, 1))
        | Square::new(1, 1).into()
        | Square::new(1, 0).into();
    assert_eq!(king_move_mask, expected_bitboard);
}

#[test]
fn king_occupancy_default_board() {
    let board = Board::new_default_starting_board();
    let king_move_mask = board.king_moves(PlayerColor::White, Square::new(0, 4));
    assert_eq!(king_move_mask, Bitboard::new(0));
}

#[test]
fn king_occupancy_enemy_pieces() {
    let board = Board::new_default_starting_board();
    let king_move_mask = board.king_moves(PlayerColor::White, Square::new(5, 7));
    let expected_bitboard = Bitboard::from(Square::new(6, 7))
        | Square::new(6, 6).into()
        | Square::new(5, 6).into()
        | Square::new(4, 6).into()
        | Square::new(4, 7).into();
    assert_eq!(king_move_mask, expected_bitboard);
}

#[test]
fn rook_moves_on_empty_board() {
    const AVAILABLE_ROOK_MOVES: usize = 14;
    let board = Board::new_blank_board();
    let rook_move_mask = board.rook_moves(PlayerColor::White, Square::new(0, 0));
    let rook_squares: Vec<Square> = rook_move_mask.squares();
    assert_eq!(rook_squares.len(), AVAILABLE_ROOK_MOVES);

    let mut expected_rook_squares: Vec<Square> = Vec::with_capacity(AVAILABLE_ROOK_MOVES);
    for file in 1..8 {
        expected_rook_squares.push(Square::new(0, file));
    }
    for rank in 1..8 {
        expected_rook_squares.push(Square::new(rank, 0));
    }
    expected_rook_squares.sort_by_key(|s| s.rank * 8 + s.file);
    assert_eq!(rook_squares, expected_rook_squares);
}

#[test]
fn rook_cant_move_on_full_board() {
    let board = Board::new_default_starting_board();
    let rook_move_mask = board.rook_moves(PlayerColor::White, Square::new(0, 0));
    assert_eq!(rook_move_mask, Bitboard::new(0));
}

#[test]
fn rook_moves_into_opponent_pieces_occupancy_check() {
    const AVAILABLE_ROOK_MOVES: usize = 11;
    let board = Board::new_default_starting_board();
    let rook_move_mask = board.rook_moves(PlayerColor::White, Square::new(2, 0));
    let rook_squares: Vec<Square> = rook_move_mask.squares();
    assert_eq!(rook_squares.len(), AVAILABLE_ROOK_MOVES);

    let mut expected_rook_squares: Vec<Square> = Vec::with_capacity(AVAILABLE_ROOK_MOVES);
    for file in 1..8 {
        expected_rook_squares.push(Square::new(2, file));
    }
    for rank in 3..7 {
        expected_rook_squares.push(Square::new(rank, 0));
    }
    expected_rook_squares.sort_by_key(|s| s.rank * 8 + s.file);
    assert_eq!(rook_squares, expected_rook_squares);
}

#[test]
fn bishop_moves_on_empty_board() {
    const AVAILABLE_BISHOP_MOVES: usize = 7;
    let board = Board::new_blank_board();
    let bishop_move_mask = board.bishop_moves(PlayerColor::White, Square::new(0, 0));
    let bishop_squares: Vec<Square> = bishop_move_mask.squares();
    assert_eq!(bishop_squares.len(), AVAILABLE_BISHOP_MOVES);

    let mut expected_bishop_squares: Vec<Square> = Vec::new();
    for i in 1..8 {
        expected_bishop_squares.push(Square::new(i, i));
    }
    assert_eq!(bishop_squares, expected_bishop_squares);
}

#[test]
fn bishop_cant_move_on_full_board() {
    let board = Board::new_default_starting_board();
    let bishop_move_mask = board.bishop_moves(PlayerColor::White, Square::new(0, 2));
    assert_eq!(bishop_move_mask, Bitboard::new(0));
}

#[test]
fn check_queen_can_reach_king_square() {
    let board = Board::new_board_with_configuration(
        &BoardConfiguration::from_str("k7/Q7/K7/8/8/8/8/8 b - - 0 1").unwrap(),
    );
    let target_square = Square::new(7, 0);
    let queen_attacks_square = board.squares_of_type_that_can_capture_square(
        PlayerColor::White,
        PieceType::Queen,
        target_square,
    );
    assert_eq!(queen_attacks_square.len(), 1);
    assert_eq!(queen_attacks_square[0], Square::new(6, 0));
}

#[test]
fn check_knight_can_reach_king_square() {
    let board = Board::new_board_with_configuration(
        &BoardConfiguration::from_str("k7/2N5/4p3/1K6/8/8/8/8 b - - 0 1").unwrap(),
    );
    let target_square = Square::new(7, 0);
    let knight_attacks_square = board.squares_of_type_that_can_capture_square(
        PlayerColor::White,
        PieceType::Knight,
        target_square,
    );
    assert_eq!(knight_attacks_square.len(), 1);
    assert_eq!(knight_attacks_square[0], Square::new(6, 2));
}

#[test]
fn check_all_pieces_that_can_reach_target_square() {
    let board = Board::new_board_with_configuration(
        &BoardConfiguration::from_str("k6Q/2N5/8/8/4B3/2K5/R7/8 b - - 0 1").unwrap(),
    );
    let target_square = Square::new(7, 0);
    let all_squares = board.all_squares_that_can_capture_square(PlayerColor::White, target_square);
    assert_eq!(all_squares.len(), 4);
    assert!(all_squares.contains(&Square::new(7, 7)));
    assert!(all_squares.contains(&Square::new(6, 2)));
    assert!(all_squares.contains(&Square::new(1, 0)));
    assert!(all_squares.contains(&Square::new(3, 4)));
}

#[test]
fn check_only_some_pieces_can_reach_target_square() {
    let board = Board::new_board_with_configuration(
        &BoardConfiguration::from_str("7k/8/1K6/8/2BB4/8/8/8 w - - 0 1").unwrap(),
    );
    let target_square = Square::new(7, 7);
    let bishop_attacks_square = board.squares_of_type_that_can_capture_square(
        PlayerColor::White,
        PieceType::Bishop,
        target_square,
    );
    assert_eq!(bishop_attacks_square.len(), 1);
    assert!(bishop_attacks_square.contains(&Square::new(3, 3)));
    assert!(!bishop_attacks_square.contains(&Square::new(3, 2)));
}

#[test]
fn check_pawn_can_move_to_square() {
    let board = Board::new_board_with_configuration(
        &BoardConfiguration::from_str("7k/8/8/8/8/8/P7/7K w - - 0 1").unwrap(),
    );
    let target_square = Square::new(3, 0);
    let pawn_move_squares = board.squares_of_type_that_can_move_to_square(
        PlayerColor::White,
        PieceType::Pawn,
        target_square,
    );
    let pawn_attack_squares = board.squares_of_type_that_can_capture_square(
        PlayerColor::White,
        PieceType::Pawn,
        target_square,
    );
    assert_eq!(pawn_move_squares.len(), 1);
    assert!(pawn_move_squares.contains(&Square::new(1, 0)));
    assert_eq!(pawn_attack_squares.len(), 0);
}

#[test]
fn check_pawn_can_capture_square() {
    let board = Board::new_board_with_configuration(
        &BoardConfiguration::from_str("7k/8/8/8/8/1p6/P7/7K w - - 0 1").unwrap(),
    );
    let target_square = Square::new(2, 1);
    let pawn_move_squares = board.squares_of_type_that_can_move_to_square(
        PlayerColor::White,
        PieceType::Pawn,
        target_square,
    );
    let pawn_attack_squares = board.squares_of_type_that_can_capture_square(
        PlayerColor::White,
        PieceType::Pawn,
        target_square,
    );
    assert_eq!(pawn_move_squares.len(), 0);
    assert_eq!(pawn_attack_squares.len(), 1);
    assert!(pawn_attack_squares.contains(&Square::new(1, 0)));
}

#[test]
fn test_bitboard_query_on_starting_board() {
    let board = Board::new_default_starting_board();
    let bitboard_result = board.query().result();
    assert_eq!(bitboard_result, Bitboard::new(0xFFFF_0000_0000_FFFF));
}

#[test]
fn test_bitboard_query_on_empty_board() {
    let board = Board::new_blank_board();
    let bitboard_result = board.query().result();
    assert_eq!(bitboard_result, Bitboard::new(0));
}

#[test]
fn test_bitboard_query_on_white_pieces_only() {
    let board = Board::new_default_starting_board();
    let bitboard_result = board.query().color(PlayerColor::White).result();
    assert_eq!(bitboard_result, Bitboard::new(0x0000_0000_0000_FFFF));
}

#[test]
fn test_bitboard_query_on_black_pieces_only() {
    let board = Board::new_default_starting_board();
    let bitboard_result = board.query().color(PlayerColor::Black).result();
    assert_eq!(bitboard_result, Bitboard::new(0xFFFF_0000_0000_0000));
}

#[test]
fn test_bitboard_query_on_piece_types() {
    let board = Board::new_default_starting_board();
    let rook_bitboard = board.query().piece_type(PieceType::Rook).result();
    assert_eq!(rook_bitboard, Bitboard::new(0x8100_0000_0000_0081));
    let knight_bitboard = board.query().piece_type(PieceType::Knight).result();
    assert_eq!(knight_bitboard, Bitboard::new(0x4200_0000_0000_0042));
    let bishop_bitboard = board.query().piece_type(PieceType::Bishop).result();
    assert_eq!(bishop_bitboard, Bitboard::new(0x2400_0000_0000_0024));
    let king_bitboard = board.query().piece_type(PieceType::King).result();
    assert_eq!(king_bitboard, Bitboard::new(0x1000_0000_0000_0010));
    let queen_bitboard = board.query().piece_type(PieceType::Queen).result();
    assert_eq!(queen_bitboard, Bitboard::new(0x0800_0000_0000_0008));
    let pawn_bitboard = board.query().piece_type(PieceType::Pawn).result();
    assert_eq!(pawn_bitboard, Bitboard::new(0x00FF_0000_0000_FF00));
}

#[test]
#[should_panic]
fn test_bitboard_query_on_out_of_bounds_square() {
    let board = Board::new_blank_board();
    let _ = board.query().piece_at_unchecked(Square::new(8, 0));
}

#[test]
#[should_panic]
fn test_bitboard_query_on_out_of_bounds_square_2() {
    let board = Board::new_blank_board();
    let _ = board.query().piece_at_unchecked(Square::new(0, 8));
}

#[test]
#[should_panic]
fn test_bitboard_query_on_out_of_bounds_square_3() {
    let board = Board::new_blank_board();
    let _ = board.query().piece_at_unchecked(Square::new(8, 8));
}

#[test]
fn test_bitboard_query_on_out_of_bounds_square_4() {
    let board = Board::new_blank_board();
    assert!(board.query().piece_at(Square::new(100, 100)).is_err());
}
