//! Tests for parsing move commands, squares, and coordinates.

use std::str::FromStr;

use rust_chess_engine::board::{Line, PieceType, Square};
use rust_chess_engine::parse::{
    algebraic_to_square, alphabetic_file_to_numeric, rank_to_numeric, MoveCommand,
    NotationParseError,
};

#[test]
fn test_kingside_castle_notation_works() {
    assert!(MoveCommand::from_str("o-o").unwrap().is_kingside_castle());
    assert!(MoveCommand::from_str("O-O").unwrap().is_kingside_castle());
    assert!(!MoveCommand::from_str("o-o").unwrap().is_queenside_castle());
    assert!(!MoveCommand::from_str("O-O").unwrap().is_queenside_castle());
    assert!(!MoveCommand::from_str("o-o").unwrap().is_normal_move());
    assert!(!MoveCommand::from_str("O-O").unwrap().is_normal_move());
}

#[test]
fn test_queenside_castle_notation_works() {
    assert!(MoveCommand::from_str("o-o-o").unwrap().is_queenside_castle());
    assert!(MoveCommand::from_str("O-O-O").unwrap().is_queenside_castle());
    assert!(!MoveCommand::from_str("o-o-o").unwrap().is_kingside_castle());
    assert!(!MoveCommand::from_str("O-O-O").unwrap().is_kingside_castle());
    assert!(!MoveCommand::from_str("o-o-o").unwrap().is_normal_move());
    assert!(!MoveCommand::from_str("O-O-O").unwrap().is_normal_move());
}

#[test]
fn test_pawn_move_command() {
    let move_command = MoveCommand::from_str("e4").unwrap();
    match move_command {
        MoveCommand::NormalMove(move_data) => {
            assert_eq!(PieceType::Pawn, move_data.piece_type);
            assert!(move_data.discriminant.is_none());
            assert!(!move_data.capture);
            assert_eq!(Square::new(3, 4), move_data.target_square);
        }
        MoveCommand::KingsideCastle => panic!("Expected NormalMove, got KingsideCastle"),
        MoveCommand::QueensideCastle => panic!("Expected NormalMove, got QueensideCastle"),
    }
}

#[test]
fn test_piece_move_command() {
    let move_command = MoveCommand::from_str("Bh8").unwrap();
    assert!(move_command.is_normal_move());
    let move_data = move_command.get_move_data().unwrap();
    assert_eq!(PieceType::Bishop, move_data.piece_type);
    assert!(move_data.discriminant.is_none());
    assert!(!move_data.capture);
    assert_eq!(Square::new(7, 7), move_data.target_square);
}

#[test]
fn test_capture_with_piece() {
    let move_command = MoveCommand::from_str("Rxa1").unwrap();
    assert!(move_command.is_normal_move());
    let move_data = move_command.get_move_data().unwrap();
    assert_eq!(PieceType::Rook, move_data.piece_type);
    assert!(move_data.discriminant.is_none());
    assert!(move_data.capture);
    assert_eq!(Square::new(0, 0), move_data.target_square);
}

#[test]
fn test_capture_with_pawn() {
    let move_command = MoveCommand::from_str("exd5").unwrap();
    assert!(move_command.is_normal_move());
    let move_data = move_command.get_move_data().unwrap();
    assert_eq!(PieceType::Pawn, move_data.piece_type);
    assert!(move_data.discriminant.is_some());
    assert!(move_data.capture);
    assert_eq!(Line::File(4), move_data.discriminant.unwrap());
}

#[test]
fn test_discriminant_file() {
    let move_command = MoveCommand::from_str("Nge2").unwrap();
    assert!(move_command.is_normal_move());
    let move_data = move_command.get_move_data().unwrap();
    assert_eq!(PieceType::Knight, move_data.piece_type);
    assert!(move_data.discriminant.is_some());
    assert!(!move_data.capture);
    assert_eq!(Line::File(6), move_data.discriminant.unwrap());
}

#[test]
fn test_discriminant_rank() {
    let move_command = MoveCommand::from_str("N1e2").unwrap();
    assert!(move_command.is_normal_move());
    let move_data = move_command.get_move_data().unwrap();
    assert_eq!(PieceType::Knight, move_data.piece_type);
    assert!(move_data.discriminant.is_some());
    assert!(!move_data.capture);
    assert_eq!(Line::Rank(0), move_data.discriminant.unwrap());
}

#[test]
fn test_discriminant_both() {
    let move_command = MoveCommand::from_str("Qh4e1").unwrap();
    assert!(move_command.is_normal_move());
    let move_data = move_command.get_move_data().unwrap();
    assert_eq!(PieceType::Queen, move_data.piece_type);
    assert!(move_data.discriminant.is_some());
    assert!(!move_data.capture);
    assert_eq!(Line::RankAndFile(3, 7), move_data.discriminant.unwrap());
}

#[test]
fn test_longest_notation() {
    let move_command = MoveCommand::from_str("Qh4xe1").unwrap();
    assert!(move_command.is_normal_move());
    let move_data = move_command.get_move_data().unwrap();
    assert_eq!(PieceType::Queen, move_data.piece_type);
    assert!(move_data.discriminant.is_some());
    assert!(move_data.capture);
    assert_eq!(Line::RankAndFile(3, 7), move_data.discriminant.unwrap());
}

#[test]
fn test_square_notation() {
    let square = Square::from_str("e4").unwrap();
    assert_eq!(4, square.file);
    assert_eq!(3, square.rank);
}

#[test]
fn test_square_notation_2() {
    let square = Square::from_str("a1").unwrap();
    assert_eq!(0, square.file);
    assert_eq!(0, square.rank);
}

#[test]
fn test_square_notation_3() {
    let square = Square::from_str("h8").unwrap();
    assert_eq!(7, square.file);
    assert_eq!(7, square.rank);
}

#[test]
fn test_square_notation_4() {
    let square = Square::from_str("f2").unwrap();
    assert_eq!(5, square.file);
    assert_eq!(1, square.rank);
}

#[test]
fn test_square_notation_failure() {
    let square = Square::from_str("askvzxcasdf1234234");
    assert!(square.is_err());
}

#[test]
fn test_square_notation_failure_2() {
    let square = Square::from_str("");
    assert!(square.is_err());
}

#[test]
fn test_square_notation_failure_3() {
    let square = Square::from_str("!a3");
    assert!(square.is_err());
}

#[test]
fn coordinates_test_rank_to_numeric_valid() {
    let tests = [("1", 0), ("2", 1), ("10", 9)];
    for test in tests {
        assert_eq!(test.1, rank_to_numeric(test.0).unwrap());
    }
}

#[test]
fn coordinates_test_rank_to_numeric_zero_fails() {
    assert_eq!(
        NotationParseError::ZeroRankIndex,
        rank_to_numeric("0").unwrap_err()
    );
}

#[test]
fn coordinates_test_rank_to_numeric_invalid_parse_fails() {
    let result = rank_to_numeric("ajshdkfljhasld81u2943hasijdfh8&AEWYOUI4o128971y4*").unwrap_err();
    match result {
        NotationParseError::ParseIntError(_) => {}
        other => panic!("Expected ParseIntError, got {:?}", other),
    }
}

#[test]
fn alphabetic_file_to_numeric_values() {
    assert_eq!(alphabetic_file_to_numeric("A").unwrap(), 0);
    assert_eq!(alphabetic_file_to_numeric("h").unwrap(), 7);
    assert_eq!(alphabetic_file_to_numeric("i").unwrap(), 8);
    assert_eq!(alphabetic_file_to_numeric("z").unwrap(), 25);
    assert_eq!(alphabetic_file_to_numeric("aa").unwrap(), 26);
    assert!(alphabetic_file_to_numeric("!@#dsf234").is_err());
    assert!(alphabetic_file_to_numeric("").is_err());
    assert!(alphabetic_file_to_numeric("iv").is_err());
    assert!(alphabetic_file_to_numeric("aaaaaa").is_err());
}

#[test]
fn algebraic_to_square_works() {
    assert_eq!(algebraic_to_square("a4").unwrap(), Square::new(3, 0));
    assert!(algebraic_to_square("9x").is_err());
}

#[test]
fn test_rank_to_numeric_valid() {
    let tests = [("1", 0), ("2", 1), ("10", 9)];
    for test in tests {
        assert_eq!(test.1, rank_to_numeric(test.0).unwrap());
    }
}

#[test]
fn test_rank_to_numeric_zero_fails() {
    assert_eq!(
        NotationParseError::ZeroRankIndex,
        rank_to_numeric("0").unwrap_err()
    );
}

#[test]
fn test_rank_to_numeric_invalid_parse_fails() {
    let result = rank_to_numeric("ajshdkfljhasld81u2943hasijdfh8&AEWYOUI4o128971y4*").unwrap_err();
    match result {
        NotationParseError::ParseIntError(_) => {}
        other => panic!("Expected ParseIntError, got {:?}", other),
    }
}
