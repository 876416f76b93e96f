//! Tests for the bitboard primitive: coordinate conversions, masks, bit
//! access, and the set-bit walk.

use rust_chess_engine::bitboard::Bitboard;
use rust_chess_engine::board::Square;

#[test]
#[should_panic]
fn test_exceed_rank_fails() {
    Bitboard::coords_to_index_unchecked(Square::new(8, 0));
}

#[test]
#[should_panic]
fn test_exceed_file_fails() {
    Bitboard::coords_to_index_unchecked(Square::new(0, 8));
}

#[test]
#[should_panic]
fn test_exceed_index_fails() {
    Bitboard::index_to_coords_unchecked(64);
}

#[test]
fn test_exceed_rank_returns_err() {
    assert!(Bitboard::coords_to_index(Square::new(8, 0)).is_err());
}

#[test]
fn test_exceed_file_returns_err() {
    assert!(Bitboard::coords_to_index(Square::new(0, 8)).is_err());
}

#[test]
fn test_exceed_index_returns_err() {
    assert!(Bitboard::index_to_coords(64).is_err());
}

#[test]
fn test_normal_coords_ok() {
    let result = Bitboard::coords_to_index(Square::new(0, 0));
    assert!(result.is_ok());
    assert_eq!(result.unwrap(), 0);
}

#[test]
fn test_normal_coords_2() {
    let result = Bitboard::coords_to_index(Square::new(0, 5));
    assert!(result.is_ok());
    assert_eq!(result.unwrap(), 5);
}

#[test]
fn test_normal_coords_3() {
    let result = Bitboard::coords_to_index(Square::new(1, 1));
    assert!(result.is_ok());
    assert_eq!(result.unwrap(), 9);
}

#[test]
fn test_normal_index() {
    let result = Bitboard::index_to_coords(0);
    assert!(result.is_ok());
    assert_eq!(result.unwrap(), Square::new(0, 0));
}

#[test]
fn test_normal_index_2() {
    let result = Bitboard::index_to_coords(3);
    assert!(result.is_ok());
    assert_eq!(result.unwrap(), Square::new(0, 3));
}

#[test]
fn test_normal_index_3() {
    let result = Bitboard::index_to_coords(10);
    assert!(result.is_ok());
    assert_eq!(result.unwrap(), Square::new(1, 2));
}

#[test]
fn test_rank_mask() {
    let outputs: [u64; 8] = [
        0b11111111,
        0b1111111100000000,
        0b111111110000000000000000,
        0b11111111000000000000000000000000,
        0b1111111100000000000000000000000000000000,
        0b111111110000000000000000000000000000000000000000,
        0b11111111000000000000000000000000000000000000000000000000,
        0b1111111100000000000000000000000000000000000000000000000000000000,
    ];
    for rank in 0..8 {
        assert_eq!(Bitboard::rank_mask(rank).0, outputs[rank as usize]);
    }
}

#[test]
fn test_file_mask() {
    let outputs: [u64; 8] = [
        0x0101010101010101,
        0x0202020202020202,
        0x0404040404040404,
        0x0808080808080808,
        0x1010101010101010,
        0x2020202020202020,
        0x4040404040404040,
        0x8080808080808080,
    ];
    for file in 0..8 {
        assert_eq!(Bitboard::file_mask(file).0, outputs[file as usize]);
    }
}

#[test]
fn test_rank_mask_bitor_all_ranks() {
    let mut bitboard: Bitboard = Bitboard::new(0);
    for rank in 0..8 {
        bitboard = bitboard | Bitboard::rank_mask(rank);
    }
    assert_eq!(bitboard.0, u64::MAX);
}

#[test]
fn test_file_mask_bitor_all_ranks() {
    let mut bitboard = Bitboard::new(0);
    for file in 0..8 {
        bitboard = bitboard | Bitboard::file_mask(file);
    }
    assert_eq!(bitboard.0, u64::MAX);
}

#[test]
fn test_rank_mask_range_bitor_all_ranks() {
    assert_eq!(Bitboard::rank_mask_iter(0, 8).0, u64::MAX);
}

#[test]
fn test_file_mask_range_bitor_all_ranks() {
    assert_eq!(Bitboard::file_mask_iter(0, 8).0, u64::MAX);
}

#[test]
fn test_is_bit_set_all_bits_0() {
    let bitboard = Bitboard::new(0);
    for i in 0..64 {
        assert!(!bitboard.is_bit_set(i));
    }
}

#[test]
fn test_is_bit_set_1() {
    let bitboard = Bitboard::new(1);
    assert!(bitboard.is_bit_set(0));
    for i in 1..64 {
        assert!(!bitboard.is_bit_set(i));
    }
}

#[test]
fn test_is_bit_set_all_bits_1() {
    let bitboard = Bitboard::new(u64::MAX);
    for i in 0..64 {
        assert!(bitboard.is_bit_set(i));
    }
}

#[test]
fn test_set_bit_round_trip() {
    let bitboard = Bitboard::new(0);
    let set = bitboard.set_bit(0, true);
    assert_eq!(set, Bitboard::new(1));
    let cleared = set.set_bit(0, false);
    assert_eq!(cleared, Bitboard::new(0));
}

#[test]
fn test_no_valid_squares() {
    let bitboard = Bitboard::new(0);
    let squares: Vec<Square> = bitboard.squares();
    assert!(squares.is_empty());
}

#[test]
fn test_all_valid_squares() {
    let bitboard = Bitboard::new(u64::MAX);
    let squares: Vec<Square> = bitboard.squares();
    assert_eq!(squares.len(), 64);
}

#[test]
fn test_one_valid_square() {
    let bitboard = Bitboard::new(1);
    let squares: Vec<Square> = bitboard.squares();
    assert_eq!(squares.len(), 1);
    assert_eq!(squares[0], Square::new(0, 0));
}

#[test]
fn test_one_valid_square_2() {
    let bitboard = Bitboard::new(0x80_00_00_00_00_00_00_00);
    let squares: Vec<Square> = bitboard.squares();
    assert_eq!(squares.len(), 1);
    assert_eq!(squares[0], Square::new(7, 7));
}

#[test]
fn test_one_valid_square_3() {
    let bitboard = Bitboard::new(0x01_00_00_00_00_00_00_00);
    let squares: Vec<Square> = bitboard.squares();
    assert_eq!(squares.len(), 1);
    assert_eq!(squares[0], Square::new(7, 0));
}

#[test]
fn test_full_rank() {
    let bitboard = Bitboard::rank_mask(0);
    let squares: Vec<Square> = bitboard.squares();
    let mut cur_file: u8 = 0;
    assert_eq!(squares.len(), 8);
    for square in squares.iter() {
        assert_eq!(*square, Square::new(0, cur_file));
        cur_file += 1;
    }
}

#[test]
fn test_full_file() {
    let bitboard = Bitboard::file_mask(0);
    let squares: Vec<Square> = bitboard.squares();
    let mut cur_rank: u8 = 0;
    assert_eq!(squares.len(), 8);
    for square in squares.iter() {
        assert_eq!(*square, Square::new(cur_rank, 0));
        cur_rank += 1;
    }
}

#[test]
fn test_square_iterator_walk() {
    let bitboard = Bitboard::rank_mask(0);
    let mut iter = rust_chess_engine::bitboard::BitboardSquareIterator::new(&bitboard);
    for file in 0..8 {
        assert_eq!(iter.next(), Some(Square::new(0, file)));
    }
    assert_eq!(iter.next(), None);
}
