//! A chess engine core: a bitboard board representation, legal-move
//! generation, check and mate detection, and a depth-bounded minimax search
//! with alpha-beta pruning over a material and positional evaluation.

pub mod agent;
pub mod bitboard;
pub mod board;
pub mod game;
pub mod parse;

use vstd::prelude::*;

verus! {

/// The unsigned integer type used for square coordinates. An 8x8 board fits
/// in a `u8`.
pub type UInt = u8;

} // verus!
