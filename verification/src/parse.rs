//! Functions and utilities related to parsing algebraically notated chess
//! commands and FEN-style position records.

pub mod coordinates;
pub mod error;
pub mod from_str_impls;
pub mod move_command;
pub mod parse_line;
pub mod parse_piece_type;

pub use coordinates::{algebraic_to_square, alphabetic_file_to_numeric, rank_to_numeric};
pub use error::NotationParseError;
pub use move_command::{MoveCommand, MoveCommandData};
