//! `FromStr` implementations for the parsed types. The contracts live on
//! the parsing functions these delegate to; `FromStr` itself carries none.

use vstd::prelude::*;

use crate::board::line::Line;
use crate::board::piece_type::PieceType;
use crate::board::square::Square;
use crate::parse::coordinates::parse_square_str;
use crate::parse::error::NotationParseError;
use crate::parse::move_command::{parse_move_command, parse_move_command_data, MoveCommand, MoveCommandData};
use crate::parse::parse_line::parse_line;
use crate::parse::parse_piece_type::parse_piece_type;

verus! {

impl core::str::FromStr for Square {
    type Err = NotationParseError;

    /// See [crate::parse::coordinates::algebraic_to_square].
    fn from_str(s: &str) -> Result<Self, Self::Err> {
        parse_square_str(s)
    }
}

impl core::str::FromStr for PieceType {
    type Err = NotationParseError;

    /// See [parse_piece_type].
    fn from_str(s: &str) -> Result<Self, Self::Err> {
        parse_piece_type(s)
    }
}

impl core::str::FromStr for Line {
    type Err = NotationParseError;

    /// See [parse_line].
    fn from_str(s: &str) -> Result<Self, Self::Err> {
        parse_line(s)
    }
}

impl core::str::FromStr for MoveCommand {
    type Err = NotationParseError;

    /// See [parse_move_command].
    fn from_str(s: &str) -> Result<Self, Self::Err> {
        parse_move_command(s)
    }
}

impl core::str::FromStr for MoveCommandData {
    type Err = NotationParseError;

    /// See [parse_move_command_data].
    fn from_str(s: &str) -> Result<Self, Self::Err> {
        parse_move_command_data(s)
    }
}

} // verus!
