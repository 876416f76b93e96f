//! Error types returned when parsing algebraically notated commands.

use vstd::prelude::*;

verus! {

/// The error type returned by the parsing functions in [crate::parse],
/// covering invalid syntax in a given algebraically notated command.
#[derive(Debug, PartialEq, Eq, Clone)]
pub enum NotationParseError {
    /// Parsing the rank as a number failed; holds the offending text.
    ParseIntError(String),
    /// A rank of 0 was passed in: rank coordinates start at 1.
    ZeroRankIndex,
    /// An invalid character was found in the name of a file.
    InvalidCharacterInFileName(char),
    /// The string held no file letters at all.
    EmptyString(),
    /// The string was not a correctly formatted algebraic notation command.
    InvalidFormat(String),
    /// The command named an invalid piece character.
    InvalidPieceCharacter(char),
    /// Converting the file name to a number overflowed the coordinate type.
    Overflow,
}

} // verus!
