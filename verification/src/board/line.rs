//! The [Line] type: a rank, a file, or both, used as a move discriminant.

use vstd::prelude::*;

use crate::board::square::Square;

verus! {

/// A [Line] represents a specific rank, file, or both (that is, a square).
///
/// It is the discriminant of a move command when more than one identical
/// piece could reach the same destination square.
#[derive(Debug, PartialEq, Eq, Structural, Clone, Copy)]
pub enum Line {
    /// The rank of squares with the given index.
    Rank(u8),
    /// The file of squares with the given index (0 = a, 1 = b, and so on).
    File(u8),
    /// Both a rank and a file, for the rare case where neither alone
    /// distinguishes two pieces.
    RankAndFile(u8, u8),
}

impl Line {
    /// Whether a square lies along the line, as a spec-level value.
    pub open spec fn spec_has_square(self, square: Square) -> bool {
        match self {
            Line::Rank(rank) => square.rank == rank,
            Line::File(file) => square.file == file,
            Line::RankAndFile(rank, file) => square.rank == rank && square.file == file,
        }
    }

    /// Returns true if a square lies along the specified line.
    pub fn has_square(&self, square: &Square) -> (r: bool)
        ensures
            r == self.spec_has_square(*square),
    {
        match self {
            Line::Rank(rank) => square.rank == *rank,
            Line::File(file) => square.file == *file,
            Line::RankAndFile(rank, file) => square.rank == *rank && square.file == *file,
        }
    }
}

} // verus!
