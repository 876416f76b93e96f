//! The [Square] type: a coordinate pair on the 8x8 board.

use vstd::prelude::*;

verus! {

/// A space on the board, specified by its coordinates in both rank and file.
///
/// Rank 0 is White's back rank, and file 0 is the a-file. A `Square` can hold
/// out-of-range coordinates; the conversions on [crate::bitboard::Bitboard]
/// reject those with an error.
#[derive(Debug, PartialEq, Eq, Structural, Hash, Clone, Copy)]
pub struct Square {
    /// The rank (row) of the square.
    pub rank: u8,
    /// The file (column) of the square.
    pub file: u8,
}

impl Square {
    /// Both coordinates lie on the 8x8 board.
    pub open spec fn in_bounds(self) -> bool {
        self.rank < 8 && self.file < 8
    }

    /// The index of the square in a 64-bit board mask: rank times 8 plus file.
    pub open spec fn sq_index(self) -> int {
        self.rank * 8 + self.file
    }

    /// Creates a new square with the given rank and file coordinates.
    pub fn new(rank: u8, file: u8) -> (s: Square)
        ensures
            s == (Square { rank, file }),
    {
        Square { rank, file }
    }
}

/// The square whose mask index is `i`.
pub open spec fn square_of_index(i: int) -> Square {
    Square { rank: (i / 8) as u8, file: (i % 8) as u8 }
}

/// A square in bounds is recovered from its index, and the index is in 0..64.
pub broadcast proof fn lemma_square_index_bijective(s: Square)
    requires
        s.in_bounds(),
    ensures
        0 <= #[trigger] s.sq_index() < 64,
        square_of_index(s.sq_index()) == s,
{
}

} // verus!
