//! The [PlayerColor] type: the two side colors.

use vstd::prelude::*;

verus! {

/// The two side colors, white and black.
#[derive(Debug, PartialEq, Eq, Structural, Hash, Clone, Copy)]
pub enum PlayerColor {
    /// The white player color.
    White,
    /// The black player color.
    Black,
}

impl PlayerColor {
    /// The opposing color, as a spec-level value.
    pub open spec fn spec_not(self) -> PlayerColor {
        match self {
            PlayerColor::White => PlayerColor::Black,
            PlayerColor::Black => PlayerColor::White,
        }
    }

    /// Returns the opposite color of the one provided.
    #[verifier::when_used_as_spec(spec_not)]
    pub fn not(self) -> (r: PlayerColor)
        ensures
            r == self.spec_not(),
    {
        match self {
            PlayerColor::White => PlayerColor::Black,
            PlayerColor::Black => PlayerColor::White,
        }
    }
}

impl Default for PlayerColor {
    /// The default starting color is white.
    fn default() -> (r: Self)
        ensures
            r == PlayerColor::White,
    {
        PlayerColor::White
    }
}

} // verus!
