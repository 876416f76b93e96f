//! The [BoardResult] type: the current outcome of a game.

use vstd::prelude::*;

use crate::board::player_color::PlayerColor;

verus! {

/// The current game outcome: still in progress, won by one side, or drawn
/// for one of several reasons.
#[derive(Debug, PartialEq, Eq, Structural, Clone, Copy)]
pub enum BoardResult {
    /// The game is still in progress.
    InProgress,
    /// The given side has won.
    Win(PlayerColor),
    /// The game was a draw; the reason is recorded in [DrawReason].
    Draw(DrawReason),
}

/// If the game is a draw, the reason for the draw.
#[derive(Debug, PartialEq, Eq, Structural, Clone, Copy)]
pub enum DrawReason {
    /// The same position was reached three times.
    ThreefoldRepitition,
    /// Fifty moves passed without a pawn move or capture.
    FiftyMoveRule,
    /// Neither player can possibly give checkmate.
    CheckmateImpossible,
    /// The side to move has no legal move but is not in check.
    Stalemate,
    /// Both players agreed to a draw.
    Agreement,
}

/// The error returned by [BoardResult::get_winner] when there is no winner.
#[derive(Debug, PartialEq, Eq, Structural, Clone, Copy)]
pub enum GetWinnerError {
    /// There is no winner because the game is still in progress.
    StillInProgress,
    /// There is no winner because the game ended in a draw.
    Draw(DrawReason),
}

impl BoardResult {
    /// Returns true if the game is still in progress.
    pub fn is_in_progress(&self) -> (r: bool)
        ensures
            r == (self is InProgress),
    {
        match self {
            BoardResult::InProgress => true,
            _ => false,
        }
    }

    /// Returns true if the game is over.
    pub fn is_over(&self) -> (r: bool)
        ensures
            r == !(self is InProgress),
    {
        !self.is_in_progress()
    }

    /// Returns true if the game ended in a victory for either side.
    pub fn has_winner(&self) -> (r: bool)
        ensures
            r == (self is Win),
    {
        match self {
            BoardResult::Win(_) => true,
            BoardResult::InProgress => false,
            BoardResult::Draw(_) => false,
        }
    }

    /// Returns the color of the winning side, or says why there is none.
    pub fn get_winner(&self) -> (r: Result<PlayerColor, GetWinnerError>)
        ensures
            r == (match *self {
                BoardResult::Win(c) => Ok::<PlayerColor, GetWinnerError>(c),
                BoardResult::InProgress => Err::<PlayerColor, GetWinnerError>(
                    GetWinnerError::StillInProgress,
                ),
                BoardResult::Draw(x) => Err::<PlayerColor, GetWinnerError>(GetWinnerError::Draw(x)),
            }),
    {
        match self {
            BoardResult::Win(c) => Ok(*c),
            BoardResult::InProgress => Err(GetWinnerError::StillInProgress),
            BoardResult::Draw(x) => Err(GetWinnerError::Draw(*x)),
        }
    }

    /// Returns true if the game ended in a draw.
    pub fn is_draw(&self) -> (r: bool)
        ensures
            r == (self is Draw),
    {
        match self {
            BoardResult::Draw(_) => true,
            _ => false,
        }
    }

    /// Returns the reason for the draw, or `None` when the game is in
    /// progress or was won outright.
    pub fn get_draw_reason(&self) -> (r: Option<DrawReason>)
        ensures
            r == (match *self {
                BoardResult::Draw(x) => Some(x),
                _ => None::<DrawReason>,
            }),
    {
        match self {
            BoardResult::InProgress => None,
            BoardResult::Win(_) => None,
            BoardResult::Draw(x) => Some(*x),
        }
    }
}

} // verus!
