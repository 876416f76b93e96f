//! The [LocalAgent] marker: a local player typing moves at a keyboard.
//!
//! Reading those moves is input handling and lives outside the library; a
//! front end drives [crate::board::Board::get_move] and
//! [crate::board::Board::check_move] with what the player typed and passes
//! the accepted move on.

use vstd::prelude::*;

verus! {

/// A local, human player. The library only names the role; the
/// keyboard-facing loop that animates it belongs to the surrounding
/// program.
pub struct LocalAgent;

} // verus!
