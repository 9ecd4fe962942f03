//! The error taxonomy: move-validation errors and the session errors that
//! guard commands issued before the match exists or from an unknown
//! identity. All of them are returned as values; no command ever aborts.

use vstd::prelude::*;

verus! {

/// Why a command was rejected. A rejected command never alters state.
#[derive(Debug, Clone, PartialEq)]
pub enum GameError {
    /// A coordinate of the move lies outside the 8-by-8 board.
    OutOfBounds { x: u8, y: u8 },
    /// The acting player is not the player whose turn it is.
    NotYourTurn { current_player: String },
    /// The piece at the source square belongs to someone else.
    NotYourPiece { owner: String },
    /// The destination already holds a piece of the acting player.
    DestinationOccupiedBySelf { x: u8, y: u8 },
    /// The move or request breaks a catalog rule; the payload says which.
    ViolatesRule(String),
    /// The source square holds no piece.
    EmptySource { x: u8, y: u8 },
    /// The command needs a running match, and none exists yet.
    GameNotStarted,
    /// The acting identity is not part of the roster.
    UnknownPlayer,
}

} // verus!
