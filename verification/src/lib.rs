//! A turn-based board game backend whose movement rules are data, not
//! code: pieces move by a catalog of slide and leap capabilities that the
//! two players can amend mid-game through a propose/vote protocol with a
//! deadlock-breaking override. The crate holds the verified core — the
//! movement validator, the board and turn state machine, the consensus
//! protocol, and the command-handling actor; transport and encoding live
//! with the callers.

pub mod actor;
pub mod board;
pub mod errors;
pub mod rules;
pub mod state;
