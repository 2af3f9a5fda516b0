//! A bitboard chess rules engine: position representation, pseudo-legal move
//! generation, move validation and application, check detection and game status.
//!
//! Every bitboard is modelled as the set of squares whose bits are set
//! (see [`bitboard::membership`]); the contracts of the move generators, of the
//! check detector and of the status evaluator are stated over that model.

pub mod bitboard;
pub mod board;
pub mod command;
pub mod game;
pub mod game_state;
pub mod movement;
pub mod notation;
pub mod pieces;
