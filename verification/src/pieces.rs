//! Piece kinds and the pseudo-legal move generator of each.

pub mod bishop;
pub mod king;
pub mod knight;
pub mod pawn;
pub mod piece;
pub mod piece_type;
pub mod queen;
pub mod rook;
pub mod sliders;
pub mod steps;
