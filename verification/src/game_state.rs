//! What a position means for the side to move: check, checkmate, stalemate.

pub mod check;
pub mod game_status;
