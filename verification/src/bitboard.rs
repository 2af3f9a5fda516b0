//! 64-bit square sets and the primitives that work on them.

pub mod board;
pub mod constants;
pub mod geometry;
pub mod membership;
pub mod operations;
pub mod square;

pub use board::BitBoard;
pub use square::Square;
