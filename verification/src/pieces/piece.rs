//! The interface of a piece that keeps its own state.

use vstd::prelude::*;
use crate::bitboard::Square;

verus! {

/// The name of a kind of piece.
pub type PieceName = &'static str;

/// A piece that knows its kind, remembers whether it has moved, and lists
/// the squares it can move to. The crate itself keeps its pieces in
/// bitboards and implements this for no type.
pub trait Piece {
    /// The name of the kind of this piece.
    fn piece_type(&self) -> PieceName;

    /// Whether the piece has moved in this game.
    fn has_moved(&self) -> bool;

    /// Records that the piece has moved.
    fn mark_as_moved(&mut self);

    /// The squares that the piece can move to from `from`.
    fn moveable_squares(&self, from: Square) -> Vec<Square>;
}

} // verus!
