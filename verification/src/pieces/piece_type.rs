//! The closed enumerations of the engine: colours, piece kinds, and the
//! reasons for which a move is rejected.

use vstd::prelude::*;

verus! {

/// One of the two sides.
#[derive(Debug, Clone, Copy, PartialEq, Eq, Structural)]
pub enum Color {
    White,
    Black,
}

/// The six kinds of pieces.
#[derive(Debug, Clone, Copy, PartialEq, Eq, Structural)]
pub enum PieceType {
    Pawn,
    Knight,
    Bishop,
    Rook,
    King,
    Queen,
}

/// Why a move was rejected.
#[derive(Debug, Clone, Copy, PartialEq, Eq, Structural)]
pub enum MoveError {
    /// The origin square is empty.
    NoPieceAtSource,
    /// The piece on the origin square belongs to the side that is not to move.
    WrongColorPiece,
    /// The destination is not among the pseudo-legal destinations of the piece.
    InvalidDestination,
    /// Reserved: the sliding generators stop at the first obstruction, so no
    /// move is ever rejected for this reason.
    PathBlocked,
    /// A piece of the mover stands on the destination.
    DestinationOccupiedBySameColor,
}

impl Color {
    /// The other colour.
    pub open spec fn opposite(self) -> Color {
        match self {
            Color::White => Color::Black,
            Color::Black => Color::White,
        }
    }
}

/// Of the two bitboards, the one that belongs to `side`.
pub open spec fn of_side(side: Color, white: u64, black: u64) -> u64 {
    match side {
        Color::White => white,
        Color::Black => black,
    }
}

} // verus!
