//! The checks that a proposed move has to pass before it is applied. They
//! know nothing of piece kinds: the caller hands in the pseudo-legal
//! destinations of the origin square.

use vstd::prelude::*;
use crate::bitboard::membership::{member, squares};
use crate::bitboard::operations::square_to_bitboard;
use crate::pieces::piece_type::{of_side, Color, MoveError};

verus! {

/// The verdict on moving from `from` to `to`. The first failing check decides:
/// no piece on the origin; the piece there is not the mover's; the
/// destination holds a piece of the mover; the destination is not among the
/// pseudo-legal ones. A move that leaves the mover's own king attacked is
/// not rejected here.
pub open spec fn move_verdict(
    from: int,
    to: int,
    side_to_move: Color,
    white_pieces: u64,
    black_pieces: u64,
    legal_moves: Set<int>,
) -> Result<(), MoveError> {
    let own = of_side(side_to_move, white_pieces, black_pieces);
    if !member(white_pieces, from) && !member(black_pieces, from) {
        Err(MoveError::NoPieceAtSource)
    } else if !member(own, from) {
        Err(MoveError::WrongColorPiece)
    } else if member(own, to) {
        Err(MoveError::DestinationOccupiedBySameColor)
    } else if !legal_moves.contains(to) {
        Err(MoveError::InvalidDestination)
    } else {
        Ok(())
    }
}

/// Checks the move from `from` to `to` against the occupancy of both sides
/// and the pseudo-legal destinations `legal_moves` of the origin square.
pub fn validate_move(
    from: usize,
    to: usize,
    side_to_move: Color,
    white_pieces: u64,
    black_pieces: u64,
    legal_moves: u64,
) -> (verdict: Result<(), MoveError>)
    requires
        from < 64,
        to < 64,
    ensures
        verdict == move_verdict(
            from as int,
            to as int,
            side_to_move,
            white_pieces,
            black_pieces,
            squares(legal_moves),
        ),
        verdict != Err::<(), MoveError>(MoveError::PathBlocked),
{
    let from_bb: u64 = square_to_bitboard(from);
    let to_bb: u64 = square_to_bitboard(to);
    proof {
        assert(squares(legal_moves).contains(to as int) == member(legal_moves, to as int));
    }

    let is_white_piece: bool = white_pieces & from_bb != 0;
    let is_black_piece: bool = black_pieces & from_bb != 0;

    if !is_white_piece && !is_black_piece {
        return Err(MoveError::NoPieceAtSource);
    }
    match side_to_move {
        Color::White => {
            if !is_white_piece {
                return Err(MoveError::WrongColorPiece);
            }
        },
        Color::Black => {
            if !is_black_piece {
                return Err(MoveError::WrongColorPiece);
            }
        },
    }

    let is_destination_occupied_by_same_color: bool = match side_to_move {
        Color::White => white_pieces & to_bb != 0,
        Color::Black => black_pieces & to_bb != 0,
    };

    if is_destination_occupied_by_same_color {
        return Err(MoveError::DestinationOccupiedBySameColor);
    }
    if legal_moves & to_bb == 0 {
        return Err(MoveError::InvalidDestination);
    }
    Ok(())
}

} // verus!
