//! Bishop moves.

use vstd::prelude::*;
use crate::bitboard::geometry::bishop_line;
use crate::bitboard::membership::{lemma_member_constant, member, squares};
use crate::bitboard::operations::square_to_bitboard;
use crate::pieces::piece_type::{of_side, Color};
use crate::pieces::steps::{slide_target, with_slide};

verus! {

/// The squares that a bishop on `from` may move to: along the four diagonals,
/// each up to the board edge or the first occupied square, which is
/// included unless the mover's own side holds it.
pub open spec fn bishop_destinations(from: int, own: u64, opponent: u64) -> Set<int> {
    Set::new(|to: int| 0 <= to < 64 && bishop_line(from, to) && slide_target(from, to, own, opponent))
}

/// The pseudo-legal destinations of the bishop of `side_to_move` on `from`;
/// empty if no such bishop stands there.
pub fn get_bishop_moves(
    from: usize,
    white_bishops: u64,
    black_bishops: u64,
    white_pieces: u64,
    black_pieces: u64,
    side_to_move: Color,
) -> (moves: u64)
    requires
        from < 64,
    ensures
        squares(moves) == if member(of_side(side_to_move, white_bishops, black_bishops), from as int) {
            bishop_destinations(
                from as int,
                of_side(side_to_move, white_pieces, black_pieces),
                of_side(side_to_move.opposite(), white_pieces, black_pieces),
            )
        } else {
            Set::empty()
        },
        !member(of_side(side_to_move, white_bishops, black_bishops), from as int) ==> moves == 0,
{
    let from_bb: u64 = square_to_bitboard(from);
    let own_pieces: u64 = match side_to_move {
        Color::White => white_pieces,
        Color::Black => black_pieces,
    };
    let opponent_pieces: u64 = match side_to_move {
        Color::White => black_pieces,
        Color::Black => white_pieces,
    };
    let is_bishop_at_square: bool = match side_to_move {
        Color::White => white_bishops & from_bb != 0,
        Color::Black => black_bishops & from_bb != 0,
    };
    proof {
        lemma_member_constant();
    }
    if !is_bishop_at_square {
        proof {
            assert forall|to: int| !squares(0).contains(to) by {}
        }
        return 0;
    }
    let mut moves: u64 = 0;
    moves = with_slide(moves, from, 1, 1, own_pieces, opponent_pieces);
    moves = with_slide(moves, from, 1, -1, own_pieces, opponent_pieces);
    moves = with_slide(moves, from, -1, 1, own_pieces, opponent_pieces);
    moves = with_slide(moves, from, -1, -1, own_pieces, opponent_pieces);
    proof {
        assert forall|to: int|
            squares(moves).contains(to) == bishop_destinations(
                from as int,
                own_pieces,
                opponent_pieces,
            ).contains(to) by {}
    }
    moves
}

} // verus!
