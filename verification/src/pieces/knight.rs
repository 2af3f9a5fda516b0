//! Knight moves.

use vstd::prelude::*;
use crate::bitboard::geometry::knight_step;
use crate::bitboard::membership::{lemma_member_constant, member, squares};
use crate::bitboard::operations::square_to_bitboard;
use crate::pieces::piece_type::{of_side, Color};
use crate::pieces::steps::with_leap;

verus! {

/// The squares that a knight on `from` may move to: a knight's leap away, on
/// the board, and not held by the mover's own side.
pub open spec fn knight_destinations(from: int, own: u64) -> Set<int> {
    Set::new(|to: int| 0 <= to < 64 && knight_step(from, to) && !member(own, to))
}

/// The pseudo-legal destinations of the knight of `side_to_move` on `from`;
/// empty if no such knight stands there.
pub fn get_knight_moves(
    from: usize,
    white_knights: u64,
    black_knights: u64,
    white_pieces: u64,
    black_pieces: u64,
    side_to_move: Color,
) -> (moves: u64)
    requires
        from < 64,
    ensures
        squares(moves) == if member(of_side(side_to_move, white_knights, black_knights), from as int) {
            knight_destinations(from as int, of_side(side_to_move, white_pieces, black_pieces))
        } else {
            Set::empty()
        },
        !member(of_side(side_to_move, white_knights, black_knights), from as int) ==> moves == 0,
{
    let from_bb: u64 = square_to_bitboard(from);
    let own_pieces: u64 = match side_to_move {
        Color::White => white_pieces,
        Color::Black => black_pieces,
    };
    let is_knight_at_square: bool = match side_to_move {
        Color::White => white_knights & from_bb != 0,
        Color::Black => black_knights & from_bb != 0,
    };
    proof {
        lemma_member_constant();
    }
    if !is_knight_at_square {
        proof {
            assert forall|to: int| !squares(0).contains(to) by {}
        }
        return 0;
    }
    let mut moves: u64 = 0;
    moves = with_leap(moves, from, -2, 1, own_pieces);
    moves = with_leap(moves, from, -1, 2, own_pieces);
    moves = with_leap(moves, from, 1, 2, own_pieces);
    moves = with_leap(moves, from, 2, 1, own_pieces);
    moves = with_leap(moves, from, 2, -1, own_pieces);
    moves = with_leap(moves, from, 1, -2, own_pieces);
    moves = with_leap(moves, from, -1, -2, own_pieces);
    moves = with_leap(moves, from, -2, -1, own_pieces);
    proof {
        assert forall|to: int|
            squares(moves).contains(to) == knight_destinations(from as int, own_pieces).contains(
                to,
            ) by {}
    }
    moves
}

/// A knight has at most eight destinations.
pub proof fn lemma_knight_has_at_most_eight_destinations(from: int, own: u64)
    requires
        0 <= from < 64,
    ensures
        knight_destinations(from, own).finite(),
        knight_destinations(from, own).len() <= 8,
{
    let around: Set<int> = set![from + 6, from + 15, from + 17, from + 10, from - 6, from - 15, from - 17, from - 10];
    assert(knight_destinations(from, own).subset_of(around));
    vstd::set_lib::lemma_len_subset(knight_destinations(from, own), around);
}

} // verus!
