//! King moves.

use vstd::prelude::*;
use crate::bitboard::geometry::king_step;
use crate::bitboard::membership::{lemma_member_constant, member, squares};
use crate::bitboard::operations::square_to_bitboard;
use crate::pieces::piece_type::{of_side, Color};
use crate::pieces::steps::with_leap;

verus! {

/// The squares that a king on `from` may move to: adjacent, on the board, and
/// not held by the mover's own side. Castling is not offered.
pub open spec fn king_destinations(from: int, own: u64) -> Set<int> {
    Set::new(|to: int| 0 <= to < 64 && king_step(from, to) && !member(own, to))
}

/// The pseudo-legal destinations of the king of `side_to_move` on `from`;
/// empty if no such king stands there.
pub fn get_king_moves(
    from: usize,
    white_kings: u64,
    black_kings: u64,
    white_pieces: u64,
    black_pieces: u64,
    side_to_move: Color,
) -> (moves: u64)
    requires
        from < 64,
    ensures
        squares(moves) == if member(of_side(side_to_move, white_kings, black_kings), from as int) {
            king_destinations(from as int, of_side(side_to_move, white_pieces, black_pieces))
        } else {
            Set::empty()
        },
        !member(of_side(side_to_move, white_kings, black_kings), from as int) ==> moves == 0,
{
    let from_bb: u64 = square_to_bitboard(from);
    let own_pieces: u64 = match side_to_move {
        Color::White => white_pieces,
        Color::Black => black_pieces,
    };
    let is_king_at_square: bool = match side_to_move {
        Color::White => white_kings & from_bb != 0,
        Color::Black => black_kings & from_bb != 0,
    };
    proof {
        lemma_member_constant();
    }
    if !is_king_at_square {
        proof {
            assert forall|to: int| !squares(0).contains(to) by {}
        }
        return 0;
    }
    let mut moves: u64 = 0;
    moves = with_leap(moves, from, 0, 1, own_pieces);
    moves = with_leap(moves, from, 1, 1, own_pieces);
    moves = with_leap(moves, from, 1, 0, own_pieces);
    moves = with_leap(moves, from, 1, -1, own_pieces);
    moves = with_leap(moves, from, 0, -1, own_pieces);
    moves = with_leap(moves, from, -1, -1, own_pieces);
    moves = with_leap(moves, from, -1, 0, own_pieces);
    moves = with_leap(moves, from, -1, 1, own_pieces);
    proof {
        assert forall|to: int|
            squares(moves).contains(to) == king_destinations(from as int, own_pieces).contains(
                to,
            ) by {}
    }
    moves
}

/// A king has at most eight destinations.
pub proof fn lemma_king_has_at_most_eight_destinations(from: int, own: u64)
    requires
        0 <= from < 64,
    ensures
        king_destinations(from, own).finite(),
        king_destinations(from, own).len() <= 8,
{
    let around: Set<int> = set![from + 8, from + 9, from + 1, from - 7, from - 8, from - 9, from - 1, from + 7];
    assert(king_destinations(from, own).subset_of(around));
    vstd::set_lib::lemma_len_subset(king_destinations(from, own), around);
}

} // verus!
