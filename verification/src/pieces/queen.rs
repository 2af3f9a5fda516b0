//! Queen moves: those of a bishop and of a rook together.

use vstd::prelude::*;
use crate::bitboard::membership::{lemma_member_bitwise, lemma_member_constant, member, squares};
use crate::bitboard::operations::square_to_bitboard;
use crate::pieces::bishop::{bishop_destinations, get_bishop_moves};
use crate::pieces::piece_type::{of_side, Color};
use crate::pieces::rook::{get_rook_moves, rook_destinations};

verus! {

/// The squares that a queen on `from` may move to: the union of what a
/// bishop and a rook on that square could reach.
pub open spec fn queen_destinations(from: int, own: u64, opponent: u64) -> Set<int> {
    bishop_destinations(from, own, opponent).union(rook_destinations(from, own, opponent))
}

/// The pseudo-legal destinations of the queen of `side_to_move` on `from`;
/// empty if no such queen stands there.
pub fn get_queen_moves(
    from: usize,
    white_queens: u64,
    black_queens: u64,
    white_pieces: u64,
    black_pieces: u64,
    side_to_move: Color,
) -> (moves: u64)
    requires
        from < 64,
    ensures
        squares(moves) == if member(of_side(side_to_move, white_queens, black_queens), from as int) {
            queen_destinations(
                from as int,
                of_side(side_to_move, white_pieces, black_pieces),
                of_side(side_to_move.opposite(), white_pieces, black_pieces),
            )
        } else {
            Set::empty()
        },
        !member(of_side(side_to_move, white_queens, black_queens), from as int) ==> moves == 0,
{
    let from_bb: u64 = square_to_bitboard(from);
    let is_queen_at_square: bool = match side_to_move {
        Color::White => white_queens & from_bb != 0,
        Color::Black => black_queens & from_bb != 0,
    };
    proof {
        lemma_member_constant();
    }
    if !is_queen_at_square {
        proof {
            assert forall|to: int| !squares(0).contains(to) by {}
        }
        return 0;
    }
    proof {
        assert(squares(from_bb).contains(from as int) == member(from_bb, from as int));
    }
    let bishop_moves: u64 = get_bishop_moves(
        from,
        from_bb,
        from_bb,
        white_pieces,
        black_pieces,
        side_to_move,
    );
    let rook_moves: u64 = get_rook_moves(
        from,
        from_bb,
        from_bb,
        white_pieces,
        black_pieces,
        side_to_move,
    );
    proof {
        let own: u64 = of_side(side_to_move, white_pieces, black_pieces);
        let opponent: u64 = of_side(side_to_move.opposite(), white_pieces, black_pieces);
        lemma_member_bitwise(bishop_moves, rook_moves);
        assert forall|to: int|
            squares(bishop_moves | rook_moves).contains(to) == queen_destinations(
                from as int,
                own,
                opponent,
            ).contains(to) by {}
    }
    bishop_moves | rook_moves
}

} // verus!
