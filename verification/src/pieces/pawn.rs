//! Pawn moves: single and double pushes and diagonal captures. There is no
//! en passant and no promotion.

use vstd::prelude::*;
use crate::bitboard::geometry::rank_of;
use crate::bitboard::membership::{
    lemma_meets_single,
    lemma_member_bitwise,
    lemma_member_constant,
    lemma_member_shifted,
    member,
    squares,
};
use crate::bitboard::operations::square_to_bitboard;
use crate::pieces::piece_type::{of_side, Color};
use crate::pieces::steps::displaced;

verus! {

/// The direction in which the pawns of `side` advance, in ranks.
pub open spec fn pawn_forward(side: Color) -> int {
    match side {
        Color::White => 1,
        Color::Black => -1,
    }
}

/// The rank on which the pawns of `side` start and from which they may
/// advance two squares.
pub open spec fn pawn_home_rank(side: Color) -> int {
    match side {
        Color::White => 1,
        Color::Black => 6,
    }
}

/// Whether a pawn of `side` on `from` may move to `to`, given where the
/// pawns of both colours stand and which squares are occupied at all:
/// - one square ahead, if that square is not occupied;
/// - two squares ahead from the home rank, if neither square is occupied;
/// - one square diagonally ahead, if an enemy pawn stands there. No other
///   enemy piece can be captured by a pawn.
pub open spec fn pawn_target(
    from: int,
    to: int,
    white_pawns: u64,
    black_pawns: u64,
    occupied: u64,
    side: Color,
) -> bool {
    let forward = pawn_forward(side);
    let enemy_pawns = of_side(side.opposite(), white_pawns, black_pawns);
    let ahead = from + 8 * forward;
    ||| displaced(from, to, 0, forward) && !member(occupied, to)
    ||| rank_of(from) == pawn_home_rank(side) && displaced(from, to, 0, 2 * forward) && !member(
        occupied,
        ahead,
    ) && !member(occupied, to)
    ||| (displaced(from, to, -1, forward) || displaced(from, to, 1, forward)) && member(
        enemy_pawns,
        to,
    )
}

/// The squares that a pawn of `side` on `from` may move to.
pub open spec fn pawn_destinations(
    from: int,
    white_pawns: u64,
    black_pawns: u64,
    occupied: u64,
    side: Color,
) -> Set<int> {
    Set::new(|to: int| pawn_target(from, to, white_pawns, black_pawns, occupied, side))
}

/// Adds the squares of `step` to `moves` if `wanted` says so.
fn with_step(moves: u64, step: u64, wanted: bool) -> (out: u64)
    ensures
        forall|sq: int| #[trigger] member(out, sq) == (member(moves, sq) || (wanted && member(step, sq))),
{
    proof {
        lemma_member_bitwise(moves, step);
    }
    if wanted {
        moves | step
    } else {
        moves
    }
}

/// The pseudo-legal destinations of the pawn of `side_to_move` on `from`,
/// where the two bitboards given are all that is known of the board: a
/// square counts as occupied if a pawn of either colour stands on it. Empty
/// if no pawn of `side_to_move` stands on `from`.
pub fn get_pawn_moves(from: usize, white_pawns: u64, black_pawns: u64, side_to_move: Color) -> (moves:
    u64)
    requires
        from < 64,
    ensures
        squares(moves) == if member(of_side(side_to_move, white_pawns, black_pawns), from as int) {
            pawn_destinations(
                from as int,
                white_pawns,
                black_pawns,
                white_pawns | black_pawns,
                side_to_move,
            )
        } else {
            Set::empty()
        },
        !member(of_side(side_to_move, white_pawns, black_pawns), from as int) ==> moves == 0,
{
    let occupied: u64 = white_pawns | black_pawns;
    get_pawn_moves_among(from, white_pawns, black_pawns, occupied, side_to_move)
}

/// The pseudo-legal destinations of the pawn of `side_to_move` on `from`
/// on a board whose occupied squares are `occupied`; empty if no such pawn
/// stands there.
pub fn get_pawn_moves_among(
    from: usize,
    white_pawns: u64,
    black_pawns: u64,
    occupied: u64,
    side_to_move: Color,
) -> (moves: u64)
    requires
        from < 64,
    ensures
        squares(moves) == if member(of_side(side_to_move, white_pawns, black_pawns), from as int) {
            pawn_destinations(from as int, white_pawns, black_pawns, occupied, side_to_move)
        } else {
            Set::empty()
        },
        !member(of_side(side_to_move, white_pawns, black_pawns), from as int) ==> moves == 0,
{
    let from_bb: u64 = square_to_bitboard(from);
    let mut moves: u64 = 0;
    proof {
        lemma_member_constant();
        lemma_member_shifted(from as int, 7);
        lemma_member_shifted(from as int, 8);
        lemma_member_shifted(from as int, 9);
        assert forall|to: int| !squares(0).contains(to) by {}
    }
    match side_to_move {
        Color::White => {
            if white_pawns & from_bb == 0 {
                return 0;
            }
            let single_push: u64 = from_bb << 8;
            proof {
                lemma_meets_single(single_push, from + 8, occupied);
            }
            if single_push & occupied == 0 {
                moves = with_step(moves, single_push, true);
                if from / 8 == 1 {
                    let double_push: u64 = single_push << 8;
                    proof {
                        lemma_member_shifted(from + 8, 8);
                        lemma_meets_single(double_push, from + 16, occupied);
                    }
                    moves = with_step(moves, double_push, double_push & occupied == 0);
                }
            }
            if from % 8 != 0 {
                let capture_left: u64 = from_bb << 7;
                proof {
                    lemma_meets_single(capture_left, from + 7, black_pawns);
                }
                moves = with_step(moves, capture_left, capture_left & black_pawns != 0);
            }
            if from % 8 != 7 {
                let capture_right: u64 = from_bb << 9;
                proof {
                    lemma_meets_single(capture_right, from + 9, black_pawns);
                }
                moves = with_step(moves, capture_right, capture_right & black_pawns != 0);
            }
            proof {
                assert forall|to: int|
                    member(moves, to) == pawn_target(
                        from as int,
                        to,
                        white_pawns,
                        black_pawns,
                        occupied,
                        side_to_move,
                    ) by {}
            }
        },
        Color::Black => {
            if black_pawns & from_bb == 0 {
                return 0;
            }
            let single_push: u64 = from_bb >> 8;
            proof {
                lemma_meets_single(single_push, from - 8, occupied);
            }
            if single_push & occupied == 0 {
                moves = with_step(moves, single_push, true);
                if from / 8 == 6 {
                    let double_push: u64 = single_push >> 8;
                    proof {
                        lemma_member_shifted(from - 8, 8);
                        lemma_meets_single(double_push, from - 16, occupied);
                    }
                    moves = with_step(moves, double_push, double_push & occupied == 0);
                }
            }
            if from % 8 != 7 {
                let capture_right: u64 = from_bb >> 7;
                proof {
                    lemma_meets_single(capture_right, from - 7, white_pawns);
                }
                moves = with_step(moves, capture_right, capture_right & white_pawns != 0);
            }
            if from % 8 != 0 {
                let capture_left: u64 = from_bb >> 9;
                proof {
                    lemma_meets_single(capture_left, from - 9, white_pawns);
                }
                moves = with_step(moves, capture_left, capture_left & white_pawns != 0);
            }
            proof {
                assert forall|to: int|
                    member(moves, to) == pawn_target(
                        from as int,
                        to,
                        white_pawns,
                        black_pawns,
                        occupied,
                        side_to_move,
                    ) by {}
            }
        },
    }
    proof {
        assert forall|to: int|
            squares(moves).contains(to) == pawn_destinations(
                from as int,
                white_pawns,
                black_pawns,
                occupied,
                side_to_move,
            ).contains(to) by {}
    }
    moves
}

} // verus!
