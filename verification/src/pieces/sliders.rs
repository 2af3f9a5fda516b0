//! What holds of the three sliding pieces alike: a slide never passes over a
//! piece, and it ends on the first piece it meets only to capture it.

use vstd::prelude::*;
use crate::bitboard::geometry::{bishop_line, path_clear, rook_line, strictly_between};
use crate::bitboard::membership::{lemma_member_bitwise, lemma_member_constant, member};
use crate::pieces::bishop::bishop_destinations;
use crate::pieces::queen::queen_destinations;
use crate::pieces::rook::rook_destinations;

verus! {

/// `to` is a destination of a rook, a bishop or a queen on `from`.
pub open spec fn slider_destination(from: int, to: int, own: u64, opponent: u64) -> bool {
    rook_destinations(from, own, opponent).contains(to) || bishop_destinations(
        from,
        own,
        opponent,
    ).contains(to) || queen_destinations(from, own, opponent).contains(to)
}

/// Sliding pieces never jump: no square strictly between the origin and a
/// destination of a rook, bishop or queen is occupied, so no destination
/// lies beyond the first occupied square of its direction.
pub proof fn lemma_sliders_never_jump(from: int, to: int, between: int, own: u64, opponent: u64)
    requires
        slider_destination(from, to, own, opponent),
        strictly_between(from, to, between),
    ensures
        !member(own, between),
        !member(opponent, between),
{
    lemma_member_bitwise(own, opponent);
}

/// The first occupied square in a direction is a destination exactly when
/// the opponent holds it: for a rook along ranks and files, for a bishop
/// along diagonals, for a queen along both.
pub proof fn lemma_sliders_stop_at_first_piece(from: int, first: int, own: u64, opponent: u64)
    requires
        0 <= first < 64,
        own & opponent == 0,
        member(own, first) || member(opponent, first),
        path_clear(from, first, own | opponent),
    ensures
        rook_line(from, first) ==> rook_destinations(from, own, opponent).contains(first) == member(
            opponent,
            first,
        ),
        bishop_line(from, first) ==> bishop_destinations(from, own, opponent).contains(first)
            == member(opponent, first),
        rook_line(from, first) || bishop_line(from, first) ==> queen_destinations(
            from,
            own,
            opponent,
        ).contains(first) == member(opponent, first),
{
    lemma_member_bitwise(own, opponent);
    lemma_member_constant();
    assert(!member(own & opponent, first));
}

} // verus!
