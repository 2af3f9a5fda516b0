//! Coordinates of squares and the lines between them.
//!
//! A square is `rank * 8 + file`. The relations below say how two squares lie
//! to each other: one step apart, a knight's leap apart, or on a common rank,
//! file or diagonal with some squares strictly between them.

use vstd::prelude::*;
use crate::bitboard::membership::member;

verus! {

/// The file of a square, `0` for the a-file to `7` for the h-file.
pub open spec fn file_of(sq: int) -> int {
    sq % 8
}

/// The rank of a square, `0` for the first rank to `7` for the eighth.
pub open spec fn rank_of(sq: int) -> int {
    sq / 8
}

/// The square on the given file and rank.
pub open spec fn square_at(file: int, rank: int) -> int {
    rank * 8 + file
}

/// Whether a file and a rank name a square of the board.
pub open spec fn on_board(file: int, rank: int) -> bool {
    0 <= file < 8 && 0 <= rank < 8
}

/// How many files `to` lies to the right of `from` (negative: to the left).
pub open spec fn file_delta(from: int, to: int) -> int {
    file_of(to) - file_of(from)
}

/// How many ranks `to` lies above `from` (negative: below).
pub open spec fn rank_delta(from: int, to: int) -> int {
    rank_of(to) - rank_of(from)
}

pub open spec fn magnitude(x: int) -> int {
    if x < 0 {
        -x
    } else {
        x
    }
}

pub open spec fn sign(x: int) -> int {
    if x < 0 {
        -1
    } else if x > 0 {
        1
    } else {
        0
    }
}

/// The number of king steps between two squares.
pub open spec fn distance(from: int, to: int) -> int {
    let files = magnitude(file_delta(from, to));
    let ranks = magnitude(rank_delta(from, to));
    if files > ranks {
        files
    } else {
        ranks
    }
}

/// `to` is a knight's leap away from `from`.
pub open spec fn knight_step(from: int, to: int) -> bool {
    let files = magnitude(file_delta(from, to));
    let ranks = magnitude(rank_delta(from, to));
    (files == 1 && ranks == 2) || (files == 2 && ranks == 1)
}

/// `to` is one of the up to eight neighbours of `from`.
pub open spec fn king_step(from: int, to: int) -> bool {
    distance(from, to) == 1
}

/// The two distinct squares share a rank or a file.
pub open spec fn rook_line(from: int, to: int) -> bool {
    from != to && (file_delta(from, to) == 0 || rank_delta(from, to) == 0)
}

/// The two distinct squares share a diagonal.
pub open spec fn bishop_line(from: int, to: int) -> bool {
    from != to && magnitude(file_delta(from, to)) == magnitude(rank_delta(from, to))
}

/// Seen from `from`, the square `to` lies in the direction that moves
/// `file_step` files and `rank_step` ranks at a time.
pub open spec fn heads(from: int, to: int, file_step: int, rank_step: int) -> bool {
    sign(file_delta(from, to)) == file_step && sign(rank_delta(from, to)) == rank_step
}

/// `to` is a square of the ray that leaves `from` in the given direction.
pub open spec fn on_ray(from: int, to: int, file_step: int, rank_step: int) -> bool {
    0 <= to < 64 && (rook_line(from, to) || bishop_line(from, to)) && heads(
        from,
        to,
        file_step,
        rank_step,
    )
}

/// `sq` lies on the straight line from `from` to `to`, strictly between them.
pub open spec fn strictly_between(from: int, to: int, sq: int) -> bool {
    on_ray(from, sq, sign(file_delta(from, to)), sign(rank_delta(from, to))) && distance(from, sq)
        < distance(from, to)
}

/// No square strictly between `from` and `to` is in `occupied`.
pub open spec fn path_clear(from: int, to: int, occupied: u64) -> bool {
    forall|sq: int| #[trigger] strictly_between(from, to, sq) ==> !member(occupied, sq)
}

} // verus!
