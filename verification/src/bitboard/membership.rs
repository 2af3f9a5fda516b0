//! The mathematical model of a bitboard: the set of squares whose bit is set.
//!
//! Squares are the integers `0..64`, rank-major: square = rank * 8 + file.
//! The lemmas below state the effect of each bitwise operation on
//! membership, so that the rest of the crate can reason about sets of squares.

use vstd::prelude::*;
use vstd::std_specs::bits::{axiom_u64_trailing_zeros, u64_trailing_zeros};

verus! {

/// Whether square `sq` is a member of the bitboard `bb`. No square outside
/// `0..64` is a member of any bitboard.
pub open spec fn member(bb: u64, sq: int) -> bool {
    0 <= sq < 64 && bb & (1u64 << sq) != 0
}

/// The set of squares held by a bitboard.
pub open spec fn squares(bb: u64) -> Set<int> {
    Set::new(|sq: int| member(bb, sq))
}

/// Whether `sq` is the lowest square of `bb`.
pub open spec fn is_lowest(bb: u64, sq: int) -> bool {
    member(bb, sq) && forall|lower: int| 0 <= lower < sq ==> !member(bb, lower)
}

proof fn lemma_bitwise_members(a: u64, b: u64, j: u64)
    by (bit_vector)
    requires
        j < 64,
    ensures
        ((a | b) & (1u64 << j) != 0) == ((a & (1u64 << j) != 0) || (b & (1u64 << j) != 0)),
        ((a & b) & (1u64 << j) != 0) == ((a & (1u64 << j) != 0) && (b & (1u64 << j) != 0)),
        ((a ^ b) & (1u64 << j) != 0) == ((a & (1u64 << j) != 0) != (b & (1u64 << j) != 0)),
        ((!a) & (1u64 << j) != 0) == !(a & (1u64 << j) != 0),
        0u64 & (1u64 << j) == 0,
        0xFFFF_FFFF_FFFF_FFFFu64 & (1u64 << j) != 0,
        (a & (1u64 << j) != 0) == ((a >> j) & 1 == 1),
{
}

proof fn lemma_single_members(i: u64, j: u64)
    by (bit_vector)
    requires
        i < 64,
        j < 64,
    ensures
        ((1u64 << i) & (1u64 << j) != 0) == (i == j),
{
}

/// Membership in a union, an intersection, a symmetric difference and a
/// complement of bitboards.
pub proof fn lemma_member_bitwise(a: u64, b: u64)
    ensures
        forall|sq: int| #[trigger] member(a | b, sq) == (member(a, sq) || member(b, sq)),
        forall|sq: int| #[trigger] member(a & b, sq) == (member(a, sq) && member(b, sq)),
        forall|sq: int| #[trigger] member(a ^ b, sq) == (member(a, sq) != member(b, sq)),
        forall|sq: int| 0 <= sq < 64 ==> #[trigger] member(!a, sq) == !member(a, sq),
{
    assert forall|sq: int| #[trigger] member(a | b, sq) == (member(a, sq) || member(b, sq)) by {
        if 0 <= sq < 64 {
            lemma_bitwise_members(a, b, sq as u64);
        }
    }
    assert forall|sq: int| #[trigger] member(a & b, sq) == (member(a, sq) && member(b, sq)) by {
        if 0 <= sq < 64 {
            lemma_bitwise_members(a, b, sq as u64);
        }
    }
    assert forall|sq: int| #[trigger] member(a ^ b, sq) == (member(a, sq) != member(b, sq)) by {
        if 0 <= sq < 64 {
            lemma_bitwise_members(a, b, sq as u64);
        }
    }
    assert forall|sq: int| 0 <= sq < 64 implies #[trigger] member(!a, sq) == !member(a, sq) by {
        lemma_bitwise_members(a, b, sq as u64);
    }
}

/// The empty bitboard has no member; the full bitboard has every square.
pub proof fn lemma_member_constant()
    ensures
        forall|sq: int| !#[trigger] member(0, sq),
        forall|sq: int| 0 <= sq < 64 ==> #[trigger] member(0xFFFF_FFFF_FFFF_FFFF, sq),
{
    assert forall|sq: int| !#[trigger] member(0, sq) by {
        if 0 <= sq < 64 {
            lemma_bitwise_members(0, 0, sq as u64);
        }
    }
    assert forall|sq: int| 0 <= sq < 64 implies #[trigger] member(0xFFFF_FFFF_FFFF_FFFF, sq) by {
        lemma_bitwise_members(0, 0, sq as u64);
    }
}

/// The bitboard `1 << at` holds the square `at` and nothing else.
pub proof fn lemma_member_single(at: int)
    requires
        0 <= at < 64,
    ensures
        forall|sq: int| #[trigger] member(1u64 << at, sq) == (sq == at),
{
    assert forall|sq: int| #[trigger] member(1u64 << at, sq) == (sq == at) by {
        if 0 <= sq < 64 {
            lemma_single_members(at as u64, sq as u64);
        }
    }
}

/// A non-empty bitboard has a lowest square, and it is the number of its
/// trailing zero bits.
pub proof fn lemma_lowest_exists(bb: u64)
    requires
        bb != 0,
    ensures
        is_lowest(bb, u64_trailing_zeros(bb) as int),
{
    axiom_u64_trailing_zeros(bb);
    let low: u64 = u64_trailing_zeros(bb) as u64;
    lemma_bitwise_members(bb, bb, low);
    assert forall|lower: int| 0 <= lower < low implies !member(bb, lower) by {
        let j: u64 = lower as u64;
        lemma_bitwise_members(bb, bb, j);
    }
}

/// Two bitboards with the same members are the same bitboard.
pub proof fn lemma_equal_by_members(a: u64, b: u64)
    requires
        forall|sq: int| 0 <= sq < 64 ==> member(a, sq) == member(b, sq),
    ensures
        a == b,
{
    let diff: u64 = a ^ b;
    if diff != 0 {
        lemma_lowest_exists(diff);
        lemma_member_bitwise(a, b);
        let at: int = u64_trailing_zeros(diff) as int;
    }
    assert(a ^ b == 0 ==> a == b) by (bit_vector);
}

/// Two bitboards with the same set of squares are the same bitboard.
pub proof fn lemma_equal_by_squares(a: u64, b: u64)
    requires
        squares(a) == squares(b),
    ensures
        a == b,
{
    assert forall|sq: int| 0 <= sq < 64 implies member(a, sq) == member(b, sq) by {
        assert(squares(a).contains(sq) == member(a, sq));
    }
    lemma_equal_by_members(a, b);
}

/// A bitboard is empty exactly when it has no member.
pub proof fn lemma_zero_iff_no_member(bb: u64)
    ensures
        bb == 0 <==> forall|sq: int| 0 <= sq < 64 ==> !member(bb, sq),
{
    lemma_member_constant();
    if forall|sq: int| 0 <= sq < 64 ==> !member(bb, sq) {
        lemma_equal_by_members(bb, 0);
    }
}

proof fn lemma_shifted_bits(i: u64, k: u64)
    by (bit_vector)
    requires
        i < 64,
        k < 64,
    ensures
        (1u64 << i) << k == (if i + k < 64 {
            1u64 << ((i + k) as u64)
        } else {
            0
        }),
        (1u64 << i) >> k == (if i >= k {
            1u64 << ((i - k) as u64)
        } else {
            0
        }),
{
}

/// Shifting the one-square bitboard of `at` left by `by` moves the square up
/// by `by`, shifting it right moves it down; a square that would leave the
/// board is dropped.
pub proof fn lemma_member_shifted(at: int, by: int)
    requires
        0 <= at < 64,
        0 <= by < 64,
    ensures
        forall|sq: int| #[trigger] member((1u64 << at) << by, sq) == (sq == at + by && sq < 64),
        forall|sq: int| #[trigger] member((1u64 << at) >> by, sq) == (sq == at - by && sq >= 0),
        at + by < 64 ==> (1u64 << at) << by == 1u64 << (at + by),
        at - by >= 0 ==> (1u64 << at) >> by == 1u64 << (at - by),
{
    lemma_shifted_bits(at as u64, by as u64);
    lemma_member_constant();
    if at + by < 64 {
        lemma_member_single(at + by);
    }
    if at - by >= 0 {
        lemma_member_single(at - by);
    }
}

/// Two bitboards have a zero bitwise AND exactly when they share no square.
pub proof fn lemma_apart(a: u64, b: u64)
    ensures
        (a & b == 0) == (forall|sq: int| 0 <= sq < 64 ==> !(member(a, sq) && member(b, sq))),
{
    lemma_member_bitwise(a, b);
    lemma_zero_iff_no_member(a & b);
    if a & b == 0 {
        assert forall|sq: int| 0 <= sq < 64 implies !(member(a, sq) && member(b, sq)) by {
            assert(!member(a & b, sq));
        }
    }
}

/// A bitboard that holds no square but `at` meets `bb` exactly when it holds
/// `at` and `bb` does too.
pub proof fn lemma_meets_single(mask: u64, at: int, bb: u64)
    requires
        forall|sq: int| member(mask, sq) ==> sq == at,
    ensures
        (mask & bb != 0) == (member(mask, at) && member(bb, at)),
{
    lemma_member_bitwise(mask, bb);
    lemma_zero_iff_no_member(mask & bb);
    if member(mask, at) && member(bb, at) {
        assert(member(mask & bb, at));
    }
}

} // verus!
