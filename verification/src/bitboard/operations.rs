//! Single-square operations on raw bitboards, bit counting and lowest-bit
//! queries.

use vstd::prelude::*;
use vstd::std_specs::bits::u64_trailing_zeros;
use crate::bitboard::membership::{
    is_lowest,
    lemma_equal_by_members,
    lemma_lowest_exists,
    lemma_member_bitwise,
    lemma_member_constant,
    lemma_member_single,
    lemma_zero_iff_no_member,
    member,
    squares,
};

verus! {

/// The bitboard that holds exactly `square`.
pub fn square_to_bitboard(square: usize) -> (mask: u64)
    requires
        square < 64,
    ensures
        mask == 1u64 << square,
        squares(mask) == set![square as int],
{
    proof {
        lemma_member_single(square as int);
    }
    1u64 << square
}

proof fn lemma_below_bits(i: u64, j: u64)
    by (bit_vector)
    requires
        i < 64,
        j < 64,
    ensures
        ((((1u64 << i) - 1) as u64) & (1u64 << j) != 0) == (j < i),
{
}

proof fn lemma_drop_lowest_bits(x: u64, i: u64)
    by (bit_vector)
    requires
        i < 64,
        x & (1u64 << i) != 0,
        x & (((1u64 << i) - 1) as u64) == 0,
    ensures
        x != 0,
        x & ((x - 1) as u64) == x & !(1u64 << i),
{
}

/// Clearing the lowest set bit with `x & (x - 1)` removes the lowest square
/// and no other.
pub proof fn lemma_drop_lowest(x: u64, low: int)
    requires
        is_lowest(x, low),
    ensures
        x != 0,
        forall|sq: int| #[trigger] member(x & ((x - 1) as u64), sq) == (member(x, sq) && sq != low),
{
    let i: u64 = low as u64;
    let below: u64 = ((1u64 << i) - 1) as u64;
    lemma_member_bitwise(x, below);
    assert forall|sq: int| 0 <= sq < 64 implies !member(x & below, sq) by {
        lemma_below_bits(i, sq as u64);
    }
    lemma_zero_iff_no_member(x & below);
    lemma_drop_lowest_bits(x, i);
    lemma_member_bitwise(1u64 << i, 0);
    lemma_member_bitwise(x, !(1u64 << i));
    lemma_member_single(low);
}

/// The square of a bitboard that holds exactly one square; `None` for every
/// other bitboard.
pub fn bitboard_to_square(bitboard: u64) -> (square: Option<usize>)
    ensures
        match square {
            Some(sq) => sq < 64 && bitboard == 1u64 << sq,
            None => forall|sq: int| 0 <= sq < 64 ==> bitboard != 1u64 << sq,
        },
{
    if bitboard == 0 {
        proof {
            assert forall|sq: int| 0 <= sq < 64 implies bitboard != 1u64 << sq by {
                lemma_member_single(sq);
                lemma_member_constant();
                assert(member(1u64 << sq, sq));
            }
        }
        return None;
    }
    proof {
        lemma_lowest_exists(bitboard);
        lemma_drop_lowest(bitboard, u64_trailing_zeros(bitboard) as int);
    }
    let rest: u64 = bitboard & (bitboard - 1);
    if rest != 0 {
        proof {
            assert forall|sq: int| 0 <= sq < 64 implies bitboard != 1u64 << sq by {
                if bitboard == 1u64 << sq {
                    lemma_member_single(sq);
                    lemma_zero_iff_no_member(rest);
                }
            }
        }
        return None;
    }
    let low: u32 = bitboard.trailing_zeros();
    proof {
        lemma_member_constant();
        lemma_member_single(low as int);
        assert forall|sq: int| 0 <= sq < 64 implies member(bitboard, sq) == member(
            1u64 << low,
            sq,
        ) by {
            assert(member(rest, sq) == (member(bitboard, sq) && sq != low));
        }
        lemma_equal_by_members(bitboard, 1u64 << low);
    }
    Some(low as usize)
}

/// Adds `square` to the bitboard.
pub fn set_bit(bitboard: &mut u64, square: usize)
    requires
        square < 64,
    ensures
        *final(bitboard) == *old(bitboard) | (1u64 << square),
        forall|sq: int|
            #[trigger] member(*final(bitboard), sq) == (member(*old(bitboard), sq) || sq == square),
        squares(*final(bitboard)) == squares(*old(bitboard)).insert(square as int),
{
    let mask: u64 = square_to_bitboard(square);
    proof {
        lemma_member_bitwise(*bitboard, mask);
        lemma_member_single(square as int);
    }
    *bitboard |= mask;
}

/// Removes `square` from the bitboard.
pub fn clear_bit(bitboard: &mut u64, square: usize)
    requires
        square < 64,
    ensures
        *final(bitboard) == *old(bitboard) & !(1u64 << square),
        forall|sq: int|
            #[trigger] member(*final(bitboard), sq) == (member(*old(bitboard), sq) && sq != square),
        squares(*final(bitboard)) == squares(*old(bitboard)).remove(square as int),
{
    let mask: u64 = square_to_bitboard(square);
    proof {
        lemma_member_bitwise(*bitboard, !mask);
        lemma_member_bitwise(mask, 0);
        lemma_member_single(square as int);
    }
    *bitboard &= !mask;
}

/// Whether the bitboard holds `square`.
pub fn test_bit(bitboard: u64, square: usize) -> (held: bool)
    requires
        square < 64,
    ensures
        held == member(bitboard, square as int),
        held == squares(bitboard).contains(square as int),
{
    (bitboard & square_to_bitboard(square)) != 0
}

/// The squares of a bitboard form a finite set of at most 64 elements.
pub proof fn lemma_squares_finite(bb: u64)
    ensures
        squares(bb).finite(),
        squares(bb).len() <= 64,
{
    let all: Set<int> = vstd::set_lib::set_int_range(0, 64);
    vstd::set_lib::lemma_int_range(0, 64);
    vstd::set_lib::lemma_len_subset(squares(bb), all);
}

/// The number of squares that the bitboard holds.
pub fn count_bits(bitboard: u64) -> (count: u32)
    ensures
        count == squares(bitboard).len(),
{
    let mut rest: u64 = bitboard;
    let mut count: u32 = 0;
    proof {
        lemma_squares_finite(bitboard);
    }
    while rest != 0
        invariant
            squares(rest).finite(),
            count + squares(rest).len() == squares(bitboard).len(),
            squares(bitboard).len() <= 64,
        decreases squares(rest).len(),
    {
        proof {
            lemma_lowest_exists(rest);
            let low: int = u64_trailing_zeros(rest) as int;
            lemma_drop_lowest(rest, low);
            let next: u64 = rest & ((rest - 1) as u64);
            assert(squares(next) =~= squares(rest).remove(low));
        }
        count += 1;
        rest &= rest - 1;
    }
    proof {
        lemma_member_constant();
        assert(squares(0) =~= Set::<int>::empty());
    }
    count
}

/// The lowest square of the bitboard, `None` for the empty bitboard.
pub fn get_lsb_index(bitboard: u64) -> (index: Option<usize>)
    ensures
        bitboard == 0 <==> index is None,
        index matches Some(sq) ==> is_lowest(bitboard, sq as int),
{
    if bitboard == 0 {
        return None;
    }
    proof {
        lemma_lowest_exists(bitboard);
    }
    Some(bitboard.trailing_zeros() as usize)
}

} // verus!
