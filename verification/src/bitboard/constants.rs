//! Named bitboards: the empty and the full board, the outer ranks and files,
//! and the two square colours.

use vstd::prelude::*;
use crate::bitboard::geometry::{file_of, rank_of};
use crate::bitboard::membership::member;

verus! {

/// No square.
pub const EMPTY: u64 = 0x0000_0000_0000_0000;

/// All 64 squares.
pub const UNIVERSE: u64 = 0xFFFF_FFFF_FFFF_FFFF;

/// The first rank.
pub const RANK_1: u64 = 0x0000_0000_0000_00FF;

/// The second rank.
pub const RANK_2: u64 = 0x0000_0000_0000_FF00;

/// The seventh rank.
pub const RANK_7: u64 = 0x00FF_0000_0000_0000;

/// The eighth rank.
pub const RANK_8: u64 = 0xFF00_0000_0000_0000;

/// The a-file.
pub const FILE_A: u64 = 0x0101_0101_0101_0101;

/// The b-file.
pub const FILE_B: u64 = 0x0202_0202_0202_0202;

/// The g-file.
pub const FILE_G: u64 = 0x4040_4040_4040_4040;

/// The h-file.
pub const FILE_H: u64 = 0x8080_8080_8080_8080;

/// The light squares: those with an odd sum of file and rank.
pub const LIGHT_SQUARES: u64 = 0x55AA_55AA_55AA_55AA;

/// The dark squares: those with an even sum of file and rank, a1 among them.
pub const DARK_SQUARES: u64 = 0xAA55_AA55_AA55_AA55;

proof fn lemma_named_bits(j: u64)
    by (bit_vector)
    requires
        j < 64,
    ensures
        (RANK_1 & (1u64 << j) != 0) == (j / 8 == 0),
        (RANK_2 & (1u64 << j) != 0) == (j / 8 == 1),
        (RANK_7 & (1u64 << j) != 0) == (j / 8 == 6),
        (RANK_8 & (1u64 << j) != 0) == (j / 8 == 7),
        (FILE_A & (1u64 << j) != 0) == (j % 8 == 0),
        (FILE_B & (1u64 << j) != 0) == (j % 8 == 1),
        (FILE_G & (1u64 << j) != 0) == (j % 8 == 6),
        (FILE_H & (1u64 << j) != 0) == (j % 8 == 7),
        (LIGHT_SQUARES & (1u64 << j) != 0) == ((j / 8 + j % 8) % 2 == 1),
        (DARK_SQUARES & (1u64 << j) != 0) == ((j / 8 + j % 8) % 2 == 0),
{
}

/// What each named bitboard holds: a rank mask holds the squares of its rank,
/// a file mask those of its file, and the colour masks split the board by the
/// parity of file plus rank (a1 is dark).
pub proof fn lemma_named_masks()
    ensures
        forall|sq: int| 0 <= sq < 64 ==> #[trigger] member(RANK_1, sq) == (rank_of(sq) == 0),
        forall|sq: int| 0 <= sq < 64 ==> #[trigger] member(RANK_2, sq) == (rank_of(sq) == 1),
        forall|sq: int| 0 <= sq < 64 ==> #[trigger] member(RANK_7, sq) == (rank_of(sq) == 6),
        forall|sq: int| 0 <= sq < 64 ==> #[trigger] member(RANK_8, sq) == (rank_of(sq) == 7),
        forall|sq: int| 0 <= sq < 64 ==> #[trigger] member(FILE_A, sq) == (file_of(sq) == 0),
        forall|sq: int| 0 <= sq < 64 ==> #[trigger] member(FILE_B, sq) == (file_of(sq) == 1),
        forall|sq: int| 0 <= sq < 64 ==> #[trigger] member(FILE_G, sq) == (file_of(sq) == 6),
        forall|sq: int| 0 <= sq < 64 ==> #[trigger] member(FILE_H, sq) == (file_of(sq) == 7),
        forall|sq: int|
            0 <= sq < 64 ==> #[trigger] member(LIGHT_SQUARES, sq) == ((file_of(sq) + rank_of(sq))
                % 2 == 1),
        forall|sq: int|
            0 <= sq < 64 ==> #[trigger] member(DARK_SQUARES, sq) == ((file_of(sq) + rank_of(sq))
                % 2 == 0),
{
    assert forall|sq: int| 0 <= sq < 64 implies #[trigger] member(RANK_1, sq) == (rank_of(sq)
        == 0) by {
        lemma_named_bits(sq as u64);
    }
    assert forall|sq: int| 0 <= sq < 64 implies #[trigger] member(RANK_2, sq) == (rank_of(sq)
        == 1) by {
        lemma_named_bits(sq as u64);
    }
    assert forall|sq: int| 0 <= sq < 64 implies #[trigger] member(RANK_7, sq) == (rank_of(sq)
        == 6) by {
        lemma_named_bits(sq as u64);
    }
    assert forall|sq: int| 0 <= sq < 64 implies #[trigger] member(RANK_8, sq) == (rank_of(sq)
        == 7) by {
        lemma_named_bits(sq as u64);
    }
    assert forall|sq: int| 0 <= sq < 64 implies #[trigger] member(FILE_A, sq) == (file_of(sq)
        == 0) by {
        lemma_named_bits(sq as u64);
    }
    assert forall|sq: int| 0 <= sq < 64 implies #[trigger] member(FILE_B, sq) == (file_of(sq)
        == 1) by {
        lemma_named_bits(sq as u64);
    }
    assert forall|sq: int| 0 <= sq < 64 implies #[trigger] member(FILE_G, sq) == (file_of(sq)
        == 6) by {
        lemma_named_bits(sq as u64);
    }
    assert forall|sq: int| 0 <= sq < 64 implies #[trigger] member(FILE_H, sq) == (file_of(sq)
        == 7) by {
        lemma_named_bits(sq as u64);
    }
    assert forall|sq: int| 0 <= sq < 64 implies #[trigger] member(LIGHT_SQUARES, sq) == ((file_of(
        sq,
    ) + rank_of(sq)) % 2 == 1) by {
        lemma_named_bits(sq as u64);
    }
    assert forall|sq: int| 0 <= sq < 64 implies #[trigger] member(DARK_SQUARES, sq) == ((file_of(
        sq,
    ) + rank_of(sq)) % 2 == 0) by {
        lemma_named_bits(sq as u64);
    }
}

} // verus!
