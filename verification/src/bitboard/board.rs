//! A set of squares kept behind a small interface that speaks of named
//! squares.

use vstd::prelude::*;
use crate::bitboard::constants::{
    DARK_SQUARES,
    EMPTY,
    FILE_A,
    FILE_B,
    FILE_G,
    FILE_H,
    LIGHT_SQUARES,
    RANK_1,
    RANK_2,
    RANK_7,
    RANK_8,
    UNIVERSE,
};
use crate::bitboard::membership::{
    lemma_member_bitwise,
    lemma_member_constant,
    lemma_member_single,
    lemma_zero_iff_no_member,
    squares,
};
use crate::bitboard::square::Square;
use crate::pieces::piece_type::Color;

verus! {

/// A set of squares.
#[derive(Debug, Clone)]
pub struct BitBoard {
    board: u64,
}

impl View for BitBoard {
    type V = Set<int>;

    /// The squares that the bitboard holds.
    open spec fn view(&self) -> Set<int> {
        squares(self.bits())
    }
}

impl Default for BitBoard {
    /// The empty bitboard.
    fn default() -> (empty: BitBoard)
        ensures
            empty.bits() == 0,
    {
        BitBoard { board: 0 }
    }
}

impl BitBoard {
    /// The 64 bits of the bitboard.
    pub closed spec fn bits(&self) -> u64 {
        self.board
    }

    /// The mask that `rank` and `file` know for the ordinal `number`: one
    /// for each of the two outer ranks or files on either side, none for the
    /// four in the middle.
    pub open spec fn outer_mask(number: u8, first: u64, second: u64, seventh: u64, eighth: u64) -> u64 {
        if number == 1 {
            first
        } else if number == 2 {
            second
        } else if number == 7 {
            seventh
        } else if number == 8 {
            eighth
        } else {
            EMPTY
        }
    }

    /// The 64 bits of the bitboard, for the other modules of the crate.
    pub(crate) fn raw_bits(&self) -> (bits: u64)
        ensures
            bits == self.bits(),
    {
        self.board
    }

    /// The empty bitboard.
    pub fn new() -> (empty: BitBoard)
        ensures
            empty.bits() == 0,
            empty@ == Set::<int>::empty(),
    {
        proof {
            lemma_member_constant();
        }
        Self::default()
    }

    /// The bitboard of all 64 squares.
    pub fn full() -> (all: BitBoard)
        ensures
            all.bits() == UNIVERSE,
            forall|sq: int| 0 <= sq < 64 ==> all@.contains(sq),
    {
        proof {
            lemma_member_constant();
        }
        Self::init(UNIVERSE)
    }

    /// The bitboard with the given bits.
    pub fn init(board: u64) -> (made: BitBoard)
        ensures
            made.bits() == board,
    {
        Self { board }
    }

    /// The bitboard of one of the outer ranks, numbered from 1: ranks 1, 2,
    /// 7 and 8 are known, every other number gives the empty bitboard.
    pub fn rank(rank: u8) -> (made: BitBoard)
        ensures
            made.bits() == Self::outer_mask(rank, RANK_1, RANK_2, RANK_7, RANK_8),
    {
        match rank {
            1 => Self::init(RANK_1),
            2 => Self::init(RANK_2),
            7 => Self::init(RANK_7),
            8 => Self::init(RANK_8),
            _ => Self::init(EMPTY),
        }
    }

    /// The bitboard of one of the outer files, numbered from 1 for the
    /// a-file: files 1, 2, 7 and 8 are known, every other number gives the
    /// empty bitboard.
    pub fn file(file: u8) -> (made: BitBoard)
        ensures
            made.bits() == Self::outer_mask(file, FILE_A, FILE_B, FILE_G, FILE_H),
    {
        match file {
            1 => Self::init(FILE_A),
            2 => Self::init(FILE_B),
            7 => Self::init(FILE_G),
            8 => Self::init(FILE_H),
            _ => Self::init(EMPTY),
        }
    }

    /// The squares of one colour: the light squares for `White`, the dark
    /// squares for `Black`.
    pub fn colored(color: Color) -> (made: BitBoard)
        ensures
            made.bits() == match color {
                Color::White => LIGHT_SQUARES,
                Color::Black => DARK_SQUARES,
            },
    {
        match color {
            Color::White => Self::init(LIGHT_SQUARES),
            Color::Black => Self::init(DARK_SQUARES),
        }
    }

    /// Whether the bitboard holds `square`; no bitboard holds `NoSquare`.
    pub fn is_occupied(&self, square: Square) -> (held: bool)
        ensures
            held == self@.contains(square.index()),
    {
        proof {
            lemma_member_constant();
            lemma_member_bitwise(self.board, 0);
            lemma_zero_iff_no_member(self.board & 0);
        }
        self.board & square != 0
    }

    /// Adds `square` to the bitboard; `NoSquare` adds nothing.
    pub fn set(&mut self, square: Square)
        ensures
            final(self).bits() == old(self).bits() | square.mask(),
            final(self)@ == if square == Square::NoSquare {
                old(self)@
            } else {
                old(self)@.insert(square.index())
            },
    {
        proof {
            lemma_member_constant();
            lemma_member_bitwise(self.board, square.mask());
            if square != Square::NoSquare {
                lemma_member_single(square.index());
            }
            assert forall|sq: int|
                squares(self.board | square.mask()).contains(sq) == (squares(self.board).contains(
                    sq,
                ) || (square != Square::NoSquare && sq == square.index())) by {}
        }
        self.board = self.board | square;
    }

    /// Removes `square` from the bitboard; `NoSquare` removes nothing.
    pub fn unset(&mut self, square: Square)
        ensures
            final(self).bits() == old(self).bits() & !square.mask(),
            final(self)@ == old(self)@.remove(square.index()),
    {
        proof {
            lemma_member_constant();
            lemma_member_bitwise(square.mask(), 0);
            lemma_member_bitwise(self.board, !square.mask());
            if square != Square::NoSquare {
                lemma_member_single(square.index());
            }
            assert forall|sq: int|
                squares(self.board & !square.mask()).contains(sq) == squares(self.board).remove(
                    square.index(),
                ).contains(sq) by {}
        }
        let mask: u64 = u64::from(square);
        self.board = self.board & !mask;
    }
}

} // verus!
