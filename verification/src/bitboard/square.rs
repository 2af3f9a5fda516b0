//! The squares of the board by name, and their conversion to and from
//! one-square bitboards.

use vstd::prelude::*;
use vstd::std_specs::bits::u64_trailing_zeros;
use vstd::std_specs::convert::FromSpecImpl;
use vstd::std_specs::ops::{BitAndSpecImpl, BitOrSpecImpl, BitXorSpecImpl, NotSpecImpl};
use crate::bitboard::membership::{is_lowest, lemma_lowest_exists};

verus! {

/// A square by name, file letter first; `NoSquare` stands for no square.
#[derive(Debug, Clone, Copy, PartialEq, Eq, Structural)]
pub enum Square {
    NoSquare,
    A1,
    B1,
    C1,
    D1,
    E1,
    F1,
    G1,
    H1,
    A2,
    B2,
    C2,
    D2,
    E2,
    F2,
    G2,
    H2,
    A3,
    B3,
    C3,
    D3,
    E3,
    F3,
    G3,
    H3,
    A4,
    B4,
    C4,
    D4,
    E4,
    F4,
    G4,
    H4,
    A5,
    B5,
    C5,
    D5,
    E5,
    F5,
    G5,
    H5,
    A6,
    B6,
    C6,
    D6,
    E6,
    F6,
    G6,
    H6,
    A7,
    B7,
    C7,
    D7,
    E7,
    F7,
    G7,
    H7,
    A8,
    B8,
    C8,
    D8,
    E8,
    F8,
    G8,
    H8,
}

impl Square {
    /// The number of the square, `rank * 8 + file`; 64 for `NoSquare`.
    pub open spec fn index(self) -> int {
        match self {
            Square::NoSquare => 64,
            Square::A1 => 0,
            Square::B1 => 1,
            Square::C1 => 2,
            Square::D1 => 3,
            Square::E1 => 4,
            Square::F1 => 5,
            Square::G1 => 6,
            Square::H1 => 7,
            Square::A2 => 8,
            Square::B2 => 9,
            Square::C2 => 10,
            Square::D2 => 11,
            Square::E2 => 12,
            Square::F2 => 13,
            Square::G2 => 14,
            Square::H2 => 15,
            Square::A3 => 16,
            Square::B3 => 17,
            Square::C3 => 18,
            Square::D3 => 19,
            Square::E3 => 20,
            Square::F3 => 21,
            Square::G3 => 22,
            Square::H3 => 23,
            Square::A4 => 24,
            Square::B4 => 25,
            Square::C4 => 26,
            Square::D4 => 27,
            Square::E4 => 28,
            Square::F4 => 29,
            Square::G4 => 30,
            Square::H4 => 31,
            Square::A5 => 32,
            Square::B5 => 33,
            Square::C5 => 34,
            Square::D5 => 35,
            Square::E5 => 36,
            Square::F5 => 37,
            Square::G5 => 38,
            Square::H5 => 39,
            Square::A6 => 40,
            Square::B6 => 41,
            Square::C6 => 42,
            Square::D6 => 43,
            Square::E6 => 44,
            Square::F6 => 45,
            Square::G6 => 46,
            Square::H6 => 47,
            Square::A7 => 48,
            Square::B7 => 49,
            Square::C7 => 50,
            Square::D7 => 51,
            Square::E7 => 52,
            Square::F7 => 53,
            Square::G7 => 54,
            Square::H7 => 55,
            Square::A8 => 56,
            Square::B8 => 57,
            Square::C8 => 58,
            Square::D8 => 59,
            Square::E8 => 60,
            Square::F8 => 61,
            Square::G8 => 62,
            Square::H8 => 63,
        }
    }

    /// The square with the given number; `NoSquare` for a number outside `0..64`.
    pub open spec fn of_index(index: int) -> Square {
        if index == 0 {
            Square::A1
        } else if index == 1 {
            Square::B1
        } else if index == 2 {
            Square::C1
        } else if index == 3 {
            Square::D1
        } else if index == 4 {
            Square::E1
        } else if index == 5 {
            Square::F1
        } else if index == 6 {
            Square::G1
        } else if index == 7 {
            Square::H1
        } else if index == 8 {
            Square::A2
        } else if index == 9 {
            Square::B2
        } else if index == 10 {
            Square::C2
        } else if index == 11 {
            Square::D2
        } else if index == 12 {
            Square::E2
        } else if index == 13 {
            Square::F2
        } else if index == 14 {
            Square::G2
        } else if index == 15 {
            Square::H2
        } else if index == 16 {
            Square::A3
        } else if index == 17 {
            Square::B3
        } else if index == 18 {
            Square::C3
        } else if index == 19 {
            Square::D3
        } else if index == 20 {
            Square::E3
        } else if index == 21 {
            Square::F3
        } else if index == 22 {
            Square::G3
        } else if index == 23 {
            Square::H3
        } else if index == 24 {
            Square::A4
        } else if index == 25 {
            Square::B4
        } else if index == 26 {
            Square::C4
        } else if index == 27 {
            Square::D4
        } else if index == 28 {
            Square::E4
        } else if index == 29 {
            Square::F4
        } else if index == 30 {
            Square::G4
        } else if index == 31 {
            Square::H4
        } else if index == 32 {
            Square::A5
        } else if index == 33 {
            Square::B5
        } else if index == 34 {
            Square::C5
        } else if index == 35 {
            Square::D5
        } else if index == 36 {
            Square::E5
        } else if index == 37 {
            Square::F5
        } else if index == 38 {
            Square::G5
        } else if index == 39 {
            Square::H5
        } else if index == 40 {
            Square::A6
        } else if index == 41 {
            Square::B6
        } else if index == 42 {
            Square::C6
        } else if index == 43 {
            Square::D6
        } else if index == 44 {
            Square::E6
        } else if index == 45 {
            Square::F6
        } else if index == 46 {
            Square::G6
        } else if index == 47 {
            Square::H6
        } else if index == 48 {
            Square::A7
        } else if index == 49 {
            Square::B7
        } else if index == 50 {
            Square::C7
        } else if index == 51 {
            Square::D7
        } else if index == 52 {
            Square::E7
        } else if index == 53 {
            Square::F7
        } else if index == 54 {
            Square::G7
        } else if index == 55 {
            Square::H7
        } else if index == 56 {
            Square::A8
        } else if index == 57 {
            Square::B8
        } else if index == 58 {
            Square::C8
        } else if index == 59 {
            Square::D8
        } else if index == 60 {
            Square::E8
        } else if index == 61 {
            Square::F8
        } else if index == 62 {
            Square::G8
        } else if index == 63 {
            Square::H8
        } else {
            Square::NoSquare
        }
    }

    /// The bitboard that holds this square and no other; empty for `NoSquare`.
    pub open spec fn mask(self) -> u64 {
        if self == Square::NoSquare {
            0
        } else {
            1u64 << self.index()
        }
    }

    /// The square of the lowest set bit of `value`; `NoSquare` if `value` is empty.
    pub open spec fn of_mask(value: u64) -> Square {
        Square::of_index(u64_trailing_zeros(value) as int)
    }

    /// Numbering and naming are inverse to each other.
    pub proof fn lemma_index_round_trip(self, index: int)
        ensures
            Square::of_index(self.index()) == self,
            0 <= self.index() <= 64,
            0 <= index < 64 ==> Square::of_index(index).index() == index,
            (self == Square::NoSquare) == (self.index() == 64),
    {
    }

    /// The named square of a non-empty bitboard is its lowest square.
    pub proof fn lemma_of_mask(value: u64)
        ensures
            (value == 0) == (Square::of_mask(value) == Square::NoSquare),
            value != 0 ==> is_lowest(value, Square::of_mask(value).index()),
    {
        vstd::std_specs::bits::axiom_u64_trailing_zeros(value);
        if value != 0 {
            lemma_lowest_exists(value);
            let low: int = u64_trailing_zeros(value) as int;
        }
    }
}

impl From<Square> for u64 {
    fn from(square: Square) -> (mask: u64) {
        proof {
            assert(1u64 << 0 == 1u64) by (bit_vector);
        }
        match square {
            Square::NoSquare => 0,
            Square::A1 => 1u64,
            Square::B1 => 1u64 << 1,
            Square::C1 => 1u64 << 2,
            Square::D1 => 1u64 << 3,
            Square::E1 => 1u64 << 4,
            Square::F1 => 1u64 << 5,
            Square::G1 => 1u64 << 6,
            Square::H1 => 1u64 << 7,
            Square::A2 => 1u64 << 8,
            Square::B2 => 1u64 << 9,
            Square::C2 => 1u64 << 10,
            Square::D2 => 1u64 << 11,
            Square::E2 => 1u64 << 12,
            Square::F2 => 1u64 << 13,
            Square::G2 => 1u64 << 14,
            Square::H2 => 1u64 << 15,
            Square::A3 => 1u64 << 16,
            Square::B3 => 1u64 << 17,
            Square::C3 => 1u64 << 18,
            Square::D3 => 1u64 << 19,
            Square::E3 => 1u64 << 20,
            Square::F3 => 1u64 << 21,
            Square::G3 => 1u64 << 22,
            Square::H3 => 1u64 << 23,
            Square::A4 => 1u64 << 24,
            Square::B4 => 1u64 << 25,
            Square::C4 => 1u64 << 26,
            Square::D4 => 1u64 << 27,
            Square::E4 => 1u64 << 28,
            Square::F4 => 1u64 << 29,
            Square::G4 => 1u64 << 30,
            Square::H4 => 1u64 << 31,
            Square::A5 => 1u64 << 32,
            Square::B5 => 1u64 << 33,
            Square::C5 => 1u64 << 34,
            Square::D5 => 1u64 << 35,
            Square::E5 => 1u64 << 36,
            Square::F5 => 1u64 << 37,
            Square::G5 => 1u64 << 38,
            Square::H5 => 1u64 << 39,
            Square::A6 => 1u64 << 40,
            Square::B6 => 1u64 << 41,
            Square::C6 => 1u64 << 42,
            Square::D6 => 1u64 << 43,
            Square::E6 => 1u64 << 44,
            Square::F6 => 1u64 << 45,
            Square::G6 => 1u64 << 46,
            Square::H6 => 1u64 << 47,
            Square::A7 => 1u64 << 48,
            Square::B7 => 1u64 << 49,
            Square::C7 => 1u64 << 50,
            Square::D7 => 1u64 << 51,
            Square::E7 => 1u64 << 52,
            Square::F7 => 1u64 << 53,
            Square::G7 => 1u64 << 54,
            Square::H7 => 1u64 << 55,
            Square::A8 => 1u64 << 56,
            Square::B8 => 1u64 << 57,
            Square::C8 => 1u64 << 58,
            Square::D8 => 1u64 << 59,
            Square::E8 => 1u64 << 60,
            Square::F8 => 1u64 << 61,
            Square::G8 => 1u64 << 62,
            Square::H8 => 1u64 << 63,
        }
    }
}

impl FromSpecImpl<Square> for u64 {
    open spec fn obeys_from_spec() -> bool {
        true
    }

    open spec fn from_spec(square: Square) -> u64 {
        square.mask()
    }
}

impl From<u64> for Square {
    fn from(value: u64) -> (square: Square) {
        match value.trailing_zeros() {
            0 => Square::A1,
            1 => Square::B1,
            2 => Square::C1,
            3 => Square::D1,
            4 => Square::E1,
            5 => Square::F1,
            6 => Square::G1,
            7 => Square::H1,
            8 => Square::A2,
            9 => Square::B2,
            10 => Square::C2,
            11 => Square::D2,
            12 => Square::E2,
            13 => Square::F2,
            14 => Square::G2,
            15 => Square::H2,
            16 => Square::A3,
            17 => Square::B3,
            18 => Square::C3,
            19 => Square::D3,
            20 => Square::E3,
            21 => Square::F3,
            22 => Square::G3,
            23 => Square::H3,
            24 => Square::A4,
            25 => Square::B4,
            26 => Square::C4,
            27 => Square::D4,
            28 => Square::E4,
            29 => Square::F4,
            30 => Square::G4,
            31 => Square::H4,
            32 => Square::A5,
            33 => Square::B5,
            34 => Square::C5,
            35 => Square::D5,
            36 => Square::E5,
            37 => Square::F5,
            38 => Square::G5,
            39 => Square::H5,
            40 => Square::A6,
            41 => Square::B6,
            42 => Square::C6,
            43 => Square::D6,
            44 => Square::E6,
            45 => Square::F6,
            46 => Square::G6,
            47 => Square::H6,
            48 => Square::A7,
            49 => Square::B7,
            50 => Square::C7,
            51 => Square::D7,
            52 => Square::E7,
            53 => Square::F7,
            54 => Square::G7,
            55 => Square::H7,
            56 => Square::A8,
            57 => Square::B8,
            58 => Square::C8,
            59 => Square::D8,
            60 => Square::E8,
            61 => Square::F8,
            62 => Square::G8,
            63 => Square::H8,
            _ => Square::NoSquare,
        }
    }
}

impl FromSpecImpl<u64> for Square {
    open spec fn obeys_from_spec() -> bool {
        true
    }

    open spec fn from_spec(value: u64) -> Square {
        Square::of_mask(value)
    }
}

impl core::ops::BitAnd<Square> for u64 {
    type Output = u64;

    fn bitand(self, rhs: Square) -> (out: u64) {
        let lhs_u64: u64 = self;
        let rhs_u64: u64 = u64::from(rhs);
        lhs_u64 & rhs_u64
    }
}

impl BitAndSpecImpl<Square> for u64 {
    open spec fn obeys_bitand_spec() -> bool {
        true
    }

    open spec fn bitand_req(self, rhs: Square) -> bool {
        true
    }

    open spec fn bitand_spec(self, rhs: Square) -> u64 {
        self & rhs.mask()
    }
}

impl core::ops::BitOr<Square> for u64 {
    type Output = u64;

    fn bitor(self, rhs: Square) -> (out: u64) {
        let lhs_u64: u64 = self;
        let rhs_u64: u64 = u64::from(rhs);
        lhs_u64 | rhs_u64
    }
}

impl BitOrSpecImpl<Square> for u64 {
    open spec fn obeys_bitor_spec() -> bool {
        true
    }

    open spec fn bitor_req(self, rhs: Square) -> bool {
        true
    }

    open spec fn bitor_spec(self, rhs: Square) -> u64 {
        self | rhs.mask()
    }
}

impl core::ops::BitXor<Square> for u64 {
    type Output = u64;

    fn bitxor(self, rhs: Square) -> (out: u64) {
        let lhs_u64: u64 = self;
        let rhs_u64: u64 = u64::from(rhs);
        lhs_u64 ^ rhs_u64
    }
}

impl BitXorSpecImpl<Square> for u64 {
    open spec fn obeys_bitxor_spec() -> bool {
        true
    }

    open spec fn bitxor_req(self, rhs: Square) -> bool {
        true
    }

    open spec fn bitxor_spec(self, rhs: Square) -> u64 {
        self ^ rhs.mask()
    }
}

impl core::ops::BitAndAssign<Square> for u64 {
    fn bitand_assign(&mut self, rhs: Square)
        ensures
            *final(self) == *old(self) & rhs.mask(),
    {
        let lhs_u64: u64 = *self;
        let rhs_u64: u64 = u64::from(rhs);
        *self = lhs_u64 & rhs_u64;
    }
}

impl core::ops::BitOrAssign<Square> for u64 {
    fn bitor_assign(&mut self, rhs: Square)
        ensures
            *final(self) == *old(self) | rhs.mask(),
    {
        let lhs_u64: u64 = *self;
        let rhs_u64: u64 = u64::from(rhs);
        *self = lhs_u64 | rhs_u64;
    }
}

impl core::ops::BitXorAssign<Square> for u64 {
    fn bitxor_assign(&mut self, rhs: Square)
        ensures
            *final(self) == *old(self) ^ rhs.mask(),
    {
        let lhs_u64: u64 = *self;
        let rhs_u64: u64 = u64::from(rhs);
        *self = lhs_u64 ^ rhs_u64;
    }
}

impl core::ops::Not for Square {
    type Output = u64;

    fn not(self) -> (out: u64) {
        let value: u64 = u64::from(self);
        !value
    }
}

impl NotSpecImpl for Square {
    open spec fn obeys_not_spec() -> bool {
        true
    }

    open spec fn not_req(self) -> bool {
        true
    }

    open spec fn not_spec(self) -> u64 {
        !self.mask()
    }
}

} // verus!
