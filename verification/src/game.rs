//! A position kept as one bitboard per colour and piece kind, looked at as a
//! whole: which squares are occupied at all.

use std::collections::HashMap;
use vstd::prelude::*;
use vstd::std_specs::hash::spec_hash_map_iter;
use vstd::std_specs::iter::IteratorSpec;
use crate::bitboard::membership::{
    lemma_member_bitwise,
    lemma_member_constant,
    lemma_member_single,
    member,
    squares,
};
use crate::bitboard::{BitBoard, Square};
use crate::pieces::piece_type::{Color, PieceType};

verus! {

/// The key under which the bitboard of the pieces of one colour and kind is
/// kept: the kinds are numbered in the order of their declaration, White's
/// from 0 and Black's from 6.
pub open spec fn board_key(color: Color, piece: PieceType) -> u64 {
    let kind: u64 = match piece {
        PieceType::Pawn => 0,
        PieceType::Knight => 1,
        PieceType::Bishop => 2,
        PieceType::Rook => 3,
        PieceType::King => 4,
        PieceType::Queen => 5,
    };
    match color {
        Color::White => kind,
        Color::Black => (kind + 6) as u64,
    }
}

/// The bitboards of a game, at most one per colour and piece kind.
pub struct GameBoard {
    boards: HashMap<u64, BitBoard>,
}

impl Default for GameBoard {
    /// The game board without any bitboard.
    fn default() -> (empty: GameBoard)
        ensures
            empty.entries() == Map::<u64, BitBoard>::empty(),
            empty.well_formed(),
    {
        GameBoard { boards: HashMap::new() }
    }
}

impl GameBoard {
    /// The bitboards that the game board holds, each under its key.
    pub closed spec fn entries(&self) -> Map<u64, BitBoard> {
        self.boards@
    }

    /// Every key is that of a colour and a piece kind.
    pub open spec fn well_formed(&self) -> bool {
        forall|key: u64| #[trigger]
            self.entries().contains_key(key) ==> exists|color: Color, piece: PieceType|
                key == #[trigger] board_key(color, piece)
    }

    /// Some bitboard of the game board holds the square `sq`.
    pub open spec fn occupied(&self, sq: int) -> bool {
        exists|key: u64| #[trigger]
            self.entries().contains_key(key) && member(self.entries()[key].bits(), sq)
    }

    /// Whether any piece stands on `square`.
    pub fn is_occupied(&self, square: Square) -> (held: bool)
        ensures
            held == self.occupied(square.index()),
    {
        let ghost all = spec_hash_map_iter(&self.boards).remaining();
        let ghost mut seen: int = 0;
        for entry in iter: self.boards.iter()
            invariant
                iter.seq() == all,
                seen == iter.index(),
                forall|i: int|
                    0 <= i < seen ==> !member((#[trigger] all[i]).1.bits(), square.index()),
        {
            let held: bool = entry.1.is_occupied(square);
            proof {
                assert(squares(entry.1.bits()).contains(square.index()) == member(
                    entry.1.bits(),
                    square.index(),
                ));
            }
            if held {
                proof {
                    assert(self.entries().contains_key(*entry.0));
                }
                return true;
            }
            proof {
                seen = seen + 1;
            }
        }
        proof {
            if self.occupied(square.index()) {
                let key: u64 = choose|key: u64| #[trigger]
                    self.entries().contains_key(key) && member(
                        self.entries()[key].bits(),
                        square.index(),
                    );
                assert(all.contains((&key, &self.boards@[key])));
            }
        }
        false
    }

    /// The union of all bitboards: the occupied squares.
    pub fn occupied_bits(&self) -> (bits: u64)
        ensures
            forall|sq: int| #[trigger] member(bits, sq) == self.occupied(sq),
    {
        let mut bits: u64 = 0;
        let ghost all = spec_hash_map_iter(&self.boards).remaining();
        let ghost mut seen: int = 0;
        proof {
            lemma_member_constant();
        }
        for entry in iter: self.boards.iter()
            invariant
                iter.seq() == all,
                seen == iter.index(),
                forall|sq: int|
                    #[trigger] member(bits, sq) == exists|i: int|
                        0 <= i < seen && member((#[trigger] all[i]).1.bits(), sq),
        {
            let next: u64 = entry.1.raw_bits();
            proof {
                lemma_member_bitwise(bits, next);
                assert forall|sq: int| #[trigger]
                    member(bits | next, sq) == exists|i: int|
                        0 <= i < seen + 1 && member((#[trigger] all[i]).1.bits(), sq) by {
                    if member(next, sq) {
                        assert(member(all[seen].1.bits(), sq));
                    }
                }
                seen = seen + 1;
            }
            bits = bits | next;
        }
        proof {
            assert forall|sq: int| #[trigger] member(bits, sq) == self.occupied(sq) by {
                if member(bits, sq) {
                    let i: int = choose|i: int|
                        0 <= i < seen && member((#[trigger] all[i]).1.bits(), sq);
                    assert(self.entries().contains_key(*all[i].0));
                }
                if self.occupied(sq) {
                    let key: u64 = choose|key: u64| #[trigger]
                        self.entries().contains_key(key) && member(self.entries()[key].bits(), sq);
                    assert(all.contains((&key, &self.boards@[key])));
                }
            }
        }
        bits
    }

    /// The occupied squares by name, in ascending order.
    pub fn occupied_squares(&self) -> (list: Vec<Square>)
        ensures
            forall|k: int|
                0 <= k < list.len() ==> 0 <= (#[trigger] list[k]).index() < 64 && self.occupied(
                    list[k].index(),
                ),
            forall|j: int, k: int|
                0 <= j < k < list.len() ==> (#[trigger] list[j]).index() < (#[trigger] list[k]).index(),
            forall|sq: int|
                0 <= sq < 64 && self.occupied(sq) ==> exists|k: int|
                    0 <= k < list.len() && (#[trigger] list[k]).index() == sq,
    {
        let mut vec: Vec<Square> = Vec::with_capacity(64);
        let bits: u64 = self.occupied_bits();
        let mut i: usize = 0;
        while i < 64
            invariant
                i <= 64,
                forall|sq: int| #[trigger] member(bits, sq) == self.occupied(sq),
                forall|k: int|
                    0 <= k < vec.len() ==> 0 <= (#[trigger] vec[k]).index() < i && member(
                        bits,
                        vec[k].index(),
                    ),
                forall|j: int, k: int|
                    0 <= j < k < vec.len() ==> (#[trigger] vec[j]).index() < (#[trigger] vec[k]).index(),
                forall|sq: int|
                    0 <= sq < i && member(bits, sq) ==> exists|k: int|
                        0 <= k < vec.len() && (#[trigger] vec[k]).index() == sq,
            decreases 64 - i,
        {
            let space: u64 = 1u64 << i;
            if bits & space != 0 {
                let square: Square = Square::from(space);
                proof {
                    lemma_member_single(i as int);
                    lemma_member_constant();
                    Square::lemma_of_mask(space);
                    assert(member(space, i as int));
                }
                let ghost before: Seq<Square> = vec@;
                vec.push(square);
                proof {
                    assert forall|sq: int| 0 <= sq < i + 1 && member(bits, sq) implies exists|k: int|
                        0 <= k < vec.len() && (#[trigger] vec[k]).index() == sq by {
                        if sq < i {
                            let k: int = choose|k: int|
                                0 <= k < before.len() && (#[trigger] before[k]).index() == sq;
                            assert(vec[k].index() == sq);
                        } else {
                            assert(vec[vec.len() - 1].index() == sq);
                        }
                    }
                }
            }
            i += 1;
        }
        proof {
            assert forall|sq: int| 0 <= sq < 64 && self.occupied(sq) implies exists|k: int|
                0 <= k < vec.len() && (#[trigger] vec[k]).index() == sq by {
                assert(member(bits, sq));
            }
        }
        vec
    }
}

} // verus!
