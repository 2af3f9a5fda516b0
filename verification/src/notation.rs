//! Algebraic names of squares: a file letter `a`..`h` followed by a rank
//! digit `1`..`8`.

use vstd::prelude::*;
use vstd::string::StrSliceExecFns;
use crate::bitboard::membership::{member, squares};
use crate::bitboard::operations::test_bit;
use crate::board::Board;

verus! {

/// Whether `name` is a file letter followed by a rank digit.
pub open spec fn is_square_name(name: Seq<char>) -> bool {
    name.len() == 2 && 'a' <= name[0] <= 'h' && '1' <= name[1] <= '8'
}

/// The square that a well-formed name stands for.
pub open spec fn named_square(name: Seq<char>) -> int {
    (name[1] as int - '1' as int) * 8 + (name[0] as int - 'a' as int)
}

/// The square with the given algebraic name; `None` for anything that is
/// not a file letter followed by a rank digit.
pub fn algebraic_to_index(notation: &str) -> (index: Option<usize>)
    ensures
        index == if is_square_name(notation@) {
            Some(named_square(notation@) as usize)
        } else {
            None
        },
        index matches Some(sq) ==> sq < 64,
{
    if notation.unicode_len() != 2 {
        return None;
    }
    let file: char = notation.get_char(0);
    let rank: char = notation.get_char(1);
    if !('a' <= file && file <= 'h') || !('1' <= rank && rank <= '8') {
        return None;
    }
    let file_idx: usize = (file as u8 - 'a' as u8) as usize;
    let rank_idx: usize = (rank as u8 - '1' as u8) as usize;

    Some(rank_idx * 8 + file_idx)
}

/// The algebraic name of a square: its file letter and its rank digit.
pub fn index_to_algebraic(index: usize) -> (name: (char, char))
    requires
        index < 64,
    ensures
        name.0 as int == 'a' as int + index % 8,
        name.1 as int == '1' as int + index / 8,
        is_square_name(seq![name.0, name.1]),
        named_square(seq![name.0, name.1]) == index,
{
    let file: u8 = (index % 8) as u8 + 'a' as u8;
    let rank: u8 = (index / 8) as u8 + '1' as u8;
    (file as char, rank as char)
}

/// The pseudo-legal destinations of the piece on `square`, in ascending order.
pub fn get_legal_moves_list(board: &Board, square: usize) -> (list: Vec<usize>)
    requires
        square < 64,
    ensures
        forall|k: int|
            0 <= k < list.len() ==> board.destinations(square as int).contains(
                (#[trigger] list[k]) as int,
            ),
        forall|j: int, k: int| 0 <= j < k < list.len() ==> list[j] < list[k],
        forall|to: int|
            board.destinations(square as int).contains(to) ==> exists|k: int|
                0 <= k < list.len() && #[trigger] list[k] == to,
{
    let moves: u64 = board.get_legal_moves(square);
    let mut result: Vec<usize> = Vec::new();
    let mut i: usize = 0;
    while i < 64
        invariant
            i <= 64,
            squares(moves) == board.destinations(square as int),
            forall|k: int|
                0 <= k < result.len() ==> (#[trigger] result[k]) < i && member(
                    moves,
                    result[k] as int,
                ),
            forall|j: int, k: int| 0 <= j < k < result.len() ==> result[j] < result[k],
            forall|to: int|
                0 <= to < i && member(moves, to) ==> exists|k: int|
                    0 <= k < result.len() && #[trigger] result[k] == to,
        decreases 64 - i,
    {
        if test_bit(moves, i) {
            let ghost before: Seq<usize> = result@;
            result.push(i);
            proof {
                assert forall|to: int| 0 <= to < i + 1 && member(moves, to) implies exists|k: int|
                    0 <= k < result.len() && #[trigger] result[k] == to by {
                    if to < i {
                        let k: int = choose|k: int| 0 <= k < before.len() && #[trigger] before[k] == to;
                        assert(result[k] == to);
                    } else {
                        assert(result[result.len() - 1] == to);
                    }
                }
            }
        }
        i += 1;
    }
    result
}

} // verus!
