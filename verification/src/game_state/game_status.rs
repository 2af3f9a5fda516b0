//! The status of a position, computed afresh from the position on each call:
//! every pseudo-legal move of the side to move is tried on a copy of the
//! position, and the move counts as safe if the mover's king is not attacked
//! afterwards.

use vstd::prelude::*;
use crate::bitboard::membership::{lemma_member_constant, lemma_zero_iff_no_member, member, squares};
use crate::bitboard::operations::{set_bit, test_bit};
use crate::board::{relocated, vacated, Board};
use crate::game_state::check::{in_check, is_in_check};
use crate::pieces::piece_type::Color;

verus! {

/// What the position means for the side to move.
#[derive(Debug, PartialEq, Eq, Clone, Copy, Structural)]
pub enum GameStatus {
    /// Not in check, and a safe move exists.
    Ongoing,
    /// In check, and a safe move exists.
    Check,
    /// In check, and no safe move exists.
    Checkmate,
    /// Not in check, and no safe move exists.
    Stalemate,
}

/// What becomes of a bitboard of the mover in a trial move: the first of the
/// mover's bitboards that holds `from` is relocated, the others stay.
pub open spec fn trial_mask(held_before: bool, bb: u64, from: int, to: int) -> u64 {
    if !held_before && member(bb, from) {
        relocated(bb, from, to)
    } else {
        bb
    }
}

/// The position in which the trial move from `from` to `to` ends. If the
/// piece looked up on `from` belongs to the side to move, the move is
/// applied: the first of the mover's bitboards that holds `from` (pawns,
/// knights, bishops, rooks, queens, kings, in that order) is relocated, and
/// `to` is cleared in all six bitboards of the opponent. The side to move
/// stays, so that the mover's king can be examined. Otherwise the position
/// is unchanged.
pub open spec fn simulated(board: &Board, from: int, to: int) -> Board {
    let side = board.side_to_move;
    if board.piece_on(from) matches Some((_, color)) && color == side {
        match side {
            Color::White => {
                let pawn = member(board.white_pawns, from);
                let knight = pawn || member(board.white_knights, from);
                let bishop = knight || member(board.white_bishops, from);
                let rook = bishop || member(board.white_rooks, from);
                let queen = rook || member(board.white_queens, from);
                Board {
                    white_pawns: trial_mask(false, board.white_pawns, from, to),
                    white_knights: trial_mask(pawn, board.white_knights, from, to),
                    white_bishops: trial_mask(knight, board.white_bishops, from, to),
                    white_rooks: trial_mask(bishop, board.white_rooks, from, to),
                    white_queens: trial_mask(rook, board.white_queens, from, to),
                    white_kings: trial_mask(queen, board.white_kings, from, to),
                    black_pawns: vacated(board.black_pawns, to),
                    black_knights: vacated(board.black_knights, to),
                    black_bishops: vacated(board.black_bishops, to),
                    black_rooks: vacated(board.black_rooks, to),
                    black_queens: vacated(board.black_queens, to),
                    black_kings: vacated(board.black_kings, to),
                    side_to_move: side,
                }
            },
            Color::Black => {
                let pawn = member(board.black_pawns, from);
                let knight = pawn || member(board.black_knights, from);
                let bishop = knight || member(board.black_bishops, from);
                let rook = bishop || member(board.black_rooks, from);
                let queen = rook || member(board.black_queens, from);
                Board {
                    black_pawns: trial_mask(false, board.black_pawns, from, to),
                    black_knights: trial_mask(pawn, board.black_knights, from, to),
                    black_bishops: trial_mask(knight, board.black_bishops, from, to),
                    black_rooks: trial_mask(bishop, board.black_rooks, from, to),
                    black_queens: trial_mask(rook, board.black_queens, from, to),
                    black_kings: trial_mask(queen, board.black_kings, from, to),
                    white_pawns: vacated(board.white_pawns, to),
                    white_knights: vacated(board.white_knights, to),
                    white_bishops: vacated(board.white_bishops, to),
                    white_rooks: vacated(board.white_rooks, to),
                    white_queens: vacated(board.white_queens, to),
                    white_kings: vacated(board.white_kings, to),
                    side_to_move: side,
                }
            },
        }
    } else {
        *board
    }
}

/// The safe destinations of the piece on `from`: the pseudo-legal ones after
/// which the king of the side to move is not in check.
pub open spec fn safe_destinations(board: &Board, from: int) -> Set<int> {
    Set::new(
        |to: int|
            board.destinations(from).contains(to) && !in_check(
                &simulated(board, from, to),
                board.side_to_move,
            ),
    )
}

/// No piece of `color` has a safe destination. Moves are generated for the
/// side to move only, so this holds of the other side in every position.
pub open spec fn no_safe_move(board: &Board, color: Color) -> bool {
    forall|from: int, to: int|
        member(board.occupancy_of(color), from) ==> !#[trigger] safe_destinations(
            board,
            from,
        ).contains(to)
}

/// The status of a position: a function of the position alone.
pub open spec fn status_of(board: &Board) -> GameStatus {
    let side = board.side_to_move;
    if in_check(board, side) {
        if no_safe_move(board, side) {
            GameStatus::Checkmate
        } else {
            GameStatus::Check
        }
    } else if no_safe_move(board, side) {
        GameStatus::Stalemate
    } else {
        GameStatus::Ongoing
    }
}

/// The status of the position for the side to move.
pub fn get_game_status(board: &Board) -> (status: GameStatus)
    ensures
        status == status_of(board),
{
    let side_to_move: Color = board.side_to_move;

    if is_in_check(board, side_to_move) {
        if is_checkmate(board, side_to_move) {
            GameStatus::Checkmate
        } else {
            GameStatus::Check
        }
    } else if is_stalemate(board, side_to_move) {
        GameStatus::Stalemate
    } else {
        GameStatus::Ongoing
    }
}

/// Whether `color` is in check and has no safe move.
pub fn is_checkmate(board: &Board, color: Color) -> (mate: bool)
    ensures
        mate == (in_check(board, color) && no_safe_move(board, color)),
{
    if !is_in_check(board, color) {
        return false;
    }
    has_no_legal_moves(board, color)
}

/// Whether `color` is not in check and has no safe move.
pub fn is_stalemate(board: &Board, color: Color) -> (stale: bool)
    ensures
        stale == (!in_check(board, color) && no_safe_move(board, color)),
{
    if is_in_check(board, color) {
        return false;
    }
    has_no_legal_moves(board, color)
}

/// Whether no piece of `color` has a safe move. The search ends at the first
/// safe move that it finds.
pub fn has_no_legal_moves(board: &Board, color: Color) -> (none: bool)
    ensures
        none == no_safe_move(board, color),
{
    let pieces_bitboard: u64 = match color {
        Color::White => board.white_pieces(),
        Color::Black => board.black_pieces(),
    };
    let mut i: usize = 0;
    while i < 64
        invariant
            i <= 64,
            pieces_bitboard == board.occupancy_of(color),
            forall|from: int, to: int|
                0 <= from < i && member(pieces_bitboard, from) ==> !#[trigger] safe_destinations(
                    board,
                    from,
                ).contains(to),
        decreases 64 - i,
    {
        if test_bit(pieces_bitboard, i) {
            let legal_moves: u64 = get_safe_moves(board, i);
            proof {
                lemma_zero_iff_no_member(legal_moves);
            }
            if legal_moves != 0 {
                proof {
                    let to: int = choose|to: int| 0 <= to < 64 && member(legal_moves, to);
                    assert(squares(legal_moves).contains(to) == member(legal_moves, to));
                }
                return false;
            }
            proof {
                assert forall|to: int| !safe_destinations(board, i as int).contains(to) by {}
            }
        }
        i += 1;
    }
    true
}

/// The safe destinations of the piece on `from`, as a bitboard.
pub fn get_safe_moves(board: &Board, from: usize) -> (safe_moves: u64)
    requires
        from < 64,
    ensures
        squares(safe_moves) == safe_destinations(board, from as int),
{
    let moving_side: Color = board.side_to_move;
    let legal_moves: u64 = board.get_legal_moves(from);
    let mut safe_moves: u64 = 0;
    proof {
        lemma_member_constant();
    }
    if legal_moves == 0 {
        proof {
            assert forall|to: int|
                squares(0).contains(to) == safe_destinations(board, from as int).contains(to) by {}
        }
        return 0;
    }
    let mut to: usize = 0;
    while to < 64
        invariant
            to <= 64,
            from < 64,
            moving_side == board.side_to_move,
            squares(legal_moves) == board.destinations(from as int),
            forall|sq: int|
                #[trigger] member(safe_moves, sq) == (sq < to && safe_destinations(
                    board,
                    from as int,
                ).contains(sq)),
        decreases 64 - to,
    {
        if test_bit(legal_moves, to) {
            let simulated_board: Board = simulate_move(board, from, to);
            if !is_in_check(&simulated_board, moving_side) {
                set_bit(&mut safe_moves, to);
            }
        }
        to += 1;
    }
    proof {
        assert forall|sq: int|
            squares(safe_moves).contains(sq) == safe_destinations(board, from as int).contains(
                sq,
            ) by {}
    }
    safe_moves
}

/// Tries the move from `from` to `to` on a copy of the position.
pub fn simulate_move(board: &Board, from: usize, to: usize) -> (new_board: Board)
    requires
        from < 64,
        to < 64,
    ensures
        new_board == simulated(board, from as int, to as int),
{
    let from_bb: u64 = 1u64 << from;
    let to_bb: u64 = 1u64 << to;
    let moving_side: Color = board.side_to_move;

    let mut new_board: Board = Board {
        white_pawns: board.white_pawns,
        black_pawns: board.black_pawns,
        white_knights: board.white_knights,
        black_knights: board.black_knights,
        white_bishops: board.white_bishops,
        black_bishops: board.black_bishops,
        white_rooks: board.white_rooks,
        black_rooks: board.black_rooks,
        white_queens: board.white_queens,
        black_queens: board.black_queens,
        white_kings: board.white_kings,
        black_kings: board.black_kings,
        side_to_move: moving_side,
    };

    if let Some((_, color)) = board.get_piece_type_at(from) {
        if color != moving_side {
            return new_board;
        }
        if moving_side == Color::White {
            new_board.black_pawns &= !to_bb;
            new_board.black_knights &= !to_bb;
            new_board.black_bishops &= !to_bb;
            new_board.black_rooks &= !to_bb;
            new_board.black_queens &= !to_bb;
            new_board.black_kings &= !to_bb;
        } else {
            new_board.white_pawns &= !to_bb;
            new_board.white_knights &= !to_bb;
            new_board.white_bishops &= !to_bb;
            new_board.white_rooks &= !to_bb;
            new_board.white_queens &= !to_bb;
            new_board.white_kings &= !to_bb;
        }

        if moving_side == Color::White {
            if new_board.white_pawns & from_bb != 0 {
                new_board.white_pawns &= !from_bb;
                new_board.white_pawns |= to_bb;
            } else if new_board.white_knights & from_bb != 0 {
                new_board.white_knights &= !from_bb;
                new_board.white_knights |= to_bb;
            } else if new_board.white_bishops & from_bb != 0 {
                new_board.white_bishops &= !from_bb;
                new_board.white_bishops |= to_bb;
            } else if new_board.white_rooks & from_bb != 0 {
                new_board.white_rooks &= !from_bb;
                new_board.white_rooks |= to_bb;
            } else if new_board.white_queens & from_bb != 0 {
                new_board.white_queens &= !from_bb;
                new_board.white_queens |= to_bb;
            } else if new_board.white_kings & from_bb != 0 {
                new_board.white_kings &= !from_bb;
                new_board.white_kings |= to_bb;
            }
        } else if new_board.black_pawns & from_bb != 0 {
            new_board.black_pawns &= !from_bb;
            new_board.black_pawns |= to_bb;
        } else if new_board.black_knights & from_bb != 0 {
            new_board.black_knights &= !from_bb;
            new_board.black_knights |= to_bb;
        } else if new_board.black_bishops & from_bb != 0 {
            new_board.black_bishops &= !from_bb;
            new_board.black_bishops |= to_bb;
        } else if new_board.black_rooks & from_bb != 0 {
            new_board.black_rooks &= !from_bb;
            new_board.black_rooks |= to_bb;
        } else if new_board.black_queens & from_bb != 0 {
            new_board.black_queens &= !from_bb;
            new_board.black_queens |= to_bb;
        } else if new_board.black_kings & from_bb != 0 {
            new_board.black_kings &= !from_bb;
            new_board.black_kings |= to_bb;
        }
    }
    new_board
}

/// In a position that keeps the invariant, the trial of a move of one of
/// the mover's pieces ends where applying the move would, except that the
/// side to move stays.
pub proof fn lemma_trial_follows_the_move(board: &Board, from: int, to: int)
    requires
        0 <= from < 64,
        0 <= to < 64,
        board.disjoint(),
        board.piece_on(from) matches Some((_, color)) && color == board.side_to_move,
    ensures
        simulated(board, from, to) == (Board {
            side_to_move: board.side_to_move,
            ..board.after_move(from, to)
        }),
{
    board.lemma_disjoint_by_square();
    assert(board.holders(from) <= 1);
}

/// The status depends on the position alone: equal positions have equal status.
pub proof fn lemma_status_is_a_function_of_the_position(first: &Board, second: &Board)
    requires
        *first == *second,
    ensures
        status_of(first) == status_of(second),
{
}

} // verus!
