//! Check detection. The detector starts from the king's square and looks
//! outward for an attacker of each class, rather than generating the moves
//! of every enemy piece.

use vstd::prelude::*;
use crate::bitboard::geometry::{bishop_line, knight_step, on_ray, path_clear, rook_line};
use crate::bitboard::membership::{is_lowest, member};
use crate::bitboard::operations::test_bit;
use crate::board::Board;
use crate::pieces::pawn::pawn_forward;
use crate::pieces::piece_type::{of_side, Color};
use crate::pieces::steps::{displaced, first_blocker, leap_hits, lemma_first_blocker_unique};

verus! {

/// The squares held by the kings of `color`.
pub open spec fn kings_of(board: &Board, color: Color) -> u64 {
    of_side(color, board.white_kings, board.black_kings)
}

/// The enemy pieces that attack along diagonals: bishops and queens.
pub open spec fn diagonal_attackers(board: &Board, king_color: Color) -> u64 {
    of_side(
        king_color.opposite(),
        board.white_bishops | board.white_queens,
        board.black_bishops | board.black_queens,
    )
}

/// The enemy pieces that attack along ranks and files: rooks and queens.
pub open spec fn orthogonal_attackers(board: &Board, king_color: Color) -> u64 {
    of_side(
        king_color.opposite(),
        board.white_rooks | board.white_queens,
        board.black_rooks | board.black_queens,
    )
}

/// One of `attackers` stands on `sq`, and no piece stands between it and `from`.
pub open spec fn line_attacker(from: int, sq: int, occupied: u64, attackers: u64) -> bool {
    member(attackers, sq) && member(occupied, sq) && path_clear(from, sq, occupied)
}

/// An enemy pawn stands where it could capture onto `king`: one rank further
/// toward the enemy side, one file to the left or right.
pub open spec fn pawn_attack(board: &Board, king: int, king_color: Color) -> bool {
    let enemy_pawns = of_side(king_color.opposite(), board.white_pawns, board.black_pawns);
    let toward = pawn_forward(king_color);
    exists|sq: int|
        (displaced(king, sq, -1, toward) || displaced(king, sq, 1, toward)) && #[trigger] member(
            enemy_pawns,
            sq,
        )
}

/// An enemy knight stands a knight's leap from `king`.
pub open spec fn knight_attack(board: &Board, king: int, king_color: Color) -> bool {
    let enemy_knights = of_side(king_color.opposite(), board.white_knights, board.black_knights);
    exists|sq: int| knight_step(king, sq) && #[trigger] member(enemy_knights, sq)
}

/// The first piece met from `king` along some diagonal is an enemy bishop or queen.
pub open spec fn diagonal_attack(board: &Board, king: int, king_color: Color) -> bool {
    exists|sq: int|
        bishop_line(king, sq) && #[trigger] line_attacker(
            king,
            sq,
            board.white_occupancy() | board.black_occupancy(),
            diagonal_attackers(board, king_color),
        )
}

/// The first piece met from `king` along its rank or file is an enemy rook or queen.
pub open spec fn orthogonal_attack(board: &Board, king: int, king_color: Color) -> bool {
    exists|sq: int|
        rook_line(king, sq) && #[trigger] line_attacker(
            king,
            sq,
            board.white_occupancy() | board.black_occupancy(),
            orthogonal_attackers(board, king_color),
        )
}

/// A king of `king_color` on `king` would be attacked by an enemy pawn,
/// knight, bishop, rook or queen. Enemy kings do not count as attackers.
pub open spec fn attacked(board: &Board, king: int, king_color: Color) -> bool {
    pawn_attack(board, king, king_color) || knight_attack(board, king, king_color)
        || diagonal_attack(board, king, king_color) || orthogonal_attack(board, king, king_color)
}

/// The king of `color`, taken to stand on the lowest square of its bitboard,
/// is attacked. A side without a king is never in check.
pub open spec fn in_check(board: &Board, color: Color) -> bool {
    exists|king: int| #[trigger] is_lowest(kings_of(board, color), king) && attacked(board, king, color)
}

/// Whether the king of `color` is in check.
pub fn is_in_check(board: &Board, color: Color) -> (check: bool)
    ensures
        check == in_check(board, color),
{
    let king_position: usize = find_king_position(board, color);
    if king_position == 64 {
        return false;
    }
    let check: bool = check_pawn_attack(board, king_position, color) || check_knight_attack(
        board,
        king_position,
        color,
    ) || check_bishop_attack(board, king_position, color) || check_rook_attack(
        board,
        king_position,
        color,
    );
    check
}

/// The lowest square that holds a king of `color`; 64 if there is none.
pub fn find_king_position(board: &Board, color: Color) -> (position: usize)
    ensures
        position <= 64,
        position < 64 ==> is_lowest(kings_of(board, color), position as int),
        position == 64 ==> forall|sq: int| !member(kings_of(board, color), sq),
{
    let king_bitboard: u64 = match color {
        Color::White => board.white_kings,
        Color::Black => board.black_kings,
    };
    let mut i: usize = 0;
    while i < 64
        invariant
            i <= 64,
            king_bitboard == kings_of(board, color),
            forall|sq: int| 0 <= sq < i ==> !member(king_bitboard, sq),
        decreases 64 - i,
    {
        if king_bitboard & (1u64 << i) != 0 {
            return i;
        }
        i += 1;
    }
    64
}

/// Whether an enemy pawn attacks the square `king_pos`.
pub fn check_pawn_attack(board: &Board, king_pos: usize, king_color: Color) -> (attack: bool)
    requires
        king_pos < 64,
    ensures
        attack == pawn_attack(board, king_pos as int, king_color),
{
    let attack: bool = match king_color {
        Color::White => leap_hits(king_pos, -1, 1, board.black_pawns) || leap_hits(
            king_pos,
            1,
            1,
            board.black_pawns,
        ),
        Color::Black => leap_hits(king_pos, -1, -1, board.white_pawns) || leap_hits(
            king_pos,
            1,
            -1,
            board.white_pawns,
        ),
    };
    proof {
        let enemy_pawns: u64 = of_side(king_color.opposite(), board.white_pawns, board.black_pawns);
        let toward: int = pawn_forward(king_color);
        if attack {
            let sq: int = choose|sq: int|
                (displaced(king_pos as int, sq, -1, toward) || displaced(
                    king_pos as int,
                    sq,
                    1,
                    toward,
                )) && member(enemy_pawns, sq);
            assert(member(enemy_pawns, sq));
        }
        if pawn_attack(board, king_pos as int, king_color) {
            let sq: int = choose|sq: int|
                (displaced(king_pos as int, sq, -1, toward) || displaced(
                    king_pos as int,
                    sq,
                    1,
                    toward,
                )) && #[trigger] member(enemy_pawns, sq);
            assert(displaced(king_pos as int, sq, -1, toward) || displaced(
                king_pos as int,
                sq,
                1,
                toward,
            ));
        }
    }
    attack
}

/// Whether an enemy knight attacks the square `king_pos`.
pub fn check_knight_attack(board: &Board, king_pos: usize, king_color: Color) -> (attack: bool)
    requires
        king_pos < 64,
    ensures
        attack == knight_attack(board, king_pos as int, king_color),
{
    let enemy_knights: u64 = match king_color {
        Color::White => board.black_knights,
        Color::Black => board.white_knights,
    };
    let attack: bool = leap_hits(king_pos, -2, -1, enemy_knights) || leap_hits(
        king_pos,
        -2,
        1,
        enemy_knights,
    ) || leap_hits(king_pos, -1, -2, enemy_knights) || leap_hits(king_pos, -1, 2, enemy_knights)
        || leap_hits(king_pos, 1, -2, enemy_knights) || leap_hits(king_pos, 1, 2, enemy_knights)
        || leap_hits(king_pos, 2, -1, enemy_knights) || leap_hits(king_pos, 2, 1, enemy_knights);
    proof {
        assert(enemy_knights == of_side(
            king_color.opposite(),
            board.white_knights,
            board.black_knights,
        ));
        if knight_attack(board, king_pos as int, king_color) {
            let sq: int = choose|sq: int|
                knight_step(king_pos as int, sq) && #[trigger] member(enemy_knights, sq);
            assert(displaced(king_pos as int, sq, -2, -1) || displaced(king_pos as int, sq, -2, 1)
                || displaced(king_pos as int, sq, -1, -2) || displaced(king_pos as int, sq, -1, 2)
                || displaced(king_pos as int, sq, 1, -2) || displaced(king_pos as int, sq, 1, 2)
                || displaced(king_pos as int, sq, 2, -1) || displaced(king_pos as int, sq, 2, 1));
        }
        if attack {
            let sq: int = choose|sq: int|
                (displaced(king_pos as int, sq, -2, -1) || displaced(king_pos as int, sq, -2, 1)
                    || displaced(king_pos as int, sq, -1, -2) || displaced(
                    king_pos as int,
                    sq,
                    -1,
                    2,
                ) || displaced(king_pos as int, sq, 1, -2) || displaced(king_pos as int, sq, 1, 2)
                    || displaced(king_pos as int, sq, 2, -1) || displaced(
                    king_pos as int,
                    sq,
                    2,
                    1,
                )) && member(enemy_knights, sq);
            assert(knight_step(king_pos as int, sq) && member(enemy_knights, sq));
        }
    }
    attack
}

/// Whether the first piece on the ray from `from` in the given direction is
/// one of `attackers`.
pub fn ray_attacked(
    from: usize,
    file_step: i32,
    rank_step: i32,
    occupied: u64,
    attackers: u64,
) -> (attack: bool)
    requires
        from < 64,
        -1 <= file_step <= 1,
        -1 <= rank_step <= 1,
        file_step != 0 || rank_step != 0,
    ensures
        attack == exists|sq: int|
            on_ray(from as int, sq, file_step as int, rank_step as int) && #[trigger] line_attacker(
                from as int,
                sq,
                occupied,
                attackers,
            ),
{
    match first_blocker(from, file_step, rank_step, occupied) {
        Some(pos) => {
            let attack: bool = test_bit(attackers, pos);
            proof {
                assert(line_attacker(from as int, pos as int, occupied, attackers) == attack);
                assert forall|sq: int|
                    on_ray(from as int, sq, file_step as int, rank_step as int)
                        && #[trigger] line_attacker(
                        from as int,
                        sq,
                        occupied,
                        attackers,
                    ) implies sq == pos by {
                    lemma_first_blocker_unique(
                        from as int,
                        sq,
                        pos as int,
                        file_step as int,
                        rank_step as int,
                        occupied,
                    );
                }
            }
            attack
        },
        None => false,
    }
}

/// Whether an enemy bishop or queen attacks the square `king_pos` along a diagonal.
pub fn check_bishop_attack(board: &Board, king_pos: usize, king_color: Color) -> (attack: bool)
    requires
        king_pos < 64,
    ensures
        attack == diagonal_attack(board, king_pos as int, king_color),
{
    let enemy_bishops: u64 = match king_color {
        Color::White => board.black_bishops,
        Color::Black => board.white_bishops,
    };
    let enemy_queens: u64 = match king_color {
        Color::White => board.black_queens,
        Color::Black => board.white_queens,
    };
    let occupied: u64 = board.all_pieces();
    let attackers: u64 = enemy_bishops | enemy_queens;
    let attack: bool = ray_attacked(king_pos, -1, -1, occupied, attackers) || ray_attacked(
        king_pos,
        -1,
        1,
        occupied,
        attackers,
    ) || ray_attacked(king_pos, 1, -1, occupied, attackers) || ray_attacked(
        king_pos,
        1,
        1,
        occupied,
        attackers,
    );
    proof {
        let king: int = king_pos as int;
        assert(attackers == diagonal_attackers(board, king_color));
        if diagonal_attack(board, king, king_color) {
            let sq: int = choose|sq: int|
                bishop_line(king, sq) && #[trigger] line_attacker(king, sq, occupied, attackers);
            assert(on_ray(king, sq, -1, -1)
                || on_ray(king, sq, -1, 1)
                || on_ray(king, sq, 1, -1)
                || on_ray(king, sq, 1, 1));
        }
        if attack {
            let sq: int = choose|sq: int|
                (on_ray(king, sq, -1, -1)
                || on_ray(king, sq, -1, 1)
                || on_ray(king, sq, 1, -1)
                || on_ray(king, sq, 1, 1)) && #[trigger] line_attacker(king, sq, occupied, attackers);
            assert(bishop_line(king, sq));
        }
    }
    attack
}

/// Whether an enemy rook or queen attacks the square `king_pos` along its
/// rank or file.
pub fn check_rook_attack(board: &Board, king_pos: usize, king_color: Color) -> (attack: bool)
    requires
        king_pos < 64,
    ensures
        attack == orthogonal_attack(board, king_pos as int, king_color),
{
    let enemy_rooks: u64 = match king_color {
        Color::White => board.black_rooks,
        Color::Black => board.white_rooks,
    };
    let enemy_queens: u64 = match king_color {
        Color::White => board.black_queens,
        Color::Black => board.white_queens,
    };
    let occupied: u64 = board.all_pieces();
    let attackers: u64 = enemy_rooks | enemy_queens;
    let attack: bool = ray_attacked(king_pos, 0, -1, occupied, attackers) || ray_attacked(
        king_pos,
        0,
        1,
        occupied,
        attackers,
    ) || ray_attacked(king_pos, -1, 0, occupied, attackers) || ray_attacked(
        king_pos,
        1,
        0,
        occupied,
        attackers,
    );
    proof {
        let king: int = king_pos as int;
        assert(attackers == orthogonal_attackers(board, king_color));
        if orthogonal_attack(board, king, king_color) {
            let sq: int = choose|sq: int|
                rook_line(king, sq) && #[trigger] line_attacker(king, sq, occupied, attackers);
            assert(on_ray(king, sq, 0, -1)
                || on_ray(king, sq, 0, 1)
                || on_ray(king, sq, -1, 0)
                || on_ray(king, sq, 1, 0));
        }
        if attack {
            let sq: int = choose|sq: int|
                (on_ray(king, sq, 0, -1)
                || on_ray(king, sq, 0, 1)
                || on_ray(king, sq, -1, 0)
                || on_ray(king, sq, 1, 0)) && #[trigger] line_attacker(king, sq, occupied, attackers);
            assert(rook_line(king, sq));
        }
    }
    attack
}

} // verus!
