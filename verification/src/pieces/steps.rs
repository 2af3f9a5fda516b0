//! The two building blocks of move generation: a single bounds-checked step
//! to a square at a fixed offset, and a slide along a ray until the board edge
//! or the first occupied square.

use vstd::prelude::*;
use crate::bitboard::geometry::{
    distance,
    file_delta,
    file_of,
    on_board,
    on_ray,
    path_clear,
    rank_delta,
    rank_of,
    strictly_between,
};
use crate::bitboard::membership::{
    lemma_member_bitwise,
    lemma_member_constant,
    lemma_zero_iff_no_member,
    member,
    squares,
};
use crate::bitboard::operations::{set_bit, square_to_bitboard, test_bit};

verus! {

/// `to` lies exactly `files` files and `ranks` ranks away from `from`.
pub open spec fn displaced(from: int, to: int, files: int, ranks: int) -> bool {
    0 <= to < 64 && file_delta(from, to) == files && rank_delta(from, to) == ranks
}

/// A sliding piece on `from` may stop on `to`: the square is not held by the
/// mover's own side and nothing stands strictly between the two squares.
pub open spec fn slide_target(from: int, to: int, own: u64, opponent: u64) -> bool {
    !member(own, to) && path_clear(from, to, own | opponent)
}

/// The coordinate reached from `origin` after `count` steps of `step`, where
/// `step` is -1, 0 or 1.
spec fn advance(origin: int, step: int, count: int) -> int {
    if step > 0 {
        origin + count
    } else if step < 0 {
        origin - count
    } else {
        origin
    }
}

/// `to` is one of the first `steps` squares of the ray that leaves `from` in
/// the given direction.
#[verifier::opaque]
spec fn within_reach(
    from: int,
    to: int,
    file_step: int,
    rank_step: int,
    steps: int,
) -> bool {
    on_ray(from, to, file_step, rank_step) && distance(from, to) <= steps
}

/// Each of the first `steps` squares of the ray is vacant.
spec fn ray_vacant(
    from: int,
    file_step: int,
    rank_step: int,
    occupied: u64,
    steps: int,
) -> bool {
    forall|sq: int|
        within_reach(from, sq, file_step, rank_step, steps) ==> !#[trigger] member(occupied, sq)
}

/// `sq` is the square of the ray exactly `count` steps from `from`.
spec fn ray_square(from: int, sq: int, file_step: int, rank_step: int, count: int) -> bool {
    &&& on_board(
        advance(file_of(from), file_step, count),
        advance(rank_of(from), rank_step, count),
    )
    &&& sq == advance(rank_of(from), rank_step, count) * 8 + advance(
        file_of(from),
        file_step,
        count,
    )
}

/// The squares of a ray are told apart by their distance from its origin.
proof fn lemma_ray_square(from: int, to: int, file_step: int, rank_step: int, count: int)
    requires
        0 <= from < 64,
        -1 <= file_step <= 1,
        -1 <= rank_step <= 1,
        file_step != 0 || rank_step != 0,
        count >= 1,
    ensures
        (on_ray(from, to, file_step, rank_step) && distance(from, to) == count) <==> ray_square(
            from,
            to,
            file_step,
            rank_step,
            count,
        ),
{
}

/// No square is within zero steps.
proof fn lemma_ray_starts(from: int, file_step: int, rank_step: int, occupied: u64)
    requires
        0 <= from < 64,
    ensures
        ray_vacant(from, file_step, rank_step, occupied, 0),
        forall|to: int| !#[trigger] within_reach(from, to, file_step, rank_step, 0),
{
    reveal(within_reach);
}

/// Where the ray leaves the board after `steps` vacant squares, a slide
/// reaches exactly those squares.
proof fn lemma_ray_ends(
    from: int,
    file_step: int,
    rank_step: int,
    own: u64,
    opponent: u64,
    steps: int,
)
    requires
        0 <= from < 64,
        -1 <= file_step <= 1,
        -1 <= rank_step <= 1,
        file_step != 0 || rank_step != 0,
        0 <= steps,
        ray_vacant(from, file_step, rank_step, own | opponent, steps),
        !on_board(
            advance(file_of(from), file_step, steps + 1),
            advance(rank_of(from), rank_step, steps + 1),
        ),
    ensures
        forall|to: int|
            #[trigger] within_reach(from, to, file_step, rank_step, steps) == (on_ray(
                from,
                to,
                file_step,
                rank_step,
            ) && slide_target(from, to, own, opponent)),
{
    reveal(within_reach);
    lemma_member_bitwise(own, opponent);
    assert forall|to: int| #[trigger]
        on_ray(from, to, file_step, rank_step) implies distance(from, to) <= steps && slide_target(
        from,
        to,
        own,
        opponent,
    ) by {
        assert(!member(own | opponent, to));
    }
}

/// Where the square `blocker` of the ray, `steps + 1` away from `from`, is
/// the first occupied one, a slide reaches the `steps` vacant squares before
/// it, the blocker itself if `own` does not hold it, and nothing beyond.
proof fn lemma_ray_blocked(
    from: int,
    file_step: int,
    rank_step: int,
    own: u64,
    opponent: u64,
    steps: int,
    blocker: int,
)
    requires
        0 <= from < 64,
        -1 <= file_step <= 1,
        -1 <= rank_step <= 1,
        file_step != 0 || rank_step != 0,
        0 <= steps,
        ray_vacant(from, file_step, rank_step, own | opponent, steps),
        ray_square(from, blocker, file_step, rank_step, steps + 1),
        member(own, blocker) || member(opponent, blocker),
    ensures
        forall|to: int|
            (#[trigger] within_reach(from, to, file_step, rank_step, steps) || (to == blocker
                && !member(own, blocker))) == (on_ray(from, to, file_step, rank_step)
                && slide_target(from, to, own, opponent)),
{
    reveal(within_reach);
    lemma_member_bitwise(own, opponent);
    lemma_ray_square(from, blocker, file_step, rank_step, steps + 1);
    assert forall|to: int| #[trigger] on_ray(from, to, file_step, rank_step) implies slide_target(
        from,
        to,
        own,
        opponent,
    ) == (distance(from, to) <= steps || (to == blocker && !member(own, blocker))) by {
        if distance(from, to) <= steps {
            assert(!member(own | opponent, to));
        } else if distance(from, to) > steps + 1 {
            assert(strictly_between(from, to, blocker));
        }
    }
}

/// Where the square `next` of the ray, `steps + 1` away from `from`, is
/// vacant like the `steps` squares before it, the vacant stretch grows by
/// that one square.
proof fn lemma_ray_extends(
    from: int,
    file_step: int,
    rank_step: int,
    occupied: u64,
    steps: int,
    next: int,
)
    requires
        0 <= from < 64,
        -1 <= file_step <= 1,
        -1 <= rank_step <= 1,
        file_step != 0 || rank_step != 0,
        0 <= steps,
        ray_vacant(from, file_step, rank_step, occupied, steps),
        ray_square(from, next, file_step, rank_step, steps + 1),
        !member(occupied, next),
    ensures
        ray_vacant(from, file_step, rank_step, occupied, steps + 1),
        forall|to: int|
            #[trigger] within_reach(from, to, file_step, rank_step, steps + 1) == (within_reach(
                from,
                to,
                file_step,
                rank_step,
                steps,
            ) || to == next),
{
    reveal(within_reach);
}

/// Where the ray leaves the board after `steps` vacant squares, it holds no
/// occupied square at all.
proof fn lemma_ray_runs_out(from: int, file_step: int, rank_step: int, occupied: u64, steps: int)
    requires
        0 <= from < 64,
        -1 <= file_step <= 1,
        -1 <= rank_step <= 1,
        file_step != 0 || rank_step != 0,
        0 <= steps,
        ray_vacant(from, file_step, rank_step, occupied, steps),
        !on_board(
            advance(file_of(from), file_step, steps + 1),
            advance(rank_of(from), rank_step, steps + 1),
        ),
    ensures
        forall|sq: int| on_ray(from, sq, file_step, rank_step) ==> !#[trigger] member(occupied, sq),
{
    reveal(within_reach);
    assert forall|sq: int| on_ray(from, sq, file_step, rank_step) implies !#[trigger] member(
        occupied,
        sq,
    ) by {}
}

/// The square of the ray that follows `steps` vacant squares is reached over
/// a clear path.
proof fn lemma_ray_first(
    from: int,
    file_step: int,
    rank_step: int,
    occupied: u64,
    steps: int,
    blocker: int,
)
    requires
        0 <= from < 64,
        -1 <= file_step <= 1,
        -1 <= rank_step <= 1,
        file_step != 0 || rank_step != 0,
        0 <= steps,
        ray_vacant(from, file_step, rank_step, occupied, steps),
        ray_square(from, blocker, file_step, rank_step, steps + 1),
    ensures
        on_ray(from, blocker, file_step, rank_step),
        path_clear(from, blocker, occupied),
{
    reveal(within_reach);
    lemma_ray_square(from, blocker, file_step, rank_step, steps + 1);
}

/// A ray has at most one first occupied square.
pub proof fn lemma_first_blocker_unique(
    from: int,
    a: int,
    b: int,
    file_step: int,
    rank_step: int,
    occupied: u64,
)
    requires
        0 <= from < 64,
        on_ray(from, a, file_step, rank_step),
        on_ray(from, b, file_step, rank_step),
        member(occupied, a),
        member(occupied, b),
        path_clear(from, a, occupied),
        path_clear(from, b, occupied),
    ensures
        a == b,
{
    if a != b {
        assert(strictly_between(from, a, b) || strictly_between(from, b, a));
    }
}

/// Adds to `moves` the square that lies `file_step` files and `rank_step`
/// ranks from `from`, if that square is on the board and not held by `own`.
pub fn with_leap(moves: u64, from: usize, file_step: i32, rank_step: i32, own: u64) -> (out: u64)
    requires
        from < 64,
        -2 <= file_step <= 2,
        -2 <= rank_step <= 2,
    ensures
        forall|to: int|
            #[trigger] member(out, to) == (member(moves, to) || (displaced(
                from as int,
                to,
                file_step as int,
                rank_step as int,
            ) && !member(own, to))),
{
    let new_file: i32 = (from % 8) as i32 + file_step;
    let new_rank: i32 = (from / 8) as i32 + rank_step;
    if new_file < 0 || new_file > 7 || new_rank < 0 || new_rank > 7 {
        return moves;
    }
    let target: usize = (new_rank as usize) * 8 + (new_file as usize);
    let target_bb: u64 = square_to_bitboard(target);
    proof {
        lemma_member_bitwise(moves, target_bb);
        lemma_member_bitwise(target_bb, own);
        lemma_member_constant();
        lemma_zero_iff_no_member(target_bb & own);
        assert forall|to: int| #[trigger] member(target_bb, to) == (to == target) by {
            assert(squares(target_bb).contains(to) == member(target_bb, to));
        }
    }
    if target_bb & own != 0 {
        return moves;
    }
    proof {
        assert(!member(target_bb & own, target as int));
    }
    moves | target_bb
}

/// Whether `targets` holds the square that lies `file_step` files and
/// `rank_step` ranks from `from`; false if that square is off the board.
pub fn leap_hits(from: usize, file_step: i32, rank_step: i32, targets: u64) -> (hit: bool)
    requires
        from < 64,
        -2 <= file_step <= 2,
        -2 <= rank_step <= 2,
    ensures
        hit == exists|sq: int|
            #[trigger] displaced(from as int, sq, file_step as int, rank_step as int) && member(
                targets,
                sq,
            ),
{
    let new_file: i32 = (from % 8) as i32 + file_step;
    let new_rank: i32 = (from / 8) as i32 + rank_step;
    if new_file < 0 || new_file > 7 || new_rank < 0 || new_rank > 7 {
        return false;
    }
    let target: usize = (new_rank as usize) * 8 + (new_file as usize);
    proof {
        assert(displaced(from as int, target as int, file_step as int, rank_step as int));
    }
    test_bit(targets, target)
}

/// Adds to `moves` the squares that a sliding piece on `from` reaches in the
/// direction (`file_step`, `rank_step`): every square of that ray up to the
/// board edge or the first occupied square, that square included if `own`
/// does not hold it.
pub fn with_slide(
    moves: u64,
    from: usize,
    file_step: i32,
    rank_step: i32,
    own: u64,
    opponent: u64,
) -> (out: u64)
    requires
        from < 64,
        -1 <= file_step <= 1,
        -1 <= rank_step <= 1,
        file_step != 0 || rank_step != 0,
    ensures
        forall|to: int|
            #[trigger] member(out, to) == (member(moves, to) || (on_ray(
                from as int,
                to,
                file_step as int,
                rank_step as int,
            ) && slide_target(from as int, to, own, opponent))),
{
    let mut out: u64 = moves;
    let mut curr_file: i32 = (from % 8) as i32;
    let mut curr_rank: i32 = (from / 8) as i32;
    let ghost mut steps: int = 0;
    proof {
        lemma_member_bitwise(own, opponent);
        lemma_ray_starts(from as int, file_step as int, rank_step as int, own | opponent);
    }
    loop
        invariant_except_break
            0 <= steps <= 7,
            on_board(curr_file as int, curr_rank as int),
            curr_file == advance(file_of(from as int), file_step as int, steps),
            curr_rank == advance(rank_of(from as int), rank_step as int, steps),
            ray_vacant(from as int, file_step as int, rank_step as int, own | opponent, steps),
            forall|to: int|
                #[trigger] member(out, to) == (member(moves, to) || within_reach(
                    from as int,
                    to,
                    file_step as int,
                    rank_step as int,
                    steps,
                )),
        invariant
            from < 64,
            -1 <= file_step <= 1,
            -1 <= rank_step <= 1,
            file_step != 0 || rank_step != 0,
            forall|sq: int|
                #[trigger] member(own | opponent, sq) == (member(own, sq) || member(opponent, sq)),
        ensures
            forall|to: int|
                #[trigger] member(out, to) == (member(moves, to) || (on_ray(
                    from as int,
                    to,
                    file_step as int,
                    rank_step as int,
                ) && slide_target(from as int, to, own, opponent))),
        decreases 7 - steps,
    {
        curr_file += file_step;
        curr_rank += rank_step;
        if curr_file < 0 || curr_file > 7 || curr_rank < 0 || curr_rank > 7 {
            proof {
                lemma_ray_ends(from as int, file_step as int, rank_step as int, own, opponent, steps);
            }
            break ;
        }
        let target: usize = (curr_rank as usize) * 8 + (curr_file as usize);
        if test_bit(own, target) {
            proof {
                lemma_ray_blocked(
                    from as int,
                    file_step as int,
                    rank_step as int,
                    own,
                    opponent,
                    steps,
                    target as int,
                );
            }
            break ;
        }
        set_bit(&mut out, target);
        if test_bit(opponent, target) {
            proof {
                lemma_ray_blocked(
                    from as int,
                    file_step as int,
                    rank_step as int,
                    own,
                    opponent,
                    steps,
                    target as int,
                );
            }
            break ;
        }
        proof {
            lemma_ray_extends(
                from as int,
                file_step as int,
                rank_step as int,
                own | opponent,
                steps,
                target as int,
            );
            steps = steps + 1;
        }
    }
    out
}

/// The first occupied square of the ray that leaves `from` in the direction
/// (`file_step`, `rank_step`), if the ray meets one before the board edge.
pub fn first_blocker(from: usize, file_step: i32, rank_step: i32, occupied: u64) -> (blocker: Option<
    usize,
>)
    requires
        from < 64,
        -1 <= file_step <= 1,
        -1 <= rank_step <= 1,
        file_step != 0 || rank_step != 0,
    ensures
        match blocker {
            Some(sq) => on_ray(from as int, sq as int, file_step as int, rank_step as int)
                && member(occupied, sq as int) && path_clear(from as int, sq as int, occupied),
            None => forall|sq: int|
                on_ray(from as int, sq, file_step as int, rank_step as int) ==> !#[trigger] member(
                    occupied,
                    sq,
                ),
        },
{
    let mut curr_file: i32 = (from % 8) as i32 + file_step;
    let mut curr_rank: i32 = (from / 8) as i32 + rank_step;
    let ghost mut steps: int = 0;
    proof {
        lemma_ray_starts(from as int, file_step as int, rank_step as int, occupied);
    }
    while 0 <= curr_file && curr_file < 8 && 0 <= curr_rank && curr_rank < 8
        invariant
            from < 64,
            -1 <= file_step <= 1,
            -1 <= rank_step <= 1,
            file_step != 0 || rank_step != 0,
            0 <= steps <= 7,
            curr_file == advance(file_of(from as int), file_step as int, steps + 1),
            curr_rank == advance(rank_of(from as int), rank_step as int, steps + 1),
            ray_vacant(from as int, file_step as int, rank_step as int, occupied, steps),
        decreases 8 - steps,
    {
        let pos: usize = (curr_rank as usize) * 8 + (curr_file as usize);
        if test_bit(occupied, pos) {
            proof {
                lemma_ray_first(
                    from as int,
                    file_step as int,
                    rank_step as int,
                    occupied,
                    steps,
                    pos as int,
                );
            }
            return Some(pos);
        }
        proof {
            lemma_ray_extends(
                from as int,
                file_step as int,
                rank_step as int,
                occupied,
                steps,
                pos as int,
            );
            steps = steps + 1;
        }
        curr_file += file_step;
        curr_rank += rank_step;
    }
    proof {
        lemma_ray_runs_out(from as int, file_step as int, rank_step as int, occupied, steps);
    }
    None
}

} // verus!
