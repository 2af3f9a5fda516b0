use chess_engine::movement::validator::validate_move;
use chess_engine::pieces::piece_type::{Color, MoveError};
use chess_engine::pieces::steps::{first_blocker, leap_hits, with_leap, with_slide};

#[test]
fn leap_stays_on_the_board() {
    assert_eq!(with_leap(0, 27, 1, 2, 0), 1u64 << 44);
    assert_eq!(with_leap(0, 27, -2, -1, 0), 1u64 << 17);
    assert_eq!(with_leap(0, 0, -1, 0, 0), 0);
    assert_eq!(with_leap(0, 0, 0, -1, 0), 0);
    assert_eq!(with_leap(0, 63, 1, 0, 0), 0);
    assert_eq!(with_leap(0, 63, 0, 1, 0), 0);
    assert_eq!(with_leap(0, 7, 2, 1, 0), 0);
}

#[test]
fn leap_avoids_own_pieces_and_keeps_what_was_found() {
    assert_eq!(with_leap(0, 27, 1, 2, 1u64 << 44), 0);
    assert_eq!(with_leap(1u64 << 3, 27, 1, 2, 1u64 << 44), 1u64 << 3);
    assert_eq!(with_leap(1u64 << 3, 27, 1, 2, 0), (1u64 << 3) | (1u64 << 44));
    assert_eq!(with_leap(1u64 << 44, 27, 1, 2, 0), 1u64 << 44);
}

#[test]
fn leap_hits_only_the_one_square() {
    assert!(leap_hits(7, -2, 1, 1u64 << 13));
    assert!(!leap_hits(7, -2, 1, !(1u64 << 13)));
    assert!(!leap_hits(7, 2, 1, u64::MAX));
    assert!(!leap_hits(0, -1, -1, u64::MAX));
    assert!(leap_hits(28, 1, 1, 1u64 << 37));
    assert!(leap_hits(28, -1, 1, 1u64 << 35));
}

#[test]
fn slide_runs_to_the_edge() {
    let diagonal = (1u64 << 9)
        | (1u64 << 18)
        | (1u64 << 27)
        | (1u64 << 36)
        | (1u64 << 45)
        | (1u64 << 54)
        | (1u64 << 63);
    assert_eq!(with_slide(0, 0, 1, 1, 1, 0), diagonal);
    assert_eq!(with_slide(0, 0, -1, -1, 1, 0), 0);
    assert_eq!(with_slide(0, 0, 1, 0, 1, 0), 0xfe);
    assert_eq!(with_slide(0, 7, -1, 0, 0x80, 0), 0x7f);
    assert_eq!(with_slide(0, 7, 1, 0, 0x80, 0), 0);
    let anti_diagonal = (1u64 << 14)
        | (1u64 << 21)
        | (1u64 << 28)
        | (1u64 << 35)
        | (1u64 << 42)
        | (1u64 << 49)
        | (1u64 << 56);
    assert_eq!(with_slide(0, 7, -1, 1, 0x80, 0), anti_diagonal);
}

#[test]
fn slide_stops_before_own_and_on_enemy_pieces() {
    assert_eq!(with_slide(0, 0, 1, 0, 1 | (1u64 << 3), 0), (1u64 << 1) | (1u64 << 2));
    assert_eq!(with_slide(0, 0, 1, 0, 1, 1u64 << 3), (1u64 << 1) | (1u64 << 2) | (1u64 << 3));
    assert_eq!(with_slide(0, 0, 1, 0, 1 | (1u64 << 1), 0), 0);
    assert_eq!(with_slide(0, 0, 1, 0, 1, 1u64 << 1), 1u64 << 1);
    assert_eq!(with_slide(0, 0, 1, 0, 1 | (1u64 << 3), 1u64 << 3), (1u64 << 1) | (1u64 << 2));
    assert_eq!(with_slide(1u64 << 40, 0, 1, 0, 1, 1u64 << 2), (1u64 << 40) | (1u64 << 1) | (1u64 << 2));
}

#[test]
fn first_blocker_is_the_nearest_piece() {
    assert_eq!(first_blocker(0, 1, 0, (1u64 << 5) | (1u64 << 7)), Some(5));
    assert_eq!(first_blocker(0, 1, 0, 1), None);
    assert_eq!(first_blocker(0, 1, 0, 0xff00), None);
    assert_eq!(first_blocker(0, 0, 1, 0xff00), Some(8));
    assert_eq!(first_blocker(0, 1, 1, 1u64 << 63), Some(63));
    assert_eq!(first_blocker(63, -1, -1, 1), Some(0));
    assert_eq!(first_blocker(63, 1, 0, u64::MAX), None);
    assert_eq!(first_blocker(27, -1, 1, u64::MAX), Some(34));
}

#[test]
fn the_first_failing_check_decides() {
    let white = 1u64 << 12;
    let black = 1u64 << 52;
    let legal = (1u64 << 20) | (1u64 << 28);
    assert_eq!(validate_move(12, 20, Color::White, white, black, legal), Ok(()));
    assert_eq!(validate_move(12, 28, Color::White, white, black, legal), Ok(()));
    assert_eq!(
        validate_move(12, 36, Color::White, white, black, legal),
        Err(MoveError::InvalidDestination)
    );
    assert_eq!(
        validate_move(13, 12, Color::White, white, black, u64::MAX),
        Err(MoveError::NoPieceAtSource)
    );
    assert_eq!(
        validate_move(52, 12, Color::White, white, black, u64::MAX),
        Err(MoveError::WrongColorPiece)
    );
    assert_eq!(
        validate_move(12, 52, Color::Black, white, black, u64::MAX),
        Err(MoveError::WrongColorPiece)
    );
    assert_eq!(
        validate_move(12, 12, Color::White, white, black, u64::MAX),
        Err(MoveError::DestinationOccupiedBySameColor)
    );
    assert_eq!(
        validate_move(12, 12, Color::White, white, black, 0),
        Err(MoveError::DestinationOccupiedBySameColor)
    );
    assert_eq!(validate_move(12, 52, Color::White, white, black, 1u64 << 52), Ok(()));
    assert_eq!(validate_move(52, 12, Color::Black, white, black, 1u64 << 12), Ok(()));
}

#[test]
fn a_square_held_by_both_sides_belongs_to_the_mover() {
    let both = 1u64 << 12;
    assert_eq!(validate_move(12, 20, Color::White, both, both, 1u64 << 20), Ok(()));
    assert_eq!(validate_move(12, 20, Color::Black, both, both, 1u64 << 20), Ok(()));
}
