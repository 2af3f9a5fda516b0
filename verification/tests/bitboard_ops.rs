use chess_engine::bitboard::constants;
use chess_engine::bitboard::operations::{
    bitboard_to_square, clear_bit, count_bits, get_lsb_index, set_bit, square_to_bitboard, test_bit,
};
use chess_engine::bitboard::{BitBoard, Square};
use chess_engine::board::Board;
use chess_engine::game::GameBoard;
use chess_engine::pieces::piece_type::Color;

#[test]
fn square_to_bitboard_sets_one_bit() {
    assert_eq!(square_to_bitboard(0), 1);
    assert_eq!(square_to_bitboard(5), 32);
    assert_eq!(square_to_bitboard(63), 0x8000_0000_0000_0000);
    assert_eq!(Board::square_to_bitboard(12), 0x1000);
}

#[test]
fn bitboard_to_square_wants_exactly_one_bit() {
    assert_eq!(bitboard_to_square(1), Some(0));
    assert_eq!(bitboard_to_square(32), Some(5));
    assert_eq!(bitboard_to_square(0x8000_0000_0000_0000), Some(63));
    assert_eq!(bitboard_to_square(0), None);
    assert_eq!(bitboard_to_square(3), None);
    assert_eq!(bitboard_to_square(u64::MAX), None);
    assert_eq!(Board::bitboard_to_square(0x1000), Some(12));
    assert_eq!(Board::bitboard_to_square(0x1001), None);
}

#[test]
fn set_clear_and_test_one_square() {
    let mut bb = 0u64;
    set_bit(&mut bb, 12);
    assert_eq!(bb, 0x1000);
    set_bit(&mut bb, 12);
    assert_eq!(bb, 0x1000);
    set_bit(&mut bb, 63);
    assert!(test_bit(bb, 12));
    assert!(test_bit(bb, 63));
    assert!(!test_bit(bb, 11));
    clear_bit(&mut bb, 12);
    assert_eq!(bb, 0x8000_0000_0000_0000);
    clear_bit(&mut bb, 12);
    assert_eq!(bb, 0x8000_0000_0000_0000);
}

#[test]
fn count_bits_counts_the_squares() {
    assert_eq!(count_bits(0), 0);
    assert_eq!(count_bits(1), 1);
    assert_eq!(count_bits(constants::RANK_2), 8);
    assert_eq!(count_bits(constants::LIGHT_SQUARES), 32);
    assert_eq!(count_bits(0x8000_0000_0000_0001), 2);
    assert_eq!(count_bits(u64::MAX), 64);
}

#[test]
fn get_lsb_index_finds_the_lowest_square() {
    assert_eq!(get_lsb_index(0), None);
    assert_eq!(get_lsb_index(1), Some(0));
    assert_eq!(get_lsb_index(0b1000), Some(3));
    assert_eq!(get_lsb_index(0b1010_0000), Some(5));
    assert_eq!(get_lsb_index(0x8000_0000_0000_0000), Some(63));
}

#[test]
fn named_masks_have_their_standard_values() {
    assert_eq!(constants::EMPTY, 0);
    assert_eq!(constants::UNIVERSE, u64::MAX);
    assert_eq!(constants::RANK_1, 0xff);
    assert_eq!(constants::RANK_8, 0xff00_0000_0000_0000);
    assert_eq!(constants::FILE_A & constants::RANK_1, 1);
    assert_eq!(constants::FILE_H & constants::RANK_8, 1u64 << 63);
    assert_eq!(constants::FILE_B, constants::FILE_A << 1);
    assert_eq!(constants::FILE_G, constants::FILE_H >> 1);
    assert_eq!(constants::LIGHT_SQUARES | constants::DARK_SQUARES, u64::MAX);
    assert_eq!(constants::LIGHT_SQUARES & constants::DARK_SQUARES, 0);
    assert_eq!(constants::DARK_SQUARES & 1, 1);
}

#[test]
fn square_converts_to_its_one_bit_mask() {
    assert_eq!(u64::from(Square::NoSquare), 0);
    assert_eq!(u64::from(Square::A1), 1);
    assert_eq!(u64::from(Square::B1), 2);
    assert_eq!(u64::from(Square::E2), 1u64 << 12);
    assert_eq!(u64::from(Square::E4), 1u64 << 28);
    assert_eq!(u64::from(Square::A8), 1u64 << 56);
    assert_eq!(u64::from(Square::H8), 1u64 << 63);
}

#[test]
fn mask_converts_to_the_square_of_its_lowest_bit() {
    assert_eq!(Square::from(0u64), Square::NoSquare);
    assert_eq!(Square::from(1u64), Square::A1);
    assert_eq!(Square::from(1u64 << 12), Square::E2);
    assert_eq!(Square::from(1u64 << 63), Square::H8);
    assert_eq!(Square::from((1u64 << 28) | (1u64 << 40)), Square::E4);
}

#[test]
fn every_square_survives_the_round_trip() {
    for index in 0..64 {
        let mask = 1u64 << index;
        let square = Square::from(mask);
        assert_ne!(square, Square::NoSquare);
        assert_eq!(u64::from(square), mask);
    }
}

#[test]
fn square_operators_work_on_the_mask() {
    assert_eq!(0xffu64 & Square::A1, 1);
    assert_eq!(0xffu64 & Square::A2, 0);
    assert_eq!(0xffu64 & Square::NoSquare, 0);
    assert_eq!(0u64 | Square::H1, 0x80);
    assert_eq!(0xffu64 ^ Square::A1, 0xfe);
    assert_eq!(!Square::A1, u64::MAX - 1);
    assert_eq!(!Square::NoSquare, u64::MAX);
    let mut bits = 0xffu64;
    bits &= Square::C1;
    assert_eq!(bits, 4);
    bits |= Square::A1;
    assert_eq!(bits, 5);
    bits ^= Square::A1;
    assert_eq!(bits, 4);
}

#[test]
fn bitboard_set_and_unset() {
    let mut bb = BitBoard::new();
    assert!(!bb.is_occupied(Square::E4));
    bb.set(Square::E4);
    assert!(bb.is_occupied(Square::E4));
    assert!(!bb.is_occupied(Square::E5));
    assert!(!bb.is_occupied(Square::NoSquare));
    bb.set(Square::NoSquare);
    assert!(!bb.is_occupied(Square::A1));
    bb.unset(Square::NoSquare);
    assert!(bb.is_occupied(Square::E4));
    bb.unset(Square::E4);
    assert!(!bb.is_occupied(Square::E4));
}

#[test]
fn bitboard_constructors() {
    assert!(BitBoard::full().is_occupied(Square::A1));
    assert!(BitBoard::full().is_occupied(Square::H8));
    assert!(BitBoard::init(0x10).is_occupied(Square::E1));
    assert!(!BitBoard::init(0x10).is_occupied(Square::D1));
    assert!(!BitBoard::default().is_occupied(Square::E1));

    assert!(BitBoard::rank(1).is_occupied(Square::H1));
    assert!(!BitBoard::rank(1).is_occupied(Square::H2));
    assert!(BitBoard::rank(2).is_occupied(Square::A2));
    assert!(BitBoard::rank(7).is_occupied(Square::D7));
    assert!(BitBoard::rank(8).is_occupied(Square::E8));
    assert!(!BitBoard::rank(3).is_occupied(Square::A3));
    assert!(!BitBoard::rank(0).is_occupied(Square::A1));
    assert!(!BitBoard::rank(9).is_occupied(Square::A8));

    assert!(BitBoard::file(1).is_occupied(Square::A5));
    assert!(!BitBoard::file(1).is_occupied(Square::B5));
    assert!(BitBoard::file(2).is_occupied(Square::B8));
    assert!(BitBoard::file(7).is_occupied(Square::G1));
    assert!(BitBoard::file(8).is_occupied(Square::H4));
    assert!(!BitBoard::file(4).is_occupied(Square::D4));

    assert!(BitBoard::colored(Color::White).is_occupied(Square::B1));
    assert!(!BitBoard::colored(Color::White).is_occupied(Square::A1));
    assert!(BitBoard::colored(Color::Black).is_occupied(Square::A1));
    assert!(BitBoard::colored(Color::Black).is_occupied(Square::H8));
}

#[test]
fn empty_game_board_has_nothing_on_it() {
    let game = GameBoard::default();
    assert!(!game.is_occupied(Square::E1));
    assert!(!game.is_occupied(Square::NoSquare));
    assert_eq!(game.occupied_bits(), 0);
    assert!(game.occupied_squares().is_empty());
}
