use chess_engine::board::Board;
use chess_engine::pieces::piece_type::{Color, MoveError};

#[test]
fn board_test_initial_board_state() {
    let board = Board::new();
    assert_eq!(board.white_pawns, 0x0000_0000_0000_ff00);
    assert_eq!(board.black_pawns, 0x00ff_0000_0000_0000);
    assert_eq!(board.side_to_move, Color::White);
}

#[test]
fn board_test_white_pawn_single_push() {
    let mut board = Board::new();
    assert!(board.make_move(8, 16).is_ok());
    assert_eq!(board.white_pawns & (1u64 << 16), 1u64 << 16);
    assert_eq!(board.white_pawns & (1u64 << 8), 0);
    assert_eq!(board.side_to_move, Color::Black);
}

#[test]
fn board_test_white_pawn_double_push() {
    let mut board = Board::new();
    assert!(board.make_move(8, 24).is_ok());
    assert_eq!(board.white_pawns & (1u64 << 24), 1u64 << 24);
    assert_eq!(board.white_pawns & (1u64 << 8), 0);
    assert_eq!(board.side_to_move, Color::Black);
}

#[test]
fn board_test_black_pawn_single_push() {
    let mut board = Board::new();
    board.side_to_move = Color::Black;
    assert!(board.make_move(48, 40).is_ok());
    assert_eq!(board.black_pawns & (1u64 << 40), 1u64 << 40);
    assert_eq!(board.black_pawns & (1u64 << 48), 0);
    assert_eq!(board.side_to_move, Color::White);
}

#[test]
fn test_pawn_capture() {
    let mut board = Board::new();
    board.white_pawns = 0;
    board.black_pawns = 0;
    board.white_pawns |= 1u64 << 18;
    board.black_pawns |= 1u64 << 27;
    
    assert!(board.make_move(18, 27).is_ok());
    assert_eq!(board.white_pawns & (1u64 << 27), 1u64 << 27);
    assert_eq!(board.black_pawns & (1u64 << 27), 0);
}

#[test]
fn test_wrong_color_piece() {
    let mut board = Board::new();
    board.side_to_move = Color::White;
    assert_eq!(board.make_move(48, 40).unwrap_err(), MoveError::WrongColorPiece);
}

#[test]
fn test_invalid_pawn_move() {
    let mut board = Board::new();
    assert_eq!(board.make_move(8, 17).unwrap_err(), MoveError::InvalidDestination);
}

