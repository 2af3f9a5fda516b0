use chess_engine::board::Board;
use chess_engine::game_state::game_status::{
    get_game_status, get_safe_moves, has_no_legal_moves, is_checkmate, is_stalemate, simulate_move,
    GameStatus,
};
use chess_engine::pieces::piece_type::Color;

fn empty_board(side_to_move: Color) -> Board {
    Board {
        white_pawns: 0,
        black_pawns: 0,
        white_knights: 0,
        black_knights: 0,
        white_bishops: 0,
        black_bishops: 0,
        white_rooks: 0,
        black_rooks: 0,
        white_kings: 0,
        black_kings: 0,
        white_queens: 0,
        black_queens: 0,
        side_to_move,
    }
}

fn back_rank_mate() -> Board {
    let mut board = empty_board(Color::White);
    board.white_kings = 1u64 << 7;
    board.white_pawns = (1u64 << 13) | (1u64 << 14) | (1u64 << 15);
    board.black_rooks = 1u64 << 4;
    board.black_kings = 1u64 << 60;
    board
}

#[test]
fn back_rank_mate_is_checkmate() {
    let board = back_rank_mate();
    assert_eq!(get_game_status(&board), GameStatus::Checkmate);
    assert!(is_checkmate(&board, Color::White));
    assert!(!is_stalemate(&board, Color::White));
    assert!(has_no_legal_moves(&board, Color::White));
    assert_eq!(get_safe_moves(&board, 7), 0);
    assert_eq!(get_safe_moves(&board, 13), 0);
}

#[test]
fn check_that_can_be_blocked_is_check() {
    let mut board = back_rank_mate();
    board.white_bishops = 1u64 << 19;
    assert_eq!(get_game_status(&board), GameStatus::Check);
    assert!(!is_checkmate(&board, Color::White));
    assert_eq!(get_safe_moves(&board, 19), 1u64 << 5);
}

#[test]
fn check_that_ends_by_capture_is_check() {
    let mut board = back_rank_mate();
    board.white_bishops = 1u64 << 22;
    assert_eq!(get_game_status(&board), GameStatus::Checkmate);
    assert_eq!(get_safe_moves(&board, 22), 0);
    board.white_bishops = 0;
    board.white_rooks = 1u64 << 0;
    assert_eq!(get_game_status(&board), GameStatus::Check);
    assert_eq!(get_safe_moves(&board, 0), 1u64 << 4);
}

#[test]
fn pinned_piece_has_no_safe_move_off_the_line() {
    let mut board = empty_board(Color::White);
    board.white_kings = 1u64 << 4;
    board.white_bishops = 1u64 << 12;
    board.black_rooks = 1u64 << 60;
    board.black_kings = 1u64 << 56;
    assert_eq!(get_safe_moves(&board, 12), 0);
    assert_ne!(board.get_legal_moves(12), 0);
    assert_ne!(get_safe_moves(&board, 4), 0);
    assert_eq!(get_game_status(&board), GameStatus::Ongoing);
}

#[test]
fn only_the_side_to_move_has_moves() {
    let board = Board::new();
    assert!(!has_no_legal_moves(&board, Color::White));
    assert!(has_no_legal_moves(&board, Color::Black));
    assert!(is_stalemate(&board, Color::Black));
    assert!(!is_checkmate(&board, Color::Black));
    assert!(!is_stalemate(&board, Color::White));
    assert!(!is_checkmate(&board, Color::White));
}

#[test]
fn safe_moves_of_the_start_position() {
    let board = Board::new();
    assert_eq!(get_safe_moves(&board, 12), (1u64 << 20) | (1u64 << 28));
    assert_eq!(get_safe_moves(&board, 1), (1u64 << 16) | (1u64 << 18));
    assert_eq!(get_safe_moves(&board, 4), 0);
    assert_eq!(get_safe_moves(&board, 30), 0);
    assert_eq!(get_safe_moves(&board, 52), 0);
}

#[test]
fn trial_move_leaves_the_position_alone() {
    let board = Board::new();
    let trial = simulate_move(&board, 12, 28);
    assert_eq!(board.white_pawns, 0xff00);
    assert_eq!(trial.white_pawns, 0xef00 | (1u64 << 28));
    assert_eq!(trial.black_pawns, board.black_pawns);
    assert_eq!(trial.white_knights, board.white_knights);
    assert_eq!(trial.white_kings, board.white_kings);
    assert_eq!(trial.side_to_move, Color::White);
}

#[test]
fn trial_move_captures_like_the_move_itself() {
    let mut board = empty_board(Color::White);
    board.white_rooks = 1u64 << 0;
    board.black_queens = 1u64 << 56;
    let trial = simulate_move(&board, 0, 56);
    assert_eq!(trial.white_rooks, 1u64 << 56);
    assert_eq!(trial.black_queens, 0);

    board.black_queens = 0;
    board.black_kings = 1u64 << 56;
    let trial = simulate_move(&board, 0, 56);
    assert_eq!(trial.white_rooks, 1u64 << 56);
    assert_eq!(trial.black_kings, 0);
    assert_eq!(trial.side_to_move, Color::White);
    assert_eq!(board.black_kings, 1u64 << 56);

    assert_eq!(board.make_move(0, 56), Ok(()));
    assert_eq!(board.white_rooks, 1u64 << 56);
    assert_eq!(board.black_kings, 0);
}

#[test]
fn trial_move_of_an_enemy_or_missing_piece_changes_nothing() {
    let board = Board::new();
    let trial = simulate_move(&board, 52, 44);
    assert_eq!(trial.black_pawns, board.black_pawns);
    assert_eq!(trial.white_pawns, board.white_pawns);
    let trial = simulate_move(&board, 30, 38);
    assert_eq!(trial.white_pawns, board.white_pawns);
    assert_eq!(trial.black_pawns, board.black_pawns);
    assert_eq!(trial.side_to_move, Color::White);
}

#[test]
fn black_can_be_mated_too() {
    let mut board = empty_board(Color::Black);
    board.black_kings = 1u64 << 63;
    board.black_pawns = (1u64 << 53) | (1u64 << 54) | (1u64 << 55);
    board.white_queens = 1u64 << 59;
    board.white_kings = 1u64 << 4;
    assert_eq!(get_game_status(&board), GameStatus::Checkmate);
    board.side_to_move = Color::White;
    assert_eq!(get_game_status(&board), GameStatus::Ongoing);
}
