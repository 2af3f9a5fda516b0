use chess_engine::board::Board;
use chess_engine::game_state::check::is_in_check;
use chess_engine::game_state::game_status::{get_game_status, GameStatus};
use chess_engine::pieces::king::get_king_moves;
use chess_engine::pieces::knight::get_knight_moves;
use chess_engine::pieces::piece_type::{Color, MoveError, PieceType};

fn empty_board(side_to_move: Color) -> Board {
    Board {
        white_pawns: 0,
        black_pawns: 0,
        white_knights: 0,
        black_knights: 0,
        white_bishops: 0,
        black_bishops: 0,
        white_rooks: 0,
        black_rooks: 0,
        white_kings: 0,
        black_kings: 0,
        white_queens: 0,
        black_queens: 0,
        side_to_move,
    }
}

fn masks(board: &Board) -> [u64; 12] {
    [
        board.white_pawns,
        board.black_pawns,
        board.white_knights,
        board.black_knights,
        board.white_bishops,
        board.black_bishops,
        board.white_rooks,
        board.black_rooks,
        board.white_kings,
        board.black_kings,
        board.white_queens,
        board.black_queens,
    ]
}

fn pairwise_disjoint(board: &Board) -> bool {
    let all = masks(board);
    for i in 0..12 {
        for j in (i + 1)..12 {
            if all[i] & all[j] != 0 {
                return false;
            }
        }
    }
    true
}

#[test]
fn empty_and_enemy_squares_have_no_destinations() {
    let board = Board::new();
    for square in 16..48 {
        assert_eq!(board.get_legal_moves(square), 0);
    }
    for square in 48..64 {
        assert_eq!(board.get_legal_moves(square), 0);
    }
    let mut black_to_move = Board::new();
    black_to_move.side_to_move = Color::Black;
    for square in 0..16 {
        assert_eq!(black_to_move.get_legal_moves(square), 0);
    }
    assert_eq!(black_to_move.get_legal_moves(52), (1u64 << 44) | (1u64 << 36));
}

#[test]
fn sliders_stop_at_the_first_piece() {
    let mut board = empty_board(Color::White);
    board.white_rooks = 1u64 << 27;
    board.white_pawns = 1u64 << 29;
    board.black_pawns = 1u64 << 43;
    board.black_knights = 1u64 << 59;
    let moves = board.get_legal_moves(27);
    let expected = (1u64 << 28)
        | (1u64 << 26)
        | (1u64 << 25)
        | (1u64 << 24)
        | (1u64 << 35)
        | (1u64 << 43)
        | (1u64 << 19)
        | (1u64 << 11)
        | (1u64 << 3);
    assert_eq!(moves, expected);
    assert_eq!(moves & (1u64 << 29), 0);
    assert_eq!(moves & (1u64 << 30), 0);
    assert_eq!(moves & (1u64 << 51), 0);
    assert_eq!(moves & (1u64 << 59), 0);
}

#[test]
fn queen_slides_like_bishop_and_rook() {
    let mut board = empty_board(Color::Black);
    board.black_queens = 1u64 << 0;
    board.white_pawns = (1u64 << 2) | (1u64 << 18);
    board.black_pawns = 1u64 << 24;
    let moves = board.get_legal_moves(0);
    let expected = (1u64 << 1) | (1u64 << 2) | (1u64 << 8) | (1u64 << 16) | (1u64 << 9) | (1u64 << 18);
    assert_eq!(moves, expected);
}

#[test]
fn accepted_moves_keep_the_bitboards_disjoint() {
    let mut board = Board::new();
    assert!(pairwise_disjoint(&board));
    let game = [(12, 28), (51, 35), (28, 35), (59, 35), (1, 18), (35, 11), (4, 12)];
    for (from, to) in game {
        assert_eq!(board.make_move(from, to), Ok(()));
        assert!(pairwise_disjoint(&board));
    }
    assert_eq!(board.white_pawns & (1u64 << 11), 0);
    assert_eq!(board.black_queens, 1u64 << 11);
}

#[test]
fn side_to_move_alternates() {
    let mut board = Board::new();
    assert_eq!(board.side_to_move, Color::White);
    let game = [(12, 28), (52, 36), (6, 21), (57, 42), (5, 26), (61, 34)];
    let mut count = 0;
    for (from, to) in game {
        assert_eq!(board.make_move(from, to), Ok(()));
        count += 1;
        let expected = if count % 2 == 0 { Color::White } else { Color::Black };
        assert_eq!(board.side_to_move, expected);
    }
}

#[test]
fn rejected_move_changes_nothing() {
    let mut board = Board::new();
    let before = masks(&board);
    assert_eq!(board.make_move(12, 36), Err(MoveError::InvalidDestination));
    assert_eq!(board.make_move(20, 28), Err(MoveError::NoPieceAtSource));
    assert_eq!(board.make_move(52, 44), Err(MoveError::WrongColorPiece));
    assert_eq!(board.make_move(0, 8), Err(MoveError::DestinationOccupiedBySameColor));
    assert_eq!(masks(&board), before);
    assert_eq!(board.side_to_move, Color::White);
}

#[test]
fn status_is_the_same_when_asked_twice() {
    let mut board = Board::new();
    assert_eq!(get_game_status(&board), get_game_status(&board));
    board.make_move(12, 28).unwrap();
    let first = get_game_status(&board);
    let second = get_game_status(&board);
    assert_eq!(first, second);
    assert_eq!(first, GameStatus::Ongoing);
}

#[test]
fn lone_queen_next_to_king_gives_check() {
    let mut board = empty_board(Color::White);
    board.white_kings = 1u64 << 4;
    board.black_queens = 1u64 << 12;
    assert!(is_in_check(&board, Color::White));
    assert!(!is_in_check(&board, Color::Black));
}

#[test]
fn pawn_in_between_blocks_the_rook() {
    let mut board = empty_board(Color::White);
    board.white_kings = 1u64 << 4;
    board.black_rooks = 1u64 << 36;
    board.white_pawns = 1u64 << 12;
    assert!(!is_in_check(&board, Color::White));
    board.white_pawns = 0;
    assert!(is_in_check(&board, Color::White));
}

#[test]
fn lone_knight_in_the_corner() {
    let mut board = empty_board(Color::White);
    board.white_knights = 1u64 << 7;
    assert_eq!(board.get_legal_moves(7), (1u64 << 13) | (1u64 << 22));
    assert_eq!(board.get_piece_type_at(7), Some((PieceType::Knight, Color::White)));
}

#[test]
fn king_takes_an_unguarded_rook_out_of_check() {
    let mut board = empty_board(Color::White);
    board.white_kings = 1u64 << 0;
    board.black_kings = 1u64 << 63;
    board.black_rooks = (1u64 << 8) | (1u64 << 1);
    assert!(is_in_check(&board, Color::White));
    assert_eq!(board.get_legal_moves(0), (1u64 << 1) | (1u64 << 8) | (1u64 << 9));
    assert_eq!(get_game_status(&board), GameStatus::Check);
}

#[test]
fn pawn_cannot_jump_three_squares() {
    let mut board = Board::new();
    assert_eq!(board.make_move(12, 36), Err(MoveError::InvalidDestination));
    assert_eq!(board.white_pawns, 0xff00);
}

#[test]
fn no_move_is_rejected_for_a_blocked_path() {
    for from in 0..64 {
        for to in 0..64 {
            let mut board = Board::new();
            let outcome = board.make_move(from, to);
            assert_ne!(outcome, Err(MoveError::PathBlocked));
            if outcome.is_err() {
                assert_eq!(masks(&board), masks(&Board::new()));
                assert_eq!(board.side_to_move, Color::White);
            } else {
                assert_eq!(board.side_to_move, Color::Black);
                assert!(pairwise_disjoint(&board));
            }
        }
    }
    let mut board = Board::new();
    assert_eq!(board.make_move(0, 16), Err(MoveError::InvalidDestination));
    assert_eq!(board.make_move(2, 20), Err(MoveError::InvalidDestination));
    assert_eq!(board.make_move(3, 27), Err(MoveError::InvalidDestination));
}

#[test]
fn the_start_position_has_twenty_moves() {
    let board = Board::new();
    let mut count = 0;
    for from in 0..64 {
        count += board.get_legal_moves(from).count_ones();
    }
    assert_eq!(count, 20);
}

#[test]
fn occupancy_is_the_union_of_the_bitboards() {
    let mut board = Board::new();
    assert_eq!(board.white_pieces(), 0xffff);
    assert_eq!(board.black_pieces(), 0xffff_0000_0000_0000);
    assert_eq!(board.all_pieces(), 0xffff_0000_0000_ffff);
    board.toggle_side_to_move();
    assert_eq!(board.side_to_move, Color::Black);
    board.toggle_side_to_move();
    assert_eq!(board.side_to_move, Color::White);
    assert_eq!(masks(&board), masks(&Board::new()));
}

#[test]
fn pieces_are_looked_up_in_field_order() {
    let board = Board::new();
    assert_eq!(board.get_piece_type_at(3), Some((PieceType::Queen, Color::White)));
    assert_eq!(board.get_piece_type_at(4), Some((PieceType::King, Color::White)));
    assert_eq!(board.get_piece_type_at(59), Some((PieceType::Queen, Color::Black)));
    assert_eq!(board.get_piece_type_at(60), Some((PieceType::King, Color::Black)));
    assert_eq!(board.get_piece_type_at(35), None);
    let mut overlap = empty_board(Color::White);
    overlap.white_queens = 1u64 << 10;
    overlap.black_pawns = 1u64 << 10;
    overlap.white_kings = 1u64 << 10;
    assert_eq!(overlap.get_piece_type_at(10), Some((PieceType::Pawn, Color::Black)));
    overlap.black_pawns = 0;
    assert_eq!(overlap.get_piece_type_at(10), Some((PieceType::King, Color::White)));
}

#[test]
fn leapers_have_at_most_eight_destinations() {
    for from in 0..64 {
        let here = 1u64 << from;
        let knight = get_knight_moves(from, here, 0, here, 0, Color::White);
        let king = get_king_moves(from, 0, here, 0, here, Color::Black);
        assert!(knight.count_ones() <= 8);
        assert!(king.count_ones() <= 8);
        assert_eq!(knight & here, 0);
        assert_eq!(king & here, 0);
    }
    let centre = 1u64 << 27;
    assert_eq!(get_knight_moves(27, centre, 0, centre, 0, Color::White).count_ones(), 8);
    assert_eq!(get_king_moves(27, centre, 0, centre, 0, Color::White).count_ones(), 8);
    assert_eq!(get_knight_moves(0, 1, 0, 1, 0, Color::White), (1u64 << 10) | (1u64 << 17));
}
