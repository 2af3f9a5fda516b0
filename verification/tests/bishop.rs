use chess_engine::pieces::bishop::get_bishop_moves;
use chess_engine::pieces::piece_type::Color;

#[test]
fn test_bishop_middle_board() {
    let white_bishops = 1u64 << 27;
    let white_pieces = white_bishops;
    let black_pieces = 0;

    let moves = get_bishop_moves(
        27,
        white_bishops,
        0,
        white_pieces,
        black_pieces,
        Color::White,
    );

    let expected = 
        (1u64 << 18) | 
        (1u64 << 9) |  
        (1u64 << 0) |  
        (1u64 << 36) | 
        (1u64 << 45) | 
        (1u64 << 54) | 
        (1u64 << 63) | 
        (1u64 << 20) | 
        (1u64 << 13) | 
        (1u64 << 6) |  
        (1u64 << 34) | 
        (1u64 << 41) | 
        (1u64 << 48);  

    assert_eq!(moves, expected);
}

#[test]
fn test_bishop_corner() {
    let white_bishops = 1u64 << 0;
    let white_pieces = white_bishops;
    let black_pieces = 0;

    let moves = get_bishop_moves(
        0,
        white_bishops,
        0,
        white_pieces,
        black_pieces,
        Color::White,
    );

    let expected = 
        (1u64 << 9) |  
        (1u64 << 18) | 
        (1u64 << 27) | 
        (1u64 << 36) | 
        (1u64 << 45) | 
        (1u64 << 54) | 
        (1u64 << 63);  

    assert_eq!(moves, expected);
}

#[test]
fn test_bishop_with_blockers() {
    let white_bishops = 1u64 << 27;
    let white_pawns = 1u64 << 18;
    let black_pawns = 1u64 << 36;

    let white_pieces = white_bishops | white_pawns;
    let black_pieces = black_pawns;

    let moves = get_bishop_moves(
        27,
        white_bishops,
        0,
        white_pieces,
        black_pieces,
        Color::White,
    );

    let expected = 
        (1u64 << 20) | 
        (1u64 << 13) | 
        (1u64 << 6) |  
        (1u64 << 36) | 
        (1u64 << 34) | 
        (1u64 << 41) | 
        (1u64 << 48);  

    assert_eq!(moves, expected);
}

#[test]
fn test_black_bishop() {
    let black_bishops = 1u64 << 35;
    let white_pieces = 0;
    let black_pieces = black_bishops;

    let moves = get_bishop_moves(
        35,
        0,
        black_bishops,
        white_pieces,
        black_pieces,
        Color::Black,
    );

    let expected = 
        (1u64 << 26) | 
        (1u64 << 17) | 
        (1u64 << 8) |  
        (1u64 << 44) | 
        (1u64 << 53) | 
        (1u64 << 62) | 
        (1u64 << 28) | 
        (1u64 << 21) | 
        (1u64 << 14) | 
        (1u64 << 7) |  
        (1u64 << 42) | 
        (1u64 << 49) | 
        (1u64 << 56);  

    assert_eq!(moves, expected);
}

