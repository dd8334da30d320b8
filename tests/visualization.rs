use magic_chess::board::ChessBoard;
use magic_chess::visualization::{get_square_character, Visualize};

const START: &str = "
            8 ♜ ♞ ♝ ♛ ♚ ♝ ♞ ♜ 
            7 ♟︎ ♟︎ ♟︎ ♟︎ ♟︎ ♟︎ ♟︎ ♟︎ 
            6 □ ■ □ ■ □ ■ □ ■ 
            5 ■ □ ■ □ ■ □ ■ □ 
            4 □ ■ □ ■ □ ■ □ ■ 
            3 ■ □ ■ □ ■ □ ■ □ 
            2 ♙ ♙ ♙ ♙ ♙ ♙ ♙ ♙ 
            1 ♖ ♘ ♗ ♕ ♔ ♗ ♘ ♖ 
              A B C D E F G H 
        ";

#[test]
fn visualization_test_visualize() {
    let chessboard = ChessBoard::new(false);
    let result = chessboard.visualize().replace(" ", "");
    let expected = START.trim().replace(" ", "");
    assert_eq!(result, expected);
}

#[test]
fn chess_game_bitboard_test_visualize() {
    let mut chessboard = ChessBoard::new(false);
    let result = chessboard.visualize().replace(" ", "");
    let expected = START.trim().replace(" ", "");
    assert_eq!(result, expected);
    chessboard.white_kings().positions = 0;
    assert_eq!(get_square_character(&chessboard, 4, 0), "■");
}

#[test]
fn empty_board_is_checkered() {
    let board = ChessBoard::new(true);
    let text = board.visualize();
    assert!(text.starts_with("8 □ ■ □ ■ □ ■ □ ■ \n"));
    assert!(text.ends_with("1 ■ □ ■ □ ■ □ ■ □ \n  A B C D E F G H "));
}
