use magic_chess::board::{ChessBoard, SinglePieceInfo, get_empty_squares, get_white_pieces, get_black_pieces};
use magic_chess::fen::{read_fen, set_castling_rights, FenError};
use magic_chess::piece::{Color, PieceType};

#[test]
fn chess_board_test_new() {
        let mut chessboard = ChessBoard::new(false);
        let result = chessboard.white_pawns().positions |
            chessboard.white_rooks().positions |
            chessboard.white_knights().positions |
            chessboard.white_bishops().positions |
            chessboard.white_queens().positions |
            chessboard.white_kings().positions |
            chessboard.black_pawns().positions |
            chessboard.black_rooks().positions |
            chessboard.black_knights().positions |
            chessboard.black_bishops().positions |
            chessboard.black_queens().positions |
            chessboard.black_kings().positions;

        let expected: u64 = 0b11111111_11111111_00000000_00000000_00000000_00000000_11111111_11111111;
        assert_eq!(result, expected);
    }

#[test]
fn chess_board_test_get_empty_squares() {
        let mut chessboard = ChessBoard::new(false);
        let result = get_empty_squares(&mut chessboard);
        let expected: u64 = 0b00000000_00000000_11111111_11111111_11111111_11111111_00000000_00000000;
        assert_eq!(result, expected);
    }

#[test]
fn chess_board_test_get_white_pieces() {
        let mut chessboard = ChessBoard::new(false);
        let result = get_white_pieces(&mut chessboard);
        let expected: u64 = 0b0000000_00000000_00000000_00000000_00000000_00000000_11111111_11111111;
        assert_eq!(result, expected);
    }

#[test]
fn chess_board_test_get_black_pieces() {
        let mut chessboard = ChessBoard::new(false);
        let result = get_black_pieces(&mut chessboard);
        let expected: u64 = 0b11111111_11111111_00000000_00000000_00000000_00000000_00000000_00000000;
        assert_eq!(result, expected);
    }

#[test]
fn chess_board_test_set_square() {
        let mut chessboard = ChessBoard::new(false);
        chessboard.set_square(SinglePieceInfo { 
            piece_type: PieceType::Pawn, 
            color: Color::White, 
            position_x: 1, 
            position_y: 4
        });

        assert_eq!(chessboard.white_pawns().positions, 0b00000000_00000000_00000000_01000000_00000000_00000000_11111111_00000000);
    }

#[test]
fn chess_game_bitboard_test_new() {
        let mut chessboard = ChessBoard::new(false);
        let result = chessboard.white_pawns().positions |
            chessboard.white_rooks().positions |
            chessboard.white_knights().positions |
            chessboard.white_bishops().positions |
            chessboard.white_queens().positions |
            chessboard.white_kings().positions |
            chessboard.black_pawns().positions |
            chessboard.black_rooks().positions |
            chessboard.black_knights().positions |
            chessboard.black_bishops().positions |
            chessboard.black_queens().positions |
            chessboard.black_kings().positions;

        let expected: u64 = 0b11111111_11111111_00000000_00000000_00000000_00000000_11111111_11111111;
        assert_eq!(result, expected);
    }

#[test]
fn chess_game_bitboard_test_get_empty_squares() {
        let mut chessboard = ChessBoard::new(false);
        let result = get_empty_squares(&mut chessboard);
        let expected: u64 = 0b00000000_00000000_11111111_11111111_11111111_11111111_00000000_00000000;
        assert_eq!(result, expected);
    }

#[test]
fn chess_game_bitboard_test_get_white_pieces() {
        let mut chessboard = ChessBoard::new(false);
        let result = get_white_pieces(&mut chessboard);
        let expected: u64 = 0b0000000_00000000_00000000_00000000_00000000_00000000_11111111_11111111;
        assert_eq!(result, expected);
    }

#[test]
fn chess_game_bitboard_test_get_black_pieces() {
        let mut chessboard = ChessBoard::new(false);
        let result = get_black_pieces(&mut chessboard);
        let expected: u64 = 0b11111111_11111111_00000000_00000000_00000000_00000000_00000000_00000000;
        assert_eq!(result, expected);
    }

#[test]
fn chess_game_bitboard_test_set_square() {
        let mut chessboard = ChessBoard::new(false);
        chessboard.set_square(SinglePieceInfo { 
            piece_type: PieceType::Pawn, 
            color: Color::White, 
            position_x: 1, 
            position_y: 4
        });

        assert_eq!(chessboard.white_pawns().positions, 0b00000000_00000000_00000000_01000000_00000000_00000000_11111111_00000000);
    }

#[test]
fn test_read_fen() {
    let fen = "rnbqkbnr/pppppppp/8/8/4P3/8/PPPP1PPP/RNBQKBNR b KQkq e3 0 1";
    let mut chess_board = read_fen(fen).unwrap();
    let mut start_board = ChessBoard::new(false);

    assert_eq!(chess_board.white_pawns().positions, 0b00001000_00000000_11110111_00000000);
    assert_eq!(chess_board.white_knights().positions, start_board.white_knights().positions);
    assert_eq!(chess_board.white_bishops().positions, start_board.white_bishops().positions);
    assert_eq!(chess_board.white_rooks().positions, start_board.white_rooks().positions);
    assert_eq!(chess_board.white_queens().positions, start_board.white_queens().positions);
    assert_eq!(chess_board.white_kings().positions, start_board.white_kings().positions);
    assert_eq!(chess_board.black_pawns().positions, start_board.black_pawns().positions);
    assert_eq!(chess_board.black_knights().positions, start_board.black_knights().positions);
    assert_eq!(chess_board.black_bishops().positions, start_board.black_bishops().positions);
    assert_eq!(chess_board.black_rooks().positions, start_board.black_rooks().positions);
    assert_eq!(chess_board.black_queens().positions, start_board.black_queens().positions);
    assert_eq!(chess_board.black_kings().positions, start_board.black_kings().positions);
    assert_eq!(Color::Black, chess_board.active_color);
    assert_eq!(true, chess_board.white_king_side_castle);
    assert_eq!(true, chess_board.white_queen_side_castle);
    assert_eq!(true, chess_board.black_king_side_castle);
    assert_eq!(true, chess_board.black_queen_side_castle);
}

#[test]
fn read_fen_errors() {
    assert_eq!(read_fen("8/8/8/8/8/8/8/8 w").err(), Some(FenError::MissingField));
    assert_eq!(read_fen("8/8/8/8/8/8/8/7x w -").err(), Some(FenError::InvalidPiece));
    assert_eq!(read_fen("8/8/8/8/8/8/8/8 x -").err(), Some(FenError::InvalidColor));
    assert_eq!(read_fen("8/8/8/8/8/8/8/8 w KX").err(), Some(FenError::InvalidCastling));
    assert_eq!(read_fen("8/8/8/8/8/8/8/8/8 w -").err(), Some(FenError::SquareOffBoard));
    assert_eq!(read_fen("9/8/8/8/8/8/8/8 w -").err(), Some(FenError::SquareOffBoard));
    assert_eq!(read_fen("8/8/8/8/8/8/8/7kk w -").err(), Some(FenError::SquareOffBoard));
}

#[test]
fn read_fen_keeps_castling_rights() {
    let board = read_fen("4k3/8/8/8/8/8/8/R3K3 w Q - 0 1").unwrap();
    assert!(board.white_king_side_castle && board.white_queen_side_castle);
    assert!(board.black_king_side_castle && board.black_queen_side_castle);
    assert_eq!(board.get_piece_info(PieceType::Rook, Color::White).positions, 0b10000000);
    assert_eq!(board.get_piece_info(PieceType::King, Color::Black).positions, 1 << 59);
    let none = read_fen("8/8/8/8/8/8/8/8 b -").unwrap();
    assert!(none.white_king_side_castle && none.black_queen_side_castle);
    assert_eq!(none.active_color, Color::Black);
}

#[test]
fn castling_field_grants_named_rights() {
    let mut board = ChessBoard::new(false);
    board.white_king_side_castle = false;
    board.white_queen_side_castle = false;
    board.black_king_side_castle = false;
    board.black_queen_side_castle = false;
    assert!(set_castling_rights(&mut board, &vec!['Q', 'q']).is_ok());
    assert!(!board.white_king_side_castle);
    assert!(board.white_queen_side_castle);
    assert!(!board.black_king_side_castle);
    assert!(board.black_queen_side_castle);
    let mut full = ChessBoard::new(false);
    assert!(set_castling_rights(&mut full, &vec!['Q']).is_ok());
    assert!(full.white_king_side_castle);
    assert_eq!(set_castling_rights(&mut full, &vec!['x']), Err(FenError::InvalidCastling));
}
