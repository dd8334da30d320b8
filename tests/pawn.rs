use magic_chess::pawn::{white_pawn_single_push, white_pawn_double_push, white_pawn_attacks, white_en_passant_calculation, black_pawn_single_push, black_pawn_double_push, black_pawn_attacks, black_en_passant_calculation, get_pawn_moves};
use magic_chess::piece::{Color, Move, PieceType};

#[test]
fn test_white_pawn_single_push_initial() {
        //rank 2 is filled with pawns
        let pawn_initial_position: u64 = 0b00000000_00000000_00000000_00000000_00000000_00000000_11111111_00000000;
        //everything is empty except for the pawn positions
        let empty_squares = !0 ^ pawn_initial_position;
        //a pawn push should result in a full rank shift
        let expected_result: u64 = 0b00000000_00000000_00000000_00000000_00000000_11111111_00000000_00000000;
        let result = white_pawn_single_push(pawn_initial_position, empty_squares);
        assert_eq!(expected_result, result);
    }

#[test]
fn test_white_pawn_single_push_missing() {
        //rank 2 is filled with some pawns
        let pawn_initial_position: u64 = 0b00000000_00000000_00000000_00000000_00000000_00000000_11011011_00000000;
        //everything is empty except for the pawn positions
        let empty_squares = !0 ^ pawn_initial_position;
        //a pawn push should result in a full rank shift
        let expected_result: u64 = 0b00000000_00000000_00000000_00000000_00000000_11011011_00000000_00000000;
        let result = white_pawn_single_push(pawn_initial_position, empty_squares);
        assert_eq!(expected_result, result);
    }

#[test]
fn test_white_pawn_single_push_blocked() {
        //rank 2 is filled with pawns
        let pawn_initial_position: u64 = 0b00000000_00000000_00000000_00000000_00000000_00000000_11111111_00000000;
        //some squares in front of the pawns are occupied
        let empty_squares: u64 = 0b11111111_11111111_11111111_11111111_11111111_10101010_00000000_11111111;
        //a pawn push should result in a full rank shift except for the blocked pawns
        let expected_result: u64 = 0b00000000_00000000_00000000_00000000_00000000_10101010_00000000_00000000;
        let result = white_pawn_single_push(pawn_initial_position, empty_squares);
        assert_eq!(expected_result, result);
    }

#[test]
fn test_white_pawn_double_push_initial() {
        //rank 2 is filled with pawns
        let pawn_initial_position: u64 = 0b00000000_00000000_00000000_00000000_00000000_00000000_11111111_00000000;
        //everything is empty except for the pawn positions
        let empty_squares = !0 ^ pawn_initial_position;
        //a double pawn push should result in two full rank shifts
        let expected_result: u64 = 0b00000000_00000000_00000000_00000000_11111111_00000000_00000000_00000000;
        let result = white_pawn_double_push(pawn_initial_position, empty_squares);
        assert_eq!(expected_result, result);
    }

#[test]
fn test_white_pawn_double_push_missing() {
        //rank 2 is filled with some pawns
        let pawn_initial_position: u64 = 0b00000000_00000000_00000000_00000000_00000000_00000000_11011011_00000000;
        //everything is empty except for the pawn positions
        let empty_squares = !0 ^ pawn_initial_position;
        //a double pawn push should result in two full rank shifts
        let expected_result: u64 = 0b00000000_00000000_00000000_00000000_11011011_00000000_00000000_00000000;
        let result = white_pawn_double_push(pawn_initial_position, empty_squares);
        assert_eq!(expected_result, result);
    }

#[test]
fn test_white_pawn_double_push_blocked_one_sq() {
        //rank 2 is filled with pawns
        let pawn_initial_position: u64 = 0b00000000_00000000_00000000_00000000_00000000_00000000_11111111_00000000;
        //everything is empty except for the pawn positions and some blockades one rank in front
        let empty_squares: u64 = 0b11111111_11111111_11111111_11111111_11111111_10101010_00000000_11111111;
        //a double pawn push should result in two full rank shifts except for the blocked pawns
        let expected_result: u64 = 0b00000000_00000000_00000000_00000000_10101010_00000000_00000000_00000000;
        let result = white_pawn_double_push(pawn_initial_position, empty_squares);
        assert_eq!(expected_result, result);
    }

#[test]
fn test_white_pawn_double_push_blocked_two_sq() {
        //rank 2 is filled with pawns
        let pawn_initial_position: u64 = 0b00000000_00000000_00000000_00000000_00000000_00000000_11111111_00000000;
        //everything is empty except for the pawn positions and some blockades two ranks in front
        let empty_squares: u64 = 0b11111111_11111111_11111111_11111111_10101010_11111111_00000000_11111111;
        //a double pawn push should result in two full rank shifts except for the blocked pawns
        let expected_result: u64 = 0b00000000_00000000_00000000_00000000_10101010_00000000_00000000_00000000;
        let result = white_pawn_double_push(pawn_initial_position, empty_squares);
        assert_eq!(expected_result, result);
    }

#[test]
fn test_white_pawn_attacks() {
        //rank 2 is filled with pawns
        let pawn_initial_position: u64 = 0b00000000_00000000_00000000_00000000_00000000_00000000_11111111_00000000;
        //some opponent pieces are in front of the pawns
        let opponent_pieces: u64 = 0b00000000_00000000_00000000_00000000_00000000_10101010_00000000_00000000;
        //all opponent pieces should be capturable
        let expected_result = opponent_pieces;
        let result = white_pawn_attacks(pawn_initial_position, opponent_pieces);
        assert_eq!(expected_result, result);
    }

#[test]
fn test_white_pawn_attacks_files() {
        //rank 2 has a pawn on the A and H file
        let pawn_initial_position: u64 = 0b00000000_00000000_00000000_00000000_00000000_00000000_10000001_00000000;
        //some opponent pieces are in front of the pawns
        let opponent_pieces: u64 = 0b00000000_00000000_00000000_00000000_10000001_11000011_00000000_00000000;
        //only the opponent pieces diagonally from the pawns should be capturable
        let expected_result: u64 = 0b00000000_00000000_00000000_00000000_00000000_01000010_00000000_00000000;
        let result = white_pawn_attacks(pawn_initial_position, opponent_pieces);
        assert_eq!(expected_result, result);
    }

#[test]
fn test_white_en_passant_calculation() {
        // There is one pawn on rank 5
        let pawn_positions: u64 = 0b00000000_00000000_00000000_00001000_00000000_00000000_00000000_00000000;
        // Last move was a double push of a pawn
        let last_move = Move::new(PieceType::Pawn, 0b00000000_00010000_00000000_00000000_00000000_00000000_00000000_00000000, 0b00000000_00000000_00000000_00010000_00000000_00000000_00000000_00000000, false, None);
        // En passant is possible
        let expected_result: u64 = 0b00000000_00000000_00010000_00000000_00000000_00000000_00000000_00000000;
        let result = white_en_passant_calculation(&last_move, pawn_positions);
        assert_eq!(expected_result, result);
    }

#[test]
fn test_black_pawn_single_push_initial() {
        //rank 7 is filled with pawns
        let pawn_initial_position: u64 = 0b00000000_11111111_00000000_00000000_00000000_00000000_00000000_00000000;
        //everything is empty except for the pawn positions
        let empty_squares = !0 ^ pawn_initial_position;
        //a pawn push should result in a full rank shift
        let expected_result: u64 = 0b00000000_00000000_11111111_00000000_00000000_00000000_00000000_00000000;
        let result = black_pawn_single_push(pawn_initial_position, empty_squares);
        assert_eq!(expected_result, result);
    }

#[test]
fn test_black_pawn_single_push_missing() {
        //rank 7 is filled with some pawns
        let pawn_initial_position: u64 = 0b00000000_11011011_00000000_00000000_00000000_00000000_00000000_00000000;
        //everything is empty except for the pawn positions
        let empty_squares = !0 ^ pawn_initial_position;
        //a pawn push should result in a full rank shift
        let expected_result: u64 = 0b00000000_00000000_11011011_00000000_00000000_00000000_00000000_00000000;
        let result = black_pawn_single_push(pawn_initial_position, empty_squares);
        assert_eq!(expected_result, result);
    }

#[test]
fn test_black_pawn_single_push_blocked() {
        //rank 7 is filled with pawns
        let pawn_initial_position: u64 = 0b00000000_11111111_00000000_00000000_00000000_00000000_00000000_00000000;
        //some squares in front of the pawns are occupied
        let empty_squares: u64 = 0b11111111_00000000_10101010_11111111_11111111_11111111_11111111_11111111;
        //a pawn push should result in a full rank shift except for the blocked pawns
        let expected_result: u64 = 0b00000000_00000000_10101010_00000000_00000000_00000000_00000000_00000000;
        let result = black_pawn_single_push(pawn_initial_position, empty_squares);
        assert_eq!(expected_result, result);
    }

#[test]
fn test_black_pawn_double_push_initial() {
        //rank 7 is filled with pawns
        let pawn_initial_position: u64 = 0b00000000_11111111_00000000_00000000_00000000_00000000_00000000_00000000;
        //everything is empty except for the pawn positions
        let empty_squares = !0 ^ pawn_initial_position;
        //a double pawn push should result in two full rank shifts
        let expected_result: u64 = 0b00000000_00000000_00000000_11111111_00000000_00000000_00000000_00000000;
        let result = black_pawn_double_push(pawn_initial_position, empty_squares);
        assert_eq!(expected_result, result);
    }

#[test]
fn test_black_pawn_double_push_missing() {
        //rank 7 is filled with some pawns
        let pawn_initial_position: u64 = 0b00000000_11011011_00000000_00000000_00000000_00000000_00000000_00000000;
        //everything is empty except for the pawn positions
        let empty_squares = !0 ^ pawn_initial_position;
        //a double pawn push should result in two full rank shifts
        let expected_result: u64 = 0b00000000_00000000_00000000_11011011_00000000_00000000_00000000_00000000;
        let result = black_pawn_double_push(pawn_initial_position, empty_squares);
        assert_eq!(expected_result, result);
    }

#[test]
fn test_black_pawn_double_push_blocked_one_sq() {
        //rank 7 is filled with pawns
        let pawn_initial_position: u64 = 0b00000000_11111111_00000000_00000000_00000000_00000000_00000000_00000000;
        //everything is empty except for the pawn positions and some blockades one rank in front
        let empty_squares: u64 = 0b11111111_00000000_10101010_11111111_11111111_11111111_11111111_11111111;
        //a double pawn push should result in two full rank shifts except for the blocked pawns
        let expected_result: u64 = 0b00000000_00000000_00000000_10101010_00000000_00000000_00000000_00000000;
        let result = black_pawn_double_push(pawn_initial_position, empty_squares);
        assert_eq!(expected_result, result);
    }

#[test]
fn test_black_pawn_double_push_blocked_two_sq() {
        //rank 7 is filled with pawns
        let pawn_initial_position: u64 = 0b00000000_11111111_00000000_00000000_00000000_00000000_00000000_00000000;
        //everything is empty except for the pawn positions and some blockades two ranks in front
        let empty_squares: u64 = 0b11111111_00000000_11111111_10101010_11111111_11111111_11111111_11111111;
        //a double pawn push should result in two full rank shifts except for the blocked pawns
        let expected_result: u64 = 0b00000000_00000000_00000000_10101010_00000000_00000000_00000000_00000000;
        let result = black_pawn_double_push(pawn_initial_position, empty_squares);
        assert_eq!(expected_result, result);
    }

#[test]
fn test_black_pawn_attacks() {
        //rank 7 is filled with pawns
        let pawn_initial_position: u64 = 0b00000000_11111111_00000000_00000000_00000000_00000000_00000000_00000000;
        //Some opponent pieces are in front of the pawns
        let opponent_pieces: u64 = 0b00000000_00000000_10101010_00000000_00000000_00000000_00000000_00000000;
        //All opponent pieces should capturable
        let expected_result = opponent_pieces;
        let result = black_pawn_attacks(pawn_initial_position, opponent_pieces);
        assert_eq!(expected_result, result);
    }

#[test]
fn test_black_pawn_attacks_files() {
        //rank 7 has two pawns on the A and H file
        let pawn_initial_position: u64 = 0b00000000_10000001_00000000_00000000_00000000_00000000_00000000_00000000;
        //Some opponent pieces are in front of the pawns
        let opponent_pieces: u64 = 0b00000000_00000000_11000011_10000001_00000000_00000000_00000000_00000000;
        //Only the diagonal pieces should be allowed for capture
        let expected_result: u64 = 0b00000000_00000000_01000010_00000000_00000000_00000000_00000000_00000000;
        let result = black_pawn_attacks(pawn_initial_position, opponent_pieces);
        assert_eq!(expected_result, result);
    }

#[test]
fn test_black_en_passant_calculation() {
        // There is one pawn on rank 5
        let pawn_positions: u64 = 0b00000000_00000000_00000000_00000000_00001000_00000000_00000000_00000000;
        // Last move was a double push of a pawn
        let last_move = Move::new(PieceType::Pawn, 0b00000000_00000000_00000000_00000000_00000000_00000000_00010000_00000000, 0b00000000_00000000_00000000_00000000_00010000_00000000_00000000_00000000, false, None);
        // En passant is possible
        let expected_result: u64 = 0b00000000_00000000_00000000_00000000_00000000_00010000_00000000_00000000;
        let result = black_en_passant_calculation(&last_move, pawn_positions);
        assert_eq!(expected_result, result);
    }

#[test]
fn test_get_pawn_moves_white() {
        //play with white
        let color = Color::White;
        //rank 2 is filled with pawns
        let pawn_initial_position: u64 = 0b00000000_00000000_00000000_00000000_00000000_00000000_11111111_00000000;
        //everything is empty except for the pawn positions
        let empty_squares = !0 ^ pawn_initial_position;
        //single push and double push should be valid for all pawns
        let expected_result: u64 = 0b00000000_00000000_00000000_00000000_11111111_11111111_00000000_00000000;
        let result = get_pawn_moves(pawn_initial_position, empty_squares, color);
        assert_eq!(expected_result, result);
    }

#[test]
fn test_get_pawn_moves_black() {
        let color = Color::Black;
        //rank 7 is filled with pawns
        let pawn_initial_position: u64 = 0b00000000_11111111_00000000_00000000_00000000_00000000_00000000_00000000;
        //everything is empty except for the pawn positions
        let empty_squares = !0 ^ pawn_initial_position;
        //a pawn push should result in a full rank shift
        let expected_result: u64 = 0b00000000_00000000_11111111_11111111_00000000_00000000_00000000_00000000;
        let result = get_pawn_moves(pawn_initial_position, empty_squares, color);
        assert_eq!(expected_result, result);
    }
