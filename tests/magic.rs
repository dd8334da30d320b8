use rand::rngs::StdRng;
use rand::SeedableRng;
use magic_chess::masks::{blockermask_rook, blockermask_bishop, generate_rook_move_pattern, generate_bishop_move_pattern, remove_edges, generate_all_blockermasks, generate_all_move_patterns};
use magic_chess::rays::{generate_moveboard_for_square, generate_all_moveboards};
use magic_chess::boards::generate_all_blockerboards;
use magic_chess::magic::{generate_magic_numbers, initialize, rook_move, bishop_move, queen_move};

const SEED: u64 = 0x5eed;
const ATTEMPTS: u64 = 100_000_000;

use magic_chess::piece::PieceType;

#[test]
fn magic_bitboards_test_blockermask_rook() {
        let input: u64 = 0b00000000_00000000_00000000_00000000_00010000_00000000_00000000_00000000;
        let expected_result: u64 = 0b00000000_00010000_00010000_00010000_01101110_00010000_00010000_00000000;
        let result = blockermask_rook(input);
        assert_eq!(expected_result, result);
    }

#[test]
fn magic_bitboards_test_generate_rook_move_pattern() {
        let square:u64 = 0b00000000_00000000_00000000_00000000_00000000_00000000_00000010_00000000;
        let index = square.trailing_zeros() as i8;
        let row = index / 8;
        let col = index % 8;
        let result = generate_rook_move_pattern(row, col);
        let expected_result: u64 = 0b00000010_00000010_00000010_00000010_00000010_00000010_11111111_00000010;
        assert_eq!(expected_result, result);
    }

#[test]
fn magic_bitboards_test_blockermask_rook_corner() {
        let input: u64 = 0b00000000_00000000_00000000_00000000_00000000_00000000_00000000_00000001;
        let expected_result: u64 = 0b00000000_00000001_00000001_00000001_00000001_00000001_00000001_01111110;
        let result = blockermask_rook(input);
        assert_eq!(expected_result, result);
    }

#[test]
fn magic_bitboards_test_generate_bishop_move_pattern() {
        let square:u64 = 0b00000000_00000000_00000000_00000000_00000000_00000000_00000010_00000000;
        let index = square.trailing_zeros() as u8;
        let row = index / 8;
        let col = index % 8;
        let result = generate_bishop_move_pattern(row as i8, col as i8);
        let expected_result: u64 = 0b10000000_01000000_00100000_00010000_00001000_00000101_00000010_00000101;
        assert_eq!(expected_result, result);
    }

#[test]
fn magic_bitboards_test_remove_edges() {
        let row: u8 = 1;
        let mut blocker_mask: u64 = 0b11111111_10000001_10000001_10000001_10000001_10000001_10000001_11111111;
        let  col:u8 = 1;
        let expected_result:u64 =   0;
        let actual = remove_edges(row, blocker_mask, col);
        assert_eq!(expected_result, actual);
    }

#[test]
fn magic_bitboards_test_remove_edges_corner() {
        let row: u8 = 0;
        let mut blocker_mask: u64 = 0b11111111_10000001_10000001_10000001_10000001_10000001_10000001_11111111;
        let  col:u8 = 0;
        let expected_result:u64 =   0b00000000_00000001_00000001_00000001_00000001_00000001_00000001_01111111;
        let actual = remove_edges(row, blocker_mask, col);
        assert_eq!(expected_result, actual);
    }

#[test]
fn magic_bitboards_test_blockermask_bishop() {
        let input: u64 = 0b00000000_00000000_00000000_00000000_00010000_00000000_00000000_00000000;
        let expected_result: u64 = 0b00000000_00000010_01000100_00101000_00000000_00101000_01000100_00000000;
        let result = blockermask_bishop(input);
        assert_eq!(expected_result, result);
    }

#[test]
fn magic_bitboards_test_blockermask_bishop_corner() {
        let input: u64 = 0b00000000_00000000_00000000_00000000_00000000_00000000_00000000_00000001;
        let expected_result: u64 = 0b00000000_01000000_00100000_00010000_00001000_00000100_00000010_00000000;
        let result = blockermask_bishop(input);
        assert_eq!(expected_result, result);
    }

#[test]
fn magic_bitboards_test_generate_all_blockermasks_rook_no_null() {
        let result = generate_all_blockermasks(PieceType::Rook);
        assert!(result.iter().all(|&x| x != 0));
    }

#[test]
fn magic_bitboards_test_generate_all_blockermasks_bishop_no_null() {
        let result = generate_all_blockermasks(PieceType::Bishop);
        assert!(result.iter().all(|&x| x != 0));
    }

#[test]
fn magic_bitboards_test_generate_moveboard_for_square() {
        let square: u64 =           0b00000000_00000000_00000000_00010000_00000000_00000000_00000000_00000000;
        let move_pattern : u64 =    0b00010000_00010000_00010000_11111111_00010000_00010000_00010000_00010000; 
        let blockerboard : u64 =    0b00010000_00010000_00000000_10000100_00010000_00010000_00000000_00010000; 
        let expected_result : u64 = 0b00000000_00010000_00010000_11101100_00010000_00000000_00000000_00000000;
        let actual_result = generate_moveboard_for_square(square, move_pattern, blockerboard);
        assert_eq!(expected_result, actual_result);
        
    }

#[test]
fn magic_bitboards_test_generate_all_move_patterns_rook_not_empty() {
        let result = generate_all_move_patterns(PieceType::Rook);
        assert!(result.iter().all(|&x| x != 0));
    }

#[test]
fn magic_bitboards_test_generate_all_move_patterns_bishop_not_empty() {
        let result = generate_all_move_patterns(PieceType::Bishop);
        assert!(result.iter().all(|&x| x != 0));
    }

#[test]
fn magic_bitboards_test_generate_all_blockermasks_rook_not_empty() {
        let result = generate_all_blockermasks(PieceType::Rook);
        assert!(result.iter().all(|&x| x != 0));
    }

#[test]
fn magic_bitboards_test_generate_all_blockermasks_bishop_not_empty() {
        let result = generate_all_blockermasks(PieceType::Bishop);
        assert!(result.iter().all(|&x| x != 0));
    }

#[test]
fn test_generate_magic_number_rook() {
        let piece_name = PieceType::Rook;
        let blockermasks = generate_all_blockermasks(piece_name);
        let blockerboards = generate_all_blockerboards(&blockermasks);
        let moveboards = generate_all_moveboards(&blockerboards, PieceType::Rook);
        let mut rng = StdRng::seed_from_u64(SEED);
        let entries = generate_magic_numbers(PieceType::Rook, &mut rng, ATTEMPTS).unwrap();
        // each blockerboard * magic_number gives the index of its moveboard in the magic table
        for i in 0..64 {
            let blockermask = blockermasks[i];
            let bits = blockermask.count_ones();
            let magic_number = entries[i].magic;
            let blockerboard = &blockerboards[i];
            let magic_table = &entries[i].table;
            assert_eq!(entries[i].mask, blockermask);
            assert_eq!(entries[i].bits as u32, bits);
            for j in 0..(1 << bits) {
                let index = (blockerboard[j].wrapping_mul(magic_number)) >> (64 - bits);
                let moveboard = moveboards[i][j];
                assert_eq!(magic_table[index as usize], moveboard);
            }
        }

    }

#[test]
fn test_generate_magic_number_bishop() {
        let piece_name = PieceType::Bishop;
        let blockermasks = generate_all_blockermasks(piece_name);
        let blockerboards = generate_all_blockerboards(&blockermasks);
        let moveboards = generate_all_moveboards(&blockerboards, PieceType::Bishop);
        let mut rng = StdRng::seed_from_u64(SEED);
        let entries = generate_magic_numbers(PieceType::Bishop, &mut rng, ATTEMPTS).unwrap();
        // each blockerboard * magic_number gives the index of its moveboard in the magic table
        for i in 0..64 {
            let blockermask = blockermasks[i];
            let bits = blockermask.count_ones();
            let magic_number = entries[i].magic;
            let blockerboard = &blockerboards[i];
            let magic_table = &entries[i].table;
            assert_eq!(entries[i].mask, blockermask);
            assert_eq!(entries[i].bits as u32, bits);
            for j in 0..(1 << bits) {
                let index = (blockerboard[j].wrapping_mul(magic_number)) >> (64 - bits);
                let moveboard = moveboards[i][j];
                assert_eq!(magic_table[index as usize], moveboard);
            }
        }

    }

#[test]
fn test_rook_move_no_blockers() {
    let tables = initialize(SEED, ATTEMPTS).unwrap();
    let square: u64 = 0b00000000_00000000_00000000_00000000_00000000_00000000_00000000_00000001;
    let occupancy: u64 = 0;
    let expected_move: u64 = 0b00000001_00000001_00000001_00000001_00000001_00000001_00000001_11111110;
    let actual_move = rook_move(&tables, square, occupancy);
    assert_eq!(expected_move, actual_move);
}

#[test]
fn test_bishop_move_no_blockers() {
    let tables = initialize(SEED, ATTEMPTS).unwrap();
    let square: u64 = 0b00000000_00000000_00000000_00001000_00000000_00000000_00000000_00000000;
    let occupancy: u64 = 0;
    let expected_move: u64 = 0b01000001_00100010_00010100_00000000_00010100_00100010_01000001_10000000;
    let actual_move = bishop_move(&tables, square, occupancy);
    assert_eq!(expected_move, actual_move);
}

#[test]
fn test_queen_move_no_blockers() {
    let tables = initialize(SEED, ATTEMPTS).unwrap();
    let square: u64 = 0b00000000_00000000_00000000_00001000_00000000_00000000_00000000_00000000;
    let occupancy: u64 = 0;
    let expected_move: u64 = 0b01001001_00101010_00011100_11110111_00011100_00101010_01001001_10001000;
    let actual_move = queen_move(&tables, square, occupancy);
    assert_eq!(expected_move, actual_move);
}
