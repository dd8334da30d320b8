use rand::rngs::StdRng;
use rand::SeedableRng;
use magic_chess::board::{get_empty_squares, get_square, ChessBoard};
use magic_chess::boards::{count_squares, generate_blockerboard};
use magic_chess::knight::{all_knight_moves, knight_move_nne, knight_move_nnw, knight_move_sse, knight_move_ssw};
use magic_chess::king::all_king_moves;
use magic_chess::magic::{bishop_move, find_magic, initialize, rook_move, try_magic, subsets_and_attacks};
use magic_chess::masks::{blockermask_bishop, blockermask_rook};
use magic_chess::pawn::{get_pawn_attack_set, white_en_passant_calculation, black_en_passant_calculation};
use magic_chess::piece::{Color, Move, PieceInfo, PieceType, split_moves};
use magic_chess::rays::{generate_moveboard_for_square, slider_moveboard};

const SEED: u64 = 0x5eed;
const ATTEMPTS: u64 = 100_000_000;

#[test]
fn blocker_masks_have_five_to_twelve_squares_and_skip_their_square() {
    for s in 0..64 {
        let square = 1u64 << s;
        for mask in [blockermask_rook(square), blockermask_bishop(square)] {
            let n = mask.count_ones();
            assert!((5..=12).contains(&n), "square {} has {} mask squares", s, n);
            assert_eq!(mask & square, 0);
            assert_eq!(count_squares(mask), n);
        }
    }
}

#[test]
fn rook_corner_mask_and_attacks() {
    let square: u64 = 0b00000001;
    assert_eq!(blockermask_rook(square), 0b00000000_00000001_00000001_00000001_00000001_00000001_00000001_01111110);
    let tables = initialize(SEED, ATTEMPTS).unwrap();
    assert_eq!(rook_move(&tables, square, 0), 0x0101_0101_0101_01fe);
    // a blocker on the same file stops the ray and is included
    assert_eq!(rook_move(&tables, square, 0x0001_0000), 0x0001_01fe);
    // pieces off the rook's lines change nothing
    assert_eq!(rook_move(&tables, square, 0x0204_0810_2040_8000), 0x0101_0101_0101_01fe);
}

#[test]
fn every_blocker_board_reads_its_attack_set() {
    let tables = initialize(SEED, ATTEMPTS).unwrap();
    for s in [0u8, 7, 27, 36, 63] {
        let square = 1u64 << s;
        let mask = blockermask_rook(square);
        let bits = mask.count_ones();
        for k in 0..(1u32 << bits) {
            let board = generate_blockerboard(k, mask);
            assert_eq!(board & !mask, 0);
            let rook_lines = (0x0101_0101_0101_0101u64 << (s % 8)) | (0xffu64 << (8 * (s / 8)));
            let expected = generate_moveboard_for_square(square, rook_lines, board);
            assert_eq!(rook_move(&tables, square, board), expected, "square {} board {:x}", s, board);
        }
    }
}

#[test]
fn tables_from_different_seeds_agree() {
    let first = initialize(1, ATTEMPTS).unwrap();
    let second = initialize(2, ATTEMPTS).unwrap();
    let differing = (0..64).filter(|&s| first.rook[s].magic != second.rook[s].magic).count();
    assert!(differing > 0);
    let mut occupancy: u64 = 0x9e37_79b9_7f4a_7c15;
    for s in 0..64 {
        let square = 1u64 << s;
        for _ in 0..16 {
            occupancy = occupancy.rotate_left(13).wrapping_mul(0x2545_f491_4f6c_dd1d);
            assert_eq!(rook_move(&first, square, occupancy), rook_move(&second, square, occupancy));
            assert_eq!(bishop_move(&first, square, occupancy), bishop_move(&second, square, occupancy));
        }
    }
}

#[test]
fn no_attempts_find_no_magic() {
    let error = initialize(SEED, 0).err().unwrap();
    assert_eq!(error.square, 0);
    assert_eq!(error.piece, PieceType::Rook);
    let mut rng = StdRng::seed_from_u64(SEED);
    assert!(find_magic(PieceType::Rook, 0, &mut rng, 0).is_none());
}

#[test]
fn try_magic_rejects_a_colliding_multiplier() {
    let mask = blockermask_rook(1);
    let (subsets, attacks) = subsets_and_attacks(PieceType::Rook, 0, mask);
    assert_eq!(subsets.len(), 1 << 12);
    // multiplying by zero sends every board to slot 0
    assert!(try_magic(&subsets, &attacks, 0, 12).is_none());
}

#[test]
fn bishop_attack_stops_at_blocker() {
    // bishop on d4 (file index 4, rank 3), blocker two squares up towards the A file
    let square: u64 = 1 << 28;
    let blocker: u64 = 1 << 46;
    let r = slider_moveboard(PieceType::Bishop, 28, blocker);
    assert_eq!(r & (1 << 37), 1 << 37);
    assert_eq!(r & blocker, blocker);
    assert_eq!(r & (1 << 55), 0);
    let tables = initialize(SEED, ATTEMPTS).unwrap();
    assert_eq!(bishop_move(&tables, square, blocker), r);
}

#[test]
fn knight_on_edges_drops_wrapping_moves() {
    let h_file_square: u64 = 1 << 24;
    assert_eq!(knight_move_nne(h_file_square), 0);
    assert_eq!(knight_move_sse(h_file_square), 0);
    let a_file_square: u64 = 1 << 31;
    assert_eq!(knight_move_nnw(a_file_square), 0);
    assert_eq!(knight_move_ssw(a_file_square), 0);
    assert_eq!(knight_move_nnw(1 << 56), 0);
}

#[test]
fn king_in_corner_has_three_squares() {
    let r = all_king_moves(0b00000001);
    assert_eq!(r, 0b00000011_00000010);
    assert_eq!(r.count_ones(), 3);
}

#[test]
fn white_knights_in_the_starting_position() {
    let mut board = ChessBoard::new(false);
    let empty = get_empty_squares(&board);
    let knight_g1: u64 = 0b00000010;
    assert_eq!(all_knight_moves(knight_g1), 0b00000101_00001000_00000000);
    assert_eq!(all_knight_moves(knight_g1) & empty, 0b00000101_00000000_00000000);
    let knights = board.white_knights();
    let moves = knights.calculate_individual_moves(empty, 0);
    assert_eq!(moves.len(), 4);
    assert_eq!(knights.moves, 0b10100101_00000000_00000000);
    assert_eq!(knights.attacks, 0);
}

#[test]
fn en_passant_gives_only_the_passed_square() {
    // black pawn pushed from e7 to e5; white pawns on d5 and f5
    let last_move = Move::new(PieceType::Pawn, 1 << 51, 1 << 35, false, None);
    let pawns: u64 = (1 << 36) | (1 << 34);
    assert_eq!(white_en_passant_calculation(&last_move, pawns), 1 << 43);
    // a single push gives nothing
    let single = Move::new(PieceType::Pawn, 1 << 43, 1 << 35, false, None);
    assert_eq!(white_en_passant_calculation(&single, pawns), 0);
    // a knight move gives nothing
    let knight = Move::new(PieceType::Knight, 1 << 51, 1 << 35, false, None);
    assert_eq!(white_en_passant_calculation(&knight, pawns), 0);
    // a white double push lets black capture behind it
    let white_push = Move::new(PieceType::Pawn, 1 << 11, 1 << 27, false, None);
    assert_eq!(black_en_passant_calculation(&white_push, 1 << 26), 1 << 19);
    assert_eq!(get_pawn_attack_set(&last_move, pawns, 0, Color::White), 1 << 43);
}

#[test]
fn split_moves_lists_squares_in_order() {
    let moves = split_moves(PieceType::Rook, 1, 0b1010_0000_0100);
    let targets: Vec<u64> = moves.iter().map(|m| m.to).collect();
    assert_eq!(targets, vec![0b100, 0b10_0000_0000, 0b1000_0000_0000]);
    assert!(moves.iter().all(|m| m.from == 1 && m.piece_type == PieceType::Rook));
    assert!(split_moves(PieceType::King, 1, 0).is_empty());
}

#[test]
fn get_square_reads_files_from_a() {
    let a1: u64 = 0b10000000;
    assert!(get_square(a1, 0, 0));
    assert!(!get_square(a1, 7, 0));
    assert!(get_square(1 << 63, 0, 7));
}

#[test]
fn piece_info_constructors() {
    let empty = PieceInfo::new_queen(true, Color::White);
    assert_eq!(empty.positions, 0);
    assert_eq!(PieceInfo::new_king(false, Color::Black).positions, 0x0800_0000_0000_0000);
    assert_eq!(Color::White.opposite(), Color::Black);
}

#[test]
fn zero_attempts_fail_on_the_first_square() {
    let mut rng = StdRng::seed_from_u64(SEED);
    let error = magic_chess::magic::generate_magic_numbers(PieceType::Bishop, &mut rng, 0).err().unwrap();
    assert_eq!(error.square, 0);
    assert_eq!(error.piece, PieceType::Bishop);
}

#[test]
fn blocker_board_rows_hold_every_subset_once() {
    let masks = magic_chess::masks::generate_all_blockermasks(PieceType::Rook);
    let rows = magic_chess::boards::generate_all_blockerboards(&masks);
    assert!(rows.iter().all(|row| row.len() == 4096));
    for s in [0usize, 9, 35] {
        let n = 1usize << masks[s].count_ones();
        let mut boards: Vec<u64> = rows[s][..n].to_vec();
        assert!(boards.iter().all(|b| b & !masks[s] == 0));
        boards.sort();
        boards.dedup();
        assert_eq!(boards.len(), n);
        assert!(rows[s][n..].iter().all(|&b| b == 0));
    }
}

#[test]
fn search_magic_takes_the_first_good_candidate() {
    let tables = initialize(SEED, ATTEMPTS).unwrap();
    let entry = &tables.rook[0];
    let (subsets, attacks) = subsets_and_attacks(PieceType::Rook, 0, entry.mask);
    let bits = entry.bits as u32;
    assert!(magic_chess::magic::search_magic(&subsets, &attacks, &vec![0, 0, 0], bits).is_none());
    let m = entry.magic;
    let draws = vec![0, u64::MAX, 7, m, m, m, u64::MAX, u64::MAX, u64::MAX];
    let (magic, table) = magic_chess::magic::search_magic(&subsets, &attacks, &draws, bits).unwrap();
    assert_eq!(magic, m);
    assert_eq!(table, entry.table);
}
