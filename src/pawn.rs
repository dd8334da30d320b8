//! Pawn pushes, captures and en passant for both colors.
use vstd::prelude::*;
use crate::bits::{bit, rank_of, group_bits};
use crate::geometry::{shifted, A_FILE, H_FILE, RANK_TWO, RANK_FOUR, RANK_FIVE, RANK_SEVEN};
use crate::piece::{Color, Move, PieceType};

verus! {

broadcast use group_bits;

const FORWARD: u64 = 8;
const FORWARD_RIGHT: u64 = 7;
const FORWARD_LEFT: u64 = 9;

/// Rank step of a pawn of `color`: up for white, down for black.
pub open spec fn forward(color: Color) -> int {
    match color {
        Color::White => 1,
        Color::Black => -1,
    }
}

/// Square `t` is one step ahead of a pawn of `pawns` and empty.
pub open spec fn single_push_target(color: Color, pawns: u64, empty: u64, t: int) -> bool {
    shifted(pawns, forward(color), 0, t) && bit(empty, t)
}

/// Square `t` is two steps ahead of a pawn of `pawns` on its fourth rank, with
/// both squares in front of the pawn empty.
pub open spec fn double_push_target(color: Color, pawns: u64, empty: u64, t: int) -> bool {
    &&& rank_of(t) == (match color { Color::White => 3int, Color::Black => 4int })
    &&& shifted(pawns, 2 * forward(color), 0, t)
    &&& bit(empty, t)
    &&& bit(empty, t - 8 * forward(color))
}

/// Square `t` is diagonally ahead of a pawn of `pawns`.
pub open spec fn pawn_reach(color: Color, pawns: u64, t: int) -> bool {
    shifted(pawns, forward(color), 1, t) || shifted(pawns, forward(color), -1, t)
}

/// `m` is a double push of a pawn of `color`, from its second rank to its fourth.
pub open spec fn is_double_push(color: Color, m: Move) -> bool {
    let (from_rank, to_rank): (u64, u64) = match color {
        Color::White => (RANK_TWO, RANK_FOUR),
        Color::Black => (RANK_SEVEN, RANK_FIVE),
    };
    m.piece_type == PieceType::Pawn && from_rank & m.from != 0 && to_rank & m.to != 0
}

/// Square `t` is a capture square en passant for pawns of `color` after the
/// opponent's move `m`: the square behind the pawn that `m` pushed two squares,
/// diagonally ahead of one of `pawns`.
pub open spec fn en_passant_target(color: Color, m: Move, pawns: u64, t: int) -> bool {
    &&& is_double_push(color.opposite_spec(), m)
    &&& rank_of(t) == (match color { Color::White => 5int, Color::Black => 2int })
    &&& bit(m.to, t - 8 * forward(color))
    &&& pawn_reach(color, pawns, t)
}

pub fn white_pawn_single_push(pawn_positions: u64, empty_squares: u64) -> (r: u64)
    ensures
        forall|t: int| 0 <= t < 64 ==> (#[trigger] bit(r, t) <==> single_push_target(Color::White, pawn_positions, empty_squares, t)),
{
    (pawn_positions << FORWARD) & empty_squares
}

pub fn white_pawn_double_push(pawns: u64, empty_squares: u64) -> (r: u64)
    ensures
        forall|t: int| 0 <= t < 64 ==> (#[trigger] bit(r, t) <==> double_push_target(Color::White, pawns, empty_squares, t)),
{
    let single_push_squares = white_pawn_single_push(pawns, empty_squares);
    let double_push_squares = white_pawn_single_push(single_push_squares, empty_squares);
    double_push_squares & RANK_FOUR
}

pub fn white_pawn_attacks(pawn_positions: u64, opponent_pieces: u64) -> (r: u64)
    ensures
        forall|t: int| 0 <= t < 64 ==> (#[trigger] bit(r, t) <==> pawn_reach(Color::White, pawn_positions, t) && bit(opponent_pieces, t)),
{
    // towards the H file; a pawn on the H file would wrap onto the A file
    let left_attacks = (pawn_positions << FORWARD_RIGHT) & !A_FILE;
    // towards the A file; a pawn on the A file would wrap onto the H file
    let right_attacks = (pawn_positions << FORWARD_LEFT) & !H_FILE;
    (left_attacks | right_attacks) & opponent_pieces
}

pub fn white_en_passant_calculation(last_move: &Move, pawn_positions: u64) -> (r: u64)
    ensures
        forall|t: int| 0 <= t < 64 ==> (#[trigger] bit(r, t) <==> en_passant_target(Color::White, *last_move, pawn_positions, t)),
{
    let old_rank_check = RANK_SEVEN & last_move.from != 0;
    let new_rank_check = RANK_FIVE & last_move.to != 0;
    if last_move.piece_type == PieceType::Pawn && old_rank_check && new_rank_check {
        // the square the double-pushed pawn passed over
        let attack_position = (RANK_FIVE & last_move.to) << FORWARD;
        white_pawn_attacks(pawn_positions, attack_position)
    } else {
        0
    }
}

pub fn black_pawn_single_push(pawn_positions: u64, empty_squares: u64) -> (r: u64)
    ensures
        forall|t: int| 0 <= t < 64 ==> (#[trigger] bit(r, t) <==> single_push_target(Color::Black, pawn_positions, empty_squares, t)),
{
    (pawn_positions >> FORWARD) & empty_squares
}

pub fn black_pawn_double_push(pawns: u64, empty_squares: u64) -> (r: u64)
    ensures
        forall|t: int| 0 <= t < 64 ==> (#[trigger] bit(r, t) <==> double_push_target(Color::Black, pawns, empty_squares, t)),
{
    let single_push_squares = black_pawn_single_push(pawns, empty_squares);
    let double_push_squares = black_pawn_single_push(single_push_squares, empty_squares);
    double_push_squares & RANK_FIVE
}

pub fn black_pawn_attacks(pawn_positions: u64, opponent_pieces: u64) -> (r: u64)
    ensures
        forall|t: int| 0 <= t < 64 ==> (#[trigger] bit(r, t) <==> pawn_reach(Color::Black, pawn_positions, t) && bit(opponent_pieces, t)),
{
    let left_attacks = (pawn_positions >> FORWARD_LEFT) & !A_FILE;
    let right_attacks = (pawn_positions >> FORWARD_RIGHT) & !H_FILE;
    (left_attacks | right_attacks) & opponent_pieces
}

pub fn black_en_passant_calculation(last_move: &Move, pawn_positions: u64) -> (r: u64)
    ensures
        forall|t: int| 0 <= t < 64 ==> (#[trigger] bit(r, t) <==> en_passant_target(Color::Black, *last_move, pawn_positions, t)),
{
    let old_rank_check = RANK_TWO & last_move.from != 0;
    let new_rank_check = RANK_FOUR & last_move.to != 0;
    if last_move.piece_type == PieceType::Pawn && old_rank_check && new_rank_check {
        let attack_position = (RANK_FOUR & last_move.to) >> FORWARD;
        black_pawn_attacks(pawn_positions, attack_position)
    } else {
        0
    }
}

/// Single and double pushes of the pawns of `color`.
pub fn get_pawn_moves(pawn_positions: u64, empty_squares: u64, color: Color) -> (r: u64)
    ensures
        forall|t: int| 0 <= t < 64 ==> (#[trigger] bit(r, t) <==> single_push_target(color, pawn_positions, empty_squares, t)
            || double_push_target(color, pawn_positions, empty_squares, t)),
{
    let single_pushes;
    let double_pushes;
    if color == Color::White {
        single_pushes = white_pawn_single_push(pawn_positions, empty_squares);
        double_pushes = white_pawn_double_push(pawn_positions, empty_squares);
    } else {
        single_pushes = black_pawn_single_push(pawn_positions, empty_squares);
        double_pushes = black_pawn_double_push(pawn_positions, empty_squares);
    }
    single_pushes | double_pushes
}

/// Captures of the pawns of `color`, en passant included.
pub fn get_pawn_attack_set(last_move: &Move, pawn_positions: u64, opponent_pieces: u64, color: Color) -> (r: u64)
    ensures
        forall|t: int| 0 <= t < 64 ==> (#[trigger] bit(r, t) <==> (pawn_reach(color, pawn_positions, t) && bit(opponent_pieces, t))
            || en_passant_target(color, *last_move, pawn_positions, t)),
{
    if color == Color::White {
        white_pawn_attacks(pawn_positions, opponent_pieces) | white_en_passant_calculation(last_move, pawn_positions)
    } else {
        black_pawn_attacks(pawn_positions, opponent_pieces) | black_en_passant_calculation(last_move, pawn_positions)
    }
}

} // verus!
