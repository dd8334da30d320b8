//! King moves: one square in each of the eight directions, guarded against
//! wrapping around an edge.
use vstd::prelude::*;
use crate::bits::{bit, group_bits};
use crate::geometry::{is_shift_of, shifted, A_FILE, H_FILE, RANK_ONE, RANK_EIGHT};
use crate::piece::{PieceInfo, PieceType, Move, split_moves, is_move_list};

verus! {

broadcast use group_bits;

/// Square `t` is next to (also diagonally) a square of `p`.
pub open spec fn king_reach(p: u64, t: int) -> bool {
    shifted(p, 0, 1, t) || shifted(p, 0, -1, t) || shifted(p, 1, -1, t) || shifted(p, 1, 0, t)
        || shifted(p, 1, 1, t) || shifted(p, -1, -1, t) || shifted(p, -1, 0, t) || shifted(
        p,
        -1,
        1,
        t,
    )
}

/// Squares a king of `p` reaches that no king of `p` stands on.
pub open spec fn king_targets(p: u64, t: int) -> bool {
    king_reach(p, t) && !bit(p, t)
}

/// One file towards the H file.
pub fn king_move_east(king_position: u64) -> (r: u64)
    ensures
        is_shift_of(r, king_position, 0, -1),
{
    (king_position & !H_FILE) >> 1u64
}

/// One file towards the A file.
pub fn king_move_west(king_position: u64) -> (r: u64)
    ensures
        is_shift_of(r, king_position, 0, 1),
{
    (king_position & !A_FILE) << 1u64
}

/// One rank up.
pub fn king_moves_north(king_position_ew: u64) -> (r: u64)
    ensures
        is_shift_of(r, king_position_ew, 1, 0),
{
    (king_position_ew & !RANK_EIGHT) << 8u64
}

/// One rank down.
pub fn king_moves_south(king_position_ew: u64) -> (r: u64)
    ensures
        is_shift_of(r, king_position_ew, -1, 0),
{
    (king_position_ew & !RANK_ONE) >> 8u64
}

/// Every square next to a king of `king_position`, other than the kings' own squares.
pub fn all_king_moves(king_position: u64) -> (r: u64)
    ensures
        forall|t: int| 0 <= t < 64 ==> (#[trigger] bit(r, t) <==> king_targets(king_position, t)),
{
    let east = king_move_east(king_position);
    let west = king_move_west(king_position);
    let king_position_ew = king_position | east | west;
    let north = king_moves_north(king_position_ew);
    let south = king_moves_south(king_position_ew);
    king_position ^ (king_position_ew | north | south)
}

/// The moves that land on an empty square.
pub fn get_king_soft_moves(all_king_moves: u64, empty_squares: u64) -> (r: u64)
    ensures
        forall|t: int| 0 <= t < 64 ==> (#[trigger] bit(r, t) <==> bit(all_king_moves, t) && bit(empty_squares, t)),
{
    all_king_moves & empty_squares
}

/// The moves that land on an opponent's piece.
pub fn get_king_attacks(all_king_moves: u64, opponent_pieces: u64) -> (r: u64)
    ensures
        forall|t: int| 0 <= t < 64 ==> (#[trigger] bit(r, t) <==> bit(all_king_moves, t) && bit(opponent_pieces, t)),
{
    all_king_moves & opponent_pieces
}

/// Fills in the moves (onto `empty_squares`) and attacks (onto
/// `opponent_pieces`) of the kings of `king`.
pub fn set_moves_attacks_kings(king: &mut PieceInfo, opponent_pieces: u64, empty_squares: u64)
    ensures
        final(king).positions == old(king).positions,
        final(king).color == old(king).color,
        final(king).piece_type == old(king).piece_type,
        forall|t: int| 0 <= t < 64 ==> (#[trigger] bit(final(king).moves, t) <==> king_targets(old(king).positions, t) && bit(empty_squares, t)),
        forall|t: int| 0 <= t < 64 ==> (#[trigger] bit(final(king).attacks, t) <==> king_targets(old(king).positions, t) && bit(opponent_pieces, t)),
{
    let all_king_moves = all_king_moves(king.positions);
    king.moves = get_king_soft_moves(all_king_moves, empty_squares);
    king.attacks = get_king_attacks(all_king_moves, opponent_pieces);
}

/// Fills in the moves and attacks of `king`, and lists one move to each of
/// those squares.
pub fn calculate_individual_king_moves(king: &mut PieceInfo, opponent_pieces: u64, empty_squares: u64) -> (r: Vec<Move>)
    ensures
        final(king).positions == old(king).positions,
        final(king).color == old(king).color,
        final(king).piece_type == old(king).piece_type,
        forall|t: int| 0 <= t < 64 ==> (#[trigger] bit(final(king).moves, t) <==> king_targets(old(king).positions, t) && bit(empty_squares, t)),
        forall|t: int| 0 <= t < 64 ==> (#[trigger] bit(final(king).attacks, t) <==> king_targets(old(king).positions, t) && bit(opponent_pieces, t)),
        is_move_list(r@, PieceType::King, old(king).positions, final(king).moves | final(king).attacks),
{
    set_moves_attacks_kings(king, opponent_pieces, empty_squares);
    let king_moves = king.moves | king.attacks;
    split_moves(PieceType::King, king.positions, king_moves)
}

} // verus!
