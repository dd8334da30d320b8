//! Knight moves: eight shifts, each guarded so that no knight wraps around an
//! edge of the board.
use vstd::prelude::*;
use crate::bits::{bit, group_bits};
use crate::piece::{PieceInfo, PieceType, Move, split_moves, is_move_list};
use crate::geometry::{is_shift_of, shifted, A_FILE, B_FILE, G_FILE, H_FILE, RANK_ONE, RANK_TWO, RANK_SEVEN, RANK_EIGHT};

verus! {

broadcast use group_bits;

/// Square `t` is a knight's jump away from a square of `p`.
pub open spec fn knight_reach(p: u64, t: int) -> bool {
    shifted(p, 2, 1, t) || shifted(p, 1, 2, t) || shifted(p, 2, -1, t) || shifted(p, 1, -2, t)
        || shifted(p, -1, 2, t) || shifted(p, -2, 1, t) || shifted(p, -1, -2, t) || shifted(
        p,
        -2,
        -1,
        t,
    )
}

/// Two ranks up and one file towards the A file.
pub fn knight_move_nnw(knight_position: u64) -> (r: u64)
    ensures
        is_shift_of(r, knight_position, 2, 1),
{
    (knight_position & !A_FILE & !(RANK_EIGHT | RANK_SEVEN)) << 17u64
}

/// One rank up and two files towards the A file.
pub fn knight_move_nww(knight_position: u64) -> (r: u64)
    ensures
        is_shift_of(r, knight_position, 1, 2),
{
    (knight_position & !(A_FILE | B_FILE) & !RANK_EIGHT) << 10u64
}

/// Two ranks up and one file towards the H file.
pub fn knight_move_nne(knight_position: u64) -> (r: u64)
    ensures
        is_shift_of(r, knight_position, 2, -1),
{
    (knight_position & !H_FILE & !(RANK_EIGHT | RANK_SEVEN)) << 15u64
}

/// One rank up and two files towards the H file.
pub fn knight_move_nee(knight_position: u64) -> (r: u64)
    ensures
        is_shift_of(r, knight_position, 1, -2),
{
    (knight_position & !(G_FILE | H_FILE) & !RANK_EIGHT) << 6u64
}

/// One rank down and two files towards the A file.
pub fn knight_move_sww(knight_position: u64) -> (r: u64)
    ensures
        is_shift_of(r, knight_position, -1, 2),
{
    (knight_position & !(A_FILE | B_FILE) & !RANK_ONE) >> 6u64
}

/// Two ranks down and one file towards the A file.
pub fn knight_move_ssw(knight_position: u64) -> (r: u64)
    ensures
        is_shift_of(r, knight_position, -2, 1),
{
    (knight_position & !A_FILE & !(RANK_ONE | RANK_TWO)) >> 15u64
}

/// One rank down and two files towards the H file.
pub fn knight_move_see(knight_position: u64) -> (r: u64)
    ensures
        is_shift_of(r, knight_position, -1, -2),
{
    (knight_position & !(G_FILE | H_FILE) & !RANK_ONE) >> 10u64
}

/// Two ranks down and one file towards the H file.
pub fn knight_move_sse(knight_position: u64) -> (r: u64)
    ensures
        is_shift_of(r, knight_position, -2, -1),
{
    (knight_position & !H_FILE & !(RANK_ONE | RANK_TWO)) >> 17u64
}

/// Every square a knight of `knight_position` can jump to.
pub fn all_knight_moves(knight_position: u64) -> (r: u64)
    ensures
        forall|t: int| 0 <= t < 64 ==> (#[trigger] bit(r, t) <==> knight_reach(knight_position, t)),
{
    let nee = knight_move_nee(knight_position);
    let nne = knight_move_nne(knight_position);
    let nnw = knight_move_nnw(knight_position);
    let nww = knight_move_nww(knight_position);
    let see = knight_move_see(knight_position);
    let sse = knight_move_sse(knight_position);
    let ssw = knight_move_ssw(knight_position);
    let sww = knight_move_sww(knight_position);
    nee | nne | nnw | nww | see | sse | ssw | sww
}

/// The jumps that land on an empty square.
pub fn get_knight_soft_moves(all_knight_moves: u64, empty_squares: u64) -> (r: u64)
    ensures
        forall|t: int| 0 <= t < 64 ==> (#[trigger] bit(r, t) <==> bit(all_knight_moves, t) && bit(empty_squares, t)),
{
    all_knight_moves & empty_squares
}

/// The jumps that land on an opponent's piece.
pub fn get_knight_attacks(all_knight_moves: u64, opponent_pieces: u64) -> (r: u64)
    ensures
        forall|t: int| 0 <= t < 64 ==> (#[trigger] bit(r, t) <==> bit(all_knight_moves, t) && bit(opponent_pieces, t)),
{
    all_knight_moves & opponent_pieces
}

/// Fills in the moves (onto `empty_squares`) and attacks (onto
/// `opponent_pieces`) of the knights of `knights`.
pub fn set_moves_attacks_knights(knights: &mut PieceInfo, opponent_pieces: u64, empty_squares: u64)
    ensures
        final(knights).positions == old(knights).positions,
        final(knights).color == old(knights).color,
        final(knights).piece_type == old(knights).piece_type,
        forall|t: int| 0 <= t < 64 ==> (#[trigger] bit(final(knights).moves, t) <==> knight_reach(old(knights).positions, t) && bit(empty_squares, t)),
        forall|t: int| 0 <= t < 64 ==> (#[trigger] bit(final(knights).attacks, t) <==> knight_reach(old(knights).positions, t) && bit(opponent_pieces, t)),
{
    let all_knight_moves = all_knight_moves(knights.positions);
    knights.moves = get_knight_soft_moves(all_knight_moves, empty_squares);
    knights.attacks = get_knight_attacks(all_knight_moves, opponent_pieces);
}

/// Fills in the moves and attacks of `knights`, and lists one move to each of
/// those squares.
pub fn calculate_individual_knight_moves(knights: &mut PieceInfo, opponent_pieces: u64, empty_squares: u64) -> (r: Vec<Move>)
    ensures
        final(knights).positions == old(knights).positions,
        final(knights).color == old(knights).color,
        final(knights).piece_type == old(knights).piece_type,
        forall|t: int| 0 <= t < 64 ==> (#[trigger] bit(final(knights).moves, t) <==> knight_reach(old(knights).positions, t) && bit(empty_squares, t)),
        forall|t: int| 0 <= t < 64 ==> (#[trigger] bit(final(knights).attacks, t) <==> knight_reach(old(knights).positions, t) && bit(opponent_pieces, t)),
        is_move_list(r@, PieceType::Knight, old(knights).positions, final(knights).moves | final(knights).attacks),
{
    set_moves_attacks_knights(knights, opponent_pieces, empty_squares);
    let knight_moves = knights.moves | knights.attacks;
    split_moves(PieceType::Knight, knights.positions, knight_moves)
}

} // verus!
