//! Rays of the sliding pieces and the squares they reach through blockers.
use vstd::prelude::*;
use crate::bits::{bit, file_of, rank_of, on_board, square_at, group_bits, lemma_bits_equal};
use crate::masks::{single_square, square_of, square_index, mask_kind, is_blocker_mask, in_blocker_mask};
use crate::piece::PieceType;

verus! {

broadcast use group_bits;

/// `k` steps of `d`, where `d` is -1, 0 or 1.
pub open spec fn times(k: int, d: int) -> int {
    if d > 0 {
        k
    } else if d < 0 {
        -k
    } else {
        0
    }
}

/// The square `k` steps from `s` in direction (`dr` ranks, `df` files).
pub open spec fn ray_square(s: int, dr: int, df: int, k: int) -> int {
    square_at(rank_of(s) + times(k, dr), file_of(s) + times(k, df))
}

/// Step `k` from `s` is on the board.
pub open spec fn ray_on_board(s: int, dr: int, df: int, k: int) -> bool {
    on_board(rank_of(s) + times(k, dr), file_of(s) + times(k, df))
}

/// Steps 1 to `k` from `s` are on the board and in `pattern`, and steps 1 to
/// `k - 1` are free of `occupancy`.
pub open spec fn ray_open(s: int, dr: int, df: int, k: int, occupancy: u64, pattern: u64) -> bool
    decreases k,
{
    if k <= 0 {
        true
    } else {
        &&& ray_open(s, dr, df, k - 1, occupancy, pattern)
        &&& (k == 1 || !bit(occupancy, ray_square(s, dr, df, k - 1)))
        &&& ray_on_board(s, dr, df, k)
        &&& bit(pattern, ray_square(s, dr, df, k))
    }
}

/// Number of steps from `s` to `t` along direction (`dr`, `df`), if `t` is on that ray.
pub open spec fn ray_distance(s: int, dr: int, df: int, t: int) -> int {
    if dr != 0 {
        times(rank_of(t) - rank_of(s), dr)
    } else {
        times(file_of(t) - file_of(s), df)
    }
}

/// A direction: one of the eight steps to a neighbouring square.
pub open spec fn is_direction(dr: int, df: int) -> bool {
    -1 <= dr <= 1 && -1 <= df <= 1 && (dr != 0 || df != 0)
}

/// Square `t` is reached from `s` along direction (`dr`, `df`): every square
/// up to `t` is in `pattern` and every square before `t` is empty in `occupancy`.
pub open spec fn ray_target(s: int, dr: int, df: int, occupancy: u64, pattern: u64, t: int) -> bool {
    let k = ray_distance(s, dr, df, t);
    k >= 1 && 0 <= t < 64 && t == ray_square(s, dr, df, k) && ray_open(s, dr, df, k, occupancy, pattern)
}

pub proof fn lemma_square_at(r: int, f: int)
    requires
        on_board(r, f),
    ensures
        rank_of(square_at(r, f)) == r,
        file_of(square_at(r, f)) == f,
        0 <= square_at(r, f) < 64,
{
}

pub proof fn lemma_ray_open_prefix(s: int, dr: int, df: int, j: int, k: int, occupancy: u64, pattern: u64)
    requires
        j <= k,
        ray_open(s, dr, df, k, occupancy, pattern),
    ensures
        ray_open(s, dr, df, j, occupancy, pattern),
    decreases k - j,
{
    if j < k {
        lemma_ray_open_prefix(s, dr, df, j, k - 1, occupancy, pattern);
    }
}

/// The squares reached from square `s` along direction (`dr`, `df`), stopping at
/// (and including) the first square of `occupancy`, and at the first square
/// that is off the board or not in `pattern`.
pub fn ray(s: u8, dr: i8, df: i8, occupancy: u64, pattern: u64) -> (r: u64)
    requires
        s < 64,
        is_direction(dr as int, df as int),
    ensures
        forall|t: int| 0 <= t < 64 ==> (#[trigger] bit(r, t) <==> ray_target(s as int, dr as int, df as int, occupancy, pattern, t)),
{
    let ghost sq = s as int;
    let mut result: u64 = 0;
    let mut row: i8 = (s / 8) as i8 + dr;
    let mut col: i8 = (s % 8) as i8 + df;
    let ghost mut k: int = 1;
    let mut blocked = false;
    while !blocked && 0 <= row && row < 8 && 0 <= col && col < 8 && (pattern >> ((8 * row + col) as u64)) & 1 == 1
        invariant
            is_direction(dr as int, df as int),
            0 <= sq < 64,
            1 <= k <= 8,
            row == rank_of(sq) + times(k, dr as int),
            col == file_of(sq) + times(k, df as int),
            ray_open(sq, dr as int, df as int, k - 1, occupancy, pattern),
            k >= 2 ==> bit(occupancy, ray_square(sq, dr as int, df as int, k - 1)) == blocked,
            k == 1 ==> !blocked,
            forall|t: int| 0 <= t < 64 ==> (#[trigger] bit(result, t) <==> ray_target(sq, dr as int, df as int, occupancy, pattern, t)
                && ray_distance(sq, dr as int, df as int, t) < k),
        decreases 8 - k,
    {
        let target = (8 * row + col) as u64;
        proof {
            lemma_square_at(row as int, col as int);
            assert(ray_square(sq, dr as int, df as int, k) == target);
            assert(ray_open(sq, dr as int, df as int, k, occupancy, pattern));
            assert(ray_distance(sq, dr as int, df as int, target as int) == k);
        }
        let ghost old_result = result;
        result = result | (1u64 << target);
        proof {
            assert forall|t: int| 0 <= t < 64 implies (#[trigger] bit(result, t) <==> ray_target(sq, dr as int, df as int, occupancy, pattern, t)
                && ray_distance(sq, dr as int, df as int, t) < k + 1) by {
                assert(bit(result, t) == (bit(old_result, t) || t == target));
            }
        }
        blocked = (occupancy >> target) & 1 == 1;
        row = row + dr;
        col = col + df;
        proof {
            k = k + 1;
        }
    }
    proof {
        assert forall|t: int| 0 <= t < 64 && ray_target(sq, dr as int, df as int, occupancy, pattern, t)
            implies ray_distance(sq, dr as int, df as int, t) < k by {
            let kt = ray_distance(sq, dr as int, df as int, t);
            if kt >= k {
                lemma_ray_open_prefix(sq, dr as int, df as int, k, kt, occupancy, pattern);
            }
        }
    }
    result
}

/// Square `t` is reached from `s` along one of the eight directions, within
/// `pattern` and stopping at the first square of `occupancy`.
pub open spec fn pattern_reach(s: int, occupancy: u64, pattern: u64, t: int) -> bool {
    ||| ray_target(s, 1, 0, occupancy, pattern, t)
    ||| ray_target(s, -1, 0, occupancy, pattern, t)
    ||| ray_target(s, 0, 1, occupancy, pattern, t)
    ||| ray_target(s, 0, -1, occupancy, pattern, t)
    ||| ray_target(s, 1, 1, occupancy, pattern, t)
    ||| ray_target(s, 1, -1, occupancy, pattern, t)
    ||| ray_target(s, -1, 1, occupancy, pattern, t)
    ||| ray_target(s, -1, -1, occupancy, pattern, t)
}

/// Square `t` is attacked by a slider of kind `kind` (a rook for `Rook`, a
/// bishop for any other kind) on `s` when the squares of `occupancy` are taken:
/// every ray stops at, and includes, its first taken square.
pub open spec fn slider_reach(kind: PieceType, s: int, occupancy: u64, t: int) -> bool {
    if kind == PieceType::Rook {
        ||| ray_target(s, 1, 0, occupancy, !0u64, t)
        ||| ray_target(s, -1, 0, occupancy, !0u64, t)
        ||| ray_target(s, 0, 1, occupancy, !0u64, t)
        ||| ray_target(s, 0, -1, occupancy, !0u64, t)
    } else {
        ||| ray_target(s, 1, 1, occupancy, !0u64, t)
        ||| ray_target(s, 1, -1, occupancy, !0u64, t)
        ||| ray_target(s, -1, 1, occupancy, !0u64, t)
        ||| ray_target(s, -1, -1, occupancy, !0u64, t)
    }
}

/// `b` is the attack set of a `kind` slider on `s` through `occupancy`.
pub open spec fn is_attack_set(b: u64, kind: PieceType, s: int, occupancy: u64) -> bool {
    forall|t: int| 0 <= t < 64 ==> (#[trigger] bit(b, t) <==> slider_reach(kind, s, occupancy, t))
}

/// The attack set of a `kind` slider on `s` through `occupancy`, as a bitboard.
pub open spec fn attack_set(kind: PieceType, s: int, occupancy: u64) -> u64 {
    choose|b: u64| is_attack_set(b, kind, s, occupancy)
}

pub proof fn lemma_attack_set(b: u64, kind: PieceType, s: int, occupancy: u64)
    requires
        is_attack_set(b, kind, s, occupancy),
    ensures
        attack_set(kind, s, occupancy) == b,
{
    let a = attack_set(kind, s, occupancy);
    assert(is_attack_set(a, kind, s, occupancy));
    assert forall|i: int| 0 <= i < 64 implies #[trigger] bit(a, i) == bit(b, i) by {
    }
    lemma_bits_equal(a, b);
}

/// (`dr`, `df`) is one of the four directions of a `kind` slider.
pub open spec fn slider_direction(kind: PieceType, dr: int, df: int) -> bool {
    if kind == PieceType::Rook {
        is_direction(dr, df) && (dr == 0 || df == 0)
    } else {
        is_direction(dr, df) && dr != 0 && df != 0
    }
}

proof fn lemma_ray_open_relevant(kind: PieceType, s: int, dr: int, df: int, k: int, mask: u64, occupancy: u64)
    requires
        0 <= s < 64,
        kind == PieceType::Rook || kind == PieceType::Bishop,
        slider_direction(kind, dr, df),
        is_blocker_mask(mask, kind, s),
    ensures
        ray_open(s, dr, df, k, occupancy & mask, !0u64) == ray_open(s, dr, df, k, occupancy, !0u64),
    decreases k,
{
    if k > 0 {
        lemma_ray_open_relevant(kind, s, dr, df, k - 1, mask, occupancy);
        if k >= 2 && ray_on_board(s, dr, df, k) {
            let i = ray_square(s, dr, df, k - 1);
            lemma_square_at(rank_of(s) + times(k - 1, dr), file_of(s) + times(k - 1, df));
            assert(in_blocker_mask(kind, s, i));
            assert(bit(occupancy & mask, i) == bit(occupancy, i));
        }
    }
}

proof fn lemma_ray_target_relevant(kind: PieceType, s: int, dr: int, df: int, mask: u64, occupancy: u64, t: int)
    requires
        0 <= s < 64,
        kind == PieceType::Rook || kind == PieceType::Bishop,
        slider_direction(kind, dr, df),
        is_blocker_mask(mask, kind, s),
    ensures
        ray_target(s, dr, df, occupancy & mask, !0u64, t) == ray_target(s, dr, df, occupancy, !0u64, t),
{
    lemma_ray_open_relevant(kind, s, dr, df, ray_distance(s, dr, df, t), mask, occupancy);
}

/// Squares outside the blocker mask never change an attack set: the attack set
/// through `occupancy` is the one through the mask squares of `occupancy`.
pub proof fn lemma_mask_relevance(kind: PieceType, s: int, mask: u64, occupancy: u64)
    requires
        0 <= s < 64,
        kind == PieceType::Rook || kind == PieceType::Bishop,
        is_blocker_mask(mask, kind, s),
    ensures
        attack_set(kind, s, occupancy & mask) == attack_set(kind, s, occupancy),
{
    let b = attack_set(kind, s, occupancy & mask);
    assert forall|t: int| 0 <= t < 64 implies slider_reach(kind, s, occupancy & mask, t) == slider_reach(kind, s, occupancy, t) by {
        if kind == PieceType::Rook {
            lemma_ray_target_relevant(kind, s, 1, 0, mask, occupancy, t);
            lemma_ray_target_relevant(kind, s, -1, 0, mask, occupancy, t);
            lemma_ray_target_relevant(kind, s, 0, 1, mask, occupancy, t);
            lemma_ray_target_relevant(kind, s, 0, -1, mask, occupancy, t);
        } else {
            lemma_ray_target_relevant(kind, s, 1, 1, mask, occupancy, t);
            lemma_ray_target_relevant(kind, s, 1, -1, mask, occupancy, t);
            lemma_ray_target_relevant(kind, s, -1, 1, mask, occupancy, t);
            lemma_ray_target_relevant(kind, s, -1, -1, mask, occupancy, t);
        }
    }
    lemma_attack_set_exists(kind, s, occupancy & mask);
    lemma_attack_set_exists(kind, s, occupancy);
    assert(is_attack_set(b, kind, s, occupancy));
    lemma_attack_set(b, kind, s, occupancy);
}

/// Every attack set is a bitboard.
pub proof fn lemma_attack_set_exists(kind: PieceType, s: int, occupancy: u64)
    requires
        0 <= s < 64,
    ensures
        is_attack_set(attack_set(kind, s, occupancy), kind, s, occupancy),
{
    lemma_reach_board(kind, s, occupancy, 64);
    assert(is_attack_set(reach_board(kind, s, occupancy, 64), kind, s, occupancy));
}

/// The squares below `n` that a `kind` slider on `s` attacks through `occupancy`.
pub open spec fn reach_board(kind: PieceType, s: int, occupancy: u64, n: int) -> u64
    decreases n,
{
    if n <= 0 {
        0
    } else {
        reach_board(kind, s, occupancy, n - 1) | if slider_reach(kind, s, occupancy, n - 1) {
            1u64 << ((n - 1) as u64)
        } else {
            0u64
        }
    }
}

proof fn lemma_reach_board(kind: PieceType, s: int, occupancy: u64, n: int)
    requires
        0 <= n <= 64,
    ensures
        forall|t: int| 0 <= t < 64 ==> (#[trigger] bit(reach_board(kind, s, occupancy, n), t) <==> t < n && slider_reach(kind, s, occupancy, t)),
    decreases n,
{
    if n > 0 {
        lemma_reach_board(kind, s, occupancy, n - 1);
        let prev = reach_board(kind, s, occupancy, n - 1);
        let add = if slider_reach(kind, s, occupancy, n - 1) {
            1u64 << ((n - 1) as u64)
        } else {
            0u64
        };
        assert(reach_board(kind, s, occupancy, n) == prev | add);
        assert forall|t: int| 0 <= t < 64 implies (#[trigger] bit(reach_board(kind, s, occupancy, n), t) <==> t < n && slider_reach(
            kind,
            s,
            occupancy,
            t,
        )) by {
            assert(bit(prev | add, t) == (bit(prev, t) || bit(add, t)));
        }
    }
}

/// The squares a slider on `square` reaches within `move_pattern` (its rank and
/// file for a rook, its diagonals for a bishop) when the squares of
/// `blockerboard` are taken: each ray stops at, and includes, its first taken
/// square. The slider's own square is never included.
pub fn generate_moveboard_for_square(square: u64, move_pattern: u64, blockerboard: u64) -> (r: u64)
    requires
        single_square(square),
    ensures
        forall|t: int| 0 <= t < 64 ==> (#[trigger] bit(r, t) <==> pattern_reach(square_of(square), blockerboard, move_pattern, t)),
{
    let s = square_index(square);
    let north = ray(s, 1, 0, blockerboard, move_pattern);
    let south = ray(s, -1, 0, blockerboard, move_pattern);
    let west = ray(s, 0, 1, blockerboard, move_pattern);
    let east = ray(s, 0, -1, blockerboard, move_pattern);
    let north_west = ray(s, 1, 1, blockerboard, move_pattern);
    let north_east = ray(s, 1, -1, blockerboard, move_pattern);
    let south_west = ray(s, -1, 1, blockerboard, move_pattern);
    let south_east = ray(s, -1, -1, blockerboard, move_pattern);
    north | south | west | east | north_west | north_east | south_west | south_east
}

/// The attack set of a slider on square `s`: a rook for `Rook`, a bishop for
/// any other kind.
pub fn slider_moveboard(piece_name: PieceType, s: u8, occupancy: u64) -> (r: u64)
    requires
        s < 64,
    ensures
        is_attack_set(r, mask_kind(piece_name), s as int, occupancy),
        r == attack_set(mask_kind(piece_name), s as int, occupancy),
{
    let all: u64 = !0u64;
    let r = if piece_name == PieceType::Rook {
        ray(s, 1, 0, occupancy, all) | ray(s, -1, 0, occupancy, all) | ray(s, 0, 1, occupancy, all) | ray(s, 0, -1, occupancy, all)
    } else {
        ray(s, 1, 1, occupancy, all) | ray(s, 1, -1, occupancy, all) | ray(s, -1, 1, occupancy, all) | ray(s, -1, -1, occupancy, all)
    };
    proof {
        lemma_attack_set(r, mask_kind(piece_name), s as int, occupancy);
    }
    r
}

/// The attack set of every blocker board of `blockerboards` (one row per
/// square), for rooks when `piece_name` is `Rook` and bishops otherwise.
pub fn generate_all_moveboards(blockerboards: &Vec<Vec<u64>>, piece_name: PieceType) -> (r: Vec<Vec<u64>>)
    requires
        blockerboards.len() == 64,
    ensures
        r.len() == 64,
        forall|s: int| 0 <= s < 64 ==> (#[trigger] r[s]).len() == blockerboards[s].len(),
        forall|s: int, j: int| 0 <= s < 64 && 0 <= j < r[s].len() ==> #[trigger] r[s][j] == attack_set(
            mask_kind(piece_name),
            s,
            blockerboards[s][j],
        ),
{
    let mut moveboards: Vec<Vec<u64>> = Vec::new();
    let mut i: u8 = 0;
    while i < 64
        invariant
            i <= 64,
            blockerboards.len() == 64,
            moveboards.len() == i,
            forall|s: int| 0 <= s < i ==> (#[trigger] moveboards[s]).len() == blockerboards[s].len(),
            forall|s: int, j: int| 0 <= s < i && 0 <= j < moveboards[s].len() ==> #[trigger] moveboards[s][j] == attack_set(
                mask_kind(piece_name),
                s,
                blockerboards[s][j],
            ),
        decreases 64 - i,
    {
        let row = &blockerboards[i as usize];
        let mut moves: Vec<u64> = Vec::new();
        let mut j: usize = 0;
        while j < row.len()
            invariant
                i < 64,
                j <= row.len(),
                moves.len() == j,
                forall|k: int| 0 <= k < j ==> #[trigger] moves[k] == attack_set(mask_kind(piece_name), i as int, row[k]),
            decreases row.len() - j,
        {
            moves.push(slider_moveboard(piece_name, i, row[j]));
            j += 1;
        }
        moveboards.push(moves);
        i += 1;
    }
    moveboards
}

} // verus!
