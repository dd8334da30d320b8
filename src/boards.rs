//! Counting the squares of a mask, and enumerating the blocker boards of a mask:
//! board number `k` holds the mask squares whose rank among the mask squares
//! (counted from the lowest) is a one digit of `k`.
use vstd::prelude::*;
use crate::bits::{bit, group_bits};
use crate::magic::table_size;

verus! {

broadcast use group_bits;

/// Number of squares of `m` below square `n`.
pub open spec fn count_below(m: u64, n: int) -> int
    decreases n,
{
    if n <= 0 {
        0
    } else {
        count_below(m, n - 1) + if bit(m, n - 1) { 1int } else { 0int }
    }
}

/// Number of squares of `m`.
pub open spec fn popcount(m: u64) -> int {
    count_below(m, 64)
}

/// Binary digit `k` of `index` is one.
pub open spec fn digit(index: u32, k: int) -> bool {
    0 <= k < 32 && (index >> (k as u32)) & 1 == 1
}

/// `b` is blocker board number `index` of `mask`.
pub open spec fn is_blocker_board(b: u64, mask: u64, index: u32) -> bool {
    forall|t: int| 0 <= t < 64 ==> (#[trigger] bit(b, t) <==> bit(mask, t) && digit(index, count_below(mask, t)))
}

/// `b` holds no square outside `mask`.
pub open spec fn is_subset(b: u64, mask: u64) -> bool {
    forall|t: int| 0 <= t < 64 ==> #[trigger] bit(b, t) ==> bit(mask, t)
}

pub proof fn lemma_count_below_bounds(m: u64, n: int)
    ensures
        0 <= count_below(m, n) <= if n < 0 { 0 } else { n },
    decreases n,
{
    if n > 0 {
        lemma_count_below_bounds(m, n - 1);
    }
}

proof fn lemma_low_bit_u32(x: u32)
    by (bit_vector)
    ensures
        x & 1 == 0 || x & 1 == 1,
{
}

pub proof fn lemma_count_below_monotone(m: u64, a: int, b: int)
    requires
        a <= b,
    ensures
        count_below(m, a) <= count_below(m, b),
    decreases b - a,
{
    if a < b {
        lemma_count_below_monotone(m, a, b - 1);
    }
}

/// A square of `m` below `n` has fewer squares of `m` below it than `n` has.
proof fn lemma_count_below_strict(m: u64, t: int, n: int)
    requires
        0 <= t < n,
        bit(m, t),
    ensures
        count_below(m, t) < count_below(m, n),
{
    lemma_count_below_monotone(m, t + 1, n);
}

/// The square of `m` with exactly `d` squares of `m` below it.
proof fn lemma_nth_square(m: u64, d: int, n: int)
    requires
        0 <= d < count_below(m, n),
    ensures
        exists|t: int| 0 <= t < n && bit(m, t) && #[trigger] count_below(m, t) == d,
    decreases n,
{
    if n > 0 {
        if d < count_below(m, n - 1) {
            lemma_nth_square(m, d, n - 1);
            let t = choose|t: int| 0 <= t < n - 1 && bit(m, t) && #[trigger] count_below(m, t) == d;
        } else {
            assert(bit(m, n - 1) && count_below(m, n - 1) == d);
        }
    }
}

proof fn bv_digit_or(x: u32, k: u32, d: u32)
    by (bit_vector)
    requires
        k < 32,
        d < 32,
    ensures
        ((x | (1u32 << k)) >> d) & 1 == 1 <==> ((x >> d) & 1 == 1 || d == k),
{
}

proof fn bv_digit_high(x: u32, k: u32, d: u32)
    by (bit_vector)
    requires
        k <= 12,
        x < (1u32 << k),
        k <= d < 32,
    ensures
        !((x >> d) & 1 == 1),
{
}

proof fn bv_or_bound(x: u32, k: u32)
    by (bit_vector)
    requires
        k < 12,
        x < (1u32 << k),
    ensures
        (x | (1u32 << k)) < (1u32 << (k + 1)),
        (1u32 << k) < (1u32 << (k + 1)),
{
}

proof fn bv_sizes(n: u32)
    by (bit_vector)
    requires
        n <= 12,
    ensures
        (1u32 << n) as u64 == 1u64 << (n as u64),
{
}

proof fn bv_digits_equal(x: u32, y: u32)
    by (bit_vector)
    requires
        (x >> 0u32) & 1 == (y >> 0u32) & 1,
        (x >> 1u32) & 1 == (y >> 1u32) & 1,
        (x >> 2u32) & 1 == (y >> 2u32) & 1,
        (x >> 3u32) & 1 == (y >> 3u32) & 1,
        (x >> 4u32) & 1 == (y >> 4u32) & 1,
        (x >> 5u32) & 1 == (y >> 5u32) & 1,
        (x >> 6u32) & 1 == (y >> 6u32) & 1,
        (x >> 7u32) & 1 == (y >> 7u32) & 1,
        (x >> 8u32) & 1 == (y >> 8u32) & 1,
        (x >> 9u32) & 1 == (y >> 9u32) & 1,
        (x >> 10u32) & 1 == (y >> 10u32) & 1,
        (x >> 11u32) & 1 == (y >> 11u32) & 1,
        (x >> 12u32) & 1 == (y >> 12u32) & 1,
        (x >> 13u32) & 1 == (y >> 13u32) & 1,
        (x >> 14u32) & 1 == (y >> 14u32) & 1,
        (x >> 15u32) & 1 == (y >> 15u32) & 1,
        (x >> 16u32) & 1 == (y >> 16u32) & 1,
        (x >> 17u32) & 1 == (y >> 17u32) & 1,
        (x >> 18u32) & 1 == (y >> 18u32) & 1,
        (x >> 19u32) & 1 == (y >> 19u32) & 1,
        (x >> 20u32) & 1 == (y >> 20u32) & 1,
        (x >> 21u32) & 1 == (y >> 21u32) & 1,
        (x >> 22u32) & 1 == (y >> 22u32) & 1,
        (x >> 23u32) & 1 == (y >> 23u32) & 1,
        (x >> 24u32) & 1 == (y >> 24u32) & 1,
        (x >> 25u32) & 1 == (y >> 25u32) & 1,
        (x >> 26u32) & 1 == (y >> 26u32) & 1,
        (x >> 27u32) & 1 == (y >> 27u32) & 1,
        (x >> 28u32) & 1 == (y >> 28u32) & 1,
        (x >> 29u32) & 1 == (y >> 29u32) & 1,
        (x >> 30u32) & 1 == (y >> 30u32) & 1,
        (x >> 31u32) & 1 == (y >> 31u32) & 1,
    ensures
        x == y,
{
}

proof fn lemma_digit_agrees(x: u32, y: u32, d: u32)
    requires
        d < 32,
        digit(x, d as int) == digit(y, d as int),
    ensures
        (x >> d) & 1 == (y >> d) & 1,
{
    lemma_low_bit_u32(x >> d);
    lemma_low_bit_u32(y >> d);
}

/// The number of the blocker board of `m` that holds the squares of `b` below `n`.
pub open spec fn board_number(b: u64, m: u64, n: int) -> u32
    decreases n,
{
    if n <= 0 {
        0
    } else if bit(m, n - 1) && bit(b, n - 1) && 0 <= count_below(m, n - 1) < 32 {
        board_number(b, m, n - 1) | (1u32 << (count_below(m, n - 1) as u32))
    } else {
        board_number(b, m, n - 1)
    }
}

proof fn lemma_board_number(b: u64, m: u64, n: int)
    requires
        0 <= n <= 64,
        popcount(m) <= 12,
    ensures
        board_number(b, m, n) < (1u32 << (count_below(m, n) as u32)),
        forall|t: int| 0 <= t < n && bit(m, t) ==> (digit(board_number(b, m, n), #[trigger] count_below(m, t)) <==> bit(b, t)),
    decreases n,
{
    lemma_count_below_bounds(m, n);
    lemma_count_below_monotone(m, n, 64);
    if n == 0 {
        assert(0u32 < (1u32 << 0u32)) by (bit_vector);
    }
    if n > 0 {
        lemma_board_number(b, m, n - 1);
        lemma_count_below_bounds(m, n - 1);
        let c = board_number(b, m, n - 1);
        let k = count_below(m, n - 1);
        assert forall|t: int| 0 <= t < n - 1 && bit(m, t) implies count_below(m, t) < k by {
            lemma_count_below_strict(m, t, n - 1);
        }
        if bit(m, n - 1) {
            bv_or_bound(c, k as u32);
            assert(count_below(m, n) as u32 == (k as u32 + 1) as u32);
            if bit(b, n - 1) {
                assert forall|t: int| 0 <= t < n && bit(m, t) implies (digit(board_number(b, m, n), #[trigger] count_below(m, t)) <==> bit(b, t)) by {
                    lemma_count_below_bounds(m, t);
                    bv_digit_or(c, k as u32, count_below(m, t) as u32);
                }
            } else {
                bv_digit_high(c, k as u32, k as u32);
            }
        }
    }
}

/// Every subset of a mask is one of its numbered blocker boards.
pub proof fn lemma_blocker_boards_cover(b: u64, mask: u64)
    requires
        popcount(mask) <= 12,
        is_subset(b, mask),
    ensures
        exists|j: u32| j < table_size(popcount(mask) as u32) && #[trigger] is_blocker_board(b, mask, j),
{
    let j = board_number(b, mask, 64);
    lemma_board_number(b, mask, 64);
    lemma_count_below_bounds(mask, 64);
    bv_sizes(popcount(mask) as u32);
    assert forall|t: int| 0 <= t < 64 implies (#[trigger] bit(b, t) <==> bit(mask, t) && digit(j, count_below(mask, t))) by {
    }
    assert(is_blocker_board(b, mask, j));
}

/// Blocker boards with different numbers below `2^popcount(mask)` differ, and
/// one number gives one board.
pub proof fn lemma_blocker_boards_distinct(b1: u64, b2: u64, mask: u64, j1: u32, j2: u32)
    requires
        popcount(mask) <= 12,
        j1 < table_size(popcount(mask) as u32),
        j2 < table_size(popcount(mask) as u32),
        is_blocker_board(b1, mask, j1),
        is_blocker_board(b2, mask, j2),
    ensures
        b1 == b2 <==> j1 == j2,
{
    let n = popcount(mask);
    lemma_count_below_bounds(mask, 64);
    bv_sizes(n as u32);
    if j1 == j2 {
        assert forall|t: int| 0 <= t < 64 implies #[trigger] bit(b1, t) == bit(b2, t) by {
        }
        crate::bits::lemma_bits_equal(b1, b2);
    }
    if b1 == b2 {
        assert forall|d: u32| d < 32 implies digit(j1, d as int) == digit(j2, d as int) by {
            if (d as int) < n {
                lemma_nth_square(mask, d as int, 64);
                let t = choose|t: int| 0 <= t < 64 && bit(mask, t) && #[trigger] count_below(mask, t) == d as int;
                assert(bit(b1, t) == bit(b2, t));
            } else {
                bv_digit_high(j1, n as u32, d);
                bv_digit_high(j2, n as u32, d);
            }
        }
        lemma_digit_agrees(j1, j2, 0);
        lemma_digit_agrees(j1, j2, 1);
        lemma_digit_agrees(j1, j2, 2);
        lemma_digit_agrees(j1, j2, 3);
        lemma_digit_agrees(j1, j2, 4);
        lemma_digit_agrees(j1, j2, 5);
        lemma_digit_agrees(j1, j2, 6);
        lemma_digit_agrees(j1, j2, 7);
        lemma_digit_agrees(j1, j2, 8);
        lemma_digit_agrees(j1, j2, 9);
        lemma_digit_agrees(j1, j2, 10);
        lemma_digit_agrees(j1, j2, 11);
        lemma_digit_agrees(j1, j2, 12);
        lemma_digit_agrees(j1, j2, 13);
        lemma_digit_agrees(j1, j2, 14);
        lemma_digit_agrees(j1, j2, 15);
        lemma_digit_agrees(j1, j2, 16);
        lemma_digit_agrees(j1, j2, 17);
        lemma_digit_agrees(j1, j2, 18);
        lemma_digit_agrees(j1, j2, 19);
        lemma_digit_agrees(j1, j2, 20);
        lemma_digit_agrees(j1, j2, 21);
        lemma_digit_agrees(j1, j2, 22);
        lemma_digit_agrees(j1, j2, 23);
        lemma_digit_agrees(j1, j2, 24);
        lemma_digit_agrees(j1, j2, 25);
        lemma_digit_agrees(j1, j2, 26);
        lemma_digit_agrees(j1, j2, 27);
        lemma_digit_agrees(j1, j2, 28);
        lemma_digit_agrees(j1, j2, 29);
        lemma_digit_agrees(j1, j2, 30);
        lemma_digit_agrees(j1, j2, 31);
        bv_digits_equal(j1, j2);
    }
}

/// The number of squares of `m`.
pub fn count_squares(m: u64) -> (r: u32)
    ensures
        r == popcount(m),
{
    let mut n: u32 = 0;
    let mut i: u64 = 0;
    while i < 64
        invariant
            i <= 64,
            n == count_below(m, i as int),
        decreases 64 - i,
    {
        proof {
            lemma_count_below_bounds(m, i as int);
        }
        if (m >> i) & 1 == 1 {
            n += 1;
        }
        i += 1;
    }
    n
}

/// Blocker board number `index` of `blockermask`.
pub fn generate_blockerboard(index: u32, blockermask: u64) -> (r: u64)
    ensures
        is_blocker_board(r, blockermask, index),
{
    let mut blockerboard = blockermask;
    let mut bitindex: u8 = 0;
    let mut i: u64 = 0;
    while i < 64
        invariant
            i <= 64,
            bitindex == count_below(blockermask, i as int),
            forall|t: int| 0 <= t < i ==> (#[trigger] bit(blockerboard, t) <==> bit(blockermask, t) && digit(index, count_below(blockermask, t))),
            forall|t: int| i <= t < 64 ==> (#[trigger] bit(blockerboard, t) <==> bit(blockermask, t)),
        decreases 64 - i,
    {
        proof {
            lemma_count_below_bounds(blockermask, i as int);
        }
        if (blockermask >> i) & 1 == 1 {
            proof {
                lemma_low_bit_u32(index >> (bitindex as u32));
            }
            // digit `bitindex` of the index decides whether this mask square is kept
            if bitindex >= 32 || (index >> (bitindex as u32)) & 1 == 0 {
                blockerboard = blockerboard & !(1u64 << i);
            }
            assert(bit(blockerboard, i as int) <==> digit(index, bitindex as int));
            bitindex += 1;
        }
        i += 1;
    }
    blockerboard
}

/// Fills row `square` of `blockerboards` with the blocker boards of the mask of
/// `square`, numbered from 0; the rest of the row, and every other row, stay as
/// they were.
pub fn generate_blockerboards_for_square(square: u8, blockermask: &[u64; 64], blockerboards: &mut Vec<Vec<u64>>)
    requires
        square < 64,
        square < old(blockerboards).len(),
        popcount(blockermask[square as int]) <= 12,
        old(blockerboards)[square as int].len() >= table_size(popcount(blockermask[square as int]) as u32),
    ensures
        final(blockerboards).len() == old(blockerboards).len(),
        forall|j: int| 0 <= j < old(blockerboards).len() && j != square ==> (#[trigger] final(blockerboards)[j])@ == old(blockerboards)[j]@,
        final(blockerboards)[square as int].len() == old(blockerboards)[square as int].len(),
        forall|k: int| 0 <= k < old(blockerboards)[square as int].len() ==> if k < table_size(popcount(blockermask[square as int]) as u32) {
            is_blocker_board(#[trigger] final(blockerboards)[square as int][k], blockermask[square as int], k as u32)
        } else {
            final(blockerboards)[square as int][k] == old(blockerboards)[square as int][k]
        },
{
    let mask = blockermask[square as usize];
    let bits = count_squares(mask);
    proof {
        lemma_table_size_bound(bits);
    }
    let count: usize = 1usize << (bits as usize);
    let ghost old_row = blockerboards[square as int]@;
    let row = &mut blockerboards[square as usize];
    let mut i: usize = 0;
    while i < count
        invariant
            i <= count,
            count == table_size(bits),
            bits == popcount(mask),
            row@.len() == old_row.len(),
            count <= old_row.len(),
            forall|k: int| 0 <= k < old_row.len() ==> if k < i {
                is_blocker_board(#[trigger] row@[k], mask, k as u32)
            } else {
                row@[k] == old_row[k]
            },
        decreases count - i,
    {
        row.set(i, generate_blockerboard(i as u32, mask));
        i += 1;
    }
}

proof fn lemma_table_size_monotone(a: u32, b: u32)
    requires
        a <= b <= 12,
    ensures
        table_size(a) <= table_size(b),
{
    assert((1u64 << (a as u64)) <= (1u64 << (b as u64))) by (bit_vector)
        requires
            a <= b <= 12,
    ;
}

pub proof fn lemma_table_size_bound(bits: u32)
    requires
        bits <= 12,
    ensures
        (1usize << (bits as usize)) as int == table_size(bits),
        1 <= table_size(bits) <= 4096,
{
    assert((1usize << (bits as usize)) as int == (1u64 << (bits as u64)) as int && (1u64 << (bits as u64)) <= 4096
        && (1u64 << (bits as u64)) >= 1) by (bit_vector)
        requires
            bits <= 12,
    ;
}

/// For every square, the blocker boards of its mask, all rows padded with 0 to
/// the length of the longest.
pub fn generate_all_blockerboards(blockermask: &[u64; 64]) -> (r: Vec<Vec<u64>>)
    requires
        forall|s: int| 0 <= s < 64 ==> popcount(#[trigger] blockermask[s]) <= 12,
    ensures
        r.len() == 64,
        forall|s: int| 0 <= s < 64 ==> (#[trigger] r[s]).len() == r[0].len(),
        forall|s: int, k: int| 0 <= s < 64 && 0 <= k < r[s].len() ==> if k < table_size(popcount(blockermask[s]) as u32) {
            is_blocker_board(#[trigger] r[s][k], blockermask[s], k as u32)
        } else {
            r[s][k] == 0
        },
        forall|s: int| 0 <= s < 64 ==> table_size(popcount(#[trigger] blockermask[s]) as u32) <= r[s].len(),
        exists|s: int| 0 <= s < 64 && r[0].len() == table_size(popcount(#[trigger] blockermask[s]) as u32),
        forall|s: int, b: u64| 0 <= s < 64 && #[trigger] is_subset(b, blockermask[s]) ==> exists|k: int|
            0 <= k < table_size(popcount(blockermask[s]) as u32) && #[trigger] r[s][k] == b,
        forall|s: int, k1: int, k2: int| 0 <= s < 64 && 0 <= k1 < k2 < table_size(popcount(blockermask[s]) as u32) ==> #[trigger] r[s][k1]
            != #[trigger] r[s][k2],
{
    let mut max_bits: u32 = 0;
    let ghost mut widest: int = 0;
    let mut i: usize = 0;
    while i < 64
        invariant
            i <= 64,
            max_bits <= 12,
            forall|s: int| 0 <= s < 64 ==> popcount(#[trigger] blockermask[s]) <= 12,
            forall|s: int| 0 <= s < i ==> popcount(#[trigger] blockermask[s]) <= max_bits,
            i > 0 ==> 0 <= widest < i && popcount(blockermask[widest]) == max_bits,
        decreases 64 - i,
    {
        let bits = count_squares(blockermask[i]);
        if i == 0 || bits > max_bits {
            max_bits = bits;
            proof {
                widest = i as int;
            }
        }
        i += 1;
    }
    proof {
        lemma_table_size_bound(max_bits);
    }
    let row_len: usize = 1usize << (max_bits as usize);
    let mut blockerboards: Vec<Vec<u64>> = Vec::new();
    let mut square: u8 = 0;
    while square < 64
        invariant
            square <= 64,
            blockerboards.len() == square,
            forall|s: int| 0 <= s < square ==> (#[trigger] blockerboards[s])@ == Seq::new(row_len as nat, |k: int| 0u64),
        decreases 64 - square,
    {
        let row: Vec<u64> = vec![0u64; row_len];
        proof {
            assert forall|k: int| 0 <= k < row_len implies row@[k] == 0u64 by {
                assert(cloned(0u64, row@[k]));
            }
            assert(row@ =~= Seq::new(row_len as nat, |k: int| 0u64));
        }
        blockerboards.push(row);
        square += 1;
    }
    let mut square: u8 = 0;
    while square < 64
        invariant
            square <= 64,
            blockerboards.len() == 64,
            max_bits <= 12,
            row_len == table_size(max_bits),
            forall|s: int| 0 <= s < 64 ==> popcount(#[trigger] blockermask[s]) <= max_bits,
            forall|s: int| 0 <= s < 64 ==> (#[trigger] blockerboards[s]).len() == row_len,
            forall|s: int, k: int| square <= s < 64 && 0 <= k < row_len ==> #[trigger] blockerboards[s][k] == 0,
            forall|s: int, k: int| 0 <= s < square && 0 <= k < row_len ==> if k < table_size(popcount(blockermask[s]) as u32) {
                is_blocker_board(#[trigger] blockerboards[s][k], blockermask[s], k as u32)
            } else {
                blockerboards[s][k] == 0
            },
        decreases 64 - square,
    {
        proof {
            lemma_count_below_bounds(blockermask[square as int], 64);
            lemma_table_size_monotone(popcount(blockermask[square as int]) as u32, max_bits);
        }
        generate_blockerboards_for_square(square, blockermask, &mut blockerboards);
        square += 1;
    }
    proof {
        assert forall|s: int| 0 <= s < 64 implies table_size(popcount(#[trigger] blockermask[s]) as u32) <= blockerboards[s].len() by {
            lemma_count_below_bounds(blockermask[s], 64);
            lemma_table_size_monotone(popcount(blockermask[s]) as u32, max_bits);
        }
        assert(blockerboards[0].len() == table_size(popcount(blockermask[widest]) as u32));
        assert forall|s: int, b: u64| 0 <= s < 64 && #[trigger] is_subset(b, blockermask[s]) implies exists|k: int|
            0 <= k < table_size(popcount(blockermask[s]) as u32) && #[trigger] blockerboards[s][k] == b by {
            lemma_blocker_boards_cover(b, blockermask[s]);
            let j = choose|j: u32| j < table_size(popcount(blockermask[s]) as u32) && #[trigger] is_blocker_board(b, blockermask[s], j);
            lemma_count_below_bounds(blockermask[s], 64);
            lemma_table_size_monotone(popcount(blockermask[s]) as u32, max_bits);
            assert(is_blocker_board(blockerboards[s][j as int], blockermask[s], j));
            lemma_blocker_boards_distinct(blockerboards[s][j as int], b, blockermask[s], j, j);
        }
        assert forall|s: int, k1: int, k2: int| 0 <= s < 64 && 0 <= k1 < k2 < table_size(popcount(blockermask[s]) as u32) implies #[trigger] blockerboards[s][k1]
            != #[trigger] blockerboards[s][k2] by {
            lemma_count_below_bounds(blockermask[s], 64);
            lemma_table_size_monotone(popcount(blockermask[s]) as u32, max_bits);
            lemma_table_size_bound(popcount(blockermask[s]) as u32);
            assert(is_blocker_board(blockerboards[s][k1], blockermask[s], k1 as u32));
            assert(is_blocker_board(blockerboards[s][k2], blockermask[s], k2 as u32));
            lemma_blocker_boards_distinct(blockerboards[s][k1], blockerboards[s][k2], blockermask[s], k1 as u32, k2 as u32);
        }
    }
    blockerboards
}

} // verus!
