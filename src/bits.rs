//! Bit-level view of a bitboard: square `i` (0..64) is set when bit `i` is one.
//! Square `i` lies on rank `i / 8` and on file index `i % 8`, where file index 0
//! is the H file (least significant bit of a byte) and 7 is the A file.
use vstd::prelude::*;

verus! {

/// Whether square `i` is set in bitboard `b`.
pub open spec fn bit(b: u64, i: int) -> bool {
    0 <= i < 64 && (b >> (i as u64)) & 1 == 1
}

pub open spec fn rank_of(i: int) -> int {
    i / 8
}

pub open spec fn file_of(i: int) -> int {
    i % 8
}

pub open spec fn on_board(rank: int, file: int) -> bool {
    0 <= rank < 8 && 0 <= file < 8
}

pub open spec fn square_at(rank: int, file: int) -> int {
    8 * rank + file
}

/// `b` is the bitboard of exactly the square `s`.
pub open spec fn is_square(b: u64, s: int) -> bool {
    0 <= s < 64 && forall|i: int| 0 <= i < 64 ==> (#[trigger] bit(b, i) <==> i == s)
}

proof fn bv_and(a: u64, b: u64, i: u64)
    by (bit_vector)
    requires
        i < 64,
    ensures
        ((a & b) >> i) & 1 == 1 <==> ((a >> i) & 1 == 1 && (b >> i) & 1 == 1),
{
}

proof fn bv_or(a: u64, b: u64, i: u64)
    by (bit_vector)
    requires
        i < 64,
    ensures
        ((a | b) >> i) & 1 == 1 <==> ((a >> i) & 1 == 1 || (b >> i) & 1 == 1),
{
}

proof fn bv_xor(a: u64, b: u64, i: u64)
    by (bit_vector)
    requires
        i < 64,
    ensures
        ((a ^ b) >> i) & 1 == 1 <==> ((a >> i) & 1 == 1) != ((b >> i) & 1 == 1),
{
}

proof fn bv_not(a: u64, i: u64)
    by (bit_vector)
    requires
        i < 64,
    ensures
        ((!a) >> i) & 1 == 1 <==> !((a >> i) & 1 == 1),
{
}

proof fn bv_shl(a: u64, k: u64, i: u64)
    by (bit_vector)
    requires
        i < 64,
        k < 64,
    ensures
        ((a << k) >> i) & 1 == 1 <==> (i >= k && (a >> ((i - k) as u64)) & 1 == 1),
{
}

proof fn bv_shr(a: u64, k: u64, i: u64)
    by (bit_vector)
    requires
        i < 64,
        k < 64,
    ensures
        ((a >> k) >> i) & 1 == 1 <==> (i + k < 64 && (a >> ((i + k) as u64)) & 1 == 1),
{
}

proof fn bv_one(i: u64)
    by (bit_vector)
    requires
        i < 64,
    ensures
        (1u64 >> i) & 1 == 1 <==> i == 0,
{
}

proof fn bv_zero(i: u64)
    by (bit_vector)
    requires
        i < 64,
    ensures
        !((0u64 >> i) & 1 == 1),
{
}

proof fn bv_file(c: u64, i: u64)
    by (bit_vector)
    requires
        i < 64,
        c < 8,
    ensures
        ((0x0101_0101_0101_0101u64 << c) >> i) & 1 == 1 <==> i % 8 == c,
{
}

proof fn bv_rank(r: u64, i: u64)
    by (bit_vector)
    requires
        i < 64,
        r < 8,
    ensures
        ((0xffu64 << (8 * r)) >> i) & 1 == 1 <==> i / 8 == r,
{
}

pub broadcast proof fn lemma_bit_and(a: u64, b: u64, i: int)
    requires
        0 <= i < 64,
    ensures
        #[trigger] bit(a & b, i) == (bit(a, i) && bit(b, i)),
{
    bv_and(a, b, i as u64);
}

pub broadcast proof fn lemma_bit_or(a: u64, b: u64, i: int)
    requires
        0 <= i < 64,
    ensures
        #[trigger] bit(a | b, i) == (bit(a, i) || bit(b, i)),
{
    bv_or(a, b, i as u64);
}

pub broadcast proof fn lemma_bit_xor(a: u64, b: u64, i: int)
    requires
        0 <= i < 64,
    ensures
        #[trigger] bit(a ^ b, i) == (bit(a, i) != bit(b, i)),
{
    bv_xor(a, b, i as u64);
}

pub broadcast proof fn lemma_bit_not(a: u64, i: int)
    requires
        0 <= i < 64,
    ensures
        #[trigger] bit(!a, i) == !bit(a, i),
{
    bv_not(a, i as u64);
}

pub broadcast proof fn lemma_bit_shl(a: u64, k: u64, i: int)
    requires
        0 <= i < 64,
        k < 64,
    ensures
        #[trigger] bit(a << k, i) == (i >= k && bit(a, i - k)),
{
    bv_shl(a, k, i as u64);
}

pub broadcast proof fn lemma_bit_shr(a: u64, k: u64, i: int)
    requires
        0 <= i < 64,
        k < 64,
    ensures
        #[trigger] bit(a >> k, i) == (i + k < 64 && bit(a, i + k)),
{
    bv_shr(a, k, i as u64);
}

pub broadcast proof fn lemma_bit_one(i: int)
    requires
        0 <= i < 64,
    ensures
        #[trigger] bit(1u64, i) == (i == 0),
{
    bv_one(i as u64);
}

pub broadcast proof fn lemma_bit_zero(i: int)
    ensures
        !#[trigger] bit(0u64, i),
{
    if 0 <= i < 64 {
        bv_zero(i as u64);
    }
}

/// The bitboard `0x0101_0101_0101_0101 << c` is the file with index `c`.
pub broadcast proof fn lemma_bit_file(c: u64, i: int)
    requires
        0 <= i < 64,
        c < 8,
    ensures
        #[trigger] bit(0x0101_0101_0101_0101u64 << c, i) == (file_of(i) == c),
{
    bv_file(c, i as u64);
}

/// The bitboard `0xff << 8 * r` is the rank with index `r`.
pub broadcast proof fn lemma_bit_rank(r: u64, i: int)
    requires
        0 <= i < 64,
        r < 8,
    ensures
        #[trigger] bit(0xffu64 << (8 * r), i) == (rank_of(i) == r),
{
    bv_rank(r, i as u64);
}

/// The bitboard `0x0101_0101_0101_0101` is the H file.
pub broadcast proof fn lemma_bit_first_file(i: int)
    requires
        0 <= i < 64,
    ensures
        #[trigger] bit(0x0101_0101_0101_0101u64, i) == (file_of(i) == 0),
{
    bv_file(0, i as u64);
    assert(0x0101_0101_0101_0101u64 << 0u64 == 0x0101_0101_0101_0101u64) by (bit_vector);
}

/// The bitboard `0xff` is rank one.
pub broadcast proof fn lemma_bit_first_rank(i: int)
    requires
        0 <= i < 64,
    ensures
        #[trigger] bit(0xffu64, i) == (rank_of(i) == 0),
{
    bv_rank(0, i as u64);
    assert(0xffu64 << 0u64 == 0xffu64) by (bit_vector);
}

pub broadcast group group_bits {
    lemma_bit_first_file,
    lemma_bit_first_rank,
    lemma_bit_and,
    lemma_bit_or,
    lemma_bit_xor,
    lemma_bit_not,
    lemma_bit_shl,
    lemma_bit_shr,
    lemma_bit_one,
    lemma_bit_zero,
    lemma_bit_file,
    lemma_bit_rank,
}

proof fn bv_low_bit(x: u64)
    by (bit_vector)
    ensures
        x & 1 == 1 || x & 1 == 0,
{
}

proof fn lemma_bit_agrees(a: u64, b: u64, i: u64)
    requires
        i < 64,
        bit(a, i as int) == bit(b, i as int),
    ensures
        (a >> i) & 1 == (b >> i) & 1,
{
    bv_low_bit(a >> i);
    bv_low_bit(b >> i);
}

proof fn bv_equal_by_bits(a: u64, b: u64)
    by (bit_vector)
    requires
        (a >> 0u64) & 1 == (b >> 0u64) & 1,
        (a >> 1u64) & 1 == (b >> 1u64) & 1,
        (a >> 2u64) & 1 == (b >> 2u64) & 1,
        (a >> 3u64) & 1 == (b >> 3u64) & 1,
        (a >> 4u64) & 1 == (b >> 4u64) & 1,
        (a >> 5u64) & 1 == (b >> 5u64) & 1,
        (a >> 6u64) & 1 == (b >> 6u64) & 1,
        (a >> 7u64) & 1 == (b >> 7u64) & 1,
        (a >> 8u64) & 1 == (b >> 8u64) & 1,
        (a >> 9u64) & 1 == (b >> 9u64) & 1,
        (a >> 10u64) & 1 == (b >> 10u64) & 1,
        (a >> 11u64) & 1 == (b >> 11u64) & 1,
        (a >> 12u64) & 1 == (b >> 12u64) & 1,
        (a >> 13u64) & 1 == (b >> 13u64) & 1,
        (a >> 14u64) & 1 == (b >> 14u64) & 1,
        (a >> 15u64) & 1 == (b >> 15u64) & 1,
        (a >> 16u64) & 1 == (b >> 16u64) & 1,
        (a >> 17u64) & 1 == (b >> 17u64) & 1,
        (a >> 18u64) & 1 == (b >> 18u64) & 1,
        (a >> 19u64) & 1 == (b >> 19u64) & 1,
        (a >> 20u64) & 1 == (b >> 20u64) & 1,
        (a >> 21u64) & 1 == (b >> 21u64) & 1,
        (a >> 22u64) & 1 == (b >> 22u64) & 1,
        (a >> 23u64) & 1 == (b >> 23u64) & 1,
        (a >> 24u64) & 1 == (b >> 24u64) & 1,
        (a >> 25u64) & 1 == (b >> 25u64) & 1,
        (a >> 26u64) & 1 == (b >> 26u64) & 1,
        (a >> 27u64) & 1 == (b >> 27u64) & 1,
        (a >> 28u64) & 1 == (b >> 28u64) & 1,
        (a >> 29u64) & 1 == (b >> 29u64) & 1,
        (a >> 30u64) & 1 == (b >> 30u64) & 1,
        (a >> 31u64) & 1 == (b >> 31u64) & 1,
        (a >> 32u64) & 1 == (b >> 32u64) & 1,
        (a >> 33u64) & 1 == (b >> 33u64) & 1,
        (a >> 34u64) & 1 == (b >> 34u64) & 1,
        (a >> 35u64) & 1 == (b >> 35u64) & 1,
        (a >> 36u64) & 1 == (b >> 36u64) & 1,
        (a >> 37u64) & 1 == (b >> 37u64) & 1,
        (a >> 38u64) & 1 == (b >> 38u64) & 1,
        (a >> 39u64) & 1 == (b >> 39u64) & 1,
        (a >> 40u64) & 1 == (b >> 40u64) & 1,
        (a >> 41u64) & 1 == (b >> 41u64) & 1,
        (a >> 42u64) & 1 == (b >> 42u64) & 1,
        (a >> 43u64) & 1 == (b >> 43u64) & 1,
        (a >> 44u64) & 1 == (b >> 44u64) & 1,
        (a >> 45u64) & 1 == (b >> 45u64) & 1,
        (a >> 46u64) & 1 == (b >> 46u64) & 1,
        (a >> 47u64) & 1 == (b >> 47u64) & 1,
        (a >> 48u64) & 1 == (b >> 48u64) & 1,
        (a >> 49u64) & 1 == (b >> 49u64) & 1,
        (a >> 50u64) & 1 == (b >> 50u64) & 1,
        (a >> 51u64) & 1 == (b >> 51u64) & 1,
        (a >> 52u64) & 1 == (b >> 52u64) & 1,
        (a >> 53u64) & 1 == (b >> 53u64) & 1,
        (a >> 54u64) & 1 == (b >> 54u64) & 1,
        (a >> 55u64) & 1 == (b >> 55u64) & 1,
        (a >> 56u64) & 1 == (b >> 56u64) & 1,
        (a >> 57u64) & 1 == (b >> 57u64) & 1,
        (a >> 58u64) & 1 == (b >> 58u64) & 1,
        (a >> 59u64) & 1 == (b >> 59u64) & 1,
        (a >> 60u64) & 1 == (b >> 60u64) & 1,
        (a >> 61u64) & 1 == (b >> 61u64) & 1,
        (a >> 62u64) & 1 == (b >> 62u64) & 1,
        (a >> 63u64) & 1 == (b >> 63u64) & 1,
    ensures
        a == b,
{
}

/// Two bitboards with the same squares are equal.
pub proof fn lemma_bits_equal(a: u64, b: u64)
    requires
        forall|i: int| 0 <= i < 64 ==> #[trigger] bit(a, i) == bit(b, i),
    ensures
        a == b,
{
    lemma_bit_agrees(a, b, 0);
    lemma_bit_agrees(a, b, 1);
    lemma_bit_agrees(a, b, 2);
    lemma_bit_agrees(a, b, 3);
    lemma_bit_agrees(a, b, 4);
    lemma_bit_agrees(a, b, 5);
    lemma_bit_agrees(a, b, 6);
    lemma_bit_agrees(a, b, 7);
    lemma_bit_agrees(a, b, 8);
    lemma_bit_agrees(a, b, 9);
    lemma_bit_agrees(a, b, 10);
    lemma_bit_agrees(a, b, 11);
    lemma_bit_agrees(a, b, 12);
    lemma_bit_agrees(a, b, 13);
    lemma_bit_agrees(a, b, 14);
    lemma_bit_agrees(a, b, 15);
    lemma_bit_agrees(a, b, 16);
    lemma_bit_agrees(a, b, 17);
    lemma_bit_agrees(a, b, 18);
    lemma_bit_agrees(a, b, 19);
    lemma_bit_agrees(a, b, 20);
    lemma_bit_agrees(a, b, 21);
    lemma_bit_agrees(a, b, 22);
    lemma_bit_agrees(a, b, 23);
    lemma_bit_agrees(a, b, 24);
    lemma_bit_agrees(a, b, 25);
    lemma_bit_agrees(a, b, 26);
    lemma_bit_agrees(a, b, 27);
    lemma_bit_agrees(a, b, 28);
    lemma_bit_agrees(a, b, 29);
    lemma_bit_agrees(a, b, 30);
    lemma_bit_agrees(a, b, 31);
    lemma_bit_agrees(a, b, 32);
    lemma_bit_agrees(a, b, 33);
    lemma_bit_agrees(a, b, 34);
    lemma_bit_agrees(a, b, 35);
    lemma_bit_agrees(a, b, 36);
    lemma_bit_agrees(a, b, 37);
    lemma_bit_agrees(a, b, 38);
    lemma_bit_agrees(a, b, 39);
    lemma_bit_agrees(a, b, 40);
    lemma_bit_agrees(a, b, 41);
    lemma_bit_agrees(a, b, 42);
    lemma_bit_agrees(a, b, 43);
    lemma_bit_agrees(a, b, 44);
    lemma_bit_agrees(a, b, 45);
    lemma_bit_agrees(a, b, 46);
    lemma_bit_agrees(a, b, 47);
    lemma_bit_agrees(a, b, 48);
    lemma_bit_agrees(a, b, 49);
    lemma_bit_agrees(a, b, 50);
    lemma_bit_agrees(a, b, 51);
    lemma_bit_agrees(a, b, 52);
    lemma_bit_agrees(a, b, 53);
    lemma_bit_agrees(a, b, 54);
    lemma_bit_agrees(a, b, 55);
    lemma_bit_agrees(a, b, 56);
    lemma_bit_agrees(a, b, 57);
    lemma_bit_agrees(a, b, 58);
    lemma_bit_agrees(a, b, 59);
    lemma_bit_agrees(a, b, 60);
    lemma_bit_agrees(a, b, 61);
    lemma_bit_agrees(a, b, 62);
    lemma_bit_agrees(a, b, 63);
    bv_equal_by_bits(a, b);
}

} // verus!
