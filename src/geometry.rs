//! Files and ranks as bitboards, and the geometry of moving squares around.
use vstd::prelude::*;
use crate::bits::{bit, file_of, rank_of, on_board, square_at, group_bits};

verus! {

broadcast use group_bits;

pub const H_FILE: u64 = 0x0101_0101_0101_0101;
pub const G_FILE: u64 = H_FILE << 1u64;
pub const F_FILE: u64 = H_FILE << 2u64;
pub const E_FILE: u64 = H_FILE << 3u64;
pub const D_FILE: u64 = H_FILE << 4u64;
pub const C_FILE: u64 = H_FILE << 5u64;
pub const B_FILE: u64 = H_FILE << 6u64;
pub const A_FILE: u64 = H_FILE << 7u64;

pub const RANK_ONE: u64 = 0xff;
pub const RANK_TWO: u64 = RANK_ONE << 8u64;
pub const RANK_THREE: u64 = RANK_ONE << 16u64;
pub const RANK_FOUR: u64 = RANK_ONE << 24u64;
pub const RANK_FIVE: u64 = RANK_ONE << 32u64;
pub const RANK_SIX: u64 = RANK_ONE << 40u64;
pub const RANK_SEVEN: u64 = RANK_ONE << 48u64;
pub const RANK_EIGHT: u64 = RANK_ONE << 56u64;

/// Square `t` holds, after every square of `p` has moved `dr` ranks up and `df`
/// file indices towards the A file, one of those squares (squares moved off the
/// board are dropped).
pub open spec fn shifted(p: u64, dr: int, df: int, t: int) -> bool {
    on_board(rank_of(t) - dr, file_of(t) - df) && bit(p, square_at(rank_of(t) - dr, file_of(t) - df))
}

/// `r` is `p` with every square moved by `dr` ranks and `df` file indices.
pub open spec fn is_shift_of(r: u64, p: u64, dr: int, df: int) -> bool {
    forall|t: int| 0 <= t < 64 ==> (#[trigger] bit(r, t) <==> shifted(p, dr, df, t))
}

/// The file with index `f` (0 is the H file, 7 the A file).
pub fn file_mask(f: u8) -> (r: u64)
    requires
        f < 8,
    ensures
        forall|i: int| 0 <= i < 64 ==> (#[trigger] bit(r, i) <==> file_of(i) == f),
{
    H_FILE << (f as u64)
}

/// The rank with index `r` (0 is rank one).
pub fn rank_mask(r: u8) -> (m: u64)
    requires
        r < 8,
    ensures
        forall|i: int| 0 <= i < 64 ==> (#[trigger] bit(m, i) <==> rank_of(i) == r),
{
    RANK_ONE << (8 * r as u64)
}

} // verus!
