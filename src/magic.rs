//! Magic number search and the attack tables of rooks and bishops.
use vstd::prelude::*;
use crate::bits::{bit, group_bits, lemma_bits_equal};
use crate::boards::{is_subset, popcount, count_squares};
use crate::rays::{attack_set, is_attack_set, slider_reach, slider_moveboard, lemma_mask_relevance, lemma_attack_set_exists};
use crate::masks::{mask_kind, is_blocker_mask, square_board, single_square, square_of, square_index, blockermask_rook, blockermask_bishop, lemma_blocker_mask_size};
use rand::rngs::StdRng;
use crate::piece::PieceType;

verus! {

broadcast use group_bits;

proof fn bv_next_subset(b: u64, m: u64, c: u64)
    by (bit_vector)
    requires
        b & !m == 0,
    ensures
        (b.wrapping_sub(m) & m) & !m == 0,
        b != m ==> b < (b.wrapping_sub(m) & m),
        b == m ==> (b.wrapping_sub(m) & m) == 0,
        b <= m,
        (c & !m == 0 && b < c) ==> (b.wrapping_sub(m) & m) <= c,
{
}

proof fn lemma_subset_bits(b: u64, m: u64)
    ensures
        is_subset(b, m) <==> b & !m == 0,
{
    if is_subset(b, m) {
        assert forall|i: int| 0 <= i < 64 implies #[trigger] bit(b & !m, i) == bit(0u64, i) by {
        }
        lemma_bits_equal(b & !m, 0u64);
    }
    if b & !m == 0 {
        assert forall|t: int| 0 <= t < 64 && #[trigger] bit(b, t) implies bit(m, t) by {
            assert(bit(b & !m, t) == bit(0u64, t));
        }
    }
}

/// Every subset of `mask` in increasing order, each paired with the attack set
/// of a slider on square `s` (a rook for `Rook`, a bishop for any other kind)
/// when exactly the squares of that subset are taken.
pub fn subsets_and_attacks(piece_name: PieceType, s: u8, mask: u64) -> (r: (Vec<u64>, Vec<u64>))
    requires
        s < 64,
    ensures
        r.0.len() == r.1.len(),
        forall|j: int| 0 <= j < r.0.len() ==> is_subset(#[trigger] r.0[j], mask),
        forall|j: int| 0 <= j < r.0.len() ==> #[trigger] r.1[j] == attack_set(mask_kind(piece_name), s as int, r.0[j]),
        forall|d: u64| is_subset(d, mask) ==> exists|j: int| 0 <= j < r.0.len() && #[trigger] r.0[j] == d,
        forall|j1: int, j2: int| 0 <= j1 < j2 < r.0.len() ==> #[trigger] r.0[j1] < #[trigger] r.0[j2],
{
    let mut subsets: Vec<u64> = Vec::new();
    let mut attacks: Vec<u64> = Vec::new();
    let mut b: u64 = 0;
    let mut done = false;
    proof {
        lemma_subset_bits(0u64, mask);
        assert(0u64 & !mask == 0) by (bit_vector);
    }
    while !done
        invariant
            s < 64,
            b & !mask == 0,
            subsets.len() == attacks.len(),
            forall|j: int| 0 <= j < subsets.len() ==> is_subset(#[trigger] subsets[j], mask),
            forall|j: int| 0 <= j < subsets.len() ==> #[trigger] attacks[j] == attack_set(mask_kind(piece_name), s as int, subsets[j]),
            !done ==> forall|d: u64| d & !mask == 0 && d < b ==> exists|j: int| 0 <= j < subsets.len() && #[trigger] subsets[j] == d,
            done ==> forall|d: u64| d & !mask == 0 ==> exists|j: int| 0 <= j < subsets.len() && #[trigger] subsets[j] == d,
            forall|j1: int, j2: int| 0 <= j1 < j2 < subsets.len() ==> #[trigger] subsets[j1] < #[trigger] subsets[j2],
            !done ==> forall|j: int| 0 <= j < subsets.len() ==> #[trigger] subsets[j] < b,
        decreases mask - b + if done { 0int } else { 1int },
    {
        proof {
            bv_next_subset(b, mask, 0);
            lemma_subset_bits(b, mask);
        }
        let attack = slider_moveboard(piece_name, s, b);
        let ghost old_subsets = subsets@;
        subsets.push(b);
        attacks.push(attack);
        proof {
            assert(subsets[subsets.len() - 1] == b);
            assert forall|d: u64| d & !mask == 0 && d < b implies exists|j: int| 0 <= j < subsets.len() && #[trigger] subsets[j] == d by {
                let j = choose|j: int| 0 <= j < old_subsets.len() && old_subsets[j] == d;
                assert(subsets[j] == d);
            }
        }
        if b == mask {
            done = true;
            proof {
                assert forall|d: u64| d & !mask == 0 implies exists|j: int| 0 <= j < subsets.len() && #[trigger] subsets[j] == d by {
                    bv_next_subset(d, mask, 0);
                    if d == b {
                        assert(subsets[subsets.len() - 1] == d);
                    }
                }
            }
        } else {
            let next = b.wrapping_sub(mask) & mask;
            proof {
                assert forall|d: u64| d & !mask == 0 && d < next implies exists|j: int| 0 <= j < subsets.len() && #[trigger] subsets[j] == d by {
                    bv_next_subset(b, mask, d);
                    if d == b {
                        assert(subsets[subsets.len() - 1] == d);
                    }
                }
            }
            proof {
                bv_next_subset(next, mask, 0);
            }
            b = next;
        }
    }
    proof {
        assert forall|d: u64| is_subset(d, mask) implies exists|j: int| 0 <= j < subsets.len() && #[trigger] subsets[j] == d by {
            lemma_subset_bits(d, mask);
        }
    }
    (subsets, attacks)
}

/// Number of table slots for an index of `bits` bits.
pub open spec fn table_size(bits: u32) -> int {
    (1u64 << (bits as u64)) as int
}

/// The table slot of blocker board `b`: the top `bits` bits of `b * magic`,
/// the product wrapping at 64 bits.
pub open spec fn magic_index(b: u64, magic: u64, bits: u32) -> int {
    (b.wrapping_mul(magic) >> ((64 - bits) as u64)) as int
}

proof fn bv_index_bound(x: u64, bits: u64)
    by (bit_vector)
    requires
        1 <= bits <= 12,
    ensures
        (x >> ((64 - bits) as u64)) < (1u64 << bits),
        (1u64 << bits) <= 4096,
        (1u64 << bits) >= 2,
{
}

pub proof fn lemma_index_bounds(magic: u64, bits: u32)
    requires
        1 <= bits <= 12,
    ensures
        forall|b: u64| 0 <= #[trigger] magic_index(b, magic, bits) < table_size(bits),
        2 <= table_size(bits) <= 4096,
{
    assert forall|b: u64| 0 <= #[trigger] magic_index(b, magic, bits) < table_size(bits) by {
        bv_index_bound(b.wrapping_mul(magic), bits as u64);
    }
    bv_index_bound(0, bits as u64);
}

/// The table slot of blocker board `b`.
pub fn magic_index_of(b: u64, magic: u64, bits: u32) -> (r: usize)
    requires
        1 <= bits <= 12,
    ensures
        r == magic_index(b, magic, bits),
        r < table_size(bits),
{
    proof {
        bv_index_bound(b.wrapping_mul(magic), bits as u64);
    }
    (b.wrapping_mul(magic) >> ((64 - bits) as u64)) as usize
}

/// `magic` sends no two boards of `subsets` with different attack sets to the
/// same slot.
pub open spec fn no_conflict(subsets: Seq<u64>, attacks: Seq<u64>, magic: u64, bits: u32) -> bool {
    forall|j1: int, j2: int|
        0 <= j1 < subsets.len() && 0 <= j2 < subsets.len() && #[trigger] magic_index(subsets[j1], magic, bits)
            == #[trigger] magic_index(subsets[j2], magic, bits) ==> attacks[j1] == attacks[j2]
}

/// Every slot of `table` that no board of `subsets` reaches holds 0.
pub open spec fn unreached_slots_empty(table: Seq<u64>, subsets: Seq<u64>, magic: u64, bits: u32) -> bool {
    forall|k: int|
        0 <= k < table.len() && !(exists|j: int| 0 <= j < subsets.len() && #[trigger] magic_index(subsets[j], magic, bits) == k)
            ==> #[trigger] table[k] == 0
}

/// Tries `magic` as a multiplier for the boards of `subsets`: gives the table of
/// `2^bits` slots in which the slot of each board holds its attack set (slots
/// no board reaches hold 0), or nothing when two boards with different attack
/// sets share a slot.
pub fn try_magic(subsets: &Vec<u64>, attacks: &Vec<u64>, magic: u64, bits: u32) -> (r: Option<Vec<u64>>)
    requires
        subsets.len() == attacks.len(),
        1 <= bits <= 12,
    ensures
        r.is_some() <==> no_conflict(subsets@, attacks@, magic, bits),
        r matches Some(table) ==> table.len() == table_size(bits) && forall|j: int|
            0 <= j < subsets.len() ==> table[magic_index(#[trigger] subsets[j], magic, bits)] == attacks[j],
        r matches Some(table) ==> unreached_slots_empty(table@, subsets@, magic, bits),
{
    proof {
        lemma_index_bounds(magic, bits);
    }
    let size: usize = 1usize << (bits as usize);
    assert(size == table_size(bits)) by {
        assert((1usize << (bits as usize)) as int == (1u64 << (bits as u64)) as int) by (bit_vector)
            requires 1 <= bits <= 12;
    }
    // `table` holds the attack set of each slot that `filled` marks
    let mut table: Vec<u64> = vec![0u64; size];
    let mut filled: Vec<bool> = vec![false; size];
    proof {
        assert forall|k: int| 0 <= k < size implies table[k] == 0 && !filled[k] by {
            assert(cloned(0u64, table[k]));
            assert(cloned(false, filled[k]));
        }
    }
    let mut j: usize = 0;
    while j < subsets.len()
        invariant
            subsets.len() == attacks.len(),
            1 <= bits <= 12,
            table.len() == size,
            filled.len() == size,
            size == table_size(bits),
            j <= subsets.len(),
            forall|b: u64| 0 <= #[trigger] magic_index(b, magic, bits) < table_size(bits),
            forall|i: int| 0 <= i < j ==> filled[magic_index(#[trigger] subsets[i], magic, bits)] && table[magic_index(subsets[i], magic, bits)]
                == attacks[i],
            forall|k: int| 0 <= k < size && #[trigger] filled[k] ==> exists|i: int|
                0 <= i < j && magic_index(#[trigger] subsets[i], magic, bits) == k && table[k] == attacks[i],
            forall|k: int| 0 <= k < size && !#[trigger] filled[k] ==> table[k] == 0,
        decreases subsets.len() - j,
    {
        let index = magic_index_of(subsets[j], magic, bits);
        if !filled[index] {
            let ghost old_table = table@;
            let ghost old_filled = filled@;
            table.set(index, attacks[j]);
            filled.set(index, true);
            proof {
                assert forall|i: int| 0 <= i < j + 1 implies filled[magic_index(#[trigger] subsets[i], magic, bits)] && table[magic_index(
                    subsets[i],
                    magic,
                    bits,
                )] == attacks[i] by {
                    if i < j {
                        assert(old_filled[magic_index(subsets[i], magic, bits)]);
                        assert(old_table[magic_index(subsets[i], magic, bits)] == attacks[i]);
                    }
                }
                assert forall|k: int| 0 <= k < size && #[trigger] filled[k] implies exists|i: int|
                    0 <= i < j + 1 && magic_index(#[trigger] subsets[i], magic, bits) == k && table[k] == attacks[i] by {
                    if k != index {
                        assert(old_filled[k]);
                        let i = choose|i: int| 0 <= i < j && magic_index(#[trigger] subsets[i], magic, bits) == k && old_table[k] == attacks[i];
                        assert(table[k] == old_table[k]);
                    } else {
                        assert(magic_index(subsets[j as int], magic, bits) == k);
                    }
                }
            }
        } else if table[index] != attacks[j] {
            proof {
                let i = choose|i: int| 0 <= i < j && magic_index(#[trigger] subsets[i], magic, bits) == index && table[index as int] == attacks[i];
                assert(magic_index(subsets[i], magic, bits) == magic_index(subsets[j as int], magic, bits));
            }
            return None;
        }
        j += 1;
    }
    proof {
        assert forall|j: int| 0 <= j < subsets.len() implies table[magic_index(#[trigger] subsets[j], magic, bits)] == attacks[j] by {
        }
        assert forall|k: int|
            0 <= k < table.len() && !(exists|j: int| 0 <= j < subsets.len() && #[trigger] magic_index(subsets[j], magic, bits) == k)
                implies #[trigger] table@[k] == 0 by {
            if filled[k] {
                let i = choose|i: int| 0 <= i < subsets.len() && magic_index(#[trigger] subsets[i], magic, bits) == k && table[k] == attacks[i];
            }
        }
        assert forall|j1: int, j2: int|
            0 <= j1 < subsets.len() && 0 <= j2 < subsets.len() && #[trigger] magic_index(subsets[j1], magic, bits)
                == #[trigger] magic_index(subsets[j2], magic, bits) implies attacks[j1] == attacks[j2] by {
            assert(table[magic_index(subsets[j1], magic, bits)] == attacks[j1]);
            assert(table[magic_index(subsets[j2], magic, bits)] == attacks[j2]);
        }
    }
    Some(table)
}

#[verifier::external_type_specification]
#[verifier::external_body]
pub struct ExStdRng(StdRng);

/// Relies on rand's `SeedableRng::seed_from_u64` for `StdRng`: a generator
/// whose draws are fixed by `seed`.
#[verifier::external_body]
fn seeded_rng(seed: u64) -> (r: StdRng) {
    <StdRng as rand::SeedableRng>::seed_from_u64(seed)
}

/// Relies on rand's `RngCore::next_u64` for `StdRng`: the generator's next
/// draw, any 64-bit value.
#[verifier::external_body]
fn next_random(rng: &mut StdRng) -> (r: u64) {
    rand::RngCore::next_u64(rng)
}

/// One square's attack table for one slider kind.
pub struct MagicEntry {
    /// The blocker mask of the square.
    pub mask: u64,
    /// The multiplier that hashes blocker boards to slots.
    pub magic: u64,
    /// Number of squares of the mask: the table has `2^bits` slots.
    pub bits: u8,
    /// The attack set of every blocker board, at its slot.
    pub table: Vec<u64>,
}

/// `e` is the attack table of a `kind` slider on square `s`: its mask is the
/// blocker mask, its table has one slot per index, and the slot of every
/// blocker board holds that board's attack set.
pub open spec fn entry_wf(e: MagicEntry, kind: PieceType, s: int) -> bool {
    &&& is_blocker_mask(e.mask, kind, s)
    &&& 1 <= e.bits <= 12
    &&& e.bits == popcount(e.mask)
    &&& e.table.len() == table_size(e.bits as u32)
    &&& forall|d: u64| is_subset(d, e.mask) ==> #[trigger] e.table[magic_index(d, e.magic, e.bits as u32)] == attack_set(kind, s, d)
}

/// Candidate `k` drawn from `draws`: the AND of draws `3k`, `3k + 1` and
/// `3k + 2`, so that it has few bits set.
pub open spec fn candidate(draws: Seq<u64>, k: int) -> u64 {
    draws[3 * k] & draws[3 * k + 1] & draws[3 * k + 2]
}

/// Tries the candidates of `draws` in order (see `candidate`) and gives the
/// first one that sends no two boards of `subsets` with different attack sets
/// to the same slot, with its table; nothing when no candidate does.
pub fn search_magic(subsets: &Vec<u64>, attacks: &Vec<u64>, draws: &Vec<u64>, bits: u32) -> (r: Option<(u64, Vec<u64>)>)
    requires
        subsets.len() == attacks.len(),
        1 <= bits <= 12,
    ensures
        r is None <==> forall|k: int| 0 <= k < draws.len() / 3 ==> !no_conflict(subsets@, attacks@, #[trigger] candidate(draws@, k), bits),
        r matches Some((magic, table)) ==> exists|k: int|
            0 <= k < draws.len() / 3 && magic == #[trigger] candidate(draws@, k) && forall|k2: int|
                0 <= k2 < k ==> !no_conflict(subsets@, attacks@, #[trigger] candidate(draws@, k2), bits),
        r matches Some((magic, table)) ==> no_conflict(subsets@, attacks@, magic, bits),
        r matches Some((magic, table)) ==> table.len() == table_size(bits),
        r matches Some((magic, table)) ==> forall|j: int|
            0 <= j < subsets.len() ==> table[magic_index(#[trigger] subsets[j], magic, bits)] == attacks[j],
        r matches Some((magic, table)) ==> unreached_slots_empty(table@, subsets@, magic, bits),
{
    let n = draws.len() / 3;
    let mut k: usize = 0;
    while k < n
        invariant
            n == draws.len() / 3,
            k <= n,
            subsets.len() == attacks.len(),
            1 <= bits <= 12,
            forall|k2: int| 0 <= k2 < k ==> !no_conflict(subsets@, attacks@, #[trigger] candidate(draws@, k2), bits),
        decreases n - k,
    {
        let magic = draws[3 * k] & draws[3 * k + 1] & draws[3 * k + 2];
        assert(magic == candidate(draws@, k as int));
        match try_magic(subsets, attacks, magic, bits) {
            Some(table) => {
                proof {
                    lemma_index_bounds(magic, bits);
                    assert(0 <= k < n && magic == candidate(draws@, k as int));
                }
                return Some((magic, table));
            },
            None => {},
        }
        k += 1;
    }
    None
}

/// How many candidates are drawn at a time.
const DRAW_BATCH: u64 = 1024;

/// Searches a magic multiplier for square `s` (rook tables for `Rook`, bishop
/// tables for any other kind), drawing at most `max_attempts` candidates from
/// `rng`, a batch at a time; `search_magic` picks the first good candidate of
/// a batch.
pub fn find_magic(piece_name: PieceType, s: u8, rng: &mut StdRng, max_attempts: u64) -> (r: Option<MagicEntry>)
    requires
        s < 64,
    ensures
        r matches Some(e) ==> entry_wf(e, mask_kind(piece_name), s as int),
        max_attempts == 0 ==> r is None,
{
    let square = square_board(s);
    let mask = if piece_name == PieceType::Rook {
        blockermask_rook(square)
    } else {
        blockermask_bishop(square)
    };
    proof {
        lemma_blocker_mask_size(mask, mask_kind(piece_name), s as int);
    }
    let bits = count_squares(mask);
    let (subsets, attacks) = subsets_and_attacks(piece_name, s, mask);
    let mut attempt: u64 = 0;
    while attempt < max_attempts
        invariant
            attempt <= max_attempts,
            1 <= bits <= 12,
            bits == popcount(mask),
            is_blocker_mask(mask, mask_kind(piece_name), s as int),
            subsets.len() == attacks.len(),
            forall|j: int| 0 <= j < subsets.len() ==> #[trigger] attacks[j] == attack_set(mask_kind(piece_name), s as int, subsets[j]),
            forall|d: u64| is_subset(d, mask) ==> exists|j: int| 0 <= j < subsets.len() && #[trigger] subsets[j] == d,
        decreases max_attempts - attempt,
    {
        let batch = if max_attempts - attempt < DRAW_BATCH {
            max_attempts - attempt
        } else {
            DRAW_BATCH
        };
        let mut draws: Vec<u64> = Vec::new();
        while (draws.len() as u64) < 3 * batch
            invariant
                batch <= DRAW_BATCH,
                draws.len() <= 3 * batch,
            decreases 3 * batch - draws.len(),
        {
            draws.push(next_random(rng));
        }
        match search_magic(&subsets, &attacks, &draws, bits) {
            Some((magic, table)) => {
                let entry = MagicEntry { mask, magic, bits: bits as u8, table };
                proof {
                    assert forall|d: u64| is_subset(d, entry.mask) implies #[trigger] entry.table[magic_index(d, entry.magic, entry.bits as u32)]
                        == attack_set(mask_kind(piece_name), s as int, d) by {
                        let j = choose|j: int| 0 <= j < subsets.len() && #[trigger] subsets[j] == d;
                        assert(entry.table[magic_index(subsets[j], magic, bits)] == attacks[j]);
                    }
                }
                return Some(entry);
            },
            None => {},
        }
        attempt += batch;
    }
    None
}

/// No magic number was found for one square within the allowed draws.
#[derive(Clone, Copy, Debug, PartialEq, Eq, Structural)]
pub struct MagicSearchError {
    /// The slider kind whose tables were being built.
    pub piece: PieceType,
    /// The square whose search ran out of draws.
    pub square: u8,
}

/// Searches the attack tables of all 64 squares (rook tables for `Rook`, bishop
/// tables for any other kind); fails with the first square that found no magic
/// within `max_attempts` draws.
pub fn generate_magic_numbers(piece_name: PieceType, rng: &mut StdRng, max_attempts: u64) -> (r: Result<Vec<MagicEntry>, MagicSearchError>)
    ensures
        r matches Ok(entries) ==> entries.len() == 64 && forall|s: int| 0 <= s < 64 ==> entry_wf(#[trigger] entries[s], mask_kind(piece_name), s),
        r matches Err(e) ==> e.square < 64 && e.piece == mask_kind(piece_name),
        max_attempts == 0 ==> (r matches Err(e) && e.square == 0 && e.piece == mask_kind(piece_name)),
{
    let piece = if piece_name == PieceType::Rook {
        PieceType::Rook
    } else {
        PieceType::Bishop
    };
    let mut entries: Vec<MagicEntry> = Vec::new();
    let mut s: u8 = 0;
    while s < 64
        invariant
            s <= 64,
            piece == mask_kind(piece_name),
            entries.len() == s,
            max_attempts == 0 ==> s == 0,
            forall|i: int| 0 <= i < s ==> entry_wf(#[trigger] entries[i], mask_kind(piece_name), i),
        decreases 64 - s,
    {
        match find_magic(piece_name, s, rng, max_attempts) {
            Some(entry) => entries.push(entry),
            None => return Err(MagicSearchError { piece, square: s }),
        }
        s += 1;
    }
    Ok(entries)
}

/// The attack tables of rooks and bishops on every square.
pub struct AttackTables {
    pub rook: Vec<MagicEntry>,
    pub bishop: Vec<MagicEntry>,
}

impl AttackTables {
    /// Each table is the attack table of its square and slider kind.
    pub open spec fn wf(&self) -> bool {
        &&& self.rook.len() == 64
        &&& self.bishop.len() == 64
        &&& forall|s: int| 0 <= s < 64 ==> entry_wf(#[trigger] self.rook[s], PieceType::Rook, s)
        &&& forall|s: int| 0 <= s < 64 ==> entry_wf(#[trigger] self.bishop[s], PieceType::Bishop, s)
    }
}

/// Builds the rook and bishop tables with magic candidates drawn from a
/// generator seeded with `seed`; fails with the first square that found no
/// magic within `max_attempts` draws.
pub fn initialize(seed: u64, max_attempts: u64) -> (r: Result<AttackTables, MagicSearchError>)
    ensures
        r matches Ok(tables) ==> tables.wf(),
        r matches Err(e) ==> e.square < 64 && (e.piece == PieceType::Rook || e.piece == PieceType::Bishop),
        max_attempts == 0 ==> (r matches Err(e) && e.piece == PieceType::Rook && e.square == 0),
{
    let mut rng = seeded_rng(seed);
    let rook = match generate_magic_numbers(PieceType::Rook, &mut rng, max_attempts) {
        Ok(entries) => entries,
        Err(e) => return Err(e),
    };
    let bishop = match generate_magic_numbers(PieceType::Bishop, &mut rng, max_attempts) {
        Ok(entries) => entries,
        Err(e) => return Err(e),
    };
    Ok(AttackTables { rook, bishop })
}

/// The slot of the table of `e` that a board with `occupancy` taken reads.
pub open spec fn lookup(e: MagicEntry, occupancy: u64) -> u64 {
    e.table[magic_index(occupancy & e.mask, e.magic, e.bits as u32)]
}

fn table_move(e: &MagicEntry, occupancy: u64) -> (r: u64)
    requires
        1 <= e.bits <= 12,
        e.table.len() == table_size(e.bits as u32),
    ensures
        r == lookup(*e, occupancy),
{
    let blockerboard = occupancy & e.mask;
    let index = magic_index_of(blockerboard, e.magic, e.bits as u32);
    e.table[index]
}

proof fn lemma_lookup(e: MagicEntry, kind: PieceType, s: int, occupancy: u64)
    requires
        entry_wf(e, kind, s),
    ensures
        lookup(e, occupancy) == attack_set(kind, s, occupancy & e.mask),
{
    assert(is_subset(occupancy & e.mask, e.mask));
}

/// The squares a rook on `square` attacks when the squares of `occupancy` are
/// taken: along its rank and file, up to and including the first taken square.
pub fn rook_move(tables: &AttackTables, square: u64, occupancy: u64) -> (r: u64)
    requires
        tables.wf(),
        single_square(square),
    ensures
        r == lookup(tables.rook[square_of(square)], occupancy),
        r == attack_set(PieceType::Rook, square_of(square), occupancy),
        is_attack_set(r, PieceType::Rook, square_of(square), occupancy),
{
    let index = square_index(square);
    proof {
        lemma_table_move(*tables, PieceType::Rook, index as int, occupancy);
    }
    table_move(&tables.rook[index as usize], occupancy)
}

/// The squares a bishop on `square` attacks when the squares of `occupancy` are
/// taken: along its diagonals, up to and including the first taken square.
pub fn bishop_move(tables: &AttackTables, square: u64, occupancy: u64) -> (r: u64)
    requires
        tables.wf(),
        single_square(square),
    ensures
        r == lookup(tables.bishop[square_of(square)], occupancy),
        r == attack_set(PieceType::Bishop, square_of(square), occupancy),
        is_attack_set(r, PieceType::Bishop, square_of(square), occupancy),
{
    let index = square_index(square);
    proof {
        lemma_table_move(*tables, PieceType::Bishop, index as int, occupancy);
    }
    table_move(&tables.bishop[index as usize], occupancy)
}

/// The squares a queen on `square` attacks: those a rook and a bishop there attack.
pub fn queen_move(tables: &AttackTables, square: u64, occupancy: u64) -> (r: u64)
    requires
        tables.wf(),
        single_square(square),
    ensures
        forall|t: int| 0 <= t < 64 ==> (#[trigger] bit(r, t) <==> slider_reach(PieceType::Rook, square_of(square), occupancy, t)
            || slider_reach(PieceType::Bishop, square_of(square), occupancy, t)),
{
    bishop_move(tables, square, occupancy) | rook_move(tables, square, occupancy)
}

/// The table of a square, read with any occupancy, gives the attack set through
/// that occupancy.
proof fn lemma_table_move(tables: AttackTables, kind: PieceType, s: int, occupancy: u64)
    requires
        tables.wf(),
        0 <= s < 64,
        kind == PieceType::Rook || kind == PieceType::Bishop,
    ensures
        lookup(entry_of(tables, kind, s), occupancy) == attack_set(kind, s, occupancy),
        is_attack_set(attack_set(kind, s, occupancy), kind, s, occupancy),
{
    let e = entry_of(tables, kind, s);
    lemma_lookup(e, kind, s, occupancy);
    lemma_mask_relevance(kind, s, e.mask, occupancy);
    lemma_attack_set_exists(kind, s, occupancy);
}

/// Perfect hashing: in well-formed tables, the slot of every blocker board of a
/// square holds that board's attack set, so two blocker boards that share a slot
/// have the same attack set.
pub proof fn lemma_perfect_hash(tables: AttackTables, kind: PieceType, s: int, b1: u64, b2: u64)
    requires
        tables.wf(),
        0 <= s < 64,
        kind == PieceType::Rook || kind == PieceType::Bishop,
        is_subset(b1, entry_of(tables, kind, s).mask),
        is_subset(b2, entry_of(tables, kind, s).mask),
    ensures
        ({
            let e = entry_of(tables, kind, s);
            &&& e.table[magic_index(b1, e.magic, e.bits as u32)] == attack_set(kind, s, b1)
            &&& magic_index(b1, e.magic, e.bits as u32) == magic_index(b2, e.magic, e.bits as u32)
                ==> attack_set(kind, s, b1) == attack_set(kind, s, b2)
        }),
{
    let e = entry_of(tables, kind, s);
    assert(e.table[magic_index(b1, e.magic, e.bits as u32)] == attack_set(kind, s, b1));
    assert(e.table[magic_index(b2, e.magic, e.bits as u32)] == attack_set(kind, s, b2));
}

/// Tables built with different magic numbers answer every query alike: any two
/// well-formed tables give the same attack set for every square and occupancy.
pub proof fn lemma_tables_agree(t1: AttackTables, t2: AttackTables, kind: PieceType, s: int, occupancy: u64)
    requires
        t1.wf(),
        t2.wf(),
        0 <= s < 64,
        kind == PieceType::Rook || kind == PieceType::Bishop,
    ensures
        lookup(entry_of(t1, kind, s), occupancy) == lookup(entry_of(t2, kind, s), occupancy),
{
    lemma_table_move(t1, kind, s, occupancy);
    lemma_table_move(t2, kind, s, occupancy);
}

/// The table of square `s` for slider kind `kind`.
pub open spec fn entry_of(tables: AttackTables, kind: PieceType, s: int) -> MagicEntry {
    if kind == PieceType::Rook {
        tables.rook[s]
    } else {
        tables.bishop[s]
    }
}

} // verus!
