//! Move patterns and blocker masks of the sliding pieces.
use vstd::prelude::*;
use crate::bits::{bit, file_of, rank_of, is_square, group_bits};
use crate::boards::{count_below, popcount};
use crate::geometry::{file_mask, rank_mask};
use crate::piece::PieceType;

verus! {

broadcast use group_bits;

/// Square `i` shares a rank or a file with square `s` (`s` included).
pub open spec fn on_rook_lines(s: int, i: int) -> bool {
    rank_of(i) == rank_of(s) || file_of(i) == file_of(s)
}

/// Square `i` shares a diagonal with square `s` (`s` included).
pub open spec fn on_diagonals(s: int, i: int) -> bool {
    rank_of(i) - rank_of(s) == file_of(i) - file_of(s) || rank_of(i) - rank_of(s) == file_of(s) - file_of(i)
}

/// Square `i` lies on a line of a slider of kind `kind` through `s`: rank and
/// file for a rook, diagonals for any other kind.
pub open spec fn on_lines(kind: PieceType, s: int, i: int) -> bool {
    if kind == PieceType::Rook {
        on_rook_lines(s, i)
    } else {
        on_diagonals(s, i)
    }
}

/// Square `i` is on an outer rank or file only where `s` is on that same rank or file.
pub open spec fn inside_edges(s: int, i: int) -> bool {
    &&& rank_of(i) == 0 ==> rank_of(s) == 0
    &&& rank_of(i) == 7 ==> rank_of(s) == 7
    &&& file_of(i) == 0 ==> file_of(s) == 0
    &&& file_of(i) == 7 ==> file_of(s) == 7
}

/// Square `i` belongs to the blocker mask of a slider of kind `kind` on `s`.
pub open spec fn in_blocker_mask(kind: PieceType, s: int, i: int) -> bool {
    i != s && on_lines(kind, s, i) && inside_edges(s, i)
}

/// `m` is the blocker mask of a slider of kind `kind` on `s`.
pub open spec fn is_blocker_mask(m: u64, kind: PieceType, s: int) -> bool {
    forall|i: int| 0 <= i < 64 ==> (#[trigger] bit(m, i) <==> in_blocker_mask(kind, s, i))
}

/// `b` is a board of exactly one square.
pub open spec fn single_square(b: u64) -> bool {
    exists|s: int| is_square(b, s)
}

/// The square of a one-square board.
pub open spec fn square_of(b: u64) -> int {
    choose|s: int| is_square(b, s)
}

pub proof fn lemma_square_of(b: u64, s: int)
    requires
        is_square(b, s),
    ensures
        single_square(b),
        square_of(b) == s,
{
    let t = square_of(b);
    assert(is_square(b, t));
    assert(bit(b, s));
}

/// The index of the one square of `square`.
pub fn square_index(square: u64) -> (r: u8)
    requires
        single_square(square),
    ensures
        r == square_of(square),
        r < 64,
{
    let ghost s = square_of(square);
    proof {
        lemma_square_of(square, s);
        vstd::std_specs::bits::axiom_u64_trailing_zeros(square);
        assert(bit(square, s));
    }
    let tz = square.trailing_zeros();
    proof {
        assert(square != 0);
        assert(bit(square, tz as int));
    }
    tz as u8
}

/// Every square on the rank and the file of the square at `row`, `col`.
pub fn generate_rook_move_pattern(row: i8, col: i8) -> (r: u64)
    requires
        0 <= row < 8,
        0 <= col < 8,
    ensures
        forall|i: int| 0 <= i < 64 ==> (#[trigger] bit(r, i) <==> on_rook_lines(8 * row + col, i)),
{
    let mut pattern: u64 = 0;
    let row_mask = rank_mask(row as u8);
    let col_mask = file_mask(col as u8);
    pattern = pattern | row_mask;
    pattern = pattern | col_mask;
    pattern
}

/// Square `t` is on the diagonal through (`row`, `col`) of slope `sign`, strictly
/// between ranks `lo` and `hi`.
pub open spec fn diagonal_part(row: int, col: int, sign: int, lo: int, hi: int, t: int) -> bool {
    rank_of(t) - row == sign * (file_of(t) - col) && lo < rank_of(t) < hi
}

/// `pattern` with the square at `row`, `col` added.
fn with_square(pattern: u64, row: i8, col: i8) -> (r: u64)
    requires
        0 <= row < 8,
        0 <= col < 8,
    ensures
        forall|t: int| 0 <= t < 64 ==> (#[trigger] bit(r, t) <==> bit(pattern, t) || (rank_of(t) == row && file_of(t) == col)),
{
    let r = pattern | (1u64 << ((8 * row + col) as u64));
    assert forall|t: int| 0 <= t < 64 implies (#[trigger] bit(r, t) <==> bit(pattern, t) || (rank_of(t) == row && file_of(t) == col)) by {
        assert((t == 8 * row + col) <==> (rank_of(t) == row && file_of(t) == col));
    }
    r
}

/// Every square on the two diagonals through the square at `row`, `col`.
#[verifier::rlimit(40)]
pub fn generate_bishop_move_pattern(row: i8, col: i8) -> (r: u64)
    requires
        0 <= row < 8,
        0 <= col < 8,
    ensures
        forall|t: int| 0 <= t < 64 ==> (#[trigger] bit(r, t) <==> on_diagonals(8 * row + col, t)),
{
    let mut pattern: u64 = 0;
    // towards rank one and the H file
    let mut i: i8 = row;
    let mut j: i8 = col;
    while i >= 0 && j >= 0
        invariant
            -1 <= i <= row,
            j == col - (row - i),
            0 <= row < 8,
            0 <= col < 8,
            forall|t: int| 0 <= t < 64 ==> (#[trigger] bit(pattern, t) <==> diagonal_part(row as int, col as int, 1, i as int, row + 1, t)),
        decreases i + 1,
    {
        pattern = with_square(pattern, i, j);
        i -= 1;
        j -= 1;
    }
    // towards rank eight and the A file
    i = row;
    j = col;
    while i < 8 && j < 8
        invariant
            row <= i <= 8,
            j == col + (i - row),
            0 <= row < 8,
            0 <= col < 8,
            forall|t: int| 0 <= t < 64 ==> (#[trigger] bit(pattern, t) <==> diagonal_part(row as int, col as int, 1, -1, row + 1, t)
                || diagonal_part(row as int, col as int, 1, row - 1, i as int, t)),
        decreases 8 - i,
    {
        pattern = with_square(pattern, i, j);
        i += 1;
        j += 1;
    }
    // towards rank one and the A file
    i = row;
    j = col;
    while i >= 0 && j < 8
        invariant
            -1 <= i <= row,
            j == col + (row - i),
            0 <= row < 8,
            0 <= col < 8,
            forall|t: int| 0 <= t < 64 ==> (#[trigger] bit(pattern, t) <==> diagonal_part(row as int, col as int, 1, -1, 8, t)
                || diagonal_part(row as int, col as int, -1, i as int, row + 1, t)),
        decreases i + 1,
    {
        pattern = with_square(pattern, i, j);
        i -= 1;
        j += 1;
    }
    // towards rank eight and the H file
    i = row;
    j = col;
    while i < 8 && j >= 0
        invariant
            row <= i <= 8,
            j == col - (i - row),
            0 <= row < 8,
            0 <= col < 8,
            forall|t: int| 0 <= t < 64 ==> (#[trigger] bit(pattern, t) <==> diagonal_part(row as int, col as int, 1, -1, 8, t)
                || diagonal_part(row as int, col as int, -1, -1, row + 1, t)
                || diagonal_part(row as int, col as int, -1, row - 1, i as int, t)),
        decreases 8 - i,
    {
        pattern = with_square(pattern, i, j);
        i += 1;
        j -= 1;
    }
    pattern
}

/// `all_moves` without the outer ranks and files on which the square at `row`,
/// `col` does not itself stand.
pub fn remove_edges(row: u8, all_moves: u64, col: u8) -> (r: u64)
    requires
        row < 8,
        col < 8,
    ensures
        forall|t: int| 0 <= t < 64 ==> (#[trigger] bit(r, t) <==> bit(all_moves, t) && inside_edges(8 * row + col, t)),
{
    let mut blocker_mask = all_moves;
    if row != 0 {
        blocker_mask = blocker_mask & !rank_mask(0);
    }
    if row != 7 {
        blocker_mask = blocker_mask & !rank_mask(7);
    }
    if col != 0 {
        blocker_mask = blocker_mask & !file_mask(0);
    }
    if col != 7 {
        blocker_mask = blocker_mask & !file_mask(7);
    }
    blocker_mask
}

/// The squares whose occupancy can change where a rook on `square` moves.
pub fn blockermask_rook(square: u64) -> (r: u64)
    requires
        single_square(square),
    ensures
        is_blocker_mask(r, PieceType::Rook, square_of(square)),
{
    let index = square_index(square);
    let row = index / 8;
    let col = index % 8;
    let pattern = generate_rook_move_pattern(row as i8, col as i8);
    // the outer ranks and files are dropped unless the rook stands on them
    let blocker_mask = remove_edges(row, pattern, col);
    proof {
        lemma_square_of(square, index as int);
    }
    // the rook's own square is on its lines: drop it
    blocker_mask ^ square
}

/// The squares whose occupancy can change where a bishop on `square` moves.
pub fn blockermask_bishop(square: u64) -> (r: u64)
    requires
        single_square(square),
    ensures
        is_blocker_mask(r, PieceType::Bishop, square_of(square)),
{
    let index = square_index(square);
    let row = index / 8;
    let col = index % 8;
    let pattern = generate_bishop_move_pattern(row as i8, col as i8);
    let blocker_mask = remove_edges(row, pattern, col);
    proof {
        lemma_square_of(square, index as int);
    }
    blocker_mask ^ square
}

/// The board of the single square `s`.
pub fn square_board(s: u8) -> (r: u64)
    requires
        s < 64,
    ensures
        is_square(r, s as int),
        single_square(r),
        square_of(r) == s,
{
    let r = 1u64 << (s as u64);
    proof {
        lemma_square_of(r, s as int);
    }
    r
}

/// The blocker mask of every square, for rooks when `piece_name` is `Rook` and
/// for bishops otherwise.
pub fn generate_all_blockermasks(piece_name: PieceType) -> (r: [u64; 64])
    ensures
        forall|s: int| 0 <= s < 64 ==> is_blocker_mask(#[trigger] r[s], mask_kind(piece_name), s),
{
    let mut blockermasks: [u64; 64] = [0; 64];
    let mut i: u8 = 0;
    while i < 64
        invariant
            i <= 64,
            forall|s: int| 0 <= s < i ==> is_blocker_mask(#[trigger] blockermasks[s], mask_kind(piece_name), s),
        decreases 64 - i,
    {
        let square = square_board(i);
        if piece_name == PieceType::Rook {
            blockermasks[i as usize] = blockermask_rook(square);
        } else {
            blockermasks[i as usize] = blockermask_bishop(square);
        }
        i += 1;
    }
    blockermasks
}

/// The move pattern of every square: rank and file for `Rook`, diagonals for
/// any other kind.
pub fn generate_all_move_patterns(piece_name: PieceType) -> (r: [u64; 64])
    ensures
        forall|s: int, t: int| 0 <= s < 64 && 0 <= t < 64 ==> (#[trigger] bit(r[s], t) <==> on_lines(mask_kind(piece_name), s, t)),
{
    let mut move_pattern: [u64; 64] = [0; 64];
    let mut y: i8 = 0;
    while y < 8
        invariant
            0 <= y <= 8,
            forall|s: int, t: int| 0 <= s < 8 * y && 0 <= t < 64 ==> (#[trigger] bit(move_pattern[s], t) <==> on_lines(mask_kind(piece_name), s, t)),
        decreases 8 - y,
    {
        let mut x: i8 = 0;
        while x < 8
            invariant
                0 <= y < 8,
                0 <= x <= 8,
                forall|s: int, t: int| 0 <= s < 8 * y + x && 0 <= t < 64 ==> (#[trigger] bit(move_pattern[s], t) <==> on_lines(mask_kind(piece_name), s, t)),
            decreases 8 - x,
        {
            if piece_name == PieceType::Rook {
                move_pattern[(8 * y + x) as usize] = generate_rook_move_pattern(y, x);
            } else {
                move_pattern[(8 * y + x) as usize] = generate_bishop_move_pattern(y, x);
            }
            x += 1;
        }
        y += 1;
    }
    move_pattern
}

/// The slider kind that masks and tables are built for: a rook for `Rook`, a
/// bishop for any other kind.
pub open spec fn mask_kind(piece_name: PieceType) -> PieceType {
    if piece_name == PieceType::Rook {
        PieceType::Rook
    } else {
        PieceType::Bishop
    }
}

/// 1 when square `i` is in the blocker mask of a `kind` slider on `s`, else 0.
pub open spec fn mask_square(kind: PieceType, s: int, i: int) -> int {
    if in_blocker_mask(kind, s, i) { 1 } else { 0 }
}

/// Number of blocker mask squares on rank `r`.
pub open spec fn mask_row_count(kind: PieceType, s: int, r: int) -> int {
    mask_square(kind, s, 8 * r + 0) + mask_square(kind, s, 8 * r + 1) + mask_square(kind, s, 8 * r + 2) + mask_square(kind, s, 8 * r + 3) + mask_square(kind, s, 8 * r + 4) + mask_square(kind, s, 8 * r + 5) + mask_square(kind, s, 8 * r + 6) + mask_square(kind, s, 8 * r + 7)
}

/// Number of squares of the blocker mask of a `kind` slider on `s`.
pub open spec fn mask_size(kind: PieceType, s: int) -> int {
    mask_row_count(kind, s, 0) + mask_row_count(kind, s, 1) + mask_row_count(kind, s, 2) + mask_row_count(kind, s, 3) + mask_row_count(kind, s, 4) + mask_row_count(kind, s, 5) + mask_row_count(kind, s, 6) + mask_row_count(kind, s, 7)
}

proof fn lemma_count_row(m: u64, kind: PieceType, s: int, r: int)
    requires
        is_blocker_mask(m, kind, s),
        0 <= r < 8,
    ensures
        count_below(m, 8 * r + 8) == count_below(m, 8 * r) + mask_row_count(kind, s, r),
{
    assert(count_below(m, 8 * r + 1) == count_below(m, 8 * r + 0) + mask_square(kind, s, 8 * r + 0));
    assert(count_below(m, 8 * r + 2) == count_below(m, 8 * r + 1) + mask_square(kind, s, 8 * r + 1));
    assert(count_below(m, 8 * r + 3) == count_below(m, 8 * r + 2) + mask_square(kind, s, 8 * r + 2));
    assert(count_below(m, 8 * r + 4) == count_below(m, 8 * r + 3) + mask_square(kind, s, 8 * r + 3));
    assert(count_below(m, 8 * r + 5) == count_below(m, 8 * r + 4) + mask_square(kind, s, 8 * r + 4));
    assert(count_below(m, 8 * r + 6) == count_below(m, 8 * r + 5) + mask_square(kind, s, 8 * r + 5));
    assert(count_below(m, 8 * r + 7) == count_below(m, 8 * r + 6) + mask_square(kind, s, 8 * r + 6));
    assert(count_below(m, 8 * r + 8) == count_below(m, 8 * r + 7) + mask_square(kind, s, 8 * r + 7));
}

proof fn lemma_popcount_is_mask_size(m: u64, kind: PieceType, s: int)
    requires
        is_blocker_mask(m, kind, s),
    ensures
        popcount(m) == mask_size(kind, s),
{
    assert(count_below(m, 0) == 0);
    lemma_count_row(m, kind, s, 0);
    lemma_count_row(m, kind, s, 1);
    lemma_count_row(m, kind, s, 2);
    lemma_count_row(m, kind, s, 3);
    lemma_count_row(m, kind, s, 4);
    lemma_count_row(m, kind, s, 5);
    lemma_count_row(m, kind, s, 6);
    lemma_count_row(m, kind, s, 7);
}

// Each branch below fixes the square, and the solver counts its mask squares.
#[verifier::spinoff_prover]
#[verifier::rlimit(80)]
proof fn lemma_mask_size_rank_0(kind: PieceType, s: int)
    requires
        0 <= s < 8,
        kind == PieceType::Rook || kind == PieceType::Bishop,
    ensures
        5 <= mask_size(kind, s) <= 12,
{
    if s == 0 {
    } else if s == 1 {
    } else if s == 2 {
    } else if s == 3 {
    } else if s == 4 {
    } else if s == 5 {
    } else if s == 6 {
    } else {
    }
}

#[verifier::spinoff_prover]
#[verifier::rlimit(80)]
proof fn lemma_mask_size_rank_1(kind: PieceType, s: int)
    requires
        8 <= s < 16,
        kind == PieceType::Rook || kind == PieceType::Bishop,
    ensures
        5 <= mask_size(kind, s) <= 12,
{
    if s == 8 {
    } else if s == 9 {
    } else if s == 10 {
    } else if s == 11 {
    } else if s == 12 {
    } else if s == 13 {
    } else if s == 14 {
    } else {
    }
}

#[verifier::spinoff_prover]
#[verifier::rlimit(80)]
proof fn lemma_mask_size_rank_2(kind: PieceType, s: int)
    requires
        16 <= s < 24,
        kind == PieceType::Rook || kind == PieceType::Bishop,
    ensures
        5 <= mask_size(kind, s) <= 12,
{
    if s == 16 {
    } else if s == 17 {
    } else if s == 18 {
    } else if s == 19 {
    } else if s == 20 {
    } else if s == 21 {
    } else if s == 22 {
    } else {
    }
}

#[verifier::spinoff_prover]
#[verifier::rlimit(80)]
proof fn lemma_mask_size_rank_3(kind: PieceType, s: int)
    requires
        24 <= s < 32,
        kind == PieceType::Rook || kind == PieceType::Bishop,
    ensures
        5 <= mask_size(kind, s) <= 12,
{
    if s == 24 {
    } else if s == 25 {
    } else if s == 26 {
    } else if s == 27 {
    } else if s == 28 {
    } else if s == 29 {
    } else if s == 30 {
    } else {
    }
}

#[verifier::spinoff_prover]
#[verifier::rlimit(80)]
proof fn lemma_mask_size_rank_4(kind: PieceType, s: int)
    requires
        32 <= s < 40,
        kind == PieceType::Rook || kind == PieceType::Bishop,
    ensures
        5 <= mask_size(kind, s) <= 12,
{
    if s == 32 {
    } else if s == 33 {
    } else if s == 34 {
    } else if s == 35 {
    } else if s == 36 {
    } else if s == 37 {
    } else if s == 38 {
    } else {
    }
}

#[verifier::spinoff_prover]
#[verifier::rlimit(80)]
proof fn lemma_mask_size_rank_5(kind: PieceType, s: int)
    requires
        40 <= s < 48,
        kind == PieceType::Rook || kind == PieceType::Bishop,
    ensures
        5 <= mask_size(kind, s) <= 12,
{
    if s == 40 {
    } else if s == 41 {
    } else if s == 42 {
    } else if s == 43 {
    } else if s == 44 {
    } else if s == 45 {
    } else if s == 46 {
    } else {
    }
}

#[verifier::spinoff_prover]
#[verifier::rlimit(80)]
proof fn lemma_mask_size_rank_6(kind: PieceType, s: int)
    requires
        48 <= s < 56,
        kind == PieceType::Rook || kind == PieceType::Bishop,
    ensures
        5 <= mask_size(kind, s) <= 12,
{
    if s == 48 {
    } else if s == 49 {
    } else if s == 50 {
    } else if s == 51 {
    } else if s == 52 {
    } else if s == 53 {
    } else if s == 54 {
    } else {
    }
}

#[verifier::spinoff_prover]
#[verifier::rlimit(80)]
proof fn lemma_mask_size_rank_7(kind: PieceType, s: int)
    requires
        56 <= s < 64,
        kind == PieceType::Rook || kind == PieceType::Bishop,
    ensures
        5 <= mask_size(kind, s) <= 12,
{
    if s == 56 {
    } else if s == 57 {
    } else if s == 58 {
    } else if s == 59 {
    } else if s == 60 {
    } else if s == 61 {
    } else if s == 62 {
    } else {
    }
}

proof fn lemma_mask_size_bounds(kind: PieceType, s: int)
    requires
        0 <= s < 64,
        kind == PieceType::Rook || kind == PieceType::Bishop,
    ensures
        5 <= mask_size(kind, s) <= 12,
{
    if s < 8 {
        lemma_mask_size_rank_0(kind, s);
    } else if s < 16 {
        lemma_mask_size_rank_1(kind, s);
    } else if s < 24 {
        lemma_mask_size_rank_2(kind, s);
    } else if s < 32 {
        lemma_mask_size_rank_3(kind, s);
    } else if s < 40 {
        lemma_mask_size_rank_4(kind, s);
    } else if s < 48 {
        lemma_mask_size_rank_5(kind, s);
    } else if s < 56 {
        lemma_mask_size_rank_6(kind, s);
    } else if s < 64 {
        lemma_mask_size_rank_7(kind, s);
    }
}

/// Every blocker mask has between 5 and 12 squares, and leaves out the
/// slider's own square.
pub proof fn lemma_blocker_mask_size(m: u64, kind: PieceType, s: int)
    requires
        0 <= s < 64,
        kind == PieceType::Rook || kind == PieceType::Bishop,
        is_blocker_mask(m, kind, s),
    ensures
        5 <= popcount(m) <= 12,
        !bit(m, s),
{
    lemma_popcount_is_mask_size(m, kind, s);
    lemma_mask_size_bounds(kind, s);
}

} // verus!
