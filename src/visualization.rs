//! A board as text: one line per rank from rank eight down, one symbol per
//! square, then the file letters.
use vstd::prelude::*;
use vstd::string::StringExecFns;
use crate::board::{ChessBoard, get_square};
use crate::bits::bit;
use crate::piece::{Color, PieceType};

verus! {

pub trait Visualize {
    /// Whether `visualize` can render this value.
    spec fn can_visualize(&self) -> bool;

    /// The text that `visualize` gives.
    spec fn text(&self) -> Seq<char>;

    fn visualize(&self) -> (r: String)
        requires
            self.can_visualize(),
        ensures
            r@ == self.text(),
    ;
}

/// Square (`x` files from the A file, `y` ranks from rank one) holds a `k` piece of color `c`.
pub open spec fn holds(board: ChessBoard, k: PieceType, c: Color, x: int, y: int) -> bool {
    bit(board.info(k, c).positions, 8 * y + 7 - x)
}

/// The symbol of a square: the first of white pawn, black pawn, white rook,
/// black rook, white knight, black knight, white bishop, black bishop, white
/// queen, black queen, white king, black king standing there, else a filled
/// square when `x + y` is even and an empty one when it is odd.
pub open spec fn square_symbol(board: ChessBoard, x: int, y: int) -> Seq<char> {
    if holds(board, PieceType::Pawn, Color::White, x, y) {
        "♙"@
    } else if holds(board, PieceType::Pawn, Color::Black, x, y) {
        "♟︎"@
    } else if holds(board, PieceType::Rook, Color::White, x, y) {
        "♖"@
    } else if holds(board, PieceType::Rook, Color::Black, x, y) {
        "♜"@
    } else if holds(board, PieceType::Knight, Color::White, x, y) {
        "♘"@
    } else if holds(board, PieceType::Knight, Color::Black, x, y) {
        "♞"@
    } else if holds(board, PieceType::Bishop, Color::White, x, y) {
        "♗"@
    } else if holds(board, PieceType::Bishop, Color::Black, x, y) {
        "♝"@
    } else if holds(board, PieceType::Queen, Color::White, x, y) {
        "♕"@
    } else if holds(board, PieceType::Queen, Color::Black, x, y) {
        "♛"@
    } else if holds(board, PieceType::King, Color::White, x, y) {
        "♔"@
    } else if holds(board, PieceType::King, Color::Black, x, y) {
        "♚"@
    } else if (x + y) % 2 == 0 {
        "■"@
    } else {
        "□"@
    }
}

/// The symbol of the square `x` files from the A file and `y` ranks from rank one.
pub fn get_square_character(bitboard: &ChessBoard, x: i32, y: i32) -> (r: &'static str)
    requires
        bitboard.wf(),
        0 <= x < 8,
        0 <= y < 8,
    ensures
        r@ == square_symbol(*bitboard, x as int, y as int),
{
    if get_square(bitboard.get_piece_info(PieceType::Pawn, Color::White).positions, x, y) {
        "♙"
    } else if get_square(bitboard.get_piece_info(PieceType::Pawn, Color::Black).positions, x, y) {
        "♟︎"
    } else if get_square(bitboard.get_piece_info(PieceType::Rook, Color::White).positions, x, y) {
        "♖"
    } else if get_square(bitboard.get_piece_info(PieceType::Rook, Color::Black).positions, x, y) {
        "♜"
    } else if get_square(bitboard.get_piece_info(PieceType::Knight, Color::White).positions, x, y) {
        "♘"
    } else if get_square(bitboard.get_piece_info(PieceType::Knight, Color::Black).positions, x, y) {
        "♞"
    } else if get_square(bitboard.get_piece_info(PieceType::Bishop, Color::White).positions, x, y) {
        "♗"
    } else if get_square(bitboard.get_piece_info(PieceType::Bishop, Color::Black).positions, x, y) {
        "♝"
    } else if get_square(bitboard.get_piece_info(PieceType::Queen, Color::White).positions, x, y) {
        "♕"
    } else if get_square(bitboard.get_piece_info(PieceType::Queen, Color::Black).positions, x, y) {
        "♛"
    } else if get_square(bitboard.get_piece_info(PieceType::King, Color::White).positions, x, y) {
        "♔"
    } else if get_square(bitboard.get_piece_info(PieceType::King, Color::Black).positions, x, y) {
        "♚"
    } else if (x + y) % 2 == 0 {
        "■"
    } else {
        "□"
    }
}

/// The label that starts the line of rank `y` (from rank one): its number and a space.
pub open spec fn rank_label(y: int) -> Seq<char> {
    if y == 0 {
        "1 "@
    } else if y == 1 {
        "2 "@
    } else if y == 2 {
        "3 "@
    } else if y == 3 {
        "4 "@
    } else if y == 4 {
        "5 "@
    } else if y == 5 {
        "6 "@
    } else if y == 6 {
        "7 "@
    } else {
        "8 "@
    }
}

fn rank_label_of(y: i32) -> (r: &'static str)
    requires
        0 <= y < 8,
    ensures
        r@ == rank_label(y as int),
{
    if y == 0 {
        "1 "
    } else if y == 1 {
        "2 "
    } else if y == 2 {
        "3 "
    } else if y == 3 {
        "4 "
    } else if y == 4 {
        "5 "
    } else if y == 5 {
        "6 "
    } else if y == 6 {
        "7 "
    } else {
        "8 "
    }
}

/// The first `n` squares of rank `y`, each symbol followed by a space.
pub open spec fn rank_cells(board: ChessBoard, y: int, n: int) -> Seq<char>
    decreases n,
{
    if n <= 0 {
        seq![]
    } else {
        rank_cells(board, y, n - 1) + square_symbol(board, n - 1, y) + " "@
    }
}

/// The lines of the `k` highest ranks, from rank eight down.
pub open spec fn rank_lines(board: ChessBoard, k: int) -> Seq<char>
    decreases k,
{
    if k <= 0 {
        seq![]
    } else {
        rank_lines(board, k - 1) + rank_label(8 - k) + rank_cells(board, 8 - k, 8) + "\n"@
    }
}

/// The whole picture of the board.
pub open spec fn board_text(board: ChessBoard) -> Seq<char> {
    rank_lines(board, 8) + "  A B C D E F G H "@
}

impl Visualize for ChessBoard {
    open spec fn can_visualize(&self) -> bool {
        self.wf()
    }

    open spec fn text(&self) -> Seq<char> {
        board_text(*self)
    }

    fn visualize(&self) -> (r: String) {
        let mut result = String::new();
        let mut k: i32 = 0;
        while k < 8
            invariant
                self.wf(),
                0 <= k <= 8,
                result@ == rank_lines(*self, k as int),
            decreases 8 - k,
        {
            let y = 7 - k;
            result.append(rank_label_of(y));
            let mut x: i32 = 0;
            while x < 8
                invariant
                    self.wf(),
                    0 <= k < 8,
                    y == 7 - k,
                    0 <= x <= 8,
                    result@ == rank_lines(*self, k as int) + rank_label(y as int) + rank_cells(*self, y as int, x as int),
                decreases 8 - x,
            {
                result.append(get_square_character(self, x, y));
                result.append(" ");
                proof {
                    assert(result@ =~= rank_lines(*self, k as int) + rank_label(y as int) + rank_cells(*self, y as int, x + 1));
                }
                x += 1;
            }
            result.append("\n");
            proof {
                assert(result@ =~= rank_lines(*self, k + 1));
            }
            k += 1;
        }
        result.append("  A B C D E F G H ");
        result
    }
}

} // verus!
