//! The board: one bitboard per piece kind and color, side to move, castling
//! rights and the moves played.
use vstd::prelude::*;
use crate::bits::{bit, group_bits};
use crate::piece::{Color, PieceType, PieceInfo, Move, initial_info};

verus! {

broadcast use group_bits;

/// One piece to put on the board: `position_x` counts files from the A file,
/// `position_y` ranks from rank one.
#[derive(Clone, Copy, Debug, PartialEq, Eq, Structural)]
pub struct SinglePieceInfo {
    pub piece_type: PieceType,
    pub color: Color,
    pub position_x: usize,
    pub position_y: usize,
}

#[derive(Clone, Copy, Debug, PartialEq, Eq, Structural)]
pub enum Castling {
    KingSide,
    QueenSide,
}

pub struct ChessBoard {
    /// The pieces of each kind and color, white ones first, each color in the
    /// order pawn, knight, bishop, rook, queen, king.
    pub piece_infos: Vec<PieceInfo>,
    pub active_color: Color,
    pub white_king_side_castle: bool,
    pub white_queen_side_castle: bool,
    pub black_king_side_castle: bool,
    pub black_queen_side_castle: bool,
    pub move_history: Vec<Move>,
}

pub open spec fn kind_index(piece_type: PieceType) -> int {
    match piece_type {
        PieceType::Pawn => 0,
        PieceType::Knight => 1,
        PieceType::Bishop => 2,
        PieceType::Rook => 3,
        PieceType::Queen => 4,
        PieceType::King => 5,
    }
}

pub open spec fn color_index(color: Color) -> int {
    match color {
        Color::White => 0,
        Color::Black => 1,
    }
}

/// Where the pieces of a kind and color are kept in `piece_infos`.
pub open spec fn slot(piece_type: PieceType, color: Color) -> int {
    6 * color_index(color) + kind_index(piece_type)
}

fn slot_of(piece_type: PieceType, color: Color) -> (r: usize)
    ensures
        r == slot(piece_type, color),
        r < 12,
{
    let kind: usize = match piece_type {
        PieceType::Pawn => 0,
        PieceType::Knight => 1,
        PieceType::Bishop => 2,
        PieceType::Rook => 3,
        PieceType::Queen => 4,
        PieceType::King => 5,
    };
    match color {
        Color::White => kind,
        Color::Black => 6 + kind,
    }
}

/// `a` and `b` agree on everything but the pieces.
pub open spec fn same_but_pieces(a: ChessBoard, b: ChessBoard) -> bool {
    &&& b.active_color == a.active_color
    &&& b.white_king_side_castle == a.white_king_side_castle
    &&& b.white_queen_side_castle == a.white_queen_side_castle
    &&& b.black_king_side_castle == a.black_king_side_castle
    &&& b.black_queen_side_castle == a.black_queen_side_castle
    &&& b.move_history@ == a.move_history@
}

fn initialize_pieces(empty: bool, color: Color) -> (r: Vec<PieceInfo>)
    ensures
        r.len() == 6,
        forall|k: PieceType| #[trigger] r[kind_index(k)] == initial_info(empty, color, k),
{
    let mut piece_infos: Vec<PieceInfo> = Vec::new();
    piece_infos.push(PieceInfo::new_pawn(empty, color));
    piece_infos.push(PieceInfo::new_knight(empty, color));
    piece_infos.push(PieceInfo::new_bishop(empty, color));
    piece_infos.push(PieceInfo::new_rook(empty, color));
    piece_infos.push(PieceInfo::new_queen(empty, color));
    piece_infos.push(PieceInfo::new_king(empty, color));
    piece_infos
}

/// The white pieces: none when `empty`, else those of the starting position.
pub fn initialize_white_pieces(empty: bool) -> (r: Vec<PieceInfo>)
    ensures
        r.len() == 6,
        forall|k: PieceType| #[trigger] r[kind_index(k)] == initial_info(empty, Color::White, k),
{
    initialize_pieces(empty, Color::White)
}

/// The black pieces: none when `empty`, else those of the starting position.
pub fn initialize_black_pieces(empty: bool) -> (r: Vec<PieceInfo>)
    ensures
        r.len() == 6,
        forall|k: PieceType| #[trigger] r[kind_index(k)] == initial_info(empty, Color::Black, k),
{
    initialize_pieces(empty, Color::Black)
}

impl ChessBoard {
    /// Every slot holds the pieces of its own kind and color.
    pub open spec fn wf(&self) -> bool {
        &&& self.piece_infos.len() == 12
        &&& forall|k: PieceType, c: Color| #[trigger] self.piece_infos[slot(k, c)].piece_type == k && self.piece_infos[slot(k, c)].color == c
    }

    /// The pieces of kind `piece_type` and color `color`.
    pub open spec fn info(&self, piece_type: PieceType, color: Color) -> PieceInfo {
        self.piece_infos[slot(piece_type, color)]
    }

    /// An empty board when `empty`, else the starting position; white to move,
    /// every castling right kept.
    pub fn new(empty: bool) -> (r: ChessBoard)
        ensures
            r.wf(),
            forall|k: PieceType, c: Color| #[trigger] r.info(k, c) == initial_info(empty, c, k),
            r.active_color == Color::White,
            r.white_king_side_castle && r.white_queen_side_castle,
            r.black_king_side_castle && r.black_queen_side_castle,
            r.move_history@.len() == 0,
    {
        let mut piece_infos = initialize_white_pieces(empty);
        let black = initialize_black_pieces(empty);
        let ghost white_view = piece_infos@;
        let mut i: usize = 0;
        while i < 6
            invariant
                i <= 6,
                black.len() == 6,
                piece_infos.len() == 6 + i,
                forall|j: int| 0 <= j < 6 ==> #[trigger] piece_infos[j] == white_view[j],
                forall|j: int| 0 <= j < i ==> #[trigger] piece_infos[6 + j] == black[j],
            decreases 6 - i,
        {
            piece_infos.push(black[i]);
            i += 1;
        }
        let board = ChessBoard {
            piece_infos,
            active_color: Color::White,
            white_king_side_castle: true,
            white_queen_side_castle: true,
            black_king_side_castle: true,
            black_queen_side_castle: true,
            move_history: Vec::new(),
        };
        assert forall|k: PieceType, c: Color| #[trigger] board.info(k, c) == initial_info(empty, c, k) by {
            if c == Color::White {
                assert(board.piece_infos[kind_index(k)] == white_view[kind_index(k)]);
            } else {
                assert(board.piece_infos[6 + kind_index(k)] == black[kind_index(k)]);
            }
        }
        board
    }

    /// The pieces of kind `piece_type` and color `color`, to change in place.
    pub fn get_mutable_piece_info(&mut self, piece_type: PieceType, color: Color) -> (r: &mut PieceInfo)
        requires
            old(self).wf(),
        ensures
            *r == old(self).info(piece_type, color),
            final(self).piece_infos@ == old(self).piece_infos@.update(slot(piece_type, color), *final(r)),
            same_but_pieces(*old(self), *final(self)),
    {
        let index = slot_of(piece_type, color);
        &mut self.piece_infos[index]
    }

    /// The pieces of kind `piece_type` and color `color`.
    pub fn get_piece_info(&self, piece_type: PieceType, color: Color) -> (r: &PieceInfo)
        requires
            self.wf(),
        ensures
            *r == self.info(piece_type, color),
    {
        let index = slot_of(piece_type, color);
        &self.piece_infos[index]
    }

    pub fn white_pawns(&mut self) -> (r: &mut PieceInfo)
        requires
            old(self).wf(),
        ensures
            *r == old(self).info(PieceType::Pawn, Color::White),
            final(self).piece_infos@ == old(self).piece_infos@.update(slot(PieceType::Pawn, Color::White), *final(r)),
            same_but_pieces(*old(self), *final(self)),
    {
        self.get_mutable_piece_info(PieceType::Pawn, Color::White)
    }

    pub fn white_rooks(&mut self) -> (r: &mut PieceInfo)
        requires
            old(self).wf(),
        ensures
            *r == old(self).info(PieceType::Rook, Color::White),
            final(self).piece_infos@ == old(self).piece_infos@.update(slot(PieceType::Rook, Color::White), *final(r)),
            same_but_pieces(*old(self), *final(self)),
    {
        self.get_mutable_piece_info(PieceType::Rook, Color::White)
    }

    pub fn white_knights(&mut self) -> (r: &mut PieceInfo)
        requires
            old(self).wf(),
        ensures
            *r == old(self).info(PieceType::Knight, Color::White),
            final(self).piece_infos@ == old(self).piece_infos@.update(slot(PieceType::Knight, Color::White), *final(r)),
            same_but_pieces(*old(self), *final(self)),
    {
        self.get_mutable_piece_info(PieceType::Knight, Color::White)
    }

    pub fn white_bishops(&mut self) -> (r: &mut PieceInfo)
        requires
            old(self).wf(),
        ensures
            *r == old(self).info(PieceType::Bishop, Color::White),
            final(self).piece_infos@ == old(self).piece_infos@.update(slot(PieceType::Bishop, Color::White), *final(r)),
            same_but_pieces(*old(self), *final(self)),
    {
        self.get_mutable_piece_info(PieceType::Bishop, Color::White)
    }

    pub fn white_queens(&mut self) -> (r: &mut PieceInfo)
        requires
            old(self).wf(),
        ensures
            *r == old(self).info(PieceType::Queen, Color::White),
            final(self).piece_infos@ == old(self).piece_infos@.update(slot(PieceType::Queen, Color::White), *final(r)),
            same_but_pieces(*old(self), *final(self)),
    {
        self.get_mutable_piece_info(PieceType::Queen, Color::White)
    }

    pub fn white_kings(&mut self) -> (r: &mut PieceInfo)
        requires
            old(self).wf(),
        ensures
            *r == old(self).info(PieceType::King, Color::White),
            final(self).piece_infos@ == old(self).piece_infos@.update(slot(PieceType::King, Color::White), *final(r)),
            same_but_pieces(*old(self), *final(self)),
    {
        self.get_mutable_piece_info(PieceType::King, Color::White)
    }

    pub fn black_pawns(&mut self) -> (r: &mut PieceInfo)
        requires
            old(self).wf(),
        ensures
            *r == old(self).info(PieceType::Pawn, Color::Black),
            final(self).piece_infos@ == old(self).piece_infos@.update(slot(PieceType::Pawn, Color::Black), *final(r)),
            same_but_pieces(*old(self), *final(self)),
    {
        self.get_mutable_piece_info(PieceType::Pawn, Color::Black)
    }

    pub fn black_rooks(&mut self) -> (r: &mut PieceInfo)
        requires
            old(self).wf(),
        ensures
            *r == old(self).info(PieceType::Rook, Color::Black),
            final(self).piece_infos@ == old(self).piece_infos@.update(slot(PieceType::Rook, Color::Black), *final(r)),
            same_but_pieces(*old(self), *final(self)),
    {
        self.get_mutable_piece_info(PieceType::Rook, Color::Black)
    }

    pub fn black_knights(&mut self) -> (r: &mut PieceInfo)
        requires
            old(self).wf(),
        ensures
            *r == old(self).info(PieceType::Knight, Color::Black),
            final(self).piece_infos@ == old(self).piece_infos@.update(slot(PieceType::Knight, Color::Black), *final(r)),
            same_but_pieces(*old(self), *final(self)),
    {
        self.get_mutable_piece_info(PieceType::Knight, Color::Black)
    }

    pub fn black_bishops(&mut self) -> (r: &mut PieceInfo)
        requires
            old(self).wf(),
        ensures
            *r == old(self).info(PieceType::Bishop, Color::Black),
            final(self).piece_infos@ == old(self).piece_infos@.update(slot(PieceType::Bishop, Color::Black), *final(r)),
            same_but_pieces(*old(self), *final(self)),
    {
        self.get_mutable_piece_info(PieceType::Bishop, Color::Black)
    }

    pub fn black_queens(&mut self) -> (r: &mut PieceInfo)
        requires
            old(self).wf(),
        ensures
            *r == old(self).info(PieceType::Queen, Color::Black),
            final(self).piece_infos@ == old(self).piece_infos@.update(slot(PieceType::Queen, Color::Black), *final(r)),
            same_but_pieces(*old(self), *final(self)),
    {
        self.get_mutable_piece_info(PieceType::Queen, Color::Black)
    }

    pub fn black_kings(&mut self) -> (r: &mut PieceInfo)
        requires
            old(self).wf(),
        ensures
            *r == old(self).info(PieceType::King, Color::Black),
            final(self).piece_infos@ == old(self).piece_infos@.update(slot(PieceType::King, Color::Black), *final(r)),
            same_but_pieces(*old(self), *final(self)),
    {
        self.get_mutable_piece_info(PieceType::King, Color::Black)
    }

    /// Puts a piece on the square at file `position_x` (from the A file) and
    /// rank `position_y` (from rank one).
    pub fn set_square(&mut self, piece_info: SinglePieceInfo)
        requires
            old(self).wf(),
            piece_info.position_x < 8,
            piece_info.position_y < 8,
        ensures
            final(self).wf(),
            same_but_pieces(*old(self), *final(self)),
            forall|k: PieceType, c: Color| #[trigger] final(self).info(k, c) == if k == piece_info.piece_type && c == piece_info.color {
                PieceInfo {
                    positions: old(self).info(k, c).positions | (1u64 << (8 * piece_info.position_y + 7 - piece_info.position_x) as u64),
                    ..old(self).info(k, c)
                }
            } else {
                old(self).info(k, c)
            },
    {
        let position: u64 = 1u64 << ((7 - piece_info.position_x) + piece_info.position_y * 8) as u64;
        let index = slot_of(piece_info.piece_type, piece_info.color);
        let mut info = self.piece_infos[index];
        info.positions = info.positions | position;
        self.piece_infos.set(index, info);
        assert forall|k: PieceType, c: Color| #[trigger] self.piece_infos[slot(k, c)].piece_type == k && self.piece_infos[slot(k, c)].color == c by {
            assert(old(self).piece_infos[slot(k, c)].piece_type == k);
        }
    }

    pub fn set_active_color(&mut self, color: Color)
        ensures
            final(self).active_color == color,
            final(self).piece_infos@ == old(self).piece_infos@,
            final(self).white_king_side_castle == old(self).white_king_side_castle,
            final(self).white_queen_side_castle == old(self).white_queen_side_castle,
            final(self).black_king_side_castle == old(self).black_king_side_castle,
            final(self).black_queen_side_castle == old(self).black_queen_side_castle,
            final(self).move_history@ == old(self).move_history@,
    {
        self.active_color = color;
    }

    /// Grants the castling right of `color` on the side `castling`.
    pub fn set_castling(&mut self, color: Color, castling: Castling)
        ensures
            final(self).piece_infos@ == old(self).piece_infos@,
            final(self).active_color == old(self).active_color,
            final(self).move_history@ == old(self).move_history@,
            final(self).white_king_side_castle == (old(self).white_king_side_castle || (color == Color::White && castling == Castling::KingSide)),
            final(self).white_queen_side_castle == (old(self).white_queen_side_castle || (color == Color::White && castling == Castling::QueenSide)),
            final(self).black_king_side_castle == (old(self).black_king_side_castle || (color == Color::Black && castling == Castling::KingSide)),
            final(self).black_queen_side_castle == (old(self).black_queen_side_castle || (color == Color::Black && castling == Castling::QueenSide)),
    {
        match castling {
            Castling::KingSide => {
                if color == Color::White {
                    self.white_king_side_castle = true;
                } else {
                    self.black_king_side_castle = true;
                }
            },
            Castling::QueenSide => {
                if color == Color::White {
                    self.white_queen_side_castle = true;
                } else {
                    self.black_queen_side_castle = true;
                }
            },
        }
    }
}

/// Whether square (`x` files from the A file, `y` ranks from rank one) is set in `positions`.
pub fn get_square(positions: u64, x: i32, y: i32) -> (r: bool)
    requires
        0 <= x < 8,
        0 <= y < 8,
    ensures
        r == bit(positions, 8 * y + 7 - x),
{
    (positions >> ((y * 8 + (7 - x)) as u64)) & 1 == 1
}

/// The squares taken by pieces of `color`.
pub open spec fn side_pieces(board: ChessBoard, color: Color) -> u64 {
    board.info(PieceType::Pawn, color).positions | board.info(PieceType::Rook, color).positions | board.info(
        PieceType::Knight,
        color,
    ).positions | board.info(PieceType::Bishop, color).positions | board.info(PieceType::Queen, color).positions
        | board.info(PieceType::King, color).positions
}

fn side_positions(chessboard: &ChessBoard, color: Color) -> (r: u64)
    requires
        chessboard.wf(),
    ensures
        r == side_pieces(*chessboard, color),
{
    chessboard.get_piece_info(PieceType::Pawn, color).positions | chessboard.get_piece_info(PieceType::Rook, color).positions
        | chessboard.get_piece_info(PieceType::Knight, color).positions | chessboard.get_piece_info(PieceType::Bishop, color).positions
        | chessboard.get_piece_info(PieceType::Queen, color).positions | chessboard.get_piece_info(PieceType::King, color).positions
}

/// The squares taken by white pieces.
pub fn get_white_pieces(chessboard: &ChessBoard) -> (r: u64)
    requires
        chessboard.wf(),
    ensures
        r == side_pieces(*chessboard, Color::White),
{
    side_positions(chessboard, Color::White)
}

/// The squares taken by black pieces.
pub fn get_black_pieces(chessboard: &ChessBoard) -> (r: u64)
    requires
        chessboard.wf(),
    ensures
        r == side_pieces(*chessboard, Color::Black),
{
    side_positions(chessboard, Color::Black)
}

/// The squares no piece stands on.
pub fn get_empty_squares(chessboard: &ChessBoard) -> (r: u64)
    requires
        chessboard.wf(),
    ensures
        forall|t: int| 0 <= t < 64 ==> (#[trigger] bit(r, t) <==> !bit(side_pieces(*chessboard, Color::White), t)
            && !bit(side_pieces(*chessboard, Color::Black), t)),
{
    !(get_black_pieces(chessboard) | get_white_pieces(chessboard))
}

} // verus!
