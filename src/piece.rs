//! Colors, piece kinds, the per-kind bitboards of one side, and moves.
use vstd::prelude::*;
use crate::bits::{bit, is_square, group_bits};
use crate::masks::{single_square, square_of, lemma_square_of};
use crate::king::{king_targets, calculate_individual_king_moves};
use crate::knight::{knight_reach, calculate_individual_knight_moves};

verus! {

broadcast use group_bits;

#[derive(Clone, Copy, Debug, PartialEq, Eq, Structural, Hash)]
pub enum Color {
    Black,
    White,
}

impl Color {
    pub open spec fn opposite_spec(self) -> Color {
        match self {
            Color::White => Color::Black,
            Color::Black => Color::White,
        }
    }

    /// The other side.
    pub fn opposite(self) -> (r: Color)
        ensures
            r == self.opposite_spec(),
            r != self,
    {
        match self {
            Color::Black => Color::White,
            Color::White => Color::Black,
        }
    }
}

#[derive(Clone, Copy, Debug, PartialEq, Eq, Structural, Hash)]
pub enum PieceType {
    Pawn,
    Knight,
    Bishop,
    Rook,
    Queen,
    King,
}

/// The pieces of one kind and one color, with the squares they can move to
/// (`moves`, onto empty squares) and capture on (`attacks`).
#[derive(Clone, Copy, Debug, PartialEq, Eq, Structural)]
pub struct PieceInfo {
    pub positions: u64,
    pub moves: u64,
    pub attacks: u64,
    pub color: Color,
    pub piece_type: PieceType,
}

/// A move of a piece from one square to another.
#[derive(Clone, Copy, Debug)]
pub struct Move {
    pub piece_type: PieceType,
    pub from: u64,
    pub to: u64,
    pub special_move: bool,
    pub promoted_to: Option<PieceType>,
}

impl Move {
    pub fn new(
        piece_type: PieceType,
        from: u64,
        to: u64,
        special_move: bool,
        promoted_to: Option<PieceType>,
    ) -> (r: Move)
        ensures
            r.piece_type == piece_type,
            r.from == from,
            r.to == to,
            r.special_move == special_move,
            r.promoted_to == promoted_to,
    {
        Move { piece_type, from, to, special_move, promoted_to }
    }
}

/// `m` is a plain move of a `piece_type` piece from `from` to one square of `targets`.
pub open spec fn is_move_to(m: Move, piece_type: PieceType, from: u64, targets: u64) -> bool {
    &&& single_square(m.to)
    &&& bit(targets, square_of(m.to))
    &&& m.from == from
    &&& m.piece_type == piece_type
    &&& !m.special_move
    &&& m.promoted_to.is_none()
}

/// `moves` are the moves of a `piece_type` piece from `from`, one to each
/// square of `targets`, in increasing order of square.
pub open spec fn is_move_list(moves: Seq<Move>, piece_type: PieceType, from: u64, targets: u64) -> bool {
    &&& forall|k: int| 0 <= k < moves.len() ==> is_move_to(#[trigger] moves[k], piece_type, from, targets)
    &&& forall|k1: int, k2: int| 0 <= k1 < k2 < moves.len() ==> square_of(#[trigger] moves[k1].to) < square_of(#[trigger] moves[k2].to)
    &&& forall|t: int| 0 <= t < 64 && #[trigger] bit(targets, t) ==> exists|k: int| 0 <= k < moves.len() && square_of(#[trigger] moves[k].to) == t
}

/// One move from `from` to each square of `targets`, taking the lowest square
/// off `targets` each time.
#[verifier::rlimit(60)]
pub fn split_moves(piece_type: PieceType, from: u64, targets: u64) -> (r: Vec<Move>)
    ensures
        is_move_list(r@, piece_type, from, targets),
{
    let mut moves: Vec<Move> = Vec::new();
    let mut remaining = targets;
    let ghost mut lo: int = 0;
    while remaining != 0
        invariant
            0 <= lo <= 64,
            forall|t: int| 0 <= t < 64 ==> (#[trigger] bit(remaining, t) <==> bit(targets, t) && t >= lo),
            forall|k: int| 0 <= k < moves.len() ==> is_move_to(#[trigger] moves[k], piece_type, from, targets),
            forall|k: int| 0 <= k < moves.len() ==> square_of(#[trigger] moves[k].to) < lo,
            forall|k1: int, k2: int| 0 <= k1 < k2 < moves.len() ==> square_of(#[trigger] moves[k1].to) < square_of(#[trigger] moves[k2].to),
            forall|t: int| 0 <= t < lo && #[trigger] bit(targets, t) ==> exists|k: int| 0 <= k < moves.len() && square_of(#[trigger] moves[k].to) == t,
        decreases 64 - lo,
    {
        let s = remaining.trailing_zeros();
        proof {
            vstd::std_specs::bits::axiom_u64_trailing_zeros(remaining);
            assert(s < 64);
            assert(bit(remaining, s as int));
            assert forall|t: int| 0 <= t < s implies !#[trigger] bit(remaining, t) by {
                assert((remaining >> (t as u64)) & 1u64 == 0u64);
            }
        }
        let to = 1u64 << (s as u64);
        proof {
            assert(is_square(to, s as int));
            lemma_square_of(to, s as int);
        }
        let ghost old_moves = moves@;
        let ghost old_remaining = remaining;
        moves.push(Move::new(piece_type, from, to, false, None));
        remaining = remaining ^ to;
        proof {
            assert(bit(old_remaining, s as int));
            assert(bit(targets, s as int));
            assert(moves[moves.len() - 1].to == to);
            assert forall|k: int| 0 <= k < old_moves.len() implies #[trigger] moves[k] == old_moves[k] by {
            }
            assert forall|t: int| 0 <= t < s + 1 && #[trigger] bit(targets, t) implies exists|k: int| 0 <= k < moves.len() && square_of(#[trigger] moves[k].to) == t by {
                if t < lo {
                    let k = choose|k: int| 0 <= k < old_moves.len() && square_of(#[trigger] old_moves[k].to) == t;
                    assert(moves[k] == old_moves[k]);
                } else {
                    assert(bit(old_remaining, t));
                    assert(t == s);
                    assert(square_of(moves[moves.len() - 1].to) == t);
                }
            }
            lo = s + 1;
            assert forall|k: int| 0 <= k < moves.len() implies is_move_to(#[trigger] moves[k], piece_type, from, targets)
                && square_of(moves[k].to) < lo by {
                if k < old_moves.len() {
                    assert(moves[k] == old_moves[k]);
                } else {
                    assert(moves[k].to == to);
                }
            }
        }
    }
    proof {
        assert forall|t: int| 0 <= t < 64 && #[trigger] bit(targets, t) implies t < lo by {
            assert(!bit(0u64, t));
        }
    }
    moves
}

pub fn create_piece_info(positions: u64, color: Color, piece_type: PieceType) -> (r: PieceInfo)
    ensures
        r == (PieceInfo { positions, moves: 0, attacks: 0, color, piece_type }),
{
    PieceInfo { positions, moves: 0, attacks: 0, color, piece_type }
}

/// Square `t` is a target of a king (for `King`) or a knight (any other kind) of `p`.
pub open spec fn leaper_targets(piece_type: PieceType, p: u64, t: int) -> bool {
    if piece_type == PieceType::King {
        king_targets(p, t)
    } else {
        knight_reach(p, t)
    }
}

/// Where the pieces of a kind stand at the start of a game.
pub open spec fn start_positions(piece_type: PieceType, color: Color) -> u64 {
    let white: u64 = match piece_type {
        PieceType::Pawn => 0xff00u64,
        PieceType::Rook => 0x81u64,
        PieceType::Knight => 0x42u64,
        PieceType::Bishop => 0x24u64,
        PieceType::Queen => 0x10u64,
        PieceType::King => 0x08u64,
    };
    let black: u64 = match piece_type {
        PieceType::Pawn => 0x00ff_0000_0000_0000u64,
        PieceType::Rook => 0x8100_0000_0000_0000u64,
        PieceType::Knight => 0x4200_0000_0000_0000u64,
        PieceType::Bishop => 0x2400_0000_0000_0000u64,
        PieceType::Queen => 0x1000_0000_0000_0000u64,
        PieceType::King => 0x0800_0000_0000_0000u64,
    };
    match color {
        Color::White => white,
        Color::Black => black,
    }
}

/// The pieces of one kind and color: none when `empty`, else the starting squares.
pub open spec fn initial_info(empty: bool, color: Color, piece_type: PieceType) -> PieceInfo {
    PieceInfo {
        positions: if empty { 0 } else { start_positions(piece_type, color) },
        moves: 0,
        attacks: 0,
        color,
        piece_type,
    }
}

fn start_square_set(empty: bool, white: u64, black: u64, color: Color) -> (r: u64)
    ensures
        r == (if empty { 0 } else { match color { Color::White => white, Color::Black => black } }),
{
    if empty {
        0
    } else {
        match color {
            Color::White => white,
            Color::Black => black,
        }
    }
}

impl PieceInfo {
    /// Fills in the moves and attacks of these kings or knights from
    /// `empty_squares` and `opponent_pieces`, and lists one move to each of
    /// those squares. Knights are handled as well as kings on purpose: both are
    /// leapers whose moves come from the same shift-and-mask scheme. Other
    /// kinds are outside this function's precondition.
    pub fn calculate_individual_moves(&mut self, empty_squares: u64, opponent_pieces: u64) -> (r: Vec<Move>)
        requires
            old(self).piece_type == PieceType::King || old(self).piece_type == PieceType::Knight,
        ensures
            final(self).positions == old(self).positions,
            final(self).color == old(self).color,
            final(self).piece_type == old(self).piece_type,
            forall|t: int| 0 <= t < 64 ==> (#[trigger] bit(final(self).moves, t) <==> leaper_targets(old(self).piece_type, old(self).positions, t) && bit(empty_squares, t)),
            forall|t: int| 0 <= t < 64 ==> (#[trigger] bit(final(self).attacks, t) <==> leaper_targets(old(self).piece_type, old(self).positions, t) && bit(opponent_pieces, t)),
            is_move_list(r@, old(self).piece_type, old(self).positions, final(self).moves | final(self).attacks),
    {
        match self.piece_type {
            PieceType::King => calculate_individual_king_moves(self, opponent_pieces, empty_squares),
            _ => calculate_individual_knight_moves(self, opponent_pieces, empty_squares),
        }
    }

    pub fn new_pawn(empty: bool, color: Color) -> (r: Self)
        ensures
            r == initial_info(empty, color, PieceType::Pawn),
    {
        let positions = start_square_set(empty, 0xff00, 0x00ff_0000_0000_0000, color);
        create_piece_info(positions, color, PieceType::Pawn)
    }

    pub fn new_rook(empty: bool, color: Color) -> (r: Self)
        ensures
            r == initial_info(empty, color, PieceType::Rook),
    {
        let positions = start_square_set(empty, 0x81, 0x8100_0000_0000_0000, color);
        create_piece_info(positions, color, PieceType::Rook)
    }

    pub fn new_knight(empty: bool, color: Color) -> (r: Self)
        ensures
            r == initial_info(empty, color, PieceType::Knight),
    {
        let positions = start_square_set(empty, 0x42, 0x4200_0000_0000_0000, color);
        create_piece_info(positions, color, PieceType::Knight)
    }

    pub fn new_bishop(empty: bool, color: Color) -> (r: Self)
        ensures
            r == initial_info(empty, color, PieceType::Bishop),
    {
        let positions = start_square_set(empty, 0x24, 0x2400_0000_0000_0000, color);
        create_piece_info(positions, color, PieceType::Bishop)
    }

    pub fn new_queen(empty: bool, color: Color) -> (r: Self)
        ensures
            r == initial_info(empty, color, PieceType::Queen),
    {
        let positions = start_square_set(empty, 0x10, 0x1000_0000_0000_0000, color);
        create_piece_info(positions, color, PieceType::Queen)
    }

    pub fn new_king(empty: bool, color: Color) -> (r: Self)
        ensures
            r == initial_info(empty, color, PieceType::King),
    {
        let positions = start_square_set(empty, 0x08, 0x0800_0000_0000_0000, color);
        create_piece_info(positions, color, PieceType::King)
    }
}

} // verus!
