//! Reading a position from Forsyth-Edwards notation, for example
//! `rnbqkbnr/pppppppp/8/8/8/8/PPPPPPPP/RNBQKBNR w KQkq - 0 1`: piece placement
//! from rank eight down, side to move, castling rights.
use vstd::prelude::*;
use vstd::string::StrSliceExecFns;
use crate::bits::{bit, group_bits};
use crate::board::{ChessBoard, SinglePieceInfo, Castling, same_but_pieces};
use crate::piece::{Color, PieceType, PieceInfo};

verus! {

broadcast use group_bits;

#[derive(Clone, Copy, Debug, PartialEq, Eq, Structural)]
pub enum FenError {
    /// Fewer than three fields.
    MissingField,
    /// A placement character that is neither a piece, a digit nor `/`.
    InvalidPiece,
    /// A side to move other than `w` or `b`.
    InvalidColor,
    /// A castling character other than `K`, `Q`, `k`, `q` (or a lone `-`).
    InvalidCastling,
    /// More than eight ranks, or more than eight files in a rank.
    SquareOffBoard,
}

/// The piece a placement character stands for: upper case white, lower case black.
pub open spec fn fen_piece(c: char) -> Option<(PieceType, Color)> {
    match c {
        'P' => Some((PieceType::Pawn, Color::White)),
        'N' => Some((PieceType::Knight, Color::White)),
        'B' => Some((PieceType::Bishop, Color::White)),
        'R' => Some((PieceType::Rook, Color::White)),
        'Q' => Some((PieceType::Queen, Color::White)),
        'K' => Some((PieceType::King, Color::White)),
        'p' => Some((PieceType::Pawn, Color::Black)),
        'n' => Some((PieceType::Knight, Color::Black)),
        'b' => Some((PieceType::Bishop, Color::Black)),
        'r' => Some((PieceType::Rook, Color::Black)),
        'q' => Some((PieceType::Queen, Color::Black)),
        'k' => Some((PieceType::King, Color::Black)),
        _ => None,
    }
}

pub open spec fn is_digit(c: char) -> bool {
    '0' <= c <= '9'
}

/// Where the placement reader stands before character `n` of `cs`: the file
/// (from the A file) and the row (from rank eight), or nothing after an error.
pub open spec fn scan(cs: Seq<char>, n: int) -> Option<(int, int)>
    decreases n,
{
    if n <= 0 {
        Some((0, 0))
    } else {
        match scan(cs, n - 1) {
            None => None,
            Some((x, y)) => {
                let c = cs[n - 1];
                if c == '/' {
                    if y + 1 < 8 { Some((0, y + 1)) } else { None }
                } else if is_digit(c) {
                    if x + (c as int - '0' as int) <= 8 { Some((x + (c as int - '0' as int), y)) } else { None }
                } else if fen_piece(c).is_some() {
                    if x < 8 { Some((x + 1, y)) } else { None }
                } else {
                    None
                }
            },
        }
    }
}

/// Character `n` of `cs` puts a `piece_type` piece of `color` on square `t`.
pub open spec fn placed_at(cs: Seq<char>, n: int, piece_type: PieceType, color: Color, t: int) -> bool {
    &&& 0 <= n < cs.len()
    &&& fen_piece(cs[n]) == Some((piece_type, color))
    &&& scan(cs, n) matches Some((x, y))
    &&& x < 8
    &&& t == 8 * (7 - y) + 7 - x
}

/// The error that stops the placement reader at character `n`, if any.
pub open spec fn scan_error(c: char) -> FenError {
    if c == '/' || is_digit(c) || fen_piece(c).is_some() {
        FenError::SquareOffBoard
    } else {
        FenError::InvalidPiece
    }
}

proof fn lemma_scan_stays_none(cs: Seq<char>, n: int, m: int)
    requires
        n <= m,
        scan(cs, n) is None,
    ensures
        scan(cs, m) is None,
    decreases m - n,
{
    if n < m {
        lemma_scan_stays_none(cs, n, m - 1);
    }
}

fn piece_of_char(c: char) -> (r: Option<(PieceType, Color)>)
    ensures
        r == fen_piece(c),
{
    match c {
        'P' => Some((PieceType::Pawn, Color::White)),
        'N' => Some((PieceType::Knight, Color::White)),
        'B' => Some((PieceType::Bishop, Color::White)),
        'R' => Some((PieceType::Rook, Color::White)),
        'Q' => Some((PieceType::Queen, Color::White)),
        'K' => Some((PieceType::King, Color::White)),
        'p' => Some((PieceType::Pawn, Color::Black)),
        'n' => Some((PieceType::Knight, Color::Black)),
        'b' => Some((PieceType::Bishop, Color::Black)),
        'r' => Some((PieceType::Rook, Color::Black)),
        'q' => Some((PieceType::Queen, Color::Black)),
        'k' => Some((PieceType::King, Color::Black)),
        _ => None,
    }
}

/// Puts the pieces of a placement field on the board: rows from rank eight down
/// separated by `/`, a digit skipping that many files, a letter placing a piece
/// and moving one file on.
pub fn set_board_positions(chessboard: &mut ChessBoard, positions: &Vec<char>) -> (r: Result<(), FenError>)
    requires
        old(chessboard).wf(),
    ensures
        final(chessboard).wf(),
        same_but_pieces(*old(chessboard), *final(chessboard)),
        r is Ok <==> scan(positions@, positions@.len() as int) is Some,
        r matches Err(e) ==> exists|n: int| 0 <= n < positions@.len() && scan(positions@, n) is Some
            && scan(positions@, n + 1) is None && e == scan_error(#[trigger] positions@[n]),
        r is Ok ==> forall|k: PieceType, c: Color, t: int| 0 <= t < 64 ==> (#[trigger] bit(final(chessboard).info(k, c).positions, t) <==> bit(
            old(chessboard).info(k, c).positions,
            t,
        ) || exists|n: int| #[trigger] placed_at(positions@, n, k, c, t)),
{
    let ghost cs = positions@;
    let ghost start = *chessboard;
    let mut x: usize = 0;
    let mut y: usize = 0;
    let mut i: usize = 0;
    while i < positions.len()
        invariant
            cs == positions@,
            0 <= i <= cs.len(),
            chessboard.wf(),
            same_but_pieces(start, *chessboard),
            start.wf(),
            start == *old(chessboard),
            scan(cs, i as int) == Some((x as int, y as int)),
            x <= 8,
            y < 8,
            forall|k: PieceType, c: Color, t: int| 0 <= t < 64 ==> (#[trigger] bit(chessboard.info(k, c).positions, t) <==> bit(
                start.info(k, c).positions,
                t,
            ) || exists|n: int| n < i && #[trigger] placed_at(cs, n, k, c, t)),
        decreases cs.len() - i,
    {
        let character = positions[i];
        if character == '/' {
            if y + 1 >= 8 {
                proof {
                    lemma_scan_stays_none(cs, i + 1, cs.len() as int);
                }
                return Err(FenError::SquareOffBoard);
            }
            x = 0;
            y = y + 1;
        } else if '0' <= character && character <= '9' {
            let number = (character as u32 - '0' as u32) as usize;
            if x + number > 8 {
                proof {
                    lemma_scan_stays_none(cs, i + 1, cs.len() as int);
                }
                return Err(FenError::SquareOffBoard);
            }
            x = x + number;
        } else {
            match piece_of_char(character) {
                None => {
                    proof {
                        lemma_scan_stays_none(cs, i + 1, cs.len() as int);
                    }
                    return Err(FenError::InvalidPiece);
                },
                Some((piece_type, color)) => {
                    if x >= 8 {
                        proof {
                            lemma_scan_stays_none(cs, i + 1, cs.len() as int);
                        }
                        return Err(FenError::SquareOffBoard);
                    }
                    let ghost before = *chessboard;
                    chessboard.set_square(SinglePieceInfo { piece_type, color, position_x: x, position_y: 7 - y });
                    proof {
                        assert forall|k: PieceType, c: Color, t: int| 0 <= t < 64 implies (#[trigger] bit(chessboard.info(k, c).positions, t) <==> bit(
                            start.info(k, c).positions,
                            t,
                        ) || exists|n: int| n < i + 1 && #[trigger] placed_at(cs, n, k, c, t)) by {
                            let sq = 8 * (7 - y) + 7 - x;
                            if k == piece_type && c == color {
                                assert(bit(chessboard.info(k, c).positions, t) == (bit(before.info(k, c).positions, t) || t == sq));
                                if t == sq {
                                    assert(placed_at(cs, i as int, k, c, t));
                                }
                            }
                            if exists|n: int| n < i + 1 && #[trigger] placed_at(cs, n, k, c, t) {
                                let n = choose|n: int| n < i + 1 && #[trigger] placed_at(cs, n, k, c, t);
                                if n < i {
                                    assert(exists|m: int| m < i && #[trigger] placed_at(cs, m, k, c, t));
                                }
                            }
                        }
                    }
                    x = x + 1;
                },
            }
        }
        i += 1;
    }
    Ok(())
}

/// The side to move that a field names: `w` white, `b` black.
pub open spec fn fen_color(field: Seq<char>) -> Option<Color> {
    if field == seq!['w'] {
        Some(Color::White)
    } else if field == seq!['b'] {
        Some(Color::Black)
    } else {
        None
    }
}

/// Sets the side to move from its field.
pub fn set_active_color(chess_board: &mut ChessBoard, active_color: &Vec<char>) -> (r: Result<(), FenError>)
    ensures
        r is Ok <==> fen_color(active_color@) is Some,
        r is Err ==> r == Err::<(), FenError>(FenError::InvalidColor) && *final(chess_board) == *old(chess_board),
        fen_color(active_color@) matches Some(c) ==> final(chess_board).active_color == c,
        final(chess_board).piece_infos@ == old(chess_board).piece_infos@,
        final(chess_board).white_king_side_castle == old(chess_board).white_king_side_castle,
        final(chess_board).white_queen_side_castle == old(chess_board).white_queen_side_castle,
        final(chess_board).black_king_side_castle == old(chess_board).black_king_side_castle,
        final(chess_board).black_queen_side_castle == old(chess_board).black_queen_side_castle,
        final(chess_board).move_history@ == old(chess_board).move_history@,
{
    if active_color.len() == 1 && active_color[0] == 'w' {
        assert(active_color@ =~= seq!['w']);
        chess_board.set_active_color(Color::White);
        Ok(())
    } else if active_color.len() == 1 && active_color[0] == 'b' {
        assert(active_color@ =~= seq!['b']);
        chess_board.set_active_color(Color::Black);
        Ok(())
    } else {
        assert(active_color@ != seq!['w']) by {
            if active_color@ == seq!['w'] {
                assert(active_color@.len() == 1 && active_color@[0] == 'w');
            }
        }
        assert(active_color@ != seq!['b']) by {
            if active_color@ == seq!['b'] {
                assert(active_color@.len() == 1 && active_color@[0] == 'b');
            }
        }
        Err(FenError::InvalidColor)
    }
}

pub open spec fn is_castling_char(c: char) -> bool {
    c == 'K' || c == 'Q' || c == 'k' || c == 'q'
}

/// A castling field is `-` or a run of `K`, `Q`, `k`, `q`.
pub open spec fn castling_ok(field: Seq<char>) -> bool {
    field == seq!['-'] || forall|i: int| 0 <= i < field.len() ==> is_castling_char(#[trigger] field[i])
}

/// Grants the castling rights that their field names (`K`, `Q` for white, `k`,
/// `q` for black); rights the field does not name stay as they were.
pub fn set_castling_rights(chess_board: &mut ChessBoard, castling_string: &Vec<char>) -> (r: Result<(), FenError>)
    ensures
        r is Ok <==> castling_ok(castling_string@),
        r is Err ==> r == Err::<(), FenError>(FenError::InvalidCastling),
        r is Ok ==> final(chess_board).white_king_side_castle == (old(chess_board).white_king_side_castle || castling_string@.contains('K')),
        r is Ok ==> final(chess_board).white_queen_side_castle == (old(chess_board).white_queen_side_castle || castling_string@.contains('Q')),
        r is Ok ==> final(chess_board).black_king_side_castle == (old(chess_board).black_king_side_castle || castling_string@.contains('k')),
        r is Ok ==> final(chess_board).black_queen_side_castle == (old(chess_board).black_queen_side_castle || castling_string@.contains('q')),
        final(chess_board).piece_infos@ == old(chess_board).piece_infos@,
        final(chess_board).active_color == old(chess_board).active_color,
        final(chess_board).move_history@ == old(chess_board).move_history@,
{
    if castling_string.len() == 1 && castling_string[0] == '-' {
        assert(castling_string@ =~= seq!['-']);
        assert(!castling_string@.contains('K') && !castling_string@.contains('Q'));
        assert(!castling_string@.contains('k') && !castling_string@.contains('q'));
        return Ok(());
    }
    let ghost cs = castling_string@;
    assert(cs != seq!['-']) by {
        if cs == seq!['-'] {
            assert(cs.len() == 1 && cs[0] == '-');
        }
    }
    let mut i: usize = 0;
    while i < castling_string.len()
        invariant
            cs == castling_string@,
            cs != seq!['-'],
            i <= cs.len(),
            forall|j: int| 0 <= j < i ==> is_castling_char(#[trigger] cs[j]),
            chess_board.white_king_side_castle == (old(chess_board).white_king_side_castle || cs.subrange(0, i as int).contains('K')),
            chess_board.white_queen_side_castle == (old(chess_board).white_queen_side_castle || cs.subrange(0, i as int).contains('Q')),
            chess_board.black_king_side_castle == (old(chess_board).black_king_side_castle || cs.subrange(0, i as int).contains('k')),
            chess_board.black_queen_side_castle == (old(chess_board).black_queen_side_castle || cs.subrange(0, i as int).contains('q')),
            chess_board.piece_infos@ == old(chess_board).piece_infos@,
            chess_board.active_color == old(chess_board).active_color,
            chess_board.move_history@ == old(chess_board).move_history@,
        decreases cs.len() - i,
    {
        let character = castling_string[i];
        let ghost before = cs.subrange(0, i as int);
        assert(cs.subrange(0, i + 1) =~= before.push(character));
        if character == 'K' {
            chess_board.set_castling(Color::White, Castling::KingSide);
        } else if character == 'Q' {
            chess_board.set_castling(Color::White, Castling::QueenSide);
        } else if character == 'k' {
            chess_board.set_castling(Color::Black, Castling::KingSide);
        } else if character == 'q' {
            chess_board.set_castling(Color::Black, Castling::QueenSide);
        } else {
            assert(!castling_ok(cs));
            return Err(FenError::InvalidCastling);
        }
        proof {
            assert forall|c: char| #[trigger] before.push(character).contains(c) == (before.contains(c) || c == character) by {
                if before.push(character).contains(c) {
                    let j = choose|j: int| 0 <= j < before.len() + 1 && before.push(character)[j] == c;
                    if j < before.len() {
                        assert(before[j] == c);
                    }
                }
                if before.contains(c) {
                    let j = choose|j: int| 0 <= j < before.len() && before[j] == c;
                    assert(before.push(character)[j] == c);
                }
                if c == character {
                    assert(before.push(character)[before.len() as int] == c);
                }
            }
        }
        i += 1;
    }
    assert(cs.subrange(0, cs.len() as int) =~= cs);
    Ok(())
}

pub open spec fn is_space(c: char) -> bool {
    c == ' ' || c == '\t' || c == '\n' || c == '\r'
}

/// The fields finished before character `n` of `cs`, and the field being read.
pub open spec fn split_state(cs: Seq<char>, n: int) -> (Seq<Seq<char>>, Seq<char>)
    decreases n,
{
    if n <= 0 {
        (seq![], seq![])
    } else {
        let (done, current) = split_state(cs, n - 1);
        if is_space(cs[n - 1]) {
            if current.len() > 0 {
                (done.push(current), seq![])
            } else {
                (done, current)
            }
        } else {
            (done, current.push(cs[n - 1]))
        }
    }
}

/// The runs of non-space characters of `cs`, in order.
pub open spec fn fields_of(cs: Seq<char>) -> Seq<Seq<char>> {
    let (done, current) = split_state(cs, cs.len() as int);
    if current.len() > 0 {
        done.push(current)
    } else {
        done
    }
}

/// The fields of `cs`: its runs of characters between spaces, tabs and line breaks.
pub fn split_fields(cs: &Vec<char>) -> (r: Vec<Vec<char>>)
    ensures
        r.len() == fields_of(cs@).len(),
        forall|k: int| 0 <= k < r.len() ==> (#[trigger] r[k])@ == fields_of(cs@)[k],
{
    let mut done: Vec<Vec<char>> = Vec::new();
    let mut current: Vec<char> = Vec::new();
    let mut i: usize = 0;
    while i < cs.len()
        invariant
            i <= cs.len(),
            done.len() == split_state(cs@, i as int).0.len(),
            forall|k: int| 0 <= k < done.len() ==> (#[trigger] done[k])@ == split_state(cs@, i as int).0[k],
            current@ == split_state(cs@, i as int).1,
        decreases cs.len() - i,
    {
        let c = cs[i];
        if c == ' ' || c == '\t' || c == '\n' || c == '\r' {
            if current.len() > 0 {
                let field = current;
                current = Vec::new();
                done.push(field);
            }
        } else {
            current.push(c);
        }
        i += 1;
    }
    if current.len() > 0 {
        done.push(current);
    }
    done
}

/// The characters of `s`, in order.
fn chars_of(s: &str) -> (r: Vec<char>)
    ensures
        r@ == s@,
{
    let n = s.unicode_len();
    let mut chars: Vec<char> = Vec::new();
    let mut i: usize = 0;
    while i < n
        invariant
            n == s@.len(),
            i <= n,
            chars@ == s@.subrange(0, i as int),
        decreases n - i,
    {
        chars.push(s.get_char(i));
        i += 1;
        assert(chars@ =~= s@.subrange(0, i as int));
    }
    assert(s@.subrange(0, n as int) =~= s@);
    chars
}

/// The board that a FEN text describes: its pieces and side to move, read from
/// its first three fields. The board starts with every castling right, and the
/// castling field (checked for valid letters) only grants rights, so every
/// right stays.
pub fn read_fen(fen: &str) -> (r: Result<ChessBoard, FenError>)
    ensures
        ({
            let fields = fields_of(fen@);
            &&& fields.len() < 3 ==> r == Err::<ChessBoard, FenError>(FenError::MissingField)
            &&& r is Ok <==> fields.len() >= 3 && scan(fields[0], fields[0].len() as int) is Some && fen_color(fields[1]) is Some
                && castling_ok(fields[2])
            &&& r matches Ok(board) ==> {
                &&& board.wf()
                &&& forall|k: PieceType, c: Color, t: int| 0 <= t < 64 ==> (#[trigger] bit(board.info(k, c).positions, t) <==> exists|n: int|
                    #[trigger] placed_at(fields[0], n, k, c, t))
                &&& Some(board.active_color) == fen_color(fields[1])
                &&& board.white_king_side_castle && board.white_queen_side_castle
                &&& board.black_king_side_castle && board.black_queen_side_castle
                &&& board.move_history@.len() == 0
            }
        }),
{
    let chars = chars_of(fen);
    let fields = split_fields(&chars);
    if fields.len() < 3 {
        return Err(FenError::MissingField);
    }
    let mut chess_board = ChessBoard::new(true);
    proof {
        assert forall|k: PieceType, c: Color, t: int| 0 <= t < 64 implies !#[trigger] bit(chess_board.info(k, c).positions, t) by {
            assert(chess_board.info(k, c) == crate::piece::initial_info(true, c, k));
        }
    }
    let ghost empty_board = chess_board;
    match set_board_positions(&mut chess_board, &fields[0]) {
        Ok(()) => {},
        Err(e) => return Err(e),
    }
    let ghost placed = chess_board;
    let ghost placement = fields_of(fen@)[0];
    assert(fields[0]@ == placement);
    match set_active_color(&mut chess_board, &fields[1]) {
        Ok(()) => {},
        Err(e) => return Err(e),
    }
    match set_castling_rights(&mut chess_board, &fields[2]) {
        Ok(()) => {},
        Err(e) => return Err(e),
    }
    proof {
        assert(chess_board.piece_infos@ == placed.piece_infos@);
        assert forall|k: PieceType, c: Color, t: int| 0 <= t < 64 implies (#[trigger] bit(chess_board.info(k, c).positions, t) <==> exists|n: int|
            #[trigger] placed_at(placement, n, k, c, t)) by {
            assert(chess_board.info(k, c) == placed.info(k, c));
            assert(!bit(empty_board.info(k, c).positions, t));
        }
    }
    Ok(chess_board)
}

} // verus!
