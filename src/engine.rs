//! The rules engine facade. Positions cross this boundary as FEN strings; the
//! engine itself is the `chess` crate, reached only through the wrappers below.

use std::str::FromStr;
use vstd::prelude::*;
use crate::protocol::PlayerColor;

verus! {

/// A piece that a pawn may promote to.
#[derive(Debug, Clone, Copy, PartialEq, Eq, Structural)]
pub enum Promotion {
    Queen,
    Rook,
    Bishop,
    Knight,
}

/// The kind of a piece standing on a square.
#[derive(Debug, Clone, Copy, PartialEq, Eq, Structural)]
pub enum PieceKind {
    Pawn,
    Knight,
    Bishop,
    Rook,
    Queen,
    King,
}

/// Whether a position is still being played.
#[derive(Debug, Clone, Copy, PartialEq, Eq, Structural)]
pub enum BoardStatus {
    Ongoing,
    Stalemate,
    Checkmate,
}

/// A candidate move: squares are numbered `rank * 8 + file` from a1 = 0.
#[derive(Debug, Clone, Copy, PartialEq, Eq, Structural)]
pub struct EngineMove {
    pub from: u8,
    pub to: u8,
    pub promotion: Option<Promotion>,
}

/// Whether the engine accepts the move in the position.
pub uninterp spec fn is_legal_in(fen: Seq<char>, from: u8, to: u8, promotion: Option<Promotion>) -> bool;

/// The position the engine produces after the move.
pub uninterp spec fn position_after(
    fen: Seq<char>,
    from: u8,
    to: u8,
    promotion: Option<Promotion>,
) -> Seq<char>;

/// The engine's verdict on a position: ongoing, stalemate or checkmate.
pub uninterp spec fn status_of(fen: Seq<char>) -> BoardStatus;

/// The side whose turn it is in the position.
pub uninterp spec fn side_to_move_of(fen: Seq<char>) -> PlayerColor;

/// The piece on a square of the position, if any.
pub uninterp spec fn piece_at(fen: Seq<char>, square: u8) -> Option<PieceKind>;

/// The standard initial position.
pub open spec fn start_fen() -> Seq<char> {
    "rnbqkbnr/pppppppp/8/8/8/8/PPPPPPPP/RNBQKBNR w KQkq - 0 1"@
}

pub open spec fn legal(fen: Seq<char>, m: EngineMove) -> bool {
    is_legal_in(fen, m.from, m.to, m.promotion)
}

pub open spec fn after(fen: Seq<char>, m: EngineMove) -> Seq<char> {
    position_after(fen, m.from, m.to, m.promotion)
}

/// The position reached by playing `line` from the initial position.
pub open spec fn replay(line: Seq<EngineMove>) -> Seq<char>
    decreases line.len(),
{
    if line.len() == 0 {
        start_fen()
    } else {
        after(replay(line.drop_last()), line.last())
    }
}

/// Every move of `line` is legal where it is played.
pub open spec fn legal_line(line: Seq<EngineMove>) -> bool
    decreases line.len(),
{
    line.len() == 0 || (legal_line(line.drop_last()) && legal(replay(line.drop_last()), line.last()))
}

/// A position that some legal sequence of moves reaches from the start. The
/// engine reads back every FEN that it printed for such a position; on other
/// text its parser may panic (a board without a king, for one), so each
/// wrapper below asks for a reachable position.
pub open spec fn reachable(fen: Seq<char>) -> bool {
    exists|line: Seq<EngineMove>| legal_line(line) && #[trigger] replay(line) == fen
}

pub open spec fn well_formed_move(m: EngineMove) -> bool {
    m.from < 64 && m.to < 64
}

/// Relies on `chess::Board`'s `Default` (the initial position, White to move)
/// and its `Display`, which prints the position as FEN.
#[verifier::external_body]
pub(crate) fn start_position() -> (r: String)
    ensures
        r@ == start_fen(),
        side_to_move_of(r@) == PlayerColor::White,
{
    format!("{}", chess::Board::default())
}

/// Relies on `chess::Board::legal`, after reading the position with
/// `chess::Board::from_str`.
#[verifier::external_body]
pub(crate) fn engine_legal(fen: &String, m: EngineMove) -> (r: bool)
    requires
        reachable(fen@),
        well_formed_move(m),
    ensures
        r == is_legal_in(fen@, m.from, m.to, m.promotion),
{
    let piece = match m.promotion {
        Some(Promotion::Queen) => Some(chess::Piece::Queen),
        Some(Promotion::Rook) => Some(chess::Piece::Rook),
        Some(Promotion::Bishop) => Some(chess::Piece::Bishop),
        Some(Promotion::Knight) => Some(chess::Piece::Knight),
        None => None,
    };
    let mv = chess::ChessMove::new(chess::ALL_SQUARES[m.from as usize], chess::ALL_SQUARES[m.to as usize], piece);
    match chess::Board::from_str(fen) {
        Ok(b) => b.legal(mv),
        Err(_) => false,
    }
}

/// Relies on `chess::Board::make_move_new`, between `chess::Board::from_str`
/// and the FEN that `Display` prints; a move hands the turn to the other side.
#[verifier::external_body]
pub(crate) fn engine_apply(fen: &String, m: EngineMove) -> (r: String)
    requires
        reachable(fen@),
        well_formed_move(m),
        legal(fen@, m),
    ensures
        r@ == position_after(fen@, m.from, m.to, m.promotion),
        side_to_move_of(r@) == side_to_move_of(fen@).other(),
{
    let piece = match m.promotion {
        Some(Promotion::Queen) => Some(chess::Piece::Queen),
        Some(Promotion::Rook) => Some(chess::Piece::Rook),
        Some(Promotion::Bishop) => Some(chess::Piece::Bishop),
        Some(Promotion::Knight) => Some(chess::Piece::Knight),
        None => None,
    };
    let mv = chess::ChessMove::new(chess::ALL_SQUARES[m.from as usize], chess::ALL_SQUARES[m.to as usize], piece);
    match chess::Board::from_str(fen) {
        Ok(b) => format!("{}", b.make_move_new(mv)),
        Err(_) => fen.clone(),
    }
}

/// Relies on `chess::Board::status` for checkmate and stalemate detection.
#[verifier::external_body]
pub(crate) fn engine_status(fen: &String) -> (r: BoardStatus)
    requires
        reachable(fen@),
    ensures
        r == status_of(fen@),
{
    match chess::Board::from_str(fen) {
        Ok(b) => match b.status() {
            chess::BoardStatus::Ongoing => BoardStatus::Ongoing,
            chess::BoardStatus::Stalemate => BoardStatus::Stalemate,
            chess::BoardStatus::Checkmate => BoardStatus::Checkmate,
        },
        Err(_) => BoardStatus::Ongoing,
    }
}

/// Relies on `chess::Board::side_to_move`.
#[verifier::external_body]
pub(crate) fn engine_side_to_move(fen: &String) -> (r: PlayerColor)
    requires
        reachable(fen@),
    ensures
        r == side_to_move_of(fen@),
{
    match chess::Board::from_str(fen) {
        Ok(b) => match b.side_to_move() {
            chess::Color::White => PlayerColor::White,
            chess::Color::Black => PlayerColor::Black,
        },
        Err(_) => PlayerColor::White,
    }
}

/// Relies on `chess::Board::piece_on`.
#[verifier::external_body]
pub(crate) fn engine_piece_on(fen: &String, square: u8) -> (r: Option<PieceKind>)
    requires
        reachable(fen@),
        square < 64,
    ensures
        r == piece_at(fen@, square),
{
    match chess::Board::from_str(fen) {
        Ok(b) => match b.piece_on(chess::ALL_SQUARES[square as usize]) {
            Some(chess::Piece::Pawn) => Some(PieceKind::Pawn),
            Some(chess::Piece::Knight) => Some(PieceKind::Knight),
            Some(chess::Piece::Bishop) => Some(PieceKind::Bishop),
            Some(chess::Piece::Rook) => Some(PieceKind::Rook),
            Some(chess::Piece::Queen) => Some(PieceKind::Queen),
            Some(chess::Piece::King) => Some(PieceKind::King),
            None => None,
        },
        Err(_) => None,
    }
}

/// The square that a coordinate such as `e4` names: its first character is
/// the file `a`..`h`, its second the rank `1`..`8`; anything after is ignored.
pub open spec fn square_of(s: Seq<char>) -> Option<u8> {
    if s.len() >= 2 && 97 <= (s[0] as u32) <= 104 && 49 <= (s[1] as u32) <= 56 {
        Some((((s[1] as u32) - 49) * 8 + ((s[0] as u32) - 97)) as u8)
    } else {
        None
    }
}

/// Reads a square coordinate.
pub fn parse_square(s: &str) -> (r: Option<u8>)
    ensures
        r == square_of(s@),
        r is Some ==> r->0 < 64,
{
    let n = s.unicode_len();
    if n < 2 {
        return None;
    }
    let file = s.get_char(0) as u32;
    let rank = s.get_char(1) as u32;
    if 97 <= file && file <= 104 && 49 <= rank && rank <= 56 {
        Some(((rank - 49) * 8 + (file - 97)) as u8)
    } else {
        None
    }
}

/// The promotion piece that a client's letter asks for; any other text asks
/// for none.
pub open spec fn promotion_of(p: Option<Seq<char>>) -> Option<Promotion> {
    match p {
        Some(s) => if s == seq!['q'] {
            Some(Promotion::Queen)
        } else if s == seq!['r'] {
            Some(Promotion::Rook)
        } else if s == seq!['b'] {
            Some(Promotion::Bishop)
        } else if s == seq!['n'] {
            Some(Promotion::Knight)
        } else {
            None
        },
        None => None,
    }
}

pub open spec fn text_of(p: Option<&str>) -> Option<Seq<char>> {
    match p {
        Some(s) => Some(s@),
        None => None,
    }
}

/// Reads the promotion letter of a move request.
pub fn parse_promotion(p: Option<&str>) -> (r: Option<Promotion>)
    ensures
        r == promotion_of(text_of(p)),
{
    match p {
        Some(s) => {
            if s.unicode_len() != 1 {
                return None;
            }
            let c = s.get_char(0);
            proof {
                assert(s@ =~= seq![c]);
            }
            if c == 'q' {
                Some(Promotion::Queen)
            } else if c == 'r' {
                Some(Promotion::Rook)
            } else if c == 'b' {
                Some(Promotion::Bishop)
            } else if c == 'n' {
                Some(Promotion::Knight)
            } else {
                None
            }
        },
        None => None,
    }
}

} // verus!
