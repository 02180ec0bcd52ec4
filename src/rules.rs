//! The rules of chess over a mathematical model of the board.
use vstd::prelude::*;
use crate::color::{opponent, Color};
use crate::position::Position;
use crate::piece::{Kind, Piece, Square};
use crate::moves::Move;

verus! {

/// Which castling moves each side has not yet given up.
#[derive(Clone, Copy, Debug, PartialEq, Eq, Structural, PartialOrd, Ord, Hash)]
pub struct Rights {
    pub white_king_side: bool,
    pub white_queen_side: bool,
    pub black_king_side: bool,
    pub black_queen_side: bool,
}

/// The model of a board: the 64 cells in rank-major order (a1, b1, ..., h8),
/// the castling rights and the en-passant target.
pub struct BoardState {
    pub squares: Seq<Square>,
    pub rights: Rights,
    pub en_passant: Option<Position>,
}

pub open spec fn ix(f: int, r: int) -> int {
    r * 8 + f
}

pub open spec fn sq(v: BoardState, f: int, r: int) -> Square {
    v.squares[ix(f, r)]
}

pub open spec fn at(v: BoardState, p: Position) -> Square {
    sq(v, p.file as int, p.rank as int)
}

/// The square `p` holds a piece of color `c`.
pub open spec fn holds(v: BoardState, p: Position, c: Color) -> bool {
    at(v, p) is Occupied && at(v, p)->Occupied_0.color == c
}

pub open spec fn piece_of(c: Color, k: Kind) -> Square {
    Square::Occupied(Piece { color: c, kind: k })
}

pub open spec fn abs(x: int) -> int {
    if x < 0 {
        -x
    } else {
        x
    }
}

pub open spec fn sign(x: int) -> int {
    if x > 0 {
        1
    } else if x < 0 {
        -1
    } else {
        0
    }
}

/// `x` moved `k` steps in direction `s` (-1, 0 or 1).
pub open spec fn off(x: int, s: int, k: int) -> int {
    if s > 0 {
        x + k
    } else if s < 0 {
        x - k
    } else {
        x
    }
}

pub open spec fn df(a: Position, b: Position) -> int {
    b.file - a.file
}

pub open spec fn dr(a: Position, b: Position) -> int {
    b.rank - a.rank
}

/// The number of king steps from `a` to `b`.
pub open spec fn dist(a: Position, b: Position) -> int {
    if abs(df(a, b)) >= abs(dr(a, b)) {
        abs(df(a, b))
    } else {
        abs(dr(a, b))
    }
}

/// `a` and `b` are distinct squares of one file or one rank.
pub open spec fn straight(a: Position, b: Position) -> bool {
    (df(a, b) == 0) != (dr(a, b) == 0)
}

/// `a` and `b` are distinct squares of one diagonal.
pub open spec fn diagonal(a: Position, b: Position) -> bool {
    abs(df(a, b)) == abs(dr(a, b)) && df(a, b) != 0
}

/// Every square strictly between `a` and `b` on their line is empty.
pub open spec fn path_clear(v: BoardState, a: Position, b: Position) -> bool {
    forall|k: int|
        0 < k < dist(a, b) ==> (#[trigger] sq(
            v,
            off(a.file as int, sign(df(a, b)), k),
            off(a.rank as int, sign(dr(a, b)), k),
        )) is Empty
}

/// The rank direction in which pawns of color `c` advance.
pub open spec fn forward(c: Color) -> int {
    match c {
        Color::White => 1,
        Color::Black => -1,
    }
}

pub open spec fn start_rank(c: Color) -> int {
    match c {
        Color::White => 1,
        Color::Black => 6,
    }
}

pub open spec fn far_rank(c: Color) -> int {
    match c {
        Color::White => 7,
        Color::Black => 0,
    }
}

pub open spec fn back_rank(c: Color) -> int {
    match c {
        Color::White => 0,
        Color::Black => 7,
    }
}

/// Piece `p` standing on `a` attacks `b`, whatever stands on `b`; a pawn
/// attacks the two squares diagonally ahead of it.
pub open spec fn attacks(v: BoardState, a: Position, b: Position, p: Piece) -> bool {
    match p.kind {
        Kind::King => dist(a, b) == 1,
        Kind::Knight => (abs(df(a, b)) == 1 && abs(dr(a, b)) == 2) || (abs(df(a, b)) == 2 && abs(
            dr(a, b),
        ) == 1),
        Kind::Rook => straight(a, b) && path_clear(v, a, b),
        Kind::Bishop => diagonal(a, b) && path_clear(v, a, b),
        Kind::Queen => (straight(a, b) || diagonal(a, b)) && path_clear(v, a, b),
        Kind::Pawn => abs(df(a, b)) == 1 && dr(a, b) == forward(p.color),
    }
}

/// Some piece of color `by` attacks square `s`.
pub open spec fn attacked(v: BoardState, s: Position, by: Color) -> bool {
    exists|a: Position|
        a.wf() && #[trigger] holds(v, a, by) && attacks(v, a, s, at(v, a)->Occupied_0)
}

/// A king of color `c` stands on a square that the other color attacks.
pub open spec fn in_check(v: BoardState, c: Color) -> bool {
    exists|k: Position|
        k.wf() && #[trigger] at(v, k) == piece_of(c, Kind::King) && attacked(v, k, opponent(c))
}

/// A pawn of color `c` on `a` takes, en passant, the pawn that has just passed it
/// by a double step, landing on the en-passant target `b`.
pub open spec fn en_passant(v: BoardState, a: Position, b: Position, c: Color) -> bool {
    &&& abs(df(a, b)) == 1
    &&& dr(a, b) == forward(c)
    &&& v.en_passant == Some(b)
    &&& at(v, b) is Empty
    &&& sq(v, b.file as int, a.rank as int) == piece_of(opponent(c), Kind::Pawn)
}

/// A pawn of color `c` on `a` may go to `b`: one step forward onto an empty
/// square, two from its start rank over empty squares, or diagonally forward
/// onto an enemy piece or en passant.
pub open spec fn pawn_reaches(v: BoardState, a: Position, b: Position, c: Color) -> bool {
    ||| (df(a, b) == 0 && dr(a, b) == forward(c) && at(v, b) is Empty)
    ||| (df(a, b) == 0 && dr(a, b) == 2 * forward(c) && a.rank == start_rank(c) && sq(
        v,
        a.file as int,
        a.rank + forward(c),
    ) is Empty && at(v, b) is Empty)
    ||| (abs(df(a, b)) == 1 && dr(a, b) == forward(c) && holds(v, b, opponent(c)))
    ||| en_passant(v, a, b, c)
}

/// The piece of color `c` on `a` may go to `b` by the way it moves, ignoring
/// the safety of its own king.
pub open spec fn reaches(v: BoardState, a: Position, b: Position, c: Color) -> bool {
    &&& a.wf()
    &&& b.wf()
    &&& holds(v, a, c)
    &&& !holds(v, b, c)
    &&& if at(v, a)->Occupied_0.kind == Kind::Pawn {
        pawn_reaches(v, a, b, c)
    } else {
        attacks(v, a, b, at(v, a)->Occupied_0)
    }
}

pub open spec fn promotable(k: Kind) -> bool {
    k == Kind::Queen || k == Kind::Rook || k == Kind::Bishop || k == Kind::Knight
}

pub open spec fn right(r: Rights, c: Color, king_side: bool) -> bool {
    match (c, king_side) {
        (Color::White, true) => r.white_king_side,
        (Color::White, false) => r.white_queen_side,
        (Color::Black, true) => r.black_king_side,
        (Color::Black, false) => r.black_queen_side,
    }
}

pub open spec fn rank_pos(f: int, r: int) -> Position {
    Position { file: f as u8, rank: r as u8 }
}

/// Castling on the given side: the right is kept, king and rook stand on their
/// home squares, the squares between them are empty, and the king's square,
/// the square it crosses and the one it lands on are not attacked.
pub open spec fn can_castle(v: BoardState, c: Color, king_side: bool) -> bool {
    let r = back_rank(c);
    let e = opponent(c);
    &&& right(v.rights, c, king_side)
    &&& sq(v, 4, r) == piece_of(c, Kind::King)
    &&& !attacked(v, rank_pos(4, r), e)
    &&& if king_side {
        &&& sq(v, 7, r) == piece_of(c, Kind::Rook)
        &&& sq(v, 5, r) is Empty
        &&& sq(v, 6, r) is Empty
        &&& !attacked(v, rank_pos(5, r), e)
        &&& !attacked(v, rank_pos(6, r), e)
    } else {
        &&& sq(v, 0, r) == piece_of(c, Kind::Rook)
        &&& sq(v, 1, r) is Empty
        &&& sq(v, 2, r) is Empty
        &&& sq(v, 3, r) is Empty
        &&& !attacked(v, rank_pos(3, r), e)
        &&& !attacked(v, rank_pos(2, r), e)
    }
}

/// The rights left once a move has started or ended on `p`: a king or rook
/// leaving its home square, or a rook taken there, ends the matching rights.
pub open spec fn clear_rights(r: Rights, p: Position) -> Rights {
    let (f, k) = (p.file as int, p.rank as int);
    Rights {
        white_king_side: r.white_king_side && !(k == 0 && (f == 4 || f == 7)),
        white_queen_side: r.white_queen_side && !(k == 0 && (f == 4 || f == 0)),
        black_king_side: r.black_king_side && !(k == 7 && (f == 4 || f == 7)),
        black_queen_side: r.black_queen_side && !(k == 7 && (f == 4 || f == 0)),
    }
}

/// What lands on `b` when the piece on `a` moves there by a plain move: a pawn
/// reaching the far rank becomes a queen.
pub open spec fn landing(v: BoardState, a: Position, b: Position, c: Color) -> Square {
    match at(v, a) {
        Square::Occupied(p) => if p.kind == Kind::Pawn && b.rank == far_rank(c) {
            piece_of(p.color, Kind::Queen)
        } else {
            Square::Occupied(p)
        },
        Square::Empty => Square::Empty,
    }
}

pub open spec fn pawn_on(v: BoardState, a: Position) -> bool {
    at(v, a) is Occupied && at(v, a)->Occupied_0.kind == Kind::Pawn
}

/// The board after the piece on `a` moves to `b`, with `land` put on `b`.
pub open spec fn move_piece(v: BoardState, a: Position, b: Position, land: Square) -> BoardState {
    let s1 = v.squares.update(b.idx(), land).update(a.idx(), Square::Empty);
    let takes_en_passant = pawn_on(v, a) && a.file != b.file && at(v, b) is Empty;
    let double_step = pawn_on(v, a) && df(a, b) == 0 && abs(dr(a, b)) == 2;
    BoardState {
        squares: if takes_en_passant {
            s1.update(ix(b.file as int, a.rank as int), Square::Empty)
        } else {
            s1
        },
        rights: clear_rights(clear_rights(v.rights, a), b),
        en_passant: if double_step {
            Some(Position { file: a.file, rank: ((a.rank + b.rank) / 2) as u8 })
        } else {
            None
        },
    }
}

/// The board after color `c` castles on the given side.
pub open spec fn castle(v: BoardState, c: Color, king_side: bool) -> BoardState {
    let r = back_rank(c);
    let (king_to, rook_from, rook_to) = if king_side {
        (6int, 7int, 5int)
    } else {
        (2int, 0int, 3int)
    };
    BoardState {
        squares: v.squares.update(ix(4, r), Square::Empty).update(
            ix(rook_from, r),
            Square::Empty,
        ).update(ix(king_to, r), piece_of(c, Kind::King)).update(
            ix(rook_to, r),
            piece_of(c, Kind::Rook),
        ),
        rights: match c {
            Color::White => Rights {
                white_king_side: false,
                white_queen_side: false,
                ..v.rights
            },
            Color::Black => Rights {
                black_king_side: false,
                black_queen_side: false,
                ..v.rights
            },
        },
        en_passant: None,
    }
}

/// The board after color `c` plays `m`, taken as already allowed.
pub open spec fn apply_move(v: BoardState, m: Move, c: Color) -> BoardState {
    match m {
        Move::Piece(a, b) => move_piece(v, a, b, landing(v, a, b, c)),
        Move::Promotion(a, b, k) => move_piece(v, a, b, piece_of(c, k)),
        Move::KingSideCastle => castle(v, c, true),
        Move::QueenSideCastle => castle(v, c, false),
        Move::Resign => v,
    }
}

/// `m` follows the movement rules for color `c`, ignoring the safety of its
/// own king.
pub open spec fn pseudo_legal(v: BoardState, m: Move, c: Color) -> bool {
    match m {
        Move::Piece(a, b) => reaches(v, a, b, c),
        Move::Promotion(a, b, k) => reaches(v, a, b, c) && pawn_on(v, a) && b.rank == far_rank(c)
            && promotable(k),
        Move::KingSideCastle => can_castle(v, c, true),
        Move::QueenSideCastle => can_castle(v, c, false),
        Move::Resign => false,
    }
}

/// `m` follows the movement rules and leaves no king of color `c` in check.
pub open spec fn legal(v: BoardState, m: Move, c: Color) -> bool {
    pseudo_legal(v, m, c) && !in_check(apply_move(v, m, c), c)
}

pub open spec fn has_legal_move(v: BoardState, c: Color) -> bool {
    exists|m: Move| #[trigger] legal(v, m, c)
}

/// How many cells of `s` hold `x`.
pub open spec fn count(s: Seq<Square>, x: Square) -> nat
    decreases s.len(),
{
    if s.len() == 0 {
        0
    } else {
        count(s.drop_last(), x) + if s.last() == x {
            1nat
        } else {
            0
        }
    }
}

/// Color `c` has at most a king with two knights, or a king with two bishops.
pub open spec fn side_insufficient(v: BoardState, c: Color) -> bool {
    let n = |k: Kind| count(v.squares, piece_of(c, k));
    &&& n(Kind::Queen) == 0
    &&& n(Kind::Rook) == 0
    &&& n(Kind::Pawn) == 0
    &&& ((n(Kind::Knight) <= 2 && n(Kind::Bishop) == 0) || (n(Kind::Knight) == 0 && n(
        Kind::Bishop,
    ) <= 2))
}

/// Neither side has material enough to force checkmate.
pub open spec fn insufficient(v: BoardState) -> bool {
    side_insufficient(v, Color::White) && side_insufficient(v, Color::Black)
}

} // verus!
