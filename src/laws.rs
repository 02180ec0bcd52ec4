//! Facts about every board and every move, proved from the rules.
use vstd::prelude::*;
use crate::color::{opponent, Color};
use crate::position::Position;
use crate::piece::{Kind, Square};
use crate::moves::Move;
use crate::rules::{
    abs, apply_move, at, attacked, attacks, back_rank, can_castle, castle, count, df, dr,
    diagonal, dist, holds, in_check, ix, legal, off, path_clear, pawn_on, piece_of, rank_pos,
    reaches, right, sign, sq, straight, BoardState,
};

verus! {

/// Putting `x` into cell `i` changes how many cells hold `y` by what left
/// and what came.
pub proof fn lemma_count_update(s: Seq<Square>, i: int, x: Square, y: Square)
    requires
        0 <= i < s.len(),
    ensures
        count(s.update(i, x), y) == count(s, y) - (if s[i] == y {
            1int
        } else {
            0
        }) + (if x == y {
            1int
        } else {
            0
        }),
    decreases s.len(),
{
    if i == s.len() - 1 {
        assert(s.update(i, x).drop_last() =~= s.drop_last());
    } else {
        assert(s.update(i, x).drop_last() =~= s.drop_last().update(i, x));
        lemma_count_update(s.drop_last(), i, x, y);
    }
}

/// Each color has exactly one king.
pub open spec fn one_king_each(v: BoardState) -> bool {
    count(v.squares, piece_of(Color::White, Kind::King)) == 1 && count(
        v.squares,
        piece_of(Color::Black, Kind::King),
    ) == 1
}

/// A legal move keeps exactly one king of each color on the board, on every
/// board where the side that just moved is not left in check (as on every
/// board reached by play).
pub proof fn legal_move_keeps_one_king_each(v: BoardState, m: Move, c: Color)
    requires
        v.squares.len() == 64,
        one_king_each(v),
        !in_check(v, opponent(c)),
        legal(v, m, c),
    ensures
        one_king_each(apply_move(v, m, c)),
{
    let kw = piece_of(Color::White, Kind::King);
    let kb = piece_of(Color::Black, Kind::King);
    match m {
        Move::Piece(a, b) => {
            lemma_no_king_taken(v, a, b, c);
            lemma_piece_move_counts(v, a, b, apply_move(v, m, c).squares[b.idx()], c, kw);
            lemma_piece_move_counts(v, a, b, apply_move(v, m, c).squares[b.idx()], c, kb);
        },
        Move::Promotion(a, b, k) => {
            lemma_no_king_taken(v, a, b, c);
            lemma_piece_move_counts(v, a, b, piece_of(c, k), c, kw);
            lemma_piece_move_counts(v, a, b, piece_of(c, k), c, kb);
        },
        Move::KingSideCastle => {
            lemma_castle_counts(v, c, true, kw);
            lemma_castle_counts(v, c, true, kb);
        },
        Move::QueenSideCastle => {
            lemma_castle_counts(v, c, false, kw);
            lemma_castle_counts(v, c, false, kb);
        },
        Move::Resign => {},
    }
}

/// The invariant of play: with one king of each color and the side that just
/// moved not in check, a legal move keeps one king of each color, keeps the
/// board's 64 cells, and leaves the mover (now the side that just moved) out
/// of check.
pub proof fn legal_move_keeps_invariant(v: BoardState, m: Move, c: Color)
    requires
        v.squares.len() == 64,
        one_king_each(v),
        !in_check(v, opponent(c)),
        legal(v, m, c),
    ensures
        apply_move(v, m, c).squares.len() == 64,
        one_king_each(apply_move(v, m, c)),
        !in_check(apply_move(v, m, c), opponent(opponent(c))),
{
    legal_move_keeps_one_king_each(v, m, c);
    assert(opponent(opponent(c)) == c);
}

/// No legal move lands on a king, on every board where the side that just
/// moved is not left in check (as on every board reached by play).
pub proof fn legal_move_takes_no_king(v: BoardState, a: Position, b: Position, m: Move, c: Color)
    requires
        v.squares.len() == 64,
        !in_check(v, opponent(c)),
        legal(v, m, c),
        m == Move::Piece(a, b) || exists|k: Kind| m == Move::Promotion(a, b, k),
    ensures
        at(v, b) != piece_of(Color::White, Kind::King),
        at(v, b) != piece_of(Color::Black, Kind::King),
{
    lemma_no_king_taken(v, a, b, c);
}

/// A move by the rules never lands on the enemy king while that king is not
/// in check.
proof fn lemma_no_king_taken(v: BoardState, a: Position, b: Position, c: Color)
    requires
        v.squares.len() == 64,
        reaches(v, a, b, c),
        !in_check(v, opponent(c)),
    ensures
        at(v, b) != piece_of(opponent(c), Kind::King),
{
    if at(v, b) == piece_of(opponent(c), Kind::King) {
        let p = at(v, a)->Occupied_0;
        assert(attacks(v, a, b, p));
        assert(crate::rules::holds(v, a, c));
        assert(opponent(opponent(c)) == c);
        assert(attacked(v, b, c));
        assert(in_check(v, opponent(c)));
    }
}

proof fn lemma_piece_move_counts(
    v: BoardState,
    a: Position,
    b: Position,
    land: Square,
    c: Color,
    y: Square,
)
    requires
        v.squares.len() == 64,
        reaches(v, a, b, c),
        at(v, b) != piece_of(opponent(c), Kind::King),
        at(v, a) == piece_of(c, Kind::King) ==> land == at(v, a),
        at(v, a) != piece_of(c, Kind::King) ==> land != piece_of(c, Kind::King),
        land != piece_of(opponent(c), Kind::King),
        y == piece_of(Color::White, Kind::King) || y == piece_of(Color::Black, Kind::King),
    ensures
        count(crate::rules::move_piece(v, a, b, land).squares, y) == count(v.squares, y),
{
    let s = v.squares;
    let s1 = s.update(b.idx(), land);
    let s2 = s1.update(a.idx(), Square::Empty);
    assert(a != b);
    assert(a.idx() != b.idx());
    assert(s1[a.idx()] == s[a.idx()]);
    lemma_count_update(s, b.idx(), land, y);
    lemma_count_update(s1, a.idx(), Square::Empty, y);
    if pawn_on(v, a) && a.file != b.file && at(v, b) is Empty {
        let e = ix(b.file as int, a.rank as int);
        assert(crate::rules::en_passant(v, a, b, c));
        assert(e != a.idx() && e != b.idx());
        assert(s2[e] == s[e]);
        assert(s[e] == piece_of(opponent(c), Kind::Pawn));
        lemma_count_update(s2, e, Square::Empty, y);
    }
}

proof fn lemma_castle_counts(v: BoardState, c: Color, king_side: bool, y: Square)
    requires
        v.squares.len() == 64,
        can_castle(v, c, king_side),
        y == piece_of(Color::White, Kind::King) || y == piece_of(Color::Black, Kind::King),
    ensures
        count(castle(v, c, king_side).squares, y) == count(v.squares, y),
{
    let r = back_rank(c);
    let (king_to, rook_from, rook_to) = if king_side {
        (6int, 7int, 5int)
    } else {
        (2int, 0int, 3int)
    };
    let s0 = v.squares;
    let s1 = s0.update(ix(4, r), Square::Empty);
    let s2 = s1.update(ix(rook_from, r), Square::Empty);
    let s3 = s2.update(ix(king_to, r), piece_of(c, Kind::King));
    let s4 = s3.update(ix(rook_to, r), piece_of(c, Kind::Rook));
    lemma_count_update(s0, ix(4, r), Square::Empty, y);
    lemma_count_update(s1, ix(rook_from, r), Square::Empty, y);
    lemma_count_update(s2, ix(king_to, r), piece_of(c, Kind::King), y);
    lemma_count_update(s3, ix(rook_to, r), piece_of(c, Kind::Rook), y);
}

/// Castling is legal exactly when its conditions hold (right kept, king and
/// rook at home, the squares between empty, the king's start, crossing and
/// landing squares unattacked) and the king is not in check afterwards.
pub proof fn castling_legal_iff(v: BoardState, c: Color, king_side: bool)
    ensures
        legal(
            v,
            if king_side {
                Move::KingSideCastle
            } else {
                Move::QueenSideCastle
            },
            c,
        ) <==> can_castle(v, c, king_side) && !in_check(castle(v, c, king_side), c),
{
}

/// A cell that holds `x` makes the count of `x` positive.
pub proof fn lemma_count_positive(s: Seq<Square>, x: Square, j: int)
    requires
        0 <= j < s.len(),
        s[j] == x,
    ensures
        count(s, x) >= 1,
    decreases s.len(),
{
    if j < s.len() - 1 {
        lemma_count_positive(s.drop_last(), x, j);
    }
}

/// A piece counted once stands in one cell only.
pub proof fn lemma_count_one_unique(s: Seq<Square>, x: Square, i: int, j: int)
    requires
        x is Occupied,
        count(s, x) == 1,
        0 <= i < s.len(),
        0 <= j < s.len(),
        s[i] == x,
        s[j] == x,
    ensures
        i == j,
{
    if i != j {
        lemma_count_update(s, i, Square::Empty, x);
        lemma_count_positive(s.update(i, Square::Empty), x, j);
    }
}

/// A sliding attack onto the castled king's square in the new position was
/// already open before castling: the squares that castling empties lie
/// behind the rook that it places.
proof fn lemma_castled_path(v: BoardState, c: Color, king_side: bool, a: Position)
    requires
        v.squares.len() == 64,
        a.wf(),
        path_clear(
            castle(v, c, king_side),
            a,
            rank_pos(if king_side { 6 } else { 2 }, back_rank(c)),
        ),
        straight(a, rank_pos(if king_side { 6 } else { 2 }, back_rank(c))) || diagonal(
            a,
            rank_pos(if king_side { 6 } else { 2 }, back_rank(c)),
        ),
    ensures
        path_clear(v, a, rank_pos(if king_side { 6 } else { 2 }, back_rank(c))),
{
    let w = castle(v, c, king_side);
    let r = back_rank(c);
    let kt: int = if king_side { 6 } else { 2 };
    let rt: int = if king_side { 5 } else { 3 };
    let t = rank_pos(kt, r);
    let sf = sign(df(a, t));
    let sr = sign(dr(a, t));
    assert(t.wf());
    assert forall|k: int| 0 < k < dist(a, t) implies (#[trigger] sq(
        v,
        off(a.file as int, sf, k),
        off(a.rank as int, sr, k),
    )) is Empty by {
        let pf = off(a.file as int, sf, k);
        let pr = off(a.rank as int, sr, k);
        assert(sq(w, pf, pr) is Empty);
        assert(0 <= pf < 8 && 0 <= pr < 8);
        if pr == r && (pf == 4 || pf == 0 || pf == 7) {
            let k2: int = if a.file < rt { rt - a.file } else { a.file - rt };
            assert(off(a.file as int, sf, k2) == rt);
            assert(off(a.rank as int, sr, k2) == r);
            assert(sq(w, off(a.file as int, sf, k2), off(a.rank as int, sr, k2)) is Empty);
        }
    }
}

/// On a board with one king of each color, castling is legal exactly when
/// its conditions hold: right kept, king and rook at home, the squares
/// between them empty, and the king's start, crossing and landing squares
/// unattacked.
pub proof fn castling_legal_iff_conditions(v: BoardState, c: Color, king_side: bool)
    requires
        v.squares.len() == 64,
        one_king_each(v),
    ensures
        legal(
            v,
            if king_side {
                Move::KingSideCastle
            } else {
                Move::QueenSideCastle
            },
            c,
        ) <==> can_castle(v, c, king_side),
{
    if can_castle(v, c, king_side) {
        let w = castle(v, c, king_side);
        let r = back_rank(c);
        let e = opponent(c);
        let kc = piece_of(c, Kind::King);
        let kt: int = if king_side { 6 } else { 2 };
        let t = rank_pos(kt, r);
        lemma_castle_counts(v, c, king_side, kc);
        if in_check(w, c) {
            let k = choose|k: Position|
                k.wf() && #[trigger] at(w, k) == kc && attacked(w, k, opponent(c));
            assert(w.squares[ix(kt, r)] == kc);
            lemma_count_one_unique(w.squares, kc, k.idx(), ix(kt, r));
            assert(k == t);
            let a = choose|a: Position|
                a.wf() && #[trigger] holds(w, a, e) && attacks(w, a, t, at(w, a)->Occupied_0);
            assert(at(v, a) == at(w, a));
            let p = at(w, a)->Occupied_0;
            if p.kind == Kind::Rook || p.kind == Kind::Bishop || p.kind == Kind::Queen {
                lemma_castled_path(v, c, king_side, a);
            }
            assert(attacks(v, a, t, p));
            assert(holds(v, a, e));
            assert(attacked(v, t, e));
        }
    }
}

/// No move ever gives a castling right back.
pub proof fn castling_rights_never_return(
    v: BoardState,
    m: Move,
    c: Color,
    side: Color,
    king_side: bool,
)
    ensures
        right(apply_move(v, m, c).rights, side, king_side) ==> right(v.rights, side, king_side),
{
}

/// The square on which the king of color `side` starts.
pub open spec fn king_home(side: Color) -> Position {
    Position { file: 4, rank: back_rank(side) as u8 }
}

/// The square on which the rook of color `side` starts, on the given side.
pub open spec fn rook_home(side: Color, king_side: bool) -> Position {
    Position {
        file: if king_side {
            7
        } else {
            0
        },
        rank: back_rank(side) as u8,
    }
}

/// A move from or to a king's home square ends both of that color's castling
/// rights; one from or to a rook's home square ends the matching right.
pub proof fn home_square_move_revokes(
    v: BoardState,
    a: Position,
    b: Position,
    c: Color,
    side: Color,
    king_side: bool,
)
    ensures
        (a == king_home(side) || b == king_home(side)) ==> !right(
            apply_move(v, Move::Piece(a, b), c).rights,
            side,
            king_side,
        ),
        (a == rook_home(side, king_side) || b == rook_home(side, king_side)) ==> !right(
            apply_move(v, Move::Piece(a, b), c).rights,
            side,
            king_side,
        ),
{
}

/// A king that steps off its home square and later steps back has lost both
/// castling rights for good, whatever the opponent played between.
pub proof fn king_step_and_back_revokes(
    v: BoardState,
    b: Position,
    c: Color,
    reply: Move,
    king_side: bool,
)
    ensures
        ({
            let a = king_home(c);
            let v1 = apply_move(v, Move::Piece(a, b), c);
            let v2 = apply_move(v1, reply, opponent(c));
            let v3 = apply_move(v2, Move::Piece(b, a), c);
            !right(v3.rights, c, king_side)
        }),
{
    let a = king_home(c);
    let v1 = apply_move(v, Move::Piece(a, b), c);
    let v2 = apply_move(v1, reply, opponent(c));
    home_square_move_revokes(v, a, b, c, c, king_side);
    castling_rights_never_return(v1, reply, opponent(c), c, king_side);
    home_square_move_revokes(v2, b, a, c, c, king_side);
}

/// `m` moves a pawn two squares straight ahead.
pub open spec fn double_step(v: BoardState, m: Move) -> bool {
    match m {
        Move::Piece(a, b) => pawn_on(v, a) && df(a, b) == 0 && abs(dr(a, b)) == 2,
        Move::Promotion(a, b, _) => pawn_on(v, a) && df(a, b) == 0 && abs(dr(a, b)) == 2,
        _ => false,
    }
}

/// A pawn moving diagonally onto an empty square: an en-passant capture.
pub open spec fn diagonal_to_empty(v: BoardState, a: Position, b: Position) -> bool {
    pawn_on(v, a) && a.file != b.file && at(v, b) is Empty
}

/// Only a double pawn step leaves an en-passant target. (Resigning leaves
/// the board as it was.)
pub proof fn en_passant_target_only_after_double_step(v: BoardState, m: Move, c: Color)
    requires
        !(m is Resign),
    ensures
        apply_move(v, m, c).en_passant is Some ==> double_step(v, m),
{
}

/// An en-passant capture goes by the rules only onto the current target.
pub proof fn en_passant_needs_target(v: BoardState, a: Position, b: Position, c: Color)
    requires
        reaches(v, a, b, c),
        diagonal_to_empty(v, a, b),
    ensures
        v.en_passant == Some(b),
{
}

/// After any board move other than a double pawn step, the opponent has no
/// en-passant capture on the next move: the chance lasts one ply only.
pub proof fn en_passant_expires(v: BoardState, m: Move, c: Color, a: Position, b: Position)
    requires
        !(m is Resign),
        !double_step(v, m),
    ensures
        ({
            let w = apply_move(v, m, c);
            !(reaches(w, a, b, opponent(c)) && diagonal_to_empty(w, a, b))
        }),
{
    en_passant_target_only_after_double_step(v, m, c);
    let w = apply_move(v, m, c);
    if reaches(w, a, b, opponent(c)) && diagonal_to_empty(w, a, b) {
        en_passant_needs_target(w, a, b, opponent(c));
    }
}

/// A move that leaves the mover's own king in check is illegal, even when it
/// follows the movement rules: a pinned piece cannot leave its line.
pub proof fn self_check_is_illegal(v: BoardState, m: Move, c: Color)
    requires
        in_check(apply_move(v, m, c), c),
    ensures
        !legal(v, m, c),
{
}

} // verus!
