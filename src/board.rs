//! The board and its legality engine.
use vstd::prelude::*;
use crate::color::{opponent, Color};
use crate::position::Position;
use crate::piece::{Kind, Piece, Square};
use crate::moves::{move_on_board, Move};
use crate::rules::{
    abs, apply_move, at, attacked, attacks, can_castle, castle, clear_rights, count, df, diagonal,
    dist, dr, en_passant, forward, has_legal_move, holds, in_check, insufficient, ix, legal,
    move_piece, off, path_clear, pawn_reaches, piece_of, pseudo_legal, reaches, side_insufficient,
    sign, sq, straight, BoardState, Rights,
};

verus! {

broadcast use vstd::seq_lib::lemma_seq_contains_after_push;

/// An 8x8 board with castling rights and the en-passant target.
#[derive(Clone, Debug, PartialEq, Eq)]
pub struct Board {
    /// The 64 cells in rank-major order: a1, b1, ..., h1, a2, ..., h8.
    pub squares: Vec<Square>,
    pub rights: Rights,
    pub en_passant: Option<Position>,
}

impl View for Board {
    type V = BoardState;

    open spec fn view(&self) -> BoardState {
        BoardState { squares: self.squares@, rights: self.rights, en_passant: self.en_passant }
    }
}

/// The square with the given index in rank-major order.
pub fn pos_of(i: usize) -> (p: Position)
    requires
        i < 64,
    ensures
        p.wf(),
        p.idx() == i,
        p == pos_of_spec(i as int),
{
    Position { file: (i % 8) as u8, rank: (i / 8) as u8 }
}

pub open spec fn pos_of_spec(i: int) -> Position {
    Position { file: (i % 8) as u8, rank: (i / 8) as u8 }
}

/// Where a move from one square to another comes in the order in which
/// `legal_moves` looks at them.
pub open spec fn move_order(m: Move) -> int {
    match m {
        Move::Piece(a, b) => a.idx() * 64 + b.idx(),
        Move::Promotion(a, b, _) => a.idx() * 64 + b.idx(),
        _ => -1,
    }
}

/// Color `c` may play no move from `a` to `b`, plain or promoting.
pub open spec fn none_between(v: BoardState, a: Position, b: Position, c: Color) -> bool {
    !legal(v, Move::Piece(a, b), c) && forall|k: Kind| !#[trigger] legal(v, Move::Promotion(a, b, k), c)
}

/// Two squares on the board with the same index are the same square.
pub proof fn lemma_idx_injective(p: Position, q: Position)
    requires
        p.wf(),
        q.wf(),
        p.idx() == q.idx(),
    ensures
        p == q,
{
}

fn forward_of(c: Color) -> (r: i8)
    ensures
        r == forward(c),
{
    match c {
        Color::White => 1,
        Color::Black => -1,
    }
}

fn abs_of(x: i8) -> (r: i8)
    requires
        -8 < x < 8,
    ensures
        r == abs(x as int),
{
    if x < 0 {
        -x
    } else {
        x
    }
}

fn sign_of(x: i8) -> (r: i8)
    ensures
        r == sign(x as int),
{
    if x > 0 {
        1
    } else if x < 0 {
        -1
    } else {
        0
    }
}

pub open spec fn no_rights() -> Rights {
    Rights {
        white_king_side: false,
        white_queen_side: false,
        black_king_side: false,
        black_queen_side: false,
    }
}

fn all_rights() -> (r: Rights)
    ensures
        r == (Rights {
            white_king_side: true,
            white_queen_side: true,
            black_king_side: true,
            black_queen_side: true,
        }),
{
    Rights {
        white_king_side: true,
        white_queen_side: true,
        black_king_side: true,
        black_queen_side: true,
    }
}

/// The kind of the piece that starts the game on file `f` of the back rank.
pub open spec fn back_piece(f: int) -> Kind {
    if f == 0 || f == 7 {
        Kind::Rook
    } else if f == 1 || f == 6 {
        Kind::Knight
    } else if f == 2 || f == 5 {
        Kind::Bishop
    } else if f == 3 {
        Kind::Queen
    } else {
        Kind::King
    }
}

/// What stands on file `f`, rank `r` at the start of a game.
pub open spec fn start_square(f: int, r: int) -> Square {
    if r == 0 {
        piece_of(Color::White, back_piece(f))
    } else if r == 1 {
        piece_of(Color::White, Kind::Pawn)
    } else if r == 6 {
        piece_of(Color::Black, Kind::Pawn)
    } else if r == 7 {
        piece_of(Color::Black, back_piece(f))
    } else {
        Square::Empty
    }
}

/// The model of the standard starting position.
pub open spec fn start_state() -> BoardState {
    BoardState {
        squares: Seq::new(64, |i: int| start_square(i % 8, i / 8)),
        rights: Rights {
            white_king_side: true,
            white_queen_side: true,
            black_king_side: true,
            black_queen_side: true,
        },
        en_passant: None,
    }
}

fn start_square_of(f: u8, r: u8) -> (s: Square)
    requires
        f < 8,
    ensures
        s == start_square(f as int, r as int),
{
    let back = if f == 0 || f == 7 {
        Kind::Rook
    } else if f == 1 || f == 6 {
        Kind::Knight
    } else if f == 2 || f == 5 {
        Kind::Bishop
    } else if f == 3 {
        Kind::Queen
    } else {
        Kind::King
    };
    if r == 0 {
        Square::Occupied(Piece { color: Color::White, kind: back })
    } else if r == 1 {
        Square::Occupied(Piece { color: Color::White, kind: Kind::Pawn })
    } else if r == 6 {
        Square::Occupied(Piece { color: Color::Black, kind: Kind::Pawn })
    } else if r == 7 {
        Square::Occupied(Piece { color: Color::Black, kind: back })
    } else {
        Square::Empty
    }
}

fn clear_rights_of(r: Rights, p: Position) -> (n: Rights)
    ensures
        n == clear_rights(r, p),
{
    let white_home = p.rank == 0;
    let black_home = p.rank == 7;
    let king_file = p.file == 4;
    Rights {
        white_king_side: r.white_king_side && !(white_home && (king_file || p.file == 7)),
        white_queen_side: r.white_queen_side && !(white_home && (king_file || p.file == 0)),
        black_king_side: r.black_king_side && !(black_home && (king_file || p.file == 7)),
        black_queen_side: r.black_queen_side && !(black_home && (king_file || p.file == 0)),
    }
}

impl Board {
    pub open spec fn wf(&self) -> bool {
        self.squares@.len() == 64
    }

    fn get(&self, f: u8, r: u8) -> (s: Square)
        requires
            self.wf(),
            f < 8,
            r < 8,
        ensures
            s == sq(self@, f as int, r as int),
    {
        self.squares[r as usize * 8 + f as usize]
    }

    /// What stands on square `p`.
    pub fn square(&self, p: Position) -> (s: Square)
        requires
            self.wf(),
            p.wf(),
        ensures
            s == at(self@, p),
    {
        self.get(p.file, p.rank)
    }

    /// Whether every square strictly between `a` and `b` is empty.
    fn clear_between(&self, a: Position, b: Position) -> (r: bool)
        requires
            self.wf(),
            a.wf(),
            b.wf(),
            straight(a, b) || diagonal(a, b),
        ensures
            r == path_clear(self@, a, b),
    {
        let dfile: i8 = b.file as i8 - a.file as i8;
        let drank: i8 = b.rank as i8 - a.rank as i8;
        let sf = sign_of(dfile);
        let sr = sign_of(drank);
        let af = abs_of(dfile);
        let ar = abs_of(drank);
        let n: i8 = if af >= ar {
            af
        } else {
            ar
        };
        let mut k: i8 = 1;
        let mut f: i8 = a.file as i8 + sf;
        let mut r: i8 = a.rank as i8 + sr;
        while k < n
            invariant
                self.wf(),
                a.wf(),
                b.wf(),
                straight(a, b) || diagonal(a, b),
                dfile == df(a, b),
                drank == dr(a, b),
                sf == sign(df(a, b)),
                sr == sign(dr(a, b)),
                n == dist(a, b),
                1 <= k <= n,
                f == off(a.file as int, sf as int, k as int),
                r == off(a.rank as int, sr as int, k as int),
                forall|j: int|
                    0 < j < k ==> (#[trigger] sq(
                        self@,
                        off(a.file as int, sign(df(a, b)), j),
                        off(a.rank as int, sign(dr(a, b)), j),
                    )) is Empty,
            decreases n - k,
        {
            let s = self.get(f as u8, r as u8);
            if !s.is_empty() {
                assert(sq(
                    self@,
                    off(a.file as int, sign(df(a, b)), k as int),
                    off(a.rank as int, sign(dr(a, b)), k as int),
                ) == s);
                return false;
            }
            k = k + 1;
            f = f + sf;
            r = r + sr;
        }
        true
    }

    /// Whether piece `p` standing on `a` attacks `b`.
    fn attacks_from(&self, a: Position, b: Position, p: Piece) -> (r: bool)
        requires
            self.wf(),
            a.wf(),
            b.wf(),
        ensures
            r == attacks(self@, a, b, p),
    {
        let dfile: i8 = b.file as i8 - a.file as i8;
        let drank: i8 = b.rank as i8 - a.rank as i8;
        let af = abs_of(dfile);
        let ar = abs_of(drank);
        let line = (dfile == 0) != (drank == 0);
        let diag = af == ar && dfile != 0;
        match p.kind {
            Kind::King => af <= 1 && ar <= 1 && (af == 1 || ar == 1),
            Kind::Knight => (af == 1 && ar == 2) || (af == 2 && ar == 1),
            Kind::Rook => line && self.clear_between(a, b),
            Kind::Bishop => diag && self.clear_between(a, b),
            Kind::Queen => (line || diag) && self.clear_between(a, b),
            Kind::Pawn => af == 1 && drank == forward_of(p.color),
        }
    }

    /// Whether some piece of color `by` attacks square `s`.
    pub fn is_attacked(&self, s: Position, by: Color) -> (r: bool)
        requires
            self.wf(),
            s.wf(),
        ensures
            r == attacked(self@, s, by),
    {
        let mut i: usize = 0;
        while i < 64
            invariant
                self.wf(),
                s.wf(),
                0 <= i <= 64,
                forall|a: Position|
                    a.wf() && a.idx() < i ==> !(#[trigger] holds(self@, a, by) && attacks(
                        self@,
                        a,
                        s,
                        at(self@, a)->Occupied_0,
                    )),
            decreases 64 - i,
        {
            let a = pos_of(i);
            match self.get(a.file, a.rank) {
                Square::Occupied(p) => {
                    if p.color == by && self.attacks_from(a, s, p) {
                        assert(holds(self@, a, by));
                        return true;
                    }
                },
                Square::Empty => {},
            }
            proof {
                assert forall|q: Position|
                    q.wf() && q.idx() < i + 1 implies !(#[trigger] holds(self@, q, by) && attacks(
                        self@,
                        q,
                        s,
                        at(self@, q)->Occupied_0,
                    )) by {
                    if q.idx() == i {
                        lemma_idx_injective(q, a);
                    }
                }
            }
            i = i + 1;
        }
        false
    }

    /// Whether the pawn of color `c` on `a` may go to `b`.
    fn pawn_may_reach(&self, a: Position, b: Position, c: Color) -> (r: bool)
        requires
            self.wf(),
            a.wf(),
            b.wf(),
        ensures
            r == pawn_reaches(self@, a, b, c),
    {
        let dfile: i8 = b.file as i8 - a.file as i8;
        let drank: i8 = b.rank as i8 - a.rank as i8;
        let fwd = forward_of(c);
        let target = self.get(b.file, b.rank);
        let start: u8 = match c {
            Color::White => 1,
            Color::Black => 6,
        };
        if dfile == 0 && drank == fwd {
            target.is_empty()
        } else if dfile == 0 && drank == 2 * fwd {
            a.rank == start && self.get(a.file, (a.rank as i8 + fwd) as u8).is_empty()
                && target.is_empty()
        } else if abs_of(dfile) == 1 && drank == fwd {
            let enemy = c.other();
            match target {
                Square::Occupied(q) => q.color == enemy,
                Square::Empty => {
                    let passed = self.get(b.file, a.rank);
                    self.en_passant == Some(b) && passed == Square::Occupied(
                        Piece { color: enemy, kind: Kind::Pawn },
                    )
                },
            }
        } else {
            false
        }
    }

    /// Whether the piece of color `c` on `a` may go to `b` by the way it
    /// moves, ignoring the safety of its own king.
    pub fn may_reach(&self, a: Position, b: Position, c: Color) -> (r: bool)
        requires
            self.wf(),
        ensures
            r == reaches(self@, a, b, c),
    {
        if !(a.file < 8 && a.rank < 8 && b.file < 8 && b.rank < 8) {
            return false;
        }
        match self.get(a.file, a.rank) {
            Square::Empty => false,
            Square::Occupied(p) => {
                if p.color != c {
                    return false;
                }
                match self.get(b.file, b.rank) {
                    Square::Occupied(q) => {
                        if q.color == c {
                            return false;
                        }
                    },
                    Square::Empty => {},
                }
                if p.kind == Kind::Pawn {
                    self.pawn_may_reach(a, b, c)
                } else {
                    self.attacks_from(a, b, p)
                }
            },
        }
    }

    /// Whether color `c` may castle on the given side.
    pub fn castling_allowed(&self, c: Color, king_side: bool) -> (r: bool)
        requires
            self.wf(),
        ensures
            r == can_castle(self@, c, king_side),
    {
        let (r, has_right): (u8, bool) = match c {
            Color::White => (
                0,
                if king_side {
                    self.rights.white_king_side
                } else {
                    self.rights.white_queen_side
                },
            ),
            Color::Black => (
                7,
                if king_side {
                    self.rights.black_king_side
                } else {
                    self.rights.black_queen_side
                },
            ),
        };
        let e = c.other();
        let king = Square::Occupied(Piece { color: c, kind: Kind::King });
        let rook = Square::Occupied(Piece { color: c, kind: Kind::Rook });
        if !has_right || self.get(4, r) != king || self.is_attacked(
            Position { file: 4, rank: r },
            e,
        ) {
            return false;
        }
        if king_side {
            self.get(7, r) == rook && self.get(5, r).is_empty() && self.get(6, r).is_empty()
                && !self.is_attacked(Position { file: 5, rank: r }, e) && !self.is_attacked(
                Position { file: 6, rank: r },
                e,
            )
        } else {
            self.get(0, r) == rook && self.get(1, r).is_empty() && self.get(2, r).is_empty()
                && self.get(3, r).is_empty() && !self.is_attacked(Position { file: 3, rank: r }, e)
                && !self.is_attacked(Position { file: 2, rank: r }, e)
        }
    }

    /// Whether `m` follows the movement rules for color `c`, ignoring the
    /// safety of its own king.
    pub fn is_pseudo_legal(&self, m: Move, c: Color) -> (r: bool)
        requires
            self.wf(),
        ensures
            r == pseudo_legal(self@, m, c),
    {
        match m {
            Move::Piece(a, b) => self.may_reach(a, b, c),
            Move::Promotion(a, b, k) => {
                let far: u8 = match c {
                    Color::White => 7,
                    Color::Black => 0,
                };
                let promotes = match k {
                    Kind::Queen | Kind::Rook | Kind::Bishop | Kind::Knight => true,
                    Kind::King | Kind::Pawn => false,
                };
                if !promotes || b.rank != far || !self.may_reach(a, b, c) {
                    return false;
                }
                match self.get(a.file, a.rank) {
                    Square::Occupied(p) => p.kind == Kind::Pawn,
                    Square::Empty => false,
                }
            },
            Move::KingSideCastle => self.castling_allowed(c, true),
            Move::QueenSideCastle => self.castling_allowed(c, false),
            Move::Resign => false,
        }
    }

    fn put(&mut self, f: u8, r: u8, x: Square)
        requires
            old(self).wf(),
            f < 8,
            r < 8,
        ensures
            final(self).wf(),
            final(self)@ == (BoardState {
                squares: old(self)@.squares.update(ix(f as int, r as int), x),
                ..old(self)@
            }),
    {
        self.squares.set(r as usize * 8 + f as usize, x);
    }

    /// Moves the piece on `a` to `b`, putting `land` on `b`, and updates the
    /// en-passant capture, the castling rights and the en-passant target.
    fn move_piece_raw(&mut self, a: Position, b: Position, land: Square)
        requires
            old(self).wf(),
            a.wf(),
            b.wf(),
        ensures
            final(self).wf(),
            final(self)@ == move_piece(old(self)@, a, b, land),
    {
        let moving = self.get(a.file, a.rank);
        let target = self.get(b.file, b.rank);
        let is_pawn = match moving {
            Square::Occupied(p) => p.kind == Kind::Pawn,
            Square::Empty => false,
        };
        self.put(b.file, b.rank, land);
        self.put(a.file, a.rank, Square::Empty);
        if is_pawn && a.file != b.file && target.is_empty() {
            self.put(b.file, a.rank, Square::Empty);
        }
        self.rights = clear_rights_of(clear_rights_of(self.rights, a), b);
        self.en_passant = if is_pawn && a.file == b.file && (a.rank + 2 == b.rank || b.rank + 2
            == a.rank) {
            Some(Position { file: a.file, rank: (a.rank + b.rank) / 2 })
        } else {
            None
        };
    }

    fn castle_raw(&mut self, c: Color, king_side: bool)
        requires
            old(self).wf(),
        ensures
            final(self).wf(),
            final(self)@ == castle(old(self)@, c, king_side),
    {
        let r: u8 = match c {
            Color::White => 0,
            Color::Black => 7,
        };
        let (king_to, rook_from, rook_to): (u8, u8, u8) = if king_side {
            (6, 7, 5)
        } else {
            (2, 0, 3)
        };
        self.put(4, r, Square::Empty);
        self.put(rook_from, r, Square::Empty);
        self.put(king_to, r, Square::Occupied(Piece { color: c, kind: Kind::King }));
        self.put(rook_to, r, Square::Occupied(Piece { color: c, kind: Kind::Rook }));
        match c {
            Color::White => {
                self.rights.white_king_side = false;
                self.rights.white_queen_side = false;
            },
            Color::Black => {
                self.rights.black_king_side = false;
                self.rights.black_queen_side = false;
            },
        }
        self.en_passant = None;
    }

    /// Plays `m` for color `c` without asking whether it is allowed.
    pub fn apply_raw(&mut self, m: Move, c: Color)
        requires
            old(self).wf(),
            move_on_board(m),
        ensures
            final(self).wf(),
            final(self)@ == apply_move(old(self)@, m, c),
    {
        match m {
            Move::Piece(a, b) => {
                let far: u8 = match c {
                    Color::White => 7,
                    Color::Black => 0,
                };
                let land = match self.get(a.file, a.rank) {
                    Square::Occupied(p) => if p.kind == Kind::Pawn && b.rank == far {
                        Square::Occupied(Piece { color: p.color, kind: Kind::Queen })
                    } else {
                        Square::Occupied(p)
                    },
                    Square::Empty => Square::Empty,
                };
                self.move_piece_raw(a, b, land);
            },
            Move::Promotion(a, b, k) => {
                self.move_piece_raw(a, b, Square::Occupied(Piece { color: c, kind: k }));
            },
            Move::KingSideCastle => self.castle_raw(c, true),
            Move::QueenSideCastle => self.castle_raw(c, false),
            Move::Resign => {},
        }
    }

    /// A board equal to this one.
    pub fn copy(&self) -> (r: Board)
        ensures
            r@ == self@,
    {
        let mut squares: Vec<Square> = Vec::new();
        let mut i: usize = 0;
        while i < self.squares.len()
            invariant
                0 <= i <= self.squares@.len(),
                squares@ == self.squares@.subrange(0, i as int),
            decreases self.squares@.len() - i,
        {
            squares.push(self.squares[i]);
            i = i + 1;
            assert(squares@ =~= self.squares@.subrange(0, i as int));
        }
        assert(squares@ =~= self.squares@);
        Board { squares, rights: self.rights, en_passant: self.en_passant }
    }

    /// Whether color `c` may play `m`: it follows the movement rules and
    /// leaves no king of color `c` in check. The board is not changed.
    pub fn is_legal(&self, m: Move, c: Color) -> (r: bool)
        requires
            self.wf(),
        ensures
            r == legal(self@, m, c),
    {
        if !self.is_pseudo_legal(m, c) {
            return false;
        }
        let mut scratch = self.copy();
        scratch.apply_raw(m, c);
        !scratch.king_in_check(c)
    }

    /// Some move that color `c` may play, or `None` if it has none; the
    /// search stops at the first one found.
    pub fn first_legal_move(&self, c: Color) -> (r: Option<Move>)
        requires
            self.wf(),
        ensures
            r is Some ==> legal(self@, r->Some_0, c),
            r is None <==> !has_legal_move(self@, c),
    {
        if self.is_legal(Move::KingSideCastle, c) {
            return Some(Move::KingSideCastle);
        }
        if self.is_legal(Move::QueenSideCastle, c) {
            return Some(Move::QueenSideCastle);
        }
        let kinds: [Kind; 4] = [Kind::Queen, Kind::Rook, Kind::Bishop, Kind::Knight];
        assert(kinds@ =~= seq![Kind::Queen, Kind::Rook, Kind::Bishop, Kind::Knight]);
        let mut i: usize = 0;
        while i < 64
            invariant
                self.wf(),
                0 <= i <= 64,
                kinds@ == seq![Kind::Queen, Kind::Rook, Kind::Bishop, Kind::Knight],
                forall|a: Position, b: Position|
                    a.wf() && b.wf() && a.idx() < i ==> #[trigger] none_between(self@, a, b, c),
            decreases 64 - i,
        {
            let a = pos_of(i);
            let mut j: usize = 0;
            while j < 64
                invariant
                    self.wf(),
                    0 <= i < 64,
                    0 <= j <= 64,
                    a == pos_of_spec(i as int),
                    a.wf(),
                    a.idx() == i,
                    kinds@ == seq![Kind::Queen, Kind::Rook, Kind::Bishop, Kind::Knight],
                    forall|p: Position, b: Position|
                        p.wf() && b.wf() && p.idx() < i ==> #[trigger] none_between(self@, p, b, c),
                    forall|b: Position| b.wf() && b.idx() < j ==> #[trigger] none_between(self@, a, b, c),
                decreases 64 - j,
            {
                let b = pos_of(j);
                let m = Move::Piece(a, b);
                if self.is_legal(m, c) {
                    return Some(m);
                }
                let mut t: usize = 0;
                while t < 4
                    invariant
                        self.wf(),
                        0 <= t <= 4,
                        kinds@ == seq![Kind::Queen, Kind::Rook, Kind::Bishop, Kind::Knight],
                        forall|u: int| 0 <= u < t ==> !legal(self@, Move::Promotion(a, b, #[trigger] kinds@[u]), c),
                    decreases 4 - t,
                {
                    let m = Move::Promotion(a, b, kinds[t]);
                    if self.is_legal(m, c) {
                        return Some(m);
                    }
                    t = t + 1;
                }
                assert(!legal(self@, Move::Promotion(a, b, kinds@[0]), c));
                assert(!legal(self@, Move::Promotion(a, b, kinds@[1]), c));
                assert(!legal(self@, Move::Promotion(a, b, kinds@[2]), c));
                assert(!legal(self@, Move::Promotion(a, b, kinds@[3]), c));
                assert(none_between(self@, a, b, c));
                proof {
                    assert forall|q: Position|
                        q.wf() && q.idx() < j + 1 implies #[trigger] none_between(self@, a, q, c) by {
                        if q.idx() == j {
                            lemma_idx_injective(q, b);
                        }
                    }
                }
                j = j + 1;
            }
            proof {
                assert forall|p: Position, b: Position|
                    p.wf() && b.wf() && p.idx() < i + 1 implies #[trigger] none_between(self@, p, b, c) by {
                    if p.idx() == i {
                        lemma_idx_injective(p, a);
                    }
                }
            }
            i = i + 1;
        }
        proof {
            assert forall|m: Move| !#[trigger] legal(self@, m, c) by {
                match m {
                    Move::Piece(a, b) => {
                        if a.wf() && b.wf() {
                            assert(none_between(self@, a, b, c));
                        }
                    },
                    Move::Promotion(a, b, k) => {
                        if a.wf() && b.wf() {
                            assert(none_between(self@, a, b, c));
                        }
                    },
                    _ => {},
                }
            }
        }
        None
    }

    fn collect(&self, out: &mut Vec<Move>, m: Move, c: Color)
        requires
            self.wf(),
        ensures
            legal(self@, m, c) ==> final(out)@ == old(out)@.push(m),
            !legal(self@, m, c) ==> final(out)@ == old(out)@,
    {
        if self.is_legal(m, c) {
            out.push(m);
        }
    }

    /// Every move that color `c` may play.
    pub fn legal_moves(&self, c: Color) -> (r: Vec<Move>)
        requires
            self.wf(),
        ensures
            forall|m: Move| r@.contains(m) <==> #[trigger] legal(self@, m, c),
    {
        let mut out: Vec<Move> = Vec::new();
        self.collect(&mut out, Move::KingSideCastle, c);
        self.collect(&mut out, Move::QueenSideCastle, c);
        let kinds: [Kind; 4] = [Kind::Queen, Kind::Rook, Kind::Bishop, Kind::Knight];
        assert(kinds@ =~= seq![Kind::Queen, Kind::Rook, Kind::Bishop, Kind::Knight]);
        let mut i: usize = 0;
        while i < 64
            invariant
                self.wf(),
                0 <= i <= 64,
                kinds@ == seq![Kind::Queen, Kind::Rook, Kind::Bishop, Kind::Knight],
                legal(self@, Move::KingSideCastle, c) ==> out@.contains(Move::KingSideCastle),
                legal(self@, Move::QueenSideCastle, c) ==> out@.contains(Move::QueenSideCastle),
                forall|m: Move| out@.contains(m) ==> legal(self@, m, c),
                forall|m: Move|
                    #[trigger] legal(self@, m, c) && move_order(m) < i * 64 ==> out@.contains(m),
            decreases 64 - i,
        {
            let a = pos_of(i);
            let mut j: usize = 0;
            while j < 64
                invariant
                    self.wf(),
                    0 <= i < 64,
                    0 <= j <= 64,
                    a.wf(),
                    a.idx() == i,
                    kinds@ == seq![Kind::Queen, Kind::Rook, Kind::Bishop, Kind::Knight],
                    legal(self@, Move::KingSideCastle, c) ==> out@.contains(Move::KingSideCastle),
                    legal(self@, Move::QueenSideCastle, c) ==> out@.contains(
                        Move::QueenSideCastle,
                    ),
                    forall|m: Move| out@.contains(m) ==> legal(self@, m, c),
                    forall|m: Move|
                        #[trigger] legal(self@, m, c) && move_order(m) < i * 64 + j
                            ==> out@.contains(m),
                decreases 64 - j,
            {
                let b = pos_of(j);
                self.collect(&mut out, Move::Piece(a, b), c);
                let mut t: usize = 0;
                while t < 4
                    invariant
                        self.wf(),
                        0 <= i < 64,
                        0 <= j < 64,
                        0 <= t <= 4,
                        a.wf(),
                        b.wf(),
                        a.idx() == i,
                        b.idx() == j,
                        kinds@ == seq![Kind::Queen, Kind::Rook, Kind::Bishop, Kind::Knight],
                        legal(self@, Move::KingSideCastle, c) ==> out@.contains(
                            Move::KingSideCastle,
                        ),
                        legal(self@, Move::QueenSideCastle, c) ==> out@.contains(
                            Move::QueenSideCastle,
                        ),
                        forall|m: Move| out@.contains(m) ==> legal(self@, m, c),
                        forall|m: Move|
                            #[trigger] legal(self@, m, c) && move_order(m) < i * 64 + j
                                ==> out@.contains(m),
                        legal(self@, Move::Piece(a, b), c) ==> out@.contains(Move::Piece(a, b)),
                        forall|u: int|
                            0 <= u < t ==> (legal(
                                self@,
                                Move::Promotion(a, b, #[trigger] kinds@[u]),
                                c,
                            ) ==> out@.contains(Move::Promotion(a, b, kinds@[u]))),
                    decreases 4 - t,
                {
                    self.collect(&mut out, Move::Promotion(a, b, kinds[t]), c);
                    t = t + 1;
                }
                proof {
                    assert forall|m: Move|
                        #[trigger] legal(self@, m, c) && move_order(m) < i * 64 + j + 1
                            implies out@.contains(m) by {
                        if move_order(m) == i * 64 + j {
                            match m {
                                Move::Piece(p, q) => {
                                    assert(p.idx() == i && q.idx() == j);
                                    lemma_idx_injective(p, a);
                                    lemma_idx_injective(q, b);
                                },
                                Move::Promotion(p, q, k) => {
                                    assert(p.idx() == i && q.idx() == j);
                                    lemma_idx_injective(p, a);
                                    lemma_idx_injective(q, b);
                                    assert(k == kinds@[0] || k == kinds@[1] || k == kinds@[2]
                                        || k == kinds@[3]);
                                },
                                _ => {},
                            }
                        }
                    }
                }
                j = j + 1;
            }
            i = i + 1;
        }
        proof {
            assert forall|m: Move| #[trigger] legal(self@, m, c) implies out@.contains(m) by {
                match m {
                    Move::Piece(p, q) => {
                        assert(move_order(m) < 64 * 64);
                    },
                    Move::Promotion(p, q, k) => {
                        assert(move_order(m) < 64 * 64);
                    },
                    _ => {},
                }
            }
        }
        out
    }

    /// Whether color `c` has any move it may play.
    pub fn has_any_legal_move(&self, c: Color) -> (r: bool)
        requires
            self.wf(),
        ensures
            r == has_legal_move(self@, c),
    {
        self.first_legal_move(c).is_some()
    }

    /// How many cells hold `x`.
    pub fn count_of(&self, x: Square) -> (n: usize)
        requires
            self.wf(),
        ensures
            n == count(self@.squares, x),
    {
        let mut n: usize = 0;
        let mut i: usize = 0;
        while i < 64
            invariant
                self.wf(),
                0 <= i <= 64,
                n <= i,
                n == count(self.squares@.subrange(0, i as int), x),
            decreases 64 - i,
        {
            assert(self.squares@.subrange(0, i + 1).drop_last() =~= self.squares@.subrange(
                0,
                i as int,
            ));
            if self.squares[i] == x {
                n = n + 1;
            }
            i = i + 1;
        }
        assert(self.squares@.subrange(0, 64) =~= self.squares@);
        n
    }

    fn side_insufficient_exec(&self, c: Color) -> (r: bool)
        requires
            self.wf(),
        ensures
            r == side_insufficient(self@, c),
    {
        let queens = self.count_of(Square::Occupied(Piece { color: c, kind: Kind::Queen }));
        let rooks = self.count_of(Square::Occupied(Piece { color: c, kind: Kind::Rook }));
        let pawns = self.count_of(Square::Occupied(Piece { color: c, kind: Kind::Pawn }));
        let knights = self.count_of(Square::Occupied(Piece { color: c, kind: Kind::Knight }));
        let bishops = self.count_of(Square::Occupied(Piece { color: c, kind: Kind::Bishop }));
        queens == 0 && rooks == 0 && pawns == 0 && ((knights <= 2 && bishops == 0) || (knights == 0
            && bishops <= 2))
    }

    /// Whether each side has at most a king with two knights, or a king with
    /// two bishops.
    pub fn insufficient_material(&self) -> (r: bool)
        requires
            self.wf(),
        ensures
            r == insufficient(self@),
    {
        self.side_insufficient_exec(Color::White) && self.side_insufficient_exec(Color::Black)
    }

    /// A board with no pieces, no castling rights and no en-passant target.
    pub fn empty() -> (r: Board)
        ensures
            r.wf(),
            r@.squares == Seq::new(64, |i: int| Square::Empty),
            r@.rights == no_rights(),
            r@.en_passant is None,
    {
        let mut squares: Vec<Square> = Vec::new();
        let mut i: usize = 0;
        while i < 64
            invariant
                0 <= i <= 64,
                squares@ == Seq::new(i as nat, |j: int| Square::Empty),
            decreases 64 - i,
        {
            squares.push(Square::Empty);
            i = i + 1;
            assert(squares@ =~= Seq::new(i as nat, |j: int| Square::Empty));
        }
        Board {
            squares,
            rights: Rights {
                white_king_side: false,
                white_queen_side: false,
                black_king_side: false,
                black_queen_side: false,
            },
            en_passant: None,
        }
    }

    /// The standard starting position, with all castling rights and no
    /// en-passant target.
    pub fn start() -> (r: Board)
        ensures
            r.wf(),
            r@ == start_state(),
    {
        let mut squares: Vec<Square> = Vec::new();
        let mut i: usize = 0;
        while i < 64
            invariant
                0 <= i <= 64,
                squares@ == Seq::new(i as nat, |j: int| start_square(j % 8, j / 8)),
            decreases 64 - i,
        {
            squares.push(start_square_of((i % 8) as u8, (i / 8) as u8));
            i = i + 1;
            assert(squares@ =~= Seq::new(i as nat, |j: int| start_square(j % 8, j / 8)));
        }
        assert(squares@ =~= start_state().squares);
        Board { squares, rights: all_rights(), en_passant: None }
    }

    /// Puts `x` on square `p`.
    pub fn set_square(&mut self, p: Position, x: Square)
        requires
            old(self).wf(),
            p.wf(),
        ensures
            final(self).wf(),
            final(self)@ == (BoardState {
                squares: old(self)@.squares.update(p.idx(), x),
                ..old(self)@
            }),
    {
        self.put(p.file, p.rank, x);
    }

    /// Whether a king of color `c` is attacked.
    pub fn king_in_check(&self, c: Color) -> (r: bool)
        requires
            self.wf(),
        ensures
            r == in_check(self@, c),
    {
        let e = c.other();
        let king = Square::Occupied(Piece { color: c, kind: Kind::King });
        let mut i: usize = 0;
        while i < 64
            invariant
                self.wf(),
                e == opponent(c),
                king == piece_of(c, Kind::King),
                0 <= i <= 64,
                forall|k: Position|
                    k.wf() && k.idx() < i ==> !(#[trigger] at(self@, k) == piece_of(c, Kind::King)
                        && attacked(self@, k, opponent(c))),
            decreases 64 - i,
        {
            let k = pos_of(i);
            if self.get(k.file, k.rank) == king && self.is_attacked(k, e) {
                assert(at(self@, k) == piece_of(c, Kind::King));
                return true;
            }
            proof {
                assert forall|q: Position|
                    q.wf() && q.idx() < i + 1 implies !(#[trigger] at(self@, q) == piece_of(
                        c,
                        Kind::King,
                    ) && attacked(self@, q, opponent(c))) by {
                    if q.idx() == i {
                        lemma_idx_injective(q, k);
                    }
                }
            }
            i = i + 1;
        }
        false
    }
}

} // verus!
