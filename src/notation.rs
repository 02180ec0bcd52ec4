//! Move text: the grammar that turns a player's words into a `Move`.
use vstd::prelude::*;
use vstd::string::StrSliceExecFns;
use crate::position::Position;
use crate::piece::Kind;
use crate::moves::{move_on_board, Move};
use crate::rules::promotable;

verus! {

/// The characters that `char::is_whitespace` accepts: Unicode White_Space.
pub open spec fn is_space(c: char) -> bool {
    ||| '\t' <= c <= '\r'
    ||| c == ' '
    ||| c == '\u{85}'
    ||| c == '\u{A0}'
    ||| c == '\u{1680}'
    ||| '\u{2000}' <= c <= '\u{200A}'
    ||| c == '\u{2028}'
    ||| c == '\u{2029}'
    ||| c == '\u{202F}'
    ||| c == '\u{205F}'
    ||| c == '\u{3000}'
}

pub open spec fn trim_start(s: Seq<char>) -> Seq<char>
    decreases s.len(),
{
    if s.len() > 0 && is_space(s[0]) {
        trim_start(s.drop_first())
    } else {
        s
    }
}

pub open spec fn trim_end(s: Seq<char>) -> Seq<char>
    decreases s.len(),
{
    if s.len() > 0 && is_space(s.last()) {
        trim_end(s.drop_last())
    } else {
        s
    }
}

/// `s` without the white space at either end.
pub open spec fn trim(s: Seq<char>) -> Seq<char> {
    trim_end(trim_start(s))
}

/// The words of `s` read so far, and the word still being read.
pub open spec fn split_words(s: Seq<char>) -> (Seq<Seq<char>>, Seq<char>)
    decreases s.len(),
{
    if s.len() == 0 {
        (seq![], seq![])
    } else {
        let (ws, cur) = split_words(s.drop_last());
        if is_space(s.last()) {
            if cur.len() > 0 {
                (ws.push(cur), seq![])
            } else {
                (ws, cur)
            }
        } else {
            (ws, cur.push(s.last()))
        }
    }
}

/// The maximal runs of non-space characters of `s`, in order.
pub open spec fn words(s: Seq<char>) -> Seq<Seq<char>> {
    let (ws, cur) = split_words(s);
    if cur.len() > 0 {
        ws.push(cur)
    } else {
        ws
    }
}

pub open spec fn file_value(c: char) -> int {
    if 'a' <= c <= 'h' {
        c as int - 'a' as int
    } else if 'A' <= c <= 'H' {
        c as int - 'A' as int
    } else {
        -1
    }
}

/// The square a two-letter name such as `e4` (or `E4`) stands for.
pub open spec fn square_named(w: Seq<char>) -> Option<Position> {
    if w.len() == 2 && file_value(w[0]) >= 0 && '1' <= w[1] <= '8' {
        Some(Position { file: file_value(w[0]) as u8, rank: (w[1] as int - '1' as int) as u8 })
    } else {
        None
    }
}

/// The kind a piece name stands for.
pub open spec fn kind_named(w: Seq<char>) -> Option<Kind> {
    if w == "queen"@ {
        Some(Kind::Queen)
    } else if w == "rook"@ {
        Some(Kind::Rook)
    } else if w == "bishop"@ {
        Some(Kind::Bishop)
    } else if w == "knight"@ {
        Some(Kind::Knight)
    } else if w == "king"@ {
        Some(Kind::King)
    } else if w == "pawn"@ {
        Some(Kind::Pawn)
    } else {
        None
    }
}

/// `text` between backquotes after `prefix`.
pub open spec fn quoted(prefix: Seq<char>, text: Seq<char>) -> Seq<char> {
    prefix + "`"@ + text + "`"@
}

/// The square a name stands for, or the error that names the bad text.
pub open spec fn square_parsed(w: Seq<char>) -> Result<Position, Seq<char>> {
    match square_named(w) {
        Some(p) => Ok(p),
        None => Err(quoted("invalid square "@, w)),
    }
}

/// A plain move between two named squares; a bad name gives its error, the
/// first one first.
pub open spec fn plain_parsed(x: Seq<char>, y: Seq<char>) -> Result<Move, Seq<char>> {
    match square_parsed(x) {
        Err(e) => Err(e),
        Ok(a) => match square_parsed(y) {
            Err(e) => Err(e),
            Ok(b) => Ok(Move::Piece(a, b)),
        },
    }
}

pub open spec fn is_queen_side(t: Seq<char>) -> bool {
    t == "queenside castle"@ || t == "castle queenside"@ || t == "O-O-O"@ || t == "0-0-0"@ || t
        == "o-o-o"@
}

pub open spec fn is_king_side(t: Seq<char>) -> bool {
    t == "kingside castle"@ || t == "castle kingside"@ || t == "O-O"@ || t == "0-0"@ || t
        == "o-o"@
}

/// The move that text `s` names, or the error that says why it names none.
/// The piece name of a promotion is read before its squares.
pub open spec fn move_parsed(s: Seq<char>) -> Result<Move, Seq<char>> {
    let t = trim(s);
    let w = words(t);
    if t == "resign"@ || t == "resigns"@ {
        Ok(Move::Resign)
    } else if is_queen_side(t) {
        Ok(Move::QueenSideCastle)
    } else if is_king_side(t) {
        Ok(Move::KingSideCastle)
    } else if w.len() == 1 && w[0].len() == 4 {
        plain_parsed(w[0].subrange(0, 2), w[0].subrange(2, 4))
    } else if w.len() == 2 {
        plain_parsed(w[0], w[1])
    } else if w.len() == 3 && w[1] == "to"@ {
        plain_parsed(w[0], w[2])
    } else if w.len() == 4 && w[1] == "to"@ {
        match kind_named(w[3]) {
            None => Err(quoted("invalid piece "@, w[3])),
            Some(k) => if !promotable(k) {
                Err("invalid promotion"@)
            } else {
                match plain_parsed(w[0], w[2]) {
                    Err(e) => Err(e),
                    Ok(m) => Ok(Move::Promotion(m->Piece_0, m->Piece_1, k)),
                }
            },
        }
    } else {
        Err(quoted("invalid move format "@, t))
    }
}

/// The characters of `s`.
pub fn chars_of(s: &str) -> (r: Vec<char>)
    ensures
        r@ == s@,
{
    let n = s.unicode_len();
    let mut r: Vec<char> = Vec::new();
    let mut i: usize = 0;
    while i < n
        invariant
            n == s@.len(),
            0 <= i <= n,
            r@ == s@.subrange(0, i as int),
        decreases n - i,
    {
        r.push(s.get_char(i));
        i = i + 1;
        assert(r@ =~= s@.subrange(0, i as int));
    }
    assert(r@ =~= s@);
    r
}

fn slice(v: &Vec<char>, lo: usize, hi: usize) -> (r: Vec<char>)
    requires
        lo <= hi <= v@.len(),
    ensures
        r@ == v@.subrange(lo as int, hi as int),
{
    let mut r: Vec<char> = Vec::new();
    let mut i: usize = lo;
    while i < hi
        invariant
            lo <= i <= hi <= v@.len(),
            r@ == v@.subrange(lo as int, i as int),
        decreases hi - i,
    {
        r.push(v[i]);
        i = i + 1;
        assert(r@ =~= v@.subrange(lo as int, i as int));
    }
    r
}

/// Whether the characters of `w` are those of `lit`.
fn same_text(w: &Vec<char>, lit: &str) -> (r: bool)
    ensures
        r == (w@ == lit@),
{
    let n = lit.unicode_len();
    if w.len() != n {
        return false;
    }
    let mut i: usize = 0;
    while i < n
        invariant
            n == lit@.len(),
            n == w@.len(),
            0 <= i <= n,
            forall|j: int| 0 <= j < i ==> w@[j] == lit@[j],
        decreases n - i,
    {
        if w[i] != lit.get_char(i) {
            return false;
        }
        i = i + 1;
    }
    assert(w@ =~= lit@);
    true
}

fn space(c: char) -> (r: bool)
    ensures
        r == is_space(c),
{
    ('\t' <= c && c <= '\r') || c == ' ' || c == '\u{85}' || c == '\u{A0}' || c == '\u{1680}'
        || ('\u{2000}' <= c && c <= '\u{200A}') || c == '\u{2028}' || c == '\u{2029}' || c
        == '\u{202F}' || c == '\u{205F}' || c == '\u{3000}'
}

fn trimmed(v: &Vec<char>) -> (r: Vec<char>)
    ensures
        r@ == trim(v@),
{
    let n = v.len();
    let mut lo: usize = 0;
    assert(v@.subrange(0, n as int) =~= v@);
    while lo < n && space(v[lo])
        invariant
            n == v@.len(),
            0 <= lo <= n,
            trim_start(v@) == trim_start(v@.subrange(lo as int, n as int)),
        decreases n - lo,
    {
        assert(v@.subrange(lo as int, n as int).drop_first() =~= v@.subrange(lo + 1, n as int));
        lo = lo + 1;
    }
    assert(trim_start(v@.subrange(lo as int, n as int)) == v@.subrange(lo as int, n as int));
    let mut hi: usize = n;
    while hi > lo && space(v[hi - 1])
        invariant
            n == v@.len(),
            0 <= lo <= hi <= n,
            trim(v@) == trim_end(v@.subrange(lo as int, hi as int)),
        decreases hi,
    {
        assert(v@.subrange(lo as int, hi as int).drop_last() =~= v@.subrange(
            lo as int,
            hi - 1,
        ));
        hi = hi - 1;
    }
    slice(v, lo, hi)
}

pub open spec fn views(ws: Seq<Vec<char>>) -> Seq<Seq<char>> {
    ws.map_values(|w: Vec<char>| w@)
}

fn split(v: &Vec<char>) -> (r: Vec<Vec<char>>)
    ensures
        views(r@) == words(v@),
{
    let mut ws: Vec<Vec<char>> = Vec::new();
    let mut cur: Vec<char> = Vec::new();
    let mut i: usize = 0;
    while i < v.len()
        invariant
            0 <= i <= v@.len(),
            (views(ws@), cur@) == split_words(v@.subrange(0, i as int)),
        decreases v@.len() - i,
    {
        let ghost prev = ws@;
        assert(v@.subrange(0, i + 1).drop_last() =~= v@.subrange(0, i as int));
        let c = v[i];
        if space(c) {
            if cur.len() > 0 {
                ws.push(cur);
                cur = Vec::new();
                assert(views(ws@) =~= views(prev).push(split_words(v@.subrange(0, i as int)).1));
            }
        } else {
            cur.push(c);
        }
        i = i + 1;
    }
    assert(v@.subrange(0, v@.len() as int) =~= v@);
    if cur.len() > 0 {
        let ghost prev = ws@;
        let ghost last = cur@;
        ws.push(cur);
        assert(views(ws@) =~= views(prev).push(last));
    }
    ws
}

fn square_from(w: &Vec<char>) -> (r: Option<Position>)
    ensures
        r == square_named(w@),
{
    if w.len() != 2 {
        return None;
    }
    let c = w[0];
    let d = w[1];
    let file: u32 = if 'a' <= c && c <= 'h' {
        c as u32 - 'a' as u32
    } else if 'A' <= c && c <= 'H' {
        c as u32 - 'A' as u32
    } else {
        return None;
    };
    if '1' <= d && d <= '8' {
        Some(Position { file: file as u8, rank: (d as u32 - '1' as u32) as u8 })
    } else {
        None
    }
}

fn kind_from(w: &Vec<char>) -> (r: Option<Kind>)
    ensures
        r == kind_named(w@),
{
    if same_text(w, "queen") {
        Some(Kind::Queen)
    } else if same_text(w, "rook") {
        Some(Kind::Rook)
    } else if same_text(w, "bishop") {
        Some(Kind::Bishop)
    } else if same_text(w, "knight") {
        Some(Kind::Knight)
    } else if same_text(w, "king") {
        Some(Kind::King)
    } else if same_text(w, "pawn") {
        Some(Kind::Pawn)
    } else {
        None
    }
}

/// Relies on `String::push`: appends one character.
#[verifier::external_body]
fn push_char(s: &mut String, c: char)
    ensures
        final(s)@ == old(s)@.push(c),
{
    s.push(c);
}

/// `text` between backquotes after `prefix`.
fn quote(prefix: &str, text: &Vec<char>) -> (r: String)
    ensures
        r@ == quoted(prefix@, text@),
{
    let mut r = String::from_str(prefix);
    r.append("`");
    let ghost start = r@;
    let mut i: usize = 0;
    while i < text.len()
        invariant
            0 <= i <= text@.len(),
            r@ == start + text@.subrange(0, i as int),
        decreases text@.len() - i,
    {
        push_char(&mut r, text[i]);
        i = i + 1;
        assert(r@ =~= start + text@.subrange(0, i as int));
    }
    assert(text@.subrange(0, text@.len() as int) =~= text@);
    r.append("`");
    assert(r@ =~= quoted(prefix@, text@));
    r
}

fn square_result(w: &Vec<char>) -> (r: Result<Position, String>)
    ensures
        square_parsed(w@) is Ok ==> r == Ok::<Position, String>(square_parsed(w@)->Ok_0),
        square_parsed(w@) is Err ==> r is Err && r->Err_0@ == square_parsed(w@)->Err_0,
{
    match square_from(w) {
        Some(p) => Ok(p),
        None => Err(quote("invalid square ", w)),
    }
}

fn plain_result(x: &Vec<char>, y: &Vec<char>) -> (r: Result<Move, String>)
    ensures
        plain_parsed(x@, y@) is Ok ==> r == Ok::<Move, String>(plain_parsed(x@, y@)->Ok_0),
        plain_parsed(x@, y@) is Err ==> r is Err && r->Err_0@ == plain_parsed(x@, y@)->Err_0,
{
    let a = match square_result(x) {
        Ok(a) => a,
        Err(e) => {
            return Err(e);
        },
    };
    match square_result(y) {
        Ok(b) => Ok(Move::Piece(a, b)),
        Err(e) => Err(e),
    }
}

/// The name of square `p`, such as `e4`.
pub open spec fn square_text(p: Position) -> Seq<char> {
    "abcdefgh"@.subrange(p.file as int, p.file + 1) + "12345678"@.subrange(
        p.rank as int,
        p.rank + 1,
    )
}

pub open spec fn kind_text(k: Kind) -> Seq<char> {
    match k {
        Kind::King => "king"@,
        Kind::Queen => "queen"@,
        Kind::Rook => "rook"@,
        Kind::Bishop => "bishop"@,
        Kind::Knight => "knight"@,
        Kind::Pawn => "pawn"@,
    }
}

/// How move `m` is written out: `e2 to e4`, `e7 to e8 queen`, `O-O`,
/// `O-O-O` or `Resign`.
pub open spec fn move_text(m: Move) -> Seq<char> {
    match m {
        Move::Piece(a, b) => square_text(a) + " to "@ + square_text(b),
        Move::Promotion(a, b, k) => square_text(a) + " to "@ + square_text(b) + " "@ + kind_text(
            k,
        ),
        Move::KingSideCastle => "O-O"@,
        Move::QueenSideCastle => "O-O-O"@,
        Move::Resign => "Resign"@,
    }
}

fn kind_word(k: Kind) -> (r: &'static str)
    ensures
        r@ == kind_text(k),
{
    match k {
        Kind::King => "king",
        Kind::Queen => "queen",
        Kind::Rook => "rook",
        Kind::Bishop => "bishop",
        Kind::Knight => "knight",
        Kind::Pawn => "pawn",
    }
}

impl Position {
    /// The square's name, such as `e4`.
    pub fn text(&self) -> (r: String)
        requires
            self.wf(),
        ensures
            r@ == square_text(*self),
    {
        proof {
            reveal_strlit("abcdefgh");
            reveal_strlit("12345678");
        }
        let f = self.file as usize;
        let k = self.rank as usize;
        let mut r = String::from_str("abcdefgh".substring_char(f, f + 1));
        r.append("12345678".substring_char(k, k + 1));
        r
    }

    /// The square named by two characters such as `e4` (or `E4`).
    pub fn pgn(s: &str) -> (r: Result<Position, String>)
        ensures
            square_parsed(s@) is Ok ==> r == Ok::<Position, String>(square_parsed(s@)->Ok_0),
            square_parsed(s@) is Err ==> r is Err && r->Err_0@ == square_parsed(s@)->Err_0,
    {
        let w = chars_of(s);
        square_result(&w)
    }
}

impl Move {
    /// The move written out: `e2 to e4`, `e7 to e8 queen`, `O-O`, `O-O-O`
    /// or `Resign`.
    pub fn text(&self) -> (r: String)
        requires
            move_on_board(*self),
        ensures
            r@ == move_text(*self),
    {
        match self {
            Move::Piece(a, b) => {
                let mut r = a.text();
                r.append(" to ");
                let t = b.text();
                r.append(t.as_str());
                r
            },
            Move::Promotion(a, b, k) => {
                let mut r = a.text();
                r.append(" to ");
                let t = b.text();
                r.append(t.as_str());
                r.append(" ");
                r.append(kind_word(*k));
                r
            },
            Move::KingSideCastle => String::from_str("O-O"),
            Move::QueenSideCastle => String::from_str("O-O-O"),
            Move::Resign => String::from_str("Resign"),
        }
    }

    /// Reads a move from text: `resign` or `resigns`; `O-O-O`, `0-0-0`,
    /// `o-o-o`, `castle queenside` or `queenside castle`; the same with `O-O`
    /// and `kingside`; `e2e4`, `e2 e4` or `e2 to e4`; and `e7 to e8 queen`
    /// (or `rook`, `bishop`, `knight`) to promote. White space at either end
    /// is ignored.
    pub fn parse(repr: String) -> (r: Result<Move, String>)
        ensures
            move_parsed(repr@) is Ok ==> r == Ok::<Move, String>(move_parsed(repr@)->Ok_0),
            move_parsed(repr@) is Err ==> r is Err && r->Err_0@ == move_parsed(repr@)->Err_0,
    {
        let all = chars_of(repr.as_str());
        let t = trimmed(&all);
        if same_text(&t, "resign") || same_text(&t, "resigns") {
            return Ok(Move::Resign);
        }
        if same_text(&t, "queenside castle") || same_text(&t, "castle queenside") || same_text(
            &t,
            "O-O-O",
        ) || same_text(&t, "0-0-0") || same_text(&t, "o-o-o") {
            return Ok(Move::QueenSideCastle);
        }
        if same_text(&t, "kingside castle") || same_text(&t, "castle kingside") || same_text(
            &t,
            "O-O",
        ) || same_text(&t, "0-0") || same_text(&t, "o-o") {
            return Ok(Move::KingSideCastle);
        }
        let w = split(&t);
        proof {
            assert(w@.len() == words(t@).len());
            assert(forall|i: int| 0 <= i < w@.len() ==> w@[i]@ == #[trigger] words(t@)[i]);
        }
        if w.len() == 1 && w[0].len() == 4 {
            plain_result(&slice(&w[0], 0, 2), &slice(&w[0], 2, 4))
        } else if w.len() == 2 {
            plain_result(&w[0], &w[1])
        } else if w.len() == 3 && same_text(&w[1], "to") {
            plain_result(&w[0], &w[2])
        } else if w.len() == 4 && same_text(&w[1], "to") {
            let k = match kind_from(&w[3]) {
                Some(k) => k,
                None => {
                    return Err(quote("invalid piece ", &w[3]));
                },
            };
            match k {
                Kind::King | Kind::Pawn => {
                    return Err(String::from_str("invalid promotion"));
                },
                _ => {},
            }
            match plain_result(&w[0], &w[2]) {
                Ok(Move::Piece(a, b)) => Ok(Move::Promotion(a, b, k)),
                Ok(m) => Ok(m),
                Err(e) => Err(e),
            }
        } else {
            Err(quote("invalid move format ", &t))
        }
    }
}

impl TryFrom<String> for Move {
    type Error = String;

    /// Reads a move from text, as `Move::parse` does.
    fn try_from(repr: String) -> (r: Result<Move, String>) {
        Move::parse(repr)
    }
}

impl vstd::std_specs::convert::TryFromSpecImpl<String> for Move {
    /// What `try_from` returns is stated on `Move::parse`, over the text of
    /// the error rather than the `String` value itself.
    open spec fn obeys_try_from_spec() -> bool {
        false
    }

    open spec fn try_from_spec(v: String) -> Result<Move, String> {
        vstd::pervasive::arbitrary()
    }
}

} // verus!
