use vstd::prelude::*;

verus! {

/// A square of the board: a file (`a` to `h` as 0 to 7) and a rank (`1` to `8`
/// as 0 to 7).
#[derive(Clone, Copy, Debug, PartialEq, Eq, Structural, PartialOrd, Ord, Hash)]
pub struct Position {
    pub file: u8,
    pub rank: u8,
}

impl Position {
    /// Both coordinates lie on the board.
    pub open spec fn wf(&self) -> bool {
        self.file < 8 && self.rank < 8
    }

    /// The index of the square in a rank-major list of the 64 squares.
    pub open spec fn idx(&self) -> int {
        self.rank * 8 + self.file
    }

    /// The square at the given coordinates, or `None` if either is off the board.
    pub fn new(file: i32, rank: i32) -> (r: Option<Position>)
        ensures
            r is Some <==> (0 <= file < 8 && 0 <= rank < 8),
            r is Some ==> r->Some_0 == (Position { file: file as u8, rank: rank as u8 }),
    {
        if 0 <= file && file < 8 && 0 <= rank && rank < 8 {
            Some(Position { file: file as u8, rank: rank as u8 })
        } else {
            None
        }
    }

    /// The square shifted by the given number of files and ranks, or `None` if
    /// that leaves the board.
    pub fn offset(&self, dfile: i32, drank: i32) -> (r: Option<Position>)
        requires
            self.wf(),
        ensures
            r is Some <==> (0 <= self.file + dfile < 8 && 0 <= self.rank + drank < 8),
            r is Some ==> r->Some_0.file == self.file + dfile && r->Some_0.rank == self.rank
                + drank,
    {
        let f: i64 = self.file as i64 + dfile as i64;
        let r: i64 = self.rank as i64 + drank as i64;
        if 0 <= f && f < 8 && 0 <= r && r < 8 {
            Some(Position { file: f as u8, rank: r as u8 })
        } else {
            None
        }
    }
}

} // verus!
