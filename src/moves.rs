use vstd::prelude::*;
use crate::position::Position;
use crate::piece::Kind;

verus! {

/// A move that a player asks for.
#[derive(Clone, Copy, Debug, PartialEq, Eq, Structural, PartialOrd, Ord, Hash)]
pub enum Move {
    /// The king goes two squares toward the a-file rook, which jumps over it.
    QueenSideCastle,
    /// The king goes two squares toward the h-file rook, which jumps over it.
    KingSideCastle,
    /// The piece on the first square goes to the second, taking what stands
    /// there (or, for a pawn, taking en passant).
    Piece(Position, Position),
    /// A pawn goes to the far rank and becomes a piece of the given kind.
    Promotion(Position, Position, Kind),
    /// The player gives the game up.
    Resign,
}

/// The squares that `m` names lie on the board.
pub open spec fn move_on_board(m: Move) -> bool {
    match m {
        Move::Piece(a, b) => a.wf() && b.wf(),
        Move::Promotion(a, b, _) => a.wf() && b.wf(),
        _ => true,
    }
}

} // verus!
