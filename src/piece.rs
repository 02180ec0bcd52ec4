use vstd::prelude::*;
use crate::color::Color;

verus! {

/// What a piece is, apart from its color.
#[derive(Clone, Copy, Debug, PartialEq, Eq, Structural, PartialOrd, Ord, Hash)]
pub enum Kind {
    King,
    Queen,
    Rook,
    Bishop,
    Knight,
    Pawn,
}

/// A piece: its color and its kind.
#[derive(Clone, Copy, Debug, PartialEq, Eq, Structural, PartialOrd, Ord, Hash)]
pub struct Piece {
    pub color: Color,
    pub kind: Kind,
}

/// A cell of the board.
#[derive(Clone, Copy, Debug, PartialEq, Eq, Structural, PartialOrd, Ord, Hash)]
pub enum Square {
    Empty,
    Occupied(Piece),
}

pub const EMPTY_SQUARE: Square = Square::Empty;

impl Piece {
    pub fn is_king(&self) -> (r: bool)
        ensures
            r == (self.kind == Kind::King),
    {
        match self.kind {
            Kind::King => true,
            _ => false,
        }
    }

    pub fn is_pawn(&self) -> (r: bool)
        ensures
            r == (self.kind == Kind::Pawn),
    {
        match self.kind {
            Kind::Pawn => true,
            _ => false,
        }
    }
}

impl Square {
    pub fn is_empty(&self) -> (r: bool)
        ensures
            r == (*self is Empty),
    {
        match self {
            Square::Empty => true,
            Square::Occupied(_) => false,
        }
    }
}

} // verus!
