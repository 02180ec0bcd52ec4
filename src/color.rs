use vstd::prelude::*;

verus! {

/// The color of a piece, and of the player who moves it.
#[derive(Clone, Copy, Debug, PartialEq, Eq, Structural, PartialOrd, Ord, Hash)]
pub enum Color {
    White,
    Black,
}

pub const WHITE: Color = Color::White;

pub const BLACK: Color = Color::Black;

/// The other color.
pub open spec fn opponent(c: Color) -> Color {
    match c {
        Color::White => Color::Black,
        Color::Black => Color::White,
    }
}

impl Color {
    /// The other color.
    pub fn other(self) -> (r: Color)
        ensures
            r == opponent(self),
    {
        match self {
            Color::White => Color::Black,
            Color::Black => Color::White,
        }
    }

    /// The color's name, `"White"` or `"Black"`.
    pub fn name(&self) -> (r: String)
        ensures
            *self == Color::White ==> r@ == "White"@,
            *self == Color::Black ==> r@ == "Black"@,
    {
        match self {
            Color::White => String::from_str("White"),
            Color::Black => String::from_str("Black"),
        }
    }
}

impl core::ops::Not for Color {
    type Output = Color;

    /// `!Color::White` is `Color::Black` and the other way round.
    fn not(self) -> (r: Color) {
        self.other()
    }
}

impl vstd::std_specs::ops::NotSpecImpl for Color {
    open spec fn obeys_not_spec() -> bool {
        true
    }

    open spec fn not_req(self) -> bool {
        true
    }

    open spec fn not_spec(self) -> Color {
        opponent(self)
    }
}

} // verus!
