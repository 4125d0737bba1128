use vstd::prelude::*;

verus! {

/// Feedback for one letter, ordered `Unset < Gray < Yellow < Green`.
#[derive(Clone, Copy, Debug, PartialEq, Eq, Structural)]
pub enum Color {
    /// Not checked yet.
    Unset,
    /// Not in the word (after duplicates are accounted for).
    Gray,
    /// In the word, at another position.
    Yellow,
    /// In the word at this position.
    Green,
}

impl Color {
    /// The place of a color in the order `Unset < Gray < Yellow < Green`.
    pub open spec fn rank(self) -> nat {
        match self {
            Color::Unset => 0,
            Color::Gray => 1,
            Color::Yellow => 2,
            Color::Green => 3,
        }
    }

    /// The higher-ranked of two colors.
    pub open spec fn join(self, other: Color) -> Color {
        if other.rank() > self.rank() {
            other
        } else {
            self
        }
    }

    /// The rank of this color as a number.
    pub fn level(&self) -> (r: u8)
        ensures
            r as nat == self.rank(),
    {
        match self {
            Color::Unset => 0,
            Color::Gray => 1,
            Color::Yellow => 2,
            Color::Green => 3,
        }
    }

    /// Whether this color ranks strictly above `other`.
    pub fn outranks(&self, other: &Color) -> (r: bool)
        ensures
            r == (self.rank() > other.rank()),
    {
        self.level() > other.level()
    }

    /// The higher-ranked of `self` and `other`.
    pub fn stronger(self, other: Color) -> (r: Color)
        ensures
            r == self.join(other),
    {
        if other.outranks(&self) {
            other
        } else {
            self
        }
    }
}

} // verus!
