//! One square of the board.

use vstd::prelude::*;

verus! {

/// A square of the board.
///
/// `Safe(adjacent_mines, hidden, flagged)` holds no mine; `Bomb(flagged)` is a
/// mine. A mine is never uncovered, so it carries no `hidden` bit.
#[derive(Clone, Copy, PartialEq, Eq, Structural, Debug)]
pub enum Cella {
    Safe(usize, bool, bool),
    Bomb(bool),
}

impl Cella {
    /// The square is a mine.
    pub open spec fn is_mine(self) -> bool {
        self is Bomb
    }

    /// The square holds no mine and has not been uncovered yet.
    pub open spec fn is_hidden(self) -> bool {
        self matches Cella::Safe(_, h, _) && h
    }

    /// The square holds no mine and has been uncovered.
    pub open spec fn is_revealed(self) -> bool {
        self matches Cella::Safe(_, h, _) && !h
    }

    /// The square carries a flag.
    pub open spec fn is_flagged(self) -> bool {
        match self {
            Cella::Safe(_, _, f) => f,
            Cella::Bomb(f) => f,
        }
    }

    /// The square holds no mine and none of its neighbours does.
    pub open spec fn is_blank(self) -> bool {
        self matches Cella::Safe(n, _, _) && n == 0
    }

    /// The square after it has been uncovered: shown, and without a flag.
    /// A mine stays as it is.
    pub open spec fn uncovered(self) -> Cella {
        match self {
            Cella::Safe(n, _, _) => Cella::Safe(n, false, false),
            Cella::Bomb(f) => Cella::Bomb(f),
        }
    }

    /// The square with its flag bit flipped.
    pub open spec fn toggled(self) -> Cella {
        match self {
            Cella::Safe(n, h, f) => Cella::Safe(n, h, !f),
            Cella::Bomb(f) => Cella::Bomb(!f),
        }
    }

    /// The same square, up to its flag.
    pub open spec fn same_but_flag(self, other: Cella) -> bool {
        match (self, other) {
            (Cella::Safe(n, h, _), Cella::Safe(m, k, _)) => n == m && h == k,
            (Cella::Bomb(_), Cella::Bomb(_)) => true,
            _ => false,
        }
    }
}

} // verus!
