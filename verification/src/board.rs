//! The game as a mathematical value, and what each operation makes of it.

use vstd::prelude::*;
use crate::cell::Cella;
use crate::flood::flood;
use crate::grid::{
    all_clear, any_revealed, counts_exact, grid_count, inside, mines_around, rectangular,
    settled, tidy, width, with_square, Grid, Tally,
};

verus! {

/// The state of a game.
#[verifier::ext_equal]
pub struct Board {
    /// The squares, top row first.
    pub cells: Grid,
    /// The column of the cursor.
    pub x: nat,
    /// The row of the cursor.
    pub y: nat,
    /// A mine has been uncovered.
    pub lost: bool,
    /// At the last reveal no square without a mine was left hidden.
    pub won: bool,
    /// The number of mines.
    pub mines: nat,
    /// The number of flags.
    pub flags: nat,
}

/// What holds of the squares of every game: the grid is rectangular and
/// fits in memory, each square without a mine holds the number of mines
/// around it, no uncovered square carries a flag, and nothing is hidden
/// around an uncovered square without mines near it.
pub open spec fn sound(g: Grid) -> bool {
    &&& rectangular(g)
    &&& g.len() * width(g) <= usize::MAX
    &&& counts_exact(g)
    &&& tidy(g)
    &&& settled(g)
}

impl Board {
    /// The numbers of mines and of flags are those of the grid.
    pub open spec fn tallies_ok(self) -> bool {
        &&& self.mines == grid_count(self.cells, Tally::Mines)
        &&& self.flags == grid_count(self.cells, Tally::Flags)
    }

    /// The cursor is on the grid, where the grid has a square.
    pub open spec fn cursor_ok(self) -> bool {
        self.cells.len() > 0 && width(self.cells) > 0 ==> self.x < width(self.cells) && self.y
            < self.cells.len()
    }

    /// `won` says whether no square without a mine is hidden. The one
    /// exception is a game in which nothing was revealed yet: it is not
    /// won, whatever its squares.
    pub open spec fn verdict_ok(self) -> bool {
        self.won == all_clear(self.cells) || (!self.won && !self.lost && !any_revealed(self.cells))
    }

    /// What holds of every game that was built by a constructor and changed
    /// through the operations only.
    pub open spec fn wf(self) -> bool {
        &&& sound(self.cells)
        &&& self.tallies_ok()
        &&& self.cursor_ok()
        &&& self.verdict_ok()
    }

    /// The cursor one row up, where there is one.
    pub open spec fn moved_up(self) -> Board {
        Board { y: if self.y > 0 { (self.y - 1) as nat } else { 0 }, ..self }
    }

    /// The cursor one row down, where there is one.
    pub open spec fn moved_down(self) -> Board {
        Board { y: if self.y + 1 < self.cells.len() { self.y + 1 } else { self.y }, ..self }
    }

    /// The cursor one column to the left, where there is one.
    pub open spec fn moved_left(self) -> Board {
        Board { x: if self.x > 0 { (self.x - 1) as nat } else { 0 }, ..self }
    }

    /// The cursor one column to the right, where there is one.
    pub open spec fn moved_right(self) -> Board {
        Board { x: if self.x + 1 < width(self.cells) { self.x + 1 } else { self.x }, ..self }
    }

    /// The game with `won` set anew: no square without a mine is hidden.
    pub open spec fn judged(self) -> Board {
        Board { won: all_clear(self.cells), ..self }
    }

    /// The game after a reveal at `(x, y)`.
    ///
    /// A lost game and a position off the grid leave it as it is. A mine
    /// loses the game, with or without a flag on it. A square that is
    /// uncovered already changes nothing. A hidden square is uncovered, and
    /// with it all that the reveal reaches from there; the flags on them go.
    /// After a mine and after a hidden square `won` is set anew.
    pub open spec fn revealed(self, x: int, y: int) -> Board {
        if self.lost || !inside(self.cells, x, y) {
            self
        } else {
            match self.cells[y][x] {
                Cella::Bomb(_) => Board { lost: true, ..self }.judged(),
                Cella::Safe(_, false, _) => self,
                Cella::Safe(_, true, _) => {
                    let cells = flood(self.cells, x, y);
                    Board { cells, flags: grid_count(cells, Tally::Flags), ..self }.judged()
                },
            }
        }
    }

    /// The game after the flag under the cursor was toggled.
    ///
    /// A lost game, a cursor off the grid and an uncovered square leave it as
    /// it is. Else the flag of the square flips, and the number of flags
    /// follows.
    pub open spec fn flagged(self) -> Board {
        let x = self.x as int;
        let y = self.y as int;
        if self.lost || !inside(self.cells, x, y) || self.cells[y][x].is_revealed() {
            self
        } else {
            let c = self.cells[y][x];
            Board {
                cells: with_square(self.cells, x, y, c.toggled()),
                flags: if c.is_flagged() {
                    (self.flags - 1) as nat
                } else {
                    self.flags + 1
                },
                ..self
            }
        }
    }
}

/// The mine threshold of a percentage: the percentage itself, 100 at most.
pub open spec fn threshold(percent: u32) -> u32 {
    if percent > 100 {
        100
    } else {
        percent
    }
}

/// The roll for the square `(x, y)` of a grid `w` wide puts a mine there.
pub open spec fn mined(w: nat, percent: u32, rolls: Seq<u32>, x: int, y: int) -> bool {
    rolls[y * w + x] < threshold(percent)
}

/// The grid of `w` by `h` squares with its mines laid by the rolls, row by
/// row, and no count yet.
pub open spec fn laid(w: nat, h: nat, percent: u32, rolls: Seq<u32>) -> Grid {
    Seq::new(
        h,
        |y: int|
            Seq::new(
                w,
                |x: int|
                    if mined(w, percent, rolls, x, y) {
                        Cella::Bomb(false)
                    } else {
                        Cella::Safe(0, true, false)
                    },
            ),
    )
}

/// The grid with the number of mines around written into each square
/// without a mine.
pub open spec fn counted(g: Grid) -> Grid {
    Seq::new(
        g.len(),
        |y: int|
            Seq::new(
                g[y].len(),
                |x: int|
                    match g[y][x] {
                        Cella::Safe(_, h, f) => Cella::Safe(mines_around(g, x, y) as usize, h, f),
                        Cella::Bomb(f) => Cella::Bomb(f),
                    },
            ),
    )
}

/// The game at its start, on `w` by `h` squares, with its mines laid by
/// the rolls.
pub open spec fn fresh(w: nat, h: nat, percent: u32, rolls: Seq<u32>) -> Board {
    let cells = counted(laid(w, h, percent, rolls));
    Board {
        cells,
        x: w / 2,
        y: h / 2,
        lost: false,
        won: false,
        mines: grid_count(cells, Tally::Mines),
        flags: 0,
    }
}

} // verus!
