//! The game as it runs: the squares in memory, the cursor, and the
//! operations on them.

use vstd::prelude::*;
use crate::board::Board;
use crate::cell::Cella;
use crate::grid::{all_clear, inside, width, with_square, Grid};
use crate::preserve::lemma_moved_wf;

verus! {

/// A game of Minesweeper.
///
/// Its view is the [`Board`] that the contracts speak of. A game that a
/// constructor built is well-formed (`wf`), and every operation but
/// [`Game::get_cell_mut`] keeps it so.
pub struct Game {
    /// The squares, top row first.
    pub(crate) cells: Vec<Vec<Cella>>,
    /// The column of the cursor.
    pub(crate) x: usize,
    /// The row of the cursor.
    pub(crate) y: usize,
    /// A mine has been uncovered.
    pub(crate) lost: bool,
    /// At the last reveal no square without a mine was left hidden.
    pub(crate) won: bool,
    /// The number of mines.
    pub(crate) n_bombs: usize,
    /// The number of flags.
    pub(crate) n_flags: usize,
}

/// The rows in memory as a grid.
pub open spec fn grid_of(rows: Seq<Vec<Cella>>) -> Grid {
    Seq::new(rows.len(), |j: int| rows[j]@)
}

/// The rows in memory are no more, and no longer, than a `usize` counts.
pub proof fn lemma_grid_of_fits(rows: &Vec<Vec<Cella>>)
    ensures
        grid_of(rows@).len() <= usize::MAX,
        forall|j: int| 0 <= j < rows@.len() ==> (#[trigger] grid_of(rows@)[j]).len() <= usize::MAX,
{
    assert(rows.len() == rows@.len());
    assert forall|j: int| 0 <= j < rows@.len() implies (#[trigger] grid_of(rows@)[j]).len()
        <= usize::MAX by {
        let r = rows@[j];
        assert(r.len() == r@.len());
    }
}

impl View for Game {
    type V = Board;

    open(crate) spec fn view(&self) -> Board {
        Board {
            cells: grid_of(self.cells@),
            x: self.x as nat,
            y: self.y as nat,
            lost: self.lost,
            won: self.won,
            mines: self.n_bombs as nat,
            flags: self.n_flags as nat,
        }
    }
}

impl Game {
    /// Whether no square without a mine was left hidden at the last reveal.
    pub fn is_won(&self) -> (r: bool)
        ensures
            r == self@.won,
    {
        self.won
    }

    /// Whether a mine has been uncovered.
    pub fn is_lost(&self) -> (r: bool)
        ensures
            r == self@.lost,
    {
        self.lost
    }

    /// The number of rows.
    pub fn get_h(&self) -> (h: usize)
        ensures
            h == self@.cells.len(),
    {
        self.cells.len()
    }

    /// The number of columns: 0 for a board without rows.
    pub fn get_w(&self) -> (w: usize)
        ensures
            w == width(self@.cells),
    {
        if self.cells.len() == 0 {
            0
        } else {
            self.cells[0].len()
        }
    }

    /// The position `(x, y)` of the cursor.
    pub fn cursor(&self) -> (p: (usize, usize))
        ensures
            p.0 == self@.x,
            p.1 == self@.y,
    {
        (self.x, self.y)
    }

    /// The number of mines on the board.
    pub fn mine_count(&self) -> (n: usize)
        ensures
            n == self@.mines,
    {
        self.n_bombs
    }

    /// The number of flags on the board.
    pub fn flag_count(&self) -> (n: usize)
        ensures
            n == self@.flags,
    {
        self.n_flags
    }

    /// The square at `(x, y)`, or `None` where the position is off the board.
    pub fn get_cell(&self, x: usize, y: usize) -> (r: Option<&Cella>)
        ensures
            r.is_some() <==> inside(self@.cells, x as int, y as int),
            r matches Some(c) ==> *c == self@.cells[y as int][x as int],
    {
        if y < self.cells.len() {
            if x < self.cells[y].len() {
                return Some(&self.cells[y][x]);
            }
        }
        None
    }

    /// The square at `(x, y)` for writing, or `None` where the position is
    /// off the board.
    ///
    /// What the caller writes there is the square of the board afterwards;
    /// nothing else changes. The caller answers for `wf` of the result.
    pub fn get_cell_mut(&mut self, x: usize, y: usize) -> (r: Option<&mut Cella>)
        ensures
            r.is_some() <==> inside(old(self)@.cells, x as int, y as int),
            r is None ==> final(self)@ == old(self)@,
            r matches Some(c) ==> *c == old(self)@.cells[y as int][x as int],
            r matches Some(c) ==> final(self)@ =~~= (Board {
                cells: with_square(old(self)@.cells, x as int, y as int, *final(c)),
                ..old(self)@
            }),
    {
        if y < self.cells.len() {
            if x < self.cells[y].len() {
                return Some(&mut self.cells[y][x]);
            }
        }
        None
    }

    /// Moves the cursor one row up; at the top row it stays.
    pub fn move_up(&mut self)
        ensures
            final(self)@ == old(self)@.moved_up(),
            old(self)@.wf() ==> final(self)@.wf(),
    {
        proof {
            if self@.wf() {
                lemma_moved_wf(self@);
            }
        }
        if self.y > 0 {
            self.y = self.y - 1;
        }
    }

    /// Moves the cursor one column to the left; at the first column it stays.
    pub fn move_left(&mut self)
        ensures
            final(self)@ == old(self)@.moved_left(),
            old(self)@.wf() ==> final(self)@.wf(),
    {
        proof {
            if self@.wf() {
                lemma_moved_wf(self@);
            }
        }
        if self.x > 0 {
            self.x = self.x - 1;
        }
    }

    /// Moves the cursor one row down; at the bottom row it stays.
    pub fn move_down(&mut self)
        ensures
            final(self)@ == old(self)@.moved_down(),
            old(self)@.wf() ==> final(self)@.wf(),
    {
        proof {
            if self@.wf() {
                lemma_moved_wf(self@);
            }
        }
        let h = self.get_h();
        if h > 0 && self.y < h - 1 {
            self.y = self.y + 1;
        }
    }

    /// Moves the cursor one column to the right; at the last column it stays.
    pub fn move_right(&mut self)
        ensures
            final(self)@ == old(self)@.moved_right(),
            old(self)@.wf() ==> final(self)@.wf(),
    {
        proof {
            if self@.wf() {
                lemma_moved_wf(self@);
            }
        }
        let w = self.get_w();
        if w > 0 && self.x < w - 1 {
            self.x = self.x + 1;
        }
    }

    /// A jump upwards: kept for later, it moves nothing.
    pub fn long_up(&mut self)
        ensures
            final(self)@ == old(self)@,
    {
    }

    /// A jump downwards: kept for later, it moves nothing.
    pub fn long_down(&mut self)
        ensures
            final(self)@ == old(self)@,
    {
    }

    /// A jump to the left: kept for later, it moves nothing.
    pub fn long_left(&mut self)
        ensures
            final(self)@ == old(self)@,
    {
    }

    /// A jump to the right: kept for later, it moves nothing.
    pub fn long_right(&mut self)
        ensures
            final(self)@ == old(self)@,
    {
    }

    /// Sets `won` anew: it holds if and only if no square without a mine is
    /// hidden. Flags play no part.
    pub fn check_win(&mut self)
        ensures
            final(self)@ == old(self)@.judged(),
            old(self)@.wf() ==> final(self)@.wf(),
    {
        let ghost g = self@.cells;
        let mut clear = true;
        let mut y: usize = 0;
        while y < self.cells.len()
            invariant
                y <= self.cells.len(),
                self@ == old(self)@,
                g == self@.cells,
                clear <==> forall|i: int, j: int|
                    #![trigger g[j][i]]
                    inside(g, i, j) && j < y ==> !g[j][i].is_hidden(),
            decreases self.cells.len() - y,
        {
            let mut x: usize = 0;
            while x < self.cells[y].len()
                invariant
                    y < self.cells.len(),
                    x <= self.cells[y as int].len(),
                    self@ == old(self)@,
                    g == self@.cells,
                    clear <==> forall|i: int, j: int|
                        #![trigger g[j][i]]
                        inside(g, i, j) && (j < y || (j == y && i < x)) ==> !g[j][i].is_hidden(),
                decreases self.cells[y as int].len() - x,
            {
                match self.cells[y][x] {
                    Cella::Safe(_, true, _) => {
                        assert(inside(g, x as int, y as int) && g[y as int][x as int].is_hidden());
                        clear = false;
                    },
                    _ => {},
                }
                x = x + 1;
            }
            y = y + 1;
        }
        assert(clear == all_clear(g));
        self.won = clear;
    }
}

} // verus!
