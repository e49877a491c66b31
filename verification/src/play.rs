//! Revealing squares and toggling flags.

use vstd::prelude::*;
use crate::cell::Cella;
use crate::game::Game;
use crate::flood::lemma_floods_hidden;
use crate::grid::{
    adjacent, grid_count, inside, lemma_count_with_square, lemma_grid_count_bound, rectangular,
    same_shape, with_square, Tally,
};
use crate::preserve::{lemma_flagged_wf, lemma_revealed_wf, lemma_same_shape_inside};
use crate::worklist::{
    extends, flooding, hidden_neighbor, lemma_extends_on_list, lemma_flooding_done,
    lemma_flooding_skip, lemma_flooding_start, lemma_flooding_uncover, neighbors_listed, on_list,
    reached,
};

verus! {

impl Game {
    /// Puts every hidden square next to `(x, y)` on the list.
    fn push_hidden_neighbors(&self, list: &mut Vec<(usize, usize)>, x: usize, y: usize)
        requires
            rectangular(self@.cells),
            inside(self@.cells, x as int, y as int),
        ensures
            extends(old(list)@, final(list)@),
            forall|k: int|
                old(list)@.len() <= k < final(list)@.len() ==> #[trigger] hidden_neighbor(
                    self@.cells,
                    x as int,
                    y as int,
                    final(list)@,
                    k,
                ),
            neighbors_listed(self@.cells, x as int, y as int, final(list)@),
    {
        let ghost g = self@.cells;
        let ghost first = list@;
        let h = self.cells.len();
        let w = self.cells[y].len();
        let y0 = if y > 0 { y - 1 } else { y };
        let y1 = if y + 1 < h { y + 1 } else { y };
        let x0 = if x > 0 { x - 1 } else { x };
        let x1 = if x + 1 < w { x + 1 } else { x };
        let mut v = y0;
        while v <= y1
            invariant
                g == self@.cells,
                rectangular(g),
                inside(g, x as int, y as int),
                h == g.len(),
                w == g[y as int].len(),
                y0 == if y > 0 { y - 1 } else { y as int },
                y1 == if y + 1 < h { y + 1 } else { y as int },
                x0 == if x > 0 { x - 1 } else { x as int },
                x1 == if x + 1 < w { x + 1 } else { x as int },
                y0 <= v <= y1 + 1,
                extends(first, list@),
                forall|k: int|
                    first.len() <= k < list@.len() ==> #[trigger] hidden_neighbor(
                        g,
                        x as int,
                        y as int,
                        list@,
                        k,
                    ),
                forall|p: int, q: int|
                    #![trigger g[q][p]]
                    inside(g, p, q) && adjacent(x as int, y as int, p, q) && g[q][p].is_hidden()
                        && q < v ==> on_list(list@, p, q),
            decreases y1 + 1 - v,
        {
            assert(g[v as int].len() == w);
            let mut u = x0;
            while u <= x1
                invariant
                    g == self@.cells,
                    rectangular(g),
                    inside(g, x as int, y as int),
                    h == g.len(),
                    w == g[y as int].len(),
                    w == g[v as int].len(),
                    y0 == if y > 0 { y - 1 } else { y as int },
                    y1 == if y + 1 < h { y + 1 } else { y as int },
                    x0 == if x > 0 { x - 1 } else { x as int },
                    x1 == if x + 1 < w { x + 1 } else { x as int },
                    y0 <= v <= y1,
                    x0 <= u <= x1 + 1,
                    extends(first, list@),
                    forall|k: int|
                        first.len() <= k < list@.len() ==> #[trigger] hidden_neighbor(
                            g,
                            x as int,
                            y as int,
                            list@,
                            k,
                        ),
                    forall|p: int, q: int|
                        #![trigger g[q][p]]
                        inside(g, p, q) && adjacent(x as int, y as int, p, q) && g[q][p].is_hidden()
                            && (q < v || (q == v && p < u)) ==> on_list(list@, p, q),
                decreases x1 + 1 - u,
            {
                let ghost was = list@;
                if !(u == x && v == y) {
                    match self.cells[v][u] {
                        Cella::Safe(_, true, _) => {
                            list.push((u, v));
                            proof {
                                assert(extends(was, list@));
                                lemma_extends_on_list(was, list@);
                                assert(list@[was.len() as int] == (u, v));
                                assert(on_list(list@, u as int, v as int));
                                assert forall|k: int|
                                    first.len() <= k < list@.len() implies
                                    #[trigger] hidden_neighbor(g, x as int, y as int, list@, k) by {
                                    if k < was.len() {
                                        assert(hidden_neighbor(g, x as int, y as int, was, k));
                                        assert(list@[k] == was[k]);
                                    }
                                }
                            }
                        },
                        _ => {},
                    }
                }
                u = u + 1;
            }
            v = v + 1;
        }
    }

    /// Reveals the square at `(x, y)`, and says whether the board has a
    /// square there; a position off the board is rejected.
    ///
    /// Nothing happens in a lost game, off the board, or on a square that is
    /// uncovered already. A mine loses the game, flagged or not: a flag
    /// does not stand in the way of a reveal. A hidden square is uncovered
    /// and loses its flag; if no mine is near it, the squares around it are
    /// revealed in turn, from a work list and without recursion. Then `won`
    /// is set anew.
    pub fn click_coords(&mut self, x: usize, y: usize) -> (on_board: bool)
        requires
            old(self)@.wf(),
        ensures
            on_board == inside(old(self)@.cells, x as int, y as int),
            final(self)@ == old(self)@.revealed(x as int, y as int),
            final(self)@.wf(),
    {
        proof {
            lemma_revealed_wf(self@, x as int, y as int);
        }
        if y >= self.cells.len() {
            return false;
        }
        if x >= self.cells[y].len() {
            return false;
        }
        if self.lost {
            return true;
        }
        match self.cells[y][x] {
            Cella::Bomb(_) => {
                self.lost = true;
                self.check_win();
                return true;
            },
            Cella::Safe(_, false, _) => {
                return true;
            },
            Cella::Safe(_, true, _) => {},
        }
        let ghost start = self@;
        let ghost before = self@.cells;
        let mut list: Vec<(usize, usize)> = Vec::new();
        list.push((x, y));
        proof {
            lemma_flooding_start(before, x, y);
            assert(list@ =~= seq![(x, y)]);
        }
        while list.len() > 0
            invariant
                start.wf(),
                before == start.cells,
                self@.x == start.x,
                self@.y == start.y,
                self@.lost == start.lost,
                self@.won == start.won,
                self@.mines == start.mines,
                self@.flags == grid_count(self@.cells, Tally::Flags),
                flooding(before, x as int, y as int, self@.cells, list@),
            decreases grid_count(self@.cells, Tally::Hidden), list@.len(),
        {
            let ghost now = self@.cells;
            let ghost waiting = list@;
            let (cx, cy) = list.pop().unwrap();
            proof {
                lemma_same_shape_inside(before, now);
                assert(reached(before, x as int, y as int, waiting, waiting.len() - 1));
                lemma_floods_hidden(before, x as int, y as int, cx as int, cy as int);
                assert(inside(now, cx as int, cy as int));
                assert(list@ =~= waiting.drop_last());
            }
            match self.cells[cy][cx] {
                Cella::Safe(n, true, f) => {
                    let ghost shown = Cella::Safe(n, false, false);
                    let ghost next = with_square(now, cx as int, cy as int, shown);
                    proof {
                        lemma_count_with_square(now, cx as int, cy as int, shown, Tally::Flags);
                        lemma_count_with_square(now, cx as int, cy as int, shown, Tally::Hidden);
                    }
                    if f {
                        self.n_flags = self.n_flags - 1;
                    }
                    self.cells[cy][cx] = Cella::Safe(n, false, false);
                    assert(self@.cells =~= next);
                    if n == 0 {
                        proof {
                            lemma_same_shape_inside(before, next);
                        }
                        self.push_hidden_neighbors(&mut list, cx, cy);
                    }
                    proof {
                        lemma_flooding_uncover(
                            before,
                            x as int,
                            y as int,
                            now,
                            waiting,
                            next,
                            list@,
                        );
                    }
                },
                _ => {
                    proof {
                        lemma_flooding_skip(before, x as int, y as int, now, waiting);
                    }
                },
            }
        }
        proof {
            assert(list@ =~= Seq::empty());
            lemma_flooding_done(before, x as int, y as int, self@.cells);
        }
        self.check_win();
        true
    }

    /// Reveals the square under the cursor.
    pub fn click(&mut self)
        requires
            old(self)@.wf(),
        ensures
            final(self)@ == old(self)@.revealed(old(self)@.x as int, old(self)@.y as int),
            final(self)@.wf(),
    {
        let x = self.x;
        let y = self.y;
        let _ = self.click_coords(x, y);
    }

    /// Toggles the flag of the square under the cursor.
    ///
    /// Nothing happens in a lost game, with the cursor off the board, or on
    /// an uncovered square. The number of flags follows the flag.
    pub fn flag(&mut self)
        requires
            old(self)@.wf(),
        ensures
            final(self)@ == old(self)@.flagged(),
            final(self)@.wf(),
    {
        proof {
            lemma_flagged_wf(self@);
        }
        if self.lost {
            return ;
        }
        let x = self.x;
        let y = self.y;
        if y >= self.cells.len() {
            return ;
        }
        if x >= self.cells[y].len() {
            return ;
        }
        let ghost g = self@.cells;
        let c = self.cells[y][x];
        let turned = match c {
            Cella::Safe(_, false, _) => {
                return ;
            },
            Cella::Safe(n, true, f) => Cella::Safe(n, true, !f),
            Cella::Bomb(f) => Cella::Bomb(!f),
        };
        let up = match c {
            Cella::Safe(_, _, f) => !f,
            Cella::Bomb(f) => !f,
        };
        proof {
            let k = with_square(g, x as int, y as int, turned);
            lemma_count_with_square(g, x as int, y as int, turned, Tally::Flags);
            assert(same_shape(g, k));
            lemma_same_shape_inside(g, k);
            lemma_grid_count_bound(k, Tally::Flags);
        }
        self.cells[y][x] = turned;
        if up {
            self.n_flags = self.n_flags + 1;
        } else {
            self.n_flags = self.n_flags - 1;
        }
        assert(self@.cells =~= with_square(g, x as int, y as int, turned));
    }
}

} // verus!
