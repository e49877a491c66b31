//! Every operation keeps a well-formed game well-formed.

use vstd::prelude::*;
use crate::board::{counted, fresh, laid, Board};
use crate::cell::Cella;
use crate::flood::{flood, floods, lemma_flood_squares, lemma_floods_step};
use crate::grid::{
    adjacent, all_clear, any_revealed, counts, counts_exact, grid_count, inside,
    lemma_count_with_square, lemma_grid_count_none, lemma_grid_count_same,
    lemma_mines_around_same, lemma_mines_around_sum, mines_around, rectangular, same_counted,
    same_shape, settled, tidy, width, with_square, Grid, Tally,
};

verus! {

/// The two grids have the same shape, and each square of the one is the
/// square of the other up to its flag.
pub open spec fn same_but_flags(g: Grid, k: Grid) -> bool {
    &&& same_shape(g, k)
    &&& forall|x: int, y: int|
        #![trigger g[y][x]]
        #![trigger k[y][x]]
        inside(g, x, y) ==> g[y][x].same_but_flag(k[y][x])
}

/// The two grids have the same shape, and each square of `k` is the square
/// of `g`, as it is or uncovered.
pub open spec fn uncovers(g: Grid, k: Grid) -> bool {
    &&& same_shape(g, k)
    &&& forall|x: int, y: int|
        #![trigger g[y][x]]
        #![trigger k[y][x]]
        inside(g, x, y) ==> k[y][x] == g[y][x] || k[y][x] == g[y][x].uncovered()
}

/// Grids of the same shape have the same squares.
pub proof fn lemma_same_shape_inside(g: Grid, k: Grid)
    requires
        same_shape(g, k),
    ensures
        forall|x: int, y: int| inside(g, x, y) <==> inside(k, x, y),
        width(g) == width(k),
        rectangular(g) <==> rectangular(k),
{
    assert forall|x: int, y: int| inside(g, x, y) <==> inside(k, x, y) by {
        if 0 <= y < g.len() {
            assert(g[y].len() == k[y].len());
        }
    }
    if g.len() > 0 {
        assert(g[0].len() == k[0].len());
    }
    if rectangular(g) {
        assert forall|j: int| 0 <= j < k.len() implies (#[trigger] k[j]).len() == width(k) by {
            assert(g[j].len() == k[j].len());
        }
    }
    if rectangular(k) {
        assert forall|j: int| 0 <= j < g.len() implies (#[trigger] g[j]).len() == width(g) by {
            assert(g[j].len() == k[j].len());
        }
    }
}

/// Grids with the same mines and the same numbers in their squares are
/// both exact in their counts, or neither is.
pub proof fn lemma_counts_exact_same(g: Grid, k: Grid)
    requires
        same_shape(g, k),
        counts_exact(g),
        forall|x: int, y: int|
            #![trigger g[y][x]]
            #![trigger k[y][x]]
            inside(g, x, y) ==> match (g[y][x], k[y][x]) {
                (Cella::Safe(n, _, _), Cella::Safe(m, _, _)) => n == m,
                (Cella::Bomb(_), Cella::Bomb(_)) => true,
                _ => false,
            },
    ensures
        counts_exact(k),
        same_counted(g, k, Tally::Mines),
{
    lemma_same_shape_inside(g, k);
    assert(same_counted(g, k, Tally::Mines)) by {
        assert forall|x: int, y: int|
            #![trigger g[y][x]]
            #![trigger k[y][x]]
            inside(g, x, y) implies counts(g[y][x], Tally::Mines) == counts(
            k[y][x],
            Tally::Mines,
        ) by {
            let a = g[y][x];
            let b = k[y][x];
        }
    }
    assert forall|x: int, y: int| #![trigger k[y][x]] inside(k, x, y) implies (k[y][x] matches
        Cella::Safe(n, _, _) ==> n == mines_around(k, x, y)) by {
        assert(inside(g, x, y));
        let a = g[y][x];
        lemma_mines_around_same(g, k, x, y);
    }
}

/// What does not depend on the flags of a grid.
pub proof fn lemma_flags_apart(g: Grid, k: Grid)
    requires
        same_but_flags(g, k),
    ensures
        all_clear(g) == all_clear(k),
        any_revealed(g) == any_revealed(k),
        settled(g) == settled(k),
        grid_count(g, Tally::Mines) == grid_count(k, Tally::Mines),
        grid_count(g, Tally::Hidden) == grid_count(k, Tally::Hidden),
{
    lemma_same_shape_inside(g, k);
    lemma_flags_apart_one_way(g, k);
    assert(same_but_flags(k, g)) by {
        assert forall|x: int, y: int|
            #![trigger g[y][x]]
            #![trigger k[y][x]]
            inside(k, x, y) implies k[y][x].same_but_flag(g[y][x]) by {
            assert(inside(g, x, y));
            assert(g[y][x].same_but_flag(k[y][x]));
        }
    }
    lemma_flags_apart_one_way(k, g);
    assert(same_counted(g, k, Tally::Mines)) by {
        assert forall|x: int, y: int|
            #![trigger g[y][x]]
            #![trigger k[y][x]]
            inside(g, x, y) implies counts(g[y][x], Tally::Mines) == counts(
            k[y][x],
            Tally::Mines,
        ) by {
            assert(g[y][x].same_but_flag(k[y][x]));
        }
    }
    assert(same_counted(g, k, Tally::Hidden)) by {
        assert forall|x: int, y: int|
            #![trigger g[y][x]]
            #![trigger k[y][x]]
            inside(g, x, y) implies counts(g[y][x], Tally::Hidden) == counts(
            k[y][x],
            Tally::Hidden,
        ) by {
            assert(g[y][x].same_but_flag(k[y][x]));
        }
    }
    lemma_grid_count_same(g, k, Tally::Mines);
    lemma_grid_count_same(g, k, Tally::Hidden);
}

proof fn lemma_flags_apart_one_way(g: Grid, k: Grid)
    requires
        same_but_flags(g, k),
    ensures
        all_clear(g) ==> all_clear(k),
        any_revealed(g) ==> any_revealed(k),
        settled(g) ==> settled(k),
{
    lemma_same_shape_inside(g, k);
    if all_clear(g) {
        assert forall|x: int, y: int| #![trigger k[y][x]] inside(k, x, y) implies
            !k[y][x].is_hidden() by {
            assert(inside(g, x, y));
            assert(g[y][x].same_but_flag(k[y][x]));
            assert(!g[y][x].is_hidden());
        }
    }
    if any_revealed(g) {
        let (x, y) = choose|x: int, y: int|
            #![trigger g[y][x]]
            inside(g, x, y) && g[y][x].is_revealed();
        assert(inside(k, x, y));
        assert(g[y][x].same_but_flag(k[y][x]));
        assert(k[y][x].is_revealed());
    }
    if settled(g) {
        assert forall|x: int, y: int, u: int, v: int|
            #![trigger k[y][x], k[v][u]]
            inside(k, x, y) && k[y][x].is_revealed() && k[y][x].is_blank() && inside(k, u, v)
                && adjacent(x, y, u, v) implies !k[v][u].is_hidden() by {
            assert(inside(g, x, y) && inside(g, u, v));
            assert(g[y][x].same_but_flag(k[y][x]));
            assert(g[v][u].same_but_flag(k[v][u]));
            assert(!g[v][u].is_hidden());
        }
    }
}

/// Moving the cursor keeps the game well-formed.
pub proof fn lemma_moved_wf(b: Board)
    requires
        b.wf(),
    ensures
        b.moved_up().wf(),
        b.moved_down().wf(),
        b.moved_left().wf(),
        b.moved_right().wf(),
{
    assert(b.moved_up().cursor_ok());
    assert(b.moved_down().cursor_ok());
    assert(b.moved_left().cursor_ok());
    assert(b.moved_right().cursor_ok());
}

/// Toggling a flag keeps the game well-formed.
pub proof fn lemma_flagged_wf(b: Board)
    requires
        b.wf(),
    ensures
        b.flagged().wf(),
{
    let x = b.x as int;
    let y = b.y as int;
    let g = b.cells;
    if !(b.lost || !inside(g, x, y) || g[y][x].is_revealed()) {
        let c = g[y][x];
        let k = with_square(g, x, y, c.toggled());
        assert(same_but_flags(g, k)) by {
            assert forall|j: int| 0 <= j < g.len() implies (#[trigger] g[j]).len()
                == k[j].len() by {}
            assert forall|i: int, j: int|
                #![trigger g[j][i]]
                #![trigger k[j][i]]
                inside(g, i, j) implies g[j][i].same_but_flag(k[j][i]) by {}
        }
        lemma_same_shape_inside(g, k);
        lemma_flags_apart(g, k);
        lemma_counts_exact_same(g, k);
        lemma_count_with_square(g, x, y, c.toggled(), Tally::Flags);
        assert(tidy(k)) by {
            assert forall|i: int, j: int|
                #![trigger k[j][i]]
                inside(k, i, j) && k[j][i].is_revealed() implies !k[j][i].is_flagged() by {
                assert(inside(g, i, j));
                assert(!(i == x && j == y));
                assert(k[j][i] == g[j][i]);
            }
        }
    }
}

/// A reveal keeps the game well-formed.
pub proof fn lemma_revealed_wf(b: Board, x: int, y: int)
    requires
        b.wf(),
    ensures
        b.revealed(x, y).wf(),
{
    let g = b.cells;
    if !(b.lost || !inside(g, x, y)) {
        match g[y][x] {
            Cella::Bomb(_) => {},
            Cella::Safe(_, false, _) => {},
            Cella::Safe(_, true, _) => {
                let k = flood(g, x, y);
                lemma_flood_squares(g, x, y);
                lemma_same_shape_inside(g, k);
                assert(uncovers(g, k)) by {
                    assert forall|i: int, j: int|
                        #![trigger g[j][i]]
                        #![trigger k[j][i]]
                        inside(g, i, j) implies k[j][i] == g[j][i] || k[j][i]
                        == g[j][i].uncovered() by {
                        assert(inside(k, i, j));
                    }
                }
                lemma_counts_exact_same(g, k);
                lemma_grid_count_same(g, k, Tally::Mines);
                assert(tidy(k)) by {
                    assert forall|i: int, j: int|
                        #![trigger k[j][i]]
                        inside(k, i, j) && k[j][i].is_revealed() implies !k[j][i].is_flagged() by {
                        assert(inside(g, i, j));
                        let a = g[j][i];
                    }
                }
                assert(settled(k)) by {
                    assert forall|i: int, j: int, u: int, v: int|
                        #![trigger k[j][i], k[v][u]]
                        inside(k, i, j) && k[j][i].is_revealed() && k[j][i].is_blank() && inside(
                            k,
                            u,
                            v,
                        ) && adjacent(i, j, u, v) implies !k[v][u].is_hidden() by {
                        assert(inside(g, i, j) && inside(g, u, v));
                        let a = g[j][i];
                        let c = g[v][u];
                        if a.is_revealed() {
                            assert(!c.is_hidden());
                        } else {
                            assert(floods(g, x, y, i, j));
                            if c.is_hidden() {
                                lemma_floods_step(g, x, y, i, j, u, v);
                            }
                        }
                    }
                }
            },
        }
    }
}

/// The game at its start is well-formed.
pub proof fn lemma_fresh_wf(w: nat, h: nat, percent: u32, rolls: Seq<u32>)
    requires
        w * h <= usize::MAX,
    ensures
        fresh(w, h, percent, rolls).wf(),
{
    let l = laid(w, h, percent, rolls);
    let g = counted(l);
    let b = fresh(w, h, percent, rolls);
    assert(same_shape(l, g));
    assert(rectangular(g));
    assert(g.len() * width(g) <= usize::MAX) by {
        if h > 0 {
            assert(width(g) == w);
            assert(h * w == w * h) by (nonlinear_arith);
        } else {
            assert(g.len() * width(g) == 0) by (nonlinear_arith)
                requires
                    g.len() == 0,
            ;
        }
    }
    assert(same_counted(l, g, Tally::Mines)) by {
        assert forall|x: int, y: int|
            #![trigger l[y][x]]
            #![trigger g[y][x]]
            inside(l, x, y) implies counts(l[y][x], Tally::Mines) == counts(
            g[y][x],
            Tally::Mines,
        ) by {}
    }
    assert(counts_exact(g)) by {
        assert forall|x: int, y: int| #![trigger g[y][x]] inside(g, x, y) implies (g[y][x] matches
            Cella::Safe(n, _, _) ==> n == mines_around(g, x, y)) by {
            assert(inside(l, x, y));
            lemma_mines_around_same(l, g, x, y);
            lemma_mines_around_sum(l, x, y);
            let a = l[y][x];
        }
    }
    assert forall|x: int, y: int| #![trigger g[y][x]] inside(g, x, y) implies !g[y][x].is_revealed()
        && !g[y][x].is_flagged() by {
        assert(inside(l, x, y));
        let a = l[y][x];
    }
    assert(!any_revealed(g));
    assert forall|x: int, y: int| #![trigger g[y][x]] inside(g, x, y) implies !counts(
        g[y][x],
        Tally::Flags,
    ) by {}
    lemma_grid_count_none(g, Tally::Flags);
    assert(b.cells == g);
    assert(tidy(g));
    assert(settled(g));
}

} // verus!
