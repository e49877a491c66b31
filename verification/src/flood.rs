//! Which squares one reveal uncovers: the squares reached from the first
//! over hidden squares without mines near them.

use vstd::prelude::*;
use crate::grid::{adjacent, inside, same_shape, Grid};

verus! {

/// A walk over the grid, as the positions `(x, y)` it visits.
pub type Walk = Seq<(int, int)>;

/// The `i`-th position of the walk is a hidden square of the grid.
pub open spec fn hidden_step(g: Grid, walk: Walk, i: int) -> bool {
    inside(g, walk[i].0, walk[i].1) && g[walk[i].1][walk[i].0].is_hidden()
}

/// The `i`-th position of the walk is a square of the grid.
pub open spec fn inside_step(g: Grid, walk: Walk, i: int) -> bool {
    inside(g, walk[i].0, walk[i].1)
}

/// The walk may go on from its `i`-th position to the next: the square has
/// no mine near it, and the next position is next to it.
pub open spec fn link(g: Grid, walk: Walk, i: int) -> bool {
    &&& inside(g, walk[i].0, walk[i].1)
    &&& g[walk[i].1][walk[i].0].is_blank()
    &&& adjacent(walk[i].0, walk[i].1, walk[i + 1].0, walk[i + 1].1)
}

/// A walk over hidden squares that leaves every square but its last
/// through a square without mines near it.
pub open spec fn is_trail(g: Grid, walk: Walk) -> bool {
    &&& walk.len() > 0
    &&& forall|i: int| 0 <= i < walk.len() ==> #[trigger] hidden_step(g, walk, i)
    &&& forall|i: int| 0 <= i < walk.len() - 1 ==> #[trigger] link(g, walk, i)
}

/// A walk over squares, hidden or not, that leaves every square but its
/// last through a square without mines near it.
pub open spec fn is_path(g: Grid, walk: Walk) -> bool {
    &&& walk.len() > 0
    &&& forall|i: int| 0 <= i < walk.len() ==> #[trigger] inside_step(g, walk, i)
    &&& forall|i: int| 0 <= i < walk.len() - 1 ==> #[trigger] link(g, walk, i)
}

/// The walk leads from `(sx, sy)` to `(tx, ty)`.
pub open spec fn joins(walk: Walk, sx: int, sy: int, tx: int, ty: int) -> bool {
    walk.len() > 0 && walk[0] == (sx, sy) && walk.last() == (tx, ty)
}

/// A reveal at `(sx, sy)` reaches `(tx, ty)`: a trail leads from the one to
/// the other.
pub open spec fn floods(g: Grid, sx: int, sy: int, tx: int, ty: int) -> bool {
    exists|walk: Walk| is_trail(g, walk) && joins(walk, sx, sy, tx, ty)
}

/// `(tx, ty)` lies in the region of `(sx, sy)`: the connected squares
/// without mines near them, and the squares next to those.
pub open spec fn in_region(g: Grid, sx: int, sy: int, tx: int, ty: int) -> bool {
    exists|walk: Walk| is_path(g, walk) && joins(walk, sx, sy, tx, ty)
}

/// The grid after a reveal at `(sx, sy)`: every square that the reveal
/// reaches is uncovered, every other square is as before.
pub open spec fn flood(g: Grid, sx: int, sy: int) -> Grid {
    Seq::new(
        g.len(),
        |y: int|
            Seq::new(
                g[y].len(),
                |x: int|
                    if floods(g, sx, sy, x, y) {
                        g[y][x].uncovered()
                    } else {
                        g[y][x]
                    },
            ),
    )
}

/// A hidden square is reached from itself.
pub proof fn lemma_floods_self(g: Grid, x: int, y: int)
    requires
        inside(g, x, y),
        g[y][x].is_hidden(),
    ensures
        floods(g, x, y, x, y),
{
    let walk: Walk = seq![(x, y)];
    assert forall|i: int| 0 <= i < walk.len() implies #[trigger] hidden_step(g, walk, i) by {
        assert(walk[i] == (x, y));
    }
    assert(is_trail(g, walk) && joins(walk, x, y, x, y));
}

/// A trail goes on to a hidden square next to its last, where that last
/// square has no mine near it.
pub proof fn lemma_floods_step(g: Grid, sx: int, sy: int, x: int, y: int, u: int, v: int)
    requires
        floods(g, sx, sy, x, y),
        inside(g, x, y),
        g[y][x].is_blank(),
        adjacent(x, y, u, v),
        inside(g, u, v),
        g[v][u].is_hidden(),
    ensures
        floods(g, sx, sy, u, v),
{
    let walk = choose|walk: Walk| is_trail(g, walk) && joins(walk, sx, sy, x, y);
    let longer = walk.push((u, v));
    assert forall|i: int| 0 <= i < longer.len() implies #[trigger] hidden_step(g, longer, i) by {
        if i < walk.len() {
            assert(hidden_step(g, walk, i));
            assert(longer[i] == walk[i]);
        }
    }
    assert forall|i: int| 0 <= i < longer.len() - 1 implies #[trigger] link(g, longer, i) by {
        assert(longer[i] == walk[i]);
        if i < walk.len() - 1 {
            assert(link(g, walk, i));
            assert(longer[i + 1] == walk[i + 1]);
        }
    }
    assert(is_trail(g, longer) && joins(longer, sx, sy, u, v));
}

/// What a reveal reaches was hidden.
pub proof fn lemma_floods_hidden(g: Grid, sx: int, sy: int, tx: int, ty: int)
    requires
        floods(g, sx, sy, tx, ty),
    ensures
        inside(g, sx, sy),
        g[sy][sx].is_hidden(),
        inside(g, tx, ty),
        g[ty][tx].is_hidden(),
{
    let walk = choose|walk: Walk| is_trail(g, walk) && joins(walk, sx, sy, tx, ty);
    assert(hidden_step(g, walk, 0));
    assert(hidden_step(g, walk, walk.len() - 1));
}

/// The shape of the grid after a reveal, and each of its squares.
pub proof fn lemma_flood_squares(g: Grid, sx: int, sy: int)
    ensures
        same_shape(g, flood(g, sx, sy)),
        forall|x: int, y: int|
            #![trigger flood(g, sx, sy)[y][x]]
            inside(g, x, y) ==> inside(flood(g, sx, sy), x, y) && flood(g, sx, sy)[y][x] == (
            if floods(g, sx, sy, x, y) {
                g[y][x].uncovered()
            } else {
                g[y][x]
            }),
{
}

/// Where `now` holds the squares of `before` with some of those that a
/// reveal at `(sx, sy)` reaches uncovered, the first among them, and
/// nothing hidden is left around an uncovered square without mines near it,
/// the reveal is complete: `now` uncovers every square that it reaches.
pub proof fn lemma_flood_complete(before: Grid, now: Grid, sx: int, sy: int, tx: int, ty: int)
    requires
        same_shape(before, now),
        floods(before, sx, sy, tx, ty),
        !now[sy][sx].is_hidden(),
        forall|x: int, y: int, u: int, v: int|
            #![trigger now[y][x], now[v][u]]
            inside(before, x, y) && before[y][x].is_hidden() && !now[y][x].is_hidden()
                && before[y][x].is_blank() && inside(before, u, v) && adjacent(x, y, u, v)
                ==> !now[v][u].is_hidden(),
    ensures
        !now[ty][tx].is_hidden(),
{
    let walk = choose|walk: Walk| is_trail(before, walk) && joins(walk, sx, sy, tx, ty);
    lemma_trail_uncovered(before, now, walk, walk.len() - 1);
}

/// Under the conditions of `lemma_flood_complete`, every square of a trail
/// from the first square is uncovered.
proof fn lemma_trail_uncovered(before: Grid, now: Grid, walk: Walk, i: int)
    requires
        same_shape(before, now),
        is_trail(before, walk),
        0 <= i < walk.len(),
        !now[walk[0].1][walk[0].0].is_hidden(),
        forall|x: int, y: int, u: int, v: int|
            #![trigger now[y][x], now[v][u]]
            inside(before, x, y) && before[y][x].is_hidden() && !now[y][x].is_hidden()
                && before[y][x].is_blank() && inside(before, u, v) && adjacent(x, y, u, v)
                ==> !now[v][u].is_hidden(),
    ensures
        !now[walk[i].1][walk[i].0].is_hidden(),
    decreases i,
{
    if i > 0 {
        lemma_trail_uncovered(before, now, walk, i - 1);
        assert(hidden_step(before, walk, i - 1));
        assert(hidden_step(before, walk, i));
        assert(link(before, walk, i - 1));
        let x = walk[i - 1].0;
        let y = walk[i - 1].1;
        let u = walk[i].0;
        let v = walk[i].1;
        assert(!now[y][x].is_hidden());
        assert(!now[v][u].is_hidden());
    }
}

} // verus!
