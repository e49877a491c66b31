//! The grid of squares as a mathematical value: its shape, the neighbours
//! of a square, and counts over all squares.

use vstd::prelude::*;
use crate::cell::Cella;

verus! {

/// Rows of squares, top row first.
pub type Grid = Seq<Seq<Cella>>;

/// What is counted over a grid.
pub enum Tally {
    Mines,
    Flags,
    Hidden,
}

/// The width of the grid: the length of its first row, 0 without rows.
pub open spec fn width(g: Grid) -> nat {
    if g.len() == 0 {
        0
    } else {
        g[0].len()
    }
}

/// Every row has the same length.
pub open spec fn rectangular(g: Grid) -> bool {
    forall|j: int| 0 <= j < g.len() ==> (#[trigger] g[j]).len() == width(g)
}

/// `(x, y)` names a square of the grid.
pub open spec fn inside(g: Grid, x: int, y: int) -> bool {
    0 <= y < g.len() && 0 <= x < g[y].len()
}

/// Two different positions that differ by at most 1 in each axis.
pub open spec fn adjacent(x1: int, y1: int, x2: int, y2: int) -> bool {
    &&& x1 - 1 <= x2 <= x1 + 1
    &&& y1 - 1 <= y2 <= y1 + 1
    &&& !(x1 == x2 && y1 == y2)
}

/// The square at `(x, y)` as a sequence: empty where the position is off
/// the grid.
pub open spec fn square(g: Grid, x: int, y: int) -> Seq<Cella> {
    if inside(g, x, y) {
        seq![g[y][x]]
    } else {
        Seq::empty()
    }
}

/// The squares around `(x, y)` that exist, row by row from the top left.
pub open spec fn neighbors(g: Grid, x: int, y: int) -> Seq<Cella> {
    square(g, x - 1, y - 1) + square(g, x, y - 1) + square(g, x + 1, y - 1)
        + square(g, x - 1, y) + square(g, x + 1, y)
        + square(g, x - 1, y + 1) + square(g, x, y + 1) + square(g, x + 1, y + 1)
}

/// The square is counted by `t`.
pub open spec fn counts(c: Cella, t: Tally) -> bool {
    match t {
        Tally::Mines => c.is_mine(),
        Tally::Flags => c.is_flagged(),
        Tally::Hidden => c.is_hidden(),
    }
}

/// 1 where the square is counted by `t`, else 0.
pub open spec fn unit(c: Cella, t: Tally) -> nat {
    if counts(c, t) {
        1
    } else {
        0
    }
}

/// How many squares of `row` are counted by `t`.
pub open spec fn row_count(row: Seq<Cella>, t: Tally) -> nat
    decreases row.len(),
{
    if row.len() == 0 {
        0
    } else {
        row_count(row.drop_last(), t) + unit(row.last(), t)
    }
}

/// How many squares of the grid are counted by `t`.
pub open spec fn grid_count(g: Grid, t: Tally) -> nat
    decreases g.len(),
{
    if g.len() == 0 {
        0
    } else {
        grid_count(g.drop_last(), t) + row_count(g.last(), t)
    }
}

/// The number of mines among the squares around `(x, y)`.
pub open spec fn mines_around(g: Grid, x: int, y: int) -> nat {
    row_count(neighbors(g, x, y), Tally::Mines)
}

/// 1 where `(x, y)` is a mine of the grid, else 0.
pub open spec fn mine_at(g: Grid, x: int, y: int) -> nat {
    if inside(g, x, y) && g[y][x].is_mine() {
        1
    } else {
        0
    }
}

/// The two grids have the same shape.
pub open spec fn same_shape(g: Grid, k: Grid) -> bool {
    &&& g.len() == k.len()
    &&& forall|j: int| 0 <= j < g.len() ==> (#[trigger] g[j]).len() == k[j].len()
}

/// The two grids have the same shape and `t` counts the same squares in both.
pub open spec fn same_counted(g: Grid, k: Grid, t: Tally) -> bool {
    &&& same_shape(g, k)
    &&& forall|x: int, y: int|
        #![trigger g[y][x]]
        #![trigger k[y][x]]
        inside(g, x, y) ==> counts(g[y][x], t) == counts(k[y][x], t)
}

/// Every square without a mine holds the number of mines around it.
pub open spec fn counts_exact(g: Grid) -> bool {
    forall|x: int, y: int|
        #![trigger g[y][x]]
        inside(g, x, y) ==> (g[y][x] matches Cella::Safe(n, _, _) ==> n == mines_around(g, x, y))
}

/// No uncovered square carries a flag.
pub open spec fn tidy(g: Grid) -> bool {
    forall|x: int, y: int|
        #![trigger g[y][x]]
        inside(g, x, y) && g[y][x].is_revealed() ==> !g[y][x].is_flagged()
}

/// Around every uncovered square without mines near it, nothing is hidden.
pub open spec fn settled(g: Grid) -> bool {
    forall|x: int, y: int, u: int, v: int|
        #![trigger g[y][x], g[v][u]]
        inside(g, x, y) && g[y][x].is_revealed() && g[y][x].is_blank() && inside(g, u, v)
            && adjacent(x, y, u, v) ==> !g[v][u].is_hidden()
}

/// No square without a mine is still hidden.
pub open spec fn all_clear(g: Grid) -> bool {
    forall|x: int, y: int| #![trigger g[y][x]] inside(g, x, y) ==> !g[y][x].is_hidden()
}

/// Some square has been uncovered.
pub open spec fn any_revealed(g: Grid) -> bool {
    exists|x: int, y: int| #![trigger g[y][x]] inside(g, x, y) && g[y][x].is_revealed()
}

/// The grid with the square at `(x, y)` replaced by `c`.
pub open spec fn with_square(g: Grid, x: int, y: int, c: Cella) -> Grid {
    g.update(y, g[y].update(x, c))
}

/// Counting over two rows, one after the other, adds up.
pub proof fn lemma_row_count_add(a: Seq<Cella>, b: Seq<Cella>, t: Tally)
    ensures
        row_count(a + b, t) == row_count(a, t) + row_count(b, t),
    decreases b.len(),
{
    if b.len() == 0 {
        assert(a + b =~= a);
    } else {
        assert((a + b).drop_last() =~= a + b.drop_last());
        assert((a + b).last() == b.last());
        lemma_row_count_add(a, b.drop_last(), t);
    }
}

/// A row of one square counts that square.
pub proof fn lemma_row_count_one(c: Cella, t: Tally)
    ensures
        row_count(seq![c], t) == unit(c, t),
{
    let s = seq![c];
    assert(s.drop_last() =~= Seq::<Cella>::empty());
    assert(s.last() == c);
    assert(row_count(s.drop_last(), t) == 0);
}

/// A row with one more square at its end.
pub proof fn lemma_row_count_push(row: Seq<Cella>, c: Cella, t: Tally)
    ensures
        row_count(row.push(c), t) == row_count(row, t) + unit(c, t),
{
    assert(row.push(c).drop_last() =~= row);
    assert(row.push(c).last() == c);
}

/// A grid with one more row at its end.
pub proof fn lemma_grid_count_push(g: Grid, row: Seq<Cella>, t: Tally)
    ensures
        grid_count(g.push(row), t) == grid_count(g, t) + row_count(row, t),
{
    assert(g.push(row).drop_last() =~= g);
    assert(g.push(row).last() == row);
}

/// A row counts no more squares than it has.
pub proof fn lemma_row_count_bound(row: Seq<Cella>, t: Tally)
    ensures
        row_count(row, t) <= row.len(),
    decreases row.len(),
{
    if row.len() > 0 {
        lemma_row_count_bound(row.drop_last(), t);
    }
}

/// A rectangular grid counts no more squares than it has.
pub proof fn lemma_grid_count_bound(g: Grid, t: Tally)
    requires
        rectangular(g),
    ensures
        grid_count(g, t) <= g.len() * width(g),
    decreases g.len(),
{
    if g.len() > 0 {
        let k = g.drop_last();
        assert(rectangular(k)) by {
            assert forall|j: int| 0 <= j < k.len() implies (#[trigger] k[j]).len() == width(k) by {
                assert(k[j] == g[j]);
                assert(k[0] == g[0]);
            }
        }
        lemma_grid_count_bound(k, t);
        lemma_row_count_bound(g.last(), t);
        if k.len() > 0 {
            assert(k[0] == g[0]);
            assert(width(k) == width(g));
        }
        assert(g.last() == g[g.len() - 1]);
        assert(g.len() * width(g) == k.len() * width(g) + width(g)) by (nonlinear_arith)
            requires
                g.len() == k.len() + 1,
        ;
    }
}

/// Replacing one square of a row changes the count by what leaves and
/// what comes.
pub proof fn lemma_row_count_update(row: Seq<Cella>, i: int, c: Cella, t: Tally)
    requires
        0 <= i < row.len(),
    ensures
        row_count(row.update(i, c), t) + unit(row[i], t) == row_count(row, t) + unit(c, t),
    decreases row.len(),
{
    let after = row.update(i, c);
    if i == row.len() - 1 {
        assert(after.drop_last() =~= row.drop_last());
    } else {
        assert(after.drop_last() =~= row.drop_last().update(i, c));
        lemma_row_count_update(row.drop_last(), i, c, t);
    }
}

/// Replacing one row of a grid changes the count by what leaves and what
/// comes.
pub proof fn lemma_grid_count_update(g: Grid, j: int, row: Seq<Cella>, t: Tally)
    requires
        0 <= j < g.len(),
    ensures
        grid_count(g.update(j, row), t) + row_count(g[j], t) == grid_count(g, t) + row_count(
            row,
            t,
        ),
    decreases g.len(),
{
    let after = g.update(j, row);
    if j == g.len() - 1 {
        assert(after.drop_last() =~= g.drop_last());
    } else {
        assert(after.drop_last() =~= g.drop_last().update(j, row));
        lemma_grid_count_update(g.drop_last(), j, row, t);
    }
}

/// Replacing one square of a grid changes the count by what leaves and
/// what comes.
pub proof fn lemma_count_with_square(g: Grid, x: int, y: int, c: Cella, t: Tally)
    requires
        inside(g, x, y),
    ensures
        grid_count(with_square(g, x, y, c), t) + unit(g[y][x], t) == grid_count(g, t) + unit(c, t),
{
    lemma_row_count_update(g[y], x, c, t);
    lemma_grid_count_update(g, y, g[y].update(x, c), t);
}

/// Two rows in which `t` counts the same squares have the same count.
pub proof fn lemma_row_count_same(a: Seq<Cella>, b: Seq<Cella>, t: Tally)
    requires
        a.len() == b.len(),
        forall|i: int| 0 <= i < a.len() ==> counts(#[trigger] a[i], t) == counts(b[i], t),
    ensures
        row_count(a, t) == row_count(b, t),
    decreases a.len(),
{
    if a.len() > 0 {
        assert forall|i: int| 0 <= i < a.drop_last().len() implies counts(
            #[trigger] a.drop_last()[i],
            t,
        ) == counts(b.drop_last()[i], t) by {
            assert(a.drop_last()[i] == a[i]);
            assert(b.drop_last()[i] == b[i]);
        }
        lemma_row_count_same(a.drop_last(), b.drop_last(), t);
        assert(a.last() == a[a.len() - 1]);
        assert(b.last() == b[a.len() - 1]);
    }
}

/// Two grids in which `t` counts the same squares have the same count.
pub proof fn lemma_grid_count_same(g: Grid, k: Grid, t: Tally)
    requires
        same_counted(g, k, t),
    ensures
        grid_count(g, t) == grid_count(k, t),
    decreases g.len(),
{
    if g.len() > 0 {
        let g1 = g.drop_last();
        let k1 = k.drop_last();
        assert(same_counted(g1, k1, t)) by {
            assert forall|j: int| 0 <= j < g1.len() implies (#[trigger] g1[j]).len()
                == k1[j].len() by {
                assert(g1[j] == g[j]);
                assert(k1[j] == k[j]);
            }
            assert forall|x: int, y: int|
                #![trigger g1[y][x]]
                #![trigger k1[y][x]]
                inside(g1, x, y) implies counts(g1[y][x], t) == counts(k1[y][x], t) by {
                assert(g1[y] == g[y]);
                assert(k1[y] == k[y]);
                assert(inside(g, x, y));
                assert(counts(g[y][x], t) == counts(k[y][x], t));
            }
        }
        lemma_grid_count_same(g1, k1, t);
        let n = g.len() - 1;
        assert(g.last() == g[n]);
        assert(k.last() == k[n]);
        assert(g[n].len() == k[n].len());
        assert forall|i: int| 0 <= i < g[n].len() implies counts(#[trigger] g[n][i], t) == counts(
            k[n][i],
            t,
        ) by {
            assert(inside(g, i, n));
        }
        lemma_row_count_same(g[n], k[n], t);
    }
}

/// A row in which `t` counts nothing has count 0.
pub proof fn lemma_row_count_none(row: Seq<Cella>, t: Tally)
    requires
        forall|i: int| 0 <= i < row.len() ==> !counts(#[trigger] row[i], t),
    ensures
        row_count(row, t) == 0,
    decreases row.len(),
{
    if row.len() > 0 {
        assert forall|i: int| 0 <= i < row.drop_last().len() implies !counts(
            #[trigger] row.drop_last()[i],
            t,
        ) by {
            assert(row.drop_last()[i] == row[i]);
        }
        lemma_row_count_none(row.drop_last(), t);
        assert(row.last() == row[row.len() - 1]);
    }
}

/// A grid in which `t` counts nothing has count 0.
pub proof fn lemma_grid_count_none(g: Grid, t: Tally)
    requires
        forall|x: int, y: int| #![trigger g[y][x]] inside(g, x, y) ==> !counts(g[y][x], t),
    ensures
        grid_count(g, t) == 0,
    decreases g.len(),
{
    if g.len() > 0 {
        let g1 = g.drop_last();
        assert forall|x: int, y: int| #![trigger g1[y][x]] inside(g1, x, y) implies !counts(
            g1[y][x],
            t,
        ) by {
            assert(g1[y] == g[y]);
            assert(inside(g, x, y));
            assert(!counts(g[y][x], t));
        }
        lemma_grid_count_none(g1, t);
        let n = g.len() - 1;
        assert(g.last() == g[n]);
        assert forall|i: int| 0 <= i < g[n].len() implies !counts(#[trigger] g[n][i], t) by {
            assert(inside(g, i, n));
        }
        lemma_row_count_none(g[n], t);
    }
}

/// The number of mines around a square is the sum over the eight
/// positions around it.
pub proof fn lemma_mines_around_sum(g: Grid, x: int, y: int)
    ensures
        mines_around(g, x, y) == mine_at(g, x - 1, y - 1) + mine_at(g, x, y - 1) + mine_at(
            g,
            x + 1,
            y - 1,
        ) + mine_at(g, x - 1, y) + mine_at(g, x + 1, y) + mine_at(g, x - 1, y + 1) + mine_at(
            g,
            x,
            y + 1,
        ) + mine_at(g, x + 1, y + 1),
        mines_around(g, x, y) <= 8,
{
    let t = Tally::Mines;
    let s1 = square(g, x - 1, y - 1);
    let s2 = square(g, x, y - 1);
    let s3 = square(g, x + 1, y - 1);
    let s4 = square(g, x - 1, y);
    let s5 = square(g, x + 1, y);
    let s6 = square(g, x - 1, y + 1);
    let s7 = square(g, x, y + 1);
    let s8 = square(g, x + 1, y + 1);
    lemma_square_count(g, x - 1, y - 1);
    lemma_square_count(g, x, y - 1);
    lemma_square_count(g, x + 1, y - 1);
    lemma_square_count(g, x - 1, y);
    lemma_square_count(g, x + 1, y);
    lemma_square_count(g, x - 1, y + 1);
    lemma_square_count(g, x, y + 1);
    lemma_square_count(g, x + 1, y + 1);
    lemma_row_count_add(s1, s2, t);
    lemma_row_count_add(s1 + s2, s3, t);
    lemma_row_count_add(s1 + s2 + s3, s4, t);
    lemma_row_count_add(s1 + s2 + s3 + s4, s5, t);
    lemma_row_count_add(s1 + s2 + s3 + s4 + s5, s6, t);
    lemma_row_count_add(s1 + s2 + s3 + s4 + s5 + s6, s7, t);
    lemma_row_count_add(s1 + s2 + s3 + s4 + s5 + s6 + s7, s8, t);
}

/// The mines in the sequence that stands for one position.
pub proof fn lemma_square_count(g: Grid, x: int, y: int)
    ensures
        row_count(square(g, x, y), Tally::Mines) == mine_at(g, x, y),
{
    if inside(g, x, y) {
        lemma_row_count_one(g[y][x], Tally::Mines);
    }
}

/// Grids with the same mines have the same number of mines around each
/// position.
pub proof fn lemma_mines_around_same(g: Grid, k: Grid, x: int, y: int)
    requires
        same_counted(g, k, Tally::Mines),
    ensures
        mines_around(g, x, y) == mines_around(k, x, y),
{
    lemma_mines_around_sum(g, x, y);
    lemma_mines_around_sum(k, x, y);
    lemma_mine_at_same(g, k, x - 1, y - 1);
    lemma_mine_at_same(g, k, x, y - 1);
    lemma_mine_at_same(g, k, x + 1, y - 1);
    lemma_mine_at_same(g, k, x - 1, y);
    lemma_mine_at_same(g, k, x + 1, y);
    lemma_mine_at_same(g, k, x - 1, y + 1);
    lemma_mine_at_same(g, k, x, y + 1);
    lemma_mine_at_same(g, k, x + 1, y + 1);
}

/// Grids with the same mines agree on whether a position is a mine.
pub proof fn lemma_mine_at_same(g: Grid, k: Grid, x: int, y: int)
    requires
        same_counted(g, k, Tally::Mines),
    ensures
        mine_at(g, x, y) == mine_at(k, x, y),
{
    if 0 <= y < g.len() {
        assert(g[y].len() == k[y].len());
        if 0 <= x < g[y].len() {
            assert(inside(g, x, y));
            assert(counts(g[y][x], Tally::Mines) == counts(k[y][x], Tally::Mines));
        }
    }
}

/// Where no mine is around a square, none of its neighbours is a mine.
pub proof fn lemma_no_mine_near_blank(g: Grid, x: int, y: int, u: int, v: int)
    requires
        mines_around(g, x, y) == 0,
        inside(g, u, v),
        adjacent(x, y, u, v),
    ensures
        !g[v][u].is_mine(),
{
    lemma_mines_around_sum(g, x, y);
}

} // verus!
