//! What holds of every game, stated over the model and proved from it.

use vstd::prelude::*;
use crate::board::{counted, fresh, laid, Board};
use crate::cell::Cella;
use crate::flood::{
    flood, floods, hidden_step, in_region, inside_step, is_path, is_trail, joins,
    lemma_flood_squares, lemma_floods_hidden, lemma_floods_self, link, Walk,
};
use crate::grid::{
    all_clear, any_revealed, inside, lemma_mines_around_sum, lemma_no_mine_near_blank, mine_at,
    mines_around, settled, Grid,
};
use crate::preserve::{
    lemma_flagged_wf, lemma_flags_apart, lemma_fresh_wf, lemma_moved_wf, lemma_revealed_wf,
    same_but_flags,
};
use crate::setup::lemma_roll_index;

verus! {

/// In a well-formed game every square without a mine holds the exact
/// number of mines among the squares around it that exist; a square at the
/// edge has fewer of them.
pub proof fn law_adjacency_exact(b: Board, x: int, y: int)
    requires
        b.wf(),
        inside(b.cells, x, y),
    ensures
        b.cells[y][x] matches Cella::Safe(n, _, _) ==> n == mines_around(b.cells, x, y) && n
            == mine_at(b.cells, x - 1, y - 1) + mine_at(b.cells, x, y - 1) + mine_at(
            b.cells,
            x + 1,
            y - 1,
        ) + mine_at(b.cells, x - 1, y) + mine_at(b.cells, x + 1, y) + mine_at(b.cells, x - 1, y + 1)
            + mine_at(b.cells, x, y + 1) + mine_at(b.cells, x + 1, y + 1),
{
    lemma_mines_around_sum(b.cells, x, y);
}

/// On a walk through the region of a hidden square, every square but the
/// last is hidden.
proof fn lemma_path_hidden(g: Grid, walk: Walk, i: int)
    requires
        settled(g),
        is_path(g, walk),
        g[walk[0].1][walk[0].0].is_hidden(),
        0 <= i < walk.len(),
        i < walk.len() - 1 || i == 0,
    ensures
        hidden_step(g, walk, i),
    decreases i,
{
    assert(inside_step(g, walk, i));
    if i > 0 {
        lemma_path_hidden(g, walk, i - 1);
        assert(inside_step(g, walk, i - 1));
        assert(link(g, walk, i - 1));
        assert(link(g, walk, i));
        let c = g[walk[i].1][walk[i].0];
        let p = g[walk[i - 1].1][walk[i - 1].0];
        assert(p.is_hidden());
        if c.is_revealed() {
            assert(!g[walk[i - 1].1][walk[i - 1].0].is_hidden());
        }
    }
}

/// A reveal at a hidden square uncovers every square of its region: the
/// connected squares without mines near them and the squares next to
/// those. A square outside the region stays as it is.
pub proof fn law_flood_covers_region(b: Board, x: int, y: int, tx: int, ty: int)
    requires
        b.wf(),
        !b.lost,
        inside(b.cells, x, y),
        b.cells[y][x].is_hidden(),
        inside(b.cells, tx, ty),
    ensures
        in_region(b.cells, x, y, tx, ty) ==> b.revealed(x, y).cells[ty][tx].is_revealed(),
        !in_region(b.cells, x, y, tx, ty) ==> b.revealed(x, y).cells[ty][tx] == b.cells[ty][tx],
{
    let g = b.cells;
    let after = b.revealed(x, y).cells;
    assert(after == flood(g, x, y));
    lemma_flood_squares(g, x, y);
    assert(inside(after, tx, ty));
    if in_region(g, x, y, tx, ty) {
        let walk = choose|walk: Walk| is_path(g, walk) && joins(walk, x, y, tx, ty);
        let n = walk.len() - 1;
        assert(inside_step(g, walk, n));
        if n > 0 {
            lemma_path_hidden(g, walk, n - 1);
            assert(link(g, walk, n - 1));
            let px = walk[n - 1].0;
            let py = walk[n - 1].1;
            assert(g[py][px] matches Cella::Safe(k, _, _) && k == 0);
            assert(mines_around(g, px, py) == 0);
            lemma_no_mine_near_blank(g, px, py, tx, ty);
        }
        if g[ty][tx].is_hidden() {
            assert forall|i: int| 0 <= i < walk.len() implies #[trigger] hidden_step(
                g,
                walk,
                i,
            ) by {
                if i < n {
                    lemma_path_hidden(g, walk, i);
                }
            }
            assert(is_trail(g, walk));
            assert(floods(g, x, y, tx, ty));
        } else {
            if floods(g, x, y, tx, ty) {
                lemma_floods_hidden(g, x, y, tx, ty);
            }
        }
    } else {
        if floods(g, x, y, tx, ty) {
            let walk = choose|walk: Walk| is_trail(g, walk) && joins(walk, x, y, tx, ty);
            assert forall|i: int| 0 <= i < walk.len() implies #[trigger] inside_step(
                g,
                walk,
                i,
            ) by {
                assert(hidden_step(g, walk, i));
            }
            assert(is_path(g, walk));
        }
    }
}

/// A reveal at a square that is uncovered already changes nothing, and a
/// second reveal at the same place changes nothing after the first.
pub proof fn law_reveal_idempotent(b: Board, x: int, y: int)
    requires
        b.wf(),
    ensures
        inside(b.cells, x, y) && b.cells[y][x].is_revealed() ==> b.revealed(x, y) == b,
        b.revealed(x, y).revealed(x, y) == b.revealed(x, y),
{
    let g = b.cells;
    if !b.lost && inside(g, x, y) && g[y][x].is_hidden() {
        lemma_flood_squares(g, x, y);
        lemma_floods_self(g, x, y);
        let r = b.revealed(x, y);
        assert(inside(r.cells, x, y));
        assert(r.cells[y][x] == g[y][x].uncovered());
    }
}

/// A hidden square that a reveal uncovers has no flag afterwards, whether
/// it had one or not.
pub proof fn law_reveal_clears_flag(b: Board, x: int, y: int, tx: int, ty: int)
    requires
        b.wf(),
        inside(b.cells, tx, ty),
        b.cells[ty][tx].is_hidden(),
        b.revealed(x, y).cells[ty][tx].is_revealed(),
    ensures
        !b.revealed(x, y).cells[ty][tx].is_flagged(),
        b.revealed(x, y).cells[ty][tx] == b.cells[ty][tx].uncovered(),
{
    let g = b.cells;
    if !b.lost && inside(g, x, y) && g[y][x].is_hidden() {
        lemma_flood_squares(g, x, y);
        assert(inside(b.revealed(x, y).cells, tx, ty));
    }
}

/// In a lost game no reveal and no flag changes anything: not a square,
/// not a count, not `won` or `lost`.
pub proof fn law_loss_is_absorbing(b: Board, x: int, y: int)
    requires
        b.lost,
    ensures
        b.revealed(x, y) == b,
        b.flagged() == b,
{
}

/// No operation undoes a loss, and no operation but a reveal changes
/// `won` or `lost`.
pub proof fn law_loss_stays(b: Board, x: int, y: int)
    ensures
        b.lost ==> b.revealed(x, y).lost,
        b.flagged().lost == b.lost && b.flagged().won == b.won,
        b.moved_up().lost == b.lost && b.moved_up().won == b.won,
        b.moved_down().lost == b.lost && b.moved_down().won == b.won,
        b.moved_left().lost == b.lost && b.moved_left().won == b.won,
        b.moved_right().lost == b.lost && b.moved_right().won == b.won,
{
}

/// No operation undoes a win: in a well-formed game that is won, nothing
/// is left to uncover, and `won` stays.
pub proof fn law_win_stays(b: Board, x: int, y: int)
    requires
        b.wf(),
        b.won,
    ensures
        b.revealed(x, y).won,
        b.revealed(x, y).cells == b.cells,
        b.flagged().won,
{
    let g = b.cells;
    assert(all_clear(g));
    if inside(g, x, y) {
        assert(!g[y][x].is_hidden());
    }
}

/// Once a reveal has taken effect, `won` holds if and only if no square
/// without a mine is hidden: in every well-formed game that is lost or
/// has an uncovered square, and after every reveal on the board of a game
/// that is not lost.
pub proof fn law_win_exact(b: Board, x: int, y: int)
    requires
        b.wf(),
    ensures
        b.lost || any_revealed(b.cells) ==> (b.won <==> all_clear(b.cells)),
        !b.lost && inside(b.cells, x, y) ==> (b.revealed(x, y).won <==> all_clear(
            b.revealed(x, y).cells,
        )),
{
    let g = b.cells;
    if !b.lost && inside(g, x, y) {
        if g[y][x].is_revealed() {
            assert(any_revealed(g));
        }
    }
}

/// Whether no square without a mine is hidden does not depend on any
/// flag, on a mine or elsewhere.
pub proof fn law_win_ignores_flags(g: Grid, k: Grid)
    requires
        same_but_flags(g, k),
    ensures
        all_clear(g) == all_clear(k),
{
    lemma_flags_apart(g, k);
}

/// A game is well-formed at its start, whatever the rolls.
pub proof fn law_fresh_is_wf(w: nat, h: nat, percent: u32, rolls: Seq<u32>)
    requires
        w * h <= usize::MAX,
    ensures
        fresh(w, h, percent, rolls).wf(),
{
    lemma_fresh_wf(w, h, percent, rolls);
}

/// Every operation keeps a well-formed game well-formed: a move of the
/// cursor, a flag, a reveal, and setting `won` anew. With it the count in
/// each square stays exact, no uncovered square carries a flag, and the
/// numbers of mines and flags stay those of the grid.
pub proof fn law_operations_keep_wf(b: Board, x: int, y: int)
    requires
        b.wf(),
    ensures
        b.moved_up().wf(),
        b.moved_down().wf(),
        b.moved_left().wf(),
        b.moved_right().wf(),
        b.flagged().wf(),
        b.revealed(x, y).wf(),
        b.judged().wf(),
{
    lemma_moved_wf(b);
    lemma_flagged_wf(b);
    lemma_revealed_wf(b, x, y);
}

/// With no chance of a mine the game starts without mines: every square
/// is hidden, unflagged, and has no mine near it.
pub proof fn law_fresh_without_mines(w: nat, h: nat, rolls: Seq<u32>, x: int, y: int)
    requires
        0 <= x < w,
        0 <= y < h,
    ensures
        fresh(w, h, 0, rolls).cells[y][x] == Cella::Safe(0, true, false),
{
    let l = laid(w, h, 0, rolls);
    lemma_mines_around_sum(l, x, y);
    assert(forall|u: int, v: int| mine_at(l, u, v) == 0);
}

/// With a hundred chances in a hundred, or more, every square is a mine
/// without a flag, whatever the rolls below 100 are.
pub proof fn law_fresh_all_mines(w: nat, h: nat, percent: u32, rolls: Seq<u32>, x: int, y: int)
    requires
        0 <= x < w,
        0 <= y < h,
        percent >= 100,
        rolls.len() == w * h,
        forall|i: int| 0 <= i < rolls.len() ==> rolls[i] < 100,
    ensures
        fresh(w, h, percent, rolls).cells[y][x] == Cella::Bomb(false),
{
    lemma_roll_index(w, h, x as nat, y as nat);
    let l = laid(w, h, percent, rolls);
    assert(l[y][x] == Cella::Bomb(false));
    assert(counted(l)[y][x] == Cella::Bomb(false));
}

} // verus!
