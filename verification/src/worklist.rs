//! The reveal as a work list: what holds while squares wait to be
//! uncovered, and that the work ends in the grid that the reveal defines.

use vstd::prelude::*;
use crate::flood::{
    flood, floods, lemma_flood_complete, lemma_flood_squares, lemma_floods_hidden,
    lemma_floods_self, lemma_floods_step,
};
use crate::grid::{adjacent, inside, same_shape, with_square, Grid};

verus! {

/// The positions that wait to be uncovered, the next one last.
pub type Pending = Seq<(usize, usize)>;

/// `(x, y)` waits on the list.
pub open spec fn on_list(list: Pending, x: int, y: int) -> bool {
    exists|k: int| 0 <= k < list.len() && (#[trigger] list[k]).0 == x && list[k].1 == y
}

/// The `k`-th position of the list is one that the reveal at `(sx, sy)`
/// reaches.
pub open spec fn reached(g: Grid, sx: int, sy: int, list: Pending, k: int) -> bool {
    floods(g, sx, sy, list[k].0 as int, list[k].1 as int)
}

/// The `k`-th position of the list is a hidden square next to `(x, y)`.
pub open spec fn hidden_neighbor(g: Grid, x: int, y: int, list: Pending, k: int) -> bool {
    &&& inside(g, list[k].0 as int, list[k].1 as int)
    &&& adjacent(x, y, list[k].0 as int, list[k].1 as int)
    &&& g[list[k].1 as int][list[k].0 as int].is_hidden()
}

/// Every hidden square next to `(x, y)` waits on the list.
pub open spec fn neighbors_listed(g: Grid, x: int, y: int, list: Pending) -> bool {
    forall|u: int, v: int|
        #![trigger g[v][u]]
        inside(g, u, v) && adjacent(x, y, u, v) && g[v][u].is_hidden() ==> on_list(list, u, v)
}

/// What holds of the grid `now` and the list in the middle of a reveal at
/// `(sx, sy)` on the grid `before`.
///
/// Each square is as before, or it is one that the reveal reaches and is
/// uncovered. Each position on the list is one that the reveal reaches. The
/// first square is uncovered or waits. Around a square that the reveal has
/// uncovered and that has no mine near it, each square is uncovered or waits.
pub open spec fn flooding(before: Grid, sx: int, sy: int, now: Grid, list: Pending) -> bool {
    &&& same_shape(before, now)
    &&& inside(before, sx, sy)
    &&& forall|x: int, y: int|
        #![trigger now[y][x]]
        inside(before, x, y) ==> now[y][x] == before[y][x] || (before[y][x].is_hidden() && now[y][x]
            == before[y][x].uncovered() && floods(before, sx, sy, x, y))
    &&& forall|k: int| 0 <= k < list.len() ==> #[trigger] reached(before, sx, sy, list, k)
    &&& (!now[sy][sx].is_hidden() || on_list(list, sx, sy))
    &&& forall|x: int, y: int, u: int, v: int|
        #![trigger now[y][x], now[v][u]]
        inside(before, x, y) && before[y][x].is_hidden() && !now[y][x].is_hidden()
            && before[y][x].is_blank() && inside(before, u, v) && adjacent(x, y, u, v)
            ==> !now[v][u].is_hidden() || on_list(list, u, v)
}

/// The list `longer` is `list` with positions added at its end.
pub open spec fn extends(list: Pending, longer: Pending) -> bool {
    &&& list.len() <= longer.len()
    &&& forall|k: int| 0 <= k < list.len() ==> longer[k] == list[k]
}

/// What waits on a list waits on every list that extends it.
pub proof fn lemma_extends_on_list(list: Pending, longer: Pending)
    requires
        extends(list, longer),
    ensures
        forall|x: int, y: int| on_list(list, x, y) ==> on_list(longer, x, y),
{
    assert forall|x: int, y: int| on_list(list, x, y) implies on_list(longer, x, y) by {
        let k = choose|k: int| 0 <= k < list.len() && (#[trigger] list[k]).0 == x && list[k].1 == y;
        assert(longer[k] == list[k]);
    }
}

/// What waits on a list waits below its last position, or is that position.
pub proof fn lemma_drop_last_on_list(list: Pending)
    requires
        list.len() > 0,
    ensures
        forall|x: int, y: int|
            on_list(list, x, y) ==> on_list(list.drop_last(), x, y) || (list.last().0 == x
                && list.last().1 == y),
{
    let rest = list.drop_last();
    assert forall|x: int, y: int| on_list(list, x, y) implies on_list(rest, x, y) || (list.last().0
        == x && list.last().1 == y) by {
        let k = choose|k: int| 0 <= k < list.len() && (#[trigger] list[k]).0 == x && list[k].1 == y;
        if k < rest.len() {
            assert(rest[k] == list[k]);
        }
    }
}

/// A reveal starts with the grid as it is and its first square on the list.
pub proof fn lemma_flooding_start(g: Grid, sx: usize, sy: usize)
    requires
        inside(g, sx as int, sy as int),
        g[sy as int][sx as int].is_hidden(),
    ensures
        flooding(g, sx as int, sy as int, g, seq![(sx, sy)]),
{
    let list: Pending = seq![(sx, sy)];
    lemma_floods_self(g, sx as int, sy as int);
    assert(list[0] == (sx, sy));
    assert(on_list(list, sx as int, sy as int));
    assert forall|k: int| 0 <= k < list.len() implies #[trigger] reached(
        g,
        sx as int,
        sy as int,
        list,
        k,
    ) by {
        assert(list[k] == (sx, sy));
    }
}

/// Where the last position of the list is not hidden, it leaves the list
/// and nothing else changes.
pub proof fn lemma_flooding_skip(before: Grid, sx: int, sy: int, now: Grid, list: Pending)
    requires
        flooding(before, sx, sy, now, list),
        list.len() > 0,
        !now[list.last().1 as int][list.last().0 as int].is_hidden(),
    ensures
        flooding(before, sx, sy, now, list.drop_last()),
{
    let rest = list.drop_last();
    lemma_drop_last_on_list(list);
    assert forall|k: int| 0 <= k < rest.len() implies #[trigger] reached(
        before,
        sx,
        sy,
        rest,
        k,
    ) by {
        assert(reached(before, sx, sy, list, k));
        assert(rest[k] == list[k]);
    }
    assert forall|x: int, y: int, u: int, v: int|
        #![trigger now[y][x], now[v][u]]
        inside(before, x, y) && before[y][x].is_hidden() && !now[y][x].is_hidden()
            && before[y][x].is_blank() && inside(before, u, v) && adjacent(
            x,
            y,
            u,
            v,
        ) implies !now[v][u].is_hidden() || on_list(rest, u, v) by {
        assert(!now[v][u].is_hidden() || on_list(list, u, v));
    }
}

/// Where the last position of the list is hidden, its square is uncovered;
/// if it has no mine near it, the hidden squares around it join the list.
pub proof fn lemma_flooding_uncover(
    before: Grid,
    sx: int,
    sy: int,
    now: Grid,
    list: Pending,
    next: Grid,
    longer: Pending,
)
    requires
        flooding(before, sx, sy, now, list),
        list.len() > 0,
        inside(now, list.last().0 as int, list.last().1 as int),
        now[list.last().1 as int][list.last().0 as int].is_hidden(),
        next == with_square(
            now,
            list.last().0 as int,
            list.last().1 as int,
            now[list.last().1 as int][list.last().0 as int].uncovered(),
        ),
        extends(list.drop_last(), longer),
        forall|k: int|
            list.len() - 1 <= k < longer.len() ==> #[trigger] hidden_neighbor(
                next,
                list.last().0 as int,
                list.last().1 as int,
                longer,
                k,
            ),
        now[list.last().1 as int][list.last().0 as int].is_blank() ==> neighbors_listed(
            next,
            list.last().0 as int,
            list.last().1 as int,
            longer,
        ),
        now[list.last().1 as int][list.last().0 as int].is_blank() || longer == list.drop_last(),
    ensures
        flooding(before, sx, sy, next, longer),
{
    let rest = list.drop_last();
    let cx = list.last().0 as int;
    let cy = list.last().1 as int;
    let c = now[cy][cx];
    lemma_drop_last_on_list(list);
    lemma_extends_on_list(rest, longer);
    assert(reached(before, sx, sy, list, list.len() - 1));
    assert(floods(before, sx, sy, cx, cy));
    lemma_floods_hidden(before, sx, sy, cx, cy);
    assert(now[cy][cx] == before[cy][cx]);
    assert(same_shape(before, next)) by {
        assert forall|j: int| 0 <= j < before.len() implies (#[trigger] before[j]).len()
            == next[j].len() by {
            assert(before[j].len() == now[j].len());
        }
    }
    assert forall|x: int, y: int| #![trigger next[y][x]] inside(before, x, y) implies next[y][x]
        == before[y][x] || (before[y][x].is_hidden() && next[y][x] == before[y][x].uncovered()
        && floods(before, sx, sy, x, y)) by {
        assert(before[y].len() == now[y].len());
        if !(x == cx && y == cy) {
            assert(next[y][x] == now[y][x]);
        }
    }
    assert forall|k: int| 0 <= k < longer.len() implies #[trigger] reached(
        before,
        sx,
        sy,
        longer,
        k,
    ) by {
        if k < rest.len() {
            assert(reached(before, sx, sy, list, k));
            assert(longer[k] == rest[k]);
            assert(rest[k] == list[k]);
        } else {
            assert(hidden_neighbor(next, cx, cy, longer, k));
            let u = longer[k].0 as int;
            let v = longer[k].1 as int;
            assert(c.is_blank());
            assert(before[v].len() == now[v].len());
            assert(next[v][u] == now[v][u]);
            assert(now[v][u] == before[v][u]);
            lemma_floods_step(before, sx, sy, cx, cy, u, v);
        }
    }
    assert(!next[sy][sx].is_hidden() || on_list(longer, sx, sy)) by {
        assert(before[sy].len() == now[sy].len());
        if !(sx == cx && sy == cy) {
            assert(next[sy][sx] == now[sy][sx]);
        }
    }
    assert forall|x: int, y: int, u: int, v: int|
        #![trigger next[y][x], next[v][u]]
        inside(before, x, y) && before[y][x].is_hidden() && !next[y][x].is_hidden()
            && before[y][x].is_blank() && inside(before, u, v) && adjacent(
            x,
            y,
            u,
            v,
        ) implies !next[v][u].is_hidden() || on_list(longer, u, v) by {
        assert(before[y].len() == now[y].len());
        assert(before[v].len() == now[v].len());
        if x == cx && y == cy {
            assert(c.is_blank());
            assert(inside(next, u, v));
        } else {
            assert(next[y][x] == now[y][x]);
            assert(!now[v][u].is_hidden() || on_list(list, u, v));
            if !(u == cx && v == cy) {
                assert(next[v][u] == now[v][u]);
            }
        }
    }
}

/// With nothing left on the list, the grid is the one that the reveal
/// defines.
pub proof fn lemma_flooding_done(before: Grid, sx: int, sy: int, now: Grid)
    requires
        flooding(before, sx, sy, now, Seq::empty()),
    ensures
        now == flood(before, sx, sy),
{
    let list: Pending = Seq::empty();
    let goal = flood(before, sx, sy);
    lemma_flood_squares(before, sx, sy);
    assert(!on_list(list, sx, sy));
    assert forall|x: int, y: int, u: int, v: int|
        #![trigger now[y][x], now[v][u]]
        inside(before, x, y) && before[y][x].is_hidden() && !now[y][x].is_hidden()
            && before[y][x].is_blank() && inside(before, u, v) && adjacent(
            x,
            y,
            u,
            v,
        ) implies !now[v][u].is_hidden() by {
        assert(!now[v][u].is_hidden() || on_list(list, u, v));
        assert(!on_list(list, u, v));
    }
    assert(now.len() == goal.len());
    assert forall|y: int| 0 <= y < now.len() implies now[y] == goal[y] by {
        assert(before[y].len() == now[y].len());
        assert(now[y].len() == goal[y].len());
        assert forall|x: int| 0 <= x < now[y].len() implies now[y][x] == goal[y][x] by {
            assert(inside(before, x, y));
            if floods(before, sx, sy, x, y) {
                lemma_floods_hidden(before, sx, sy, x, y);
                lemma_flood_complete(before, now, sx, sy, x, y);
            }
        }
        assert(now[y] =~= goal[y]);
    }
    assert(now =~= goal);
}

} // verus!
