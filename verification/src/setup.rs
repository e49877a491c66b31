//! Building a game: laying the mines and counting them around each square.

use rand::Rng;
use vstd::prelude::*;
use crate::board::{counted, fresh, laid, mined, threshold};
use crate::cell::Cella;
use crate::game::{grid_of, lemma_grid_of_fits, Game};
use crate::grid::{
    counts, grid_count, inside, lemma_grid_count_push, lemma_grid_count_same,
    lemma_mines_around_same, lemma_mines_around_sum, lemma_row_count_push, neighbors,
    row_count, same_counted, same_shape, square, with_square, Grid, Tally,
};
use crate::preserve::lemma_fresh_wf;

verus! {

/// `rand::rngs::ThreadRng`, the generator of random numbers that `rand`
/// keeps for each thread. Nothing is known of what it holds.
#[verifier::external_type_specification]
#[verifier::external_body]
pub struct ExThreadRng(rand::rngs::ThreadRng);

/// `rand::thread_rng` hands out the generator of the current thread, which
/// the system has seeded. Nothing is claimed of it.
pub assume_specification[ rand::thread_rng ]() -> (rng: rand::rngs::ThreadRng);

/// One roll for one square, by `rand::Rng::gen_range` on the range
/// `0..100`.
///
/// The contract claims what the range promises of every roll: it is below
/// 100. Nothing is said of which number it is, nor of how the generator
/// has changed.
#[verifier::external_body]
fn roll(rng: &mut rand::rngs::ThreadRng) -> (r: u32)
    ensures
        r < 100,
{
    rng.gen_range(0..100)
}

/// The roll of the square `(x, y)` lies within the rolls of the grid.
pub proof fn lemma_roll_index(w: nat, h: nat, x: nat, y: nat)
    requires
        x < w,
        y < h,
    ensures
        y * w + x < w * h,
{
    lemma_row_start(w, h, y);
}

/// The rolls of the row after `y` start where those of `y` end, within the
/// rolls of the grid.
pub proof fn lemma_row_start(w: nat, h: nat, y: nat)
    requires
        y < h,
    ensures
        (y + 1) * w == y * w + w,
        (y + 1) * w <= w * h,
{
    assert((y + 1) * w == y * w + w) by (nonlinear_arith);
    assert((y + 1) * w <= h * w) by (nonlinear_arith)
        requires
            y + 1 <= h,
    ;
    assert(h * w == w * h) by (nonlinear_arith);
}

/// The number of mines in a row of squares.
fn count_mines(row: &Vec<Cella>) -> (n: usize)
    ensures
        n == row_count(row@, Tally::Mines),
{
    let mut n: usize = 0;
    let mut i: usize = 0;
    while i < row.len()
        invariant
            i <= row.len(),
            n <= i,
            n == row_count(row@.take(i as int), Tally::Mines),
        decreases row.len() - i,
    {
        proof {
            assert(row@.take(i + 1).drop_last() =~= row@.take(i as int));
            assert(row@.take(i + 1).last() == row@[i as int]);
        }
        match row[i] {
            Cella::Bomb(_) => {
                n = n + 1;
            },
            _ => {},
        }
        i = i + 1;
    }
    assert(row@.take(row.len() as int) =~= row@);
    n
}

impl Game {
    /// Appends the square at `(x, y)` to `out`, if the board has one there.
    fn push_square(&self, out: &mut Vec<Cella>, x: usize, y: usize)
        ensures
            final(out)@ == old(out)@ + square(self@.cells, x as int, y as int),
    {
        if y < self.cells.len() {
            if x < self.cells[y].len() {
                out.push(self.cells[y][x]);
                assert(out@ =~= old(out)@ + square(self@.cells, x as int, y as int));
                return ;
            }
        }
        assert(out@ =~= old(out)@ + square(self@.cells, x as int, y as int));
    }

    /// The squares around `(x, y)` that the board has, row by row from the
    /// top left; the square itself is not among them.
    pub fn get_neighbors(&self, x: usize, y: usize) -> (near: Vec<Cella>)
        ensures
            near@ == neighbors(self@.cells, x as int, y as int),
    {
        let ghost g = self@.cells;
        let mut near: Vec<Cella> = Vec::new();
        proof {
            lemma_grid_of_fits(&self.cells);
            assert(near@ =~= Seq::<Cella>::empty());
        }
        if y > 0 {
            if x > 0 {
                self.push_square(&mut near, x - 1, y - 1);
            }
            self.push_square(&mut near, x, y - 1);
            if x < usize::MAX {
                self.push_square(&mut near, x + 1, y - 1);
            }
        }
        assert(near@ =~= square(g, x - 1, y - 1) + square(g, x as int, y - 1) + square(
            g,
            x + 1,
            y - 1,
        ));
        if x > 0 {
            self.push_square(&mut near, x - 1, y);
        }
        if x < usize::MAX {
            self.push_square(&mut near, x + 1, y);
        }
        assert(near@ =~= square(g, x - 1, y - 1) + square(g, x as int, y - 1) + square(
            g,
            x + 1,
            y - 1,
        ) + square(g, x - 1, y as int) + square(g, x + 1, y as int));
        if y < usize::MAX {
            if x > 0 {
                self.push_square(&mut near, x - 1, y + 1);
            }
            self.push_square(&mut near, x, y + 1);
            if x < usize::MAX {
                self.push_square(&mut near, x + 1, y + 1);
            }
        }
        assert(near@ =~= neighbors(g, x as int, y as int));
        near
    }

    /// The game on `w` by `h` squares whose mines are laid by `rolls`, one
    /// roll for each square, row by row: a roll below `bomb_percent`, or
    /// below 100 where that is less, puts a mine.
    ///
    /// `None` where the number of rolls is not `w * h`.
    pub fn from_rolls(w: usize, h: usize, bomb_percent: u32, rolls: &Vec<u32>) -> (r: Option<Game>)
        ensures
            r.is_some() <==> rolls@.len() == w * h,
            r matches Some(g) ==> g@ == fresh(w as nat, h as nat, bomb_percent, rolls@) && g@.wf(),
    {
        assert(rolls.len() == rolls@.len());
        match w.checked_mul(h) {
            None => {
                return None;
            },
            Some(n) => {
                if n != rolls.len() {
                    return None;
                }
            },
        }
        let limit: u32 = if bomb_percent > 100 {
            100
        } else {
            bomb_percent
        };
        let ghost l = laid(w as nat, h as nat, bomb_percent, rolls@);
        let mut cells: Vec<Vec<Cella>> = Vec::new();
        let mut n_bombs: usize = 0;
        let mut k: usize = 0;
        let mut y: usize = 0;
        assert(grid_of(cells@) =~= l.take(0));
        while y < h
            invariant
                y <= h,
                rolls@.len() == w * h,
                w * h <= usize::MAX,
                limit == threshold(bomb_percent),
                l == laid(w as nat, h as nat, bomb_percent, rolls@),
                k == y * w,
                k <= w * h,
                cells@.len() == y,
                grid_of(cells@) == l.take(y as int),
                n_bombs == grid_count(l.take(y as int), Tally::Mines),
                n_bombs <= k,
            decreases h - y,
        {
            let mut row: Vec<Cella> = Vec::new();
            let mut x: usize = 0;
            assert(row@ =~= l[y as int].take(0));
            while x < w
                invariant
                    y < h,
                    x <= w,
                    rolls@.len() == w * h,
                    w * h <= usize::MAX,
                    limit == threshold(bomb_percent),
                    l == laid(w as nat, h as nat, bomb_percent, rolls@),
                    k == y * w + x,
                    k <= w * h,
                    row@ == l[y as int].take(x as int),
                    n_bombs == grid_count(l.take(y as int), Tally::Mines) + row_count(
                        row@,
                        Tally::Mines,
                    ),
                    n_bombs <= k,
                decreases w - x,
            {
                proof {
                    lemma_roll_index(w as nat, h as nat, x as nat, y as nat);
                    assert(mined(w as nat, bomb_percent, rolls@, x as int, y as int) == (
                    rolls@[k as int] < limit));
                }
                let ghost was = row@;
                let c = if rolls[k] < limit {
                    n_bombs = n_bombs + 1;
                    Cella::Bomb(false)
                } else {
                    Cella::Safe(0, true, false)
                };
                row.push(c);
                proof {
                    lemma_row_count_push(was, c, Tally::Mines);
                    assert(row@ =~= l[y as int].take(x + 1));
                }
                k = k + 1;
                x = x + 1;
            }
            proof {
                lemma_row_start(w as nat, h as nat, y as nat);
                assert(row@ =~= l[y as int]);
                lemma_grid_count_push(l.take(y as int), l[y as int], Tally::Mines);
                assert(l.take(y as int).push(l[y as int]) =~= l.take(y + 1));
                assert(grid_of(cells@.push(row)) =~= l.take(y + 1));
            }
            cells.push(row);
            y = y + 1;
        }
        assert(l.take(h as int) =~= l);
        let mut game = Game {
            cells,
            x: w / 2,
            y: h / 2,
            lost: false,
            won: false,
            n_bombs,
            n_flags: 0,
        };
        let ghost goal = counted(l);
        let mut y: usize = 0;
        while y < h
            invariant
                y <= h,
                l == laid(w as nat, h as nat, bomb_percent, rolls@),
                goal == counted(l),
                game.x == w / 2,
                game.y == h / 2,
                !game.lost,
                !game.won,
                game.n_bombs == grid_count(l, Tally::Mines),
                game.n_flags == 0,
                same_shape(l, game@.cells),
                forall|i: int, j: int|
                    #![trigger game@.cells[j][i]]
                    inside(l, i, j) ==> game@.cells[j][i] == if j < y {
                        goal[j][i]
                    } else {
                        l[j][i]
                    },
            decreases h - y,
        {
            let mut x: usize = 0;
            while x < w
                invariant
                    y < h,
                    x <= w,
                    l == laid(w as nat, h as nat, bomb_percent, rolls@),
                    goal == counted(l),
                    game.x == w / 2,
                    game.y == h / 2,
                    !game.lost,
                    !game.won,
                    game.n_bombs == grid_count(l, Tally::Mines),
                    game.n_flags == 0,
                    same_shape(l, game@.cells),
                    forall|i: int, j: int|
                        #![trigger game@.cells[j][i]]
                        inside(l, i, j) ==> game@.cells[j][i] == if j < y || (j == y && i < x) {
                            goal[j][i]
                        } else {
                            l[j][i]
                        },
                decreases w - x,
            {
                let ghost now = game@.cells;
                assert(inside(l, x as int, y as int));
                assert(now[y as int].len() == l[y as int].len());
                assert(now[y as int][x as int] == l[y as int][x as int]);
                match game.cells[y][x] {
                    Cella::Safe(_, _, _) => {
                        let near = game.get_neighbors(x, y);
                        let n = count_mines(&near);
                        proof {
                            lemma_same_mines(l, now, y as int, x as int);
                            lemma_mines_around_same(l, now, x as int, y as int);
                            lemma_mines_around_sum(l, x as int, y as int);
                        }
                        game.cells[y][x] = Cella::Safe(n, true, false);
                        proof {
                            let c = Cella::Safe(n, true, false);
                            let next = with_square(now, x as int, y as int, c);
                            assert(game@.cells =~= next);
                            assert(same_shape(l, next));
                            assert forall|i: int, j: int|
                                #![trigger game@.cells[j][i]]
                                inside(l, i, j) implies game@.cells[j][i] == if j < y || (j == y
                                && i < x + 1) {
                                goal[j][i]
                            } else {
                                l[j][i]
                            } by {
                                assert(now[j].len() == l[j].len());
                                if !(i == x && j == y) {
                                    assert(next[j][i] == now[j][i]);
                                }
                            }
                        }
                    },
                    Cella::Bomb(_) => {},
                }
                x = x + 1;
            }
            y = y + 1;
        }
        proof {
            assert(game@.cells =~= goal) by {
                assert forall|j: int| 0 <= j < goal.len() implies game@.cells[j] == goal[j] by {
                    assert(l[j].len() == game@.cells[j].len());
                    assert forall|i: int| 0 <= i < goal[j].len() implies game@.cells[j][i]
                        == goal[j][i] by {
                        assert(inside(l, i, j));
                    }
                    assert(game@.cells[j] =~= goal[j]);
                }
            }
            assert(same_counted(l, goal, Tally::Mines)) by {
                assert forall|i: int, j: int|
                    #![trigger l[j][i]]
                    #![trigger goal[j][i]]
                    inside(l, i, j) implies counts(l[j][i], Tally::Mines) == counts(
                    goal[j][i],
                    Tally::Mines,
                ) by {}
            }
            lemma_grid_count_same(l, goal, Tally::Mines);
            lemma_fresh_wf(w as nat, h as nat, bomb_percent, rolls@);
            assert(game@ =~~= fresh(w as nat, h as nat, bomb_percent, rolls@));
        }
        Some(game)
    }

    /// A new game on `w` by `h` squares. Each square gets a mine by a roll
    /// of its own, with `bomb_percent` chances in a hundred (more than 100
    /// count as 100). The cursor starts in the middle; the game is neither
    /// won nor lost, and nothing is uncovered or flagged.
    pub fn new(w: usize, h: usize, bomb_percent: u32) -> (g: Game)
        requires
            w * h <= usize::MAX,
        ensures
            g@.wf(),
            exists|rolls: Seq<u32>|
                rolls.len() == w * h && (forall|i: int| 0 <= i < rolls.len() ==> rolls[i] < 100)
                    && #[trigger] fresh(w as nat, h as nat, bomb_percent, rolls) == g@,
    {
        let mut rng = rand::thread_rng();
        let n = w * h;
        let mut rolls: Vec<u32> = Vec::new();
        while rolls.len() < n
            invariant
                rolls@.len() <= n,
                forall|i: int| 0 <= i < rolls@.len() ==> rolls@[i] < 100,
            decreases n - rolls@.len(),
        {
            let r = roll(&mut rng);
            rolls.push(r);
        }
        let made = Game::from_rolls(w, h, bomb_percent, &rolls);
        made.unwrap()
    }
}

/// A grid that differs from `l` in the numbers of its squares only has the
/// mines of `l`.
proof fn lemma_same_mines(l: Grid, now: Grid, y: int, x: int)
    requires
        same_shape(l, now),
        forall|i: int, j: int|
            #![trigger now[j][i]]
            inside(l, i, j) ==> now[j][i] == if j < y || (j == y && i < x) {
                counted(l)[j][i]
            } else {
                l[j][i]
            },
    ensures
        same_counted(l, now, Tally::Mines),
{
    assert forall|i: int, j: int|
        #![trigger l[j][i]]
        #![trigger now[j][i]]
        inside(l, i, j) implies counts(l[j][i], Tally::Mines) == counts(
        now[j][i],
        Tally::Mines,
    ) by {
        let a = now[j][i];
        let b = counted(l)[j][i];
    }
}

} // verus!
