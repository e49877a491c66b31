//! How each square looks: its colours and its mark, while the game runs
//! and once it is lost. Painting them on a screen is left to the caller.

use vstd::prelude::*;
use crate::board::Board;
use crate::cell::Cella;
use crate::flood::{floods, lemma_flood_squares};
use crate::game::Game;
use crate::grid::inside;

verus! {

/// A colour of the screen.
#[derive(Clone, Copy, PartialEq, Eq, Structural, Debug)]
pub enum Color {
    Black,
    White,
    Grey,
    Blue,
    Green,
    Red,
    Magenta,
    DarkYellow,
    DarkRed,
}

/// What is written in a square, two characters wide.
#[derive(Clone, Copy, PartialEq, Eq, Structural, Debug)]
pub enum Mark {
    /// A full block: the square is covered.
    Block,
    /// Nothing: the square is uncovered and has no mine near it.
    Blank,
    /// The number of mines around the square.
    Count(usize),
    /// A flag.
    Flag,
    /// A mine that was not flagged.
    Mine,
}

/// The look of one square.
#[derive(Clone, Copy, PartialEq, Eq, Structural, Debug)]
pub struct Glyph {
    /// The colour of the mark.
    pub fg: Color,
    /// The colour behind it.
    pub bg: Color,
    /// The mark.
    pub mark: Mark,
}

/// The colour of a count.
pub open spec fn count_color(n: usize) -> Color {
    if n == 0 {
        Color::Black
    } else if n == 1 || n == 6 {
        Color::Blue
    } else if n == 2 || n == 7 {
        Color::Green
    } else if n == 4 {
        Color::Magenta
    } else if n == 5 {
        Color::DarkYellow
    } else {
        Color::Red
    }
}

/// The look of a square while the game runs; `hovering` says that the
/// cursor is on it.
///
/// A covered square without a flag is a block, grey, or white under the
/// cursor; a mine looks no different. A flag stands on dark red. An
/// uncovered square shows its count in the colour of the count, or nothing
/// where the count is 0. Under the cursor the background is white and what
/// is written is black.
pub open spec fn glyph_of(c: Cella, hovering: bool) -> Glyph {
    let paper = if hovering {
        Color::White
    } else {
        Color::Black
    };
    let ink = if hovering {
        Color::Black
    } else {
        Color::White
    };
    if c.is_revealed() {
        if c.is_blank() {
            Glyph { fg: ink, bg: paper, mark: Mark::Blank }
        } else {
            Glyph {
                fg: if hovering {
                    Color::Black
                } else {
                    count_color(c->Safe_0)
                },
                bg: paper,
                mark: Mark::Count(c->Safe_0),
            }
        }
    } else if c.is_flagged() {
        Glyph {
            fg: Color::Black,
            bg: if hovering {
                Color::White
            } else {
                Color::DarkRed
            },
            mark: Mark::Flag,
        }
    } else {
        Glyph {
            fg: if hovering {
                Color::White
            } else {
                Color::Grey
            },
            bg: paper,
            mark: Mark::Block,
        }
    }
}

/// The look of a square once the game is lost: every mine is shown.
///
/// A mine stands on dark red, as a flag where it was flagged and as a mine
/// where it was not. A flag on a square without a mine stands on grey.
/// The other squares look as they did, and the cursor is not shown.
pub open spec fn final_glyph_of(c: Cella) -> Glyph {
    match c {
        Cella::Bomb(f) => Glyph {
            fg: Color::Black,
            bg: Color::DarkRed,
            mark: if f {
                Mark::Flag
            } else {
                Mark::Mine
            },
        },
        Cella::Safe(n, true, true) => Glyph { fg: Color::Black, bg: Color::Grey, mark: Mark::Flag },
        Cella::Safe(n, true, false) => Glyph {
            fg: Color::Grey,
            bg: Color::Black,
            mark: Mark::Block,
        },
        Cella::Safe(n, false, _) => if n == 0 {
            Glyph { fg: Color::White, bg: Color::Black, mark: Mark::Blank }
        } else {
            Glyph { fg: count_color(n), bg: Color::Black, mark: Mark::Count(n) }
        },
    }
}

/// The look of the whole board: while the game runs, each square with the
/// cursor on the square where it is; once it is lost, with every mine
/// shown.
pub open spec fn picture(b: Board) -> Seq<Seq<Glyph>> {
    Seq::new(
        b.cells.len(),
        |y: int|
            Seq::new(
                b.cells[y].len(),
                |x: int|
                    if b.lost {
                        final_glyph_of(b.cells[y][x])
                    } else {
                        glyph_of(b.cells[y][x], x == b.x && y == b.y)
                    },
            ),
    )
}

/// The rows of a picture in memory as a mathematical value.
pub open spec fn frame_of(rows: Seq<Vec<Glyph>>) -> Seq<Seq<Glyph>> {
    Seq::new(rows.len(), |y: int| rows[y]@)
}

/// The colour in which a count is written.
pub fn color_of_count(n: usize) -> (c: Color)
    ensures
        c == count_color(n),
{
    match n {
        0 => Color::Black,
        1 => Color::Blue,
        2 => Color::Green,
        3 => Color::Red,
        4 => Color::Magenta,
        5 => Color::DarkYellow,
        6 => Color::Blue,
        7 => Color::Green,
        _ => Color::Red,
    }
}

/// The look of the square `c` while the game runs.
pub fn running_glyph(c: Cella, hovering: bool) -> (g: Glyph)
    ensures
        g == glyph_of(c, hovering),
{
    let mut bg = Color::Black;
    let mut fg = Color::White;
    if hovering {
        bg = Color::White;
        fg = Color::Black;
    }
    let mark;
    match c {
        Cella::Bomb(false) | Cella::Safe(_, true, false) => {
            if hovering {
                fg = Color::White;
            } else {
                fg = Color::Grey;
            }
            mark = Mark::Block;
        },
        Cella::Safe(0, false, _) => {
            mark = Mark::Blank;
        },
        Cella::Safe(n, false, _) => {
            if hovering {
                fg = Color::Black;
            } else {
                fg = color_of_count(n);
            }
            mark = Mark::Count(n);
        },
        Cella::Safe(_, true, true) | Cella::Bomb(true) => {
            bg = Color::DarkRed;
            fg = Color::Black;
            if hovering {
                bg = Color::White;
            }
            mark = Mark::Flag;
        },
    }
    Glyph { fg, bg, mark }
}

/// The look of the square `c` once the game is lost.
pub fn final_glyph(c: Cella) -> (g: Glyph)
    ensures
        g == final_glyph_of(c),
{
    let mut bg = Color::Black;
    let mut fg = Color::White;
    let mark;
    match c {
        Cella::Safe(_, true, false) => {
            fg = Color::Grey;
            mark = Mark::Block;
        },
        Cella::Safe(0, false, _) => {
            mark = Mark::Blank;
        },
        Cella::Safe(n, false, _) => {
            fg = color_of_count(n);
            mark = Mark::Count(n);
        },
        Cella::Safe(_, true, true) => {
            bg = Color::Grey;
            fg = Color::Black;
            mark = Mark::Flag;
        },
        Cella::Bomb(true) => {
            bg = Color::DarkRed;
            fg = Color::Black;
            mark = Mark::Flag;
        },
        Cella::Bomb(false) => {
            bg = Color::DarkRed;
            fg = Color::Black;
            mark = Mark::Mine;
        },
    }
    Glyph { fg, bg, mark }
}

impl Game {
    /// The look of the square at `(x, y)` while the game runs, or `None`
    /// where the position is off the board.
    pub fn draw_cell(&self, x: usize, y: usize) -> (r: Option<Glyph>)
        ensures
            r.is_some() <==> inside(self@.cells, x as int, y as int),
            r matches Some(g) ==> g == glyph_of(
                self@.cells[y as int][x as int],
                x == self@.x && y == self@.y,
            ),
    {
        let hovering = x == self.x && y == self.y;
        match self.get_cell(x, y) {
            Some(c) => Some(running_glyph(*c, hovering)),
            None => None,
        }
    }

    /// The look of the board while the game runs.
    pub fn draw_alive(&self) -> (frame: Vec<Vec<Glyph>>)
        ensures
            frame_of(frame@) == picture(Board { lost: false, ..self@ }),
    {
        let ghost goal = picture(Board { lost: false, ..self@ });
        let mut frame: Vec<Vec<Glyph>> = Vec::new();
        let mut y: usize = 0;
        while y < self.cells.len()
            invariant
                y <= self.cells.len(),
                goal == picture(Board { lost: false, ..self@ }),
                frame@.len() == y,
                forall|j: int| 0 <= j < y ==> (#[trigger] frame@[j])@ == goal[j],
            decreases self.cells.len() - y,
        {
            let mut row: Vec<Glyph> = Vec::new();
            let mut x: usize = 0;
            while x < self.cells[y].len()
                invariant
                    y < self.cells.len(),
                    x <= self.cells[y as int].len(),
                    goal == picture(Board { lost: false, ..self@ }),
                    row@.len() == x,
                    forall|i: int| 0 <= i < x ==> #[trigger] row@[i] == goal[y as int][i],
                decreases self.cells[y as int].len() - x,
            {
                let hovering = x == self.x && y == self.y;
                row.push(running_glyph(self.cells[y][x], hovering));
                x = x + 1;
            }
            assert(row@ =~= goal[y as int]);
            frame.push(row);
            y = y + 1;
        }
        assert(frame_of(frame@) =~= goal);
        frame
    }

    /// The look of the board once the game is lost.
    pub fn draw_dead(&self) -> (frame: Vec<Vec<Glyph>>)
        ensures
            frame_of(frame@) == picture(Board { lost: true, ..self@ }),
    {
        let ghost goal = picture(Board { lost: true, ..self@ });
        let mut frame: Vec<Vec<Glyph>> = Vec::new();
        let mut y: usize = 0;
        while y < self.cells.len()
            invariant
                y <= self.cells.len(),
                goal == picture(Board { lost: true, ..self@ }),
                frame@.len() == y,
                forall|j: int| 0 <= j < y ==> (#[trigger] frame@[j])@ == goal[j],
            decreases self.cells.len() - y,
        {
            let mut row: Vec<Glyph> = Vec::new();
            let mut x: usize = 0;
            while x < self.cells[y].len()
                invariant
                    y < self.cells.len(),
                    x <= self.cells[y as int].len(),
                    goal == picture(Board { lost: true, ..self@ }),
                    row@.len() == x,
                    forall|i: int| 0 <= i < x ==> #[trigger] row@[i] == goal[y as int][i],
                decreases self.cells[y as int].len() - x,
            {
                row.push(final_glyph(self.cells[y][x]));
                x = x + 1;
            }
            assert(row@ =~= goal[y as int]);
            frame.push(row);
            y = y + 1;
        }
        assert(frame_of(frame@) =~= goal);
        frame
    }

    /// The look of the board as the game stands: with every mine shown if
    /// it is lost, else with the cursor.
    pub fn draw(&self) -> (frame: Vec<Vec<Glyph>>)
        ensures
            frame_of(frame@) == picture(self@),
    {
        if self.lost {
            self.draw_dead()
        } else {
            self.draw_alive()
        }
    }
}

/// A move of the cursor changes the look of two squares at most: the one
/// that the cursor leaves and the one that it reaches.
pub proof fn law_move_repaints_two(b: Board, x: int, y: int)
    requires
        inside(b.cells, x, y),
        !(x == b.x && y == b.y),
    ensures
        !(x == b.moved_up().x && y == b.moved_up().y) ==> picture(b.moved_up())[y][x] == picture(
            b,
        )[y][x],
        !(x == b.moved_down().x && y == b.moved_down().y) ==> picture(b.moved_down())[y][x]
            == picture(b)[y][x],
        !(x == b.moved_left().x && y == b.moved_left().y) ==> picture(b.moved_left())[y][x]
            == picture(b)[y][x],
        !(x == b.moved_right().x && y == b.moved_right().y) ==> picture(b.moved_right())[y][x]
            == picture(b)[y][x],
{
}

/// A flag changes the look of no square but the one under the cursor.
pub proof fn law_flag_repaints_one(b: Board, x: int, y: int)
    requires
        inside(b.cells, x, y),
        !(x == b.x && y == b.y),
    ensures
        picture(b.flagged())[y][x] == picture(b)[y][x],
{
}

/// A reveal that does not lose the game changes the look of no square but
/// those that it reaches.
pub proof fn law_reveal_repaints_reached(b: Board, x: int, y: int, tx: int, ty: int)
    requires
        inside(b.cells, tx, ty),
        b.revealed(x, y).lost == b.lost,
        !floods(b.cells, x, y, tx, ty),
    ensures
        picture(b.revealed(x, y))[ty][tx] == picture(b)[ty][tx],
{
    lemma_flood_squares(b.cells, x, y);
}

/// The cursor can be seen on every square: a square looks different with
/// the cursor on it.
pub proof fn law_cursor_is_visible(c: Cella)
    ensures
        glyph_of(c, true) != glyph_of(c, false),
{
}

/// Once the game is lost every mine can be told from every square without
/// one, a flagged mine from an unflagged one, and a flag on a mine from a
/// flag on a square without one.
pub proof fn law_final_picture_tells_mines(a: Cella, b: Cella)
    ensures
        a.is_mine() && !b.is_mine() ==> final_glyph_of(a) != final_glyph_of(b),
        a.is_mine() && b.is_mine() && a.is_flagged() != b.is_flagged() ==> final_glyph_of(a)
            != final_glyph_of(b),
        final_glyph_of(Cella::Bomb(false)).mark == Mark::Mine,
{
}

} // verus!
