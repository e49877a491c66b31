//! From a key press to what the game does with it.

use vstd::prelude::*;
use crate::board::Board;
use crate::game::Game;

verus! {

/// A key of the keyboard, as far as the game tells keys apart.
#[derive(Clone, Copy, PartialEq, Eq, Structural, Debug)]
pub enum Key {
    Up,
    Down,
    Left,
    Right,
    Esc,
    Char(char),
    Other,
}

/// What was held down with the key.
#[derive(Clone, Copy, PartialEq, Eq, Structural, Debug)]
pub enum Held {
    /// Nothing.
    Nothing,
    /// Shift, and nothing else.
    Shift,
    /// Control, and nothing else.
    Control,
    /// Anything else.
    Other,
}

/// What a key press asks for.
#[derive(Clone, Copy, PartialEq, Eq, Structural, Debug)]
pub enum Action {
    MoveUp,
    MoveDown,
    MoveLeft,
    MoveRight,
    LongUp,
    LongDown,
    LongLeft,
    LongRight,
    Click,
    Flag,
    Refresh,
    Quit,
}

/// One of the four ways to go.
#[derive(Clone, Copy, PartialEq, Eq, Structural, Debug)]
pub enum Way {
    Up,
    Down,
    Left,
    Right,
}

/// The way that an arrow key or one of the letters `h`, `j`, `k`, `l`
/// stands for, in either case.
pub open spec fn way_of(key: Key) -> Option<Way> {
    match key {
        Key::Up => Some(Way::Up),
        Key::Down => Some(Way::Down),
        Key::Left => Some(Way::Left),
        Key::Right => Some(Way::Right),
        Key::Char(c) => if c == 'k' || c == 'K' {
            Some(Way::Up)
        } else if c == 'j' || c == 'J' {
            Some(Way::Down)
        } else if c == 'h' || c == 'H' {
            Some(Way::Left)
        } else if c == 'l' || c == 'L' {
            Some(Way::Right)
        } else {
            None
        },
        _ => None,
    }
}

/// The key is one of the capital letters `H`, `J`, `K`, `L`.
pub open spec fn is_capital(key: Key) -> bool {
    key matches Key::Char(c) && (c == 'H' || c == 'J' || c == 'K' || c == 'L')
}

/// One step in the given way.
pub open spec fn step(way: Way) -> Action {
    match way {
        Way::Up => Action::MoveUp,
        Way::Down => Action::MoveDown,
        Way::Left => Action::MoveLeft,
        Way::Right => Action::MoveRight,
    }
}

/// A jump in the given way.
pub open spec fn jump(way: Way) -> Action {
    match way {
        Way::Up => Action::LongUp,
        Way::Down => Action::LongDown,
        Way::Left => Action::LongLeft,
        Way::Right => Action::LongRight,
    }
}

/// What a key press asks for, or `None` for a key that means nothing.
///
/// Whatever is held: `x` and `f` reveal, `z` and `d` flag, `c` and `r`
/// ask for the screen to be drawn anew, `q` and Esc quit. An arrow key or
/// a small `h`, `j`, `k`, `l` steps with nothing held and jumps with
/// Control; a capital `H`, `J`, `K`, `L` jumps with Shift.
pub open spec fn action_of(key: Key, held: Held) -> Option<Action> {
    if key == Key::Char('x') || key == Key::Char('f') {
        Some(Action::Click)
    } else if key == Key::Char('z') || key == Key::Char('d') {
        Some(Action::Flag)
    } else if key == Key::Char('c') || key == Key::Char('r') {
        Some(Action::Refresh)
    } else if key == Key::Char('q') || key == Key::Esc {
        Some(Action::Quit)
    } else {
        match way_of(key) {
            Some(way) => if is_capital(key) {
                if held == Held::Shift {
                    Some(jump(way))
                } else {
                    None
                }
            } else if held == Held::Nothing {
                Some(step(way))
            } else if held == Held::Control {
                Some(jump(way))
            } else {
                None
            },
            None => None,
        }
    }
}

impl Board {
    /// The game after the action. Drawing the screen anew and quitting
    /// leave it as it is, and so do the jumps, which are kept for later.
    pub open spec fn acted(self, action: Action) -> Board {
        match action {
            Action::MoveUp => self.moved_up(),
            Action::MoveDown => self.moved_down(),
            Action::MoveLeft => self.moved_left(),
            Action::MoveRight => self.moved_right(),
            Action::Click => self.revealed(self.x as int, self.y as int),
            Action::Flag => self.flagged(),
            _ => self,
        }
    }

    /// The game has ended: it is won or lost.
    pub open spec fn over(self) -> bool {
        self.lost || self.won
    }
}

/// What a key press asks for, or `None` for a key that means nothing.
pub fn action_for(key: Key, held: Held) -> (r: Option<Action>)
    ensures
        r == action_of(key, held),
{
    match (key, held) {
        (Key::Up, Held::Nothing) | (Key::Char('k'), Held::Nothing) => Some(Action::MoveUp),
        (Key::Down, Held::Nothing) | (Key::Char('j'), Held::Nothing) => Some(Action::MoveDown),
        (Key::Left, Held::Nothing) | (Key::Char('h'), Held::Nothing) => Some(Action::MoveLeft),
        (Key::Right, Held::Nothing) | (Key::Char('l'), Held::Nothing) => Some(Action::MoveRight),
        (Key::Char('k'), Held::Control) | (Key::Up, Held::Control) | (
            Key::Char('K'),
            Held::Shift,
        ) => Some(Action::LongUp),
        (Key::Char('j'), Held::Control) | (Key::Down, Held::Control) | (
            Key::Char('J'),
            Held::Shift,
        ) => Some(Action::LongDown),
        (Key::Char('h'), Held::Control) | (Key::Left, Held::Control) | (
            Key::Char('H'),
            Held::Shift,
        ) => Some(Action::LongLeft),
        (Key::Char('l'), Held::Control) | (Key::Right, Held::Control) | (
            Key::Char('L'),
            Held::Shift,
        ) => Some(Action::LongRight),
        (Key::Char('x'), _) | (Key::Char('f'), _) => Some(Action::Click),
        (Key::Char('z'), _) | (Key::Char('d'), _) => Some(Action::Flag),
        (Key::Char('c'), _) | (Key::Char('r'), _) => Some(Action::Refresh),
        (Key::Char('q'), _) | (Key::Esc, _) => Some(Action::Quit),
        _ => None,
    }
}

impl Game {
    /// Whether the game has ended: it is won or lost.
    pub fn is_over(&self) -> (r: bool)
        ensures
            r == self@.over(),
    {
        self.is_lost() || self.is_won()
    }

    /// Does what the action asks for.
    pub fn act(&mut self, action: Action)
        requires
            old(self)@.wf(),
        ensures
            final(self)@ == old(self)@.acted(action),
            final(self)@.wf(),
    {
        match action {
            Action::MoveUp => self.move_up(),
            Action::MoveDown => self.move_down(),
            Action::MoveLeft => self.move_left(),
            Action::MoveRight => self.move_right(),
            Action::LongUp => self.long_up(),
            Action::LongDown => self.long_down(),
            Action::LongLeft => self.long_left(),
            Action::LongRight => self.long_right(),
            Action::Click => self.click(),
            Action::Flag => self.flag(),
            Action::Refresh => {},
            Action::Quit => {},
        }
    }

    /// Takes a key press: does what it asks for, and says what that was.
    /// A key that means nothing changes nothing.
    pub fn press(&mut self, key: Key, held: Held) -> (r: Option<Action>)
        requires
            old(self)@.wf(),
        ensures
            r == action_of(key, held),
            final(self)@ == (match r {
                Some(action) => old(self)@.acted(action),
                None => old(self)@,
            }),
            final(self)@.wf(),
    {
        let r = action_for(key, held);
        match r {
            Some(action) => self.act(action),
            None => {},
        }
        r
    }
}

} // verus!
