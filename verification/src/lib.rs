//! A Minesweeper engine: the board, mine placement, neighbour counts, the
//! flood-fill reveal, flags, and the win and loss rules.
//!
//! Every operation is stated over a mathematical model of the game
//! ([`board::Board`]) and proved against it.
//!
//! - [`cell`] and [`grid`]: a square, the grid of squares, neighbours and
//!   counts.
//! - [`flood`]: which squares one reveal uncovers.
//! - [`board`]: the state of a game and what each operation makes of it.
//! - [`preserve`] and [`laws`]: what every game keeps, and what follows.
//! - [`game`], [`setup`], [`play`]: the game in memory, building it, and
//!   playing it; [`worklist`] holds the argument for the reveal.
//! - [`render`]: the look of each square.
//! - [`control`]: from a key press to an action.
//! - [`size`]: reading a size such as `50x30`.

pub mod cell;
pub mod grid;
pub mod flood;
pub mod board;
pub mod preserve;
pub mod laws;
pub mod game;
pub mod setup;
pub mod worklist;
pub mod play;
pub mod render;
pub mod control;
pub mod size;
