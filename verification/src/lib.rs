//! Control and simulation core of a snake game played on a small LED matrix
//! with two buttons.
//!
//! - `control`: the latch that holds the most recent turn intent.
//! - `grid`: the cells of the playing field and the four headings.
//! - `store`: the fixed-capacity queue and set of cells that hold the snake.
//! - `snake`: the snake and its moves.
//! - `game`: the step-by-step game engine and the frames it renders.
//! - `heapless_t`: the contracts assumed of the `heapless` containers.
//!
//! The library does no input or output. Its driver owns the display, the
//! timer, the buttons and the random source, and calls in once per tick.

pub mod control;
pub mod game;
pub mod grid;
pub mod heapless_t;
pub mod snake;
pub mod store;
