//! Conway's Game of Life on a finite board with dead borders.
//!
//! The crate holds the board model, the transition engine that computes one
//! generation from the previous one, the pattern reader, the random seeding,
//! the glyph rendering of a board and the state of the pattern browser.
//! Every executable function carries a contract over the mathematical model
//! in [`board`].

pub mod board;
pub mod cell;
pub mod gameloop;
pub mod generation;
pub mod grid;
pub mod keys;
pub mod laws;
pub mod pattern;
pub mod presets;
pub mod render;
pub mod seed;
pub mod shapes;
pub mod ui;
