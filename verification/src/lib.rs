//! Conway's Game of Life: the board, the rule that advances it, the engine
//! that shares a generation with a reader, and the loop that drives it.

pub mod app;
pub mod generation;
pub mod grid;
pub mod rle;
pub mod rules;
pub mod seed;
pub mod shared;
pub mod universe;

pub use crate::app::App;
