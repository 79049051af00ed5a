//! Conway's Game of Life on a bounded grid.
//!
//! A [`World`] holds a fixed number of rows and columns of cells, each alive
//! or dead, and moves from one generation to the next by the classic rule: a
//! dead cell with exactly three live neighbours comes alive, a live cell with
//! two or three stays alive, every other cell is dead in the next generation.
//! The grid neither grows nor wraps around.

pub mod cell;
pub mod color;
pub mod dimensions;
pub mod grid;
pub mod random;
pub mod raster;
pub mod sweep;
pub mod world;

pub use cell::{Cell, Proportion};
pub use color::Color;
pub use dimensions::{Dimensions, Position};
pub use grid::Grid;
pub use random::random_cells;
pub use raster::{draw_world, Config, Square};
pub use world::{World, WorldError, PROPORTION};
