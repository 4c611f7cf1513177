//! Conway's Game of Life on a fixed-size toroidal grid.
//!
//! A [`Universe`] owns the dimensions of the grid and one flat buffer of
//! cells in row-major order. `tick` replaces the buffer by the next
//! generation; the accessors expose the dimensions and the cells. The grid
//! has no edge: the first row is next to the last, and the first column is
//! next to the last.
//!
//! What the operations compute is stated over [`Grid`], the grid as a
//! mathematical value. The modules `generations` and `patterns` prove what
//! follows from the rule for every grid: the shape of the grid never changes,
//! an empty grid stays empty, a block stays as it is, and a blinker comes
//! back after two generations.

pub mod cell;
pub mod generations;
pub mod grid;
pub mod patterns;
pub mod seed;
pub mod universe;

pub use cell::Cell;
pub use grid::Grid;
pub use universe::{GridError, Universe};
