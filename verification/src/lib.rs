//! A variable-sized Sudoku grid.
//!
//! The grid is a square of `edge_size = size_param * size_param` cells,
//! divided into `size_param x size_param` blocks. Each cell holds an
//! optional value in `[1, edge_size]`. The library validates the size at
//! construction, normalizes out-of-range values to empty cells on bulk
//! assignment, answers whether the grid is completely filled, and renders
//! the grid as an aligned text diagram with box-drawing block separators.

pub mod grid;
pub mod render;
pub mod text;

pub use grid::SudokuField;
