//! A read-only view over a two-dimensional grid of cells, with a structural
//! listing and a block-glyph rendering of its truthy cells.

pub mod cell;
pub mod matrix;
pub mod text;

pub use cell::{CellDebug, MatrixBool};
pub use matrix::Matrix2d;
