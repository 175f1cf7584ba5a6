//! A statically sized two-dimensional array.
//!
//! The width and the height of a [`Grid`] are part of its type, so the
//! cells live inline, in one block of `H` rows of `W` cells each. A position
//! is a pair `(x, y)`: `x` picks the column and `y` the row.

pub mod cells;
pub mod grid;
pub mod laws;

pub use grid::{Grid, SquareGrid};
