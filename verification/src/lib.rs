//! Conway's Game of Life on a fixed-size toroidal grid.
//!
//! The grid is a flat, row-major buffer of [`Cell`]s owned by a [`Universe`].
//! Every executable function carries a contract over the mathematical model
//! [`Grid`], and the contracts are proved by Verus.

pub mod cell;
pub mod grid;
pub mod render;
pub mod seed;
pub mod universe;

pub use cell::Cell;
pub use grid::Grid;
pub use universe::Universe;
