//! Conway's Game of Life on a fixed-size toroidal grid.
//!
//! The crate is split into the cell and its transition rule ([`cell`]), the
//! mathematical model of a grid and of one generation step ([`grid`]), and
//! the executable engine that is proved against that model ([`universe`]).

pub mod cell;
pub mod error;
pub mod grid;
pub mod laws;
pub mod universe;

pub use cell::Cell;
pub use error::GridError;
pub use grid::Grid;
pub use universe::Universe;
