//! Conway's Game of Life on a toroidal grid.
//!
//! The grid is a flat, row-major buffer of binary cells with wraparound
//! indexing: every cell has exactly eight neighbours, and one `tick`
//! advances the whole grid by one generation under the standard Life rules.

pub mod cell;
pub mod laws;
pub mod universe;
