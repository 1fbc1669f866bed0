//! Conway's Game of Life on a toroidal grid, with the grid held in a packed
//! bit set and every operation proved against a mathematical model.
pub mod bitset;
pub mod laws;
pub mod rules;
pub mod universe;

pub use universe::Universe;
