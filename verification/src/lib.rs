//! Conway's Game of Life on a fixed-size square grid.
//!
//! The grid lives in [`board`]; the per-cell transition rule lives in
//! [`rule`]; [`patterns`] proves how some classic seed patterns evolve.

pub mod board;
pub mod patterns;
pub mod rule;
