//! Conway's Game of Life on a rectangular grid of binary cells.
//!
//! A grid is a vector of rows of equal length; a cell holds 1 (alive) or
//! 0 (dead). The engine computes each next generation from the current one
//! by the standard birth/survival rule, with no wraparound at the edges.

pub mod rules;
pub mod engine;
pub mod laws;
pub mod render;
