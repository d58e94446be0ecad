//! A verified Conway's Game of Life engine on a fixed-size grid.
//!
//! A [`grid::Grid`] owns one [`cell::Cell`] per coordinate of a
//! `width x height` board. Each generation every cell's next state is
//! computed from a snapshot of the previous generation, so that no cell's
//! rule evaluation can observe a neighbor's already-updated state. The
//! simulation driver renders every generation as text.

pub mod cell;
pub mod entropy;
pub mod grid;
pub mod laws;
pub mod render;
pub mod rng;
pub mod sim;
