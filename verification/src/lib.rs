//! A toroidal Game of Life: a bit-packed grid, its generation step and the
//! list of live cells that a viewer draws.

pub mod bits;
pub mod grid;
pub mod laws;
pub mod pointer;
pub mod universe;
pub mod view;
