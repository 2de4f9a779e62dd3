//! Layout and construction of terrain height grids.
//!
//! A height grid is a dense, row-major rectangle of samples taken at integer world
//! coordinates. This crate fixes which coordinate each cell of the grid is sampled at,
//! and owns the seeded coherent-noise field that the samples are drawn from.

pub mod grid;
pub mod sampler;
