//! Voxel chunk terrain: a sparse world of fixed-size voxel chunks, filled
//! from a height field, and the construction of the minimal visible mesh of
//! each chunk.

pub mod model;
pub mod voxel;
