//! The voxel grid, its chunks and the mesh data built from them.

pub mod chunk;
pub mod grid;
pub mod util;
