//! Render-ready mesh data: what a graphics backend needs to draw the world.

use vstd::prelude::*;
use crate::voxel::grid::{I64Vec3, IVec2, IVec3};

verus! {

/// One corner of a mesh triangle.
#[derive(Clone, Copy, Debug, PartialEq, Eq, Structural)]
pub struct ModelVertex {
    /// Position in half voxel units: on each axis twice the world
    /// coordinate, so that the corners of a unit cube around an integer
    /// centre are integers.
    pub position: I64Vec3,
    /// Texture coordinate.
    pub tex_coords: IVec2,
    /// Outward normal of the face the vertex belongs to.
    pub normal: IVec3,
}

/// The geometry of one chunk: vertices, and triangles as index triples.
#[derive(Debug)]
pub struct Mesh {
    /// The vertices of the mesh.
    pub vertices: Vec<ModelVertex>,
    /// Indices into `vertices`, three for each triangle.
    pub indices: Vec<u32>,
    /// The number of indices.
    pub num_elements: u32,
    /// Which material of the model the mesh is drawn with.
    pub material: usize,
}

/// A collection of meshes that share their materials.
#[derive(Debug)]
pub struct Model {
    pub meshes: Vec<Mesh>,
}

} // verus!
