//! Integer vectors and the flat indexing of a chunk's voxel grid.

use vstd::prelude::*;

verus! {

/// Number of voxels along each edge of a chunk.
pub const CHUNK_SIZE: i32 = 32;

/// Number of voxels in one horizontal layer of a chunk.
pub const CHUNK_AREA: i32 = CHUNK_SIZE * CHUNK_SIZE;

/// Number of voxels in a chunk.
pub const CHUNK_VOL: i32 = CHUNK_AREA * CHUNK_SIZE;

/// A vector of two `i32` components.
#[derive(Clone, Copy, Debug, PartialEq, Eq, Structural)]
pub struct IVec2 {
    pub x: i32,
    pub y: i32,
}

/// A vector of three `i32` components: a chunk's coordinate in chunk space,
/// a cell's coordinate relative to a chunk, or a face normal.
#[derive(Clone, Copy, Debug, PartialEq, Eq, Structural)]
pub struct IVec3 {
    pub x: i32,
    pub y: i32,
    pub z: i32,
}

/// A vector of three `i64` components: a position in world space.
#[derive(Clone, Copy, Debug, PartialEq, Eq, Structural)]
pub struct I64Vec3 {
    pub x: i64,
    pub y: i64,
    pub z: i64,
}

impl IVec3 {
    pub fn new(x: i32, y: i32, z: i32) -> (v: Self)
        ensures
            v == (IVec3 { x, y, z }),
    {
        IVec3 { x, y, z }
    }
}

impl I64Vec3 {
    pub fn new(x: i64, y: i64, z: i64) -> (v: Self)
        ensures
            v == (I64Vec3 { x, y, z }),
    {
        I64Vec3 { x, y, z }
    }
}

/// Whether the three coordinates name a cell inside a chunk.
pub open spec fn in_chunk(x: int, y: int, z: int) -> bool {
    0 <= x < 32 && 0 <= y < 32 && 0 <= z < 32
}

/// Position of the cell `(x, y, z)` in a chunk's flat voxel array.
pub open spec fn voxel_index(x: int, y: int, z: int) -> int {
    x + 32 * z + 1024 * y
}

/// The `x` coordinate of the cell stored at a flat index.
pub open spec fn cell_x(idx: int) -> int {
    idx % 32
}

/// The `y` coordinate of the cell stored at a flat index.
pub open spec fn cell_y(idx: int) -> int {
    idx / 1024
}

/// The `z` coordinate of the cell stored at a flat index.
pub open spec fn cell_z(idx: int) -> int {
    (idx / 32) % 32
}

/// World position of the cell `cell` of the chunk at `chunk_pos`: the cell's
/// coordinate moved by `CHUNK_SIZE` times the chunk's coordinate.
pub open spec fn world_position(chunk_pos: IVec3, cell: IVec3) -> I64Vec3 {
    I64Vec3 {
        x: (cell.x + 32 * chunk_pos.x) as i64,
        y: (cell.y + 32 * chunk_pos.y) as i64,
        z: (cell.z + 32 * chunk_pos.z) as i64,
    }
}

/// The flat index of a cell inside a chunk.
pub fn index_of(x: i32, y: i32, z: i32) -> (idx: usize)
    requires
        in_chunk(x as int, y as int, z as int),
    ensures
        idx as int == voxel_index(x as int, y as int, z as int),
        idx < 32768,
{
    (x + CHUNK_SIZE * z + CHUNK_AREA * y) as usize
}

/// World position of a cell of the chunk at `chunk_pos`.
pub fn cell_world_position(chunk_pos: IVec3, cell: IVec3) -> (w: I64Vec3)
    ensures
        w == world_position(chunk_pos, cell),
{
    I64Vec3 {
        x: cell.x as i64 + 32 * (chunk_pos.x as i64),
        y: cell.y as i64 + 32 * (chunk_pos.y as i64),
        z: cell.z as i64 + 32 * (chunk_pos.z as i64),
    }
}

/// The flat index maps the cells of a chunk one to one into `[0, 32768)`: it
/// stays in range, and two cells with the same index are the same cell.
pub proof fn lemma_voxel_index_injective(x1: int, y1: int, z1: int, x2: int, y2: int, z2: int)
    requires
        in_chunk(x1, y1, z1),
        in_chunk(x2, y2, z2),
    ensures
        0 <= voxel_index(x1, y1, z1) < 32768,
        voxel_index(x1, y1, z1) == voxel_index(x2, y2, z2) ==> x1 == x2 && y1 == y2 && z1 == z2,
{
    if voxel_index(x1, y1, z1) == voxel_index(x2, y2, z2) {
        // A layer holds 1024 cells and a row 32, so the layers decide first,
        // then the rows.
        assert(0 <= x1 + 32 * z1 < 1024 && 0 <= x2 + 32 * z2 < 1024);
        if y1 < y2 {
            assert(1024 * y1 + 1024 <= 1024 * y2);
        } else if y2 < y1 {
            assert(1024 * y2 + 1024 <= 1024 * y1);
        }
        assert(y1 == y2);
        if z1 < z2 {
            assert(32 * z1 + 32 <= 32 * z2);
        } else if z2 < z1 {
            assert(32 * z2 + 32 <= 32 * z1);
        }
        assert(z1 == z2);
    }
}

/// Every flat index in `[0, 32768)` is the index of exactly the cell that
/// `cell_x`, `cell_y` and `cell_z` give for it.
pub proof fn lemma_voxel_index_onto(idx: int)
    requires
        0 <= idx < 32768,
    ensures
        in_chunk(cell_x(idx), cell_y(idx), cell_z(idx)),
        voxel_index(cell_x(idx), cell_y(idx), cell_z(idx)) == idx,
{
}

/// The cell coordinates read back from the flat index of a cell are the
/// cell's own.
pub proof fn lemma_cell_of_voxel_index(x: int, y: int, z: int)
    requires
        in_chunk(x, y, z),
    ensures
        cell_x(voxel_index(x, y, z)) == x,
        cell_y(voxel_index(x, y, z)) == y,
        cell_z(voxel_index(x, y, z)) == z,
{
}

} // verus!
