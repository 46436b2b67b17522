//! Mesh data of a voxel: the quads of its faces, and of those only the ones
//! that no solid neighbour hides.

use vstd::prelude::*;
use crate::model::ModelVertex;
use crate::voxel::chunk::{Chunk, ChunkMap};
use crate::voxel::grid::{I64Vec3, IVec2, IVec3};

verus! {

/// Outward direction of a face along its axis. The six faces of a voxel are
/// numbered in the order in which they are emitted: `+y`, `-y`, `+x`, `-x`,
/// `+z`, `-z`.
pub open spec fn face_sign(face: int) -> int {
    if face % 2 == 0 {
        1
    } else {
        -1
    }
}

/// Outward unit normal of a face, which is also the step to the neighbouring
/// cell behind the face.
pub open spec fn face_normal(face: int) -> IVec3 {
    let s = face_sign(face) as i32;
    if face < 2 {
        IVec3 { x: 0, y: s, z: 0 }
    } else if face < 4 {
        IVec3 { x: s, y: 0, z: 0 }
    } else {
        IVec3 { x: 0, y: 0, z: s }
    }
}

/// Side of a quad, along one of the two axes in its plane, on which its
/// corner `k` lies: the corners 0 and 1 on the lower side, 2 and 3 on the
/// upper.
pub open spec fn ring_late(k: int) -> int {
    if k < 2 {
        -1
    } else {
        1
    }
}

/// Side of a quad, along the other axis in its plane, on which its corner
/// `k` lies: the corners 1 and 2 on the upper side, 0 and 3 on the lower.
pub open spec fn ring_mid(k: int) -> int {
    if k == 1 || k == 2 {
        1
    } else {
        -1
    }
}

/// Offset of corner `k` of a face from the voxel's centre, in half voxel
/// units: on the face's own axis the face's side, on the two other axes
/// the corner's place on the ring around the face.
pub open spec fn face_corner(face: int, k: int) -> (int, int, int) {
    let s = face_sign(face);
    if face < 2 {
        (ring_mid(k), s, ring_late(k))
    } else if face < 4 {
        (s, ring_late(k), ring_mid(k))
    } else {
        (ring_late(k), ring_mid(k), s)
    }
}

/// Vertex at corner `k` of a face of the voxel centred on `pos`.
pub open spec fn face_vertex(face: int, k: int, pos: I64Vec3) -> ModelVertex {
    let c = face_corner(face, k);
    ModelVertex {
        position: I64Vec3 {
            x: (2 * pos.x + c.0) as i64,
            y: (2 * pos.y + c.1) as i64,
            z: (2 * pos.z + c.2) as i64,
        },
        tex_coords: IVec2 { x: 0, y: 0 },
        normal: face_normal(face),
    }
}

/// The four vertices of a face of the voxel centred on `pos`.
pub open spec fn face_vertices(face: int, pos: I64Vec3) -> Seq<ModelVertex> {
    Seq::new(4, |k: int| face_vertex(face, k, pos))
}

/// Corner of a quad that stands at place `k` of the six indices of its two
/// triangles, for a face on the upper side of its axis: the triangles
/// `(0, 3, 1)` and `(1, 3, 2)`.
pub open spec fn upper_quad_corner(k: int) -> int {
    if k == 0 {
        0
    } else if k == 1 || k == 4 {
        3
    } else if k == 2 || k == 3 {
        1
    } else {
        2
    }
}

/// Corner of a quad that stands at place `k` of the six indices of its two
/// triangles. A face on the lower side of its axis winds its triangles the
/// other way round, `(0, 1, 3)` and `(1, 2, 3)`, so that both kinds face
/// outwards.
pub open spec fn quad_corner(face: int, k: int) -> int {
    if face % 2 == 0 {
        upper_quad_corner(k)
    } else if k % 3 == 1 {
        upper_quad_corner(k + 1)
    } else if k % 3 == 2 {
        upper_quad_corner(k - 1)
    } else {
        upper_quad_corner(k)
    }
}

/// The six indices of a face whose first vertex has the index `base`.
pub open spec fn face_indices(face: int, base: int) -> Seq<u32> {
    Seq::new(6, |k: int| (base + quad_corner(face, k)) as u32)
}

/// Whether twice each coordinate, one more or one less, fits an `i64`.
pub open spec fn fits_half_units(pos: I64Vec3) -> bool {
    &&& -0x4000_0000_0000_0000 < pos.x < 0x4000_0000_0000_0000
    &&& -0x4000_0000_0000_0000 < pos.y < 0x4000_0000_0000_0000
    &&& -0x4000_0000_0000_0000 < pos.z < 0x4000_0000_0000_0000
}

/// The vertex that lies half a voxel from `pos` on each axis, on the sides
/// that `sx`, `sy` and `sz` give.
fn corner_vertex(pos: I64Vec3, sx: i64, sy: i64, sz: i64, normal: IVec3) -> (v: ModelVertex)
    requires
        fits_half_units(pos),
        -1 <= sx <= 1,
        -1 <= sy <= 1,
        -1 <= sz <= 1,
    ensures
        v == (ModelVertex {
            position: I64Vec3 {
                x: (2 * pos.x + sx) as i64,
                y: (2 * pos.y + sy) as i64,
                z: (2 * pos.z + sz) as i64,
            },
            tex_coords: IVec2 { x: 0, y: 0 },
            normal,
        }),
{
    ModelVertex {
        position: I64Vec3 { x: 2 * pos.x + sx, y: 2 * pos.y + sy, z: 2 * pos.z + sz },
        tex_coords: IVec2 { x: 0, y: 0 },
        normal,
    }
}

/// Outward unit normal of a face.
fn face_direction(face: usize) -> (normal: IVec3)
    requires
        face < 6,
    ensures
        normal == face_normal(face as int),
{
    if face == 0 {
        IVec3 { x: 0, y: 1, z: 0 }
    } else if face == 1 {
        IVec3 { x: 0, y: -1, z: 0 }
    } else if face == 2 {
        IVec3 { x: 1, y: 0, z: 0 }
    } else if face == 3 {
        IVec3 { x: -1, y: 0, z: 0 }
    } else if face == 4 {
        IVec3 { x: 0, y: 0, z: 1 }
    } else {
        IVec3 { x: 0, y: 0, z: -1 }
    }
}

/// The four vertices of a face of the voxel centred on `pos`.
fn face_quad(face: usize, pos: I64Vec3) -> (quad: Vec<ModelVertex>)
    requires
        face < 6,
        fits_half_units(pos),
    ensures
        quad@ == face_vertices(face as int, pos),
{
    let normal = face_direction(face);
    let mut quad: Vec<ModelVertex> = Vec::new();
    if face == 0 {
        quad.push(corner_vertex(pos, -1, 1, -1, normal));
        quad.push(corner_vertex(pos, 1, 1, -1, normal));
        quad.push(corner_vertex(pos, 1, 1, 1, normal));
        quad.push(corner_vertex(pos, -1, 1, 1, normal));
    } else if face == 1 {
        quad.push(corner_vertex(pos, -1, -1, -1, normal));
        quad.push(corner_vertex(pos, 1, -1, -1, normal));
        quad.push(corner_vertex(pos, 1, -1, 1, normal));
        quad.push(corner_vertex(pos, -1, -1, 1, normal));
    } else if face == 2 {
        quad.push(corner_vertex(pos, 1, -1, -1, normal));
        quad.push(corner_vertex(pos, 1, -1, 1, normal));
        quad.push(corner_vertex(pos, 1, 1, 1, normal));
        quad.push(corner_vertex(pos, 1, 1, -1, normal));
    } else if face == 3 {
        quad.push(corner_vertex(pos, -1, -1, -1, normal));
        quad.push(corner_vertex(pos, -1, -1, 1, normal));
        quad.push(corner_vertex(pos, -1, 1, 1, normal));
        quad.push(corner_vertex(pos, -1, 1, -1, normal));
    } else if face == 4 {
        quad.push(corner_vertex(pos, -1, -1, 1, normal));
        quad.push(corner_vertex(pos, -1, 1, 1, normal));
        quad.push(corner_vertex(pos, 1, 1, 1, normal));
        quad.push(corner_vertex(pos, 1, -1, 1, normal));
    } else {
        quad.push(corner_vertex(pos, -1, -1, -1, normal));
        quad.push(corner_vertex(pos, -1, 1, -1, normal));
        quad.push(corner_vertex(pos, 1, 1, -1, normal));
        quad.push(corner_vertex(pos, 1, -1, -1, normal));
    }
    proof {
        assert(quad@ =~= face_vertices(face as int, pos));
    }
    quad
}

/// The corners of a quad in the order of the six indices of its two
/// triangles.
fn face_triangles(face: usize) -> (corners: Vec<u32>)
    requires
        face < 6,
    ensures
        corners@.len() == 6,
        forall|k: int| 0 <= k < 6 ==> corners@[k] == quad_corner(face as int, k),
{
    let mut corners: Vec<u32> = Vec::new();
    if face % 2 == 0 {
        corners.push(0);
        corners.push(3);
        corners.push(1);
        corners.push(1);
        corners.push(3);
        corners.push(2);
    } else {
        corners.push(0);
        corners.push(1);
        corners.push(3);
        corners.push(1);
        corners.push(2);
        corners.push(3);
    }
    corners
}

/// Every index of `vec`, moved up by `extend_amount`.
pub fn voxel_indices_extender(vec: Vec<u32>, extend_amount: u32) -> (moved: Vec<u32>)
    requires
        forall|i: int| 0 <= i < vec@.len() ==> vec@[i] + extend_amount <= u32::MAX,
    ensures
        moved@.len() == vec@.len(),
        forall|i: int| 0 <= i < vec@.len() ==> moved@[i] == vec@[i] + extend_amount,
{
    let mut moved: Vec<u32> = Vec::new();
    let mut i: usize = 0;
    while i < vec.len()
        invariant
            0 <= i <= vec@.len(),
            moved@.len() == i,
            forall|j: int| 0 <= j < vec@.len() ==> vec@[j] + extend_amount <= u32::MAX,
            forall|j: int| 0 <= j < i ==> moved@[j] == vec@[j] + extend_amount,
        decreases vec@.len() - i,
    {
        moved.push(vec[i] + extend_amount);
        i += 1;
    }
    moved
}

/// The 24 vertices of the cube around `pos`: the four corners of each face,
/// face after face.
pub open spec fn cube_vertices(pos: I64Vec3) -> Seq<ModelVertex> {
    Seq::new(24, |i: int| face_vertex(i / 4, i % 4, pos))
}

/// The 36 indices of a cube whose first vertex has the index `start`: six
/// for each face, four vertices apart from face to face.
pub open spec fn cube_indices(start: int) -> Seq<u32> {
    Seq::new(36, |i: int| (start + 4 * (i / 6) + quad_corner(i / 6, i % 6)) as u32)
}

/// The vertices of all six faces of the voxel centred on `pos`.
pub fn create_chunk_vertices(pos: I64Vec3) -> (vertices: Vec<ModelVertex>)
    requires
        fits_half_units(pos),
    ensures
        vertices@ == cube_vertices(pos),
{
    let mut vertices: Vec<ModelVertex> = Vec::new();
    let mut face: usize = 0;
    while face < 6
        invariant
            0 <= face <= 6,
            fits_half_units(pos),
            vertices@.len() == 4 * face,
            forall|i: int| 0 <= i < 4 * face ==> vertices@[i] == face_vertex(i / 4, i % 4, pos),
        decreases 6 - face,
    {
        let mut quad = face_quad(face, pos);
        let ghost before = vertices@;
        vertices.append(&mut quad);
        proof {
            assert forall|i: int| 0 <= i < 4 * (face + 1) implies vertices@[i] == face_vertex(
                i / 4,
                i % 4,
                pos,
            ) by {
                if i >= 4 * face {
                    assert(vertices@[i] == face_vertices(face as int, pos)[i - 4 * face]);
                } else {
                    assert(vertices@[i] == before[i]);
                }
            }
        }
        face += 1;
    }
    proof {
        assert(vertices@ =~= cube_vertices(pos));
    }
    vertices
}

/// The indices of all six faces of a voxel whose first vertex has the index
/// `start_index`.
pub fn create_chunk_indices(start_index: u32) -> (indices: Vec<u32>)
    requires
        start_index + 23 <= u32::MAX,
    ensures
        indices@ == cube_indices(start_index as int),
{
    let mut indices: Vec<u32> = Vec::new();
    let mut face: usize = 0;
    while face < 6
        invariant
            0 <= face <= 6,
            start_index + 23 <= u32::MAX,
            indices@.len() == 6 * face,
            forall|i: int|
                0 <= i < 6 * face ==> indices@[i] == start_index + 4 * (i / 6) + quad_corner(
                    i / 6,
                    i % 6,
                ),
        decreases 6 - face,
    {
        let base: u32 = start_index + 4 * (face as u32);
        let corners = face_triangles(face);
        proof {
            assert forall|k: int| 0 <= k < corners@.len() implies corners@[k] + base
                <= u32::MAX by {
                assert(corners@[k] == quad_corner(face as int, k));
            }
        }
        let mut moved = voxel_indices_extender(corners, base);
        let ghost before = indices@;
        let ghost added = moved@;
        indices.append(&mut moved);
        proof {
            assert forall|i: int| 0 <= i < 6 * (face + 1) implies indices@[i] == start_index + 4 * (
            i / 6) + quad_corner(i / 6, i % 6) by {
                if i >= 6 * face {
                    assert(indices@[i] == added[i - 6 * face]);
                } else {
                    assert(indices@[i] == before[i]);
                }
            }
        }
        face += 1;
    }
    proof {
        assert(indices@ =~= cube_indices(start_index as int));
    }
    indices
}

/// The cell that lies behind a face of the cell at `local`.
pub open spec fn neighbor_position(local: IVec3, face: int) -> IVec3 {
    let n = face_normal(face);
    IVec3 { x: (local.x + n.x) as i32, y: (local.y + n.y) as i32, z: (local.z + n.z) as i32 }
}

/// For each face of the cell at `local` of a chunk, whether the position
/// behind the face is void, so that the face can be seen.
pub open spec fn neighbor_voids(
    chunk: &Chunk,
    local: IVec3,
    world: Map<IVec3, Seq<bool>>,
) -> Seq<bool> {
    Seq::new(6, |face: int| chunk.spec_is_void(neighbor_position(local, face), world))
}

/// How many of the first `n` faces can be seen.
pub open spec fn visible_count(voids: Seq<bool>, n: int) -> int
    decreases n,
{
    if n <= 0 {
        0
    } else {
        visible_count(voids, n - 1) + if voids[n - 1] {
            1int
        } else {
            0int
        }
    }
}

/// The vertices of those of the first `n` faces of the voxel centred on
/// `pos` that can be seen, face after face.
pub open spec fn voxel_vertices(voids: Seq<bool>, pos: I64Vec3, n: int) -> Seq<ModelVertex>
    decreases n,
{
    if n <= 0 {
        Seq::empty()
    } else if voids[n - 1] {
        voxel_vertices(voids, pos, n - 1) + face_vertices(n - 1, pos)
    } else {
        voxel_vertices(voids, pos, n - 1)
    }
}

/// The indices of those of the first `n` faces of a voxel that can be seen,
/// face after face. The vertices of the first such face start at the index
/// `start`, and those of each further one four after those of the one
/// before.
pub open spec fn voxel_indices(voids: Seq<bool>, start: int, n: int) -> Seq<u32>
    decreases n,
{
    if n <= 0 {
        Seq::empty()
    } else if voids[n - 1] {
        voxel_indices(voids, start, n - 1) + face_indices(
            n - 1,
            start + 4 * visible_count(voids, n - 1),
        )
    } else {
        voxel_indices(voids, start, n - 1)
    }
}

/// Each face that can be seen gives four vertices and six indices, and the
/// number of such faces grows with the number of faces looked at.
pub proof fn lemma_voxel_mesh_lengths(voids: Seq<bool>, pos: I64Vec3, start: int, n: int)
    requires
        0 <= n,
    ensures
        0 <= visible_count(voids, n) <= n,
        voxel_vertices(voids, pos, n).len() == 4 * visible_count(voids, n),
        voxel_indices(voids, start, n).len() == 6 * visible_count(voids, n),
        forall|m: int| 0 <= m <= n ==> #[trigger] visible_count(voids, m) <= visible_count(voids, n),
    decreases n,
{
    if n > 0 {
        lemma_voxel_mesh_lengths(voids, pos, start, n - 1);
    }
}

/// Every index of a voxel's faces points at one of the voxel's own vertices:
/// those numbered from `start` on, four for each face that can be seen.
pub proof fn lemma_voxel_indices_in_range(voids: Seq<bool>, start: int, n: int, i: int)
    requires
        0 <= n,
        0 <= start,
        start + 4 * visible_count(voids, n) <= u32::MAX,
        0 <= i < voxel_indices(voids, start, n).len(),
    ensures
        start <= voxel_indices(voids, start, n)[i] < start + 4 * visible_count(voids, n),
    decreases n,
{
    let origin = I64Vec3 { x: 0, y: 0, z: 0 };
    lemma_voxel_mesh_lengths(voids, origin, start, n);
    if n > 0 {
        lemma_voxel_mesh_lengths(voids, origin, start, n - 1);
        let before = voxel_indices(voids, start, n - 1);
        if i < before.len() {
            lemma_voxel_indices_in_range(voids, start, n - 1, i);
        } else {
            let k = i - before.len();
            assert(0 <= quad_corner(n - 1, k) <= 3);
        }
    }
}

/// A voxel with no solid neighbour gives the 24 vertices and 36 indices of
/// its six faces, and one that is enclosed by solid neighbours gives none.
pub proof fn lemma_face_count(voids: Seq<bool>, pos: I64Vec3, start: int)
    requires
        voids.len() == 6,
    ensures
        (forall|f: int| 0 <= f < 6 ==> voids[f]) ==> voxel_vertices(voids, pos, 6).len() == 24
            && voxel_indices(voids, start, 6).len() == 36,
        (forall|f: int| 0 <= f < 6 ==> !voids[f]) ==> voxel_vertices(voids, pos, 6).len() == 0
            && voxel_indices(voids, start, 6).len() == 0,
{
    lemma_voxel_mesh_lengths(voids, pos, start, 6);
    reveal_with_fuel(visible_count, 7);
}

/// A voxel with no solid neighbour gives exactly the vertices and indices of
/// the whole cube.
pub proof fn lemma_isolated_voxel_is_cube(voids: Seq<bool>, pos: I64Vec3, start: int)
    requires
        voids.len() == 6,
        forall|f: int| 0 <= f < 6 ==> voids[f],
    ensures
        voxel_vertices(voids, pos, 6) == cube_vertices(pos),
        voxel_indices(voids, start, 6) == cube_indices(start),
{
    reveal_with_fuel(visible_count, 7);
    reveal_with_fuel(voxel_vertices, 7);
    reveal_with_fuel(voxel_indices, 7);
    assert(voxel_vertices(voids, pos, 6) =~= cube_vertices(pos));
    assert(voxel_indices(voids, start, 6) =~= cube_indices(start));
}

/// The mesh data of the voxel at the cell `local_pos` of `chunk`, centred
/// on `world_pos`: the vertices and indices of each face behind which no
/// solid voxel stands, in this chunk or in the neighbouring chunk of
/// `world_chunks`, and of no other face. The vertices are numbered from
/// `start_index` on, so the numbers of all of them have to fit a `u32`: with
/// room for 24 they always do.
pub fn create_chunk_mesh_data(
    chunk: &Chunk,
    local_pos: IVec3,
    world_pos: I64Vec3,
    start_index: u32,
    world_chunks: &ChunkMap,
) -> (mesh: (Vec<ModelVertex>, Vec<u32>))
    requires
        world_chunks.wf(),
        i32::MIN < local_pos.x < i32::MAX,
        i32::MIN < local_pos.y < i32::MAX,
        i32::MIN < local_pos.z < i32::MAX,
        fits_half_units(world_pos),
        start_index + 4 * visible_count(neighbor_voids(chunk, local_pos, world_chunks@), 6)
            <= u32::MAX,
    ensures
        mesh.0@ == voxel_vertices(neighbor_voids(chunk, local_pos, world_chunks@), world_pos, 6),
        mesh.1@ == voxel_indices(
            neighbor_voids(chunk, local_pos, world_chunks@),
            start_index as int,
            6,
        ),
        mesh.0@.len() == 4 * visible_count(neighbor_voids(chunk, local_pos, world_chunks@), 6),
        mesh.1@.len() == 6 * visible_count(neighbor_voids(chunk, local_pos, world_chunks@), 6),
{
    let ghost voids = neighbor_voids(chunk, local_pos, world_chunks@);
    let mut model_verts: Vec<ModelVertex> = Vec::new();
    let mut indices: Vec<u32> = Vec::new();
    let mut unique_verts: u32 = start_index;
    let mut face: usize = 0;
    proof {
        lemma_voxel_mesh_lengths(voids, world_pos, start_index as int, 6);
    }
    while face < 6
        invariant
            0 <= face <= 6,
            world_chunks.wf(),
            i32::MIN < local_pos.x < i32::MAX,
            i32::MIN < local_pos.y < i32::MAX,
            i32::MIN < local_pos.z < i32::MAX,
            fits_half_units(world_pos),
            voids == neighbor_voids(chunk, local_pos, world_chunks@),
            start_index + 4 * visible_count(voids, 6) <= u32::MAX,
            forall|m: int| 0 <= m <= 6 ==> #[trigger] visible_count(voids, m) <= visible_count(voids, 6),
            unique_verts == start_index + 4 * visible_count(voids, face as int),
            model_verts@ == voxel_vertices(voids, world_pos, face as int),
            indices@ == voxel_indices(voids, start_index as int, face as int),
        decreases 6 - face,
    {
        let direction = face_direction(face);
        let neighbor = IVec3::new(
            local_pos.x + direction.x,
            local_pos.y + direction.y,
            local_pos.z + direction.z,
        );
        proof {
            assert(neighbor == neighbor_position(local_pos, face as int));
            assert(voids[face as int] == chunk.spec_is_void(neighbor, world_chunks@));
            assert(visible_count(voids, face + 1) <= visible_count(voids, 6));
        }
        if chunk.is_void(neighbor, world_chunks) {
            let mut quad = face_quad(face, world_pos);
            model_verts.append(&mut quad);
            let corners = face_triangles(face);
            proof {
                assert forall|k: int| 0 <= k < corners@.len() implies corners@[k] + unique_verts
                    <= u32::MAX by {
                    assert(corners@[k] == quad_corner(face as int, k));
                }
            }
            let mut moved = voxel_indices_extender(corners, unique_verts);
            proof {
                assert(moved@ =~= face_indices(face as int, unique_verts as int));
            }
            indices.append(&mut moved);
            unique_verts += 4;
        }
        face += 1;
    }
    proof {
        lemma_voxel_mesh_lengths(voids, world_pos, start_index as int, 6);
    }
    (model_verts, indices)
}

} // verus!
