//! Chunks of voxels, the sparse world that holds them, and the queries that
//! decide which voxel faces can be seen.

use vstd::prelude::*;
use crate::model::{Mesh, Model, ModelVertex};
use crate::voxel::grid::{
    cell_world_position, cell_x, cell_y, cell_z, in_chunk, index_of, voxel_index, world_position,
    IVec3, CHUNK_SIZE,
};
use crate::voxel::util::{
    create_chunk_mesh_data, face_normal, lemma_voxel_indices_in_range, lemma_voxel_mesh_lengths,
    neighbor_position, neighbor_voids, voxel_indices, voxel_vertices,
};

verus! {

/// One cell of a chunk.
#[derive(Debug, Clone, Copy)]
pub struct Voxel {
    pub is_solid: bool,
}

/// A cube of `CHUNK_SIZE` voxels along each edge, at an integer coordinate
/// in chunk space.
#[derive(Debug)]
pub struct Chunk {
    position: IVec3,
    voxels: Vec<Voxel>,
}

/// Position of the column `(x, z)` of a chunk in a table of column heights.
pub open spec fn column_index(x: int, z: int) -> int {
    x + 32 * z
}

/// Height of the solid part of a column inside the chunk layer `chunk_y`,
/// for a column whose terrain reaches `height` in world space: the part of
/// the terrain above the chunk's floor, and no more than the chunk holds.
pub open spec fn local_height(height: int, chunk_y: int) -> int {
    let above_floor = height - 32 * chunk_y;
    if above_floor < 32 {
        above_floor
    } else {
        32
    }
}

/// The voxels of a chunk in the layer `chunk_y` whose columns have the given
/// terrain heights: a cell is solid where it lies below its column's local
/// height.
pub open spec fn generated_voxels(chunk_y: int, heights: Seq<i64>) -> Seq<bool> {
    Seq::new(
        32768,
        |i: int| cell_y(i) < local_height(heights[column_index(cell_x(i), cell_z(i))] as int, chunk_y),
    )
}

/// Whether the sampler may be called on every column of the chunk at `pos`.
pub open spec fn samples_columns<F: Fn(i64, i64) -> i64>(sampler: &F, pos: IVec3) -> bool {
    forall|x: int, z: int|
        0 <= x < 32 && 0 <= z < 32 ==> call_requires(
            *sampler,
            ((#[trigger] column_world(pos.x, x)) as i64, (#[trigger] column_world(pos.z, z)) as i64),
        )
}

/// World coordinate, along one horizontal axis, of the column `local` of a
/// chunk whose coordinate on that axis is `chunk`.
pub open spec fn column_world(chunk: i32, local: int) -> int {
    local + 32 * chunk
}

/// Whether `height` is a height that the sampler can return for the column
/// `(x, z)` of the chunk at `pos`.
pub open spec fn may_sample<F: Fn(i64, i64) -> i64>(
    sampler: &F,
    pos: IVec3,
    x: int,
    z: int,
    height: i64,
) -> bool {
    call_ensures(*sampler, (column_world(pos.x, x) as i64, column_world(pos.z, z) as i64), height)
}

/// Whether `heights` holds, for each column of the chunk at `pos`, a height
/// that the sampler can return for that column's world coordinates.
pub open spec fn sampled_from<F: Fn(i64, i64) -> i64>(
    sampler: &F,
    pos: IVec3,
    heights: Seq<i64>,
) -> bool {
    &&& heights.len() == 1024
    &&& forall|x: int, z: int|
        0 <= x < 32 && 0 <= z < 32 ==> may_sample(
            sampler,
            pos,
            x,
            z,
            heights[#[trigger] column_index(x, z)],
        )
}

/// Whether the sampler gives one height only for each pair of coordinates.
pub open spec fn deterministic<F: Fn(i64, i64) -> i64>(sampler: &F) -> bool {
    forall|wx: i64, wz: i64, a: i64, b: i64|
        call_ensures(*sampler, (wx, wz), a) && call_ensures(*sampler, (wx, wz), b) ==> a == b
}

/// Samples the terrain height of every column of the chunk at `position`.
/// The height of column `(x, z)` stands at `x + 32 * z`.
pub fn sample_heights<F: Fn(i64, i64) -> i64>(position: IVec3, sampler: &F) -> (heights: Vec<i64>)
    requires
        samples_columns(sampler, position),
    ensures
        sampled_from(sampler, position, heights@),
{
    let mut heights: Vec<i64> = Vec::new();
    let mut z: i32 = 0;
    while z < CHUNK_SIZE
        invariant
            0 <= z <= 32,
            samples_columns(sampler, position),
            heights@.len() == 32 * z,
            forall|x1: int, z1: int|
                0 <= x1 < 32 && 0 <= z1 < z ==> may_sample(
                    sampler,
                    position,
                    x1,
                    z1,
                    heights@[#[trigger] column_index(x1, z1)],
                ),
        decreases 32 - z,
    {
        let wz: i64 = z as i64 + 32 * (position.z as i64);
        let mut x: i32 = 0;
        while x < CHUNK_SIZE
            invariant
                0 <= x <= 32,
                0 <= z < 32,
                wz as int == column_world(position.z, z as int),
                samples_columns(sampler, position),
                heights@.len() == 32 * z + x,
                forall|x1: int, z1: int|
                    0 <= x1 < 32 && (0 <= z1 < z || (z1 == z && x1 < x)) ==> may_sample(
                        sampler,
                        position,
                        x1,
                        z1,
                        heights@[#[trigger] column_index(x1, z1)],
                    ),
            decreases 32 - x,
        {
            let wx: i64 = x as i64 + 32 * (position.x as i64);
            proof {
                assert(wx as int == column_world(position.x, x as int));
            }
            let height = sampler(wx, wz);
            let ghost before = heights@;
            heights.push(height);
            proof {
                assert forall|x1: int, z1: int|
                    0 <= x1 < 32 && (0 <= z1 < z || (z1 == z && x1 < x + 1)) implies may_sample(
                    sampler,
                    position,
                    x1,
                    z1,
                    heights@[#[trigger] column_index(x1, z1)],
                ) by {
                    if z1 == z && x1 == x {
                        assert(column_index(x1, z1) == before.len());
                    } else {
                        assert(column_index(x1, z1) < before.len());
                        assert(heights@[column_index(x1, z1)] == before[column_index(x1, z1)]);
                    }
                }
            }
            x += 1;
        }
        z += 1;
    }
    heights
}

/// Whether the cell at `p` of a chunk with the given voxels is absent: not
/// solid, or outside the voxels that the chunk holds.
pub open spec fn cell_void(voxels: Seq<bool>, p: IVec3) -> bool {
    let idx = voxel_index(p.x as int, p.y as int, p.z as int);
    !(0 <= idx < voxels.len() && voxels[idx])
}

/// The step in chunk space from a chunk to the neighbour that a position
/// outside the chunk falls into. A position that leaves the chunk on more
/// than one axis is followed along the last of them only, in the order x, y,
/// z.
pub open spec fn neighbor_step(p: IVec3) -> (int, int, int) {
    if p.z > 31 {
        (0, 0, 1)
    } else if p.z < 0 {
        (0, 0, -1)
    } else if p.y > 31 {
        (0, 1, 0)
    } else if p.y < 0 {
        (0, -1, 0)
    } else if p.x > 31 {
        (1, 0, 0)
    } else if p.x < 0 {
        (-1, 0, 0)
    } else {
        (0, 0, 0)
    }
}

/// The cell of the neighbouring chunk that a position outside a chunk falls
/// into: on the axis that was left, the neighbour's first layer beyond the
/// upper end and its last layer beyond the lower end; on the other axes the
/// coordinates stay.
pub open spec fn neighbor_cell(p: IVec3) -> IVec3 {
    if p.z > 31 {
        IVec3 { x: p.x, y: p.y, z: 0 }
    } else if p.z < 0 {
        IVec3 { x: p.x, y: p.y, z: 31 }
    } else if p.y > 31 {
        IVec3 { x: p.x, y: 0, z: p.z }
    } else if p.y < 0 {
        IVec3 { x: p.x, y: 31, z: p.z }
    } else if p.x > 31 {
        IVec3 { x: 0, y: p.y, z: p.z }
    } else if p.x < 0 {
        IVec3 { x: 31, y: p.y, z: p.z }
    } else {
        p
    }
}

/// The voxels of the chunk that lies one `step` from `position`, if the
/// world holds a chunk there.
pub open spec fn chunk_at(
    world: Map<IVec3, Seq<bool>>,
    position: IVec3,
    step: (int, int, int),
) -> Option<Seq<bool>> {
    let x = position.x + step.0;
    let y = position.y + step.1;
    let z = position.z + step.2;
    let key = IVec3 { x: x as i32, y: y as i32, z: z as i32 };
    if i32::MIN <= x <= i32::MAX && i32::MIN <= y <= i32::MAX && i32::MIN <= z <= i32::MAX
        && world.contains_key(key) {
        Some(world[key])
    } else {
        None
    }
}

/// The position one step from `position`, where it is a position at all:
/// where no coordinate leaves the range of `i32`.
fn stepped(position: IVec3, dx: i32, dy: i32, dz: i32) -> (key: Option<IVec3>)
    ensures
        match key {
            Some(k) => k.x == position.x + dx && k.y == position.y + dy && k.z == position.z + dz,
            None => !(i32::MIN <= position.x + dx <= i32::MAX && i32::MIN <= position.y + dy
                <= i32::MAX && i32::MIN <= position.z + dz <= i32::MAX),
        },
{
    match (position.x.checked_add(dx), position.y.checked_add(dy), position.z.checked_add(dz)) {
        (Some(x), Some(y), Some(z)) => Some(IVec3::new(x, y, z)),
        _ => None,
    }
}

impl View for Chunk {
    type V = Seq<bool>;

    /// The solidity of the chunk's voxels, in the order of the flat array.
    closed spec fn view(&self) -> Seq<bool> {
        Seq::new(self.voxels@.len(), |i: int| self.voxels@[i].is_solid)
    }
}

impl Chunk {
    /// The chunk's coordinate in chunk space.
    pub closed spec fn spec_position(&self) -> IVec3 {
        self.position
    }

    /// Whether the chunk's voxels are those that the sampler's heights give
    /// at the chunk's position.
    pub open spec fn generated_by<F: Fn(i64, i64) -> i64>(&self, sampler: &F) -> bool {
        exists|heights: Seq<i64>|
            #![trigger sampled_from(sampler, self.spec_position(), heights)]
            sampled_from(sampler, self.spec_position(), heights) && self@ == generated_voxels(
                self.spec_position().y as int,
                heights,
            )
    }

    /// A chunk at `position` that holds no voxels yet.
    pub fn new(position: IVec3) -> (chunk: Self)
        ensures
            chunk.spec_position() == position,
            chunk@ == Seq::<bool>::empty(),
    {
        let chunk = Self { position, voxels: Vec::new() };
        proof {
            assert(chunk@ =~= Seq::<bool>::empty());
        }
        chunk
    }

    /// The chunk's coordinate in chunk space.
    pub fn position(&self) -> (position: IVec3)
        ensures
            position == self.spec_position(),
    {
        self.position
    }

    /// Replaces the chunk's voxels by those that a table of column heights
    /// gives: the height of column `(x, z)` stands at `x + 32 * z`.
    pub fn fill(&mut self, heights: &Vec<i64>)
        requires
            heights@.len() == 1024,
        ensures
            final(self).spec_position() == old(self).spec_position(),
            final(self)@ == generated_voxels(old(self).spec_position().y as int, heights@),
    {
        let floor: i64 = 32 * (self.position.y as i64);
        let mut voxels: Vec<Voxel> = Vec::new();
        let mut y: i32 = 0;
        while y < CHUNK_SIZE
            invariant
                0 <= y <= 32,
                heights@.len() == 1024,
                floor as int == 32 * self.position.y,
                voxels@.len() == 1024 * y,
                forall|i: int|
                    0 <= i < voxels@.len() ==> (#[trigger] voxels@[i]).is_solid == generated_voxels(
                        self.position.y as int,
                        heights@,
                    )[i],
            decreases 32 - y,
        {
            let mut column: usize = 0;
            while column < 1024
                invariant
                    0 <= y < 32,
                    0 <= column <= 1024,
                    heights@.len() == 1024,
                    floor as int == 32 * self.position.y,
                    voxels@.len() == 1024 * y + column,
                    forall|i: int|
                        0 <= i < voxels@.len() ==> (#[trigger] voxels@[i]).is_solid
                            == generated_voxels(self.position.y as int, heights@)[i],
                decreases 1024 - column,
            {
                let is_solid = floor + (y as i64) < heights[column];
                proof {
                    let i = 1024 * y + column;
                    assert(cell_y(i) == y);
                    assert(column_index(cell_x(i), cell_z(i)) == column);
                }
                voxels.push(Voxel { is_solid });
                column += 1;
            }
            y += 1;
        }
        self.voxels = voxels;
        proof {
            assert(self@ =~= generated_voxels(self.position.y as int, heights@));
        }
    }

    /// Generates the chunk's voxels from the terrain: every column is
    /// sampled at its world coordinates, and filled from the chunk's floor
    /// up to the sampled height.
    pub fn generate<F: Fn(i64, i64) -> i64>(&mut self, sampler: &F)
        requires
            samples_columns(sampler, old(self).spec_position()),
        ensures
            final(self).spec_position() == old(self).spec_position(),
            final(self).generated_by(sampler),
    {
        let heights = sample_heights(self.position, sampler);
        self.fill(&heights);
    }

    /// Whether no solid voxel stands at `p`, a position relative to this
    /// chunk. Inside the chunk its own voxels decide. Outside it the
    /// neighbouring chunk that `p` falls into decides, and where the world
    /// holds no chunk there, the position is void.
    ///
    /// The answer is that of the grid for a position inside the chunk or
    /// one step outside one of its faces. Further out, or past an edge or a
    /// corner, the neighbour is found as `neighbor_step` and `neighbor_cell`
    /// say.
    pub open spec fn spec_is_void(&self, p: IVec3, world: Map<IVec3, Seq<bool>>) -> bool {
        if in_chunk(p.x as int, p.y as int, p.z as int) {
            cell_void(self@, p)
        } else {
            match chunk_at(world, self.spec_position(), neighbor_step(p)) {
                Some(voxels) => cell_void(voxels, neighbor_cell(p)),
                None => true,
            }
        }
    }

    /// Whether the chunk holds no solid voxel at the flat index `idx`: none
    /// at all, or one that is not solid.
    fn void_at(&self, idx: usize) -> (void: bool)
        ensures
            void == !(idx < self@.len() && self@[idx as int]),
    {
        if idx < self.voxels.len() {
            !self.voxels[idx].is_solid
        } else {
            true
        }
    }

    /// Whether the voxel at `p` of this chunk is absent, for any `p`.
    fn voxel_absent(&self, p: IVec3) -> (void: bool)
        ensures
            void == cell_void(self@, p),
    {
        let idx: i64 = p.x as i64 + 32 * (p.z as i64) + 1024 * (p.y as i64);
        if 0 <= idx && (idx as u64) < (self.voxels.len() as u64) {
            self.void_at(idx as usize)
        } else {
            true
        }
    }

    /// Whether no solid voxel stands at `voxel_pos`, a position relative to
    /// this chunk, in a world that holds the chunks `world_chunks`.
    pub fn is_void(&self, voxel_pos: IVec3, world_chunks: &ChunkMap) -> (void: bool)
        requires
            world_chunks.wf(),
        ensures
            void == self.spec_is_void(voxel_pos, world_chunks@),
    {
        let x = voxel_pos.x;
        let y = voxel_pos.y;
        let z = voxel_pos.z;

        if 0 <= x && x < CHUNK_SIZE && 0 <= y && y < CHUNK_SIZE && 0 <= z && z < CHUNK_SIZE {
            self.void_at(index_of(x, y, z))
        } else {
            let c_pos = self.position;
            let mut neighbor_chunk_idx: Option<IVec3> = None;
            let mut neighbor_voxel_pos = voxel_pos;
            if x > CHUNK_SIZE - 1 {
                neighbor_chunk_idx = stepped(c_pos, 1, 0, 0);
                neighbor_voxel_pos = IVec3::new(0, y, z);
            } else if x < 0 {
                neighbor_chunk_idx = stepped(c_pos, -1, 0, 0);
                neighbor_voxel_pos = IVec3::new(31, y, z);
            }
            if y > CHUNK_SIZE - 1 {
                neighbor_chunk_idx = stepped(c_pos, 0, 1, 0);
                neighbor_voxel_pos = IVec3::new(x, 0, z);
            } else if y < 0 {
                neighbor_chunk_idx = stepped(c_pos, 0, -1, 0);
                neighbor_voxel_pos = IVec3::new(x, 31, z);
            }
            if z > CHUNK_SIZE - 1 {
                neighbor_chunk_idx = stepped(c_pos, 0, 0, 1);
                neighbor_voxel_pos = IVec3::new(x, y, 0);
            } else if z < 0 {
                neighbor_chunk_idx = stepped(c_pos, 0, 0, -1);
                neighbor_voxel_pos = IVec3::new(x, y, 31);
            }
            match neighbor_chunk_idx {
                Some(key) => Chunk::check_neighboring_chunk(key, neighbor_voxel_pos, world_chunks),
                None => true,
            }
        }
    }

    /// Whether the voxel at `voxel_pos` of the chunk held at `chunk_idx` is
    /// absent. Where no chunk is held there, it is.
    fn check_neighboring_chunk(chunk_idx: IVec3, voxel_pos: IVec3, world_chunks: &ChunkMap) -> (void:
        bool)
        requires
            world_chunks.wf(),
        ensures
            void == if world_chunks@.contains_key(chunk_idx) {
                cell_void(world_chunks@[chunk_idx], voxel_pos)
            } else {
                true
            },
    {
        match world_chunks.get(chunk_idx) {
            Some(chunk) => chunk.voxel_absent(voxel_pos),
            None => true,
        }
    }
}

/// The voxel of a generated chunk at the cell `(x, y, z)` is solid exactly
/// where the cell's world height lies below the terrain height of its column.
pub proof fn lemma_generated_cell(chunk_y: int, heights: Seq<i64>, x: int, y: int, z: int)
    requires
        heights.len() == 1024,
        in_chunk(x, y, z),
    ensures
        generated_voxels(chunk_y, heights)[voxel_index(x, y, z)] == (32 * chunk_y + y
            < heights[column_index(x, z)]),
{
    let i = voxel_index(x, y, z);
    assert(cell_x(i) == x && cell_y(i) == y && cell_z(i) == z);
}

/// In a table of column heights, a column whose terrain reaches the top of
/// the chunk or higher is solid throughout, and one whose terrain stays at
/// or below the chunk's floor is empty throughout.
pub proof fn lemma_column_clamp(chunk_y: int, heights: Seq<i64>, x: int, y: int, z: int)
    requires
        heights.len() == 1024,
        in_chunk(x, y, z),
    ensures
        local_height(heights[column_index(x, z)] as int, chunk_y) <= 32,
        heights[column_index(x, z)] >= 32 * chunk_y + 32 ==> generated_voxels(
            chunk_y,
            heights,
        )[voxel_index(x, y, z)],
        heights[column_index(x, z)] <= 32 * chunk_y ==> !generated_voxels(
            chunk_y,
            heights,
        )[voxel_index(x, y, z)],
{
    lemma_generated_cell(chunk_y, heights, x, y, z);
}

/// In a generated chunk, a column over which the sampler gives the height
/// of the chunk's top or more is solid throughout, and one over which it
/// gives the height of the chunk's floor or less is empty throughout.
pub proof fn lemma_height_clamp<F: Fn(i64, i64) -> i64>(
    sampler: &F,
    chunk: &Chunk,
    x: int,
    y: int,
    z: int,
)
    requires
        chunk.generated_by(sampler),
        in_chunk(x, y, z),
    ensures
        chunk@.len() == 32768,
        (forall|h: i64| #[trigger]
            may_sample(sampler, chunk.spec_position(), x, z, h) ==> h >= 32
                * chunk.spec_position().y + 32) ==> chunk@[voxel_index(x, y, z)],
        (forall|h: i64| #[trigger]
            may_sample(sampler, chunk.spec_position(), x, z, h) ==> h <= 32
                * chunk.spec_position().y) ==> !chunk@[voxel_index(x, y, z)],
{
    let pos = chunk.spec_position();
    let heights = choose|h: Seq<i64>|
        sampled_from(sampler, pos, h) && chunk@ == generated_voxels(pos.y as int, h);
    assert(may_sample(sampler, pos, x, z, heights[column_index(x, z)]));
    lemma_column_clamp(pos.y as int, heights, x, y, z);
}

/// Two chunks at the same position that were generated from the same
/// deterministic sampler hold the same voxels.
pub proof fn lemma_generation_deterministic<F: Fn(i64, i64) -> i64>(
    sampler: &F,
    a: Chunk,
    b: Chunk,
)
    requires
        deterministic(sampler),
        a.spec_position() == b.spec_position(),
        a.generated_by(sampler),
        b.generated_by(sampler),
    ensures
        a@ == b@,
{
    let pos = a.spec_position();
    let ha = choose|h: Seq<i64>|
        sampled_from(sampler, pos, h) && a@ == generated_voxels(pos.y as int, h);
    let hb = choose|h: Seq<i64>|
        sampled_from(sampler, pos, h) && b@ == generated_voxels(pos.y as int, h);
    assert forall|i: int| 0 <= i < 1024 implies ha[i] == hb[i] by {
        let x = i % 32;
        let z = i / 32;
        assert(column_index(x, z) == i);
    }
    assert(ha =~= hb);
}

/// A sparse collection of chunks, each held under its own position.
#[derive(Debug)]
pub struct ChunkMap {
    chunks: Vec<Chunk>,
}

impl View for ChunkMap {
    type V = Map<IVec3, Seq<bool>>;

    /// The voxels of each chunk, by the chunk's position.
    closed spec fn view(&self) -> Map<IVec3, Seq<bool>> {
        Map::new(
            |p: IVec3| self.holds(p),
            |p: IVec3| self.chunks@[self.slot_of(p)]@,
        )
    }
}

impl ChunkMap {
    /// The chunks in the order in which they are held.
    pub closed spec fn entries(&self) -> Seq<Chunk> {
        self.chunks@
    }

    /// Whether a chunk is held at `p`.
    spec fn holds(&self, p: IVec3) -> bool {
        exists|i: int| 0 <= i < self.chunks@.len() && (#[trigger] self.chunks@[i]).position == p
    }

    /// The place among the entries of the chunk held at `p`.
    pub closed spec fn slot_of(&self, p: IVec3) -> int {
        choose|i: int| 0 <= i < self.chunks@.len() && (#[trigger] self.chunks@[i]).position == p
    }

    /// No two chunks are held at the same position.
    pub closed spec fn wf(&self) -> bool {
        forall|i: int, j: int|
            0 <= i < j < self.chunks@.len() ==> (#[trigger] self.chunks@[i]).position != (
            #[trigger] self.chunks@[j]).position
    }

    /// How the entries relate to the view: each entry is the chunk that the
    /// view holds at the entry's position, and the view holds nothing else.
    pub proof fn lemma_entries(&self)
        requires
            self.wf(),
        ensures
            forall|i: int|
                0 <= i < self.entries().len() ==> self@.contains_key(
                    (#[trigger] self.entries()[i]).spec_position(),
                ) && self@[self.entries()[i].spec_position()] == self.entries()[i]@,
            forall|i: int, j: int|
                0 <= i < j < self.entries().len() ==> (#[trigger] self.entries()[i]).spec_position()
                    != (#[trigger] self.entries()[j]).spec_position(),
            forall|p: IVec3|
                self@.contains_key(p) ==> exists|i: int|
                    0 <= i < self.entries().len() && (#[trigger] self.entries()[i]).spec_position()
                        == p,
    {
        assert forall|i: int| 0 <= i < self.entries().len() implies self@.contains_key(
            (#[trigger] self.entries()[i]).spec_position(),
        ) && self@[self.entries()[i].spec_position()] == self.entries()[i]@ by {
            let p = self.chunks@[i].position;
            assert(self.holds(p));
            let s = self.slot_of(p);
            assert(s == i) by {
                if s < i {
                    assert(self.chunks@[s].position != self.chunks@[i].position);
                } else if i < s {
                    assert(self.chunks@[i].position != self.chunks@[s].position);
                }
            }
        }
        assert forall|p: IVec3| self@.contains_key(p) implies exists|i: int|
            0 <= i < self.entries().len() && (#[trigger] self.entries()[i]).spec_position()
                == p by {
            let s = self.slot_of(p);
            assert(self.entries()[s].spec_position() == p);
        }
    }

    /// A collection that holds no chunk.
    pub fn new() -> (map: Self)
        ensures
            map.wf(),
            map@ == Map::<IVec3, Seq<bool>>::empty(),
            map.entries().len() == 0,
    {
        let map = Self { chunks: Vec::new() };
        proof {
            assert(map@ =~= Map::<IVec3, Seq<bool>>::empty());
        }
        map
    }

    /// The number of chunks held.
    pub fn len(&self) -> (n: usize)
        ensures
            n == self.entries().len(),
    {
        self.chunks.len()
    }

    /// The place among the entries of the chunk held at `key`, if there is
    /// one.
    fn find(&self, key: IVec3) -> (slot: Option<usize>)
        ensures
            match slot {
                Some(i) => i < self.chunks@.len() && self.chunks@[i as int].position == key,
                None => forall|i: int|
                    0 <= i < self.chunks@.len() ==> (#[trigger] self.chunks@[i]).position != key,
            },
    {
        let mut i: usize = 0;
        while i < self.chunks.len()
            invariant
                0 <= i <= self.chunks@.len(),
                forall|j: int| 0 <= j < i ==> (#[trigger] self.chunks@[j]).position != key,
            decreases self.chunks@.len() - i,
        {
            let p = self.chunks[i].position;
            if p.x == key.x && p.y == key.y && p.z == key.z {
                return Some(i);
            }
            i += 1;
        }
        None
    }

    /// The chunk held at `key`, if there is one.
    pub fn get(&self, key: IVec3) -> (found: Option<&Chunk>)
        requires
            self.wf(),
        ensures
            match found {
                Some(chunk) => self@.contains_key(key) && chunk.spec_position() == key && chunk@
                    == self@[key],
                None => !self@.contains_key(key),
            },
    {
        match self.find(key) {
            Some(i) => {
                proof {
                    self.lemma_entries();
                    assert(self.entries()[i as int].spec_position() == key);
                }
                Some(&self.chunks[i])
            },
            None => None,
        }
    }

    /// Whether this collection is `before` with `chunk` put in: under the
    /// chunk's position the view holds the chunk's voxels, and elsewhere what
    /// it held; among the entries the chunk stands in the place of the one
    /// that was held at its position, or last if there was none.
    pub open spec fn is_insertion(&self, before: &ChunkMap, chunk: &Chunk) -> bool {
        &&& self@ == before@.insert(chunk.spec_position(), chunk@)
        &&& before@.contains_key(chunk.spec_position()) ==> self.entries()
            == before.entries().update(before.slot_of(chunk.spec_position()), *chunk)
        &&& !before@.contains_key(chunk.spec_position()) ==> self.entries()
            == before.entries().push(*chunk)
    }

    /// Holds `chunk` under its position, in place of the chunk that was held
    /// there, if there was one.
    pub fn insert(&mut self, chunk: Chunk)
        requires
            old(self).wf(),
        ensures
            final(self).wf(),
            final(self).is_insertion(old(self), &chunk),
    {
        let key = chunk.position;
        let ghost before = *self;
        let ghost slot: int;
        proof {
            before.lemma_entries();
        }
        match self.find(key) {
            Some(i) => {
                proof {
                    assert(before.entries()[i as int].spec_position() == key);
                    assert(before.holds(key));
                    let s = before.slot_of(key);
                    assert(s == i) by {
                        if s < i {
                            assert(before.chunks@[s].position != before.chunks@[i as int].position);
                        } else if i < s {
                            assert(before.chunks@[i as int].position != before.chunks@[s].position);
                        }
                    }
                }
                self.chunks[i] = chunk;
                proof {
                    slot = i as int;
                }
            },
            None => {
                proof {
                    assert(!before.holds(key));
                }
                self.chunks.push(chunk);
                proof {
                    slot = before.chunks@.len() as int;
                }
            },
        }
        proof {
            assert(self.chunks@[slot].position == key);
            assert(self.holds(key));
            // The positions stay where they were, and the new chunk's stands
            // in its slot.
            assert forall|i: int, j: int| 0 <= i < j < self.chunks@.len() implies (
            #[trigger] self.chunks@[i]).position != (#[trigger] self.chunks@[j]).position by {
                if j < before.chunks@.len() {
                    assert(self.chunks@[i].position == before.chunks@[i].position);
                    assert(self.chunks@[j].position == before.chunks@[j].position);
                } else {
                    assert(self.chunks@[i].position == before.chunks@[i].position);
                }
            }
            self.lemma_entries();
            let goal = before@.insert(key, chunk@);
            assert forall|p: IVec3| self@.contains_key(p) <==> goal.contains_key(p) by {
                if self@.contains_key(p) {
                    let i = choose|i: int|
                        0 <= i < self.entries().len() && (#[trigger] self.entries()[i]).spec_position()
                            == p;
                    if p != key {
                        assert(before.chunks@[i].position == p);
                        assert(before.holds(p));
                    }
                }
                if goal.contains_key(p) {
                    if p != key {
                        assert(before.holds(p));
                        let i = before.slot_of(p);
                        assert(self.chunks@[i].position == p);
                        assert(self.holds(p));
                    } else {
                        assert(self.holds(p));
                    }
                }
            }
            assert forall|p: IVec3| self@.contains_key(p) implies self@[p] == goal[p] by {
                let i = choose|i: int|
                    0 <= i < self.entries().len() && (#[trigger] self.entries()[i]).spec_position()
                        == p;
                if p != key {
                    assert(before.chunks@[i].position == p);
                    assert(before.entries()[i].spec_position() == p);
                }
            }
            assert(self@ =~= goal);
        }
    }
}

/// The cell that touches, from the other side, the face `face` of the cell
/// `cell` on a chunk's boundary: the cell of the neighbouring chunk that
/// lies one step on in world space, in that chunk's own coordinates.
pub open spec fn across_face(cell: IVec3, face: int) -> IVec3 {
    let n = face_normal(face);
    IVec3 {
        x: (cell.x + n.x - 32 * n.x) as i32,
        y: (cell.y + n.y - 32 * n.y) as i32,
        z: (cell.z + n.z - 32 * n.z) as i32,
    }
}

/// A position one step outside a face of a chunk is void where the world
/// holds no chunk on the other side of that face, whatever the chunk itself
/// holds.
pub proof fn lemma_unloaded_neighbor_is_void(
    chunk: &Chunk,
    cell: IVec3,
    face: int,
    world: Map<IVec3, Seq<bool>>,
)
    requires
        in_chunk(cell.x as int, cell.y as int, cell.z as int),
        0 <= face < 6,
        !in_chunk(
            neighbor_position(cell, face).x as int,
            neighbor_position(cell, face).y as int,
            neighbor_position(cell, face).z as int,
        ),
        chunk_at(
            world,
            chunk.spec_position(),
            (face_normal(face).x as int, face_normal(face).y as int, face_normal(face).z as int),
        ) is None,
    ensures
        chunk.spec_is_void(neighbor_position(cell, face), world),
{
}

/// Two chunks that share a face agree on it: a query from one chunk for the
/// position one step outside the shared face is answered by the voxel of
/// the other chunk that touches the face there. So a solid voxel on the
/// boundary of the one is never void to the other, and the face that it
/// hides is left out of the other's mesh.
pub proof fn lemma_shared_face(
    a: &Chunk,
    b: &Chunk,
    cell: IVec3,
    face: int,
    world: Map<IVec3, Seq<bool>>,
)
    requires
        in_chunk(cell.x as int, cell.y as int, cell.z as int),
        0 <= face < 6,
        !in_chunk(
            neighbor_position(cell, face).x as int,
            neighbor_position(cell, face).y as int,
            neighbor_position(cell, face).z as int,
        ),
        a.spec_position().x == b.spec_position().x + face_normal(face).x,
        a.spec_position().y == b.spec_position().y + face_normal(face).y,
        a.spec_position().z == b.spec_position().z + face_normal(face).z,
        world.contains_key(a.spec_position()),
        world[a.spec_position()] == a@,
    ensures
        b.spec_is_void(neighbor_position(cell, face), world) == cell_void(
            a@,
            across_face(cell, face),
        ),
        in_chunk(
            across_face(cell, face).x as int,
            across_face(cell, face).y as int,
            across_face(cell, face).z as int,
        ),
        a@.len() == 32768 && a@[voxel_index(
            across_face(cell, face).x as int,
            across_face(cell, face).y as int,
            across_face(cell, face).z as int,
        )] ==> !b.spec_is_void(neighbor_position(cell, face), world),
        neighbor_voids(b, cell, world)[face] == cell_void(a@, across_face(cell, face)),
{
    let key = IVec3 {
        x: (b.spec_position().x + face_normal(face).x) as i32,
        y: (b.spec_position().y + face_normal(face).y) as i32,
        z: (b.spec_position().z + face_normal(face).z) as i32,
    };
    assert(key == a.spec_position());
}

/// The cell that a walk through a chunk visits at step `n`: `x` changes
/// slowest, then `y`, and `z` fastest.
pub open spec fn visit_cell(n: int) -> IVec3 {
    IVec3 { x: (n / 1024) as i32, y: ((n / 32) % 32) as i32, z: (n % 32) as i32 }
}

/// The vertices of a chunk's mesh after the first `n` cells of the walk: of
/// each solid voxel among them the faces that can be seen in `world`.
pub open spec fn chunk_vertices(chunk: &Chunk, world: Map<IVec3, Seq<bool>>, n: int) -> Seq<
    ModelVertex,
>
    decreases n,
{
    if n <= 0 {
        Seq::empty()
    } else if cell_void(chunk@, visit_cell(n - 1)) {
        chunk_vertices(chunk, world, n - 1)
    } else {
        chunk_vertices(chunk, world, n - 1) + voxel_vertices(
            neighbor_voids(chunk, visit_cell(n - 1), world),
            world_position(chunk.spec_position(), visit_cell(n - 1)),
            6,
        )
    }
}

/// The indices of a chunk's mesh after the first `n` cells of the walk. The
/// vertices of each voxel are numbered on from those of the voxels before
/// it.
pub open spec fn chunk_indices(chunk: &Chunk, world: Map<IVec3, Seq<bool>>, n: int) -> Seq<u32>
    decreases n,
{
    if n <= 0 {
        Seq::empty()
    } else if cell_void(chunk@, visit_cell(n - 1)) {
        chunk_indices(chunk, world, n - 1)
    } else {
        chunk_indices(chunk, world, n - 1) + voxel_indices(
            neighbor_voids(chunk, visit_cell(n - 1), world),
            chunk_vertices(chunk, world, n - 1).len() as int,
            6,
        )
    }
}

/// Whether `mesh` is the mesh of `chunk` in `world`: the visible faces of
/// all its solid voxels, drawn with the one material of the world.
pub open spec fn is_chunk_mesh(mesh: &Mesh, chunk: &Chunk, world: Map<IVec3, Seq<bool>>) -> bool {
    &&& mesh.vertices@ == chunk_vertices(chunk, world, 32768)
    &&& mesh.indices@ == chunk_indices(chunk, world, 32768)
    &&& mesh.num_elements == mesh.indices@.len()
    &&& mesh.material == 0
}

/// The walk through a chunk visits the cell `(x, y, z)` at step
/// `1024 * x + 32 * y + z`.
pub proof fn lemma_visit_cell(x: int, y: int, z: int)
    requires
        in_chunk(x, y, z),
    ensures
        visit_cell(1024 * x + 32 * y + z) == (IVec3 { x: x as i32, y: y as i32, z: z as i32 }),
{
}

/// A chunk's mesh holds at most 24 vertices and 36 indices for each cell.
pub proof fn lemma_chunk_mesh_lengths(chunk: &Chunk, world: Map<IVec3, Seq<bool>>, n: int)
    requires
        0 <= n,
    ensures
        chunk_vertices(chunk, world, n).len() <= 24 * n,
        chunk_indices(chunk, world, n).len() <= 36 * n,
    decreases n,
{
    if n > 0 {
        lemma_chunk_mesh_lengths(chunk, world, n - 1);
        lemma_voxel_mesh_lengths(
            neighbor_voids(chunk, visit_cell(n - 1), world),
            world_position(chunk.spec_position(), visit_cell(n - 1)),
            chunk_vertices(chunk, world, n - 1).len() as int,
            6,
        );
    }
}

/// Every index of a chunk's mesh points at a vertex of that mesh.
pub proof fn lemma_chunk_indices_in_range(
    chunk: &Chunk,
    world: Map<IVec3, Seq<bool>>,
    n: int,
    i: int,
)
    requires
        0 <= n <= 32768,
        0 <= i < chunk_indices(chunk, world, n).len(),
    ensures
        chunk_indices(chunk, world, n)[i] < chunk_vertices(chunk, world, n).len(),
    decreases n,
{
    if n > 0 && !cell_void(chunk@, visit_cell(n - 1)) {
        let voids = neighbor_voids(chunk, visit_cell(n - 1), world);
        let pos = world_position(chunk.spec_position(), visit_cell(n - 1));
        let before = chunk_indices(chunk, world, n - 1);
        let start = chunk_vertices(chunk, world, n - 1).len() as int;
        lemma_chunk_mesh_lengths(chunk, world, n - 1);
        lemma_voxel_mesh_lengths(voids, pos, start, 6);
        if i < before.len() {
            lemma_chunk_indices_in_range(chunk, world, n - 1, i);
        } else {
            lemma_voxel_indices_in_range(voids, start, 6, i - before.len());
        }
    } else if n > 0 {
        lemma_chunk_indices_in_range(chunk, world, n - 1, i);
    }
}

/// The world: its chunks, and the model that was last built from them.
pub struct ChunkModel {
    /// The model built from the chunks: one mesh for each chunk.
    pub model: Vec<Model>,
    /// The chunks of the world.
    pub chunks: ChunkMap,
}

impl ChunkModel {
    /// No two chunks of the world are held at the same position.
    pub open spec fn wf(&self) -> bool {
        self.chunks.wf()
    }

    /// A world without chunks and without a model.
    pub fn new() -> (world: Self)
        ensures
            world.wf(),
            world.model@.len() == 0,
            world.chunks@ == Map::<IVec3, Seq<bool>>::empty(),
            world.chunks.entries().len() == 0,
    {
        Self { model: Vec::new(), chunks: ChunkMap::new() }
    }

    /// Adds to a chunk's mesh the faces of the voxel at `local_pos` that can
    /// be seen, if the voxel is solid.
    fn build_voxel(
        chunk: &Chunk,
        local_pos: IVec3,
        world_chunks: &ChunkMap,
        vertices: &mut Vec<ModelVertex>,
        indices: &mut Vec<u32>,
    )
        requires
            world_chunks.wf(),
            in_chunk(local_pos.x as int, local_pos.y as int, local_pos.z as int),
            old(vertices)@.len() <= 24 * 32768,
        ensures
            cell_void(chunk@, local_pos) ==> final(vertices)@ == old(vertices)@ && final(indices)@
                == old(indices)@,
            !cell_void(chunk@, local_pos) ==> final(vertices)@ == old(vertices)@ + voxel_vertices(
                neighbor_voids(chunk, local_pos, world_chunks@),
                world_position(chunk.spec_position(), local_pos),
                6,
            ) && final(indices)@ == old(indices)@ + voxel_indices(
                neighbor_voids(chunk, local_pos, world_chunks@),
                old(vertices)@.len() as int,
                6,
            ),
    {
        if !chunk.void_at(index_of(local_pos.x, local_pos.y, local_pos.z)) {
            let world_pos = cell_world_position(chunk.position, local_pos);
            proof {
                lemma_voxel_mesh_lengths(
                    neighbor_voids(chunk, local_pos, world_chunks@),
                    world_pos,
                    vertices@.len() as int,
                    6,
                );
            }
            let (mut m_vert, mut m_idx) = create_chunk_mesh_data(
                chunk,
                local_pos,
                world_pos,
                vertices.len() as u32,
                world_chunks,
            );
            vertices.append(&mut m_vert);
            indices.append(&mut m_idx);
        }
    }

    /// Builds the mesh of one chunk of the world.
    fn build_chunk(chunk: &Chunk, world_chunks: &ChunkMap) -> (mesh: Mesh)
        requires
            world_chunks.wf(),
        ensures
            is_chunk_mesh(&mesh, chunk, world_chunks@),
    {
        let chunk_pos = chunk.position;
        let mut vertices: Vec<ModelVertex> = Vec::new();
        let mut indices: Vec<u32> = Vec::new();
        let mut x: i32 = 0;
        while x < CHUNK_SIZE
            invariant
                0 <= x <= 32,
                world_chunks.wf(),
                chunk_pos == chunk.spec_position(),
                vertices@ == chunk_vertices(chunk, world_chunks@, 1024 * x),
                indices@ == chunk_indices(chunk, world_chunks@, 1024 * x),
            decreases 32 - x,
        {
            let mut y: i32 = 0;
            while y < CHUNK_SIZE
                invariant
                    0 <= x < 32,
                    0 <= y <= 32,
                    world_chunks.wf(),
                    chunk_pos == chunk.spec_position(),
                    vertices@ == chunk_vertices(chunk, world_chunks@, 1024 * x + 32 * y),
                    indices@ == chunk_indices(chunk, world_chunks@, 1024 * x + 32 * y),
                decreases 32 - y,
            {
                let mut z: i32 = 0;
                while z < CHUNK_SIZE
                    invariant
                        0 <= x < 32,
                        0 <= y < 32,
                        0 <= z <= 32,
                        world_chunks.wf(),
                        chunk_pos == chunk.spec_position(),
                        vertices@ == chunk_vertices(
                            chunk,
                            world_chunks@,
                            1024 * x + 32 * y + z,
                        ),
                        indices@ == chunk_indices(chunk, world_chunks@, 1024 * x + 32 * y + z),
                    decreases 32 - z,
                {
                    let ghost n = 1024 * x + 32 * y + z;
                    let local_pos = IVec3::new(x, y, z);
                    proof {
                        lemma_visit_cell(x as int, y as int, z as int);
                        lemma_chunk_mesh_lengths(chunk, world_chunks@, n);
                    }
                    ChunkModel::build_voxel(
                        chunk,
                        local_pos,
                        world_chunks,
                        &mut vertices,
                        &mut indices,
                    );
                    z += 1;
                }
                y += 1;
            }
            x += 1;
        }
        proof {
            lemma_chunk_mesh_lengths(chunk, world_chunks@, 32768);
        }
        let num_elements = indices.len() as u32;
        Mesh { vertices, indices, num_elements, material: 0 }
    }

    /// Builds the model of the world anew: one mesh for each chunk, in the
    /// order in which the chunks are held, each with the faces of the
    /// chunk's solid voxels that can be seen.
    pub fn build(&mut self)
        requires
            old(self).wf(),
        ensures
            final(self).chunks == old(self).chunks,
            final(self).model@.len() == 1,
            final(self).model@[0].meshes@.len() == final(self).chunks.entries().len(),
            forall|i: int|
                0 <= i < final(self).chunks.entries().len() ==> is_chunk_mesh(
                    #[trigger] &final(self).model@[0].meshes@[i],
                    &final(self).chunks.entries()[i],
                    final(self).chunks@,
                ),
    {
        let mut meshes: Vec<Mesh> = Vec::new();
        let mut i: usize = 0;
        while i < self.chunks.chunks.len()
            invariant
                0 <= i <= self.chunks.chunks@.len(),
                self.chunks.wf(),
                *self == *old(self),
                meshes@.len() == i,
                forall|j: int|
                    0 <= j < i ==> is_chunk_mesh(
                        #[trigger] &meshes@[j],
                        &self.chunks.chunks@[j],
                        self.chunks@,
                    ),
            decreases self.chunks.chunks@.len() - i,
        {
            let mesh = ChunkModel::build_chunk(&self.chunks.chunks[i], &self.chunks);
            meshes.push(mesh);
            i += 1;
        }
        self.model.clear();
        self.model.push(Model { meshes });
    }

    /// Adds the chunk at `chunk_pos` to the world, generated from the
    /// terrain. It takes the place of a chunk that was held there.
    pub fn add_chunk<F: Fn(i64, i64) -> i64>(&mut self, chunk_pos: IVec3, sampler: &F)
        requires
            old(self).wf(),
            samples_columns(sampler, chunk_pos),
        ensures
            final(self).wf(),
            final(self).model == old(self).model,
            exists|chunk: Chunk|
                #![trigger chunk.generated_by(sampler)]
                chunk.spec_position() == chunk_pos && chunk.generated_by(sampler)
                    && final(self).chunks.is_insertion(&old(self).chunks, &chunk),
    {
        let mut chunk = Chunk::new(chunk_pos);
        chunk.generate(sampler);
        self.chunks.insert(chunk);
    }
}

} // verus!
