use aravoxel::voxel::chunk::{sample_heights, Chunk, ChunkMap, ChunkModel};
use aravoxel::voxel::grid::{I64Vec3, IVec3};

fn generated(position: IVec3, sampler: &impl Fn(i64, i64) -> i64) -> Chunk {
    let mut chunk = Chunk::new(position);
    chunk.generate(sampler);
    chunk
}

fn hills(wx: i64, wz: i64) -> i64 {
    (wx * 7 + wz * 3).rem_euclid(40) - 4
}

#[test]
fn new_chunk_holds_no_voxels() {
    let chunk = Chunk::new(IVec3::new(1, 2, 3));
    let world = ChunkMap::new();
    assert_eq!(chunk.position(), IVec3::new(1, 2, 3));
    assert!(chunk.is_void(IVec3::new(0, 0, 0), &world));
    assert!(chunk.is_void(IVec3::new(31, 31, 31), &world));
}

#[test]
fn generate_fills_each_column_up_to_its_height() {
    let chunk = generated(IVec3::new(0, 0, 0), &hills);
    let world = ChunkMap::new();
    for x in 0..32 {
        for z in 0..32 {
            let h = hills(x as i64, z as i64);
            for y in 0..32 {
                assert_eq!(chunk.is_void(IVec3::new(x, y, z), &world), !((y as i64) < h));
            }
        }
    }
}

#[test]
fn generate_samples_world_coordinates() {
    let position = IVec3::new(-2, 1, 3);
    let chunk = generated(position, &hills);
    let world = ChunkMap::new();
    for x in 0..32 {
        for z in 0..32 {
            let h = hills(x as i64 - 64, z as i64 + 96);
            for y in 0..32 {
                assert_eq!(chunk.is_void(IVec3::new(x, y, z), &world), !((y as i64 + 32) < h));
            }
        }
    }
    assert_eq!(chunk.position(), position);
}

#[test]
fn sample_heights_orders_columns_by_x_then_z() {
    let heights = sample_heights(IVec3::new(1, 0, -1), &|wx, wz| wx * 1000 + wz);
    assert_eq!(heights.len(), 1024);
    assert_eq!(heights[0], 32 * 1000 - 32);
    assert_eq!(heights[1], 33 * 1000 - 32);
    assert_eq!(heights[32], 32 * 1000 - 31);
    assert_eq!(heights[5 + 32 * 9], 37 * 1000 - 23);
}

#[test]
fn fill_takes_the_heights_from_a_table() {
    let mut heights = vec![0i64; 1024];
    heights[3 + 32 * 4] = 2;
    heights[31 + 32 * 31] = i64::MAX;
    heights[0] = i64::MIN;
    let mut chunk = Chunk::new(IVec3::new(0, 0, 0));
    chunk.fill(&heights);
    let world = ChunkMap::new();
    assert!(!chunk.is_void(IVec3::new(3, 0, 4), &world));
    assert!(!chunk.is_void(IVec3::new(3, 1, 4), &world));
    assert!(chunk.is_void(IVec3::new(3, 2, 4), &world));
    assert!(chunk.is_void(IVec3::new(4, 0, 3), &world));
    assert!(!chunk.is_void(IVec3::new(31, 31, 31), &world));
    assert!(chunk.is_void(IVec3::new(0, 0, 0), &world));
}

#[test]
fn generation_is_deterministic() {
    let a = generated(IVec3::new(3, 0, -5), &hills);
    let b = generated(IVec3::new(3, 0, -5), &hills);
    let world = ChunkMap::new();
    for x in 0..32 {
        for y in 0..32 {
            for z in 0..32 {
                let p = IVec3::new(x, y, z);
                assert_eq!(a.is_void(p, &world), b.is_void(p, &world));
            }
        }
    }
}

#[test]
fn generating_again_overwrites() {
    let mut chunk = generated(IVec3::new(0, 0, 0), &|_, _| 32);
    let world = ChunkMap::new();
    assert!(!chunk.is_void(IVec3::new(1, 20, 1), &world));
    chunk.generate(&|_, _| 8);
    assert!(chunk.is_void(IVec3::new(1, 20, 1), &world));
    assert!(!chunk.is_void(IVec3::new(1, 7, 1), &world));
}

#[test]
fn heights_above_the_chunk_fill_it() {
    let world = ChunkMap::new();
    for (chunk_y, height) in [(0, 33i64), (0, 32), (0, 1000), (2, 97), (-1, 1), (-3, i64::MAX)] {
        let chunk = generated(IVec3::new(0, chunk_y, 0), &|_, _| height);
        for x in 0..32 {
            for y in 0..32 {
                for z in 0..32 {
                    assert!(!chunk.is_void(IVec3::new(x, y, z), &world));
                }
            }
        }
    }
}

#[test]
fn heights_at_or_below_the_floor_leave_it_empty() {
    let world = ChunkMap::new();
    for (chunk_y, height) in [(0, 0i64), (0, -5), (1, 32), (1, 16), (-1, -32), (4, i64::MIN)] {
        let chunk = generated(IVec3::new(0, chunk_y, 0), &|_, _| height);
        for x in 0..32 {
            for y in 0..32 {
                for z in 0..32 {
                    assert!(chunk.is_void(IVec3::new(x, y, z), &world));
                }
            }
        }
    }
}

#[test]
fn height_inside_the_chunk_is_local() {
    let world = ChunkMap::new();
    let chunk = generated(IVec3::new(0, 1, 0), &|_, _| 33);
    assert!(!chunk.is_void(IVec3::new(4, 0, 4), &world));
    assert!(chunk.is_void(IVec3::new(4, 1, 4), &world));
}

#[test]
fn boundary_without_neighbour_is_void() {
    let full = generated(IVec3::new(0, 0, 0), &|_, _| 64);
    let empty = generated(IVec3::new(0, 0, 0), &|_, _| 0);
    let mut world = ChunkMap::new();
    world.insert(generated(IVec3::new(0, 0, 0), &|_, _| 64));
    for chunk in [&full, &empty] {
        for a in 0..32 {
            for b in 0..32 {
                assert!(chunk.is_void(IVec3::new(32, a, b), &world));
                assert!(chunk.is_void(IVec3::new(-1, a, b), &world));
                assert!(chunk.is_void(IVec3::new(a, 32, b), &world));
                assert!(chunk.is_void(IVec3::new(a, -1, b), &world));
                assert!(chunk.is_void(IVec3::new(a, b, 32), &world));
                assert!(chunk.is_void(IVec3::new(a, b, -1), &world));
            }
        }
    }
}

#[test]
fn boundary_at_the_end_of_chunk_space_is_void() {
    let chunk = generated(IVec3::new(i32::MAX, i32::MIN, i32::MAX), &|_, _| i64::MAX);
    let mut world = ChunkMap::new();
    world.insert(generated(IVec3::new(i32::MIN, i32::MIN, i32::MAX), &|_, _| i64::MAX));
    assert!(!chunk.is_void(IVec3::new(31, 0, 31), &world));
    assert!(chunk.is_void(IVec3::new(32, 0, 31), &world));
    assert!(chunk.is_void(IVec3::new(31, -1, 31), &world));
    assert!(chunk.is_void(IVec3::new(31, 0, 32), &world));
}

#[test]
fn neighbours_agree_on_a_shared_face() {
    let sampler = |wx: i64, wz: i64| (wx + 2 * wz).rem_euclid(64);
    let steps = [
        IVec3::new(1, 0, 0),
        IVec3::new(-1, 0, 0),
        IVec3::new(0, 1, 0),
        IVec3::new(0, -1, 0),
        IVec3::new(0, 0, 1),
        IVec3::new(0, 0, -1),
    ];
    for step in steps {
        let b = generated(IVec3::new(0, 0, 0), &sampler);
        let a = generated(step, &sampler);
        let mut world = ChunkMap::new();
        world.insert(generated(IVec3::new(0, 0, 0), &sampler));
        world.insert(generated(step, &sampler));
        for u in 0..32 {
            for v in 0..32 {
                let (inside_a, outside_b) = if step.x != 0 {
                    let near = if step.x > 0 { 0 } else { 31 };
                    (IVec3::new(near, u, v), IVec3::new(if step.x > 0 { 32 } else { -1 }, u, v))
                } else if step.y != 0 {
                    let near = if step.y > 0 { 0 } else { 31 };
                    (IVec3::new(u, near, v), IVec3::new(u, if step.y > 0 { 32 } else { -1 }, v))
                } else {
                    let near = if step.z > 0 { 0 } else { 31 };
                    (IVec3::new(u, v, near), IVec3::new(u, v, if step.z > 0 { 32 } else { -1 }))
                };
                assert_eq!(b.is_void(outside_b, &world), a.is_void(inside_a, &world));
            }
        }
    }
}

#[test]
fn solid_boundary_voxel_is_seen_from_the_neighbour() {
    let a = generated(IVec3::new(1, 0, 0), &|wx, _| if wx == 32 { 4 } else { 0 });
    let b = generated(IVec3::new(0, 0, 0), &|_, _| 0);
    let mut world = ChunkMap::new();
    world.insert(a);
    assert!(!b.is_void(IVec3::new(32, 0, 9), &world));
    assert!(!b.is_void(IVec3::new(32, 3, 9), &world));
    assert!(b.is_void(IVec3::new(32, 4, 9), &world));
}

#[test]
fn position_past_an_edge_follows_the_last_axis() {
    let chunk = generated(IVec3::new(0, 0, 0), &|_, _| 0);
    let mut world = ChunkMap::new();
    world.insert(generated(IVec3::new(0, 0, 1), &|_, _| 64));
    world.insert(generated(IVec3::new(1, 0, 0), &|_, _| 0));
    assert!(!chunk.is_void(IVec3::new(5, 5, 32), &world));
    assert!(!chunk.is_void(IVec3::new(5, 5, 40), &world));
    assert!(!chunk.is_void(IVec3::new(32, 5, 32), &world));
    assert!(chunk.is_void(IVec3::new(32, 5, 5), &world));
}

#[test]
fn map_holds_one_chunk_for_each_position() {
    let mut world = ChunkMap::new();
    assert_eq!(world.len(), 0);
    assert!(world.get(IVec3::new(0, 0, 0)).is_none());
    world.insert(generated(IVec3::new(0, 0, 0), &|_, _| 1));
    world.insert(generated(IVec3::new(0, 1, 0), &|_, _| 64));
    assert_eq!(world.len(), 2);
    assert_eq!(world.get(IVec3::new(0, 1, 0)).map(|c| c.position()), Some(IVec3::new(0, 1, 0)));
    assert!(world.get(IVec3::new(1, 0, 0)).is_none());
    let empty = ChunkMap::new();
    let held = world.get(IVec3::new(0, 0, 0)).unwrap();
    assert!(!held.is_void(IVec3::new(0, 0, 0), &empty));
    assert!(held.is_void(IVec3::new(0, 1, 0), &empty));
    assert!(!held.is_void(IVec3::new(0, 32, 0), &world));
    world.insert(generated(IVec3::new(0, 0, 0), &|_, _| 2));
    assert_eq!(world.len(), 2);
    let held = world.get(IVec3::new(0, 0, 0)).unwrap();
    assert!(!held.is_void(IVec3::new(0, 1, 0), &empty));
}

#[test]
fn new_world_is_empty() {
    let world = ChunkModel::new();
    assert_eq!(world.model.len(), 0);
    assert_eq!(world.chunks.len(), 0);
}

#[test]
fn add_chunk_overwrites_silently() {
    let mut world = ChunkModel::new();
    world.add_chunk(IVec3::new(0, 0, 0), &|_, _| 4);
    world.add_chunk(IVec3::new(0, 0, 0), &|_, _| 9);
    assert_eq!(world.chunks.len(), 1);
    assert_eq!(world.model.len(), 0);
    let chunk = world.chunks.get(IVec3::new(0, 0, 0)).unwrap();
    assert!(!chunk.is_void(IVec3::new(0, 8, 0), &world.chunks));
    assert!(chunk.is_void(IVec3::new(0, 9, 0), &world.chunks));
}

#[test]
fn build_of_an_empty_world_gives_a_model_without_meshes() {
    let mut world = ChunkModel::new();
    world.build();
    assert_eq!(world.model.len(), 1);
    assert_eq!(world.model[0].meshes.len(), 0);
}

#[test]
fn flat_world_end_to_end() {
    let mut world = ChunkModel::new();
    world.add_chunk(IVec3::new(0, 0, 0), &|_, _| 16);
    let chunk = world.chunks.get(IVec3::new(0, 0, 0)).unwrap();
    for x in 0..32 {
        for z in 0..32 {
            for y in 0..16 {
                assert!(!chunk.is_void(IVec3::new(x, y, z), &world.chunks));
            }
            for y in 16..32 {
                assert!(chunk.is_void(IVec3::new(x, y, z), &world.chunks));
            }
        }
    }
    world.build();
    assert_eq!(world.model.len(), 1);
    assert_eq!(world.model[0].meshes.len(), 1);
    let mesh = &world.model[0].meshes[0];
    let faces = 2 * 32 * 32 + 4 * 32 * 16;
    assert_eq!(mesh.vertices.len(), 4 * faces);
    assert_eq!(mesh.indices.len(), 6 * faces);
    assert_eq!(mesh.num_elements as usize, 6 * faces);
    assert_eq!(mesh.material, 0);
    let up = IVec3::new(0, 1, 0);
    let top_quads = mesh.vertices.chunks(4).filter(|q| q[0].normal == up).count();
    assert_eq!(top_quads, 32 * 32);
    for quad in mesh.vertices.chunks(4) {
        if quad[0].normal == up {
            assert!(quad.iter().all(|v| v.normal == up && v.position.y == 31));
        }
        if quad[0].normal == IVec3::new(0, -1, 0) {
            assert!(quad.iter().all(|v| v.position.y == -1));
        }
    }
    for x in 0..32i64 {
        for z in 0..32i64 {
            let corner = I64Vec3::new(2 * x - 1, 31, 2 * z - 1);
            assert!(mesh.vertices.iter().any(|v| v.normal == up && v.position == corner));
        }
    }
    for (i, index) in mesh.indices.iter().enumerate() {
        let quad = (i / 6) as u32;
        assert!(4 * quad <= *index && *index < 4 * quad + 4);
    }
    let first = &mesh.vertices[0..4];
    assert!(first.iter().all(|v| v.normal == IVec3::new(0, -1, 0)));
    assert_eq!(first[0].position, I64Vec3::new(-1, -1, -1));
    assert_eq!(&mesh.indices[0..6], &[0, 1, 3, 1, 2, 3]);
}

#[test]
fn build_replaces_the_model_and_meshes_every_chunk() {
    let mut world = ChunkModel::new();
    world.add_chunk(IVec3::new(0, 0, 0), &|_, _| 32);
    world.add_chunk(IVec3::new(1, 0, 0), &|_, _| 32);
    world.build();
    world.build();
    assert_eq!(world.model.len(), 1);
    assert_eq!(world.model[0].meshes.len(), 2);
    let faces = 2 * 32 * 32 + 3 * 32 * 32;
    for mesh in &world.model[0].meshes {
        assert_eq!(mesh.vertices.len(), 4 * faces);
        assert_eq!(mesh.num_elements as usize, 6 * faces);
    }
    let east = IVec3::new(1, 0, 0);
    let west = IVec3::new(-1, 0, 0);
    assert!(world.model[0].meshes[0].vertices.iter().all(|v| v.normal != east));
    assert!(world.model[0].meshes[1].vertices.iter().all(|v| v.normal != west));
    assert!(world.model[0].meshes[1].vertices.iter().all(|v| v.position.x >= 63));
}

#[test]
fn every_index_points_at_a_vertex_of_its_mesh() {
    let mut world = ChunkModel::new();
    world.add_chunk(IVec3::new(0, 0, 0), &hills);
    world.add_chunk(IVec3::new(0, 0, 1), &hills);
    world.add_chunk(IVec3::new(-1, 0, 0), &hills);
    world.build();
    assert_eq!(world.model[0].meshes.len(), 3);
    for mesh in &world.model[0].meshes {
        assert_eq!(mesh.vertices.len() % 4, 0);
        assert_eq!(mesh.indices.len() / 6, mesh.vertices.len() / 4);
        assert_eq!(mesh.num_elements as usize, mesh.indices.len());
        assert!(mesh.indices.iter().all(|i| (*i as usize) < mesh.vertices.len()));
    }
}
