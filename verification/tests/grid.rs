use aravoxel::voxel::grid::{
    cell_world_position, index_of, I64Vec3, IVec3, CHUNK_AREA, CHUNK_SIZE, CHUNK_VOL,
};

#[test]
fn constants_describe_a_cube_of_32() {
    assert_eq!(CHUNK_SIZE, 32);
    assert_eq!(CHUNK_AREA, 1024);
    assert_eq!(CHUNK_VOL, 32768);
}

#[test]
fn index_follows_the_formula() {
    assert_eq!(index_of(0, 0, 0), 0);
    assert_eq!(index_of(1, 0, 0), 1);
    assert_eq!(index_of(0, 0, 1), 32);
    assert_eq!(index_of(0, 1, 0), 1024);
    assert_eq!(index_of(3, 5, 7), 3 + 32 * 7 + 1024 * 5);
    assert_eq!(index_of(31, 31, 31), 32767);
}

#[test]
fn index_is_unique_and_in_range() {
    let mut seen = vec![false; 32768];
    for x in 0..32 {
        for y in 0..32 {
            for z in 0..32 {
                let idx = index_of(x, y, z);
                assert!(idx < 32768);
                assert!(!seen[idx]);
                seen[idx] = true;
            }
        }
    }
    assert!(seen.iter().all(|s| *s));
}

#[test]
fn world_position_offsets_by_chunk() {
    let w = cell_world_position(IVec3::new(0, 0, 0), IVec3::new(3, 4, 5));
    assert_eq!(w, I64Vec3::new(3, 4, 5));
    let w = cell_world_position(IVec3::new(2, -1, 1), IVec3::new(3, 4, 5));
    assert_eq!(w, I64Vec3::new(67, -28, 37));
    let w = cell_world_position(IVec3::new(i32::MAX, i32::MIN, 0), IVec3::new(31, 0, 0));
    assert_eq!(w, I64Vec3::new(31 + 32 * (i32::MAX as i64), 32 * (i32::MIN as i64), 0));
}
