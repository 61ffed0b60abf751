use voxel_visibility::chunk::{pack_chunk, ChunkRecord};
use voxel_visibility::column::{Column, ColumnRead};
use voxel_visibility::occupancy::OccupiedSet;
use voxel_visibility::region::Region;
use voxel_visibility::space::Position;
use voxel_visibility::voxel::pack_voxel;

fn key(x: u8, y: u8, z: u8) -> u32 {
    pack_voxel(x, y, z).unwrap()
}

fn at(x: i32, y: i32, z: i32) -> Position {
    Position { x, y, z }
}

/// A region with one chunk at the origin that holds a 2 x 2 x 2 cube at the
/// local positions 1 and 2.
fn cube_region() -> Region {
    let mut voxels = Vec::new();
    for x in 1..3 {
        for y in 1..3 {
            for z in 1..3 {
                voxels.push(key(x, y, z));
            }
        }
    }
    Region::from_parts(
        vec![ChunkRecord { voxel_count: 8, key: pack_chunk(0, -4, 0).unwrap() }],
        voxels,
    )
    .unwrap()
}

#[test]
fn occupied_set_holds_what_was_put_in() {
    let mut set = OccupiedSet::new();
    assert!(!set.contains(at(0, 0, 0)));
    set.insert(0, 0, 0);
    set.insert(-5, 7, 32767);
    set.insert(-32768, -32768, -32768);
    assert!(set.contains(at(0, 0, 0)));
    assert!(set.contains(at(-5, 7, 32767)));
    assert!(set.contains(at(-32768, -32768, -32768)));
    assert!(!set.contains(at(7, -5, 32767)));
    assert!(!set.contains(at(0, 0, 1)));
    assert!(!set.contains(at(32768, 0, 0)));
    assert!(!set.contains(at(0, i32::MIN, 0)));
    assert!(!set.contains(at(0, 0, i32::MAX)));
}

#[test]
fn occupied_set_tells_positions_apart() {
    let mut set = OccupiedSet::new();
    set.insert(1, 0, 0);
    assert!(!set.contains(at(0, 1, 0)));
    assert!(!set.contains(at(0, 0, 1)));
    assert!(!set.contains(at(0, 0, 65537)));
    set.insert(0, 0, 1);
    assert!(set.contains(at(0, 0, 1)));
    assert!(!set.contains(at(0, 1, 0)));
}

#[test]
fn voxel_is_exposed_until_all_six_neighbours_are_in() {
    let mut set = OccupiedSet::new();
    assert!(set.is_exposed(5, 5, 5));
    set.insert(6, 5, 5);
    set.insert(4, 5, 5);
    set.insert(5, 6, 5);
    set.insert(5, 4, 5);
    set.insert(5, 5, 6);
    assert!(set.is_exposed(5, 5, 5));
    set.insert(5, 5, 4);
    assert!(!set.is_exposed(5, 5, 5));
    assert!(set.is_exposed(5, 5, 6));
}

#[test]
fn voxel_at_the_edge_of_what_can_be_held_is_exposed() {
    let mut set = OccupiedSet::new();
    for x in [32766, 32767] {
        for y in [-1, 0, 1] {
            for z in [-1, 0, 1] {
                set.insert(x, y, z);
            }
        }
    }
    assert!(set.is_exposed(32767, 0, 0));
}

#[test]
fn region_occupies_the_world_positions_of_its_voxels() {
    let region = Region::from_parts(
        vec![
            ChunkRecord { voxel_count: 1, key: pack_chunk(0, -4, 0).unwrap() },
            ChunkRecord { voxel_count: 0, key: pack_chunk(9, 9, 9).unwrap() },
            ChunkRecord { voxel_count: 2, key: pack_chunk(1, -2, 3).unwrap() },
        ],
        vec![key(1, 2, 3), key(0, 0, 0), key(15, 15, 15)],
    )
    .unwrap();
    let set = region.occupied();
    assert!(set.contains(at(1, 2, 3)));
    assert!(set.contains(at(16, 32, 48)));
    assert!(set.contains(at(31, 47, 63)));
    assert!(!set.contains(at(0, 0, 0)));
    assert!(!set.contains(at(17, 34, 51)));
    assert!(!set.contains(at(144, 208, 144)));
}

#[test]
fn exposed_cube_keeps_all_eight() {
    let region = cube_region();
    let kept = region.retain_exposed(&region.occupied());
    assert_eq!(kept.chunks(), region.chunks());
    assert_eq!(kept.blocks(), region.blocks());
}

#[test]
fn cube_inside_a_fill_is_dropped_whole() {
    let region = cube_region();
    let mut fill = OccupiedSet::new();
    for x in 0..4 {
        for y in 0..4 {
            for z in 0..4 {
                fill.insert(x, y, z);
            }
        }
    }
    let kept = region.retain_exposed(&fill);
    assert_eq!(
        kept.chunks(),
        &[ChunkRecord { voxel_count: 0, key: pack_chunk(0, -4, 0).unwrap() }]
    );
    assert!(kept.blocks().is_empty());
}

#[test]
fn fill_with_one_hole_keeps_the_voxel_beside_it() {
    let region = cube_region();
    let mut fill = OccupiedSet::new();
    for x in 0..4 {
        for y in 0..4 {
            for z in 0..4 {
                if (x, y, z) != (3, 2, 2) {
                    fill.insert(x, y, z);
                }
            }
        }
    }
    let kept = region.retain_exposed(&fill);
    assert_eq!(kept.chunks()[0].voxel_count, 1);
    assert_eq!(kept.blocks(), &[key(2, 2, 2)]);
}

fn solid_column(from: isize, to: isize) -> Column {
    let mut column = Column::new(-64, 320);
    for x in 0..16 {
        for z in 0..16 {
            column.set_height(x, z, from);
            for y in from..to {
                column.set_block(x, y, z, "minecraft:stone".as_bytes());
            }
        }
    }
    column.set_height(0, 0, to - 1);
    column
}

#[test]
fn solid_chunk_keeps_its_shell() {
    let mut reads = Vec::new();
    for _ in 0..1024 {
        reads.push(ColumnRead::Missing);
    }
    reads[0] = ColumnRead::Decoded(solid_column(0, 16));
    let region = Region::new(&reads).unwrap();
    assert_eq!(region.chunks().len(), 1);
    assert_eq!(region.chunks()[0].voxel_count, 4096 - 14 * 14 * 14);
    assert_eq!(region.blocks().len(), 4096 - 14 * 14 * 14);
    assert!(!region.blocks().contains(&key(1, 1, 1)));
    assert!(!region.blocks().contains(&key(14, 14, 14)));
    assert!(region.blocks().contains(&key(0, 1, 1)));
    assert!(region.blocks().contains(&key(15, 14, 14)));
}

#[test]
fn neighbours_count_across_chunks() {
    let mut reads = Vec::new();
    for _ in 0..1024 {
        reads.push(ColumnRead::Missing);
    }
    reads[0] = ColumnRead::Decoded(solid_column(0, 32));
    reads[1] = ColumnRead::Decoded(solid_column(0, 32));
    reads[32] = ColumnRead::Decoded(solid_column(0, 32));
    let region = Region::new(&reads).unwrap();
    let keys: Vec<u32> = region.chunks().iter().map(|record| record.key).collect();
    assert_eq!(
        keys,
        vec![
            pack_chunk(0, 0, 0).unwrap(),
            pack_chunk(0, 1, 0).unwrap(),
            pack_chunk(0, 0, 1).unwrap(),
            pack_chunk(0, 1, 1).unwrap(),
            pack_chunk(1, 0, 0).unwrap(),
            pack_chunk(1, 1, 0).unwrap(),
        ]
    );
    // The lower chunk of the first column: open below, to the west and to
    // the north; closed above, to the east and to the south by its
    // neighbours.
    let lower = &region.blocks()[..region.chunks()[0].voxel_count as usize];
    assert_eq!(lower.len(), 4096 - 15 * 15 * 15);
    assert!(lower.contains(&key(0, 5, 5)));
    assert!(lower.contains(&key(5, 0, 5)));
    assert!(lower.contains(&key(5, 5, 0)));
    assert!(!lower.contains(&key(15, 5, 5)));
    assert!(!lower.contains(&key(5, 15, 5)));
    assert!(!lower.contains(&key(5, 5, 15)));
    let total: u32 = region.chunks().iter().map(|record| record.voxel_count).sum();
    assert_eq!(total as usize, region.blocks().len());
}

#[test]
fn slices_stay_with_their_chunks() {
    let a = pack_chunk(0, -4, 0).unwrap();
    let b = pack_chunk(1, -4, 0).unwrap();
    let region = Region::from_parts(
        vec![
            ChunkRecord { voxel_count: 3, key: a },
            ChunkRecord { voxel_count: 0, key: pack_chunk(5, 5, 5).unwrap() },
            ChunkRecord { voxel_count: 2, key: b },
        ],
        vec![key(1, 1, 1), key(2, 1, 1), key(3, 1, 1), key(1, 1, 1), key(2, 1, 1)],
    )
    .unwrap();
    // Only the voxel at (2, 1, 1) of the first chunk is enclosed.
    let mut set = OccupiedSet::new();
    for (x, y, z) in [(1, 1, 1), (3, 1, 1), (2, 0, 1), (2, 2, 1), (2, 1, 0), (2, 1, 2)] {
        set.insert(x, y, z);
    }
    let kept = region.retain_exposed(&set);
    assert_eq!(
        kept.chunks(),
        &[
            ChunkRecord { voxel_count: 2, key: a },
            ChunkRecord { voxel_count: 0, key: pack_chunk(5, 5, 5).unwrap() },
            ChunkRecord { voxel_count: 2, key: b },
        ]
    );
    assert_eq!(kept.blocks(), &[key(1, 1, 1), key(3, 1, 1), key(1, 1, 1), key(2, 1, 1)]);
}
