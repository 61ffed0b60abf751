use voxel_visibility::chunk::{pack_chunk, ChunkRecord};
use voxel_visibility::column::{Column, ColumnRead};
use voxel_visibility::loader::RegionLoader;
use voxel_visibility::region::Region;
use voxel_visibility::voxel::pack_voxel;

const STONE: &str = "minecraft:stone";

fn absent() -> Vec<ColumnRead> {
    let mut reads = Vec::new();
    for _ in 0..1024 {
        reads.push(ColumnRead::Missing);
    }
    reads
}

/// A column with a solid 2 x 2 x 2 cube at its lowest corner, heights from 0.
fn cube_column() -> Column {
    let mut column = Column::new(-64, 320);
    for x in 0..2 {
        for z in 0..2 {
            column.set_height(x, z, 2);
            for y in 0..2 {
                column.set_block(x, y, z, STONE.as_bytes());
            }
        }
    }
    column
}

fn key(x: u8, y: u8, z: u8) -> u32 {
    pack_voxel(x, y, z).unwrap()
}

#[test]
fn single_cube_loads_as_one_chunk_of_eight() {
    let mut reads = absent();
    reads[0] = ColumnRead::Decoded(cube_column());
    let mut loader = RegionLoader::new();
    for read in &reads {
        loader = loader.push(read);
    }
    assert_eq!(loader.column_count(), 1024);
    let chunk = pack_chunk(0, 0, 0).unwrap();
    assert_eq!(loader.chunks(), &[ChunkRecord { voxel_count: 8, key: chunk }]);
    assert_eq!(loader.blocks().len(), 8);
    let region = loader.finish().unwrap();
    assert_eq!(region.chunks(), &[ChunkRecord { voxel_count: 8, key: chunk }]);
    assert_eq!(
        region.blocks(),
        &[
            key(0, 0, 0),
            key(0, 0, 1),
            key(0, 1, 0),
            key(0, 1, 1),
            key(1, 0, 0),
            key(1, 0, 1),
            key(1, 1, 0),
            key(1, 1, 1),
        ]
    );
    let same = Region::new(&reads).unwrap();
    assert_eq!(same.chunks(), region.chunks());
    assert_eq!(same.blocks(), region.blocks());
}

#[test]
fn empty_region_loads_empty() {
    let region = Region::new(&absent()).unwrap();
    assert!(region.chunks().is_empty());
    assert!(region.blocks().is_empty());
    assert_eq!(region.chunk_count(), 0);
    assert_eq!(region.voxel_count(), 0);
}

#[test]
fn unreadable_column_fails_the_region() {
    let mut reads = absent();
    reads[0] = ColumnRead::Decoded(cube_column());
    reads[1023] = ColumnRead::Unreadable;
    assert!(Region::new(&reads).is_none());
    let mut reads = absent();
    reads[0] = ColumnRead::Unreadable;
    assert!(Region::new(&reads).is_none());
}

#[test]
fn undecodable_column_is_skipped() {
    let mut reads = absent();
    reads[0] = ColumnRead::Undecodable;
    reads[5] = ColumnRead::Decoded(cube_column());
    reads[9] = ColumnRead::Undecodable;
    let region = Region::new(&reads).unwrap();
    assert_eq!(
        region.chunks(),
        &[ChunkRecord { voxel_count: 8, key: pack_chunk(0, 0, 5).unwrap() }]
    );
}

#[test]
fn wrong_number_of_columns_is_no_region() {
    let mut reads = absent();
    reads.pop();
    assert!(Region::new(&reads).is_none());
    let mut reads = absent();
    reads.push(ColumnRead::Missing);
    assert!(Region::new(&reads).is_none());
    assert!(Region::new(&Vec::new()).is_none());
}

#[test]
fn loader_counts_columns_and_stops_at_all() {
    let mut loader = RegionLoader::new();
    assert_eq!(loader.column_count(), 0);
    assert!(!loader.has_failed());
    for i in 0..1024 {
        assert_eq!(loader.column_count(), i);
        loader = loader.push(&ColumnRead::Missing);
    }
    loader = loader.push(&ColumnRead::Unreadable);
    assert_eq!(loader.column_count(), 1024);
    assert!(!loader.has_failed());
    assert!(loader.finish().is_some());
}

#[test]
fn loader_with_too_few_columns_gives_no_region() {
    let mut loader = RegionLoader::new();
    for _ in 0..1023 {
        loader = loader.push(&ColumnRead::Missing);
    }
    assert!(loader.finish().is_none());
    assert!(RegionLoader::new().finish().is_none());
}

#[test]
fn failed_loader_keeps_nothing_more() {
    let mut loader = RegionLoader::new();
    loader = loader.push(&ColumnRead::Decoded(cube_column()));
    loader = loader.push(&ColumnRead::Unreadable);
    assert!(loader.has_failed());
    loader = loader.push(&ColumnRead::Decoded(cube_column()));
    assert_eq!(loader.chunks().len(), 1);
    assert_eq!(loader.blocks().len(), 8);
    for _ in 3..1024 {
        loader = loader.push(&ColumnRead::Missing);
    }
    assert_eq!(loader.column_count(), 1024);
    assert!(loader.finish().is_none());
}

/// A column with one solid block in each of the vertical chunks from
/// `first` to `last`, and heights that span them.
fn tower(first: isize, last: isize) -> Column {
    let mut column = Column::new(-64, 320);
    for x in 0..16 {
        for z in 0..16 {
            column.set_height(x, z, first * 16);
        }
    }
    column.set_height(0, 0, last * 16 + 15);
    for layer in first..=last {
        column.set_block(3, layer * 16 + 5, 7, STONE.as_bytes());
    }
    column
}

#[test]
fn records_follow_scan_order() {
    let mut reads = absent();
    reads[1] = ColumnRead::Decoded(tower(-1, 1));
    reads[32] = ColumnRead::Decoded(tower(0, 0));
    reads[33 * 31] = ColumnRead::Decoded(tower(2, 3));
    let region = Region::new(&reads).unwrap();
    let keys: Vec<u32> = region.chunks().iter().map(|record| record.key).collect();
    assert_eq!(
        keys,
        vec![
            pack_chunk(0, -1, 1).unwrap(),
            pack_chunk(0, 0, 1).unwrap(),
            pack_chunk(0, 1, 1).unwrap(),
            pack_chunk(1, 0, 0).unwrap(),
            pack_chunk(31, 2, 31).unwrap(),
            pack_chunk(31, 3, 31).unwrap(),
        ]
    );
    for record in region.chunks() {
        assert_eq!(record.voxel_count, 1);
    }
    assert_eq!(region.blocks(), &[key(3, 5, 7); 6]);
}

#[test]
fn empty_chunk_inside_the_heights_keeps_its_record() {
    let mut column = tower(0, 2);
    column.set_block(3, 16 + 5, 7, "minecraft:air".as_bytes());
    let mut reads = absent();
    reads[0] = ColumnRead::Decoded(column);
    let region = Region::new(&reads).unwrap();
    let counts: Vec<u32> = region.chunks().iter().map(|record| record.voxel_count).collect();
    assert_eq!(counts, vec![1, 0, 1]);
    assert_eq!(region.blocks().len(), 2);
}

#[test]
fn blocks_outside_the_surface_chunks_are_not_scanned() {
    let mut column = tower(4, 4);
    column.set_block(0, 0, 0, STONE.as_bytes());
    column.set_block(0, 100, 0, STONE.as_bytes());
    let mut reads = absent();
    reads[0] = ColumnRead::Decoded(column);
    let region = Region::new(&reads).unwrap();
    assert_eq!(
        region.chunks(),
        &[ChunkRecord { voxel_count: 1, key: pack_chunk(0, 4, 0).unwrap() }]
    );
}

#[test]
fn counts_add_up_to_the_voxels() {
    let mut reads = absent();
    reads[0] = ColumnRead::Decoded(cube_column());
    reads[1] = ColumnRead::Decoded(tower(-4, 19));
    reads[40] = ColumnRead::Decoded(tower(3, 3));
    let mut loader = RegionLoader::new();
    for read in &reads {
        loader = loader.push(read);
    }
    let before: u32 = loader.chunks().iter().map(|record| record.voxel_count).sum();
    assert_eq!(before as usize, loader.blocks().len());
    assert_eq!(before, 8 + 24 + 1);
    let region = loader.finish().unwrap();
    let after: u32 = region.chunks().iter().map(|record| record.voxel_count).sum();
    assert_eq!(after as usize, region.blocks().len());
    assert_eq!(after, 33);
}

#[test]
fn region_from_parts_checks_the_counts() {
    let chunk = pack_chunk(0, 0, 0).unwrap();
    let ok = Region::from_parts(
        vec![ChunkRecord { voxel_count: 2, key: chunk }, ChunkRecord { voxel_count: 0, key: 5 }],
        vec![1, 2],
    );
    assert!(ok.is_some());
    let region = ok.unwrap();
    assert_eq!(region.chunks().len(), 2);
    assert_eq!(region.blocks(), &[1, 2]);
    assert!(Region::from_parts(vec![ChunkRecord { voxel_count: 3, key: chunk }], vec![1, 2]).is_none());
    assert!(Region::from_parts(vec![ChunkRecord { voxel_count: 1, key: chunk }], vec![1, 2]).is_none());
    assert!(Region::from_parts(vec![], vec![1]).is_none());
    assert!(Region::from_parts(vec![], vec![]).is_some());
}

#[test]
fn region_from_parts_checks_the_keys() {
    let chunk = pack_chunk(0, 0, 0).unwrap();
    assert!(Region::from_parts(vec![ChunkRecord { voxel_count: 1, key: chunk }], vec![4096]).is_none());
    assert!(Region::from_parts(vec![ChunkRecord { voxel_count: 1, key: chunk }], vec![4095]).is_some());
    assert!(Region::from_parts(vec![ChunkRecord { voxel_count: 1, key: 1 << 24 }], vec![0]).is_none());
    assert!(
        Region::from_parts(vec![ChunkRecord { voxel_count: 1, key: (1 << 24) - 1 }], vec![0]).is_some()
    );
    assert!(
        Region::from_parts(vec![ChunkRecord { voxel_count: u32::MAX, key: chunk }], vec![0]).is_none()
    );
}
