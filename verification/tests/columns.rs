use voxel_visibility::column::{is_air, Column};
use voxel_visibility::scan::{layer_range, scan_section};

#[test]
fn air_is_one_name_only() {
    assert!(is_air("minecraft:air".as_bytes()));
    assert!(!is_air("minecraft:stone".as_bytes()));
    assert!(!is_air("minecraft:cave_air".as_bytes()));
    assert!(!is_air("minecraft:ai".as_bytes()));
    assert!(!is_air("minecraft:airs".as_bytes()));
    assert!(!is_air("Minecraft:air".as_bytes()));
    assert!(!is_air("".as_bytes()));
}

#[test]
fn new_column_is_empty() {
    let column = Column::new(-64, 320);
    for x in 0..16 {
        for z in 0..16 {
            assert_eq!(column.height(x, z), Some(0));
        }
    }
    assert!(!column.is_solid(0, 0, 0));
    assert!(!column.is_solid(15, 319, 15));
    assert_eq!(column.height_bounds(), (0, 0));
}

#[test]
fn column_keeps_blocks_by_name() {
    let mut column = Column::new(-64, 320);
    assert!(column.set_block(1, 2, 3, "minecraft:stone".as_bytes()));
    assert!(column.is_solid(1, 2, 3));
    assert!(!column.is_solid(3, 2, 1));
    assert!(column.set_block(1, 2, 3, "minecraft:air".as_bytes()));
    assert!(!column.is_solid(1, 2, 3));
    assert!(column.set_block(0, -64, 0, "minecraft:cave_air".as_bytes()));
    assert!(column.is_solid(0, -64, 0));
    assert!(column.set_block(15, 319, 15, "minecraft:dirt".as_bytes()));
    assert!(column.is_solid(15, 319, 15));
}

#[test]
fn column_has_no_cell_outside_its_heights() {
    let mut column = Column::new(0, 16);
    assert!(!column.set_block(0, -1, 0, "minecraft:stone".as_bytes()));
    assert!(!column.set_block(0, 16, 0, "minecraft:stone".as_bytes()));
    assert!(!column.set_block(16, 0, 0, "minecraft:stone".as_bytes()));
    assert!(!column.set_block(0, 0, 16, "minecraft:stone".as_bytes()));
    assert!(!column.set_block(0, isize::MAX, 0, "minecraft:stone".as_bytes()));
    assert!(!column.set_block(0, isize::MIN, 0, "minecraft:stone".as_bytes()));
    assert!(!column.is_solid(0, -1, 0));
    assert!(!column.is_solid(0, 16, 0));
    assert!(!column.is_solid(0, isize::MAX, 0));
    assert!(column.set_block(0, 15, 0, "minecraft:stone".as_bytes()));
    assert!(column.is_solid(0, 15, 0));
}

#[test]
fn column_heights_are_cut_to_what_has_a_key() {
    let mut column = Column::new(isize::MIN, isize::MAX);
    assert!(column.set_block(0, -64, 0, "minecraft:stone".as_bytes()));
    assert!(column.set_block(0, 4031, 0, "minecraft:stone".as_bytes()));
    assert!(!column.set_block(0, -65, 0, "minecraft:stone".as_bytes()));
    assert!(!column.set_block(0, 4032, 0, "minecraft:stone".as_bytes()));
    let mut inverted = Column::new(10, 5);
    assert!(!inverted.set_block(0, 10, 0, "minecraft:stone".as_bytes()));
    assert!(!inverted.set_block(0, 5, 0, "minecraft:stone".as_bytes()));
}

#[test]
fn column_heights_are_set_and_bounded() {
    let mut column = Column::new(-64, 320);
    assert!(column.set_height(3, 4, 70));
    assert!(column.set_height(15, 15, -20));
    assert!(!column.set_height(16, 0, 1000));
    assert!(!column.set_height(0, 16, -1000));
    assert_eq!(column.height(3, 4), Some(70));
    assert_eq!(column.height(4, 3), Some(0));
    assert_eq!(column.height(15, 15), Some(-20));
    assert_eq!(column.height(16, 0), None);
    assert_eq!(column.height(0, 16), None);
    assert_eq!(column.height_bounds(), (-20, 70));
}

fn flat(height: isize) -> Column {
    let mut column = Column::new(-64, 320);
    for x in 0..16 {
        for z in 0..16 {
            column.set_height(x, z, height);
        }
    }
    column
}

#[test]
fn layers_round_down_below_zero() {
    assert_eq!(layer_range(&flat(0)), (0, 1));
    assert_eq!(layer_range(&flat(15)), (0, 1));
    assert_eq!(layer_range(&flat(16)), (1, 2));
    assert_eq!(layer_range(&flat(-1)), (-1, 0));
    assert_eq!(layer_range(&flat(-16)), (-1, 0));
    assert_eq!(layer_range(&flat(-17)), (-2, -1));
    assert_eq!(layer_range(&flat(-64)), (-4, -3));
}

#[test]
fn layers_span_least_to_greatest_height() {
    let mut column = flat(64);
    column.set_height(0, 0, -33);
    column.set_height(5, 5, 100);
    assert_eq!(layer_range(&column), (-3, 7));
}

#[test]
fn layers_without_a_key_are_left_out() {
    assert_eq!(layer_range(&flat(-65)), (-4, -4));
    assert_eq!(layer_range(&flat(isize::MIN)), (-4, -4));
    assert_eq!(layer_range(&flat(4032)), (252, 252));
    assert_eq!(layer_range(&flat(isize::MAX)), (252, 252));
    assert_eq!(layer_range(&flat(4031)), (251, 252));
    let mut column = flat(0);
    column.set_height(0, 0, isize::MIN);
    column.set_height(1, 1, isize::MAX);
    assert_eq!(layer_range(&column), (-4, 252));
}

#[test]
fn section_is_scanned_x_then_y_then_z() {
    let mut column = Column::new(-64, 320);
    column.set_block(0, 16, 1, "minecraft:stone".as_bytes());
    column.set_block(0, 17, 0, "minecraft:stone".as_bytes());
    column.set_block(1, 16, 0, "minecraft:stone".as_bytes());
    column.set_block(2, 31, 15, "minecraft:stone".as_bytes());
    column.set_block(2, 32, 15, "minecraft:stone".as_bytes());
    column.set_block(2, 15, 15, "minecraft:stone".as_bytes());
    let mut voxels = vec![7];
    let count = scan_section(&column, 1, &mut voxels);
    assert_eq!(count, 4);
    assert_eq!(voxels, vec![7, 1 << 8, 1 << 4, 1, (15 << 8) | (15 << 4) | 2]);
}

#[test]
fn section_of_a_full_layer_has_every_voxel() {
    let mut column = Column::new(-64, 320);
    for x in 0..16 {
        for y in -16..0 {
            for z in 0..16 {
                column.set_block(x, y, z, "minecraft:stone".as_bytes());
            }
        }
    }
    let mut voxels = Vec::new();
    assert_eq!(scan_section(&column, -1, &mut voxels), 4096);
    assert_eq!(voxels.len(), 4096);
    assert_eq!(voxels[0], 0);
    assert_eq!(voxels[1], 1 << 8);
    assert_eq!(voxels[16], 1 << 4);
    assert_eq!(voxels[256], 1);
    assert_eq!(voxels[4095], 4095);
    let mut empty = Vec::new();
    assert_eq!(scan_section(&column, 0, &mut empty), 0);
    assert_eq!(scan_section(&column, -5, &mut empty), 0);
    assert_eq!(scan_section(&column, 252, &mut empty), 0);
    assert_eq!(scan_section(&column, i32::MIN, &mut empty), 0);
    assert_eq!(scan_section(&column, i32::MAX, &mut empty), 0);
    assert!(empty.is_empty());
}
