use voxel_visibility::chunk::{
    chunk_column_x, chunk_column_z, chunk_layer, chunk_level, pack_chunk, ChunkRecord,
};
use voxel_visibility::space::{world_position, Position};
use voxel_visibility::voxel::{pack_voxel, voxel_x, voxel_y, voxel_z};

#[test]
fn voxel_key_packs_z_y_x() {
    assert_eq!(pack_voxel(1, 2, 3), Some((3 << 8) | (2 << 4) | 1));
    assert_eq!(pack_voxel(1, 2, 3), Some(801));
    assert_eq!(pack_voxel(0, 0, 0), Some(0));
    assert_eq!(pack_voxel(15, 15, 15), Some(4095));
}

#[test]
fn voxel_key_rejects_wide_fields() {
    assert_eq!(pack_voxel(16, 0, 0), None);
    assert_eq!(pack_voxel(0, 16, 0), None);
    assert_eq!(pack_voxel(0, 0, 16), None);
    assert_eq!(pack_voxel(255, 255, 255), None);
}

#[test]
fn voxel_key_round_trips() {
    for x in 0..16u8 {
        for y in 0..16u8 {
            for z in 0..16u8 {
                let key = pack_voxel(x, y, z).unwrap();
                assert!(key < 4096);
                assert_eq!((voxel_x(key), voxel_y(key), voxel_z(key)), (x, y, z));
            }
        }
    }
}

#[test]
fn voxel_fields_ignore_high_bits() {
    let key = 0xffff_f000 | 0x321;
    assert_eq!((voxel_x(key), voxel_y(key), voxel_z(key)), (1, 2, 3));
}

#[test]
fn chunk_key_is_three_bytes_with_bias() {
    assert_eq!(pack_chunk(0, 0, 0), Some(4 << 8));
    assert_eq!(pack_chunk(3, -4, 5), Some(3 | (5 << 16)));
    assert_eq!(pack_chunk(31, 19, 31), Some(31 | (23 << 8) | (31 << 16)));
    assert_eq!(pack_chunk(7, 251, 9), Some(u32::from_le_bytes([7, 255, 9, 0])));
    assert_eq!(pack_chunk(1, 2, 3), Some(u32::from_le_bytes([1, 6, 3, 0])));
}

#[test]
fn chunk_key_does_not_wrap() {
    assert_eq!(pack_chunk(0, -5, 0), None);
    assert_eq!(pack_chunk(0, 252, 0), None);
    assert_eq!(pack_chunk(0, i32::MIN, 0), None);
    assert_eq!(pack_chunk(0, i32::MAX, 0), None);
}

#[test]
fn chunk_key_round_trips() {
    for layer in -4..=251 {
        let key = pack_chunk(17, layer, 230).unwrap();
        assert_eq!(chunk_column_x(key), 17);
        assert_eq!(chunk_column_z(key), 230);
        assert_eq!(chunk_layer(key), layer);
        assert_eq!(chunk_level(key) as i32, layer + 4);
    }
}

#[test]
fn chunk_keys_differ_when_chunks_differ() {
    let a = pack_chunk(1, 0, 2).unwrap();
    assert_ne!(a, pack_chunk(2, 0, 1).unwrap());
    assert_ne!(a, pack_chunk(1, 1, 2).unwrap());
    assert_ne!(a, pack_chunk(1, 0, 3).unwrap());
    assert_eq!(a, pack_chunk(1, 0, 2).unwrap());
}

#[test]
fn world_position_adds_chunk_origin() {
    let chunk = pack_chunk(2, 1, 3).unwrap();
    let voxel = pack_voxel(4, 5, 6).unwrap();
    assert_eq!(world_position(chunk, voxel), Position { x: 36, y: 85, z: 54 });
    let origin = world_position(pack_chunk(0, -4, 0).unwrap(), 0);
    assert_eq!(origin, Position { x: 0, y: 0, z: 0 });
    let far = world_position(pack_chunk(255, 251, 255).unwrap(), 4095);
    assert_eq!(far, Position { x: 4095, y: 4095, z: 4095 });
}

#[test]
fn chunk_record_compares_by_fields() {
    let a = ChunkRecord { voxel_count: 3, key: 9 };
    assert_eq!(a, ChunkRecord { voxel_count: 3, key: 9 });
    assert_ne!(a, ChunkRecord { voxel_count: 4, key: 9 });
}
