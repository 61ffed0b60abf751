use voxel_visibility::chunk::ChunkRecord;
use voxel_visibility::controls::{key_push, MoveKey, Push};
use voxel_visibility::draw::DrawArgs;
use voxel_visibility::layout::{face_buffer_size, tile_grid, word_buffer, words_buffer, workgroups};
use voxel_visibility::region::Region;

fn in_memory(bytes: &[u8], little: &[u8]) -> bool {
    let mut big: Vec<u8> = Vec::new();
    for word in little.chunks(4) {
        big.extend(word.iter().rev());
    }
    bytes == little || bytes == big.as_slice()
}

#[test]
fn workgroups_cover_the_items() {
    assert_eq!(workgroups(0), 0);
    assert_eq!(workgroups(1), 1);
    assert_eq!(workgroups(256), 1);
    assert_eq!(workgroups(257), 2);
    assert_eq!(workgroups(512), 2);
    assert_eq!(workgroups(u32::MAX), 1 << 24);
}

#[test]
fn face_array_has_room_for_three_faces_a_voxel() {
    assert_eq!(face_buffer_size(0), 0);
    assert_eq!(face_buffer_size(1), 24);
    assert_eq!(face_buffer_size(8), 192);
    assert_eq!(face_buffer_size(u32::MAX), 24 * (u32::MAX as u64));
}

#[test]
fn words_become_four_bytes_each() {
    let bytes = words_buffer(&[0x0403_0201, 0xffee_ddcc]);
    assert_eq!(bytes.len(), 8);
    assert!(in_memory(&bytes, &[1, 2, 3, 4, 0xcc, 0xdd, 0xee, 0xff]));
    assert!(words_buffer(&[]).is_empty());
    assert!(in_memory(&word_buffer(0x0a0b_0c0d), &[0x0d, 0x0c, 0x0b, 0x0a]));
    assert_eq!(word_buffer(7).len(), 4);
}

#[test]
fn region_buffers_hold_counts_keys_and_voxels() {
    let region = Region::from_parts(
        vec![
            ChunkRecord { voxel_count: 2, key: 0x0001_0203 },
            ChunkRecord { voxel_count: 1, key: 0x0000_0400 },
        ],
        vec![0x0123, 0x0456, 0x0789],
    )
    .unwrap();
    assert_eq!(region.chunk_count(), 2);
    assert_eq!(region.voxel_count(), 3);
    assert_eq!(region.chunk_words(), vec![2, 0x0001_0203, 1, 0x0000_0400]);
    let chunks = region.chunk_buffer();
    assert_eq!(chunks.len(), 16);
    assert!(in_memory(&chunks, &[2, 0, 0, 0, 3, 2, 1, 0, 1, 0, 0, 0, 0, 4, 0, 0]));
    let voxels = region.voxel_buffer();
    assert_eq!(voxels.len(), 12);
    assert!(in_memory(&voxels, &[0x23, 1, 0, 0, 0x56, 4, 0, 0, 0x89, 7, 0, 0]));
}

#[test]
fn draw_arguments_are_sixteen_bytes() {
    let args = DrawArgs { vertex_count: 24, instance_count: 1, first_vertex: 0, first_instance: 0 };
    let bytes = args.buffer();
    assert_eq!(bytes.len(), 16);
    assert!(in_memory(&bytes, &[24, 0, 0, 0, 1, 0, 0, 0, 0, 0, 0, 0, 0, 0, 0, 0]));
}

#[test]
fn tiles_round_up() {
    let grid = tile_grid(1920, 1080);
    assert_eq!(grid.columns, 120);
    assert_eq!(grid.rows, 68);
    assert_eq!(grid.words, 255);
    assert_eq!(grid.groups_x, 60);
    assert_eq!(grid.groups_y, 34);
    let small = tile_grid(17, 1);
    assert_eq!((small.columns, small.rows, small.words), (2, 1, 1));
    assert_eq!((small.groups_x, small.groups_y), (1, 1));
    let none = tile_grid(0, 0);
    assert_eq!((none.columns, none.rows, none.words), (0, 0, 0));
    let huge = tile_grid(u32::MAX, u32::MAX);
    assert_eq!(huge.columns, 1 << 28);
    assert_eq!(huge.words, 1 << 51);
    assert_eq!(huge.groups_x, 1 << 27);
}

#[test]
fn keys_push_along_their_axis() {
    assert_eq!(key_push(MoveKey::Forward, true, false), Push { forward: 1, upward: 0, leftward: 0 });
    assert_eq!(key_push(MoveKey::Forward, false, false), Push { forward: -1, upward: 0, leftward: 0 });
    assert_eq!(key_push(MoveKey::Backward, true, false), Push { forward: -1, upward: 0, leftward: 0 });
    assert_eq!(key_push(MoveKey::Left, true, false), Push { forward: 0, upward: 0, leftward: 1 });
    assert_eq!(key_push(MoveKey::Right, true, false), Push { forward: 0, upward: 0, leftward: -1 });
    assert_eq!(key_push(MoveKey::Right, false, false), Push { forward: 0, upward: 0, leftward: 1 });
    assert_eq!(key_push(MoveKey::Rise, true, false), Push { forward: 0, upward: 1, leftward: 0 });
    assert_eq!(key_push(MoveKey::Sink, true, false), Push { forward: 0, upward: -1, leftward: 0 });
}

#[test]
fn repeated_keys_push_nothing() {
    for key in [
        MoveKey::Forward,
        MoveKey::Left,
        MoveKey::Backward,
        MoveKey::Right,
        MoveKey::Rise,
        MoveKey::Sink,
    ] {
        assert_eq!(key_push(key, true, true), Push { forward: 0, upward: 0, leftward: 0 });
        assert_eq!(key_push(key, false, true), Push { forward: 0, upward: 0, leftward: 0 });
    }
}
