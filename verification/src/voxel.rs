//! Packed voxel keys: the position of a voxel inside its chunk.
use vstd::prelude::*;

verus! {

/// Edge length of a chunk, in voxels.
pub const CHUNK_EDGE: u32 = 16;

/// Number of voxel positions in one chunk.
pub const CHUNK_VOLUME: u32 = 4096;

/// The key of the voxel at local position `(x, y, z)`: `z` in bits 8..12,
/// `y` in bits 4..8, `x` in bits 0..4.
pub open spec fn voxel_key(x: int, y: int, z: int) -> int {
    z * 256 + y * 16 + x
}

/// The local `x` coordinate that a key holds.
pub open spec fn key_x(key: int) -> int {
    key % 16
}

/// The local `y` coordinate that a key holds.
pub open spec fn key_y(key: int) -> int {
    (key / 16) % 16
}

/// The local `z` coordinate that a key holds.
pub open spec fn key_z(key: int) -> int {
    (key / 256) % 16
}

/// A key is valid when nothing is set above its three 4-bit fields.
pub open spec fn valid_key(key: int) -> bool {
    0 <= key < 4096
}

/// Packs a local position into a key; `None` when a coordinate does not fit
/// in 4 bits.
pub fn pack_voxel(x: u8, y: u8, z: u8) -> (key: Option<u32>)
    ensures
        key == (if x < 16 && y < 16 && z < 16 {
            Some(voxel_key(x as int, y as int, z as int) as u32)
        } else {
            None
        }),
        key matches Some(k) ==> k == ((z as u32) << 8 | (y as u32) << 4 | (x as u32)),
{
    if x < 16 && y < 16 && z < 16 {
        let k: u32 = (z as u32) << 8 | (y as u32) << 4 | (x as u32);
        assert(k == (z as u32) * 256 + (y as u32) * 16 + (x as u32)) by (bit_vector)
            requires
                k == ((z as u32) << 8 | (y as u32) << 4 | (x as u32)),
                x < 16,
                y < 16,
                z < 16,
        ;
        Some(k)
    } else {
        None
    }
}

/// The local `x` coordinate of a key.
pub fn voxel_x(key: u32) -> (x: u8)
    ensures
        x == key_x(key as int),
        x < 16,
{
    let x: u32 = key & 0b1111;
    assert(x == key % 16) by (bit_vector)
        requires
            x == key & 0b1111,
    ;
    x as u8
}

/// The local `y` coordinate of a key.
pub fn voxel_y(key: u32) -> (y: u8)
    ensures
        y == key_y(key as int),
        y < 16,
{
    let y: u32 = (key >> 4) & 0b1111;
    assert(y == (key / 16) % 16) by (bit_vector)
        requires
            y == (key >> 4) & 0b1111,
    ;
    y as u8
}

/// The local `z` coordinate of a key.
pub fn voxel_z(key: u32) -> (z: u8)
    ensures
        z == key_z(key as int),
        z < 16,
{
    let z: u32 = (key >> 8) & 0b1111;
    assert(z == (key / 256) % 16) by (bit_vector)
        requires
            z == (key >> 8) & 0b1111,
    ;
    z as u8
}

/// Unpacking a packed position gives the position back, and a packed
/// position is a valid key.
pub proof fn lemma_key_round_trip(x: int, y: int, z: int)
    requires
        0 <= x < 16,
        0 <= y < 16,
        0 <= z < 16,
    ensures
        valid_key(voxel_key(x, y, z)),
        key_x(voxel_key(x, y, z)) == x,
        key_y(voxel_key(x, y, z)) == y,
        key_z(voxel_key(x, y, z)) == z,
{
}

/// A valid key is the packing of the three coordinates it holds.
pub proof fn lemma_key_of_fields(key: int)
    requires
        valid_key(key),
    ensures
        voxel_key(key_x(key), key_y(key), key_z(key)) == key,
        0 <= key_x(key) < 16,
        0 <= key_y(key) < 16,
        0 <= key_z(key) < 16,
{
}

} // verus!
