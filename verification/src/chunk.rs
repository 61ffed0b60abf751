//! Chunk keys and chunk records.
//!
//! A chunk key packs the column coordinates and the vertical index of a chunk
//! into one byte each.  The vertical index is stored with a bias, so that the
//! chunks below height zero still get a non-negative byte: only the vertical
//! indices from `-VERTICAL_BIAS` to `255 - VERTICAL_BIAS` have a key.
use vstd::prelude::*;

verus! {

/// What is added to the vertical index of a chunk before it is stored.
pub const VERTICAL_BIAS: i32 = 4;

/// The lowest vertical index that has a key.
pub const LOWEST_LAYER: i32 = -4;

/// The highest vertical index that has a key.
pub const HIGHEST_LAYER: i32 = 251;

/// The key of the chunk in column `(cx, cz)` whose biased vertical index is
/// `level`: `cx` in the lowest byte, `level` in the second, `cz` in the third.
pub open spec fn chunk_key(cx: int, level: int, cz: int) -> int {
    cx + level * 256 + cz * 65536
}

/// The column `x` coordinate that a chunk key holds.
pub open spec fn key_column_x(key: int) -> int {
    key % 256
}

/// The biased vertical index that a chunk key holds.
pub open spec fn key_level(key: int) -> int {
    (key / 256) % 256
}

/// The column `z` coordinate that a chunk key holds.
pub open spec fn key_column_z(key: int) -> int {
    (key / 65536) % 256
}

/// A chunk key is valid when its highest byte is zero.
pub open spec fn valid_chunk_key(key: int) -> bool {
    0 <= key < 0x100_0000
}

/// One chunk of a region: how many voxels it owns, and where it lies.
#[derive(Clone, Copy, Debug, PartialEq, Eq, Structural)]
pub struct ChunkRecord {
    pub voxel_count: u32,
    pub key: u32,
}

/// Builds the key of the chunk in column `(cx, cz)` with vertical index
/// `layer`; `None` when the biased index does not fit in a byte.
pub fn pack_chunk(cx: u8, layer: i32, cz: u8) -> (key: Option<u32>)
    ensures
        key == (if LOWEST_LAYER <= layer <= HIGHEST_LAYER {
            Some(chunk_key(cx as int, layer + VERTICAL_BIAS, cz as int) as u32)
        } else {
            None
        }),
        key matches Some(k) ==> valid_chunk_key(k as int),
{
    if LOWEST_LAYER <= layer && layer <= HIGHEST_LAYER {
        let level: u32 = (layer + VERTICAL_BIAS) as u32;
        Some(cx as u32 + level * 256 + cz as u32 * 65536)
    } else {
        None
    }
}

/// The column `x` coordinate of a chunk key.
pub fn chunk_column_x(key: u32) -> (cx: u8)
    ensures
        cx == key_column_x(key as int),
{
    (key % 256) as u8
}

/// The biased vertical index of a chunk key.
pub fn chunk_level(key: u32) -> (level: u8)
    ensures
        level == key_level(key as int),
{
    ((key / 256) % 256) as u8
}

/// The column `z` coordinate of a chunk key.
pub fn chunk_column_z(key: u32) -> (cz: u8)
    ensures
        cz == key_column_z(key as int),
{
    ((key / 65536) % 256) as u8
}

/// The vertical index of a chunk key, with the bias taken off again.
pub fn chunk_layer(key: u32) -> (layer: i32)
    ensures
        layer == key_level(key as int) - VERTICAL_BIAS,
        LOWEST_LAYER <= layer <= HIGHEST_LAYER,
{
    chunk_level(key) as i32 - VERTICAL_BIAS
}

/// The three fields of a key that was built from them come out unchanged.
pub proof fn lemma_chunk_key_round_trip(cx: int, level: int, cz: int)
    requires
        0 <= cx < 256,
        0 <= level < 256,
        0 <= cz < 256,
    ensures
        valid_chunk_key(chunk_key(cx, level, cz)),
        key_column_x(chunk_key(cx, level, cz)) == cx,
        key_level(chunk_key(cx, level, cz)) == level,
        key_column_z(chunk_key(cx, level, cz)) == cz,
{
}

/// Two chunks are the same chunk exactly when their keys are equal.
pub proof fn lemma_chunk_key_injective(
    ax: int,
    al: int,
    az: int,
    bx: int,
    bl: int,
    bz: int,
)
    requires
        0 <= ax < 256,
        0 <= al < 256,
        0 <= az < 256,
        0 <= bx < 256,
        0 <= bl < 256,
        0 <= bz < 256,
    ensures
        chunk_key(ax, al, az) == chunk_key(bx, bl, bz) <==> (ax == bx && al == bl && az == bz),
{
}

} // verus!
