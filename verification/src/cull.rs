//! The chunk visibility pass: each chunk's box is tested against the
//! frustum, and a chunk that is rejected contributes no voxel to the frame.
use vstd::prelude::*;
use crate::chunk::{chunk_column_x, chunk_column_z, chunk_level, ChunkRecord};
use crate::frustum::{lemma_axis_aligned_exact, lemma_inside_not_rejected, within, Frustum};
use crate::region::Region;
use crate::space::{chunk_origin, shifted, Point, Position};

verus! {

/// The lowest corner of the box of the chunk with key `key`.
pub open spec fn chunk_low(key: u32) -> Point {
    chunk_origin(key as int)
}

/// The highest corner of the box of the chunk with key `key`.
pub open spec fn chunk_high(key: u32) -> Point {
    shifted(chunk_origin(key as int), 16, 16, 16)
}

/// The chunk is rejected by the frustum.
pub open spec fn culled(record: ChunkRecord, frustum: Frustum) -> bool {
    frustum.misses(chunk_low(record.key), chunk_high(record.key))
}

/// What a chunk contributes to the frame: nothing when it is rejected, all
/// its voxels otherwise.
pub open spec fn contribution(record: ChunkRecord, frustum: Frustum) -> u32 {
    if culled(record, frustum) {
        0
    } else {
        record.voxel_count
    }
}

/// The contributions of all chunks, in the order of the records.
pub open spec fn contributions(chunks: Seq<ChunkRecord>, frustum: Frustum) -> Seq<u32> {
    Seq::new(chunks.len(), |i: int| contribution(chunks[i], frustum))
}

/// The two corners of the box of a chunk.
pub fn chunk_bounds(key: u32) -> (corners: (Position, Position))
    ensures
        corners.0@ == chunk_low(key),
        corners.1@ == chunk_high(key),
        within(corners.0@, corners.0@, corners.1@),
{
    let x: i32 = chunk_column_x(key) as i32 * 16;
    let y: i32 = chunk_level(key) as i32 * 16;
    let z: i32 = chunk_column_z(key) as i32 * 16;
    (Position { x, y, z }, Position { x: x + 16, y: y + 16, z: z + 16 })
}

/// What one chunk contributes to the frame.
pub fn chunk_contribution(record: ChunkRecord, frustum: &Frustum) -> (count: u32)
    ensures
        count == contribution(record, *frustum),
{
    let (low, high) = chunk_bounds(record.key);
    if frustum.rejects(low, high) {
        0
    } else {
        record.voxel_count
    }
}

/// The chunk visibility pass over a region.
pub fn cull_chunks(region: &Region, frustum: &Frustum) -> (counts: Vec<u32>)
    ensures
        counts@ == contributions(region.records(), *frustum),
{
    let chunks = region.chunks();
    let mut counts: Vec<u32> = Vec::new();
    let mut i: usize = 0;
    while i < chunks.len()
        invariant
            i <= chunks.len(),
            counts@.len() == i,
            forall|j: int|
                0 <= j < i ==> #[trigger] counts@[j] == contribution(chunks@[j], *frustum),
        decreases chunks.len() - i,
    {
        counts.push(chunk_contribution(chunks[i], frustum));
        i = i + 1;
    }
    assert(counts@ =~= contributions(chunks@, *frustum));
    counts
}

/// With a frustum that is a box, a chunk whose box does not meet it
/// contributes nothing, and a chunk whose box lies inside it contributes all
/// its voxels.
pub proof fn lemma_culling_sound(record: ChunkRecord, lo: Position, hi: Position)
    ensures
        !meets(chunk_low(record.key), chunk_high(record.key), lo@, hi@) ==> contribution(
            record,
            Frustum::axis_aligned(lo, hi),
        ) == 0,
        within(chunk_low(record.key), lo@, hi@) && within(chunk_high(record.key), lo@, hi@)
            ==> contribution(record, Frustum::axis_aligned(lo, hi)) == record.voxel_count,
{
    lemma_axis_aligned_exact(lo, hi, chunk_low(record.key), chunk_high(record.key));
}

/// The boxes from `alo` to `ahi` and from `blo` to `bhi` have a point in
/// common.
pub open spec fn meets(alo: Point, ahi: Point, blo: Point, bhi: Point) -> bool {
    &&& alo.x <= bhi.x && blo.x <= ahi.x
    &&& alo.y <= bhi.y && blo.y <= ahi.y
    &&& alo.z <= bhi.z && blo.z <= ahi.z
}

/// With any frustum, a chunk whose whole box lies inside all six planes
/// contributes all its voxels.
pub proof fn lemma_inside_contributes(record: ChunkRecord, frustum: Frustum)
    requires
        frustum.holds(chunk_low(record.key), chunk_high(record.key)),
    ensures
        contribution(record, frustum) == record.voxel_count,
{
    lemma_inside_not_rejected(frustum, chunk_low(record.key), chunk_high(record.key));
}

} // verus!
