//! Scanning a column: which vertical chunks it has, and which voxels each of
//! them holds, in scan order.
use vstd::prelude::*;
use crate::chunk::{chunk_key, ChunkRecord, HIGHEST_LAYER, LOWEST_LAYER, VERTICAL_BIAS};
use crate::column::{Column, HIGHEST_HEIGHT, LOWEST_HEIGHT};
use crate::filtering::{lemma_filter_members, lemma_filter_step};
use crate::space::Point;
use crate::voxel::{key_x, key_y, key_z, valid_key, voxel_key};

verus! {

/// `layer` cut to the vertical indices from the lowest that has a key to one
/// above the highest.
pub open spec fn clamped_layer(layer: int) -> int {
    if layer < LOWEST_LAYER {
        LOWEST_LAYER as int
    } else if layer > HIGHEST_LAYER + 1 {
        HIGHEST_LAYER + 1
    } else {
        layer
    }
}

/// The first vertical chunk of a column: the one that holds its least
/// surface height, or the lowest with a key where that lies deeper.
pub open spec fn first_layer(heights: Seq<int>) -> int {
    clamped_layer(heights.min() / 16)
}

/// One above the last vertical chunk of a column, which is the one that holds
/// its greatest surface height, or the highest with a key where that lies
/// higher.  Where no chunk with a key lies between the two heights, this is
/// `first_layer`, and the column has no chunk.
pub open spec fn layer_end(heights: Seq<int>) -> int {
    let end = clamped_layer(heights.max() / 16 + 1);
    if end < first_layer(heights) {
        first_layer(heights)
    } else {
        end
    }
}

/// The key of the voxel that is scanned at step `i`: `x` changes slowest,
/// then `y`, then `z`.
pub open spec fn scan_key(i: int) -> u32 {
    voxel_key(i / 256, (i / 16) % 16, i % 16) as u32
}

/// The keys of the 4096 positions of a chunk, in scan order.
pub open spec fn scan_order() -> Seq<u32> {
    Seq::new(4096, |i: int| scan_key(i))
}

/// The cell of a column that the voxel with key `key` of the vertical chunk
/// `layer` stands for.
pub open spec fn cell_of(layer: int, key: u32) -> Point {
    Point { x: key_x(key as int), y: layer * 16 + key_y(key as int), z: key_z(key as int) }
}

/// The test that picks the solid cells of the vertical chunk `layer`.
pub open spec fn solid_in(solid: Set<Point>, layer: int) -> spec_fn(u32) -> bool {
    |key: u32| solid.contains(cell_of(layer, key))
}

/// The voxels of the vertical chunk `layer`: the keys of its solid cells, in
/// scan order.
pub open spec fn section_voxels(solid: Set<Point>, layer: int) -> Seq<u32> {
    scan_order().filter(solid_in(solid, layer))
}

/// The voxels of the vertical chunks from `first` up to, not including,
/// `end`, lowest chunk first.
pub open spec fn column_voxels(solid: Set<Point>, first: int, end: int) -> Seq<u32>
    decreases end - first,
{
    if end <= first {
        Seq::empty()
    } else {
        column_voxels(solid, first, end - 1) + section_voxels(solid, end - 1)
    }
}

/// The record of the vertical chunk `layer` of column `(cx, cz)`.
pub open spec fn section_record(solid: Set<Point>, cx: int, cz: int, layer: int) -> ChunkRecord {
    ChunkRecord {
        voxel_count: section_voxels(solid, layer).len() as u32,
        key: chunk_key(cx, layer + VERTICAL_BIAS, cz) as u32,
    }
}

/// The records of the vertical chunks from `first` up to, not including,
/// `end`, lowest chunk first.  A chunk without a solid cell still has its
/// record.
pub open spec fn column_records(
    solid: Set<Point>,
    cx: int,
    cz: int,
    first: int,
    end: int,
) -> Seq<ChunkRecord> {
    Seq::new((end - first) as nat, |i: int| section_record(solid, cx, cz, first + i))
}

/// The key scanned at step `i` holds the coordinates of that step.
pub proof fn lemma_scan_key(i: int)
    requires
        0 <= i < 4096,
    ensures
        scan_key(i) == (i % 16) * 256 + ((i / 16) % 16) * 16 + i / 256,
        valid_key(scan_key(i) as int),
        key_x(scan_key(i) as int) == i / 256,
        key_y(scan_key(i) as int) == (i / 16) % 16,
        key_z(scan_key(i) as int) == i % 16,
{
    let x = i / 256;
    let y = (i / 16) % 16;
    let z = i % 16;
    assert(0 <= x < 16 && 0 <= y < 16 && 0 <= z < 16);
    crate::voxel::lemma_key_round_trip(x, y, z);
}

/// A vertical chunk holds at most 4096 voxels, each with a valid key.
pub proof fn lemma_section_shape(solid: Set<Point>, layer: int)
    ensures
        section_voxels(solid, layer).len() <= 4096,
        forall|k: int|
            0 <= k < section_voxels(solid, layer).len() ==> valid_key(
                #[trigger] section_voxels(solid, layer)[k] as int,
            ),
{
    let pred = solid_in(solid, layer);
    let kept = section_voxels(solid, layer);
    scan_order().lemma_filter_len(pred);
    assert forall|k: int| 0 <= k < kept.len() implies valid_key(#[trigger] kept[k] as int) by {
        assert(kept.contains(kept[k]));
        lemma_filter_members(scan_order(), pred, kept[k]);
        let m = choose|m: int| 0 <= m < scan_order().len() && scan_order()[m] == kept[k];
        lemma_scan_key(m);
    }
}

/// The vertical chunks that `column` has: the first, and one above the last.
pub fn layer_range(column: &Column) -> (range: (i32, i32))
    ensures
        range.0 == first_layer(column.heights()),
        range.1 == layer_end(column.heights()),
        LOWEST_LAYER <= range.0 <= range.1 <= HIGHEST_LAYER + 1,
{
    let (low, high) = column.height_bounds();
    let low: isize = if low < LOWEST_HEIGHT {
        LOWEST_HEIGHT
    } else if low > HIGHEST_HEIGHT {
        HIGHEST_HEIGHT
    } else {
        low
    };
    let high: isize = if high < LOWEST_HEIGHT - 16 {
        LOWEST_HEIGHT - 16
    } else if high > HIGHEST_HEIGHT - 1 {
        HIGHEST_HEIGHT - 1
    } else {
        high
    };
    let first: i32 = ((low + 64) / 16) as i32 - 4;
    let end: i32 = ((high + 80) / 16) as i32 - 4;
    if end < first {
        (first, first)
    } else {
        (first, end)
    }
}

/// A vertical chunk without a key holds no voxel: a column has no cell
/// there.
pub proof fn lemma_section_without_key(column: &Column, layer: int)
    requires
        layer < LOWEST_LAYER || layer > HIGHEST_LAYER,
    ensures
        section_voxels(column.solid(), layer) == Seq::<u32>::empty(),
{
    let pred = solid_in(column.solid(), layer);
    let kept = section_voxels(column.solid(), layer);
    if kept.len() > 0 {
        assert(kept.contains(kept[0]));
        lemma_filter_members(scan_order(), pred, kept[0]);
        column.lemma_solid_bounds(cell_of(layer, kept[0]));
    }
    assert(kept =~= Seq::<u32>::empty());
}

/// Appends the voxels of the vertical chunk `layer` of `column` to `voxels`,
/// and returns how many they are.
pub fn scan_section(column: &Column, layer: i32, voxels: &mut Vec<u32>) -> (count: u32)
    ensures
        final(voxels)@ == old(voxels)@ + section_voxels(column.solid(), layer as int),
        count == section_voxels(column.solid(), layer as int).len(),
        count <= 4096,
{
    if layer < LOWEST_LAYER || layer > HIGHEST_LAYER {
        proof {
            lemma_section_without_key(column, layer as int);
            assert(voxels@ + Seq::<u32>::empty() =~= voxels@);
        }
        return 0;
    }
    let ghost pred = solid_in(column.solid(), layer as int);
    let ghost before = voxels@;
    let base: isize = layer as isize * 16;
    let mut count: u32 = 0;
    let mut i: u32 = 0;
    proof {
        lemma_filter_step(scan_order(), pred, 0);
        assert(before + Seq::<u32>::empty() =~= before);
    }
    while i < 4096
        invariant
            i <= 4096,
            base == layer * 16,
            LOWEST_LAYER <= layer <= HIGHEST_LAYER,
            pred == solid_in(column.solid(), layer as int),
            voxels@ == before + scan_order().subrange(0, i as int).filter(pred),
            count == scan_order().subrange(0, i as int).filter(pred).len(),
            count <= i,
        decreases 4096 - i,
    {
        let x: u32 = i / 256;
        let y: u32 = (i / 16) % 16;
        let z: u32 = i % 16;
        let key: u32 = z * 256 + y * 16 + x;
        proof {
            lemma_filter_step(scan_order(), pred, i as int);
            lemma_scan_key(i as int);
            assert(scan_order()[i as int] == key);
            assert(cell_of(layer as int, key) == Point {
                x: x as int,
                y: base + y as int,
                z: z as int,
            });
        }
        if column.is_solid(x as usize, base + y as isize, z as usize) {
            voxels.push(key);
            count = count + 1;
            assert(voxels@ =~= before + scan_order().subrange(0, i as int + 1).filter(pred));
        }
        i = i + 1;
    }
    proof {
        assert(scan_order().subrange(0, 4096) =~= scan_order());
    }
    count
}

} // verus!
