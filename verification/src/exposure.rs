//! The exposure filter: a voxel stays in the region exactly when one of its
//! six neighbours is not occupied.  Each chunk's slice is filtered in place,
//! so the order of the chunks and the order inside a chunk are kept, and
//! each count is what is left of that chunk's slice.
use vstd::prelude::*;
use crate::chunk::ChunkRecord;
use crate::occupancy::{enclosed, exposed, OccupiedSet};
use crate::region::{
    consistent, lemma_offset_monotone, lemma_offset_prefix, lemma_owner_unique, offset, owns,
    slice_of, Region,
};
use crate::filtering::{lemma_filter_members, lemma_filter_step};
use crate::space::{world_point, world_position, Point};
use crate::voxel::valid_key;

verus! {

/// The world positions of all voxels of a region.
pub open spec fn occupied_points(chunks: Seq<ChunkRecord>, voxels: Seq<u32>) -> Set<Point> {
    Set::new(
        |p: Point|
            exists|i: int, k: int|
                #[trigger] owns(chunks, i, k) && p == world_point(
                    chunks[i].key as int,
                    voxels[k] as int,
                ),
    )
}

/// The world positions of the voxels before index `bound` of the flat array.
spec fn occupied_before(chunks: Seq<ChunkRecord>, voxels: Seq<u32>, bound: int) -> Set<Point> {
    Set::new(
        |p: Point|
            exists|i: int, k: int|
                #[trigger] owns(chunks, i, k) && k < bound && p == world_point(
                    chunks[i].key as int,
                    voxels[k] as int,
                ),
    )
}

/// Taking in the voxel at index `k`, which record `i` owns, adds its world
/// position and nothing else.
proof fn lemma_occupied_step(chunks: Seq<ChunkRecord>, voxels: Seq<u32>, i: int, k: int)
    requires
        owns(chunks, i, k),
    ensures
        occupied_before(chunks, voxels, k + 1) == occupied_before(chunks, voxels, k).insert(
            world_point(chunks[i].key as int, voxels[k] as int),
        ),
{
    let q = world_point(chunks[i].key as int, voxels[k] as int);
    let grown = occupied_before(chunks, voxels, k + 1);
    let small = occupied_before(chunks, voxels, k);
    assert forall|p: Point| grown.contains(p) == small.insert(q).contains(p) by {
        if grown.contains(p) {
            let (a, b) = choose|a: int, b: int|
                #[trigger] owns(chunks, a, b) && b < k + 1 && p == world_point(
                    chunks[a].key as int,
                    voxels[b] as int,
                );
            if b == k {
                lemma_owner_unique(chunks, a, i, k);
            } else {
                assert(owns(chunks, a, b) && b < k);
            }
        }
        if small.contains(p) {
            let (a, b) = choose|a: int, b: int|
                #[trigger] owns(chunks, a, b) && b < k && p == world_point(
                    chunks[a].key as int,
                    voxels[b] as int,
                );
            assert(owns(chunks, a, b) && b < k + 1);
        }
        if p == q {
            assert(owns(chunks, i, k) && k < k + 1);
        }
    }
    assert(grown =~= small.insert(q));
}

/// Once every voxel is taken in, the positions are those of the region.
proof fn lemma_occupied_all(chunks: Seq<ChunkRecord>, voxels: Seq<u32>)
    ensures
        occupied_before(chunks, voxels, offset(chunks, chunks.len() as int)) == occupied_points(
            chunks,
            voxels,
        ),
        occupied_before(chunks, voxels, 0) == Set::<Point>::empty(),
{
    let n = chunks.len() as int;
    let all = occupied_points(chunks, voxels);
    let upto = occupied_before(chunks, voxels, offset(chunks, n));
    assert forall|p: Point| all.contains(p) == upto.contains(p) by {
        if all.contains(p) {
            let (a, b) = choose|a: int, b: int|
                #[trigger] owns(chunks, a, b) && p == world_point(
                    chunks[a].key as int,
                    voxels[b] as int,
                );
            lemma_offset_monotone(chunks, a + 1, n);
            assert(owns(chunks, a, b) && b < offset(chunks, n));
        }
        if upto.contains(p) {
            let (a, b) = choose|a: int, b: int|
                #[trigger] owns(chunks, a, b) && b < offset(chunks, n) && p == world_point(
                    chunks[a].key as int,
                    voxels[b] as int,
                );
            assert(owns(chunks, a, b));
        }
    }
    assert(all =~= upto);
    assert forall|p: Point| !occupied_before(chunks, voxels, 0).contains(p) by {
        if occupied_before(chunks, voxels, 0).contains(p) {
            let (a, b) = choose|a: int, b: int|
                #[trigger] owns(chunks, a, b) && b < 0 && p == world_point(
                    chunks[a].key as int,
                    voxels[b] as int,
                );
            lemma_offset_monotone(chunks, 0, a);
        }
    }
    assert(occupied_before(chunks, voxels, 0) =~= Set::<Point>::empty());
}

/// The test that the voxels of the chunk with key `chunk` are held to.
pub open spec fn keeps(occupied: Set<Point>, chunk: u32) -> spec_fn(u32) -> bool {
    |voxel: u32| exposed(occupied, world_point(chunk as int, voxel as int))
}

/// What is left of the slice of record `i`.
pub open spec fn exposed_slice(
    chunks: Seq<ChunkRecord>,
    voxels: Seq<u32>,
    occupied: Set<Point>,
    i: int,
) -> Seq<u32> {
    slice_of(chunks, voxels, i).filter(keeps(occupied, chunks[i].key))
}

/// What is left of the slices of the first `n` records, in order.
pub open spec fn exposed_voxels(
    chunks: Seq<ChunkRecord>,
    voxels: Seq<u32>,
    occupied: Set<Point>,
    n: int,
) -> Seq<u32>
    decreases n,
{
    if n <= 0 {
        Seq::empty()
    } else {
        exposed_voxels(chunks, voxels, occupied, n - 1) + exposed_slice(
            chunks,
            voxels,
            occupied,
            n - 1,
        )
    }
}

/// The records after the filter: the same keys in the same order, each with
/// the number of voxels left in its slice.
pub open spec fn exposed_records(
    chunks: Seq<ChunkRecord>,
    voxels: Seq<u32>,
    occupied: Set<Point>,
) -> Seq<ChunkRecord> {
    Seq::new(
        chunks.len(),
        |i: int|
            ChunkRecord {
                voxel_count: exposed_slice(chunks, voxels, occupied, i).len() as u32,
                key: chunks[i].key,
            },
    )
}

/// A chunk never gains voxels: what is left of a slice is no longer than the
/// slice, so the new count fits where the old one did.
proof fn lemma_exposed_slice_len(
    chunks: Seq<ChunkRecord>,
    voxels: Seq<u32>,
    occupied: Set<Point>,
    i: int,
)
    requires
        consistent(chunks, voxels),
        0 <= i < chunks.len(),
    ensures
        exposed_slice(chunks, voxels, occupied, i).len() <= chunks[i].voxel_count,
        slice_of(chunks, voxels, i).len() == chunks[i].voxel_count,
{
    lemma_offset_monotone(chunks, i + 1, chunks.len() as int);
    lemma_offset_monotone(chunks, 0, i);
    slice_of(chunks, voxels, i).lemma_filter_len(keeps(occupied, chunks[i].key));
}

/// After the filter, the slice of record `i` starts where what is left of
/// the slices before it ends.
proof fn lemma_exposed_offset(
    chunks: Seq<ChunkRecord>,
    voxels: Seq<u32>,
    occupied: Set<Point>,
    i: int,
)
    requires
        consistent(chunks, voxels),
        0 <= i <= chunks.len(),
    ensures
        offset(exposed_records(chunks, voxels, occupied), i) == exposed_voxels(
            chunks,
            voxels,
            occupied,
            i,
        ).len(),
    decreases i,
{
    if i > 0 {
        lemma_exposed_offset(chunks, voxels, occupied, i - 1);
        lemma_exposed_slice_len(chunks, voxels, occupied, i - 1);
    }
}

/// What is left of the first `i` slices is the start of what is left of the
/// first `n`.
proof fn lemma_exposed_voxels_prefix(
    chunks: Seq<ChunkRecord>,
    voxels: Seq<u32>,
    occupied: Set<Point>,
    i: int,
    n: int,
)
    requires
        0 <= i <= n,
    ensures
        exposed_voxels(chunks, voxels, occupied, i).len() <= exposed_voxels(
            chunks,
            voxels,
            occupied,
            n,
        ).len(),
        exposed_voxels(chunks, voxels, occupied, n).subrange(
            0,
            exposed_voxels(chunks, voxels, occupied, i).len() as int,
        ) == exposed_voxels(chunks, voxels, occupied, i),
    decreases n,
{
    let whole = exposed_voxels(chunks, voxels, occupied, n);
    let part = exposed_voxels(chunks, voxels, occupied, i);
    if i < n {
        lemma_exposed_voxels_prefix(chunks, voxels, occupied, i, n - 1);
        let shorter = exposed_voxels(chunks, voxels, occupied, n - 1);
        assert(whole.subrange(0, part.len() as int) =~= shorter.subrange(0, part.len() as int));
    } else {
        assert(whole.subrange(0, part.len() as int) =~= part);
    }
}

/// What is left of the first `n` slices is no longer than those slices.
proof fn lemma_exposed_bounded(
    chunks: Seq<ChunkRecord>,
    voxels: Seq<u32>,
    occupied: Set<Point>,
    n: int,
)
    requires
        consistent(chunks, voxels),
        0 <= n <= chunks.len(),
    ensures
        exposed_voxels(chunks, voxels, occupied, n).len() <= offset(chunks, n),
    decreases n,
{
    if n > 0 {
        lemma_exposed_bounded(chunks, voxels, occupied, n - 1);
        lemma_exposed_slice_len(chunks, voxels, occupied, n - 1);
    }
}

/// Every voxel that is left was a voxel of the region.
proof fn lemma_exposed_from_voxels(
    chunks: Seq<ChunkRecord>,
    voxels: Seq<u32>,
    occupied: Set<Point>,
    n: int,
    k: int,
)
    requires
        consistent(chunks, voxels),
        0 <= n <= chunks.len(),
        0 <= k < exposed_voxels(chunks, voxels, occupied, n).len(),
    ensures
        voxels.contains(exposed_voxels(chunks, voxels, occupied, n)[k]),
    decreases n,
{
    let before = exposed_voxels(chunks, voxels, occupied, n - 1);
    if k < before.len() {
        lemma_exposed_from_voxels(chunks, voxels, occupied, n - 1, k);
    } else {
        let slice = slice_of(chunks, voxels, n - 1);
        let left = exposed_slice(chunks, voxels, occupied, n - 1);
        let v = left[k - before.len()];
        assert(left.contains(v));
        lemma_filter_members(slice, keeps(occupied, chunks[n - 1].key), v);
        lemma_exposed_slice_len(chunks, voxels, occupied, n - 1);
        lemma_offset_monotone(chunks, n, chunks.len() as int);
        lemma_offset_monotone(chunks, 0, n - 1);
        let m = choose|m: int| 0 <= m < slice.len() && slice[m] == v;
        assert(voxels[offset(chunks, n - 1) + m] == v);
    }
}

/// The filter keeps the counts and the voxel array together: the new counts
/// add up to the new length, and every key is still valid.
pub proof fn lemma_filter_conserves(
    chunks: Seq<ChunkRecord>,
    voxels: Seq<u32>,
    occupied: Set<Point>,
)
    requires
        consistent(chunks, voxels),
    ensures
        consistent(
            exposed_records(chunks, voxels, occupied),
            exposed_voxels(chunks, voxels, occupied, chunks.len() as int),
        ),
        exposed_voxels(chunks, voxels, occupied, chunks.len() as int).len() <= voxels.len(),
{
    let n = chunks.len() as int;
    let left = exposed_voxels(chunks, voxels, occupied, n);
    lemma_exposed_offset(chunks, voxels, occupied, n);
    lemma_exposed_bounded(chunks, voxels, occupied, n);
    lemma_offset_monotone(chunks, 0, n);
    assert forall|k: int| 0 <= k < left.len() implies valid_key(#[trigger] left[k] as int) by {
        lemma_exposed_from_voxels(chunks, voxels, occupied, n, k);
    }
}

/// The filter attributes no voxel to the wrong chunk: the slice that record
/// `i` owns afterwards is exactly what is left of the slice it owned before.
pub proof fn lemma_slices_follow_chunks(
    chunks: Seq<ChunkRecord>,
    voxels: Seq<u32>,
    occupied: Set<Point>,
    i: int,
)
    requires
        consistent(chunks, voxels),
        0 <= i < chunks.len(),
    ensures
        slice_of(
            exposed_records(chunks, voxels, occupied),
            exposed_voxels(chunks, voxels, occupied, chunks.len() as int),
            i,
        ) == exposed_slice(chunks, voxels, occupied, i),
        exposed_records(chunks, voxels, occupied)[i].key == chunks[i].key,
{
    let n = chunks.len() as int;
    let whole = exposed_voxels(chunks, voxels, occupied, n);
    let upto = exposed_voxels(chunks, voxels, occupied, i + 1);
    let before = exposed_voxels(chunks, voxels, occupied, i);
    lemma_exposed_offset(chunks, voxels, occupied, i);
    lemma_exposed_offset(chunks, voxels, occupied, i + 1);
    lemma_exposed_voxels_prefix(chunks, voxels, occupied, i + 1, n);
    assert(whole.subrange(before.len() as int, upto.len() as int) =~= whole.subrange(
        0,
        upto.len() as int,
    ).subrange(before.len() as int, upto.len() as int));
    assert(upto.subrange(before.len() as int, upto.len() as int) =~= exposed_slice(
        chunks,
        voxels,
        occupied,
        i,
    ));
}

/// A voxel of a chunk is kept exactly when one of its six neighbours is not
/// occupied; it is dropped exactly when all six are.
pub proof fn lemma_kept_iff_exposed(
    chunks: Seq<ChunkRecord>,
    voxels: Seq<u32>,
    occupied: Set<Point>,
    i: int,
    voxel: u32,
)
    requires
        0 <= i < chunks.len(),
        slice_of(chunks, voxels, i).contains(voxel),
    ensures
        exposed_slice(chunks, voxels, occupied, i).contains(voxel) <==> exposed(
            occupied,
            world_point(chunks[i].key as int, voxel as int),
        ),
        !exposed_slice(chunks, voxels, occupied, i).contains(voxel) <==> enclosed(
            occupied,
            world_point(chunks[i].key as int, voxel as int),
        ),
{
    lemma_filter_members(slice_of(chunks, voxels, i), keeps(occupied, chunks[i].key), voxel);
}

/// Nothing is kept that was not there: every voxel left in a slice was in
/// that slice before.
pub proof fn lemma_kept_was_present(
    chunks: Seq<ChunkRecord>,
    voxels: Seq<u32>,
    occupied: Set<Point>,
    i: int,
    voxel: u32,
)
    requires
        0 <= i < chunks.len(),
        exposed_slice(chunks, voxels, occupied, i).contains(voxel),
    ensures
        slice_of(chunks, voxels, i).contains(voxel),
{
    lemma_filter_members(slice_of(chunks, voxels, i), keeps(occupied, chunks[i].key), voxel);
}

impl Region {
    /// The set of the world positions of all voxels of the region.
    pub fn occupied(&self) -> (set: OccupiedSet)
        ensures
            set@ == occupied_points(self.records(), self.voxels()),
    {
        proof {
            use_type_invariant(self);
        }
        let chunks = self.chunks();
        let voxels = self.blocks();
        let mut set = OccupiedSet::new();
        let mut start: usize = 0;
        let mut i: usize = 0;
        proof {
            lemma_occupied_all(chunks@, voxels@);
        }
        while i < chunks.len()
            invariant
                consistent(chunks@, voxels@),
                i <= chunks.len(),
                start == offset(chunks@, i as int),
                start <= voxels.len(),
                set@ == occupied_before(chunks@, voxels@, start as int),
            decreases chunks.len() - i,
        {
            let record = chunks[i];
            proof {
                lemma_offset_monotone(chunks@, i as int + 1, chunks@.len() as int);
            }
            let end: usize = start + record.voxel_count as usize;
            let mut k: usize = start;
            while k < end
                invariant
                    i < chunks.len(),
                    record == chunks@[i as int],
                    start == offset(chunks@, i as int),
                    end == offset(chunks@, i as int + 1),
                    start <= k <= end <= voxels.len(),
                    set@ == occupied_before(chunks@, voxels@, k as int),
                decreases end - k,
            {
                let p = world_position(record.key, voxels[k]);
                set.insert(p.x as i16, p.y as i16, p.z as i16);
                proof {
                    lemma_occupied_step(chunks@, voxels@, i as int, k as int);
                }
                k = k + 1;
            }
            start = end;
            i = i + 1;
        }
        proof {
            lemma_occupied_all(chunks@, voxels@);
        }
        set
    }

    /// Drops every voxel whose six neighbours are all in `occupied`, and
    /// counts again what each chunk owns.
    pub fn retain_exposed(&self, occupied: &OccupiedSet) -> (kept: Region)
        ensures
            kept.wf(),
            kept.records() == exposed_records(self.records(), self.voxels(), occupied@),
            kept.voxels() == exposed_voxels(
                self.records(),
                self.voxels(),
                occupied@,
                self.records().len() as int,
            ),
    {
        proof {
            use_type_invariant(self);
        }
        let chunks = self.chunks();
        let voxels = self.blocks();
        let mut out_chunks: Vec<ChunkRecord> = Vec::new();
        let mut out_voxels: Vec<u32> = Vec::new();
        let mut start: usize = 0;
        let mut i: usize = 0;
        while i < chunks.len()
            invariant
                consistent(chunks@, voxels@),
                i <= chunks.len(),
                start == offset(chunks@, i as int),
                start <= voxels.len(),
                out_voxels@ == exposed_voxels(chunks@, voxels@, occupied@, i as int),
                out_chunks@.len() == i,
                forall|j: int|
                    0 <= j < i ==> #[trigger] out_chunks@[j] == exposed_records(
                        chunks@,
                        voxels@,
                        occupied@,
                    )[j],
                offset(out_chunks@, i as int) == out_voxels@.len(),
                out_voxels.len() <= start,
                forall|k: int| 0 <= k < out_voxels@.len() ==> valid_key(#[trigger] out_voxels@[k] as int),
            decreases chunks.len() - i,
        {
            let record = chunks[i];
            proof {
                lemma_offset_monotone(chunks@, i as int + 1, chunks@.len() as int);
            }
            let end: usize = start + record.voxel_count as usize;
            let ghost slice = slice_of(chunks@, voxels@, i as int);
            let ghost pred = keeps(occupied@, record.key);
            let ghost before = out_voxels@;
            let mut count: u32 = 0;
            let mut k: usize = start;
            proof {
                if slice.len() > 0 {
                    lemma_filter_step(slice, pred, 0);
                } else {
                    reveal(Seq::filter);
                }
            }
            assert(slice.subrange(0, 0).filter(pred) =~= Seq::<u32>::empty());
            assert(before + Seq::<u32>::empty() =~= before);
            while k < end
                invariant
                    consistent(chunks@, voxels@),
                    start <= k <= end <= voxels.len(),
                    slice == voxels@.subrange(start as int, end as int),
                    pred == keeps(occupied@, record.key),
                    out_voxels@ == before + slice.subrange(0, k - start).filter(pred),
                    count == slice.subrange(0, k - start).filter(pred).len(),
                    count <= k - start,
                    before.len() <= start,
                    forall|k: int|
                        0 <= k < out_voxels@.len() ==> valid_key(#[trigger] out_voxels@[k] as int),
                decreases end - k,
            {
                let voxel = voxels[k];
                let p = world_position(record.key, voxel);
                proof {
                    lemma_filter_step(slice, pred, k - start);
                    assert(slice[k - start] == voxel);
                    assert(valid_key(voxels@[k as int] as int));
                }
                if occupied.is_exposed(p.x as i16, p.y as i16, p.z as i16) {
                    out_voxels.push(voxel);
                    count = count + 1;
                    assert(out_voxels@ =~= before + slice.subrange(0, k - start + 1).filter(pred));
                }
                k = k + 1;
            }
            proof {
                assert(slice.subrange(0, end - start) =~= slice);
                let ghost grown = out_chunks@.push(ChunkRecord { voxel_count: count, key: record.key });
                lemma_offset_prefix(out_chunks@, grown, i as int);
            }
            out_chunks.push(ChunkRecord { voxel_count: count, key: record.key });
            start = end;
            i = i + 1;
        }
        proof {
            assert(out_chunks@ =~= exposed_records(chunks@, voxels@, occupied@));
        }
        Region::assemble(out_chunks, out_voxels)
    }
}

} // verus!
