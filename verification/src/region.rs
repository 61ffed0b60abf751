//! The region: chunk records in scan order, and the flat array of voxel keys
//! in which record `i` owns the slice that starts where the counts of the
//! records before it end.
use vstd::prelude::*;
use crate::chunk::{valid_chunk_key, ChunkRecord};
use crate::voxel::valid_key;

verus! {

/// Where the slice of record `i` starts: the sum of the counts before it.
pub open spec fn offset(chunks: Seq<ChunkRecord>, i: int) -> int
    decreases i,
{
    if i <= 0 {
        0
    } else {
        offset(chunks, i - 1) + chunks[i - 1].voxel_count as int
    }
}

/// The sum of all counts.
pub open spec fn total(chunks: Seq<ChunkRecord>) -> int {
    offset(chunks, chunks.len() as int)
}

/// The voxels that record `i` owns.
pub open spec fn slice_of(chunks: Seq<ChunkRecord>, voxels: Seq<u32>, i: int) -> Seq<u32> {
    voxels.subrange(offset(chunks, i), offset(chunks, i + 1))
}

/// Record `i` owns the voxel at index `k` of the flat array.
pub open spec fn owns(chunks: Seq<ChunkRecord>, i: int, k: int) -> bool {
    0 <= i < chunks.len() && offset(chunks, i) <= k < offset(chunks, i + 1)
}

/// The most voxels that a region can hold: 1024 columns of 256 chunks of
/// 4096 voxels.
pub const MAX_VOXELS: usize = 0x4000_0000;

/// The most chunks that a region can hold: 1024 columns of 256 chunks.
pub const MAX_CHUNKS: usize = 0x4_0000;

/// The counts of the records add up to the length of the voxel array, every
/// key is valid, and there are no more chunks and voxels than a region can
/// hold.
pub open spec fn consistent(chunks: Seq<ChunkRecord>, voxels: Seq<u32>) -> bool {
    &&& total(chunks) == voxels.len()
    &&& chunks.len() <= MAX_CHUNKS
    &&& voxels.len() <= MAX_VOXELS
    &&& forall|i: int| 0 <= i < chunks.len() ==> valid_chunk_key(#[trigger] chunks[i].key as int)
    &&& forall|k: int| 0 <= k < voxels.len() ==> valid_key(#[trigger] voxels[k] as int)
}

/// Offsets never decrease.
pub proof fn lemma_offset_monotone(chunks: Seq<ChunkRecord>, i: int, j: int)
    requires
        0 <= i <= j,
    ensures
        0 <= offset(chunks, i) <= offset(chunks, j),
    decreases j,
{
    if j > 0 {
        if i < j {
            lemma_offset_monotone(chunks, i, j - 1);
        } else {
            lemma_offset_monotone(chunks, i - 1, j - 1);
        }
    }
}

/// The offsets of a sequence of records are those of any longer sequence
/// that starts with it.
pub proof fn lemma_offset_prefix(a: Seq<ChunkRecord>, b: Seq<ChunkRecord>, i: int)
    requires
        0 <= i <= a.len() <= b.len(),
        forall|j: int| 0 <= j < a.len() ==> a[j] == b[j],
    ensures
        offset(a, i) == offset(b, i),
    decreases i,
{
    if i > 0 {
        lemma_offset_prefix(a, b, i - 1);
    }
}

/// The offsets of two sequences of records put together: those of the second
/// follow on those of the first.
pub proof fn lemma_offset_concat(a: Seq<ChunkRecord>, b: Seq<ChunkRecord>, j: int)
    requires
        0 <= j <= b.len(),
    ensures
        offset(a + b, a.len() + j) == total(a) + offset(b, j),
    decreases j,
{
    if j == 0 {
        lemma_offset_prefix(a, a + b, a.len() as int);
    } else {
        lemma_offset_concat(a, b, j - 1);
        assert((a + b)[a.len() + j - 1] == b[j - 1]);
    }
}

/// A voxel has one owner: the slices of different records do not overlap.
pub proof fn lemma_owner_unique(chunks: Seq<ChunkRecord>, i: int, j: int, k: int)
    requires
        owns(chunks, i, k),
        owns(chunks, j, k),
    ensures
        i == j,
{
    if i < j {
        lemma_offset_monotone(chunks, i + 1, j);
    } else if j < i {
        lemma_offset_monotone(chunks, j + 1, i);
    }
}

/// The immutable snapshot of a loaded world.
#[derive(Debug)]
pub struct Region {
    chunks: Vec<ChunkRecord>,
    blocks: Vec<u32>,
}

impl Region {
    /// The chunk records, in scan order.
    pub closed spec fn records(&self) -> Seq<ChunkRecord> {
        self.chunks@
    }

    /// The flat array of voxel keys.
    pub closed spec fn voxels(&self) -> Seq<u32> {
        self.blocks@
    }

    /// What holds of every region: the counts add up to the number of
    /// voxels, and every key is valid.
    #[verifier::type_invariant]
    pub open spec fn wf(&self) -> bool {
        consistent(self.records(), self.voxels())
    }

    /// Builds a region from its two arrays; `None` unless the counts add up
    /// to the number of voxels and every key is valid.
    pub fn from_parts(chunks: Vec<ChunkRecord>, blocks: Vec<u32>) -> (region: Option<Region>)
        ensures
            region is Some <==> consistent(chunks@, blocks@),
            region matches Some(r) ==> r.records() == chunks@ && r.voxels() == blocks@ && r.wf(),
    {
        if blocks.len() > MAX_VOXELS || chunks.len() > MAX_CHUNKS {
            return None;
        }
        let mut sum: usize = 0;
        let mut i: usize = 0;
        while i < chunks.len()
            invariant
                i <= chunks.len(),
                sum == offset(chunks@, i as int),
                sum <= blocks.len() <= MAX_VOXELS,
                forall|j: int| 0 <= j < i ==> valid_chunk_key(#[trigger] chunks@[j].key as int),
            decreases chunks.len() - i,
        {
            let record = chunks[i];
            if record.key >= 0x100_0000 {
                return None;
            }
            if record.voxel_count as usize > blocks.len() - sum {
                proof {
                    lemma_offset_monotone(chunks@, i as int + 1, chunks@.len() as int);
                }
                return None;
            }
            sum = sum + record.voxel_count as usize;
            i = i + 1;
        }
        if sum != blocks.len() {
            return None;
        }
        let mut k: usize = 0;
        while k < blocks.len()
            invariant
                k <= blocks.len(),
                forall|j: int| 0 <= j < k ==> valid_key(#[trigger] blocks@[j] as int),
            decreases blocks.len() - k,
        {
            if blocks[k] >= 4096 {
                return None;
            }
            k = k + 1;
        }
        Some(Region { chunks, blocks })
    }

    /// Puts two arrays that are known to fit together into a region.
    pub(crate) fn assemble(chunks: Vec<ChunkRecord>, blocks: Vec<u32>) -> (region: Region)
        requires
            consistent(chunks@, blocks@),
        ensures
            region.records() == chunks@,
            region.voxels() == blocks@,
            region.wf(),
    {
        Region { chunks, blocks }
    }

    /// The chunk records, in scan order.
    pub fn chunks(&self) -> (records: &[ChunkRecord])
        ensures
            records@ == self.records(),
    {
        self.chunks.as_slice()
    }

    /// The flat array of voxel keys, grouped by chunk.
    pub fn blocks(&self) -> (voxels: &[u32])
        ensures
            voxels@ == self.voxels(),
    {
        self.blocks.as_slice()
    }
}

} // verus!
