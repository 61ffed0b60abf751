//! The compaction pass: a running sum over the contributions of the chunks,
//! which gives each chunk the place where its voxels start among those that
//! take part in the frame, and the number of all of them.
use vstd::prelude::*;
use crate::chunk::ChunkRecord;
use crate::cull::contributions;
use crate::frustum::Frustum;
use crate::region::offset;

verus! {

/// The sum of the first `i` contributions.
pub open spec fn running_sum(counts: Seq<u32>, i: int) -> int
    decreases i,
{
    if i <= 0 {
        0
    } else {
        running_sum(counts, i - 1) + counts[i - 1] as int
    }
}

/// What the compaction pass hands on.
#[derive(Debug)]
pub struct Compaction {
    /// For each chunk, the sum of the contributions before it.
    pub offsets: Vec<u32>,
    /// The sum of all contributions.
    pub total: u32,
}

/// Running sums never decrease.
pub proof fn lemma_running_sum_monotone(counts: Seq<u32>, i: int, j: int)
    requires
        0 <= i <= j,
    ensures
        0 <= running_sum(counts, i) <= running_sum(counts, j),
    decreases j,
{
    if j > 0 {
        if i < j {
            lemma_running_sum_monotone(counts, i, j - 1);
        } else {
            lemma_running_sum_monotone(counts, i - 1, j - 1);
        }
    }
}

/// The contributions of the chunks of a region never add up to more than the
/// region has voxels.
pub proof fn lemma_contributions_bounded(chunks: Seq<ChunkRecord>, frustum: Frustum, i: int)
    requires
        0 <= i <= chunks.len(),
    ensures
        running_sum(contributions(chunks, frustum), i) <= offset(chunks, i),
    decreases i,
{
    if i > 0 {
        lemma_contributions_bounded(chunks, frustum, i - 1);
    }
}

/// The compaction pass.  `None` when the sum of all contributions does not
/// fit in 32 bits.
pub fn compact(counts: &Vec<u32>) -> (packed: Option<Compaction>)
    ensures
        packed is Some <==> running_sum(counts@, counts@.len() as int) <= u32::MAX,
        packed matches Some(c) ==> {
            &&& c.offsets@.len() == counts@.len()
            &&& forall|i: int|
                0 <= i < counts@.len() ==> #[trigger] c.offsets@[i] == running_sum(counts@, i)
            &&& c.total == running_sum(counts@, counts@.len() as int)
        },
{
    let mut offsets: Vec<u32> = Vec::new();
    let mut sum: u32 = 0;
    let mut i: usize = 0;
    while i < counts.len()
        invariant
            i <= counts.len(),
            sum == running_sum(counts@, i as int),
            offsets@.len() == i,
            forall|j: int| 0 <= j < i ==> #[trigger] offsets@[j] == running_sum(counts@, j),
        decreases counts.len() - i,
    {
        offsets.push(sum);
        match sum.checked_add(counts[i]) {
            Some(next) => {
                sum = next;
            },
            None => {
                proof {
                    lemma_running_sum_monotone(counts@, i as int + 1, counts@.len() as int);
                }
                return None;
            },
        }
        i = i + 1;
    }
    Some(Compaction { offsets, total: sum })
}

} // verus!
