//! Building a region from the 32 x 32 chunk columns of a region file.
//!
//! The columns are taken in scan order: column `(cx, cz)` is number
//! `cx * 32 + cz`.  Each decoded column gives one record for every vertical
//! chunk between its least and its greatest surface height, lowest first.
//! When all columns are in, the exposure filter runs against the positions
//! of all voxels that were loaded.
use vstd::pervasive::unreached;
use vstd::prelude::*;
use crate::chunk::{
    key_column_x, key_column_z, key_level, lemma_chunk_key_round_trip, pack_chunk,
    valid_chunk_key, ChunkRecord,
};
use crate::column::ColumnRead;
use crate::exposure::{exposed_records, exposed_voxels, occupied_points};
use crate::region::{
    consistent, lemma_offset_concat, lemma_offset_prefix, offset, total, Region,
};
use crate::scan::{
    column_records, column_voxels, first_layer, layer_end, layer_range, lemma_section_shape,
    scan_section, section_record,
};
use crate::space::Point;
use crate::voxel::valid_key;

verus! {

/// The number of chunk columns along each side of a region.
pub const REGION_EDGE: usize = 32;

/// The number of chunk columns of a region.
pub const COLUMN_COUNT: usize = 1024;

/// The records that column number `index` adds.
pub open spec fn read_records(read: ColumnRead, index: int) -> Seq<ChunkRecord> {
    match read {
        ColumnRead::Decoded(column) => column_records(
            column.solid(),
            index / 32,
            index % 32,
            first_layer(column.heights()),
            layer_end(column.heights()),
        ),
        _ => Seq::empty(),
    }
}

/// The voxels that a column adds.
pub open spec fn read_voxels(read: ColumnRead) -> Seq<u32> {
    match read {
        ColumnRead::Decoded(column) => column_voxels(
            column.solid(),
            first_layer(column.heights()),
            layer_end(column.heights()),
        ),
        _ => Seq::empty(),
    }
}

/// The records of the first `n` columns, before the exposure filter.
pub open spec fn loaded_records(reads: Seq<ColumnRead>, n: int) -> Seq<ChunkRecord>
    decreases n,
{
    if n <= 0 {
        Seq::empty()
    } else {
        loaded_records(reads, n - 1) + read_records(reads[n - 1], n - 1)
    }
}

/// The voxels of the first `n` columns, before the exposure filter.
pub open spec fn loaded_voxels(reads: Seq<ColumnRead>, n: int) -> Seq<u32>
    decreases n,
{
    if n <= 0 {
        Seq::empty()
    } else {
        loaded_voxels(reads, n - 1) + read_voxels(reads[n - 1])
    }
}

/// One of the first `n` columns could not be read.
pub open spec fn unreadable_before(reads: Seq<ColumnRead>, n: int) -> bool {
    exists|i: int| 0 <= i < n && i < reads.len() && #[trigger] reads[i] is Unreadable
}

/// The records and the voxels of the vertical chunks of one column fit
/// together: the counts add up to the number of voxels, and every key is
/// valid.
pub proof fn lemma_column_consistent(solid: Set<Point>, cx: int, cz: int, first: int, end: int)
    requires
        0 <= cx < 32,
        0 <= cz < 32,
        -4 <= first <= end <= 252,
    ensures
        column_records(solid, cx, cz, first, end).len() == end - first,
        total(column_records(solid, cx, cz, first, end)) == column_voxels(solid, first, end).len(),
        column_voxels(solid, first, end).len() <= (end - first) * 4096,
        forall|i: int|
            0 <= i < end - first ==> valid_chunk_key(
                #[trigger] column_records(solid, cx, cz, first, end)[i].key as int,
            ),
        forall|k: int|
            0 <= k < column_voxels(solid, first, end).len() ==> valid_key(
                #[trigger] column_voxels(solid, first, end)[k] as int,
            ),
    decreases end - first,
{
    let records = column_records(solid, cx, cz, first, end);
    assert forall|i: int| 0 <= i < end - first implies valid_chunk_key(
        #[trigger] records[i].key as int,
    ) by {
        lemma_chunk_key_round_trip(cx, first + i + 4, cz);
    }
    if first < end {
        lemma_column_consistent(solid, cx, cz, first, end - 1);
        lemma_section_shape(solid, end - 1);
        let shorter = column_records(solid, cx, cz, first, end - 1);
        let last = seq![section_record(solid, cx, cz, end - 1)];
        assert(records =~= shorter + last);
        lemma_offset_concat(shorter, last, 1);
        assert(offset(last, 1) == offset(last, 0) + last[0].voxel_count);
    }
}

/// The records and the voxels of the first `n` columns fit together, before
/// the exposure filter as they do after it: the counts add up to the number
/// of voxels.
pub proof fn lemma_loaded_consistent(reads: Seq<ColumnRead>, n: int)
    requires
        0 <= n <= COLUMN_COUNT,
    ensures
        consistent(loaded_records(reads, n), loaded_voxels(reads, n)),
        loaded_records(reads, n).len() <= n * 256,
        loaded_voxels(reads, n).len() <= n * 0x10_0000,
    decreases n,
{
    if n > 0 {
        lemma_loaded_consistent(reads, n - 1);
        let chunks = loaded_records(reads, n - 1);
        let voxels = loaded_voxels(reads, n - 1);
        let more_chunks = read_records(reads[n - 1], n - 1);
        let more_voxels = read_voxels(reads[n - 1]);
        match reads[n - 1] {
            ColumnRead::Decoded(column) => {
                lemma_column_consistent(
                    column.solid(),
                    (n - 1) / 32,
                    (n - 1) % 32,
                    first_layer(column.heights()),
                    layer_end(column.heights()),
                );
            },
            _ => {},
        }
        lemma_offset_concat(chunks, more_chunks, more_chunks.len() as int);
    }
}

/// Where a chunk stands in scan order: columns by `x`, then by `z`, and the
/// chunks of a column from the lowest up.
pub open spec fn scan_rank(key: u32) -> int {
    (key_column_x(key as int) * 32 + key_column_z(key as int)) * 256 + key_level(key as int)
}

/// The records stand in scan order, each chunk once.
pub open spec fn in_scan_order(chunks: Seq<ChunkRecord>) -> bool {
    forall|i: int, j: int|
        0 <= i < j < chunks.len() ==> scan_rank(#[trigger] chunks[i].key) < scan_rank(
            #[trigger] chunks[j].key,
        )
}

/// The records of the first `n` columns stand in scan order, so no two of
/// them have the same key.
pub proof fn lemma_loaded_in_scan_order(reads: Seq<ColumnRead>, n: int)
    requires
        0 <= n <= COLUMN_COUNT,
    ensures
        in_scan_order(loaded_records(reads, n)),
        forall|i: int|
            0 <= i < loaded_records(reads, n).len() ==> 0 <= scan_rank(
                #[trigger] loaded_records(reads, n)[i].key,
            ) < n * 256,
    decreases n,
{
    if n > 0 {
        lemma_loaded_in_scan_order(reads, n - 1);
        let before = loaded_records(reads, n - 1);
        let added = read_records(reads[n - 1], n - 1);
        let all = loaded_records(reads, n);
        let lowest: int = match reads[n - 1] {
            ColumnRead::Decoded(column) => first_layer(column.heights()) + 4,
            _ => 0,
        };
        assert(0 <= lowest && lowest + added.len() <= 256);
        assert forall|i: int| 0 <= i < added.len() implies scan_rank(#[trigger] added[i].key) == (n
            - 1) * 256 + lowest + i by {
            lemma_chunk_key_round_trip((n - 1) / 32, lowest + i, (n - 1) % 32);
        }
        assert forall|i: int, j: int| 0 <= i < j < all.len() implies scan_rank(
            #[trigger] all[i].key,
        ) < scan_rank(#[trigger] all[j].key) by {
            if j < before.len() {
                assert(all[i] == before[i] && all[j] == before[j]);
            } else if i < before.len() {
                assert(all[i] == before[i] && all[j] == added[j - before.len()]);
            } else {
                assert(all[i] == added[i - before.len()] && all[j] == added[j - before.len()]);
            }
        }
        assert forall|i: int| 0 <= i < all.len() implies 0 <= scan_rank(#[trigger] all[i].key) < n
            * 256 by {
            if i < before.len() {
                assert(all[i] == before[i]);
            } else {
                assert(all[i] == added[i - before.len()]);
            }
        }
    }
}

/// The exposure filter leaves the records in scan order.
pub proof fn lemma_filter_keeps_scan_order(
    chunks: Seq<ChunkRecord>,
    voxels: Seq<u32>,
    occupied: Set<Point>,
)
    requires
        in_scan_order(chunks),
    ensures
        in_scan_order(exposed_records(chunks, voxels, occupied)),
{
    let kept = exposed_records(chunks, voxels, occupied);
    assert forall|i: int, j: int| 0 <= i < j < kept.len() implies scan_rank(
        #[trigger] kept[i].key,
    ) < scan_rank(#[trigger] kept[j].key) by {
        assert(kept[i].key == chunks[i].key && kept[j].key == chunks[j].key);
    }
}

/// Takes the columns of a region one by one, and builds the region when all
/// are in.
#[derive(Debug)]
pub struct RegionLoader {
    chunks: Vec<ChunkRecord>,
    voxels: Vec<u32>,
    columns: usize,
    failed: bool,
}

impl RegionLoader {
    /// The records taken in so far.
    pub closed spec fn records(&self) -> Seq<ChunkRecord> {
        self.chunks@
    }

    /// The voxels taken in so far.
    pub closed spec fn voxels(&self) -> Seq<u32> {
        self.voxels@
    }

    /// How many columns were taken in.
    pub closed spec fn columns(&self) -> int {
        self.columns as int
    }

    /// Whether one of the columns could not be read.
    pub closed spec fn failed(&self) -> bool {
        self.failed
    }

    /// What holds of every loader: what it has taken in fits together, and
    /// is no more than the columns taken in can hold.
    #[verifier::type_invariant]
    pub open spec fn wf(&self) -> bool {
        &&& consistent(self.records(), self.voxels())
        &&& 0 <= self.columns() <= COLUMN_COUNT
        &&& self.records().len() <= self.columns() * 256
        &&& self.voxels().len() <= self.columns() * 0x10_0000
    }

    /// A loader that has taken in no column.
    pub fn new() -> (loader: RegionLoader)
        ensures
            loader.records() == Seq::<ChunkRecord>::empty(),
            loader.voxels() == Seq::<u32>::empty(),
            loader.columns() == 0,
            !loader.failed(),
    {
        RegionLoader { chunks: Vec::new(), voxels: Vec::new(), columns: 0, failed: false }
    }

    /// The records taken in so far.
    pub fn chunks(&self) -> (records: &[ChunkRecord])
        ensures
            records@ == self.records(),
    {
        self.chunks.as_slice()
    }

    /// The voxels taken in so far.
    pub fn blocks(&self) -> (voxels: &[u32])
        ensures
            voxels@ == self.voxels(),
    {
        self.voxels.as_slice()
    }

    /// How many columns were taken in.
    pub fn column_count(&self) -> (count: usize)
        ensures
            count == self.columns(),
    {
        self.columns
    }

    /// Whether one of the columns could not be read.
    pub fn has_failed(&self) -> (failed: bool)
        ensures
            failed == self.failed(),
    {
        self.failed
    }

    /// Takes in the next column.  Nothing changes when all columns are in
    /// already.  After a column that could not be read the loader has
    /// failed, and keeps nothing of the columns that follow.
    pub fn push(self, read: &ColumnRead) -> (next: RegionLoader)
        ensures
            next.columns() == if self.columns() < COLUMN_COUNT {
                self.columns() + 1
            } else {
                self.columns()
            },
            next.failed() == (self.failed() || (self.columns() < COLUMN_COUNT
                && *read is Unreadable)),
            self.columns() < COLUMN_COUNT && !next.failed() ==> {
                &&& next.records() == self.records() + read_records(*read, self.columns())
                &&& next.voxels() == self.voxels() + read_voxels(*read)
            },
            self.columns() >= COLUMN_COUNT || next.failed() ==> {
                &&& next.records() == self.records()
                &&& next.voxels() == self.voxels()
            },
    {
        proof {
            use_type_invariant(&self);
        }
        if self.columns >= COLUMN_COUNT || self.failed {
            let columns: usize = if self.columns >= COLUMN_COUNT {
                self.columns
            } else {
                self.columns + 1
            };
            return RegionLoader {
                chunks: self.chunks,
                voxels: self.voxels,
                columns,
                failed: self.failed,
            };
        }
        let index: usize = self.columns;
        let mut chunks = self.chunks;
        let mut voxels = self.voxels;
        let mut failed = false;
        let ghost old_chunks = chunks@;
        let ghost old_voxels = voxels@;
        match read {
            ColumnRead::Unreadable => {
                failed = true;
            },
            ColumnRead::Missing => {
                assert(chunks@ + Seq::<ChunkRecord>::empty() =~= chunks@);
                assert(voxels@ + Seq::<u32>::empty() =~= voxels@);
            },
            ColumnRead::Undecodable => {
                assert(chunks@ + Seq::<ChunkRecord>::empty() =~= chunks@);
                assert(voxels@ + Seq::<u32>::empty() =~= voxels@);
            },
            ColumnRead::Decoded(column) => {
                let cx: u8 = (index / REGION_EDGE) as u8;
                let cz: u8 = (index % REGION_EDGE) as u8;
                let (first, end) = layer_range(column);
                let ghost solid = column.solid();
                let mut layer: i32 = first;
                assert(old_chunks + column_records(solid, cx as int, cz as int, first as int, first as int)
                    =~= old_chunks);
                assert(old_voxels + column_voxels(solid, first as int, first as int) =~= old_voxels);
                while layer < end
                    invariant
                        -4 <= first <= layer <= end <= 252,
                        solid == column.solid(),
                        index < COLUMN_COUNT,
                        cx == index / 32,
                        cz == index % 32,
                        consistent(chunks@, voxels@),
                        old_chunks.len() <= index * 256,
                        old_voxels.len() <= index * 0x10_0000,
                        voxels@.len() <= old_voxels.len() + (layer - first) * 4096,
                        chunks@ == old_chunks + column_records(
                            solid,
                            cx as int,
                            cz as int,
                            first as int,
                            layer as int,
                        ),
                        voxels@ == old_voxels + column_voxels(solid, first as int, layer as int),
                    decreases end - layer,
                {
                    let ghost chunks_before = chunks@;
                    let count = scan_section(column, layer, &mut voxels);
                    let key = match pack_chunk(cx, layer, cz) {
                        Some(key) => key,
                        None => unreached(),
                    };
                    let record = ChunkRecord { voxel_count: count, key };
                    chunks.push(record);
                    proof {
                        lemma_section_shape(solid, layer as int);
                        assert(record == section_record(solid, cx as int, cz as int, layer as int));
                        assert(chunks@ =~= old_chunks + column_records(
                            solid,
                            cx as int,
                            cz as int,
                            first as int,
                            layer + 1,
                        ));
                        assert(voxels@ =~= old_voxels + column_voxels(
                            solid,
                            first as int,
                            layer + 1,
                        ));
                        lemma_offset_prefix(chunks_before, chunks@, chunks_before.len() as int);
                        assert(offset(chunks@, chunks@.len() as int) == offset(
                            chunks@,
                            chunks_before.len() as int,
                        ) + count);
                    }
                    layer = layer + 1;
                }
            },
        }
        RegionLoader { chunks, voxels, columns: index + 1, failed }
    }

    /// Builds the region: `None` unless all columns are in and each could be
    /// read.  The region holds what the exposure filter leaves of the loaded
    /// voxels, the occupied positions being those of all loaded voxels.
    pub fn finish(self) -> (region: Option<Region>)
        ensures
            region is Some <==> !self.failed() && self.columns() == COLUMN_COUNT,
            region matches Some(r) ==> {
                &&& r.wf()
                &&& r.records() == exposed_records(
                    self.records(),
                    self.voxels(),
                    occupied_points(self.records(), self.voxels()),
                )
                &&& r.voxels() == exposed_voxels(
                    self.records(),
                    self.voxels(),
                    occupied_points(self.records(), self.voxels()),
                    self.records().len() as int,
                )
            },
    {
        proof {
            use_type_invariant(&self);
        }
        if self.failed || self.columns != COLUMN_COUNT {
            return None;
        }
        let loaded = Region::assemble(self.chunks, self.voxels);
        let occupied = loaded.occupied();
        Some(loaded.retain_exposed(&occupied))
    }
}

impl Region {
    /// Loads a region from what came of reading its 1024 columns, given in
    /// scan order.  `None` unless there are exactly 1024 of them and each
    /// could be read; a column that is missing or could not be decoded is
    /// left out, and the others are loaded.
    pub fn new(reads: &Vec<ColumnRead>) -> (region: Option<Region>)
        ensures
            region is Some <==> reads@.len() == COLUMN_COUNT && !unreadable_before(
                reads@,
                COLUMN_COUNT as int,
            ),
            region matches Some(r) ==> {
                let chunks = loaded_records(reads@, COLUMN_COUNT as int);
                let voxels = loaded_voxels(reads@, COLUMN_COUNT as int);
                &&& r.wf()
                &&& r.records() == exposed_records(chunks, voxels, occupied_points(chunks, voxels))
                &&& r.voxels() == exposed_voxels(
                    chunks,
                    voxels,
                    occupied_points(chunks, voxels),
                    chunks.len() as int,
                )
            },
    {
        if reads.len() != COLUMN_COUNT {
            return None;
        }
        let mut loader = RegionLoader::new();
        let mut i: usize = 0;
        while i < COLUMN_COUNT
            invariant
                reads@.len() == COLUMN_COUNT,
                i <= COLUMN_COUNT,
                loader.columns() == i,
                loader.failed() == unreadable_before(reads@, i as int),
                !loader.failed() ==> loader.records() == loaded_records(reads@, i as int),
                !loader.failed() ==> loader.voxels() == loaded_voxels(reads@, i as int),
            decreases COLUMN_COUNT - i,
        {
            loader = loader.push(&reads[i]);
            proof {
                if reads@[i as int] is Unreadable {
                    assert(unreadable_before(reads@, i as int + 1));
                }
                if unreadable_before(reads@, i as int + 1) {
                    let j = choose|j: int|
                        0 <= j < i + 1 && j < reads@.len() && #[trigger] reads@[j] is Unreadable;
                    if j < i {
                        assert(unreadable_before(reads@, i as int));
                    }
                }
            }
            i = i + 1;
        }
        loader.finish()
    }
}

} // verus!
