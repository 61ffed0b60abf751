//! What the device is handed for a frame: how many workgroups each pass
//! takes, how large the face array has to be, and the bytes of the buffers
//! that hold the region.
use vstd::prelude::*;
use vstd::slice::slice_to_vec;
use crate::chunk::ChunkRecord;
use crate::draw::DrawArgs;
use crate::region::Region;

verus! {

/// How many invocations one workgroup of a compute pass runs.
pub const WORKGROUP_SIZE: u32 = 256;

/// How many faces a voxel can give at most.
pub const FACES_PER_VOXEL: u64 = 3;

/// The size of one face in the face array, in bytes.
pub const FACE_BYTES: u64 = 8;

/// Byte `k` of a word, counted from the least significant one.
pub open spec fn word_byte(word: u32, k: int) -> u8 {
    if k == 0 {
        (word % 0x100) as u8
    } else if k == 1 {
        ((word / 0x100) % 0x100) as u8
    } else if k == 2 {
        ((word / 0x1_0000) % 0x100) as u8
    } else {
        ((word / 0x100_0000) % 0x100) as u8
    }
}

/// The bytes of a sequence of words, each word with its least significant
/// byte first.
pub open spec fn little_endian(words: Seq<u32>) -> Seq<u8> {
    Seq::new(4 * words.len(), |i: int| word_byte(words[i / 4], i % 4))
}

/// The bytes of a sequence of words, each word with its most significant
/// byte first.
pub open spec fn big_endian(words: Seq<u32>) -> Seq<u8> {
    Seq::new(4 * words.len(), |i: int| word_byte(words[i / 4], 3 - i % 4))
}

/// `bytes` are the words as the machine holds them in memory: in one of the
/// two byte orders.
pub open spec fn in_memory(bytes: Seq<u8>, words: Seq<u32>) -> bool {
    bytes == little_endian(words) || bytes == big_endian(words)
}

/// The records as words: the count of a record, then its key.
pub open spec fn record_words(chunks: Seq<ChunkRecord>) -> Seq<u32> {
    Seq::new(
        2 * chunks.len(),
        |i: int|
            if i % 2 == 0 {
                chunks[i / 2].voxel_count
            } else {
                chunks[i / 2].key
            },
    )
}

/// The bytes of a slice of words as they lie in memory.
///
/// This is `bytemuck::cast_slice` from `u32` to `u8`.  The target has
/// alignment one and size one, so the cast fails on no input; what comes back
/// is the memory of the words seen as bytes, four for each word, which on
/// every machine is one of the two byte orders.  Which of the two is not
/// said.
#[verifier::external_body]
fn word_bytes(words: &[u32]) -> (bytes: &[u8])
    ensures
        in_memory(bytes@, words@),
{
    bytemuck::cast_slice(words)
}

/// How many workgroups a pass over `items` items takes: the least number
/// whose invocations cover them.
pub fn workgroups(items: u32) -> (groups: u32)
    ensures
        groups == (items + WORKGROUP_SIZE - 1) / (WORKGROUP_SIZE as int),
        groups * WORKGROUP_SIZE >= items,
        groups > 0 ==> (groups - 1) * WORKGROUP_SIZE < items,
{
    items / WORKGROUP_SIZE + if items % WORKGROUP_SIZE == 0 {
        0
    } else {
        1
    }
}

/// The size in bytes of a face array that has room for every face that
/// `voxels` voxels can give.
pub fn face_buffer_size(voxels: u32) -> (bytes: u64)
    ensures
        bytes == voxels * FACES_PER_VOXEL * FACE_BYTES,
{
    voxels as u64 * FACES_PER_VOXEL * FACE_BYTES
}

/// How a render target is cut into screen tiles for the occlusion
/// classifier.
#[derive(Clone, Copy, Debug, PartialEq, Eq, Structural)]
pub struct TileGrid {
    /// Tiles along the width.
    pub columns: u32,
    /// Tiles along the height.
    pub rows: u32,
    /// The number of 32-bit words that hold one bit for each tile.
    pub words: u64,
    /// Workgroups along the width; one workgroup takes two by two tiles.
    pub groups_x: u32,
    /// Workgroups along the height.
    pub groups_y: u32,
}

/// The edge of a screen tile, in pixels.
pub const TILE_EDGE: u32 = 16;

/// `value` divided by `step`, rounded up.
pub open spec fn ceil_div(value: int, step: int) -> int {
    (value + step - 1) / step
}

/// The tile grid of a render target of `width` by `height` pixels.
pub fn tile_grid(width: u32, height: u32) -> (grid: TileGrid)
    ensures
        grid.columns == ceil_div(width as int, 16),
        grid.rows == ceil_div(height as int, 16),
        grid.words == ceil_div(grid.columns * grid.rows, 32),
        grid.groups_x == ceil_div(grid.columns as int, 2),
        grid.groups_y == ceil_div(grid.rows as int, 2),
{
    let columns: u32 = width / TILE_EDGE + if width % TILE_EDGE == 0 {
        0
    } else {
        1
    };
    let rows: u32 = height / TILE_EDGE + if height % TILE_EDGE == 0 {
        0
    } else {
        1
    };
    assert(columns as u64 * rows as u64 <= 0x1000_0000 * 0x1000_0000) by (nonlinear_arith)
        requires
            columns <= 0x1000_0000,
            rows <= 0x1000_0000,
    ;
    let tiles: u64 = columns as u64 * rows as u64;
    let words: u64 = tiles / 32 + if tiles % 32 == 0 {
        0
    } else {
        1
    };
    let groups_x: u32 = columns / 2 + columns % 2;
    let groups_y: u32 = rows / 2 + rows % 2;
    TileGrid { columns, rows, words, groups_x, groups_y }
}

/// The bytes of a buffer that holds the words.
pub fn words_buffer(words: &[u32]) -> (bytes: Vec<u8>)
    ensures
        in_memory(bytes@, words@),
        bytes@.len() == 4 * words@.len(),
{
    slice_to_vec(word_bytes(words))
}

/// The bytes of a buffer that holds one word.
pub fn word_buffer(word: u32) -> (bytes: Vec<u8>)
    ensures
        in_memory(bytes@, seq![word]),
        bytes@.len() == 4,
{
    let mut words: Vec<u32> = Vec::new();
    words.push(word);
    assert(words@ =~= seq![word]);
    words_buffer(words.as_slice())
}

impl Region {
    /// The number of chunk records.
    pub fn chunk_count(&self) -> (count: u32)
        ensures
            count == self.records().len(),
    {
        proof {
            use_type_invariant(self);
        }
        self.chunks().len() as u32
    }

    /// The number of voxels.
    pub fn voxel_count(&self) -> (count: u32)
        ensures
            count == self.voxels().len(),
    {
        proof {
            use_type_invariant(self);
        }
        self.blocks().len() as u32
    }

    /// The chunk records as words: the count of a record, then its key.
    pub fn chunk_words(&self) -> (words: Vec<u32>)
        ensures
            words@ == record_words(self.records()),
    {
        let chunks = self.chunks();
        let mut words: Vec<u32> = Vec::new();
        let mut i: usize = 0;
        while i < chunks.len()
            invariant
                i <= chunks.len(),
                words@.len() == 2 * i,
                forall|j: int| 0 <= j < 2 * i ==> #[trigger] words@[j] == record_words(chunks@)[j],
            decreases chunks.len() - i,
        {
            words.push(chunks[i].voxel_count);
            words.push(chunks[i].key);
            i = i + 1;
        }
        assert(words@ =~= record_words(chunks@));
        words
    }

    /// The bytes of the chunk-record buffer.
    pub fn chunk_buffer(&self) -> (bytes: Vec<u8>)
        ensures
            in_memory(bytes@, record_words(self.records())),
            bytes@.len() == 8 * self.records().len(),
    {
        let words = self.chunk_words();
        words_buffer(words.as_slice())
    }

    /// The bytes of the voxel buffer.
    pub fn voxel_buffer(&self) -> (bytes: Vec<u8>)
        ensures
            in_memory(bytes@, self.voxels()),
            bytes@.len() == 4 * self.voxels().len(),
    {
        words_buffer(self.blocks())
    }
}

impl DrawArgs {
    /// The bytes of the indirect draw argument buffer.
    pub fn buffer(&self) -> (bytes: Vec<u8>)
        ensures
            in_memory(
                bytes@,
                seq![
                    self.vertex_count,
                    self.instance_count,
                    self.first_vertex,
                    self.first_instance,
                ],
            ),
            bytes@.len() == 16,
    {
        let words = self.words();
        words_buffer(words.as_slice())
    }
}

} // verus!
