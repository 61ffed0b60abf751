//! The face generation pass: every voxel of a chunk that takes part in the
//! frame is asked, side by side, whether that side is turned to the eye and
//! not rejected by the frustum; each side that passes is appended to the face
//! array, and the cursor is the number of faces appended.
//!
//! The eye is given by the lattice cell it is in, so at most one of two
//! opposite sides is turned to it, and a voxel gives at most three faces.
use vstd::prelude::*;
use crate::chunk::ChunkRecord;
use crate::filtering::{lemma_filter_members, lemma_filter_step};
use crate::frustum::Frustum;
use crate::region::{consistent, lemma_offset_monotone, offset, Region};
use crate::space::{shifted, world_point, world_position, Point, Position};

verus! {

/// One of the six sides of a voxel, named by the direction it looks in:
/// west and east along `x`, down and up along `y`, north and south along `z`.
#[derive(Clone, Copy, Debug, PartialEq, Eq, Structural)]
pub enum Side {
    West,
    East,
    Down,
    Up,
    North,
    South,
}

/// One face of the face array: a side of a voxel of a chunk.
#[derive(Clone, Copy, Debug, PartialEq, Eq, Structural)]
pub struct Face {
    pub chunk: u32,
    pub voxel: u32,
    pub side: Side,
}

/// The sides in the order in which a voxel is asked about them.
pub open spec fn side_at(i: int) -> Side {
    if i == 0 {
        Side::West
    } else if i == 1 {
        Side::East
    } else if i == 2 {
        Side::Down
    } else if i == 3 {
        Side::Up
    } else if i == 4 {
        Side::North
    } else {
        Side::South
    }
}

/// The side of the voxel at `cell` is turned to an eye in the cell `eye`.
pub open spec fn turned_to(side: Side, eye: Point, cell: Point) -> bool {
    match side {
        Side::West => eye.x < cell.x,
        Side::East => eye.x > cell.x,
        Side::Down => eye.y < cell.y,
        Side::Up => eye.y > cell.y,
        Side::North => eye.z < cell.z,
        Side::South => eye.z > cell.z,
    }
}

/// The lowest corner of a side of the voxel at `cell`.
pub open spec fn face_low(side: Side, cell: Point) -> Point {
    match side {
        Side::East => shifted(cell, 1, 0, 0),
        Side::Up => shifted(cell, 0, 1, 0),
        Side::South => shifted(cell, 0, 0, 1),
        _ => cell,
    }
}

/// The highest corner of a side of the voxel at `cell`.
pub open spec fn face_high(side: Side, cell: Point) -> Point {
    match side {
        Side::West => shifted(cell, 0, 1, 1),
        Side::Down => shifted(cell, 1, 0, 1),
        Side::North => shifted(cell, 1, 1, 0),
        _ => shifted(cell, 1, 1, 1),
    }
}

/// The test of one face: the side is turned to the eye, and the frustum does
/// not reject its square.
pub open spec fn face_visible(frustum: Frustum, eye: Point, cell: Point, side: Side) -> bool {
    turned_to(side, eye, cell) && !frustum.misses(face_low(side, cell), face_high(side, cell))
}

/// The test as it is put to the faces of a region.
pub open spec fn survives(frustum: Frustum, eye: Point) -> spec_fn(Face) -> bool {
    |face: Face| face_visible(frustum, eye, world_point(face.chunk as int, face.voxel as int), face.side)
}

/// The six faces of a voxel, in the order of the sides.
pub open spec fn candidates(chunk: u32, voxel: u32) -> Seq<Face> {
    Seq::new(6, |i: int| Face { chunk, voxel, side: side_at(i) })
}

/// The faces of a voxel that pass the test.
pub open spec fn voxel_faces(chunk: u32, voxel: u32, eye: Point, frustum: Frustum) -> Seq<Face> {
    candidates(chunk, voxel).filter(survives(frustum, eye))
}

/// The faces of the first `m` voxels of the slice of record `i`.
pub open spec fn slice_faces(
    chunks: Seq<ChunkRecord>,
    voxels: Seq<u32>,
    i: int,
    m: int,
    eye: Point,
    frustum: Frustum,
) -> Seq<Face>
    decreases m,
{
    if m <= 0 {
        Seq::empty()
    } else {
        slice_faces(chunks, voxels, i, m - 1, eye, frustum) + voxel_faces(
            chunks[i].key,
            voxels[offset(chunks, i) + m - 1],
            eye,
            frustum,
        )
    }
}

/// Chunk `i` takes part in the frame: its contribution is not zero.
pub open spec fn live(counts: Seq<u32>, i: int) -> bool {
    0 <= i < counts.len() && counts[i] != 0
}

/// The faces of chunk `i`: none when it does not take part in the frame.
pub open spec fn chunk_faces(
    chunks: Seq<ChunkRecord>,
    voxels: Seq<u32>,
    counts: Seq<u32>,
    i: int,
    eye: Point,
    frustum: Frustum,
) -> Seq<Face> {
    if live(counts, i) {
        slice_faces(chunks, voxels, i, chunks[i].voxel_count as int, eye, frustum)
    } else {
        Seq::empty()
    }
}

/// The faces of the first `n` chunks.
pub open spec fn region_faces(
    chunks: Seq<ChunkRecord>,
    voxels: Seq<u32>,
    counts: Seq<u32>,
    n: int,
    eye: Point,
    frustum: Frustum,
) -> Seq<Face>
    decreases n,
{
    if n <= 0 {
        Seq::empty()
    } else {
        region_faces(chunks, voxels, counts, n - 1, eye, frustum) + chunk_faces(
            chunks,
            voxels,
            counts,
            n - 1,
            eye,
            frustum,
        )
    }
}

/// One when the test holds, zero when it does not.
pub open spec fn one_if(passes: bool) -> int {
    if passes {
        1
    } else {
        0
    }
}

/// How many of the six sides of a voxel pass the test, each side asked by
/// itself.
pub open spec fn passing_sides(chunk: u32, voxel: u32, eye: Point, frustum: Frustum) -> int {
    let cell = world_point(chunk as int, voxel as int);
    one_if(face_visible(frustum, eye, cell, Side::West)) + one_if(
        face_visible(frustum, eye, cell, Side::East),
    ) + one_if(face_visible(frustum, eye, cell, Side::Down)) + one_if(
        face_visible(frustum, eye, cell, Side::Up),
    ) + one_if(face_visible(frustum, eye, cell, Side::North)) + one_if(
        face_visible(frustum, eye, cell, Side::South),
    )
}

/// How many sides pass the test among the first `m` voxels of the slice of
/// record `i`.
pub open spec fn slice_passing(
    chunks: Seq<ChunkRecord>,
    voxels: Seq<u32>,
    i: int,
    m: int,
    eye: Point,
    frustum: Frustum,
) -> int
    decreases m,
{
    if m <= 0 {
        0
    } else {
        slice_passing(chunks, voxels, i, m - 1, eye, frustum) + passing_sides(
            chunks[i].key,
            voxels[offset(chunks, i) + m - 1],
            eye,
            frustum,
        )
    }
}

/// How many sides pass the test among the voxels of those of the first `n`
/// chunks that take part in the frame.
pub open spec fn region_passing(
    chunks: Seq<ChunkRecord>,
    voxels: Seq<u32>,
    counts: Seq<u32>,
    n: int,
    eye: Point,
    frustum: Frustum,
) -> int
    decreases n,
{
    if n <= 0 {
        0
    } else {
        region_passing(chunks, voxels, counts, n - 1, eye, frustum) + if live(counts, n - 1) {
            slice_passing(chunks, voxels, n - 1, chunks[n - 1].voxel_count as int, eye, frustum)
        } else {
            0
        }
    }
}

/// The number of faces of a voxel is the number of its sides that pass the
/// test, and never more than three.
pub proof fn lemma_voxel_faces_count(chunk: u32, voxel: u32, eye: Point, frustum: Frustum)
    ensures
        voxel_faces(chunk, voxel, eye, frustum).len() == passing_sides(chunk, voxel, eye, frustum),
        voxel_faces(chunk, voxel, eye, frustum).len() <= 3,
{
    let all = candidates(chunk, voxel);
    let test = survives(frustum, eye);
    lemma_filter_step(all, test, 0);
    lemma_filter_step(all, test, 1);
    lemma_filter_step(all, test, 2);
    lemma_filter_step(all, test, 3);
    lemma_filter_step(all, test, 4);
    lemma_filter_step(all, test, 5);
    assert(all.subrange(0, 6) =~= all);
    assert(all[0].side == Side::West && all[1].side == Side::East);
    assert(all[2].side == Side::Down && all[3].side == Side::Up);
    assert(all[4].side == Side::North && all[5].side == Side::South);
}

/// The number of faces of the start of a slice is the number of sides that
/// pass there, and never more than three for a voxel.
pub proof fn lemma_slice_faces_count(
    chunks: Seq<ChunkRecord>,
    voxels: Seq<u32>,
    i: int,
    m: int,
    eye: Point,
    frustum: Frustum,
)
    requires
        0 <= m,
    ensures
        slice_faces(chunks, voxels, i, m, eye, frustum).len() == slice_passing(
            chunks,
            voxels,
            i,
            m,
            eye,
            frustum,
        ),
        slice_faces(chunks, voxels, i, m, eye, frustum).len() <= 3 * m,
    decreases m,
{
    if m > 0 {
        lemma_slice_faces_count(chunks, voxels, i, m - 1, eye, frustum);
        lemma_voxel_faces_count(chunks[i].key, voxels[offset(chunks, i) + m - 1], eye, frustum);
    }
}

/// The cursor counts exactly the sides that pass the test: the number of
/// faces of a region is the number of sides that pass, each asked by itself,
/// among the voxels of the chunks that take part in the frame.  It is never
/// more than three times the number of voxels.
pub proof fn lemma_cursor_counts_passing(
    chunks: Seq<ChunkRecord>,
    voxels: Seq<u32>,
    counts: Seq<u32>,
    n: int,
    eye: Point,
    frustum: Frustum,
)
    requires
        0 <= n <= chunks.len(),
    ensures
        region_faces(chunks, voxels, counts, n, eye, frustum).len() == region_passing(
            chunks,
            voxels,
            counts,
            n,
            eye,
            frustum,
        ),
        region_faces(chunks, voxels, counts, n, eye, frustum).len() <= 3 * offset(chunks, n),
    decreases n,
{
    if n > 0 {
        lemma_cursor_counts_passing(chunks, voxels, counts, n - 1, eye, frustum);
        lemma_slice_faces_count(
            chunks,
            voxels,
            n - 1,
            chunks[n - 1].voxel_count as int,
            eye,
            frustum,
        );
    }
}

/// Every face of the start of a slice passes the test by itself.
pub proof fn lemma_slice_faces_pass(
    chunks: Seq<ChunkRecord>,
    voxels: Seq<u32>,
    i: int,
    m: int,
    eye: Point,
    frustum: Frustum,
    k: int,
)
    requires
        0 <= k < slice_faces(chunks, voxels, i, m, eye, frustum).len(),
    ensures
        survives(frustum, eye)(slice_faces(chunks, voxels, i, m, eye, frustum)[k]),
    decreases m,
{
    let before = slice_faces(chunks, voxels, i, m - 1, eye, frustum);
    if k < before.len() {
        lemma_slice_faces_pass(chunks, voxels, i, m - 1, eye, frustum, k);
    } else {
        let voxel = voxels[offset(chunks, i) + m - 1];
        let added = voxel_faces(chunks[i].key, voxel, eye, frustum);
        let face = added[k - before.len()];
        assert(added.contains(face));
        lemma_filter_members(candidates(chunks[i].key, voxel), survives(frustum, eye), face);
    }
}

/// Every face in the face array passes the test by itself: nothing is
/// written that does not belong there.
pub proof fn lemma_faces_pass(
    chunks: Seq<ChunkRecord>,
    voxels: Seq<u32>,
    counts: Seq<u32>,
    n: int,
    eye: Point,
    frustum: Frustum,
    k: int,
)
    requires
        0 <= k < region_faces(chunks, voxels, counts, n, eye, frustum).len(),
    ensures
        survives(frustum, eye)(region_faces(chunks, voxels, counts, n, eye, frustum)[k]),
    decreases n,
{
    let before = region_faces(chunks, voxels, counts, n - 1, eye, frustum);
    if k < before.len() {
        lemma_faces_pass(chunks, voxels, counts, n - 1, eye, frustum, k);
    } else {
        lemma_slice_faces_pass(
            chunks,
            voxels,
            n - 1,
            chunks[n - 1].voxel_count as int,
            eye,
            frustum,
            k - before.len(),
        );
    }
}

/// A chunk that contributes nothing gives no face, whatever its voxels and
/// whatever the test of the faces says.
pub proof fn lemma_culled_chunk_is_silent(
    chunks: Seq<ChunkRecord>,
    voxels: Seq<u32>,
    counts: Seq<u32>,
    i: int,
    eye: Point,
    frustum: Frustum,
)
    requires
        !live(counts, i),
    ensures
        chunk_faces(chunks, voxels, counts, i, eye, frustum) == Seq::<Face>::empty(),
{
}

impl Side {
    /// The side with number `i` in the order in which a voxel is asked.
    pub fn from_index(i: usize) -> (side: Side)
        ensures
            side == side_at(i as int),
    {
        if i == 0 {
            Side::West
        } else if i == 1 {
            Side::East
        } else if i == 2 {
            Side::Down
        } else if i == 3 {
            Side::Up
        } else if i == 4 {
            Side::North
        } else {
            Side::South
        }
    }

    /// Whether this side of the voxel at `cell` is turned to an eye in the
    /// cell `eye`.
    pub fn is_turned_to(self, eye: Position, cell: Position) -> (turned: bool)
        ensures
            turned == turned_to(self, eye@, cell@),
    {
        match self {
            Side::West => eye.x < cell.x,
            Side::East => eye.x > cell.x,
            Side::Down => eye.y < cell.y,
            Side::Up => eye.y > cell.y,
            Side::North => eye.z < cell.z,
            Side::South => eye.z > cell.z,
        }
    }

    /// The two corners of this side of the voxel at `cell`.
    pub fn bounds(self, cell: Position) -> (corners: (Position, Position))
        requires
            cell.x < i32::MAX,
            cell.y < i32::MAX,
            cell.z < i32::MAX,
        ensures
            corners.0@ == face_low(self, cell@),
            corners.1@ == face_high(self, cell@),
    {
        let Position { x, y, z } = cell;
        match self {
            Side::West => (cell, Position { x, y: y + 1, z: z + 1 }),
            Side::East => (Position { x: x + 1, y, z }, Position { x: x + 1, y: y + 1, z: z + 1 }),
            Side::Down => (cell, Position { x: x + 1, y, z: z + 1 }),
            Side::Up => (Position { x, y: y + 1, z }, Position { x: x + 1, y: y + 1, z: z + 1 }),
            Side::North => (cell, Position { x: x + 1, y: y + 1, z }),
            Side::South => (Position { x, y, z: z + 1 }, Position { x: x + 1, y: y + 1, z: z + 1 }),
        }
    }
}

/// Puts the test to one face.
pub fn is_face_visible(frustum: &Frustum, eye: Position, face: Face) -> (visible: bool)
    ensures
        visible == survives(*frustum, eye@)(face),
{
    let cell = world_position(face.chunk, face.voxel);
    if face.side.is_turned_to(eye, cell) {
        let (low, high) = face.side.bounds(cell);
        !frustum.rejects(low, high)
    } else {
        false
    }
}

/// Appends the faces of one voxel that pass the test, and returns how many
/// they are.
pub fn emit_voxel_faces(
    chunk: u32,
    voxel: u32,
    eye: Position,
    frustum: &Frustum,
    faces: &mut Vec<Face>,
) -> (count: u32)
    ensures
        final(faces)@ == old(faces)@ + voxel_faces(chunk, voxel, eye@, *frustum),
        count == voxel_faces(chunk, voxel, eye@, *frustum).len(),
        count <= 3,
{
    let ghost before = faces@;
    let ghost all = candidates(chunk, voxel);
    let ghost test = survives(*frustum, eye@);
    let mut count: u32 = 0;
    let mut i: usize = 0;
    proof {
        lemma_filter_step(all, test, 0);
        assert(before + Seq::<Face>::empty() =~= before);
    }
    while i < 6
        invariant
            i <= 6,
            all == candidates(chunk, voxel),
            test == survives(*frustum, eye@),
            faces@ == before + all.subrange(0, i as int).filter(test),
            count == all.subrange(0, i as int).filter(test).len(),
            count <= i,
        decreases 6 - i,
    {
        let face = Face { chunk, voxel, side: Side::from_index(i) };
        proof {
            lemma_filter_step(all, test, i as int);
            assert(all[i as int] == face);
        }
        if is_face_visible(frustum, eye, face) {
            faces.push(face);
            count = count + 1;
            assert(faces@ =~= before + all.subrange(0, i as int + 1).filter(test));
        }
        i = i + 1;
    }
    proof {
        assert(all.subrange(0, 6) =~= all);
        lemma_voxel_faces_count(chunk, voxel, eye@, *frustum);
    }
    count
}

/// The face generation pass.  `counts` holds the contribution of each chunk;
/// a chunk for which it holds none, or zero, gives no face.
pub fn generate_faces(region: &Region, counts: &Vec<u32>, eye: Position, frustum: &Frustum) -> (faces:
    Vec<Face>)
    ensures
        faces@ == region_faces(
            region.records(),
            region.voxels(),
            counts@,
            region.records().len() as int,
            eye@,
            *frustum,
        ),
        faces@.len() <= 3 * region.voxels().len(),
        faces@.len() <= u32::MAX,
{
    proof {
        use_type_invariant(region);
    }
    let chunks = region.chunks();
    let voxels = region.blocks();
    let mut faces: Vec<Face> = Vec::new();
    let mut start: usize = 0;
    let mut i: usize = 0;
    while i < chunks.len()
        invariant
            consistent(chunks@, voxels@),
            i <= chunks.len(),
            start == offset(chunks@, i as int),
            start <= voxels.len(),
            faces@ == region_faces(chunks@, voxels@, counts@, i as int, eye@, *frustum),
            faces@.len() <= 3 * start,
        decreases chunks.len() - i,
    {
        let record = chunks[i];
        proof {
            lemma_offset_monotone(chunks@, i as int + 1, chunks@.len() as int);
        }
        let end: usize = start + record.voxel_count as usize;
        let ghost before = faces@;
        if i < counts.len() && counts[i] != 0 {
            let mut k: usize = start;
            assert(before + Seq::<Face>::empty() =~= before);
            while k < end
                invariant
                    i < chunks.len(),
                    record == chunks@[i as int],
                    start == offset(chunks@, i as int),
                    start <= k <= end <= voxels.len(),
                    voxels@.len() <= 0x4000_0000,
                    before.len() <= 3 * start,
                    faces@ == before + slice_faces(
                        chunks@,
                        voxels@,
                        i as int,
                        k - start,
                        eye@,
                        *frustum,
                    ),
                    faces@.len() <= 3 * k,
                decreases end - k,
            {
                let ghost sofar = faces@;
                emit_voxel_faces(record.key, voxels[k], eye, frustum, &mut faces);
                proof {
                    assert(faces@ =~= before + slice_faces(
                        chunks@,
                        voxels@,
                        i as int,
                        k - start + 1,
                        eye@,
                        *frustum,
                    ));
                }
                k = k + 1;
            }
        } else {
            assert(before + Seq::<Face>::empty() =~= before);
        }
        start = end;
        i = i + 1;
    }
    faces
}

} // verus!
