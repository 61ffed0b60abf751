//! One frame: chunk visibility, compaction, face generation and the draw
//! arguments, in that order, each stage reading what the one before wrote.
use vstd::pervasive::unreached;
use vstd::prelude::*;
use crate::compaction::{compact, lemma_contributions_bounded, running_sum, Compaction};
use crate::cull::{contributions, cull_chunks};
use crate::draw::DrawArgs;
use crate::faces::{generate_faces, region_faces, Face};
use crate::frustum::Frustum;
use crate::region::Region;
use crate::space::Position;

verus! {

/// What the stages of one frame produced.
#[derive(Debug)]
pub struct Frame {
    /// The contribution of each chunk.
    pub contributions: Vec<u32>,
    /// The running sums over the contributions.
    pub compaction: Compaction,
    /// The face array; its length is the cursor.
    pub faces: Vec<Face>,
}

/// Runs the stages of one frame on a region.  The chunks are tested against
/// `chunk_frustum`, the faces against `face_frustum`, and the number of faces
/// is written into `args`.
pub fn run_frame(
    region: &Region,
    eye: Position,
    chunk_frustum: &Frustum,
    face_frustum: &Frustum,
    args: &mut DrawArgs,
) -> (frame: Frame)
    ensures
        frame.contributions@ == contributions(region.records(), *chunk_frustum),
        frame.compaction.offsets@.len() == region.records().len(),
        forall|i: int|
            0 <= i < region.records().len() ==> #[trigger] frame.compaction.offsets@[i]
                == running_sum(frame.contributions@, i),
        frame.compaction.total == running_sum(
            frame.contributions@,
            region.records().len() as int,
        ),
        frame.faces@ == region_faces(
            region.records(),
            region.voxels(),
            frame.contributions@,
            region.records().len() as int,
            eye@,
            *face_frustum,
        ),
        *final(args) == (DrawArgs { vertex_count: frame.faces@.len() as u32, ..*old(args) }),
        frame.faces@.len() <= u32::MAX,
{
    proof {
        use_type_invariant(region);
        lemma_contributions_bounded(
            region.records(),
            *chunk_frustum,
            region.records().len() as int,
        );
    }
    let counts = cull_chunks(region, chunk_frustum);
    let compaction = match compact(&counts) {
        Some(compaction) => compaction,
        None => unreached(),
    };
    let faces = generate_faces(region, &counts, eye, face_frustum);
    args.write_vertex_count(faces.len() as u32);
    Frame { contributions: counts, compaction, faces }
}

} // verus!
