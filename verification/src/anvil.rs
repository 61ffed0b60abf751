//! Reading a chunk that the `fastanvil` crate has decoded.
//!
//! Only the surface heights are read here.  Looking up a block of a decoded
//! chunk can fail inside `fastanvil` when the sections of the chunk have
//! gaps, so the caller looks the blocks up and hands each name to
//! [`Column::set_block`].
use vstd::prelude::*;
use crate::column::Column;

verus! {

/// A chunk as `fastanvil` decodes it.
#[verifier::external_type_specification]
#[verifier::external_body]
pub struct ExChunk(fastanvil::complete::Chunk);

/// The heightmap that a decoded chunk holds: 256 heights, the one over
/// `(x, z)` at index `z * 16 + x`.
pub uninterp spec fn heightmap(chunk: fastanvil::complete::Chunk) -> Seq<int>;

/// The surface height over `(x, z)` as the chunk's own heightmap gives it.
///
/// This is `surface_height` of `fastanvil`'s `Chunk` trait on a decoded
/// chunk, in the mode that trusts the stored heightmap: it returns the entry
/// at index `z * 16 + x` of the 256 that the chunk holds, and fails where
/// that index is not below 256, which `x < 16` and `z < 16` rule out.
#[verifier::external_body]
fn surface_height(chunk: &fastanvil::complete::Chunk, x: usize, z: usize) -> (height: isize)
    requires
        x < 16,
        z < 16,
    ensures
        height == heightmap(*chunk)[(z * 16 + x) as int],
{
    fastanvil::Chunk::surface_height(chunk, x, z, fastanvil::HeightMode::Trust)
}

/// The heights of a chunk in the order in which a column keeps them: the
/// height over `(x, z)` at index `x * 16 + z`.
pub open spec fn column_heights(chunk: fastanvil::complete::Chunk) -> Seq<int> {
    Seq::new(256, |i: int| heightmap(chunk)[(i % 16) * 16 + i / 16])
}

/// Sets the 256 surface heights of `column` to those of `chunk`, and leaves
/// its cells as they are.
pub fn read_heights(chunk: &fastanvil::complete::Chunk, column: &mut Column)
    ensures
        final(column).heights() == column_heights(*chunk),
        final(column).solid() == old(column).solid(),
        final(column).lowest() == old(column).lowest(),
        final(column).highest() == old(column).highest(),
{
    let mut i: usize = 0;
    proof {
        column.lemma_heights_len();
    }
    while i < 256
        invariant
            i <= 256,
            column.heights().len() == 256,
            forall|j: int| 0 <= j < i ==> #[trigger] column.heights()[j] == column_heights(*chunk)[j],
            column.solid() == old(column).solid(),
            column.lowest() == old(column).lowest(),
            column.highest() == old(column).highest(),
        decreases 256 - i,
    {
        let x: usize = i / 16;
        let z: usize = i % 16;
        let height = surface_height(chunk, x, z);
        column.set_height(x, z, height);
        i = i + 1;
    }
    assert(column.heights() =~= column_heights(*chunk));
}

} // verus!
