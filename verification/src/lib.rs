//! Visibility and geometry compaction for a sparse voxel region.
//!
//! A [`region::Region`] is the immutable snapshot of every occupied, exposed
//! voxel of a 32 x 32 column world, grouped into 16 x 16 x 16 chunks.  The
//! per-frame stages (chunk culling, compaction, face generation, draw
//! arguments) are stated here on integers, so that each of them has an exact
//! contract.
pub mod anvil;
pub mod chunk;
pub mod column;
pub mod compaction;
pub mod controls;
pub mod cull;
pub mod draw;
pub mod exposure;
pub mod faces;
pub mod filtering;
pub mod frame;
pub mod frustum;
pub mod layout;
pub mod loader;
pub mod occupancy;
pub mod region;
pub mod scan;
pub mod space;
pub mod voxel;
