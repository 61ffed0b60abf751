//! World coordinates: where a voxel of a chunk lies in the whole region.
use vstd::prelude::*;
use crate::chunk::{chunk_column_x, chunk_column_z, chunk_level, key_column_x, key_column_z, key_level};
use crate::voxel::{key_x, key_y, key_z, voxel_x, voxel_y, voxel_z};

verus! {

/// A point of the integer lattice; a voxel occupies the unit cube whose
/// lowest corner is the point with its coordinates.
pub struct Point {
    pub x: int,
    pub y: int,
    pub z: int,
}

/// A lattice point in machine integers.
#[derive(Clone, Copy, Debug, PartialEq, Eq, Structural)]
pub struct Position {
    pub x: i32,
    pub y: i32,
    pub z: i32,
}

impl View for Position {
    type V = Point;

    open spec fn view(&self) -> Point {
        Point { x: self.x as int, y: self.y as int, z: self.z as int }
    }
}

/// The point `p` moved by `(dx, dy, dz)`.
pub open spec fn shifted(p: Point, dx: int, dy: int, dz: int) -> Point {
    Point { x: p.x + dx, y: p.y + dy, z: p.z + dz }
}

/// The lowest corner of the chunk with key `chunk`: sixteen times its column
/// coordinates and its biased vertical index.
pub open spec fn chunk_origin(chunk: int) -> Point {
    Point { x: key_column_x(chunk) * 16, y: key_level(chunk) * 16, z: key_column_z(chunk) * 16 }
}

/// The world position of the voxel with key `voxel` in the chunk with key
/// `chunk`.
pub open spec fn world_point(chunk: int, voxel: int) -> Point {
    shifted(chunk_origin(chunk), key_x(voxel), key_y(voxel), key_z(voxel))
}

/// The world position of a voxel of a chunk.
pub fn world_position(chunk: u32, voxel: u32) -> (p: Position)
    ensures
        p@ == world_point(chunk as int, voxel as int),
        0 <= p.x < 4096,
        0 <= p.y < 4096,
        0 <= p.z < 4096,
{
    let x: i32 = chunk_column_x(chunk) as i32 * 16 + voxel_x(voxel) as i32;
    let y: i32 = chunk_level(chunk) as i32 * 16 + voxel_y(voxel) as i32;
    let z: i32 = chunk_column_z(chunk) as i32 * 16 + voxel_z(voxel) as i32;
    Position { x, y, z }
}

} // verus!
