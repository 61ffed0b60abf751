//! The set of occupied world positions, and the exposure test on it.
use std::collections::HashSet;
use vstd::prelude::*;
use crate::space::{shifted, Point, Position};

verus! {

broadcast use vstd::std_specs::hash::group_hash_axioms;

/// The positions that an [`OccupiedSet`] can hold: each coordinate fits in
/// sixteen bits with a sign.
pub open spec fn representable(p: Point) -> bool {
    &&& -32768 <= p.x < 32768
    &&& -32768 <= p.y < 32768
    &&& -32768 <= p.z < 32768
}

/// The number under which a representable point is stored.
pub open spec fn cell_code(p: Point) -> int {
    ((p.x + 32768) * 65536 + (p.y + 32768)) * 65536 + (p.z + 32768)
}

/// Different representable points are stored under different numbers.
pub proof fn lemma_cell_code_injective(p: Point, q: Point)
    requires
        representable(p),
        representable(q),
        cell_code(p) == cell_code(q),
    ensures
        p == q,
{
    let a: int = (p.x + 32768) * 65536 + (p.y + 32768);
    let b: int = (q.x + 32768) * 65536 + (q.y + 32768);
    assert(a * 65536 + (p.z + 32768) == b * 65536 + (q.z + 32768));
    assert(a == b);
    assert(p.z == q.z);
    assert(p.x == q.x);
    assert(p.y == q.y);
}

/// Every one of the six axis-aligned neighbours of `p` is occupied.
pub open spec fn enclosed(occupied: Set<Point>, p: Point) -> bool {
    &&& occupied.contains(shifted(p, 1, 0, 0))
    &&& occupied.contains(shifted(p, -1, 0, 0))
    &&& occupied.contains(shifted(p, 0, 1, 0))
    &&& occupied.contains(shifted(p, 0, -1, 0))
    &&& occupied.contains(shifted(p, 0, 0, 1))
    &&& occupied.contains(shifted(p, 0, 0, -1))
}

/// At least one of the six axis-aligned neighbours of `p` is not occupied.
pub open spec fn exposed(occupied: Set<Point>, p: Point) -> bool {
    !enclosed(occupied, p)
}

/// A finite set of occupied world positions.
pub struct OccupiedSet {
    cells: HashSet<u64>,
}

impl View for OccupiedSet {
    type V = Set<Point>;

    closed spec fn view(&self) -> Set<Point> {
        Set::new(|p: Point| representable(p) && self.cells@.contains(cell_code(p) as u64))
    }
}

impl OccupiedSet {
    /// The empty set.
    pub fn new() -> (set: OccupiedSet)
        ensures
            set@ == Set::<Point>::empty(),
    {
        let set = OccupiedSet { cells: HashSet::new() };
        assert(set@ =~= Set::<Point>::empty());
        set
    }

    /// Only representable positions are ever in the set.
    pub proof fn lemma_members_representable(&self, p: Point)
        requires
            self@.contains(p),
        ensures
            representable(p),
    {
    }

    /// Adds the position `(x, y, z)`.
    pub fn insert(&mut self, x: i16, y: i16, z: i16)
        ensures
            final(self)@ == old(self)@.insert(Point { x: x as int, y: y as int, z: z as int }),
    {
        let code: u64 = ((x as i64 + 32768) as u64 * 65536 + (y as i64 + 32768) as u64) * 65536 + (
        z as i64 + 32768) as u64;
        let ghost q = Point { x: x as int, y: y as int, z: z as int };
        assert(code == cell_code(q));
        self.cells.insert(code);
        proof {
            assert forall|p: Point| final(self)@.contains(p) == old(self)@.insert(q).contains(
                p,
            ) by {
                if representable(p) && cell_code(p) == cell_code(q) {
                    lemma_cell_code_injective(p, q);
                }
            }
            assert(final(self)@ =~= old(self)@.insert(q));
        }
    }

    /// Whether the position is in the set.
    pub fn contains(&self, p: Position) -> (found: bool)
        ensures
            found == self@.contains(p@),
    {
        if -32768 <= p.x && p.x < 32768 && -32768 <= p.y && p.y < 32768 && -32768 <= p.z && p.z
            < 32768 {
            let code: u64 = ((p.x as i64 + 32768) as u64 * 65536 + (p.y as i64 + 32768) as u64)
                * 65536 + (p.z as i64 + 32768) as u64;
            assert(code == cell_code(p@));
            self.cells.contains(&code)
        } else {
            false
        }
    }

    /// Whether a voxel at `(x, y, z)` has a neighbour that is not in the set.
    pub fn is_exposed(&self, x: i16, y: i16, z: i16) -> (open: bool)
        ensures
            open == exposed(self@, Point { x: x as int, y: y as int, z: z as int }),
    {
        let x: i32 = x as i32;
        let y: i32 = y as i32;
        let z: i32 = z as i32;
        !(self.contains(Position { x: x + 1, y, z }) && self.contains(Position { x: x - 1, y, z })
            && self.contains(Position { x, y: y + 1, z }) && self.contains(
            Position { x, y: y - 1, z },
        ) && self.contains(Position { x, y, z: z + 1 }) && self.contains(
            Position { x, y, z: z - 1 },
        ))
    }
}

} // verus!
