//! One decoded chunk column, as plain values: its 16 x 16 surface heights and
//! which of its cells hold a block that is not air.
//!
//! Only the heights from `LOWEST_HEIGHT` up to `HIGHEST_HEIGHT` can belong to
//! a chunk that has a key, so a column keeps no cell outside them.
use vstd::prelude::*;
use crate::space::Point;

verus! {

/// The lowest height that lies in a chunk with a key.
pub const LOWEST_HEIGHT: isize = -64;

/// The first height above every chunk with a key.
pub const HIGHEST_HEIGHT: isize = 4032;

/// The name of the block type that counts as empty, in bytes:
/// `minecraft:air`.
pub open spec fn air_name() -> Seq<u8> {
    seq![109u8, 105u8, 110u8, 101u8, 99u8, 114u8, 97u8, 102u8, 116u8, 58u8, 97u8, 105u8, 114u8]
}

/// Whether `name` is the name of air.
pub fn is_air(name: &[u8]) -> (air: bool)
    ensures
        air == (name@ == air_name()),
{
    let air = name.len() == 13 && name[0] == 109 && name[1] == 105 && name[2] == 110 && name[3]
        == 101 && name[4] == 99 && name[5] == 114 && name[6] == 97 && name[7] == 102 && name[8]
        == 116 && name[9] == 58 && name[10] == 97 && name[11] == 105 && name[12] == 114;
    proof {
        if air {
            assert(name@ =~= air_name());
        }
    }
    air
}

/// `height` cut to the heights that a column keeps cells for.
pub open spec fn clamped(height: int) -> int {
    if height < LOWEST_HEIGHT {
        LOWEST_HEIGHT as int
    } else if height > HIGHEST_HEIGHT {
        HIGHEST_HEIGHT as int
    } else {
        height
    }
}

/// A chunk column: 256 surface heights and the solid cells between its
/// lowest and highest height.
#[derive(Debug)]
pub struct Column {
    surface: Vec<isize>,
    floor: isize,
    cells: Vec<bool>,
}

impl Column {
    /// The lowest height the column has cells for.
    pub closed spec fn lowest(&self) -> int {
        self.floor as int
    }

    /// The first height above the cells of the column.
    pub closed spec fn highest(&self) -> int {
        self.floor + self.cells@.len() / 256
    }

    /// The surface heights; the height over `(x, z)` is at index `x * 16 + z`.
    pub closed spec fn heights(&self) -> Seq<int> {
        Seq::new(256, |i: int| self.surface@[i] as int)
    }

    /// The cells that hold a block other than air; `x` and `z` are local to
    /// the column, `y` is the height.
    pub closed spec fn solid(&self) -> Set<Point> {
        Set::new(
            |p: Point|
                0 <= p.x < 16 && 0 <= p.z < 16 && LOWEST_HEIGHT <= p.y < HIGHEST_HEIGHT
                    && self.lowest() <= p.y < self.highest() && self.cells@[((p.y - self.floor)
                    * 16 + p.x) * 16 + p.z],
        )
    }

    /// What holds of every column: it has 256 heights, and whole layers of
    /// cells inside the heights that can be kept.
    #[verifier::type_invariant]
    pub closed spec fn wf(&self) -> bool {
        &&& self.surface@.len() == 256
        &&& LOWEST_HEIGHT <= self.floor
        &&& self.cells@.len() % 256 == 0
        &&& self.floor + self.cells@.len() / 256 <= HIGHEST_HEIGHT
    }

    /// A column has 256 surface heights.
    pub proof fn lemma_heights_len(&self)
        ensures
            self.heights().len() == 256,
    {
    }

    /// A column has solid cells only inside its 16 x 16 footprint and inside
    /// the heights that can be kept.
    pub proof fn lemma_solid_bounds(&self, p: Point)
        requires
            self.solid().contains(p),
        ensures
            0 <= p.x < 16,
            0 <= p.z < 16,
            LOWEST_HEIGHT <= p.y < HIGHEST_HEIGHT,
    {
    }

    /// A column with cells for the heights from `lowest` up to, not
    /// including, `highest`, cut to what can be kept; every height is zero
    /// and no cell is solid.
    pub fn new(lowest: isize, highest: isize) -> (column: Column)
        ensures
            column.lowest() == clamped(lowest as int),
            column.highest() == if highest <= lowest {
                clamped(lowest as int)
            } else {
                clamped(highest as int)
            },
            column.heights() == Seq::new(256, |i: int| 0int),
            column.solid() == Set::<Point>::empty(),
    {
        let floor: isize = if lowest < LOWEST_HEIGHT {
            LOWEST_HEIGHT
        } else if lowest > HIGHEST_HEIGHT {
            HIGHEST_HEIGHT
        } else {
            lowest
        };
        let top: isize = if highest <= floor {
            floor
        } else if highest > HIGHEST_HEIGHT {
            HIGHEST_HEIGHT
        } else {
            highest
        };
        let layers: usize = (top - floor) as usize;
        let mut surface: Vec<isize> = Vec::new();
        let mut i: usize = 0;
        while i < 256
            invariant
                i <= 256,
                surface@.len() == i,
                forall|j: int| 0 <= j < i ==> surface@[j] == 0,
            decreases 256 - i,
        {
            surface.push(0);
            i = i + 1;
        }
        let mut cells: Vec<bool> = Vec::new();
        let mut k: usize = 0;
        while k < layers * 256
            invariant
                layers <= 4096,
                k <= layers * 256,
                cells@.len() == k,
                forall|j: int| 0 <= j < k ==> !cells@[j],
            decreases layers * 256 - k,
        {
            cells.push(false);
            k = k + 1;
        }
        let column = Column { surface, floor, cells };
        proof {
            assert(column.heights() =~= Seq::new(256, |i: int| 0int));
            assert(column.solid() =~= Set::<Point>::empty());
        }
        column
    }

    /// Records the surface height over `(x, z)`; `false`, and nothing
    /// changes, unless both are below 16.
    pub fn set_height(&mut self, x: usize, z: usize, height: isize) -> (done: bool)
        ensures
            done == (x < 16 && z < 16),
            done ==> final(self).heights() == old(self).heights().update(
                (x * 16 + z) as int,
                height as int,
            ),
            !done ==> final(self).heights() == old(self).heights(),
            final(self).solid() == old(self).solid(),
            final(self).lowest() == old(self).lowest(),
            final(self).highest() == old(self).highest(),
    {
        proof {
            use_type_invariant(&*self);
        }
        if x < 16 && z < 16 {
            self.surface[x * 16 + z] = height;
            proof {
                assert(final(self).heights() =~= old(self).heights().update(
                    (x * 16 + z) as int,
                    height as int,
                ));
                assert(final(self).solid() =~= old(self).solid());
            }
            true
        } else {
            false
        }
    }

    /// Records the block at `(x, y, z)` by its name: the cell is solid unless
    /// the name is that of air.  `false`, and nothing changes, when the
    /// column has no cell there.
    pub fn set_block(&mut self, x: usize, y: isize, z: usize, name: &[u8]) -> (done: bool)
        ensures
            done == (x < 16 && z < 16 && old(self).lowest() <= y < old(self).highest()),
            done && name@ != air_name() ==> final(self).solid() == old(self).solid().insert(
                Point { x: x as int, y: y as int, z: z as int },
            ),
            done && name@ == air_name() ==> final(self).solid() == old(self).solid().remove(
                Point { x: x as int, y: y as int, z: z as int },
            ),
            !done ==> final(self).solid() == old(self).solid(),
            final(self).heights() == old(self).heights(),
            final(self).lowest() == old(self).lowest(),
            final(self).highest() == old(self).highest(),
    {
        proof {
            use_type_invariant(&*self);
        }
        if x < 16 && z < 16 && self.floor <= y && y < HIGHEST_HEIGHT && y - self.floor < (self.cells.len()
            / 256) as isize {
            let index: usize = (((y - self.floor) as usize) * 16 + x) * 16 + z;
            let solid = !is_air(name);
            self.cells[index] = solid;
            proof {
                let q = Point { x: x as int, y: y as int, z: z as int };
                assert forall|p: Point|
                    0 <= p.x < 16 && 0 <= p.z < 16 && old(self).lowest() <= p.y < old(
                        self,
                    ).highest() && p != q implies ((p.y - self.floor) * 16 + p.x) * 16 + p.z
                    != index by {}
                if solid {
                    assert(final(self).solid() =~= old(self).solid().insert(q));
                } else {
                    assert(final(self).solid() =~= old(self).solid().remove(q));
                }
                assert(final(self).heights() =~= old(self).heights());
            }
            true
        } else {
            false
        }
    }

    /// The surface height over `(x, z)`; `None` unless both are below 16.
    pub fn height(&self, x: usize, z: usize) -> (height: Option<isize>)
        ensures
            height == (if x < 16 && z < 16 {
                Some(self.heights()[(x * 16 + z) as int] as isize)
            } else {
                None
            }),
    {
        proof {
            use_type_invariant(self);
        }
        if x < 16 && z < 16 {
            Some(self.surface[x * 16 + z])
        } else {
            None
        }
    }

    /// Whether the cell at `(x, y, z)` holds a block other than air.
    pub fn is_solid(&self, x: usize, y: isize, z: usize) -> (solid: bool)
        ensures
            solid == self.solid().contains(Point { x: x as int, y: y as int, z: z as int }),
    {
        proof {
            use_type_invariant(self);
        }
        if x < 16 && z < 16 && self.floor <= y && y < HIGHEST_HEIGHT && y - self.floor < (self.cells.len()
            / 256) as isize {
            self.cells[(((y - self.floor) as usize) * 16 + x) * 16 + z]
        } else {
            false
        }
    }

    /// The least and the greatest of the 256 surface heights.
    pub fn height_bounds(&self) -> (bounds: (isize, isize))
        ensures
            bounds.0 == self.heights().min(),
            bounds.1 == self.heights().max(),
    {
        proof {
            use_type_invariant(self);
        }
        let mut low: isize = self.surface[0];
        let mut high: isize = self.surface[0];
        let mut i: usize = 1;
        while i < 256
            invariant
                1 <= i <= 256,
                self.surface@.len() == 256,
                forall|j: int| 0 <= j < i ==> low <= #[trigger] self.surface@[j],
                forall|j: int| 0 <= j < i ==> high >= #[trigger] self.surface@[j],
                exists|j: int| 0 <= j < i && low == #[trigger] self.surface@[j],
                exists|j: int| 0 <= j < i && high == #[trigger] self.surface@[j],
            decreases 256 - i,
        {
            let h = self.surface[i];
            if h < low {
                low = h;
            }
            if h > high {
                high = h;
            }
            i = i + 1;
        }
        proof {
            let heights = self.heights();
            let a = choose|j: int| 0 <= j < 256 && low == #[trigger] self.surface@[j];
            let b = choose|j: int| 0 <= j < 256 && high == #[trigger] self.surface@[j];
            assert(heights[a] == low);
            assert(heights[b] == high);
            heights.min_ensures();
            heights.max_ensures();
            let c = choose|j: int| 0 <= j < heights.len() && heights[j] == heights.min();
            let d = choose|j: int| 0 <= j < heights.len() && heights[j] == heights.max();
            assert(low <= self.surface@[c]);
            assert(high >= self.surface@[d]);
        }
        (low, high)
    }
}

/// What came of reading one chunk column of a region file.
#[derive(Debug)]
pub enum ColumnRead {
    /// The stream could not be read; no region can be built.
    Unreadable,
    /// The file holds no chunk for this column.
    Missing,
    /// The chunk was read but could not be decoded; it counts as not loaded.
    Undecodable,
    /// The decoded column.
    Decoded(Column),
}

} // verus!
