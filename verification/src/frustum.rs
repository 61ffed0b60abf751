//! The view frustum as six half-spaces with integer coefficients, and the
//! test of a box against it.
//!
//! A box is rejected when one of the six planes has the whole box on its
//! outer side.  For a frustum that is itself an axis-aligned box this says
//! exactly that the two boxes do not meet.
use vstd::prelude::*;
use crate::space::{Point, Position};

verus! {

/// The half-space of the points `(x, y, z)` with `a x + b y + c z + d >= 0`.
#[derive(Clone, Copy, Debug, PartialEq, Eq, Structural)]
pub struct Plane {
    pub a: i32,
    pub b: i32,
    pub c: i32,
    pub d: i64,
}

/// Six half-spaces; a point is inside the frustum when it is in all of them.
#[derive(Clone, Copy, Debug, PartialEq, Eq, Structural)]
pub struct Frustum {
    pub left: Plane,
    pub right: Plane,
    pub bottom: Plane,
    pub top: Plane,
    pub near: Plane,
    pub far: Plane,
}

/// `p` lies in the box from `lo` to `hi`, faces included.
pub open spec fn within(p: Point, lo: Point, hi: Point) -> bool {
    &&& lo.x <= p.x <= hi.x
    &&& lo.y <= p.y <= hi.y
    &&& lo.z <= p.z <= hi.z
}

impl Plane {
    /// The value of the plane's form at `p`: not negative on the inner side.
    pub open spec fn value(self, p: Point) -> int {
        self.a * p.x + self.b * p.y + self.c * p.z + self.d
    }

    /// Every point of the box from `lo` to `hi` lies on the outer side.
    pub open spec fn misses(self, lo: Point, hi: Point) -> bool {
        forall|p: Point| #[trigger] within(p, lo, hi) ==> self.value(p) < 0
    }

    /// Every point of the box from `lo` to `hi` lies on the inner side.
    pub open spec fn holds(self, lo: Point, hi: Point) -> bool {
        forall|p: Point| #[trigger] within(p, lo, hi) ==> self.value(p) >= 0
    }

    /// The corner of the box from `lo` to `hi` at which the plane's form is
    /// greatest.
    pub open spec fn far_corner(self, lo: Point, hi: Point) -> Point {
        Point {
            x: if self.a >= 0 {
                hi.x
            } else {
                lo.x
            },
            y: if self.b >= 0 {
                hi.y
            } else {
                lo.y
            },
            z: if self.c >= 0 {
                hi.z
            } else {
                lo.z
            },
        }
    }

    /// The form is nowhere on the box greater than at the far corner.
    pub proof fn lemma_far_corner(self, lo: Point, hi: Point, p: Point)
        requires
            within(p, lo, hi),
        ensures
            self.value(p) <= self.value(self.far_corner(lo, hi)),
            within(self.far_corner(lo, hi), lo, hi),
    {
        let q = self.far_corner(lo, hi);
        assert(self.a * p.x <= self.a * q.x) by (nonlinear_arith)
            requires
                (self.a >= 0 && p.x <= q.x) || (self.a < 0 && p.x >= q.x),
        ;
        assert(self.b * p.y <= self.b * q.y) by (nonlinear_arith)
            requires
                (self.b >= 0 && p.y <= q.y) || (self.b < 0 && p.y >= q.y),
        ;
        assert(self.c * p.z <= self.c * q.z) by (nonlinear_arith)
            requires
                (self.c >= 0 && p.z <= q.z) || (self.c < 0 && p.z >= q.z),
        ;
    }

    /// The value of the plane's form at `p`.
    pub fn evaluate(&self, p: Position) -> (value: i128)
        ensures
            value == self.value(p@),
    {
        let a: i128 = self.a as i128;
        let b: i128 = self.b as i128;
        let c: i128 = self.c as i128;
        let x: i128 = p.x as i128;
        let y: i128 = p.y as i128;
        let z: i128 = p.z as i128;
        assert(-0x4000_0000_0000_0000 <= a * x <= 0x4000_0000_0000_0000) by (nonlinear_arith)
            requires
                -0x8000_0000 <= a < 0x8000_0000,
                -0x8000_0000 <= x < 0x8000_0000,
        ;
        assert(-0x4000_0000_0000_0000 <= b * y <= 0x4000_0000_0000_0000) by (nonlinear_arith)
            requires
                -0x8000_0000 <= b < 0x8000_0000,
                -0x8000_0000 <= y < 0x8000_0000,
        ;
        assert(-0x4000_0000_0000_0000 <= c * z <= 0x4000_0000_0000_0000) by (nonlinear_arith)
            requires
                -0x8000_0000 <= c < 0x8000_0000,
                -0x8000_0000 <= z < 0x8000_0000,
        ;
        a * x + b * y + c * z + self.d as i128
    }

    /// Whether the whole box from `lo` to `hi` lies on the outer side.  A
    /// box with `lo` above `hi` in some coordinate has no point, and lies
    /// there.
    pub fn rejects(&self, lo: Position, hi: Position) -> (outside: bool)
        ensures
            outside == self.misses(lo@, hi@),
    {
        if lo.x > hi.x || lo.y > hi.y || lo.z > hi.z {
            return true;
        }
        let corner = Position {
            x: if self.a >= 0 {
                hi.x
            } else {
                lo.x
            },
            y: if self.b >= 0 {
                hi.y
            } else {
                lo.y
            },
            z: if self.c >= 0 {
                hi.z
            } else {
                lo.z
            },
        };
        let outside = self.evaluate(corner) < 0;
        proof {
            assert(corner@ == self.far_corner(lo@, hi@));
            assert(within(corner@, lo@, hi@));
            if outside {
                assert forall|p: Point| #[trigger] within(p, lo@, hi@) implies self.value(p)
                    < 0 by {
                    self.lemma_far_corner(lo@, hi@, p);
                }
            }
        }
        outside
    }
}

/// The value of a plane along one axis is that coordinate, scaled, plus
/// the offset.
proof fn lemma_axis_value(plane: Plane, p: Point)
    ensures
        plane.b == 0 && plane.c == 0 ==> plane.value(p) == plane.a * p.x + plane.d,
        plane.a == 0 && plane.c == 0 ==> plane.value(p) == plane.b * p.y + plane.d,
        plane.a == 0 && plane.b == 0 ==> plane.value(p) == plane.c * p.z + plane.d,
        plane.a == 1 ==> plane.a * p.x == p.x,
        plane.a == -1 ==> plane.a * p.x == -p.x,
        plane.b == 1 ==> plane.b * p.y == p.y,
        plane.b == -1 ==> plane.b * p.y == -p.y,
        plane.c == 1 ==> plane.c * p.z == p.z,
        plane.c == -1 ==> plane.c * p.z == -p.z,
        plane.a == 0 && plane.b == 0 && plane.c == 0 ==> plane.value(p) == plane.d,
{
    let (a, b, c) = (plane.a as int, plane.b as int, plane.c as int);
    assert(a == 0 ==> a * p.x == 0) by (nonlinear_arith);
    assert(b == 0 ==> b * p.y == 0) by (nonlinear_arith);
    assert(c == 0 ==> c * p.z == 0) by (nonlinear_arith);
    assert(a == 1 ==> a * p.x == p.x) by (nonlinear_arith);
    assert(b == 1 ==> b * p.y == p.y) by (nonlinear_arith);
    assert(c == 1 ==> c * p.z == p.z) by (nonlinear_arith);
    assert(a == -1 ==> a * p.x == -p.x) by (nonlinear_arith);
    assert(b == -1 ==> b * p.y == -p.y) by (nonlinear_arith);
    assert(c == -1 ==> c * p.z == -p.z) by (nonlinear_arith);
}

impl Frustum {
    /// One of the six planes has the whole box from `lo` to `hi` on its
    /// outer side.
    pub open spec fn misses(self, lo: Point, hi: Point) -> bool {
        ||| self.left.misses(lo, hi)
        ||| self.right.misses(lo, hi)
        ||| self.bottom.misses(lo, hi)
        ||| self.top.misses(lo, hi)
        ||| self.near.misses(lo, hi)
        ||| self.far.misses(lo, hi)
    }

    /// The whole box from `lo` to `hi` lies inside the frustum.
    pub open spec fn holds(self, lo: Point, hi: Point) -> bool {
        &&& self.left.holds(lo, hi)
        &&& self.right.holds(lo, hi)
        &&& self.bottom.holds(lo, hi)
        &&& self.top.holds(lo, hi)
        &&& self.near.holds(lo, hi)
        &&& self.far.holds(lo, hi)
    }

    /// Whether the box from `lo` to `hi` is rejected.
    pub fn rejects(&self, lo: Position, hi: Position) -> (outside: bool)
        ensures
            outside == self.misses(lo@, hi@),
    {
        self.left.rejects(lo, hi) || self.right.rejects(lo, hi) || self.bottom.rejects(lo, hi)
            || self.top.rejects(lo, hi) || self.near.rejects(lo, hi) || self.far.rejects(lo, hi)
    }

    /// The frustum that is the box from `lo` to `hi`, faces included.
    pub open spec fn spec_axis_aligned(lo: Position, hi: Position) -> Frustum {
        Frustum {
            left: Plane { a: 1, b: 0, c: 0, d: (-(lo.x as int)) as i64 },
            right: Plane { a: (-1int) as i32, b: 0, c: 0, d: hi.x as i64 },
            bottom: Plane { a: 0, b: 1, c: 0, d: (-(lo.y as int)) as i64 },
            top: Plane { a: 0, b: (-1int) as i32, c: 0, d: hi.y as i64 },
            near: Plane { a: 0, b: 0, c: 1, d: (-(lo.z as int)) as i64 },
            far: Plane { a: 0, b: 0, c: (-1int) as i32, d: hi.z as i64 },
        }
    }

    /// The frustum that is the box from `lo` to `hi`, faces included.
    #[verifier::when_used_as_spec(spec_axis_aligned)]
    pub fn axis_aligned(lo: Position, hi: Position) -> (frustum: Frustum)
        ensures
            frustum == Self::spec_axis_aligned(lo, hi),
    {
        Frustum {
            left: Plane { a: 1, b: 0, c: 0, d: -(lo.x as i64) },
            right: Plane { a: -1, b: 0, c: 0, d: hi.x as i64 },
            bottom: Plane { a: 0, b: 1, c: 0, d: -(lo.y as i64) },
            top: Plane { a: 0, b: -1, c: 0, d: hi.y as i64 },
            near: Plane { a: 0, b: 0, c: 1, d: -(lo.z as i64) },
            far: Plane { a: 0, b: 0, c: -1, d: hi.z as i64 },
        }
    }

    /// The frustum that holds every point.
    pub open spec fn spec_everything() -> Frustum {
        let open = Plane { a: 0, b: 0, c: 0, d: 0 };
        Frustum { left: open, right: open, bottom: open, top: open, near: open, far: open }
    }

    /// The frustum that holds every point.
    #[verifier::when_used_as_spec(spec_everything)]
    pub fn everything() -> (frustum: Frustum)
        ensures
            frustum == Self::spec_everything(),
    {
        let open = Plane { a: 0, b: 0, c: 0, d: 0 };
        Frustum { left: open, right: open, bottom: open, top: open, near: open, far: open }
    }
}

/// The frustum that holds every point rejects no box that has a point, and
/// every box lies inside it.
pub proof fn lemma_everything_admits(lo: Point, hi: Point)
    ensures
        within(lo, lo, hi) ==> !Frustum::everything().misses(lo, hi),
        Frustum::everything().holds(lo, hi),
{
    let open = Plane { a: 0, b: 0, c: 0, d: 0 };
    lemma_axis_value(open, lo);
    assert forall|p: Point| #[trigger] within(p, lo, hi) implies open.value(p) >= 0 by {
        lemma_axis_value(open, p);
    }
}

/// With a frustum that is a box, a box is rejected exactly when the two do
/// not meet, and a box inside the frustum lies inside all six planes.
pub proof fn lemma_axis_aligned_exact(flo: Position, fhi: Position, lo: Point, hi: Point)
    requires
        within(lo, lo, hi),
    ensures
        Frustum::axis_aligned(flo, fhi).misses(lo, hi) <==> (hi.x < flo.x || fhi.x < lo.x || hi.y
            < flo.y || fhi.y < lo.y || hi.z < flo.z || fhi.z < lo.z),
        within(lo, flo@, fhi@) && within(hi, flo@, fhi@) ==> Frustum::axis_aligned(flo, fhi).holds(
            lo,
            hi,
        ),
{
    let f = Frustum::axis_aligned(flo, fhi);
    assert(within(hi, lo, hi));
    lemma_axis_value(f.left, hi);
    lemma_axis_value(f.right, lo);
    lemma_axis_value(f.bottom, hi);
    lemma_axis_value(f.top, lo);
    lemma_axis_value(f.near, hi);
    lemma_axis_value(f.far, lo);
    assert forall|p: Point| #[trigger] within(p, lo, hi) implies {
        &&& f.left.value(p) == p.x - flo.x
        &&& f.right.value(p) == fhi.x - p.x
        &&& f.bottom.value(p) == p.y - flo.y
        &&& f.top.value(p) == fhi.y - p.y
        &&& f.near.value(p) == p.z - flo.z
        &&& f.far.value(p) == fhi.z - p.z
    } by {
        lemma_axis_value(f.left, p);
        lemma_axis_value(f.right, p);
        lemma_axis_value(f.bottom, p);
        lemma_axis_value(f.top, p);
        lemma_axis_value(f.near, p);
        lemma_axis_value(f.far, p);
    }
}

/// A box that lies inside the frustum is not rejected.
pub proof fn lemma_inside_not_rejected(frustum: Frustum, lo: Point, hi: Point)
    requires
        within(lo, lo, hi),
        frustum.holds(lo, hi),
    ensures
        !frustum.misses(lo, hi),
{
}

} // verus!
