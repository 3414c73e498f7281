use vstd::prelude::*;
use crate::vector::{Vect, within, dot, vect_of, neg_spec, sub_spec};

verus! {

/// Bound on the coordinates of placements and of a shape's extent around its
/// placement.
pub const COORD_LIMIT: i64 = 1_048_576;

/// Bound on the coordinates of a placement handed to a support function,
/// which leaves room for a placement moved by a separating shift.
pub const PLACEMENT_LIMIT: i64 = 16_777_216;

/// Bound on the coordinates of a direction handed to a support function.
pub const DIR_LIMIT: i64 = 1_048_576;

/// A convex shape described by its support function: for a placement (a
/// translation) and a direction, the point of the placed shape that lies
/// farthest along the direction.
pub trait SupportMap {
    /// The shape's parameters are in range.
    spec fn wf(&self) -> bool;

    /// The support point of the shape translated by `m`, in direction `dir`.
    spec fn support_spec(&self, m: Vect, dir: Vect) -> Vect;

    fn support_point(&self, m: &Vect, dir: &Vect) -> (r: Vect)
        requires
            self.wf(),
            within(*m, PLACEMENT_LIMIT as int),
            within(*dir, DIR_LIMIT as int),
        ensures
            r == self.support_spec(*m, *dir),
            m.x - COORD_LIMIT <= r.x <= m.x + COORD_LIMIT,
            m.y - COORD_LIMIT <= r.y <= m.y + COORD_LIMIT,
    ;
}

/// An axis-aligned box centred on its placement.
#[derive(Clone, Copy, Debug, PartialEq, Eq, Structural)]
pub struct Cuboid {
    pub half_extents: Vect,
}

/// The signed half extent chosen along an axis: the positive one unless the
/// direction points the other way.
pub open spec fn extent_toward(h: i64, d: i64) -> int {
    if d < 0 {
        -h
    } else {
        h as int
    }
}

impl Cuboid {
    /// A box with the given non-negative half extents.
    pub fn new(half_extents: Vect) -> (r: Cuboid)
        requires
            0 <= half_extents.x <= COORD_LIMIT,
            0 <= half_extents.y <= COORD_LIMIT,
        ensures
            r.half_extents == half_extents,
            r.wf(),
    {
        Cuboid { half_extents }
    }
}

impl SupportMap for Cuboid {
    open spec fn wf(&self) -> bool {
        0 <= self.half_extents.x <= COORD_LIMIT && 0 <= self.half_extents.y <= COORD_LIMIT
    }

    open spec fn support_spec(&self, m: Vect, dir: Vect) -> Vect {
        vect_of(
            m.x + extent_toward(self.half_extents.x, dir.x),
            m.y + extent_toward(self.half_extents.y, dir.y),
        )
    }

    fn support_point(&self, m: &Vect, dir: &Vect) -> (r: Vect) {
        let hx = if dir.x < 0 {
            -self.half_extents.x
        } else {
            self.half_extents.x
        };
        let hy = if dir.y < 0 {
            -self.half_extents.y
        } else {
            self.half_extents.y
        };
        Vect { x: m.x + hx, y: m.y + hy }
    }
}

/// `p` lies in the box `c` placed at `m`.
pub open spec fn in_cuboid(c: Cuboid, m: Vect, p: Vect) -> bool {
    &&& m.x - c.half_extents.x <= p.x <= m.x + c.half_extents.x
    &&& m.y - c.half_extents.y <= p.y <= m.y + c.half_extents.y
}

/// The support point of a box lies in the box and is, of all its points, the
/// farthest along the direction.
pub proof fn lemma_cuboid_support_farthest(c: Cuboid, m: Vect, dir: Vect, p: Vect)
    requires
        c.wf(),
        within(m, COORD_LIMIT as int),
        in_cuboid(c, m, p),
    ensures
        in_cuboid(c, m, c.support_spec(m, dir)),
        dot(dir, p) <= dot(dir, c.support_spec(m, dir)),
{
    let s = c.support_spec(m, dir);
    assert(dir.x * p.x <= dir.x * s.x) by (nonlinear_arith)
        requires
            dir.x < 0 ==> s.x == m.x - c.half_extents.x,
            dir.x >= 0 ==> s.x == m.x + c.half_extents.x,
            m.x - c.half_extents.x <= p.x <= m.x + c.half_extents.x,
    ;
    assert(dir.y * p.y <= dir.y * s.y) by (nonlinear_arith)
        requires
            dir.y < 0 ==> s.y == m.y - c.half_extents.y,
            dir.y >= 0 ==> s.y == m.y + c.half_extents.y,
            m.y - c.half_extents.y <= p.y <= m.y + c.half_extents.y,
    ;
}

/// A point of the configuration-space obstacle of two shapes, together with the
/// points of each shape whose difference it is.
#[derive(Clone, Copy, Debug, PartialEq, Eq, Structural)]
pub struct AnnotatedPoint {
    pub orig1: Vect,
    pub orig2: Vect,
    pub point: Vect,
}

impl AnnotatedPoint {
    /// `point` is `orig1 - orig2`.
    pub open spec fn wf(&self) -> bool {
        self.point.x == self.orig1.x - self.orig2.x && self.point.y == self.orig1.y
            - self.orig2.y
    }
}

/// The support point of `g1` placed at `m1` minus the support point of `g2`
/// placed at `m2` in the opposite direction.
pub open spec fn cso_support_spec<G1: SupportMap, G2: SupportMap>(
    m1: Vect,
    g1: &G1,
    m2: Vect,
    g2: &G2,
    dir: Vect,
) -> AnnotatedPoint {
    let a = g1.support_spec(m1, dir);
    let b = g2.support_spec(m2, neg_spec(dir));
    AnnotatedPoint { orig1: a, orig2: b, point: sub_spec(a, b) }
}

/// The support point of the configuration-space obstacle of two placed shapes,
/// which is the Minkowski sum of the first and of the reflection of the second.
pub fn cso_support<G1: SupportMap, G2: SupportMap>(
    m1: &Vect,
    g1: &G1,
    m2: &Vect,
    g2: &G2,
    dir: &Vect,
) -> (r: AnnotatedPoint)
    requires
        g1.wf(),
        g2.wf(),
        within(*m1, COORD_LIMIT as int),
        within(*m2, COORD_LIMIT as int),
        within(*dir, DIR_LIMIT as int),
    ensures
        r == cso_support_spec(*m1, g1, *m2, g2, *dir),
        r.wf(),
        within(r.point, 4 * COORD_LIMIT),
{
    let a = g1.support_point(m1, dir);
    let nd = dir.neg();
    let b = g2.support_point(m2, &nd);
    AnnotatedPoint { orig1: a, orig2: b, point: a.sub(&b) }
}

} // verus!
