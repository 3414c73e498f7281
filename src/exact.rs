use vstd::prelude::*;
use crate::vector::{Vect, vect_of, floor_div};
use crate::shape::{Cuboid, AnnotatedPoint};
use crate::simplex::{Simplex, AnnotatedSimplex};
use crate::penetration::{ExactDistance, ExactProjection};

verus! {

/// The closest coordinates of two intervals `[a_lo, a_hi]` and `[b_lo, b_hi]`,
/// one in each, and whether they overlap; where they do, both coordinates are
/// the midpoint of the overlap, rounded down.
pub open spec fn axis_closest(a_lo: int, a_hi: int, b_lo: int, b_hi: int) -> (int, int, bool) {
    if a_hi < b_lo {
        (a_hi, b_lo, false)
    } else if b_hi < a_lo {
        (a_lo, b_hi, false)
    } else {
        let lo = if a_lo < b_lo {
            b_lo
        } else {
            a_lo
        };
        let hi = if a_hi < b_hi {
            a_hi
        } else {
            b_hi
        };
        ((lo + hi) / 2, (lo + hi) / 2, true)
    }
}

/// The coordinate of `[lo, hi]` nearest to zero.
pub open spec fn nearest_to_zero(lo: int, hi: int) -> int {
    if 0 < lo {
        lo
    } else if hi < 0 {
        hi
    } else {
        0
    }
}

fn closest_on_axis(a_lo: i64, a_hi: i64, b_lo: i64, b_hi: i64) -> (r: (i64, i64, bool))
    requires
        -0x4000_0000 <= a_lo <= 0x4000_0000,
        -0x4000_0000 <= a_hi <= 0x4000_0000,
        -0x4000_0000 <= b_lo <= 0x4000_0000,
        -0x4000_0000 <= b_hi <= 0x4000_0000,
    ensures
        (r.0 as int, r.1 as int, r.2) == axis_closest(a_lo as int, a_hi as int, b_lo as int, b_hi as int),
{
    if a_hi < b_lo {
        (a_hi, b_lo, false)
    } else if b_hi < a_lo {
        (a_lo, b_hi, false)
    } else {
        let lo = if a_lo < b_lo {
            b_lo
        } else {
            a_lo
        };
        let hi = if a_hi < b_hi {
            a_hi
        } else {
            b_hi
        };
        let mid = floor_div(lo + hi, 2);
        (mid, mid, true)
    }
}

/// The exact closest points of two separated boxes, found axis by axis.
#[derive(Clone, Copy, Debug)]
pub struct CuboidDistance;

impl ExactDistance<Cuboid, Cuboid> for CuboidDistance {
    open spec fn closest_spec(
        &self,
        m1: Vect,
        g1: &Cuboid,
        m2: Vect,
        g2: &Cuboid,
        pts: Seq<AnnotatedPoint>,
    ) -> Option<(Vect, Vect)> {
        let (x1, x2, ox) = axis_closest(
            m1.x - g1.half_extents.x,
            m1.x + g1.half_extents.x,
            m2.x - g2.half_extents.x,
            m2.x + g2.half_extents.x,
        );
        let (y1, y2, oy) = axis_closest(
            m1.y - g1.half_extents.y,
            m1.y + g1.half_extents.y,
            m2.y - g2.half_extents.y,
            m2.y + g2.half_extents.y,
        );
        if ox && oy {
            None
        } else {
            Some((vect_of(x1, y1), vect_of(x2, y2)))
        }
    }

    open spec fn closest_simplex(
        &self,
        m1: Vect,
        g1: &Cuboid,
        m2: Vect,
        g2: &Cuboid,
        pts: Seq<AnnotatedPoint>,
    ) -> Seq<AnnotatedPoint> {
        pts
    }

    fn closest_points(
        &self,
        m1: &Vect,
        g1: &Cuboid,
        m2: &Vect,
        g2: &Cuboid,
        simplex: &mut AnnotatedSimplex,
    ) -> (r: Option<(Vect, Vect)>) {
        let (x1, x2, ox) = closest_on_axis(
            m1.x - g1.half_extents.x,
            m1.x + g1.half_extents.x,
            m2.x - g2.half_extents.x,
            m2.x + g2.half_extents.x,
        );
        let (y1, y2, oy) = closest_on_axis(
            m1.y - g1.half_extents.y,
            m1.y + g1.half_extents.y,
            m2.y - g2.half_extents.y,
            m2.y + g2.half_extents.y,
        );
        if ox && oy {
            None
        } else {
            Some((Vect { x: x1, y: y1 }, Vect { x: x2, y: y2 }))
        }
    }
}

impl ExactProjection<Cuboid> for CuboidDistance {
    open spec fn project_spec(&self, m: Vect, g: &Cuboid, pts: Seq<Vect>) -> Option<Vect> {
        let (xl, xh) = (m.x - g.half_extents.x, m.x + g.half_extents.x);
        let (yl, yh) = (m.y - g.half_extents.y, m.y + g.half_extents.y);
        if xl <= 0 && 0 <= xh && yl <= 0 && 0 <= yh {
            None
        } else {
            Some(vect_of(nearest_to_zero(xl, xh), nearest_to_zero(yl, yh)))
        }
    }

    open spec fn project_simplex(&self, m: Vect, g: &Cuboid, pts: Seq<Vect>) -> Seq<Vect> {
        pts
    }

    fn project_origin(&self, m: &Vect, g: &Cuboid, simplex: &mut Simplex) -> (r: Option<Vect>) {
        let xl = m.x - g.half_extents.x;
        let xh = m.x + g.half_extents.x;
        let yl = m.y - g.half_extents.y;
        let yh = m.y + g.half_extents.y;
        if xl <= 0 && 0 <= xh && yl <= 0 && 0 <= yh {
            None
        } else {
            let x = if 0 < xl {
                xl
            } else if xh < 0 {
                xh
            } else {
                0
            };
            let y = if 0 < yl {
                yl
            } else if yh < 0 {
                yh
            } else {
                0
            };
            Some(Vect { x, y })
        }
    }
}

} // verus!
