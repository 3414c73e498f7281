use vstd::prelude::*;
use crate::vector::{Vect, within, add_spec, sub_spec, neg_spec};
use crate::shape::{SupportMap, AnnotatedPoint, COORD_LIMIT, PLACEMENT_LIMIT};
use crate::simplex::{Simplex, AnnotatedSimplex};
use crate::sampling::{
    MARGIN_LIMIT, PenetrationShift, shift_for, cso_dists, shape_dists, penetration_shift,
    projection_shift,
};
use crate::correction::{contact_spec, projection_spec, correct_contact, correct_projection};

verus! {

/// An exact distance algorithm between two separated shapes, which resumes
/// from the points held by a simplex.
pub trait ExactDistance<G1: SupportMap, G2: SupportMap> {
    /// The closest points that the algorithm finds from a simplex holding `pts`.
    spec fn closest_spec(
        &self,
        m1: Vect,
        g1: &G1,
        m2: Vect,
        g2: &G2,
        pts: Seq<AnnotatedPoint>,
    ) -> Option<(Vect, Vect)>;

    /// The points that the simplex holds afterwards.
    spec fn closest_simplex(
        &self,
        m1: Vect,
        g1: &G1,
        m2: Vect,
        g2: &G2,
        pts: Seq<AnnotatedPoint>,
    ) -> Seq<AnnotatedPoint>;

    /// The closest points of `g1` placed at `m1` and of `g2` placed at `m2`,
    /// one on each shape; nothing where the shapes are found to overlap.
    fn closest_points(
        &self,
        m1: &Vect,
        g1: &G1,
        m2: &Vect,
        g2: &G2,
        simplex: &mut AnnotatedSimplex,
    ) -> (r: Option<(Vect, Vect)>)
        requires
            g1.wf(),
            g2.wf(),
            within(*m1, PLACEMENT_LIMIT as int),
            within(*m2, PLACEMENT_LIMIT as int),
        ensures
            r == self.closest_spec(*m1, g1, *m2, g2, old(simplex).pts@),
            final(simplex).pts@ == self.closest_simplex(*m1, g1, *m2, g2, old(simplex).pts@),
    ;
}

/// An exact projection of the origin on a shape that does not contain it,
/// which resumes from the points held by a simplex.
pub trait ExactProjection<G: SupportMap> {
    /// The projection that the algorithm finds from a simplex holding `pts`.
    spec fn project_spec(&self, m: Vect, g: &G, pts: Seq<Vect>) -> Option<Vect>;

    /// The points that the simplex holds afterwards.
    spec fn project_simplex(&self, m: Vect, g: &G, pts: Seq<Vect>) -> Seq<Vect>;

    /// The point of `g` placed at `m` nearest to the origin; nothing where the
    /// origin is found inside the shape.
    fn project_origin(&self, m: &Vect, g: &G, simplex: &mut Simplex) -> (r: Option<Vect>)
        requires
            g.wf(),
            within(*m, PLACEMENT_LIMIT as int),
        ensures
            r == self.project_spec(*m, g, old(simplex).pts@),
            final(simplex).pts@ == self.project_simplex(*m, g, old(simplex).pts@),
    ;
}

/// The points of a simplex after the second shape moved by `t`.
pub open spec fn moved_second(pts: Seq<AnnotatedPoint>, t: Vect) -> Seq<AnnotatedPoint> {
    Seq::new(
        pts.len(),
        |i: int|
            AnnotatedPoint {
                orig1: pts[i].orig1,
                orig2: add_spec(pts[i].orig2, t),
                point: sub_spec(pts[i].point, t),
            },
    )
}

/// The points of a simplex all moved by `t`.
pub open spec fn moved_all(pts: Seq<Vect>, t: Vect) -> Seq<Vect> {
    Seq::new(pts.len(), |i: int| add_spec(pts[i], t))
}

/// The contact that the exact algorithm's answer gives after the shift `sh`.
pub open spec fn contact_of(sh: PenetrationShift, found: Option<(Vect, Vect)>) -> Option<(Vect, Vect, Vect)> {
    match found {
        None => None,
        Some((p1, p2)) => contact_spec(sh, p1, p2),
    }
}

/// The point that the exact projection's answer gives after the shift `sh`.
pub open spec fn projection_of(sh: PenetrationShift, found: Option<Vect>) -> Option<Vect> {
    match found {
        None => None,
        Some(p) => projection_spec(sh, p),
    }
}

/// Computes a contact of two inter-penetrating shapes: its center, the
/// corrected witness point on the second shape, and the unit normal. Nothing,
/// with the simplex untouched, where the shapes do not penetrate, that is
/// where some sampled direction has a negative support distance and so
/// separates them. Otherwise the second shape is moved along the sampled
/// direction of least support distance by that distance plus `margin`, the
/// simplex is moved to match, `exact` measures the separated pair from it, and
/// its answer is corrected back; nothing where `exact` finds no separation or
/// the correction has no direction.
pub fn closest_points<G1: SupportMap, G2: SupportMap, E: ExactDistance<G1, G2>>(
    m1: &Vect,
    g1: &G1,
    m2: &Vect,
    g2: &G2,
    simplex: &mut AnnotatedSimplex,
    margin: i64,
    exact: &E,
) -> (r: Option<(Vect, Vect, Vect)>)
    requires
        g1.wf(),
        g2.wf(),
        within(*m1, COORD_LIMIT as int),
        within(*m2, COORD_LIMIT as int),
        0 <= margin <= MARGIN_LIMIT,
        old(simplex).wf(),
    ensures
        ({
            let sh = shift_for(cso_dists(*m1, g1, *m2, g2), margin as int);
            let moved = add_spec(*m2, sh.shift);
            let pts = moved_second(old(simplex).pts@, sh.shift);
            &&& sh.min_dist < 0 ==> r.is_none() && *final(simplex) == *old(simplex)
            &&& sh.min_dist >= 0 ==> r == contact_of(
                sh,
                exact.closest_spec(*m1, g1, moved, g2, pts),
            )
            &&& sh.min_dist >= 0 ==> final(simplex).pts@ == exact.closest_simplex(
                *m1,
                g1,
                moved,
                g2,
                pts,
            )
        }),
{
    let sh = penetration_shift(m1, g1, m2, g2, margin);
    if sh.min_dist < 0 {
        return None;
    }
    let moved = m2.add(&sh.shift);
    simplex.translate_second(&sh.shift);
    proof {
        assert(simplex.pts@ =~= moved_second(old(simplex).pts@, sh.shift));
    }
    match exact.closest_points(m1, g1, &moved, g2, simplex) {
        None => None,
        Some((p1, p2)) => correct_contact(&sh, &p1, &p2),
    }
}

/// Projects the origin, assumed inside the shape `g` placed at `m`, on the
/// shape's surface. Nothing, with the simplex untouched, where the origin is
/// outside the shape, that is where some sampled direction has a negative
/// support distance. Otherwise the shape is moved against the sampled
/// direction of least support distance by that distance plus `margin`, the
/// simplex is moved with it, `exact` projects the origin on the moved shape
/// from it, and its answer is corrected back; nothing where `exact` finds the
/// origin inside or the correction has no direction.
pub fn project_origin<G: SupportMap, E: ExactProjection<G>>(
    m: &Vect,
    g: &G,
    simplex: &mut Simplex,
    margin: i64,
    exact: &E,
) -> (r: Option<Vect>)
    requires
        g.wf(),
        within(*m, COORD_LIMIT as int),
        0 <= margin <= MARGIN_LIMIT,
        old(simplex).wf(),
    ensures
        ({
            let sh = shift_for(shape_dists(*m, g), margin as int);
            let moved = add_spec(*m, neg_spec(sh.shift));
            let pts = moved_all(old(simplex).pts@, neg_spec(sh.shift));
            &&& sh.min_dist < 0 ==> r.is_none() && *final(simplex) == *old(simplex)
            &&& sh.min_dist >= 0 ==> r == projection_of(sh, exact.project_spec(moved, g, pts))
            &&& sh.min_dist >= 0 ==> final(simplex).pts@ == exact.project_simplex(moved, g, pts)
        }),
{
    let sh = projection_shift(m, g, margin);
    if sh.min_dist < 0 {
        return None;
    }
    let back = sh.shift.neg();
    let moved = m.add(&back);
    simplex.translate_all(&back);
    proof {
        assert(simplex.pts@ =~= moved_all(old(simplex).pts@, back));
    }
    match exact.project_origin(&moved, g, simplex) {
        None => None,
        Some(p) => correct_projection(&sh, &p),
    }
}

} // verus!
