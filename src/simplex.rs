use vstd::prelude::*;
use crate::vector::{Vect, within, add_spec, sub_spec};
use crate::shape::AnnotatedPoint;

verus! {

/// Bound on the coordinates held by a simplex handed to this library.
pub const SIMPLEX_LIMIT: i64 = 0x100_0000_0000;

/// Bound on the coordinates of a translation applied to a simplex.
pub const SHIFT_LIMIT: i64 = 0x100_0000_0000;

/// The working set of points of an exact distance algorithm on one shape.
#[derive(Debug)]
pub struct Simplex {
    pub pts: Vec<Vect>,
}

/// The working set of points of an exact distance algorithm on two shapes.
#[derive(Debug)]
pub struct AnnotatedSimplex {
    pub pts: Vec<AnnotatedPoint>,
}

impl Simplex {
    pub open spec fn wf(&self) -> bool {
        forall|i: int| 0 <= i < self.pts@.len() ==> within(#[trigger] self.pts@[i], SIMPLEX_LIMIT as int)
    }

    /// Moves every held point by `t`.
    pub fn translate_all(&mut self, t: &Vect)
        requires
            old(self).wf(),
            within(*t, SHIFT_LIMIT as int),
        ensures
            final(self).pts@.len() == old(self).pts@.len(),
            forall|i: int|
                0 <= i < old(self).pts@.len() ==> #[trigger] final(self).pts@[i] == add_spec(
                    old(self).pts@[i],
                    *t,
                ),
    {
        let n = self.pts.len();
        let mut i: usize = 0;
        while i < n
            invariant
                0 <= i <= n,
                n == old(self).pts@.len(),
                self.pts@.len() == n,
                within(*t, SHIFT_LIMIT as int),
                old(self).wf(),
                forall|j: int| 0 <= j < i ==> #[trigger] self.pts@[j] == add_spec(old(self).pts@[j], *t),
                forall|j: int| i <= j < n ==> #[trigger] self.pts@[j] == old(self).pts@[j],
            decreases n - i,
        {
            let p = self.pts[i];
            assert(within(old(self).pts@[i as int], SIMPLEX_LIMIT as int));
            self.pts.set(i, p.add(t));
            i = i + 1;
        }
    }
}

impl AnnotatedSimplex {
    pub open spec fn wf(&self) -> bool {
        forall|i: int|
            #![trigger self.pts@[i]]
            0 <= i < self.pts@.len() ==> {
                &&& within(self.pts@[i].orig1, SIMPLEX_LIMIT as int)
                &&& within(self.pts@[i].orig2, SIMPLEX_LIMIT as int)
                &&& within(self.pts@[i].point, SIMPLEX_LIMIT as int)
            }
    }

    /// Accounts for the second shape being moved by `t`: every second witness
    /// moves by `t`, and so every difference point moves by `-t`.
    pub fn translate_second(&mut self, t: &Vect)
        requires
            old(self).wf(),
            within(*t, SHIFT_LIMIT as int),
        ensures
            final(self).pts@.len() == old(self).pts@.len(),
            forall|i: int|
                0 <= i < old(self).pts@.len() ==> #[trigger] final(self).pts@[i] == (AnnotatedPoint {
                    orig1: old(self).pts@[i].orig1,
                    orig2: add_spec(old(self).pts@[i].orig2, *t),
                    point: sub_spec(old(self).pts@[i].point, *t),
                }),
    {
        let n = self.pts.len();
        let mut i: usize = 0;
        while i < n
            invariant
                0 <= i <= n,
                n == old(self).pts@.len(),
                self.pts@.len() == n,
                within(*t, SHIFT_LIMIT as int),
                old(self).wf(),
                forall|j: int|
                    0 <= j < i ==> #[trigger] self.pts@[j] == (AnnotatedPoint {
                        orig1: old(self).pts@[j].orig1,
                        orig2: add_spec(old(self).pts@[j].orig2, *t),
                        point: sub_spec(old(self).pts@[j].point, *t),
                    }),
                forall|j: int| i <= j < n ==> #[trigger] self.pts@[j] == old(self).pts@[j],
            decreases n - i,
        {
            let p = self.pts[i];
            assert(within(old(self).pts@[i as int].point, SIMPLEX_LIMIT as int));
            let q = AnnotatedPoint { orig1: p.orig1, orig2: p.orig2.add(t), point: p.point.sub(t) };
            self.pts.set(i, q);
            i = i + 1;
        }
    }
}

} // verus!
