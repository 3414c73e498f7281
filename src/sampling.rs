use vstd::prelude::*;
use crate::vector::{Vect, within, dot, neg_spec, vect_of, floor_div, lemma_dot_bound, lemma_mul_bound, lemma_div_bound};
use crate::shape::{SupportMap, COORD_LIMIT, cso_support, cso_support_spec};

verus! {

/// Number of sampled directions.
pub const SAMPLE_COUNT: usize = 36;

/// Exact length of every sampled direction.
pub const DIR_LENGTH: i64 = 65;

/// The first-quadrant directions of length 65, from the x axis toward the y
/// axis; the other samples are their quarter turns.
pub open spec fn base_dir(k: int) -> (int, int) {
    if k == 0 {
        (65, 0)
    } else if k == 1 {
        (63, 16)
    } else if k == 2 {
        (60, 25)
    } else if k == 3 {
        (56, 33)
    } else if k == 4 {
        (52, 39)
    } else if k == 5 {
        (39, 52)
    } else if k == 6 {
        (33, 56)
    } else if k == 7 {
        (25, 60)
    } else {
        (16, 63)
    }
}

/// The `k`-th sampled direction: base direction `k % 9` turned `k / 9` quarter
/// turns counterclockwise.
pub open spec fn sample_dir(k: int) -> Vect {
    let (a, b) = base_dir(k % 9);
    let q = k / 9;
    if q == 0 {
        vect_of(a, b)
    } else if q == 1 {
        vect_of(-b, a)
    } else if q == 2 {
        vect_of(-a, -b)
    } else {
        vect_of(b, -a)
    }
}

/// The sample opposite to sample `k`.
pub open spec fn opposite(k: int) -> int {
    if k < 18 {
        k + 18
    } else {
        k - 18
    }
}

/// The `k`-th sampled direction, with its exact length.
pub fn sample_direction(k: usize) -> (r: Vect)
    requires
        k < SAMPLE_COUNT,
    ensures
        r == sample_dir(k as int),
        dot(r, r) == DIR_LENGTH * DIR_LENGTH,
        within(r, DIR_LENGTH as int),
{
    let j = k % 9;
    let (a, b): (i64, i64) = if j == 0 {
        (65, 0)
    } else if j == 1 {
        (63, 16)
    } else if j == 2 {
        (60, 25)
    } else if j == 3 {
        (56, 33)
    } else if j == 4 {
        (52, 39)
    } else if j == 5 {
        (39, 52)
    } else if j == 6 {
        (33, 56)
    } else if j == 7 {
        (25, 60)
    } else {
        (16, 63)
    };
    assert(a * a + b * b == 4225);
    assert((-b) * (-b) + a * a == 4225 && (-a) * (-a) + (-b) * (-b) == 4225 && b * b + (-a) * (-a)
        == 4225) by (nonlinear_arith)
        requires
            a * a + b * b == 4225,
    ;
    let q = k / 9;
    if q == 0 {
        Vect { x: a, y: b }
    } else if q == 1 {
        Vect { x: -b, y: a }
    } else if q == 2 {
        Vect { x: -a, y: -b }
    } else {
        Vect { x: b, y: -a }
    }
}

/// Opposite samples are opposite vectors.
pub proof fn lemma_opposite(k: int)
    requires
        0 <= k < 36,
    ensures
        0 <= opposite(k) < 36,
        sample_dir(opposite(k)) == neg_spec(sample_dir(k)),
{
}

/// `k` is the first index at which `s` takes its least value.
pub open spec fn is_first_min(s: Seq<int>, k: int) -> bool {
    &&& 0 <= k < s.len()
    &&& forall|j: int| 0 <= j < s.len() ==> s[k] <= #[trigger] s[j]
    &&& forall|j: int| 0 <= j < k ==> s[k] < #[trigger] s[j]
}

/// The index of the first least element of `s`.
pub fn first_minimum(s: &Vec<i64>) -> (r: usize)
    requires
        s@.len() > 0,
    ensures
        is_first_min(s@.map_values(|v: i64| v as int), r as int),
{
    let ghost t = s@.map_values(|v: i64| v as int);
    let mut best: usize = 0;
    let mut min_dist: i64 = i64::MAX;
    let mut i: usize = 0;
    while i < s.len()
        invariant
            0 <= i <= s@.len(),
            t == s@.map_values(|v: i64| v as int),
            i == 0 ==> best == 0 && min_dist == i64::MAX,
            i > 0 ==> best < i && min_dist == s@[best as int],
            forall|j: int| 0 <= j < i ==> min_dist <= #[trigger] s@[j],
            forall|j: int| 0 <= j < best ==> min_dist < #[trigger] s@[j],
        decreases s@.len() - i,
    {
        if s[i] < min_dist {
            best = i;
            min_dist = s[i];
        }
        i = i + 1;
    }
    proof {
        assert forall|j: int| 0 <= j < t.len() implies t[best as int] <= #[trigger] t[j] by {
            assert(min_dist <= s@[j]);
        }
        assert forall|j: int| 0 <= j < best implies t[best as int] < #[trigger] t[j] by {
            assert(min_dist < s@[j]);
        }
    }
    best
}

/// Sampling is deterministic: a sequence of distances has a single first
/// least element, so equal inputs always select the same direction.
pub proof fn lemma_first_min_unique(s: Seq<int>, k1: int, k2: int)
    requires
        is_first_min(s, k1),
        is_first_min(s, k2),
    ensures
        k1 == k2,
{
    if k1 < k2 {
        assert(s[k2] < s[k1]);
    } else if k2 < k1 {
        assert(s[k1] < s[k2]);
    }
}


/// Bound on a sampled support distance, which is scaled by `DIR_LENGTH`.
pub const DIST_LIMIT: i64 = 545_259_520;

/// Bound on the margin.
pub const MARGIN_LIMIT: i64 = 1_048_576;

/// Bound on the coordinates of a separating shift.
pub const SHIFT_BOUND: i64 = 9_437_184;

/// Support distance of the configuration-space obstacle of two placed shapes
/// along `d`, scaled by the length of `d`.
pub open spec fn cso_dist<G1: SupportMap, G2: SupportMap>(
    m1: Vect,
    g1: &G1,
    m2: Vect,
    g2: &G2,
    d: Vect,
) -> int {
    dot(d, g1.support_spec(m1, d)) - dot(d, g2.support_spec(m2, neg_spec(d)))
}

/// The support distances of two placed shapes along every sample.
pub open spec fn cso_dists<G1: SupportMap, G2: SupportMap>(
    m1: Vect,
    g1: &G1,
    m2: Vect,
    g2: &G2,
) -> Seq<int> {
    Seq::new(36, |k: int| cso_dist(m1, g1, m2, g2, sample_dir(k)))
}

/// The support distances of one placed shape along every sample.
pub open spec fn shape_dists<G: SupportMap>(m: Vect, g: &G) -> Seq<int> {
    Seq::new(36, |k: int| dot(sample_dir(k), g.support_spec(m, sample_dir(k))))
}

/// The translation `dir / L * (min_dist / L + margin)`, rounded down, where `L`
/// is the sample length and `min_dist` is scaled by `L`.
pub open spec fn shift_spec(dir: Vect, min_dist: int, margin: int) -> Vect {
    let scaled = min_dist + DIR_LENGTH * margin;
    vect_of(
        (dir.x * scaled) / (DIR_LENGTH * DIR_LENGTH),
        (dir.y * scaled) / (DIR_LENGTH * DIR_LENGTH),
    )
}

/// The outcome of the direction search and of the separating shift.
#[derive(Clone, Copy, Debug, PartialEq, Eq, Structural)]
pub struct PenetrationShift {
    /// Index of the sample of smallest support distance.
    pub index: usize,
    /// That sample.
    pub dir: Vect,
    /// Its support distance, scaled by `DIR_LENGTH`.
    pub min_dist: i64,
    /// Extra distance added to the shift.
    pub margin: i64,
    /// The translation that separates the shapes.
    pub shift: Vect,
}

/// The search and shift that a sequence of sampled distances determines: the
/// first sample of least distance, and the shift along it.
pub open spec fn shift_for(dists: Seq<int>, margin: int) -> PenetrationShift {
    let k = choose|k: int| #[trigger] is_first_min(dists, k);
    let dir = sample_dir(k);
    PenetrationShift {
        index: k as usize,
        dir,
        min_dist: dists[k] as i64,
        margin: margin as i64,
        shift: shift_spec(dir, dists[k], margin),
    }
}

impl PenetrationShift {
    pub open spec fn wf(&self) -> bool {
        &&& self.index < 36
        &&& self.dir == sample_dir(self.index as int)
        &&& -DIST_LIMIT <= self.min_dist <= DIST_LIMIT
        &&& 0 <= self.margin <= MARGIN_LIMIT
        &&& self.shift == shift_spec(self.dir, self.min_dist as int, self.margin as int)
        &&& within(self.shift, SHIFT_BOUND as int)
    }
}

/// The direction of least support distance among the samples, and the shift
/// along it by that distance plus `margin`.
pub fn separating_shift(dists: &Vec<i64>, margin: i64) -> (r: PenetrationShift)
    requires
        dists@.len() == SAMPLE_COUNT,
        forall|k: int| 0 <= k < 36 ==> -DIST_LIMIT <= #[trigger] dists@[k] <= DIST_LIMIT,
        0 <= margin <= MARGIN_LIMIT,
    ensures
        r.wf(),
        is_first_min(dists@.map_values(|v: i64| v as int), r.index as int),
        r.min_dist == dists@[r.index as int],
        r.margin == margin,
        r == shift_for(dists@.map_values(|v: i64| v as int), margin as int),
{
    let index = first_minimum(dists);
    let ghost t = dists@.map_values(|v: i64| v as int);
    assert(t[index as int] == dists@[index as int]);
    let dir = sample_direction(index);
    let min_dist = dists[index];
    let scaled: i64 = min_dist + DIR_LENGTH * margin;
    proof {
        lemma_mul_bound(dir.x as int, scaled as int, 65, (585 * 1_048_576) as int);
        lemma_mul_bound(dir.y as int, scaled as int, 65, (585 * 1_048_576) as int);
    }
    let sx = floor_div(dir.x * scaled, DIR_LENGTH * DIR_LENGTH);
    let sy = floor_div(dir.y * scaled, DIR_LENGTH * DIR_LENGTH);
    proof {
        lemma_div_bound(dir.x * scaled, 4225, SHIFT_BOUND as int);
        lemma_div_bound(dir.y * scaled, 4225, SHIFT_BOUND as int);
    }
    let r = PenetrationShift { index, dir, min_dist, margin, shift: Vect { x: sx, y: sy } };
    proof {
        let k = choose|k: int| #[trigger] is_first_min(t, k);
        lemma_first_min_unique(t, k, index as int);
    }
    r
}

/// Searches the direction along which two overlapping shapes are separated by
/// the shortest move, and the shift that separates them along it.
pub fn penetration_shift<G1: SupportMap, G2: SupportMap>(
    m1: &Vect,
    g1: &G1,
    m2: &Vect,
    g2: &G2,
    margin: i64,
) -> (r: PenetrationShift)
    requires
        g1.wf(),
        g2.wf(),
        within(*m1, COORD_LIMIT as int),
        within(*m2, COORD_LIMIT as int),
        0 <= margin <= MARGIN_LIMIT,
    ensures
        r.wf(),
        is_first_min(cso_dists(*m1, g1, *m2, g2), r.index as int),
        r.min_dist == cso_dists(*m1, g1, *m2, g2)[r.index as int],
        r.margin == margin,
        r == shift_for(cso_dists(*m1, g1, *m2, g2), margin as int),
{
    let mut dists: Vec<i64> = Vec::new();
    let mut k: usize = 0;
    while k < SAMPLE_COUNT
        invariant
            k <= SAMPLE_COUNT,
            dists@.len() == k,
            g1.wf(),
            g2.wf(),
            within(*m1, COORD_LIMIT as int),
            within(*m2, COORD_LIMIT as int),
            forall|j: int| 0 <= j < k ==> #[trigger] dists@[j] == cso_dist(*m1, g1, *m2, g2, sample_dir(j)),
            forall|j: int| 0 <= j < k ==> -DIST_LIMIT <= #[trigger] dists@[j] <= DIST_LIMIT,
        decreases SAMPLE_COUNT - k,
    {
        let d = sample_direction(k);
        let s = cso_support(m1, g1, m2, g2, &d);
        let dist = d.dot(&s.point);
        proof {
            let a = s.orig1;
            let b = s.orig2;
            assert(dot(d, s.point) == dot(d, a) - dot(d, b)) by (nonlinear_arith)
                requires
                    s.point.x == a.x - b.x,
                    s.point.y == a.y - b.y,
            ;
            lemma_dot_bound(d, s.point, 65, (4 * 1_048_576) as int);
        }
        dists.push(dist);
        k = k + 1;
    }
    let r = separating_shift(&dists, margin);
    proof {
        assert(dists@.map_values(|v: i64| v as int) =~= cso_dists(*m1, g1, *m2, g2));
    }
    r
}

/// Searches the direction along which a shape containing the origin is moved
/// off it by the shortest move, and the shift along it.
pub fn projection_shift<G: SupportMap>(m: &Vect, g: &G, margin: i64) -> (r: PenetrationShift)
    requires
        g.wf(),
        within(*m, COORD_LIMIT as int),
        0 <= margin <= MARGIN_LIMIT,
    ensures
        r.wf(),
        is_first_min(shape_dists(*m, g), r.index as int),
        r.min_dist == shape_dists(*m, g)[r.index as int],
        r.margin == margin,
        r == shift_for(shape_dists(*m, g), margin as int),
{
    let mut dists: Vec<i64> = Vec::new();
    let mut k: usize = 0;
    while k < SAMPLE_COUNT
        invariant
            k <= SAMPLE_COUNT,
            dists@.len() == k,
            g.wf(),
            within(*m, COORD_LIMIT as int),
            forall|j: int| 0 <= j < k ==> #[trigger] dists@[j] == dot(sample_dir(j), g.support_spec(*m, sample_dir(j))),
            forall|j: int| 0 <= j < k ==> -DIST_LIMIT <= #[trigger] dists@[j] <= DIST_LIMIT,
        decreases SAMPLE_COUNT - k,
    {
        let d = sample_direction(k);
        let s = g.support_point(m, &d);
        let dist = d.dot(&s);
        proof {
            lemma_dot_bound(d, s, 65, (2 * 1_048_576) as int);
        }
        dists.push(dist);
        k = k + 1;
    }
    let r = separating_shift(&dists, margin);
    proof {
        assert(dists@.map_values(|v: i64| v as int) =~= shape_dists(*m, g));
    }
    r
}

} // verus!
