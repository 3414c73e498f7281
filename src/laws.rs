use vstd::prelude::*;
use vstd::arithmetic::div_mod::{lemma_div_is_ordered, lemma_div_basics};
use crate::vector::{Vect, dot, neg_spec, within};
use crate::shape::SupportMap;
use crate::sampling::{
    sample_dir, opposite, lemma_opposite, is_first_min, lemma_first_min_unique, cso_dists,
    shift_for, DIR_LENGTH, DIST_LIMIT, MARGIN_LIMIT,
};

verus! {

/// Swapping the two shapes gives each sample the support distance that the
/// opposite sample had before.
pub proof fn lemma_swap_dists<G1: SupportMap, G2: SupportMap>(
    m1: Vect,
    g1: &G1,
    m2: Vect,
    g2: &G2,
    k: int,
)
    requires
        0 <= k < 36,
    ensures
        cso_dists(m2, g2, m1, g1)[k] == cso_dists(m1, g1, m2, g2)[opposite(k)],
{
    lemma_opposite(k);
    let d = sample_dir(k);
    let e = sample_dir(opposite(k));
    assert(within(d, 65));
    assert(neg_spec(e) == d);
    let a = g1.support_spec(m1, e);
    let b = g2.support_spec(m2, d);
    assert(dot(e, a) == -dot(d, a) && dot(e, b) == -dot(d, b)) by (nonlinear_arith)
        requires
            e.x == -d.x,
            e.y == -d.y,
    ;
}

/// Swapping the two shapes leaves the least sampled support distance as it
/// was, and the opposite of the direction chosen for the swapped pair is a
/// direction of least distance for the original pair: the depth is the same
/// and the normal is negated.
pub proof fn lemma_swap_symmetry<G1: SupportMap, G2: SupportMap>(
    m1: Vect,
    g1: &G1,
    m2: Vect,
    g2: &G2,
    k12: int,
    k21: int,
)
    requires
        is_first_min(cso_dists(m1, g1, m2, g2), k12),
        is_first_min(cso_dists(m2, g2, m1, g1), k21),
    ensures
        cso_dists(m2, g2, m1, g1)[k21] == cso_dists(m1, g1, m2, g2)[k12],
        cso_dists(m1, g1, m2, g2)[opposite(k21)] == cso_dists(m1, g1, m2, g2)[k12],
        sample_dir(opposite(k21)) == neg_spec(sample_dir(k21)),
{
    let s12 = cso_dists(m1, g1, m2, g2);
    let s21 = cso_dists(m2, g2, m1, g1);
    lemma_swap_dists(m1, g1, m2, g2, k21);
    lemma_swap_dists(m1, g1, m2, g2, opposite(k12));
    lemma_opposite(k21);
    lemma_opposite(k12);
    assert(opposite(opposite(k12)) == k12);
    assert(s12[k12] <= s12[opposite(k21)]);
    assert(s21[k21] <= s21[opposite(k12)]);
}

/// The margin never changes the chosen direction; with a non-negative least
/// distance, a larger margin moves the shift farther along that direction and
/// never turns it against it.
pub proof fn lemma_margin_monotone(dists: Seq<int>, k: int, a: int, b: int)
    requires
        dists.len() == 36,
        is_first_min(dists, k),
        0 <= dists[k] <= DIST_LIMIT,
        0 <= a <= b <= MARGIN_LIMIT,
    ensures
        shift_for(dists, a).index == k,
        shift_for(dists, b).index == k,
        shift_for(dists, a).dir == shift_for(dists, b).dir,
        ({
            let dir = shift_for(dists, a).dir;
            let sa = shift_for(dists, a).shift;
            let sb = shift_for(dists, b).shift;
            &&& dir.x >= 0 ==> 0 <= sa.x <= sb.x
            &&& dir.x <= 0 ==> sb.x <= sa.x <= 0
            &&& dir.y >= 0 ==> 0 <= sa.y <= sb.y
            &&& dir.y <= 0 ==> sb.y <= sa.y <= 0
        }),
{
    let ka = choose|j: int| #[trigger] is_first_min(dists, j);
    lemma_first_min_unique(dists, ka, k);
    let dir = sample_dir(k);
    assert(within(dir, DIR_LENGTH as int));
    let q: int = DIR_LENGTH * DIR_LENGTH;
    let sa = dists[k] + DIR_LENGTH * a;
    let sb = dists[k] + DIR_LENGTH * b;
    lemma_margin_axis(dir.x as int, sa, sb, q);
    lemma_margin_axis(dir.y as int, sa, sb, q);
}

proof fn lemma_margin_axis(c: int, sa: int, sb: int, q: int)
    requires
        -65 <= c <= 65,
        0 <= sa <= sb <= 620_000_000,
        q == 4225,
    ensures
        c >= 0 ==> 0 <= (c * sa) / q <= (c * sb) / q,
        c <= 0 ==> (c * sb) / q <= (c * sa) / q <= 0,
        -0x4000_0000 <= (c * sa) / q <= 0x4000_0000,
        -0x4000_0000 <= (c * sb) / q <= 0x4000_0000,
{
    lemma_div_basics(q);
    if c >= 0 {
        assert(0 <= c * sa <= c * sb) by (nonlinear_arith)
            requires
                c >= 0,
                0 <= sa <= sb,
        ;
        lemma_div_is_ordered(0, c * sa, q);
        lemma_div_is_ordered(c * sa, c * sb, q);
    } else {
        assert(c * sb <= c * sa <= 0) by (nonlinear_arith)
            requires
                c < 0,
                0 <= sa <= sb,
        ;
        lemma_div_is_ordered(c * sa, 0, q);
        lemma_div_is_ordered(c * sb, c * sa, q);
    }
    assert(-40_300_000_000 <= c * sb <= 40_300_000_000 && -40_300_000_000 <= c * sa
        <= 40_300_000_000) by (nonlinear_arith)
        requires
            -65 <= c <= 65,
            0 <= sa <= sb <= 620_000_000,
    ;
    lemma_div_is_ordered(-40_300_000_000, c * sa, q);
    lemma_div_is_ordered(c * sa, 40_300_000_000, q);
    lemma_div_is_ordered(-40_300_000_000, c * sb, q);
    lemma_div_is_ordered(c * sb, 40_300_000_000, q);
}

} // verus!
