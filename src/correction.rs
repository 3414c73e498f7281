use vstd::prelude::*;
use crate::vector::{
    Vect, within, dot, vect_of, floor_div, isqrt, lemma_mul_bound, lemma_div_bound, lemma_dot_bound,
};
use crate::sampling::{PenetrationShift, DIR_LENGTH};
use vstd::arithmetic::div_mod::lemma_fundamental_div_mod;

verus! {

/// Length of a unit normal in fixed point.
pub const NORMAL_SCALE: i64 = 65536;

/// Bound on the coordinates of the points that the exact algorithm returns
/// and that the correction accepts.
pub const RESULT_LIMIT: i64 = 16_777_216;

/// `r` is the integer square root of `n`.
pub open spec fn is_isqrt(n: int, r: int) -> bool {
    0 <= r && r * r <= n < (r + 1) * (r + 1)
}

/// The integer square root of `n`.
pub open spec fn isqrt_spec(n: int) -> int {
    choose|r: int| #[trigger] is_isqrt(n, r)
}

/// A non-negative integer has one integer square root.
pub proof fn lemma_isqrt_unique(n: int, r: int)
    requires
        0 <= r,
        r * r <= n < (r + 1) * (r + 1),
    ensures
        isqrt_spec(n) == r,
{
    assert(is_isqrt(n, r));
    let s = isqrt_spec(n);
    assert(0 <= s && s * s <= n < (s + 1) * (s + 1));
    if s < r {
        assert((s + 1) * (s + 1) <= r * r) by (nonlinear_arith)
            requires
                0 <= s < r,
        ;
    } else if r < s {
        assert((r + 1) * (r + 1) <= s * s) by (nonlinear_arith)
            requires
                0 <= r < s,
        ;
    }
}

/// `v` divided by a length `len` that is scaled by `NORMAL_SCALE`, so that
/// the result is scaled by `NORMAL_SCALE` too; rounded down.
pub open spec fn scaled_normal(v: Vect, len: int) -> Vect {
    vect_of(
        (v.x * NORMAL_SCALE * NORMAL_SCALE) / len,
        (v.y * NORMAL_SCALE * NORMAL_SCALE) / len,
    )
}

/// The length of `v` in fixed point: the integer square root of
/// `|v|^2 * NORMAL_SCALE^2`.
pub open spec fn scaled_length(v: Vect) -> int {
    isqrt_spec(dot(v, v) * NORMAL_SCALE * NORMAL_SCALE)
}

/// A floor quotient `q` of `a` by `l > 0` satisfies `q * l <= a < q * l + l`.
proof fn lemma_floor_div_range(a: int, l: int)
    requires
        l > 0,
    ensures
        (a / l) * l <= a < (a / l) * l + l,
{
    lemma_fundamental_div_mod(a, l);
    assert((a / l) * l == l * (a / l)) by (nonlinear_arith);
}

/// One coordinate of a vector divided by its fixed-point length: the square of
/// the quotient, times `l^2`, expanded around the exact value.
proof fn lemma_axis_square(x: int, l: int, scale: int, nx: int)
    ensures
        l * l * (nx * nx) == scale * scale * (x * x) + 2 * scale * (x * (nx * l - x * scale)) + (
        nx * l - x * scale) * (nx * l - x * scale),
{
    let e = nx * l - x * scale;
    assert(nx * l == x * scale + e);
    assert(l * l * (nx * nx) == (nx * l) * (nx * l)) by (nonlinear_arith);
    assert((x * scale + e) * (x * scale + e) == scale * scale * (x * x) + 2 * scale * (x * e) + e
        * e) by (nonlinear_arith);
}

/// A vector divided by its fixed-point length, coordinate by coordinate and
/// rounded down, has a length within a few units of `scale`.
proof fn lemma_normal_length(x: int, y: int, l: int, scale: int, nx: int, ny: int)
    requires
        scale >= 1,
        l >= scale,
        l * l <= x * x + y * y < (l + 1) * (l + 1),
        -l <= x <= l,
        -l <= y <= l,
        nx * l <= x * scale < nx * l + l,
        ny * l <= y * scale < ny * l + l,
    ensures
        scale * scale - 4 * scale <= nx * nx + ny * ny <= scale * scale + 6 * scale + 3,
{
    let ex = nx * l - x * scale;
    let ey = ny * l - y * scale;
    let q = nx * nx + ny * ny;
    let s = x * x + y * y;
    let ll = l * l;
    lemma_axis_square(x, l, scale, nx);
    lemma_axis_square(y, l, scale, ny);
    assert(ll * q == ll * (nx * nx) + ll * (ny * ny)) by (nonlinear_arith)
        requires
            q == nx * nx + ny * ny,
    ;
    assert(scale * scale * s == scale * scale * (x * x) + scale * scale * (y * y)) by (nonlinear_arith)
        requires
            s == x * x + y * y,
    ;
    let c = x * ex + y * ey;
    assert(ll * q == scale * scale * s + 2 * scale * c + ex * ex + ey * ey) by (nonlinear_arith)
        requires
            ll * q == ll * (nx * nx) + ll * (ny * ny),
            ll * (nx * nx) == scale * scale * (x * x) + 2 * scale * (x * ex) + ex * ex,
            ll * (ny * ny) == scale * scale * (y * y) + 2 * scale * (y * ey) + ey * ey,
            scale * scale * s == scale * scale * (x * x) + scale * scale * (y * y),
            c == x * ex + y * ey,
            ll == l * l,
    ;
    lemma_mul_bound(x, ex, l, l);
    lemma_mul_bound(y, ey, l, l);
    lemma_mul_bound(ex, ex, l, l);
    lemma_mul_bound(ey, ey, l, l);
    assert(0 <= ex * ex && 0 <= ey * ey) by (nonlinear_arith);
    assert(-2 * ll <= c <= 2 * ll);
    assert(scale * scale * ll <= scale * scale * s) by (nonlinear_arith)
        requires
            ll <= s,
    ;
    assert(scale * scale * s <= scale * scale * ((l + 1) * (l + 1))) by (nonlinear_arith)
        requires
            s < (l + 1) * (l + 1),
            scale >= 1,
    ;
    assert(-4 * scale * ll <= 2 * scale * c <= 4 * scale * ll) by (nonlinear_arith)
        requires
            -2 * ll <= c <= 2 * ll,
            scale >= 1,
    ;
    assert(scale * scale * ((l + 1) * (l + 1)) <= ll * (scale * scale + 2 * scale + 1))
        by (nonlinear_arith)
        requires
            l >= scale,
            scale >= 1,
            ll == l * l,
    ;
    assert(ll * q >= ll * (scale * scale - 4 * scale)) by (nonlinear_arith)
        requires
            ll * q == scale * scale * s + 2 * scale * c + ex * ex + ey * ey,
            scale * scale * ll <= scale * scale * s,
            -4 * scale * ll <= 2 * scale * c,
            0 <= ex * ex,
            0 <= ey * ey,
    ;
    assert(ll * q <= ll * (scale * scale + 6 * scale + 3)) by (nonlinear_arith)
        requires
            ll * q == scale * scale * s + 2 * scale * c + ex * ex + ey * ey,
            scale * scale * s <= ll * (scale * scale + 2 * scale + 1),
            2 * scale * c <= 4 * scale * ll,
            ex * ex <= ll,
            ey * ey <= ll,
    ;
    assert(ll >= 1) by (nonlinear_arith)
        requires
            l >= 1,
            ll == l * l,
    ;
    assert(scale * scale - 4 * scale <= q <= scale * scale + 6 * scale + 3) by (nonlinear_arith)
        requires
            ll * q >= ll * (scale * scale - 4 * scale),
            ll * q <= ll * (scale * scale + 6 * scale + 3),
            ll >= 1,
    ;
}

/// Normalises `v`: the fixed-point unit vector along it and its fixed-point
/// length, or nothing for the zero vector.
pub fn normalize(v: &Vect) -> (r: Option<(Vect, i64)>)
    requires
        within(*v, 2 * RESULT_LIMIT),
    ensures
        r.is_none() <==> (v.x == 0 && v.y == 0),
        r matches Some((n, len)) ==> {
            &&& len == scaled_length(*v)
            &&& n == scaled_normal(*v, len as int)
            &&& NORMAL_SCALE <= len <= 0x400_0000_0000
            &&& within(n, NORMAL_SCALE as int)
            &&& NORMAL_SCALE * NORMAL_SCALE - 4 * NORMAL_SCALE <= dot(n, n)
            &&& dot(n, n) <= NORMAL_SCALE * NORMAL_SCALE + 6 * NORMAL_SCALE + 3
        },
{
    proof {
        lemma_dot_bound(*v, *v, 2 * RESULT_LIMIT, 2 * RESULT_LIMIT);
        assert(0 <= v.x * v.x && 0 <= v.y * v.y) by (nonlinear_arith);
    }
    let nn = v.dot(v);
    let big: u128 = nn as u128 * 0x1_0000_0000u128;
    let len = isqrt(big);
    let ghost l = len as int;
    let ghost x = v.x * NORMAL_SCALE;
    let ghost y = v.y * NORMAL_SCALE;
    proof {
        assert(NORMAL_SCALE * NORMAL_SCALE == 0x1_0000_0000);
        assert(big as int == dot(*v, *v) * NORMAL_SCALE * NORMAL_SCALE);
        assert(big as int == x * x + y * y) by (nonlinear_arith)
            requires
                big as int == (v.x * v.x + v.y * v.y) * NORMAL_SCALE * NORMAL_SCALE,
                x == v.x * NORMAL_SCALE,
                y == v.y * NORMAL_SCALE,
        ;
        assert(0 <= x * x && 0 <= y * y) by (nonlinear_arith);
        assert(l * l <= big < (l + 1) * (l + 1));
        lemma_isqrt_unique(big as int, l);
        if v.x == 0 && v.y == 0 {
            assert(big == 0) by (nonlinear_arith)
                requires
                    v.x == 0,
                    v.y == 0,
                    big as int == (v.x * v.x + v.y * v.y) * NORMAL_SCALE * NORMAL_SCALE,
            ;
            assert(l == 0) by (nonlinear_arith)
                requires
                    l * l <= 0,
                    l >= 0,
            ;
        }
    }
    if len == 0 {
        proof {
            assert(l == 0);
            assert((l + 1) * (l + 1) == 1) by (nonlinear_arith)
                requires
                    l == 0,
            ;
            assert(v.x == 0 && v.y == 0) by (nonlinear_arith)
                requires
                    (v.x * v.x + v.y * v.y) * NORMAL_SCALE * NORMAL_SCALE < 1,
                    NORMAL_SCALE == 65536,
            ;
        }
        return None;
    }
    proof {
        assert(-l <= x <= l && -l <= y <= l) by (nonlinear_arith)
            requires
                x * x + y * y < (l + 1) * (l + 1),
                l >= 0,
                x * x >= 0,
                y * y >= 0,
        ;
        assert(l <= 0x400_0000_0000) by (nonlinear_arith)
            requires
                l * l <= 2 * (0x200_0000 * 0x200_0000) * 0x1_0000_0000,
                l >= 0,
        ;
        assert(v.x * v.x + v.y * v.y >= 1) by (nonlinear_arith)
            requires
                !(v.x == 0 && v.y == 0),
        ;
        assert(l >= NORMAL_SCALE) by (nonlinear_arith)
            requires
                big as int == (v.x * v.x + v.y * v.y) * NORMAL_SCALE * NORMAL_SCALE,
                v.x * v.x + v.y * v.y >= 1,
                big < (l + 1) * (l + 1),
                l >= 0,
                NORMAL_SCALE == 65536,
        ;
        lemma_mul_bound(x, NORMAL_SCALE as int, l, NORMAL_SCALE as int);
        lemma_mul_bound(y, NORMAL_SCALE as int, l, NORMAL_SCALE as int);
        lemma_div_bound(x * NORMAL_SCALE, l, NORMAL_SCALE as int);
        lemma_div_bound(y * NORMAL_SCALE, l, NORMAL_SCALE as int);
    }
    let li = len as i64;
    let n = Vect {
        x: floor_div(v.x * NORMAL_SCALE * NORMAL_SCALE, li),
        y: floor_div(v.y * NORMAL_SCALE * NORMAL_SCALE, li),
    };
    proof {
        lemma_floor_div_range(x * NORMAL_SCALE, l);
        lemma_floor_div_range(y * NORMAL_SCALE, l);
        lemma_normal_length(x, y, l, NORMAL_SCALE as int, n.x as int, n.y as int);
    }
    Some((n, li))
}

/// The depth of the contact along a normal `n`, scaled by `NORMAL_SCALE`: the
/// shift's length projected on `n`, rounded down, less the fixed-point length
/// `len` of the gap that the exact algorithm found.
pub open spec fn depth_spec(sh: PenetrationShift, n: Vect, len: int) -> int {
    (dot(n, sh.dir) * (sh.min_dist + DIR_LENGTH * sh.margin)) / (DIR_LENGTH * DIR_LENGTH) - len
}

/// `n` scaled by `depth / NORMAL_SCALE^2`, rounded down.
pub open spec fn along_spec(n: Vect, depth: int) -> Vect {
    vect_of(
        (n.x * depth) / (NORMAL_SCALE * NORMAL_SCALE),
        (n.y * depth) / (NORMAL_SCALE * NORMAL_SCALE),
    )
}

/// The contact that two closest points `p1`, `p2` of the shifted shapes give:
/// the midpoint `c` of `p1` and of `p2` moved back by the shift, the point at
/// the depth from `c` against the normal, and the normal from `p1` to `p2`.
/// Nothing where the two points coincide or are out of range.
pub open spec fn contact_spec(sh: PenetrationShift, p1: Vect, p2: Vect) -> Option<(Vect, Vect, Vect)> {
    if !within(p1, RESULT_LIMIT as int) || !within(p2, RESULT_LIMIT as int) || p1 == p2 {
        None
    } else {
        let v = vect_of(p2.x - p1.x, p2.y - p1.y);
        let len = scaled_length(v);
        let n = scaled_normal(v, len);
        let back = vect_of(p2.x - sh.shift.x, p2.y - sh.shift.y);
        let center = vect_of((p1.x + back.x) / 2, (p1.y + back.y) / 2);
        let a = along_spec(n, depth_spec(sh, n, len));
        Some((center, vect_of(center.x - a.x, center.y - a.y), n))
    }
}

/// The point that a projection `p` of the origin on the shifted shape gives:
/// the point at the depth from the origin along the normal `-p`. Nothing where
/// `p` is the origin or out of range.
pub open spec fn projection_spec(sh: PenetrationShift, p: Vect) -> Option<Vect> {
    if !within(p, RESULT_LIMIT as int) || (p.x == 0 && p.y == 0) {
        None
    } else {
        let v = vect_of(-p.x, -p.y);
        let len = scaled_length(v);
        let n = scaled_normal(v, len);
        Some(along_spec(n, depth_spec(sh, n, len)))
    }
}

/// The depth along `n`, and `n` scaled by it.
fn depth_along(sh: &PenetrationShift, n: &Vect, len: i64) -> (r: (i64, Vect))
    requires
        sh.wf(),
        within(*n, NORMAL_SCALE as int),
        1 <= len <= 0x400_0000_0000,
    ensures
        r.0 == depth_spec(*sh, *n, len as int),
        r.1 == along_spec(*n, r.0 as int),
        -0x800_0000_0000 <= r.0 <= 0x800_0000_0000,
        within(r.1, 0x800_0000),
{
    proof {
        lemma_dot_bound(*n, sh.dir, NORMAL_SCALE as int, DIR_LENGTH as int);
    }
    let nd = n.dot(&sh.dir);
    let scaled: i64 = sh.min_dist + DIR_LENGTH * sh.margin;
    proof {
        lemma_mul_bound(nd as int, scaled as int, 8_519_680, 613_416_960);
        lemma_div_bound(nd * scaled, 4225, 1_300_000_000_000);
    }
    let nmin = floor_div(nd * scaled, DIR_LENGTH * DIR_LENGTH);
    let depth = nmin - len;
    proof {
        lemma_mul_bound(n.x as int, depth as int, NORMAL_SCALE as int, 0x800_0000_0000);
        lemma_mul_bound(n.y as int, depth as int, NORMAL_SCALE as int, 0x800_0000_0000);
        assert(NORMAL_SCALE * 0x800_0000_0000 == 0x800_0000 * (NORMAL_SCALE * NORMAL_SCALE));
        lemma_div_bound(n.x * depth, NORMAL_SCALE * NORMAL_SCALE, 0x800_0000);
        lemma_div_bound(n.y * depth, NORMAL_SCALE * NORMAL_SCALE, 0x800_0000);
    }
    let a = Vect {
        x: floor_div(n.x * depth, NORMAL_SCALE * NORMAL_SCALE),
        y: floor_div(n.y * depth, NORMAL_SCALE * NORMAL_SCALE),
    };
    (depth, a)
}

/// Turns the closest points `p1`, `p2` that the exact algorithm found between
/// the shifted shapes into a contact of the unshifted ones: its center, the
/// corrected witness point, and the unit normal.
pub fn correct_contact(sh: &PenetrationShift, p1: &Vect, p2: &Vect) -> (r: Option<(Vect, Vect, Vect)>)
    requires
        sh.wf(),
    ensures
        r == contact_spec(*sh, *p1, *p2),
{
    if !(-RESULT_LIMIT <= p1.x && p1.x <= RESULT_LIMIT && -RESULT_LIMIT <= p1.y && p1.y
        <= RESULT_LIMIT && -RESULT_LIMIT <= p2.x && p2.x <= RESULT_LIMIT && -RESULT_LIMIT <= p2.y
        && p2.y <= RESULT_LIMIT) {
        return None;
    }
    let v = p2.sub(p1);
    match normalize(&v) {
        None => None,
        Some((n, len)) => {
            let back = p2.sub(&sh.shift);
            let center = Vect {
                x: floor_div(p1.x + back.x, 2),
                y: floor_div(p1.y + back.y, 2),
            };
            let (_depth, a) = depth_along(sh, &n, len);
            let p = Vect { x: center.x - a.x, y: center.y - a.y };
            proof {
                lemma_div_bound(p1.x + back.x, 2, 0x200_0000);
                lemma_div_bound(p1.y + back.y, 2, 0x200_0000);
            }
            Some((center, p, n))
        },
    }
}

/// Turns the projection `p` of the origin that the exact algorithm found on
/// the shifted shape into the point of the unshifted shape's surface nearest
/// to the origin along the normal.
pub fn correct_projection(sh: &PenetrationShift, p: &Vect) -> (r: Option<Vect>)
    requires
        sh.wf(),
    ensures
        r == projection_spec(*sh, *p),
{
    if !(-RESULT_LIMIT <= p.x && p.x <= RESULT_LIMIT && -RESULT_LIMIT <= p.y && p.y
        <= RESULT_LIMIT) {
        return None;
    }
    let v = p.neg();
    match normalize(&v) {
        None => None,
        Some((n, len)) => {
            let (_depth, a) = depth_along(sh, &n, len);
            Some(a)
        },
    }
}

} // verus!
