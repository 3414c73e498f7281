use vstd::prelude::*;
use vstd::arithmetic::div_mod::lemma_fundamental_div_mod;
use vstd::arithmetic::div_mod::lemma_fundamental_div_mod_converse;

verus! {

/// A point or a vector of the plane with integer coordinates.
#[derive(Clone, Copy, Debug, PartialEq, Eq, Structural)]
pub struct Vect {
    pub x: i64,
    pub y: i64,
}

/// Both coordinates of `v` lie in `[-b, b]`.
pub open spec fn within(v: Vect, b: int) -> bool {
    -b <= v.x <= b && -b <= v.y <= b
}

pub open spec fn dot(a: Vect, b: Vect) -> int {
    a.x * b.x + a.y * b.y
}

pub open spec fn norm_squared(v: Vect) -> int {
    dot(v, v)
}

/// The vector with the given coordinates, where they fit in `i64`.
pub open spec fn vect_of(x: int, y: int) -> Vect {
    Vect { x: x as i64, y: y as i64 }
}

pub open spec fn add_spec(a: Vect, b: Vect) -> Vect {
    vect_of(a.x + b.x, a.y + b.y)
}

pub open spec fn sub_spec(a: Vect, b: Vect) -> Vect {
    vect_of(a.x - b.x, a.y - b.y)
}

pub open spec fn neg_spec(a: Vect) -> Vect {
    vect_of(-a.x, -a.y)
}

impl Vect {
    pub fn new(x: i64, y: i64) -> (r: Vect)
        ensures
            r.x == x,
            r.y == y,
    {
        Vect { x, y }
    }

    pub fn zero() -> (r: Vect)
        ensures
            r.x == 0,
            r.y == 0,
    {
        Vect { x: 0, y: 0 }
    }

    pub fn add(&self, o: &Vect) -> (r: Vect)
        requires
            i64::MIN <= self.x + o.x <= i64::MAX,
            i64::MIN <= self.y + o.y <= i64::MAX,
        ensures
            r.x == self.x + o.x,
            r.y == self.y + o.y,
    {
        Vect { x: self.x + o.x, y: self.y + o.y }
    }

    pub fn sub(&self, o: &Vect) -> (r: Vect)
        requires
            i64::MIN <= self.x - o.x <= i64::MAX,
            i64::MIN <= self.y - o.y <= i64::MAX,
        ensures
            r.x == self.x - o.x,
            r.y == self.y - o.y,
    {
        Vect { x: self.x - o.x, y: self.y - o.y }
    }

    pub fn neg(&self) -> (r: Vect)
        requires
            self.x > i64::MIN,
            self.y > i64::MIN,
        ensures
            r.x == -self.x,
            r.y == -self.y,
    {
        Vect { x: -self.x, y: -self.y }
    }
}

/// A product of two bounded factors is bounded by the product of the bounds.
pub proof fn lemma_mul_bound(x: int, y: int, a: int, b: int)
    requires
        -a <= x <= a,
        -b <= y <= b,
    ensures
        -(a * b) <= x * y <= a * b,
{
    assert(-(a * b) <= x * y <= a * b) by (nonlinear_arith)
        requires
            -a <= x <= a,
            -b <= y <= b,
    ;
}

/// A dot product of two bounded vectors is bounded.
pub proof fn lemma_dot_bound(u: Vect, v: Vect, a: int, b: int)
    requires
        within(u, a),
        within(v, b),
    ensures
        -2 * (a * b) <= dot(u, v) <= 2 * (a * b),
{
    lemma_mul_bound(u.x as int, v.x as int, a, b);
    lemma_mul_bound(u.y as int, v.y as int, a, b);
}

/// A quotient by a positive divisor of a value in `[-b * q, b * q]` lies in
/// `[-b, b]`.
pub proof fn lemma_div_bound(x: int, q: int, b: int)
    requires
        q > 0,
        b >= 0,
        -(b * q) <= x <= b * q,
    ensures
        -b <= x / q <= b,
{
    lemma_fundamental_div_mod(x, q);
    let d = x / q;
    let m = x % q;
    assert(-b <= d <= b) by (nonlinear_arith)
        requires
            x == q * d + m,
            0 <= m < q,
            q > 0,
            -(b * q) <= x <= b * q,
    ;
}

impl Vect {
    pub fn dot(&self, o: &Vect) -> (r: i64)
        requires
            within(*self, 0x8000_0000),
            within(*o, 0x4000_0000),
        ensures
            r == dot(*self, *o),
    {
        proof {
            lemma_mul_bound(self.x as int, o.x as int, 0x8000_0000, 0x4000_0000);
            lemma_mul_bound(self.y as int, o.y as int, 0x8000_0000, 0x4000_0000);
        }
        self.x * o.x + self.y * o.y
    }
}

/// Floor division by a positive divisor.
pub fn floor_div(n: i64, q: i64) -> (r: i64)
    requires
        q > 0,
    ensures
        r == n / q,
{
    if n >= 0 {
        let r = (n as u64 / q as u64) as i64;
        proof {
            lemma_fundamental_div_mod(n as int, q as int);
        }
        r
    } else {
        let m: u64 = (-(n as i128) - 1) as u64;
        let t: u64 = m / q as u64;
        proof {
            lemma_fundamental_div_mod(m as int, q as int);
            let s = (m as int) % (q as int);
            assert(n == (-(t as int) - 1) * q + (q - 1 - s)) by (nonlinear_arith)
                requires
                    m as int == q * (t as int) + s,
                    m as int == -(n as int) - 1,
            ;
            lemma_fundamental_div_mod_converse(n as int, q as int, -(t as int) - 1, q - 1 - s);
        }
        -(t as i64) - 1
    }
}

/// The integer square root: the largest `r` with `r * r <= n`.
pub fn isqrt(n: u128) -> (r: u64)
    requires
        n < 0x4000_0000_0000_0000_0000_0000_0000_0000,
    ensures
        r * r <= n < (r + 1) * (r + 1),
        r < 0x8000_0000_0000_0000,
{
    let mut lo: u128 = 0;
    let mut hi: u128 = 0x8000_0000_0000_0000;
    assert(0x8000_0000_0000_0000u128 * 0x8000_0000_0000_0000u128
        == 0x4000_0000_0000_0000_0000_0000_0000_0000u128);
    while hi - lo > 1
        invariant
            lo < hi <= 0x8000_0000_0000_0000,
            lo * lo <= n < hi * hi,
        decreases hi - lo,
    {
        let mid: u128 = lo + (hi - lo) / 2;
        assert(mid * mid < 0x4000_0000_0000_0000_0000_0000_0000_0000) by (nonlinear_arith)
            requires
                mid < 0x8000_0000_0000_0000,
        ;
        if mid * mid <= n {
            lo = mid;
        } else {
            hi = mid;
        }
    }
    assert(hi == lo + 1);
    lo as u64
}

} // verus!
