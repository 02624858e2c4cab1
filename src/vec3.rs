//! Three-component fixed-point vectors, used for points, directions and colors.
use vstd::prelude::*;
use crate::fixed::{abs_int, div_trunc, is_isqrt, fx_mul, isqrt, isqrt_u128, sat, saturate, tdiv, LIMIT, ONE};

verus! {

/// A vector whose components are fixed-point values (see [`ONE`]).
#[derive(Clone, Copy, Debug, PartialEq, Eq, Structural)]
pub struct Vec3 {
    pub x: i64,
    pub y: i64,
    pub z: i64,
}

/// The vector of the three saturated components.
pub open spec fn mk(x: int, y: int, z: int) -> Vec3 {
    Vec3 { x: sat(x) as i64, y: sat(y) as i64, z: sat(z) as i64 }
}

pub open spec fn vsum(a: Vec3, b: Vec3) -> Vec3 {
    mk(a.x + b.x, a.y + b.y, a.z + b.z)
}

pub open spec fn vdiff(a: Vec3, b: Vec3) -> Vec3 {
    mk(a.x - b.x, a.y - b.y, a.z - b.z)
}

pub open spec fn vneg(a: Vec3) -> Vec3 {
    Vec3 { x: -a.x as i64, y: -a.y as i64, z: -a.z as i64 }
}

/// `t * v` for a fixed-point scalar `t`.
pub open spec fn vscale(t: int, v: Vec3) -> Vec3 {
    mk(fx_mul(t, v.x as int), fx_mul(t, v.y as int), fx_mul(t, v.z as int))
}

/// Component-wise product, as used to attenuate colors.
pub open spec fn vmul(a: Vec3, b: Vec3) -> Vec3 {
    mk(fx_mul(a.x as int, b.x as int), fx_mul(a.y as int, b.y as int), fx_mul(a.z as int, b.z as int))
}

/// The dot product of the raw components (scaled by `ONE * ONE`).
pub open spec fn dot_raw(a: Vec3, b: Vec3) -> int {
    a.x * b.x + a.y * b.y + a.z * b.z
}

/// The dot product as a fixed-point value.
pub open spec fn dot(a: Vec3, b: Vec3) -> int {
    tdiv(dot_raw(a, b), ONE as int)
}

/// The length of `v` as a fixed-point value, rounded down.
pub open spec fn length(v: Vec3) -> int {
    isqrt(dot_raw(v, v))
}

/// `v` scaled to unit length; the zero vector stays zero.
pub open spec fn vnormalize(v: Vec3) -> Vec3 {
    let l = length(v);
    if l == 0 {
        Vec3 { x: 0, y: 0, z: 0 }
    } else {
        mk(tdiv(v.x * ONE, l), tdiv(v.y * ONE, l), tdiv(v.z * ONE, l))
    }
}

/// Every component of `v` lies within `eps` of zero.
pub open spec fn near_zero(v: Vec3, eps: int) -> bool {
    -eps <= v.x <= eps && -eps <= v.y <= eps && -eps <= v.z <= eps
}

pub proof fn lemma_mul_bound(a: int, b: int, ba: int, bb: int)
    requires
        -ba <= a <= ba,
        -bb <= b <= bb,
    ensures
        -(ba * bb) <= a * b <= ba * bb,
{
    assert(-(ba * bb) <= a * b <= ba * bb) by (nonlinear_arith)
        requires
            -ba <= a <= ba,
            -bb <= b <= bb,
    ;
}

proof fn lemma_square_nonneg(a: int)
    ensures
        a * a >= 0,
{
    assert(a * a >= 0) by (nonlinear_arith);
}

/// Negating one side negates the dot product.
pub proof fn lemma_dot_neg(a: Vec3, b: Vec3)
    requires
        b.wf(),
    ensures
        dot_raw(a, vneg(b)) == -dot_raw(a, b),
{
    let n = vneg(b);
    assert(n.x == -b.x && n.y == -b.y && n.z == -b.z);
    assert(a.x * n.x == -(a.x * b.x)) by (nonlinear_arith)
        requires
            n.x == -b.x,
    ;
    assert(a.y * n.y == -(a.y * b.y)) by (nonlinear_arith)
        requires
            n.y == -b.y,
    ;
    assert(a.z * n.z == -(a.z * b.z)) by (nonlinear_arith)
        requires
            n.z == -b.z,
    ;
}

/// The squared length of `v` after adding one unit to each component's magnitude.
pub open spec fn padded_square(v: Vec3) -> int {
    (abs_int(v.x as int) + 1) * (abs_int(v.x as int) + 1) + (abs_int(v.y as int) + 1) * (abs_int(
        v.y as int,
    ) + 1) + (abs_int(v.z as int) + 1) * (abs_int(v.z as int) + 1)
}

/// One component of a normalized vector: `a * ONE / l` rounded toward zero,
/// where `l` is the rounded-down length of a vector holding `a`.
proof fn lemma_component_quotient(a: int, l: int)
    requires
        l > 0,
        a * a < (l + 1) * (l + 1),
    ensures
        sat(tdiv(a * ONE, l)) == tdiv(a * ONE, l),
        tdiv(a * ONE, l) * tdiv(a * ONE, l) * (l * l) <= a * a * (ONE * ONE),
        (abs_int(tdiv(a * ONE, l)) + 1) * (abs_int(tdiv(a * ONE, l)) + 1) * (l * l) > a * a * (ONE
            * ONE),
{
    let o = ONE as int;
    let m = abs_int(a);
    assert(m * m == a * a) by (nonlinear_arith)
        requires
            m == abs_int(a),
    ;
    assert(m >= 0);
    crate::fixed::lemma_square_monotone(m, l + 1);
    assert(m <= l);
    let p = (m * o) / l;
    assert(m * o >= 0) by (nonlinear_arith)
        requires
            m >= 0,
            o > 0,
    ;
    vstd::arithmetic::div_mod::lemma_fundamental_div_mod(m * o, l);
    vstd::arithmetic::div_mod::lemma_mod_bound(m * o, l);
    vstd::arithmetic::div_mod::lemma_div_pos_is_pos(m * o, l);
    assert(p * l <= m * o < (p + 1) * l) by (nonlinear_arith)
        requires
            m * o == l * p + (m * o) % l,
            0 <= (m * o) % l < l,
    ;
    assert(p <= o) by (nonlinear_arith)
        requires
            p * l <= m * o,
            m <= l,
            l > 0,
            o > 0,
            m >= 0,
    ;
    if a >= 0 {
        assert(a * o >= 0);
        assert(tdiv(a * o, l) == p);
    } else {
        assert(a * o < 0) by (nonlinear_arith)
            requires
                a < 0,
                o > 0,
        ;
        assert(-(a * o) == m * o) by (nonlinear_arith)
            requires
                m == -a,
        ;
        assert(tdiv(a * o, l) == -p);
    }
    let q = tdiv(a * o, l);
    assert(q * q == p * p) by (nonlinear_arith)
        requires
            q == p || q == -p,
    ;
    assert(abs_int(q) == p);
    assert(p * p * (l * l) <= m * m * (o * o)) by (nonlinear_arith)
        requires
            0 <= p * l <= m * o,
    ;
    assert((p + 1) * (p + 1) * (l * l) > m * m * (o * o)) by (nonlinear_arith)
        requires
            0 <= m * o < (p + 1) * l,
    ;
}

/// A normalized non-zero vector has unit length up to rounding: it is no
/// longer than `ONE * |v| / length(v)`, and one unit more in each component's
/// magnitude takes it past `ONE`.
pub proof fn lemma_normalize_near_unit(v: Vec3)
    requires
        v.wf(),
        !(v.x == 0 && v.y == 0 && v.z == 0),
    ensures
        vnormalize(v) != (Vec3 { x: 0, y: 0, z: 0 }),
        dot_raw(vnormalize(v), vnormalize(v)) * (length(v) * length(v)) <= ONE * ONE * dot_raw(v, v),
        padded_square(vnormalize(v)) > ONE * ONE,
{
    let n = dot_raw(v, v);
    let l = length(v);
    lemma_square_nonneg(v.x as int);
    lemma_square_nonneg(v.y as int);
    lemma_square_nonneg(v.z as int);
    assert(n >= 1) by (nonlinear_arith)
        requires
            n == v.x * v.x + v.y * v.y + v.z * v.z,
            !(v.x == 0 && v.y == 0 && v.z == 0),
    ;
    crate::fixed::lemma_isqrt_exists(n);
    assert(is_isqrt(n, l));
    assert(l > 0) by (nonlinear_arith)
        requires
            n >= 1,
            n < (l + 1) * (l + 1),
            l >= 0,
    ;
    assert(l * l <= n);
    lemma_component_quotient(v.x as int, l);
    lemma_component_quotient(v.y as int, l);
    lemma_component_quotient(v.z as int, l);
    let w = vnormalize(v);
    let o = ONE as int;
    assert(w.x == tdiv(v.x * o, l) && w.y == tdiv(v.y * o, l) && w.z == tdiv(v.z * o, l));
    assert(dot_raw(w, w) * (l * l) <= o * o * n) by (nonlinear_arith)
        requires
            w.x * w.x * (l * l) <= v.x * v.x * (o * o),
            w.y * w.y * (l * l) <= v.y * v.y * (o * o),
            w.z * w.z * (l * l) <= v.z * v.z * (o * o),
            n == v.x * v.x + v.y * v.y + v.z * v.z,
            dot_raw(w, w) == w.x * w.x + w.y * w.y + w.z * w.z,
    ;
    assert(padded_square(w) * (l * l) > n * (o * o)) by (nonlinear_arith)
        requires
            (abs_int(w.x as int) + 1) * (abs_int(w.x as int) + 1) * (l * l) > v.x * v.x * (o * o),
            (abs_int(w.y as int) + 1) * (abs_int(w.y as int) + 1) * (l * l) > v.y * v.y * (o * o),
            (abs_int(w.z as int) + 1) * (abs_int(w.z as int) + 1) * (l * l) > v.z * v.z * (o * o),
            n == v.x * v.x + v.y * v.y + v.z * v.z,
            padded_square(w) == (abs_int(w.x as int) + 1) * (abs_int(w.x as int) + 1) + (abs_int(
                w.y as int,
            ) + 1) * (abs_int(w.y as int) + 1) + (abs_int(w.z as int) + 1) * (abs_int(w.z as int)
                + 1),
    ;
    assert(padded_square(w) > o * o) by (nonlinear_arith)
        requires
            padded_square(w) * (l * l) > n * (o * o),
            l * l <= n,
            l > 0,
            o > 0,
    ;
    if w == (Vec3 { x: 0, y: 0, z: 0 }) {
        assert(abs_int(w.x as int) == 0 && abs_int(w.y as int) == 0 && abs_int(w.z as int) == 0);
        let ax = abs_int(w.x as int);
        let ay = abs_int(w.y as int);
        let az = abs_int(w.z as int);
        assert((ax + 1) * (ax + 1) + (ay + 1) * (ay + 1) + (az + 1) * (az + 1) == 3) by (nonlinear_arith)
            requires
                ax == 0,
                ay == 0,
                az == 0,
        ;
        assert(padded_square(w) == 3);
    }
}

impl Vec3 {
    /// All components lie in `[-LIMIT, LIMIT]`.
    pub open spec fn wf(self) -> bool {
        -LIMIT <= self.x <= LIMIT && -LIMIT <= self.y <= LIMIT && -LIMIT <= self.z <= LIMIT
    }

    /// Builds a vector, saturating each component into range.
    pub fn new(x: i64, y: i64, z: i64) -> (r: Vec3)
        ensures
            r == mk(x as int, y as int, z as int),
            r.wf(),
    {
        Vec3 { x: saturate(x as i128), y: saturate(y as i128), z: saturate(z as i128) }
    }

    /// The zero vector, also black.
    pub fn zero() -> (r: Vec3)
        ensures
            r == (Vec3 { x: 0, y: 0, z: 0 }),
            r.wf(),
    {
        Vec3 { x: 0, y: 0, z: 0 }
    }

    /// The vector with every component 1.0, also white.
    pub fn one() -> (r: Vec3)
        ensures
            r == (Vec3 { x: ONE, y: ONE, z: ONE }),
            r.wf(),
    {
        Vec3 { x: ONE, y: ONE, z: ONE }
    }

    pub fn add(self, o: Vec3) -> (r: Vec3)
        requires
            self.wf(),
            o.wf(),
        ensures
            r == vsum(self, o),
            r.wf(),
    {
        Vec3 {
            x: saturate(self.x as i128 + o.x as i128),
            y: saturate(self.y as i128 + o.y as i128),
            z: saturate(self.z as i128 + o.z as i128),
        }
    }

    pub fn sub(self, o: Vec3) -> (r: Vec3)
        requires
            self.wf(),
            o.wf(),
        ensures
            r == vdiff(self, o),
            r.wf(),
    {
        Vec3 {
            x: saturate(self.x as i128 - o.x as i128),
            y: saturate(self.y as i128 - o.y as i128),
            z: saturate(self.z as i128 - o.z as i128),
        }
    }

    pub fn neg(self) -> (r: Vec3)
        requires
            self.wf(),
        ensures
            r == vneg(self),
            r.wf(),
    {
        Vec3 { x: -self.x, y: -self.y, z: -self.z }
    }

    /// `t * self` for a fixed-point scalar `t`.
    pub fn scale(self, t: i64) -> (r: Vec3)
        requires
            self.wf(),
        ensures
            r == vscale(t as int, self),
            r.wf(),
    {
        proof {
            lemma_mul_bound(t as int, self.x as int, 0x8000_0000_0000_0000, LIMIT as int);
            lemma_mul_bound(t as int, self.y as int, 0x8000_0000_0000_0000, LIMIT as int);
            lemma_mul_bound(t as int, self.z as int, 0x8000_0000_0000_0000, LIMIT as int);
        }
        Vec3 {
            x: saturate(div_trunc(t as i128 * self.x as i128, ONE as i128)),
            y: saturate(div_trunc(t as i128 * self.y as i128, ONE as i128)),
            z: saturate(div_trunc(t as i128 * self.z as i128, ONE as i128)),
        }
    }

    /// Component-wise product.
    pub fn mul(self, o: Vec3) -> (r: Vec3)
        requires
            self.wf(),
            o.wf(),
        ensures
            r == vmul(self, o),
            r.wf(),
    {
        proof {
            lemma_mul_bound(self.x as int, o.x as int, LIMIT as int, LIMIT as int);
            lemma_mul_bound(self.y as int, o.y as int, LIMIT as int, LIMIT as int);
            lemma_mul_bound(self.z as int, o.z as int, LIMIT as int, LIMIT as int);
        }
        Vec3 {
            x: saturate(div_trunc(self.x as i128 * o.x as i128, ONE as i128)),
            y: saturate(div_trunc(self.y as i128 * o.y as i128, ONE as i128)),
            z: saturate(div_trunc(self.z as i128 * o.z as i128, ONE as i128)),
        }
    }

    /// The dot product of the raw components.
    pub fn dot_raw(self, o: Vec3) -> (r: i64)
        requires
            self.wf(),
            o.wf(),
        ensures
            r == dot_raw(self, o),
            -3 * LIMIT * LIMIT <= r <= 3 * LIMIT * LIMIT,
    {
        proof {
            lemma_mul_bound(self.x as int, o.x as int, LIMIT as int, LIMIT as int);
            lemma_mul_bound(self.y as int, o.y as int, LIMIT as int, LIMIT as int);
            lemma_mul_bound(self.z as int, o.z as int, LIMIT as int, LIMIT as int);
        }
        self.x * o.x + self.y * o.y + self.z * o.z
    }

    /// The dot product as a fixed-point value.
    pub fn dot(self, o: Vec3) -> (r: i64)
        requires
            self.wf(),
            o.wf(),
        ensures
            r == dot(self, o),
            -3 * LIMIT * LIMIT <= r <= 3 * LIMIT * LIMIT,
    {
        let d = self.dot_raw(o);
        proof {
            crate::fixed::lemma_tdiv_bound(d as int, ONE as int, 3 * LIMIT * LIMIT);
        }
        div_trunc(d as i128, ONE as i128) as i64
    }

    /// The squared length of the raw components, never negative.
    pub fn length_squared_raw(self) -> (r: i64)
        requires
            self.wf(),
        ensures
            r == dot_raw(self, self),
            0 <= r <= 3 * LIMIT * LIMIT,
    {
        proof {
            lemma_square_nonneg(self.x as int);
            lemma_square_nonneg(self.y as int);
            lemma_square_nonneg(self.z as int);
        }
        self.dot_raw(self)
    }

    /// The vector scaled to unit length, or zero for the zero vector.
    pub fn normalize_or_zero(self) -> (r: Vec3)
        requires
            self.wf(),
        ensures
            r == vnormalize(self),
            r.wf(),
    {
        let n = self.length_squared_raw();
        let l = isqrt_u128(n as u128);
        if l == 0 {
            Vec3::zero()
        } else {
            let li = l as i128;
            Vec3 {
                x: saturate(div_trunc(self.x as i128 * ONE as i128, li)),
                y: saturate(div_trunc(self.y as i128 * ONE as i128, li)),
                z: saturate(div_trunc(self.z as i128 * ONE as i128, li)),
            }
        }
    }

    /// Every component lies within `eps` of zero.
    pub fn near_zero(self, eps: i64) -> (r: bool)
        requires
            eps >= 0,
        ensures
            r == near_zero(self, eps as int),
    {
        -eps <= self.x && self.x <= eps && -eps <= self.y && self.y <= eps && -eps <= self.z
            && self.z <= eps
    }
}

} // verus!
