//! Fixed-point scalars and three-component vectors.
use vstd::prelude::*;

verus! {

/// The fixed-point value of 1.0: every scalar is a multiple of 1/65536.
pub const ONE: i64 = 65536;

/// Largest magnitude of a vector component (1024.0); results saturate here.
pub const LIMIT: i64 = 67108864;

/// Division of integers that rounds toward zero, as Rust's `/` does.
pub open spec fn tdiv(a: int, b: int) -> int {
    if a >= 0 {
        a / b
    } else {
        -((-a) / b)
    }
}

/// The magnitude of `a`.
pub open spec fn abs_int(a: int) -> int {
    if a < 0 {
        -a
    } else {
        a
    }
}

/// Clamps a value into `[-LIMIT, LIMIT]`.
pub open spec fn sat(v: int) -> int {
    if v > LIMIT {
        LIMIT as int
    } else if v < -LIMIT {
        -LIMIT as int
    } else {
        v
    }
}

/// Fixed-point product of two scalars.
pub open spec fn fx_mul(a: int, b: int) -> int {
    tdiv(a * b, ONE as int)
}

/// `r` is the integer square root of `n`.
pub open spec fn is_isqrt(n: int, r: int) -> bool {
    0 <= r && r * r <= n && n < (r + 1) * (r + 1)
}

/// The integer square root of a non-negative `n` (zero for negative `n`).
pub open spec fn isqrt(n: int) -> int {
    if n <= 0 {
        0
    } else {
        choose|r: int| is_isqrt(n, r)
    }
}

pub proof fn lemma_square_monotone(a: int, b: int)
    requires
        0 <= a,
        0 <= b,
        a * a < b * b,
    ensures
        a < b,
{
    if a >= b {
        assert(a * a >= b * b) by (nonlinear_arith)
            requires
                a >= b,
                b >= 0,
        ;
    }
}

/// The integer square root is unique.
pub proof fn lemma_isqrt_unique(n: int, r: int)
    requires
        is_isqrt(n, r),
    ensures
        isqrt(n) == r,
{
    if n <= 0 {
        assert(r * r <= 0);
        if r > 0 {
            assert(r * r > 0) by (nonlinear_arith)
                requires
                    r > 0,
            ;
        }
    } else {
        let s = choose|s: int| is_isqrt(n, s);
        assert(is_isqrt(n, s));
        lemma_square_monotone(r, s + 1);
        lemma_square_monotone(s, r + 1);
    }
}

/// Every non-negative integer has an integer square root.
pub proof fn lemma_isqrt_exists(n: int)
    requires
        n >= 0,
    ensures
        is_isqrt(n, isqrt(n)),
    decreases n,
{
    if n > 0 {
        lemma_isqrt_exists(n - 1);
        let r = isqrt(n - 1);
        if (r + 1) * (r + 1) <= n {
            assert(n < (r + 2) * (r + 2)) by (nonlinear_arith)
                requires
                    n - 1 < (r + 1) * (r + 1),
                    r >= 0,
            ;
            lemma_isqrt_unique(n, r + 1);
        } else {
            lemma_isqrt_unique(n, r);
        }
    }
}

/// Dividing by at least one never grows a value's magnitude.
pub proof fn lemma_tdiv_bound(a: int, b: int, m: int)
    requires
        b >= 1,
        -m <= a <= m,
    ensures
        -m <= tdiv(a, b) <= m,
{
    if a >= 0 {
        vstd::arithmetic::div_mod::lemma_div_nonincreasing(a, b);
        vstd::arithmetic::div_mod::lemma_div_pos_is_pos(a, b);
    } else {
        vstd::arithmetic::div_mod::lemma_div_nonincreasing(-a, b);
        vstd::arithmetic::div_mod::lemma_div_pos_is_pos(-a, b);
    }
}

/// A quotient by `b` of a value at most `m * b` in magnitude is at most `m`.
pub proof fn lemma_tdiv_le(a: int, b: int, m: int)
    requires
        b >= 1,
        m >= 0,
        -(m * b) <= a <= m * b,
    ensures
        -m <= tdiv(a, b) <= m,
{
    vstd::arithmetic::div_mod::lemma_div_by_multiple(m, b);
    if a >= 0 {
        vstd::arithmetic::div_mod::lemma_div_is_ordered(a, m * b, b);
        vstd::arithmetic::div_mod::lemma_div_pos_is_pos(a, b);
    } else {
        vstd::arithmetic::div_mod::lemma_div_is_ordered(-a, m * b, b);
        vstd::arithmetic::div_mod::lemma_div_pos_is_pos(-a, b);
    }
}

/// Rounds toward zero: `a / b` for `b > 0`.
pub fn div_trunc(a: i128, b: i128) -> (r: i128)
    requires
        b > 0,
        a > i128::MIN,
    ensures
        r == tdiv(a as int, b as int),
{
    if a >= 0 {
        a / b
    } else {
        let m: i128 = -a;
        -(m / b)
    }
}

/// Saturates a wide value into the component range.
pub fn saturate(v: i128) -> (r: i64)
    ensures
        r == sat(v as int),
{
    if v > LIMIT as i128 {
        LIMIT
    } else if v < -(LIMIT as i128) {
        -LIMIT
    } else {
        v as i64
    }
}

/// Integer square root by bisection.
pub fn isqrt_u128(n: u128) -> (r: u128)
    requires
        n < 0x1_0000_0000_0000_0000_0000_0000_0000,
    ensures
        is_isqrt(n as int, r as int),
        r as int == isqrt(n as int),
        r < 0x100_0000_0000_0000,
{
    let mut lo: u128 = 0;
    let mut hi: u128 = 0x100_0000_0000_0000;
    assert(hi * hi > n) by (nonlinear_arith)
        requires
            hi == 0x100_0000_0000_0000u128,
            n < 0x1_0000_0000_0000_0000_0000_0000_0000,
    ;
    while hi - lo > 1
        invariant
            lo < hi <= 0x100_0000_0000_0000,
            lo * lo <= n,
            n < hi * hi,
        decreases hi - lo,
    {
        let mid: u128 = lo + (hi - lo) / 2;
        assert(mid * mid <= 0x1_0000_0000_0000_0000_0000_0000_0000) by (nonlinear_arith)
            requires
                mid <= 0x100_0000_0000_0000u128,
        ;
        if mid * mid <= n {
            lo = mid;
        } else {
            hi = mid;
        }
    }
    assert(hi == lo + 1);
    assert(is_isqrt(n as int, lo as int));
    proof {
        lemma_isqrt_unique(n as int, lo as int);
    }
    lo
}

} // verus!
