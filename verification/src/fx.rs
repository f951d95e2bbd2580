//! Q32.32 fixed-point scalars.
//!
//! A value is an `i64` holding the real number scaled by 2^32. Multiplication
//! and division truncate toward zero, as the corresponding operations on
//! binary fixed-point numbers do; the spec functions below state that
//! truncation exactly.

use vstd::prelude::*;

verus! {

/// The fixed-point representation of 1.
pub const FX_ONE: i64 = 4294967296;

/// Magnitude of a mathematical integer.
pub open spec fn abs_i(a: int) -> int {
    if a >= 0 {
        a
    } else {
        -a
    }
}

/// Sign of a value, with 0 counted as positive (as `f32::signum` counts +0).
pub open spec fn sgn1(a: int) -> int {
    if a >= 0 {
        1
    } else {
        -1
    }
}

/// `x` with the sign of `s`.
pub open spec fn copysign_spec(x: int, s: int) -> int {
    abs_i(x) * sgn1(s)
}

/// Division truncating toward zero (the behaviour of `/` on machine integers).
pub open spec fn tdiv(a: int, b: int) -> int {
    if (a >= 0) == (b >= 0) {
        abs_i(a) / abs_i(b)
    } else {
        -(abs_i(a) / abs_i(b))
    }
}

/// The Q32.32 product of `a` and `b`.
pub open spec fn fx_mul_spec(a: int, b: int) -> int {
    tdiv(a * b, FX_ONE as int)
}

/// The Q32.32 quotient of `a` by `b`.
pub open spec fn fx_div_spec(a: int, b: int) -> int {
    tdiv(a * (FX_ONE as int), b)
}

/// `x` clamped into `[lo, hi]`.
pub open spec fn clamp_spec(x: int, lo: int, hi: int) -> int {
    if x < lo {
        lo
    } else if x > hi {
        hi
    } else {
        x
    }
}

/// The product of the magnitudes is the magnitude of the product.
pub proof fn lemma_abs_mul(a: int, b: int)
    by (nonlinear_arith)
    ensures
        abs_i(a) * abs_i(b) == abs_i(a * b),
{
}

/// The sign of a product follows the signs of its factors.
proof fn lemma_sign_product(a: int, b: int)
    by (nonlinear_arith)
    ensures
        ((a >= 0) == (b >= 0)) ==> a * b >= 0,
        ((a >= 0) != (b >= 0)) ==> a * b <= 0,
{
}

/// Euclidean division of a smaller non-negative dividend gives a smaller quotient.
proof fn lemma_div_ordered(a: int, b: int, d: int)
    by (nonlinear_arith)
    requires
        0 <= a <= b,
        0 < d,
    ensures
        0 <= a / d <= b / d,
{
}

/// Truncating division never grows the magnitude beyond `abs_i(a) / abs_i(b)`.
pub proof fn lemma_tdiv_abs(a: int, b: int)
    requires
        b != 0,
    ensures
        abs_i(tdiv(a, b)) == abs_i(a) / abs_i(b),
        0 <= abs_i(a) / abs_i(b),
{
    lemma_div_ordered(0, abs_i(a), abs_i(b));
}

/// A bound on both factors bounds the fixed-point product.
pub proof fn lemma_fx_mul_bound(a: int, b: int, ca: int, cb: int)
    requires
        abs_i(a) <= ca,
        abs_i(b) <= cb,
    ensures
        abs_i(fx_mul_spec(a, b)) <= ca * cb / (FX_ONE as int),
{
    lemma_abs_mul(a, b);
    assert(abs_i(a) * abs_i(b) <= ca * cb) by (nonlinear_arith)
        requires
            0 <= abs_i(a) <= ca,
            0 <= abs_i(b) <= cb,
    ;
    lemma_tdiv_abs(a * b, FX_ONE as int);
    lemma_div_ordered(abs_i(a * b), ca * cb, FX_ONE as int);
}

/// A bound on the numerator and a floor under the denominator bound the
/// fixed-point quotient.
pub proof fn lemma_fx_div_bound(a: int, b: int, ca: int, cb: int)
    requires
        abs_i(a) <= ca,
        0 < cb <= abs_i(b),
    ensures
        abs_i(fx_div_spec(a, b)) <= ca * (FX_ONE as int) / cb,
{
    lemma_tdiv_abs(a * (FX_ONE as int), b);
    assert(abs_i(a * (FX_ONE as int)) == abs_i(a) * (FX_ONE as int)) by {
        lemma_abs_mul(a, FX_ONE as int);
    }
    assert(abs_i(a) * (FX_ONE as int) / abs_i(b) <= ca * (FX_ONE as int) / cb)
        by (nonlinear_arith)
        requires
            0 <= abs_i(a) <= ca,
            0 < cb <= abs_i(b),
    ;
}

/// Bounds on the factors discharge the overflow obligation of `fx_mul`.
pub proof fn lemma_fx_mul_fits(a: int, b: int, ca: int, cb: int)
    requires
        abs_i(a) <= ca,
        abs_i(b) <= cb,
        ca * cb / (FX_ONE as int) <= i64::MAX as int,
    ensures
        abs_i(a * b) / (FX_ONE as int) <= i64::MAX as int,
        abs_i(fx_mul_spec(a, b)) <= ca * cb / (FX_ONE as int),
{
    lemma_fx_mul_bound(a, b, ca, cb);
    lemma_tdiv_abs(a * b, FX_ONE as int);
    lemma_abs_mul(a, b);
    assert(abs_i(a) * abs_i(b) <= ca * cb) by (nonlinear_arith)
        requires
            0 <= abs_i(a) <= ca,
            0 <= abs_i(b) <= cb,
    ;
    lemma_div_ordered(abs_i(a * b), ca * cb, FX_ONE as int);
}

/// A factor of magnitude at most one never grows the other factor.
pub proof fn lemma_fx_mul_unit(a: int, b: int)
    requires
        abs_i(a) <= i64::MAX as int,
        abs_i(b) <= FX_ONE as int,
    ensures
        abs_i(a * b) / (FX_ONE as int) <= abs_i(a),
        abs_i(fx_mul_spec(a, b)) <= abs_i(a),
{
    lemma_abs_mul(a, b);
    assert(abs_i(a) * abs_i(b) <= abs_i(a) * (FX_ONE as int)) by (nonlinear_arith)
        requires
            0 <= abs_i(a),
            0 <= abs_i(b) <= FX_ONE as int,
    ;
    lemma_div_ordered(abs_i(a * b), abs_i(a) * (FX_ONE as int), FX_ONE as int);
    assert(abs_i(a) * (FX_ONE as int) / (FX_ONE as int) == abs_i(a)) by (nonlinear_arith)
        requires
            0 <= abs_i(a),
    ;
    lemma_tdiv_abs(a * b, FX_ONE as int);
}

/// Bounds on numerator and denominator discharge the overflow obligation of
/// `fx_div`.
pub proof fn lemma_fx_div_fits(a: int, b: int, ca: int, cb: int)
    requires
        abs_i(a) <= ca,
        0 < cb <= abs_i(b),
        ca * (FX_ONE as int) / cb <= i64::MAX as int,
    ensures
        abs_i(a) * (FX_ONE as int) / abs_i(b) <= i64::MAX as int,
        abs_i(fx_div_spec(a, b)) <= ca * (FX_ONE as int) / cb,
{
    lemma_fx_div_bound(a, b, ca, cb);
    lemma_tdiv_abs(a * (FX_ONE as int), b);
    lemma_abs_mul(a, FX_ONE as int);
}

/// Truncating division is odd in its dividend.
pub proof fn lemma_tdiv_neg(a: int, b: int)
    requires
        b != 0,
    ensures
        tdiv(-a, b) == -tdiv(a, b),
{
    assert(abs_i(-a) == abs_i(a));
    if a == 0 {
        assert(abs_i(a) / abs_i(b) == 0) by (nonlinear_arith)
            requires
                abs_i(a) == 0,
                abs_i(b) >= 1,
        ;
    }
}

/// Negating one factor negates the truncated fixed-point product.
pub proof fn lemma_fx_mul_neg(a: int, b: int)
    ensures
        fx_mul_spec(-a, b) == -fx_mul_spec(a, b),
{
    assert((-a) * b == -(a * b)) by (nonlinear_arith);
    lemma_tdiv_neg(a * b, FX_ONE as int);
}

/// Truncating division leaves a remainder smaller than the divisor.
pub proof fn lemma_tdiv_rem(a: int, b: int)
    requires
        b > 0,
    ensures
        abs_i(a - tdiv(a, b) * b) < b,
{
    vstd::arithmetic::div_mod::lemma_fundamental_div_mod(abs_i(a), b);
    vstd::arithmetic::div_mod::lemma_mod_bound(abs_i(a), b);
    if a >= 0 {
        assert(tdiv(a, b) == a / b);
        assert(a - (a / b) * b == a % b) by (nonlinear_arith)
            requires
                a == b * (a / b) + a % b,
        ;
    } else {
        let m = -a;
        assert(tdiv(a, b) == -(m / b));
        assert(a - (-(m / b)) * b == -(m % b)) by (nonlinear_arith)
            requires
                m == b * (m / b) + m % b,
                a == -m,
        ;
    }
}

/// Every non-negative integer has an integer square root.
pub proof fn lemma_isqrt_exists(n: int)
    requires
        n >= 0,
    ensures
        exists|r: int| is_isqrt(r, n),
    decreases n,
{
    if n == 0 {
        assert(is_isqrt(0, 0));
    } else {
        lemma_isqrt_exists(n - 1);
        let r = choose|r: int| #[trigger] is_isqrt(r, n - 1);
        if (r + 1) * (r + 1) <= n {
            assert(is_isqrt(r + 1, n)) by (nonlinear_arith)
                requires
                    is_isqrt(r, n - 1),
                    (r + 1) * (r + 1) <= n,
            ;
        } else {
            assert(is_isqrt(r, n));
        }
    }
}

/// The product of two signs is determined by whether they agree.
pub proof fn lemma_sgn1_product(a: int, b: int)
    ensures
        ((a >= 0) == (b >= 0)) ==> sgn1(a) * sgn1(b) == 1,
        ((a >= 0) != (b >= 0)) ==> sgn1(a) * sgn1(b) == -1,
{
    assert(sgn1(a) * sgn1(b) == (if (a >= 0) == (b >= 0) {
        1int
    } else {
        -1int
    })) by (nonlinear_arith);
}

/// Attaching a sign leaves the magnitude unchanged.
pub proof fn lemma_abs_copysign(x: int, s: int)
    ensures
        abs_i(copysign_spec(x, s)) == abs_i(x),
{
    if s >= 0 {
        assert(copysign_spec(x, s) == abs_i(x));
    } else {
        assert(copysign_spec(x, s) == -abs_i(x));
    }
}

/// Magnitude of a fixed-point scalar.
pub fn fx_abs(a: i64) -> (r: i64)
    requires
        a != i64::MIN,
    ensures
        r == abs_i(a as int),
{
    if a < 0 {
        -a
    } else {
        a
    }
}

/// Fixed-point multiplication, truncating toward zero.
pub fn fx_mul(a: i64, b: i64) -> (r: i64)
    requires
        abs_i((a as int) * (b as int)) / (FX_ONE as int) <= i64::MAX as int,
    ensures
        r == fx_mul_spec(a as int, b as int),
{
    let neg: bool = (a < 0) != (b < 0);
    let ma: u128 = if a >= 0 {
        a as u128
    } else {
        (-(a as i128)) as u128
    };
    let mb: u128 = if b >= 0 {
        b as u128
    } else {
        (-(b as i128)) as u128
    };
    proof {
        lemma_abs_mul(a as int, b as int);
        assert(ma * mb == abs_i((a as int) * (b as int))) by (nonlinear_arith)
            requires
                ma == abs_i(a as int),
                mb == abs_i(b as int),
                abs_i(a as int) * abs_i(b as int) == abs_i((a as int) * (b as int)),
        ;
    }
    let q: u128 = (ma * mb) / 4294967296u128;
    proof {
        lemma_tdiv_abs((a as int) * (b as int), FX_ONE as int);
        lemma_sign_product(a as int, b as int);
        assert(q == abs_i((a as int) * (b as int)) / (FX_ONE as int));
        if (a as int) * (b as int) >= 0 {
            assert(fx_mul_spec(a as int, b as int) == q);
        } else {
            assert(fx_mul_spec(a as int, b as int) == -(q as int));
        }
    }
    if neg {
        -(q as i64)
    } else {
        q as i64
    }
}

/// Fixed-point division, truncating toward zero.
pub fn fx_div(a: i64, b: i64) -> (r: i64)
    requires
        b != 0,
        abs_i(a as int) * (FX_ONE as int) / abs_i(b as int) <= i64::MAX as int,
    ensures
        r == fx_div_spec(a as int, b as int),
{
    let neg: bool = (a < 0) != (b < 0);
    let ma: u128 = if a >= 0 {
        a as u128
    } else {
        (-(a as i128)) as u128
    };
    let mb: u128 = if b >= 0 {
        b as u128
    } else {
        (-(b as i128)) as u128
    };
    proof {
        lemma_abs_mul(a as int, FX_ONE as int);
        assert(ma * (FX_ONE as u128) == abs_i((a as int) * (FX_ONE as int)))
            by (nonlinear_arith)
            requires
                ma == abs_i(a as int),
                abs_i(a as int) * (FX_ONE as int) == abs_i((a as int) * (FX_ONE as int)),
        ;
    }
    let q: u128 = (ma * 4294967296u128) / mb;
    proof {
        lemma_tdiv_abs((a as int) * (FX_ONE as int), b as int);
    }
    if neg {
        -(q as i64)
    } else {
        q as i64
    }
}

/// Half of a fixed-point scalar, truncating toward zero.
pub fn fx_half(a: i64) -> (r: i64)
    requires
        a != i64::MIN,
    ensures
        r == tdiv(a as int, 2),
{
    let neg: bool = a < 0;
    let ma: u64 = if a >= 0 {
        a as u64
    } else {
        (-a) as u64
    };
    let q: u64 = ma / 2;
    if neg {
        -(q as i64)
    } else {
        q as i64
    }
}

/// `x` clamped into `[lo, hi]`.
pub fn fx_clamp(x: i64, lo: i64, hi: i64) -> (r: i64)
    requires
        lo <= hi,
    ensures
        r == clamp_spec(x as int, lo as int, hi as int),
        lo <= r <= hi,
{
    if x < lo {
        lo
    } else if x > hi {
        hi
    } else {
        x
    }
}

/// `x` with the sign of `s` (zero counted as positive, as `f32::signum` does).
pub fn fx_copysign(x: i64, s: i64) -> (r: i64)
    requires
        x != i64::MIN,
    ensures
        r == copysign_spec(x as int, s as int),
{
    let m: i64 = fx_abs(x);
    if s >= 0 {
        m
    } else {
        -m
    }
}

/// `r` is the integer square root of `n`.
pub open spec fn is_isqrt(r: int, n: int) -> bool {
    0 <= r && r * r <= n && n < (r + 1) * (r + 1)
}

/// The integer square root of a non-negative value.
pub open spec fn isqrt_spec(n: int) -> int {
    choose|r: int| is_isqrt(r, n)
}

/// The integer square root is unique, so any witness equals `isqrt_spec`.
pub proof fn lemma_isqrt_unique(r: int, n: int)
    requires
        is_isqrt(r, n),
    ensures
        isqrt_spec(n) == r,
{
    assert(exists|q: int| is_isqrt(q, n)) by {
        assert(is_isqrt(r, n));
    }
    assert(is_isqrt(isqrt_spec(n), n));
    let s = isqrt_spec(n);
    assert(s == r) by (nonlinear_arith)
        requires
            is_isqrt(s, n),
            is_isqrt(r, n),
    ;
}

/// Integer square root by binary search.
pub fn isqrt(n: u128) -> (r: u64)
    requires
        n < 0x40000000000000000000000000000000u128,
    ensures
        is_isqrt(r as int, n as int),
        r == isqrt_spec(n as int),
{
    let mut lo: u64 = 0;
    let mut hi: u64 = 0x8000000000000000;
    proof {
        assert((hi as int) * (hi as int) > n);
    }
    while lo + 1 < hi
        invariant
            lo < hi <= 0x8000000000000000,
            (lo as int) * (lo as int) <= n as int,
            (hi as int) * (hi as int) > n as int,
        decreases hi - lo,
    {
        let mid: u64 = lo + (hi - lo) / 2;
        proof {
            assert((mid as u128) * (mid as u128) <= 0x40000000000000000000000000000000u128)
                by (nonlinear_arith)
                requires
                    mid <= 0x8000000000000000u64,
            ;
        }
        if (mid as u128) * (mid as u128) <= n {
            lo = mid;
        } else {
            hi = mid;
        }
    }
    proof {
        lemma_isqrt_unique(lo as int, n as int);
    }
    lo
}

} // verus!
