//! Angles and trigonometric primitives.
//!
//! Angles are Q32.32 radians. The three primitives sine, cosine and
//! arctangent are computed by the `cordic` crate on `fixed::types::I32F32`
//! (the same bit layout as the crate's own scalars); their results enter the
//! contracts as named, uninterpreted functions of the argument bits. The
//! arcsine and arccosine are derived from the arctangent and the crate's
//! own integer square root, which keeps them sharp at the domain edges.
//! Every verified caller goes through the helpers below, which reduce the
//! angle into `[-pi, pi)` first and clamp the result into its mathematical
//! range, so that all later arithmetic has proved bounds.

use vstd::prelude::*;
use vstd::arithmetic::div_mod::{lemma_fundamental_div_mod, lemma_fundamental_div_mod_converse};
use crate::fx::{
    abs_i, clamp_spec, fx_clamp, fx_div, fx_div_spec, is_isqrt, isqrt, isqrt_spec, FX_ONE,
};

verus! {

/// Q32.32 representation of pi / 2.
pub const FX_HALF_PI: i64 = 6746518852;

/// Q32.32 representation of pi.
pub const FX_PI: i64 = 2 * FX_HALF_PI;

/// Q32.32 representation of 2 * pi.
pub const FX_TWO_PI: i64 = 4 * FX_HALF_PI;

/// Q32.32 representation of pi / 180, the degree-to-radian factor.
pub const FX_DEG2RAD: i64 = 74961321;

/// Q32.32 representation of 180 / pi, the radian-to-degree factor.
pub const FX_RAD2DEG: i64 = 246083499208;

/// Q32.32 representation of 90 degrees.
pub const FX_DEG_90: i64 = 90 * FX_ONE;

/// Tolerance mirroring `f32::EPSILON` (2^-23) in Q32.32.
pub const FX_EPS: i64 = 512;

/// Largest magnitude handed to the arctangent; beyond it the input is
/// clamped (the angle differs from a right angle by under a microradian).
pub const FX_ATAN_IN_MAX: i64 = 0x10000000000000;

/// Largest angle magnitude the reduction helpers accept.
pub const FX_ANGLE_MAX: i64 = 0x4000000000000000;

/// What `cordic::sin` returns on the Q32.32 bits `x`.
pub uninterp spec fn sin_q32(x: int) -> int;

/// What `cordic::cos` returns on the Q32.32 bits `x`.
pub uninterp spec fn cos_q32(x: int) -> int;

/// What `cordic::atan` returns on the Q32.32 bits `x`.
pub uninterp spec fn atan_q32(x: int) -> int;

/// Relies on cordic::sin over fixed's I32F32: a pure function of the angle
/// bits, defined for any angle (reduced internally by whole turns).
#[verifier::external_body]
fn sin_raw(x: i64) -> (r: i64)
    requires
        -FX_TWO_PI <= x <= FX_TWO_PI,
    ensures
        r == sin_q32(x as int),
{
    cordic::sin(fixed::types::I32F32::from_bits(x)).to_bits()
}

/// Relies on cordic::cos over fixed's I32F32: a pure function of the angle
/// bits, defined for any angle (reduced internally by whole turns).
#[verifier::external_body]
fn cos_raw(x: i64) -> (r: i64)
    requires
        -FX_TWO_PI <= x <= FX_TWO_PI,
    ensures
        r == cos_q32(x as int),
{
    cordic::cos(fixed::types::I32F32::from_bits(x)).to_bits()
}

/// Relies on cordic::atan over fixed's I32F32: a pure function of the bits of
/// a bounded tangent value.
#[verifier::external_body]
fn atan_raw(x: i64) -> (r: i64)
    requires
        -FX_ATAN_IN_MAX <= x <= FX_ATAN_IN_MAX,
    ensures
        r == atan_q32(x as int),
{
    cordic::atan(fixed::types::I32F32::from_bits(x)).to_bits()
}

/// Euclidean remainder of `a` by the positive modulus `m`.
pub fn imod(a: i64, m: i64) -> (r: i64)
    requires
        m > 0,
        a != i64::MIN,
    ensures
        r == (a as int) % (m as int),
        0 <= r < m,
{
    if a >= 0 {
        let r: i64 = ((a as u64) % (m as u64)) as i64;
        r
    } else {
        let m0: u64 = ((-a) as u64) % (m as u64);
        proof {
            lemma_fundamental_div_mod(-(a as int), m as int);
            let q = (-(a as int)) / (m as int);
            if m0 == 0 {
                assert(a as int == (-q) * (m as int) + 0) by (nonlinear_arith)
                    requires
                        -(a as int) == (m as int) * q + m0,
                        m0 == 0,
                ;
                lemma_fundamental_div_mod_converse(a as int, m as int, -q, 0);
            } else {
                assert(a as int == (-q - 1) * (m as int) + ((m as int) - m0))
                    by (nonlinear_arith)
                    requires
                        -(a as int) == (m as int) * q + m0,
                ;
                lemma_fundamental_div_mod_converse(
                    a as int,
                    m as int,
                    -q - 1,
                    (m as int) - m0,
                );
            }
        }
        if m0 == 0 {
            0
        } else {
            (((m as u64) - m0)) as i64
        }
    }
}

/// The angle congruent to `a` modulo one turn that lies in `[-pi, pi)`.
pub open spec fn wrap_spec(a: int) -> int {
    (a + FX_PI) % (FX_TWO_PI as int) - FX_PI
}

/// Reduce an angle into `[-pi, pi)` by whole turns.
pub fn wrap_angle(a: i64) -> (r: i64)
    requires
        -FX_ANGLE_MAX <= a <= FX_ANGLE_MAX,
    ensures
        r == wrap_spec(a as int),
        -FX_PI <= r < FX_PI,
{
    let shifted: i64 = a + FX_PI;
    let m: i64 = imod(shifted, FX_TWO_PI);
    m - FX_PI
}

/// The sine of an arbitrary angle: reduced, evaluated, clamped into `[-1, 1]`.
pub open spec fn sin_val(a: int) -> int {
    clamp_spec(sin_q32(wrap_spec(a)), -FX_ONE as int, FX_ONE as int)
}

/// The cosine of an arbitrary angle: reduced, evaluated, clamped into `[-1, 1]`.
pub open spec fn cos_val(a: int) -> int {
    clamp_spec(cos_q32(wrap_spec(a)), -FX_ONE as int, FX_ONE as int)
}

/// The arcsine of a value in `[-1, 1]`, taken as the arctangent of
/// `x / sqrt(1 - x^2)` (exact at the domain edges); lies in
/// `[-pi/2, pi/2]`.
pub open spec fn asin_val(x: int) -> int {
    let s = isqrt_spec(((FX_ONE as int) - x) * ((FX_ONE as int) + x));
    if s <= 1 {
        if x >= 0 {
            FX_HALF_PI as int
        } else {
            -FX_HALF_PI as int
        }
    } else {
        atan_val(fx_div_spec(x, s))
    }
}

/// The arccosine, taken as `pi/2 - asin`; lies in `[0, pi]`.
pub open spec fn acos_val(x: int) -> int {
    FX_HALF_PI - asin_val(x)
}

/// The arctangent of a clamped input, clamped into `[-pi/2, pi/2]`.
pub open spec fn atan_val(x: int) -> int {
    clamp_spec(
        atan_q32(clamp_spec(x, -FX_ATAN_IN_MAX as int, FX_ATAN_IN_MAX as int)),
        -FX_HALF_PI as int,
        FX_HALF_PI as int,
    )
}

/// Sine of an arbitrary angle.
pub fn sin_of(a: i64) -> (r: i64)
    requires
        -FX_ANGLE_MAX <= a <= FX_ANGLE_MAX,
    ensures
        r == sin_val(a as int),
        -FX_ONE <= r <= FX_ONE,
{
    let w: i64 = wrap_angle(a);
    fx_clamp(sin_raw(w), -FX_ONE, FX_ONE)
}

/// Cosine of an arbitrary angle.
pub fn cos_of(a: i64) -> (r: i64)
    requires
        -FX_ANGLE_MAX <= a <= FX_ANGLE_MAX,
    ensures
        r == cos_val(a as int),
        -FX_ONE <= r <= FX_ONE,
{
    let w: i64 = wrap_angle(a);
    fx_clamp(cos_raw(w), -FX_ONE, FX_ONE)
}

/// Arcsine of a value in `[-1, 1]`.
pub fn asin_of(x: i64) -> (r: i64)
    requires
        -FX_ONE <= x <= FX_ONE,
    ensures
        r == asin_val(x as int),
        -FX_HALF_PI <= r <= FX_HALF_PI,
{
    let a: i64 = FX_ONE - x;
    let b: i64 = FX_ONE + x;
    proof {
        assert(0 <= (a as int) * (b as int) <= 0x10000000000000000) by (nonlinear_arith)
            requires
                a as int == (FX_ONE as int) - (x as int),
                b as int == (FX_ONE as int) + (x as int),
                -FX_ONE <= (x as int) <= FX_ONE,
        ;
    }
    let s: u64 = isqrt((a as u128) * (b as u128));
    proof {
        assert(s as int <= 0x100000001) by (nonlinear_arith)
            requires
                is_isqrt(s as int, (a as int) * (b as int)),
                0 <= (a as int) * (b as int) <= 0x10000000000000000,
        ;
    }
    if s <= 1 {
        if x >= 0 {
            FX_HALF_PI
        } else {
            -FX_HALF_PI
        }
    } else {
        proof {
            assert(abs_i(x as int) * (FX_ONE as int) / abs_i(s as int) <= i64::MAX as int)
                by (nonlinear_arith)
                requires
                    is_isqrt(s as int, (a as int) * (b as int)),
                    (a as int) * (b as int) == ((FX_ONE as int) - x) * ((FX_ONE as int) + x),
                    -FX_ONE <= (x as int) <= FX_ONE,
                    2 <= s as int <= 0x100000001,
            ;
        }
        let ratio: i64 = fx_div(x, s as i64);
        atan_of(ratio)
    }
}

/// Arccosine of a value in `[-1, 1]`.
pub fn acos_of(x: i64) -> (r: i64)
    requires
        -FX_ONE <= x <= FX_ONE,
    ensures
        r == acos_val(x as int),
        0 <= r <= FX_PI,
{
    let s: i64 = asin_of(x);
    FX_HALF_PI - s
}

/// Arctangent; inputs beyond the supported magnitude are clamped first.
pub fn atan_of(x: i64) -> (r: i64)
    ensures
        r == atan_val(x as int),
        -FX_HALF_PI <= r <= FX_HALF_PI,
{
    let c: i64 = fx_clamp(x, -FX_ATAN_IN_MAX, FX_ATAN_IN_MAX);
    fx_clamp(atan_raw(c), -FX_HALF_PI, FX_HALF_PI)
}

} // verus!
