//! Forward solver: the sun's direction in the observer's horizon frame.
//!
//! The frame is X = East, Y = Up, Z = North, and the returned vector points
//! from the observer toward the sun. The components come straight from the
//! standard equatorial-to-horizontal transform and are then normalized with
//! an exact integer square root.

use vstd::prelude::*;
use crate::fx::{
    abs_i, fx_div, fx_div_spec, fx_mul, fx_mul_spec, is_isqrt, isqrt, isqrt_spec,
    lemma_fx_mul_fits, lemma_fx_mul_unit, lemma_tdiv_abs, FX_ONE,
};
use crate::trig::{
    cos_of, cos_val, sin_of, sin_val, FX_ANGLE_MAX, FX_PI, FX_TWO_PI,
};

verus! {

/// Largest magnitude accepted for a day or year fraction; callers are
/// expected to pass values in `[0, 1)`, and anything up to this bound only
/// wraps around by whole cycles.
pub const FX_FRACTION_MAX: i64 = 0x10000000000;

/// Largest axial-tilt magnitude accepted, far beyond the quarter turn the
/// physical model uses.
pub const FX_TILT_MAX: i64 = 0x10000000000;

/// A direction in the local horizon frame, in Q32.32 components.
#[derive(Clone, Copy, Debug, PartialEq, Eq, Structural)]
pub struct SunDirection {
    pub x_east: i64,
    pub y_up: i64,
    pub z_north: i64,
}

/// The normalized image of a vector: each component divided by the integer
/// square root of the summed squares; the zero vector stays zero.
pub open spec fn normalize_spec(x: int, y: int, z: int) -> (int, int, int) {
    let s = x * x + y * y + z * z;
    if s == 0 {
        (0, 0, 0)
    } else {
        let n = isqrt_spec(s);
        (fx_div_spec(x, n), fx_div_spec(y, n), fx_div_spec(z, n))
    }
}

/// Scale a vector to unit length (within fixed-point truncation); a zero
/// vector is returned unchanged.
pub fn normalize(x: i64, y: i64, z: i64) -> (r: SunDirection)
    requires
        abs_i(x as int) <= 0x400000000,
        abs_i(y as int) <= 0x400000000,
        abs_i(z as int) <= 0x400000000,
    ensures
        (r.x_east as int, r.y_up as int, r.z_north as int)
            == normalize_spec(x as int, y as int, z as int),
        abs_i(r.x_east as int) <= FX_ONE,
        abs_i(r.y_up as int) <= FX_ONE,
        abs_i(r.z_north as int) <= FX_ONE,
{
    proof {
        lemma_sq_bound(x as int, 0x400000000);
        lemma_sq_bound(y as int, 0x400000000);
        lemma_sq_bound(z as int, 0x400000000);
    }
    let xs: i128 = (x as i128) * (x as i128);
    let ys: i128 = (y as i128) * (y as i128);
    let zs: i128 = (z as i128) * (z as i128);
    let s: u128 = (xs + ys + zs) as u128;
    if s == 0 {
        proof {
            lemma_zero_sq(x as int);
            lemma_zero_sq(y as int);
            lemma_zero_sq(z as int);
        }
        SunDirection { x_east: 0, y_up: 0, z_north: 0 }
    } else {
        let n: u64 = isqrt(s);
        proof {
            assert(n as int <= 0x1000000000) by (nonlinear_arith)
                requires
                    is_isqrt(n as int, s as int),
                    s as int <= 0x300000000000000000,
            ;
            assert(n as int >= 1) by (nonlinear_arith)
                requires
                    is_isqrt(n as int, s as int),
                    s as int >= 1,
            ;
            lemma_isqrt_dominates(n as int, x as int, s as int);
            lemma_isqrt_dominates(n as int, y as int, s as int);
            lemma_isqrt_dominates(n as int, z as int, s as int);
        }
        let nx: i64 = fx_div(x, n as i64);
        let ny: i64 = fx_div(y, n as i64);
        let nz: i64 = fx_div(z, n as i64);
        proof {
            lemma_tdiv_abs((x as int) * (FX_ONE as int), n as int);
            lemma_tdiv_abs((y as int) * (FX_ONE as int), n as int);
            lemma_tdiv_abs((z as int) * (FX_ONE as int), n as int);
        }
        SunDirection { x_east: nx, y_up: ny, z_north: nz }
    }
}

/// A square is monotone in the magnitude of its root.
proof fn lemma_sq_bound(a: int, c: int)
    by (nonlinear_arith)
    requires
        abs_i(a) <= c,
    ensures
        0 <= a * a <= c * c,
{
}

/// Only zero squares to zero.
proof fn lemma_zero_sq(a: int)
    by (nonlinear_arith)
    ensures
        (a * a == 0) ==> a == 0,
        a * a >= 0,
{
}

/// The integer square root of a sum of squares dominates each component, so
/// dividing a component by it keeps the quotient within one unit.
proof fn lemma_isqrt_dominates(n: int, a: int, s: int)
    requires
        is_isqrt(n, s),
        a * a <= s,
        n >= 1,
    ensures
        abs_i(a) <= n,
        abs_i(a) * (FX_ONE as int) / n <= FX_ONE as int,
        abs_i(a * (FX_ONE as int)) / abs_i(n) <= FX_ONE as int,
{
    assert(abs_i(a) <= n) by (nonlinear_arith)
        requires
            is_isqrt(n, s),
            a * a <= s,
    ;
    assert(abs_i(a) * (FX_ONE as int) / n <= FX_ONE as int) by (nonlinear_arith)
        requires
            0 <= abs_i(a) <= n,
            1 <= n,
    ;
    assert(abs_i(a * (FX_ONE as int)) == abs_i(a) * (FX_ONE as int)) by (nonlinear_arith);
}

/// The year angle: the year fraction as an angle of a full turn.
pub open spec fn year_angle_spec(year_fraction: int) -> int {
    fx_mul_spec(year_fraction, FX_TWO_PI as int)
}

/// The sun's declination: axial tilt scaled by the sine of the year angle.
pub open spec fn declination_spec(tilt_rad: int, year_fraction: int) -> int {
    fx_mul_spec(tilt_rad, sin_val(year_angle_spec(year_fraction)))
}

/// The local hour angle: zero at noon, positive after it.
pub open spec fn hour_angle_spec(hour_fraction: int) -> int {
    fx_mul_spec(hour_fraction, FX_TWO_PI as int) - FX_PI
}

/// The pre-normalization components of the sun direction, from the standard
/// equatorial-to-horizontal transform.
pub open spec fn sun_raw_spec(
    hour_fraction: int,
    latitude_rad: int,
    tilt_rad: int,
    year_fraction: int,
) -> (int, int, int) {
    let dec = declination_spec(tilt_rad, year_fraction);
    let ha = hour_angle_spec(hour_fraction);
    let sl = sin_val(latitude_rad);
    let cl = cos_val(latitude_rad);
    let sd = sin_val(dec);
    let cd = cos_val(dec);
    let sh = sin_val(ha);
    let ch = cos_val(ha);
    (
        fx_mul_spec(cd, sh),
        fx_mul_spec(sl, sd) + fx_mul_spec(fx_mul_spec(cl, cd), ch),
        fx_mul_spec(cl, sd) - fx_mul_spec(fx_mul_spec(sl, cd), ch),
    )
}

/// The normalized sun direction.
pub open spec fn sun_direction_spec(
    hour_fraction: int,
    latitude_rad: int,
    tilt_rad: int,
    year_fraction: int,
) -> (int, int, int) {
    let (x, y, z) = sun_raw_spec(hour_fraction, latitude_rad, tilt_rad, year_fraction);
    normalize_spec(x, y, z)
}

/// The sun's direction vector in the observer's local frame (X east, Y up,
/// Z north), pointing from the observer toward the sun.
///
/// An `hour_fraction` of 0 is midnight and 0.5 is local noon; a
/// `year_fraction` of 0 is the vernal equinox and 0.25 the summer solstice.
/// Out-of-range fractions wrap around by whole cycles.
pub fn calculate_sun_direction(
    hour_fraction: i64,
    latitude_rad: i64,
    axial_tilt_rad: i64,
    year_fraction: i64,
) -> (dir: SunDirection)
    requires
        -FX_FRACTION_MAX <= hour_fraction <= FX_FRACTION_MAX,
        -FX_ANGLE_MAX <= latitude_rad <= FX_ANGLE_MAX,
        -FX_TILT_MAX <= axial_tilt_rad <= FX_TILT_MAX,
        -FX_FRACTION_MAX <= year_fraction <= FX_FRACTION_MAX,
    ensures
        (dir.x_east as int, dir.y_up as int, dir.z_north as int) == sun_direction_spec(
            hour_fraction as int,
            latitude_rad as int,
            axial_tilt_rad as int,
            year_fraction as int,
        ),
{
    proof {
        lemma_fx_mul_fits(year_fraction as int, FX_TWO_PI as int, FX_FRACTION_MAX as int, FX_TWO_PI as int);
        lemma_fx_mul_fits(hour_fraction as int, FX_TWO_PI as int, FX_FRACTION_MAX as int, FX_TWO_PI as int);
    }
    let year_angle: i64 = fx_mul(year_fraction, FX_TWO_PI);
    let sin_year: i64 = sin_of(year_angle);
    proof {
        lemma_fx_mul_unit(axial_tilt_rad as int, sin_year as int);
    }
    let dec_rad: i64 = fx_mul(axial_tilt_rad, sin_year);
    let ha: i64 = fx_mul(hour_fraction, FX_TWO_PI) - FX_PI;

    let sl: i64 = sin_of(latitude_rad);
    let cl: i64 = cos_of(latitude_rad);
    let sd: i64 = sin_of(dec_rad);
    let cd: i64 = cos_of(dec_rad);
    let sh: i64 = sin_of(ha);
    let ch: i64 = cos_of(ha);

    proof {
        lemma_fx_mul_fits(cd as int, sh as int, FX_ONE as int, FX_ONE as int);
        lemma_fx_mul_fits(sl as int, sd as int, FX_ONE as int, FX_ONE as int);
        lemma_fx_mul_fits(cl as int, cd as int, FX_ONE as int, FX_ONE as int);
        lemma_fx_mul_fits(cl as int, sd as int, FX_ONE as int, FX_ONE as int);
        lemma_fx_mul_fits(sl as int, cd as int, FX_ONE as int, FX_ONE as int);
    }
    let x_east: i64 = fx_mul(cd, sh);
    let t1: i64 = fx_mul(sl, sd);
    let t2a: i64 = fx_mul(cl, cd);
    let t3: i64 = fx_mul(cl, sd);
    let t4a: i64 = fx_mul(sl, cd);
    proof {
        lemma_fx_mul_fits(t2a as int, ch as int, FX_ONE as int, FX_ONE as int);
        lemma_fx_mul_fits(t4a as int, ch as int, FX_ONE as int, FX_ONE as int);
    }
    let t2: i64 = fx_mul(t2a, ch);
    let t4: i64 = fx_mul(t4a, ch);
    let y_up: i64 = t1 + t2;
    let z_north: i64 = t3 - t4;

    normalize(x_east, y_up, z_north)
}

} // verus!
