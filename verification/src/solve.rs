//! Inverse solver: from a day/night target back to latitude, declination and
//! year fraction.
//!
//! Given an axial tilt, desired day and night durations, and a desired
//! maximum (noon) sun elevation, the solver finds the observer latitude, the
//! declination, and the year fraction at which the forward solver reproduces
//! those targets, or reports exactly why none exists. Every branch of the
//! computation is stated by a spec function; the executable code is proved to
//! return precisely what the specs describe.

use vstd::prelude::*;
use crate::fx::{
    abs_i, clamp_spec, copysign_spec, fx_abs, fx_clamp, fx_copysign, fx_div, fx_div_spec,
    fx_half, fx_mul, fx_mul_spec, lemma_fx_div_fits, lemma_fx_mul_fits, sgn1, tdiv, FX_ONE,
};
use crate::trig::{
    acos_of, acos_val, asin_of, asin_val, atan_val, cos_of, cos_val, imod, sin_of, sin_val,
    FX_DEG2RAD, FX_DEG_90, FX_EPS, FX_HALF_PI, FX_PI, FX_RAD2DEG, FX_TWO_PI,
};

verus! {

/// Q32.32 representation of one quarter (a solstice year fraction).
pub const FX_QUARTER: i64 = 1073741824;

/// Q32.32 representation of one half.
pub const FX_HALF: i64 = 2147483648;

/// Q32.32 representation of three quarters.
pub const FX_THREE_QUARTERS: i64 = 3221225472;

/// Q32.32 representation of a tenth of a degree, the tolerance allowed
/// around the valid elevation range.
pub const FX_TENTH_DEG: i64 = 429496730;

/// Largest duration magnitude (in Q32.32 seconds) the solvers accept.
pub const FX_SECS_MAX: i64 = 0x80000000000000;

/// Largest elevation magnitude (in Q32.32 degrees) the solvers accept;
/// values beyond a tenth of a degree outside `[0, 90]` are rejected anyway.
pub const FX_ELEV_MAX: i64 = 0x200000000000;

/// A solved observer configuration, all fields Q32.32: latitude and
/// declination in degrees, year fraction in `[0, 1)`.
#[derive(Clone, Copy, Debug, PartialEq, Eq, Structural)]
pub struct SkySolution {
    pub latitude_degrees: i64,
    pub year_fraction: i64,
    pub declination_degrees: i64,
}

/// The outcome of the general inverse solver: a solution, or the reason
/// none exists.
#[derive(Clone, Copy, Debug, PartialEq, Eq, Structural)]
pub enum SolveOutcome {
    /// A latitude, year fraction and declination meeting the targets.
    Solution(SkySolution),
    /// The durations were negative or added up to (nearly) nothing.
    InvalidDuration,
    /// The requested maximum elevation lies outside `[0, 90]` degrees.
    InvalidElevation,
    /// No latitude/declination pair can meet the targets for this tilt.
    Infeasible,
}

/// The durations are rejected: one is negative, or the total is below the
/// tolerance.
pub open spec fn invalid_duration_spec(day: int, night: int) -> bool {
    day + night <= FX_EPS || day < 0 || night < 0
}

/// The elevation is rejected: more than a tenth of a degree outside
/// `[0, 90]`.
pub open spec fn invalid_elevation_spec(max_height: int) -> bool {
    max_height < -FX_TENTH_DEG || max_height > FX_DEG_90 + FX_TENTH_DEG
}

/// The tilt magnitude in Q32.32 radians.
pub open spec fn tilt_rad_spec(tilt_deg: int) -> int {
    fx_mul_spec(abs_i(tilt_deg), FX_DEG2RAD as int)
}

/// The day fraction: day duration over total duration.
pub open spec fn day_fraction_spec(day: int, night: int) -> int {
    fx_div_spec(day, day + night)
}

/// Outcome of a perpetual-night request (day duration at zero): the sun must
/// circle the horizon, which pins the latitude to the polar circle of the
/// hemisphere opposite the tilt at its winter solstice.
pub open spec fn perpetual_night_spec(tilt_deg: int, max_height: int) -> SolveOutcome {
    if max_height > FX_EPS {
        SolveOutcome::Infeasible
    } else if tilt_rad_spec(tilt_deg) < FX_EPS {
        SolveOutcome::Infeasible
    } else {
        SolveOutcome::Solution(
            SkySolution {
                latitude_degrees: copysign_spec(
                    (FX_DEG_90 as int) - abs_i(tilt_deg),
                    -tilt_deg,
                ) as i64,
                year_fraction: if tilt_deg > 0 {
                    FX_THREE_QUARTERS
                } else {
                    FX_QUARTER
                },
                declination_degrees: (-tilt_deg) as i64,
            },
        )
    }
}

/// Outcome of a perpetual-day request (night duration at zero): the maximum
/// height fixes the declination at half its value, and the latitude
/// complements it to a quarter turn in the tilt's hemisphere.
pub open spec fn perpetual_day_spec(tilt_deg: int, max_height: int) -> SolveOutcome {
    if max_height < FX_EPS {
        SolveOutcome::Infeasible
    } else if tilt_rad_spec(tilt_deg) < FX_EPS {
        SolveOutcome::Infeasible
    } else {
        let max_height_rad = fx_mul_spec(max_height, FX_DEG2RAD as int);
        let required_dec_rad = tdiv(max_height_rad, 2);
        if abs_i(required_dec_rad) > tilt_rad_spec(tilt_deg) + FX_EPS {
            SolveOutcome::Infeasible
        } else {
            let quarter_turn_rad = fx_mul_spec(FX_DEG_90 as int, FX_DEG2RAD as int);
            let lat_deg = fx_mul_spec(quarter_turn_rad - required_dec_rad, FX_RAD2DEG as int);
            let dec_deg = fx_mul_spec(required_dec_rad, FX_RAD2DEG as int);
            let final_lat = copysign_spec(lat_deg, tilt_deg);
            let final_dec = copysign_spec(dec_deg, tilt_deg);
            let ratio = clamp_spec(
                fx_div_spec(fx_mul_spec(final_dec, FX_DEG2RAD as int), tilt_rad_spec(tilt_deg)),
                -FX_ONE as int,
                FX_ONE as int,
            );
            let phi = asin_val(ratio);
            let year_fraction = if final_dec >= 0 {
                fx_div_spec(phi, FX_TWO_PI as int)
            } else {
                (FX_HALF as int) - fx_div_spec(phi, FX_TWO_PI as int)
            };
            SolveOutcome::Solution(
                SkySolution {
                    latitude_degrees: final_lat as i64,
                    year_fraction: (year_fraction % (FX_ONE as int)) as i64,
                    declination_degrees: final_dec as i64,
                },
            )
        }
    }
}

/// The four candidate (latitude, declination) pairs, in radians, arising
/// from `lat - dec = +/- alpha` and `lat + dec = +/- beta`, in the fixed
/// order the solver scans them.
pub open spec fn candidate_spec(alpha: int, beta: int, i: int) -> (int, int) {
    if i == 0 {
        (tdiv(alpha + beta, 2), tdiv(beta - alpha, 2))
    } else if i == 1 {
        (tdiv(alpha - beta, 2), tdiv(-beta - alpha, 2))
    } else if i == 2 {
        (tdiv(-alpha + beta, 2), tdiv(beta + alpha, 2))
    } else {
        (tdiv(-alpha - beta, 2), tdiv(-beta + alpha, 2))
    }
}

/// A candidate is valid when its declination does not exceed the tilt and
/// its latitude does not exceed a quarter turn (each with tolerance),
/// checked on the degree values.
pub open spec fn candidate_valid_spec(c: (int, int), tilt_deg: int) -> bool {
    let lat_deg = fx_mul_spec(c.0, FX_RAD2DEG as int);
    let dec_deg = fx_mul_spec(c.1, FX_RAD2DEG as int);
    abs_i(dec_deg) <= abs_i(tilt_deg) + FX_EPS && abs_i(lat_deg) <= (FX_DEG_90 as int) + FX_EPS
}

/// A candidate matches the day-length preference: on a long day latitude and
/// declination share a sign, on a short day they oppose (zero counted as
/// positive, as `f32::signum` counts it).
pub open spec fn candidate_preferred_spec(c: (int, int), day_fraction: int) -> bool {
    let lat_deg = fx_mul_spec(c.0, FX_RAD2DEG as int);
    let dec_deg = fx_mul_spec(c.1, FX_RAD2DEG as int);
    let s = sgn1(lat_deg) * sgn1(dec_deg);
    (day_fraction > FX_HALF && s >= 0) || (day_fraction < FX_HALF && s <= 0)
}

/// The candidate the solver settles on: the first (in order) that is valid
/// and preferred; failing that, the last valid one; failing that, none.
pub open spec fn select_candidate_spec(
    alpha: int,
    beta: int,
    tilt_deg: int,
    day_fraction: int,
) -> Option<(int, int)> {
    let c0 = candidate_spec(alpha, beta, 0);
    let c1 = candidate_spec(alpha, beta, 1);
    let c2 = candidate_spec(alpha, beta, 2);
    let c3 = candidate_spec(alpha, beta, 3);
    if candidate_valid_spec(c0, tilt_deg) && candidate_preferred_spec(c0, day_fraction) {
        Some(c0)
    } else if candidate_valid_spec(c1, tilt_deg) && candidate_preferred_spec(c1, day_fraction) {
        Some(c1)
    } else if candidate_valid_spec(c2, tilt_deg) && candidate_preferred_spec(c2, day_fraction) {
        Some(c2)
    } else if candidate_valid_spec(c3, tilt_deg) && candidate_preferred_spec(c3, day_fraction) {
        Some(c3)
    } else if candidate_valid_spec(c3, tilt_deg) {
        Some(c3)
    } else if candidate_valid_spec(c2, tilt_deg) {
        Some(c2)
    } else if candidate_valid_spec(c1, tilt_deg) {
        Some(c1)
    } else if candidate_valid_spec(c0, tilt_deg) {
        Some(c0)
    } else {
        None
    }
}

/// Turn a chosen (latitude, declination) pair into a full solution: convert
/// to degrees and invert `dec = tilt * sin(2 pi * yf)` for the year
/// fraction, choosing the admissible branch nearer the solstice that matches
/// the declination's sign.
pub open spec fn finish_solution_spec(tilt_deg: int, lat_rad: int, dec_rad: int) -> SolveOutcome {
    let lat_deg = fx_mul_spec(lat_rad, FX_RAD2DEG as int);
    let dec_deg = fx_mul_spec(dec_rad, FX_RAD2DEG as int);
    let tilt_rad = tilt_rad_spec(tilt_deg);
    if tilt_rad < FX_EPS {
        if abs_i(dec_rad) > FX_EPS {
            SolveOutcome::Infeasible
        } else {
            SolveOutcome::Solution(
                SkySolution {
                    latitude_degrees: lat_deg as i64,
                    year_fraction: 0,
                    declination_degrees: dec_deg as i64,
                },
            )
        }
    } else {
        let ratio = clamp_spec(fx_div_spec(dec_rad, tilt_rad), -FX_ONE as int, FX_ONE as int);
        let phi = asin_val(ratio);
        let phi_frac = fx_div_spec(phi, FX_TWO_PI as int);
        let yf1 = if dec_rad >= 0 {
            phi_frac
        } else {
            (FX_ONE as int) + phi_frac
        };
        let yf2 = (FX_HALF as int) - phi_frac;
        let target = if dec_rad >= 0 {
            FX_QUARTER as int
        } else {
            FX_THREE_QUARTERS as int
        };
        let chosen = if abs_i(target - yf1) < abs_i(target - yf2) {
            yf1
        } else {
            yf2
        };
        SolveOutcome::Solution(
            SkySolution {
                latitude_degrees: lat_deg as i64,
                year_fraction: (chosen % (FX_ONE as int)) as i64,
                declination_degrees: dec_deg as i64,
            },
        )
    }
}

/// Outcome of the general branch (both durations positive): solve the two
/// spherical identities `cos(lat - dec) = sin(h)` and
/// `cos(lat + dec) = sin(h) (1 + C) / (1 - C)` with `C = cos(pi * df)`.
pub open spec fn general_case_spec(
    tilt_deg: int,
    day: int,
    night: int,
    max_height: int,
) -> SolveOutcome {
    let df = day_fraction_spec(day, night);
    let max_height_rad = fx_mul_spec(max_height, FX_DEG2RAD as int);
    let c = cos_val(fx_mul_spec(FX_PI as int, df));
    let s_h = sin_val(max_height_rad);
    if abs_i((FX_ONE as int) - c) < FX_EPS {
        SolveOutcome::Infeasible
    } else {
        let rhs = fx_div_spec(fx_mul_spec(s_h, (FX_ONE as int) + c), (FX_ONE as int) - c);
        if abs_i(rhs) > (FX_ONE as int) + FX_EPS {
            SolveOutcome::Infeasible
        } else {
            let beta = acos_val(clamp_spec(rhs, -FX_ONE as int, FX_ONE as int));
            let alpha = (FX_HALF_PI as int) - max_height_rad;
            match select_candidate_spec(alpha, beta, tilt_deg, df) {
                Option::None => SolveOutcome::Infeasible,
                Option::Some(c) => finish_solution_spec(tilt_deg, c.0, c.1),
            }
        }
    }
}

/// What the general inverse solver returns, for every input it accepts.
pub open spec fn solve_outcome_spec(
    tilt_deg: int,
    day: int,
    night: int,
    max_height: int,
) -> SolveOutcome {
    if invalid_duration_spec(day, night) {
        SolveOutcome::InvalidDuration
    } else if invalid_elevation_spec(max_height) {
        SolveOutcome::InvalidElevation
    } else if day < FX_EPS && night > FX_EPS {
        perpetual_night_spec(tilt_deg, max_height)
    } else if night < FX_EPS && day > FX_EPS {
        perpetual_day_spec(tilt_deg, max_height)
    } else {
        general_case_spec(tilt_deg, day, night, max_height)
    }
}

/// The tilt magnitude in radians, as the solvers compute it.
fn tilt_rad_of(tilt_deg: i64) -> (r: i64)
    requires
        -FX_DEG_90 <= tilt_deg <= FX_DEG_90,
    ensures
        r == tilt_rad_spec(tilt_deg as int),
        0 <= r <= FX_HALF_PI + FX_EPS,
{
    proof {
        lemma_fx_mul_fits(
            abs_i(tilt_deg as int),
            FX_DEG2RAD as int,
            FX_DEG_90 as int,
            FX_DEG2RAD as int,
        );
    }
    fx_mul(fx_abs(tilt_deg), FX_DEG2RAD)
}

/// Solve a perpetual-night request.
fn solve_perpetual_night(tilt_deg: i64, max_height: i64) -> (o: SolveOutcome)
    requires
        -FX_DEG_90 <= tilt_deg <= FX_DEG_90,
    ensures
        o == perpetual_night_spec(tilt_deg as int, max_height as int),
{
    if max_height > FX_EPS {
        return SolveOutcome::Infeasible;
    }
    let tilt_rad: i64 = tilt_rad_of(tilt_deg);
    if tilt_rad < FX_EPS {
        return SolveOutcome::Infeasible;
    }
    let latitude_degrees: i64 = fx_copysign(FX_DEG_90 - fx_abs(tilt_deg), -tilt_deg);
    let year_fraction: i64 = if tilt_deg > 0 {
        FX_THREE_QUARTERS
    } else {
        FX_QUARTER
    };
    SolveOutcome::Solution(
        SkySolution { latitude_degrees, year_fraction, declination_degrees: -tilt_deg },
    )
}

/// Solve a perpetual-day request.
fn solve_perpetual_day(tilt_deg: i64, max_height: i64) -> (o: SolveOutcome)
    requires
        -FX_DEG_90 <= tilt_deg <= FX_DEG_90,
        -FX_TENTH_DEG <= max_height <= FX_DEG_90 + FX_TENTH_DEG,
    ensures
        o == perpetual_day_spec(tilt_deg as int, max_height as int),
{
    if max_height < FX_EPS {
        return SolveOutcome::Infeasible;
    }
    let tilt_rad: i64 = tilt_rad_of(tilt_deg);
    if tilt_rad < FX_EPS {
        return SolveOutcome::Infeasible;
    }
    proof {
        lemma_fx_mul_fits(
            max_height as int,
            FX_DEG2RAD as int,
            FX_DEG_90 + FX_TENTH_DEG,
            FX_DEG2RAD as int,
        );
    }
    let max_height_rad: i64 = fx_mul(max_height, FX_DEG2RAD);
    let required_dec_rad: i64 = fx_half(max_height_rad);
    if fx_abs(required_dec_rad) > tilt_rad + FX_EPS {
        return SolveOutcome::Infeasible;
    }
    proof {
        lemma_fx_mul_fits(FX_DEG_90 as int, FX_DEG2RAD as int, FX_DEG_90 as int, FX_DEG2RAD as int);
    }
    let quarter_turn_rad: i64 = fx_mul(FX_DEG_90, FX_DEG2RAD);
    proof {
        lemma_fx_mul_fits(
            quarter_turn_rad - required_dec_rad,
            FX_RAD2DEG as int,
            0x400000000,
            FX_RAD2DEG as int,
        );
        lemma_fx_mul_fits(required_dec_rad as int, FX_RAD2DEG as int, 0x400000000, FX_RAD2DEG as int);
    }
    let lat_deg: i64 = fx_mul(quarter_turn_rad - required_dec_rad, FX_RAD2DEG);
    let dec_deg: i64 = fx_mul(required_dec_rad, FX_RAD2DEG);
    let final_lat: i64 = fx_copysign(lat_deg, tilt_deg);
    let final_dec: i64 = fx_copysign(dec_deg, tilt_deg);
    proof {
        crate::fx::lemma_abs_copysign(dec_deg as int, tilt_deg as int);
        lemma_fx_mul_fits(final_dec as int, FX_DEG2RAD as int, 0x10000000000, FX_DEG2RAD as int);
        lemma_fx_div_fits(
            fx_mul_spec(final_dec as int, FX_DEG2RAD as int),
            tilt_rad as int,
            0x800000000,
            FX_EPS as int,
        );
    }
    let ratio: i64 = fx_clamp(fx_div(fx_mul(final_dec, FX_DEG2RAD), tilt_rad), -FX_ONE, FX_ONE);
    let phi: i64 = asin_of(ratio);
    proof {
        lemma_fx_div_fits(phi as int, FX_TWO_PI as int, FX_HALF_PI as int, FX_TWO_PI as int);
    }
    let phi_frac: i64 = fx_div(phi, FX_TWO_PI);
    let year_fraction: i64 = if final_dec >= 0 {
        imod(phi_frac, FX_ONE)
    } else {
        imod(FX_HALF - phi_frac, FX_ONE)
    };
    SolveOutcome::Solution(
        SkySolution {
            latitude_degrees: final_lat,
            year_fraction,
            declination_degrees: final_dec,
        },
    )
}

/// Scan the four candidate pairs in their fixed order; return the first
/// valid one matching the day-length sign preference, else the last valid
/// one, else nothing.
#[verifier::rlimit(60)]
#[verifier::spinoff_prover]
pub fn select_candidate(alpha: i64, beta: i64, tilt_deg: i64, day_fraction: i64) -> (r: Option<
    (i64, i64),
>)
    requires
        -0x200000000 <= alpha <= 0x200000000,
        0 <= beta <= FX_PI,
        -FX_DEG_90 <= tilt_deg <= FX_DEG_90,
    ensures
        match r {
            Option::None => select_candidate_spec(
                alpha as int,
                beta as int,
                tilt_deg as int,
                day_fraction as int,
            ) is None,
            Option::Some(c) => select_candidate_spec(
                alpha as int,
                beta as int,
                tilt_deg as int,
                day_fraction as int,
            ) == Some((c.0 as int, c.1 as int)) && -0x300000000 <= c.0 <= 0x300000000
                && -0x300000000 <= c.1 <= 0x300000000,
        },
{
    let c0: (i64, i64) = (fx_half(alpha + beta), fx_half(beta - alpha));
    let c1: (i64, i64) = (fx_half(alpha - beta), fx_half(-beta - alpha));
    let c2: (i64, i64) = (fx_half(-alpha + beta), fx_half(beta + alpha));
    let c3: (i64, i64) = (fx_half(-alpha - beta), fx_half(-beta + alpha));
    let v0: bool = candidate_ok(c0, tilt_deg);
    let v1: bool = candidate_ok(c1, tilt_deg);
    let v2: bool = candidate_ok(c2, tilt_deg);
    let v3: bool = candidate_ok(c3, tilt_deg);
    let p0: bool = candidate_pref(c0, day_fraction);
    let p1: bool = candidate_pref(c1, day_fraction);
    let p2: bool = candidate_pref(c2, day_fraction);
    let p3: bool = candidate_pref(c3, day_fraction);
    if v0 && p0 {
        Some(c0)
    } else if v1 && p1 {
        Some(c1)
    } else if v2 && p2 {
        Some(c2)
    } else if v3 && p3 {
        Some(c3)
    } else if v3 {
        Some(c3)
    } else if v2 {
        Some(c2)
    } else if v1 {
        Some(c1)
    } else if v0 {
        Some(c0)
    } else {
        None
    }
}

/// Validity of one candidate pair, checked on the degree values.
fn candidate_ok(c: (i64, i64), tilt_deg: i64) -> (r: bool)
    requires
        -0x300000000 <= c.0 <= 0x300000000,
        -0x300000000 <= c.1 <= 0x300000000,
        -FX_DEG_90 <= tilt_deg <= FX_DEG_90,
    ensures
        r == candidate_valid_spec((c.0 as int, c.1 as int), tilt_deg as int),
{
    proof {
        lemma_fx_mul_fits(c.0 as int, FX_RAD2DEG as int, 0x300000000, FX_RAD2DEG as int);
        lemma_fx_mul_fits(c.1 as int, FX_RAD2DEG as int, 0x300000000, FX_RAD2DEG as int);
    }
    let lat_deg: i64 = fx_mul(c.0, FX_RAD2DEG);
    let dec_deg: i64 = fx_mul(c.1, FX_RAD2DEG);
    fx_abs(dec_deg) <= fx_abs(tilt_deg) + FX_EPS && fx_abs(lat_deg) <= FX_DEG_90 + FX_EPS
}

/// Sign preference of one candidate pair.
fn candidate_pref(c: (i64, i64), day_fraction: i64) -> (r: bool)
    requires
        -0x300000000 <= c.0 <= 0x300000000,
        -0x300000000 <= c.1 <= 0x300000000,
    ensures
        r == candidate_preferred_spec((c.0 as int, c.1 as int), day_fraction as int),
{
    proof {
        lemma_fx_mul_fits(c.0 as int, FX_RAD2DEG as int, 0x300000000, FX_RAD2DEG as int);
        lemma_fx_mul_fits(c.1 as int, FX_RAD2DEG as int, 0x300000000, FX_RAD2DEG as int);
    }
    let lat_deg: i64 = fx_mul(c.0, FX_RAD2DEG);
    let dec_deg: i64 = fx_mul(c.1, FX_RAD2DEG);
    let same_sign: bool = (lat_deg >= 0) == (dec_deg >= 0);
    (day_fraction > FX_HALF && same_sign) || (day_fraction < FX_HALF && !same_sign)
}

/// Finish a chosen (latitude, declination) pair into a full solution.
fn finish_solution(tilt_deg: i64, lat_rad: i64, dec_rad: i64) -> (o: SolveOutcome)
    requires
        -FX_DEG_90 <= tilt_deg <= FX_DEG_90,
        -0x300000000 <= lat_rad <= 0x300000000,
        -0x300000000 <= dec_rad <= 0x300000000,
    ensures
        o == finish_solution_spec(tilt_deg as int, lat_rad as int, dec_rad as int),
{
    proof {
        lemma_fx_mul_fits(lat_rad as int, FX_RAD2DEG as int, 0x300000000, FX_RAD2DEG as int);
        lemma_fx_mul_fits(dec_rad as int, FX_RAD2DEG as int, 0x300000000, FX_RAD2DEG as int);
    }
    let lat_deg: i64 = fx_mul(lat_rad, FX_RAD2DEG);
    let dec_deg: i64 = fx_mul(dec_rad, FX_RAD2DEG);
    let tilt_rad: i64 = tilt_rad_of(tilt_deg);
    if tilt_rad < FX_EPS {
        if fx_abs(dec_rad) > FX_EPS {
            return SolveOutcome::Infeasible;
        }
        return SolveOutcome::Solution(
            SkySolution {
                latitude_degrees: lat_deg,
                year_fraction: 0,
                declination_degrees: dec_deg,
            },
        );
    }
    proof {
        lemma_fx_div_fits(dec_rad as int, tilt_rad as int, 0x300000000, FX_EPS as int);
    }
    let ratio: i64 = fx_clamp(fx_div(dec_rad, tilt_rad), -FX_ONE, FX_ONE);
    let phi: i64 = asin_of(ratio);
    proof {
        lemma_fx_div_fits(phi as int, FX_TWO_PI as int, FX_HALF_PI as int, FX_TWO_PI as int);
    }
    let phi_frac: i64 = fx_div(phi, FX_TWO_PI);
    let yf1: i64 = if dec_rad >= 0 {
        phi_frac
    } else {
        FX_ONE + phi_frac
    };
    let yf2: i64 = FX_HALF - phi_frac;
    let target: i64 = if dec_rad >= 0 {
        FX_QUARTER
    } else {
        FX_THREE_QUARTERS
    };
    let chosen: i64 = if fx_abs(target - yf1) < fx_abs(target - yf2) {
        yf1
    } else {
        yf2
    };
    let year_fraction: i64 = imod(chosen, FX_ONE);
    SolveOutcome::Solution(
        SkySolution {
            latitude_degrees: lat_deg,
            year_fraction,
            declination_degrees: dec_deg,
        },
    )
}

/// Solve the general case, both durations positive.
fn solve_general(tilt_deg: i64, day: i64, night: i64, max_height: i64) -> (o: SolveOutcome)
    requires
        -FX_DEG_90 <= tilt_deg <= FX_DEG_90,
        0 <= day <= FX_SECS_MAX,
        0 <= night <= FX_SECS_MAX,
        day + night > FX_EPS,
        -FX_TENTH_DEG <= max_height <= FX_DEG_90 + FX_TENTH_DEG,
    ensures
        o == general_case_spec(tilt_deg as int, day as int, night as int, max_height as int),
{
    let total: i64 = day + night;
    proof {
        vstd::arithmetic::div_mod::lemma_div_multiples_vanish(FX_ONE as int, total as int);
        assert((total as int) * (FX_ONE as int) / (total as int) == FX_ONE as int);
        lemma_fx_div_fits(day as int, total as int, total as int, total as int);
    }
    let df: i64 = fx_div(day, total);
    proof {
        lemma_fx_mul_fits(FX_PI as int, df as int, FX_PI as int, FX_ONE as int);
        lemma_fx_mul_fits(
            max_height as int,
            FX_DEG2RAD as int,
            FX_DEG_90 + FX_TENTH_DEG,
            FX_DEG2RAD as int,
        );
    }
    let max_height_rad: i64 = fx_mul(max_height, FX_DEG2RAD);
    let c: i64 = cos_of(fx_mul(FX_PI, df));
    let s_h: i64 = sin_of(max_height_rad);
    let one_minus_c: i64 = FX_ONE - c;
    if fx_abs(one_minus_c) < FX_EPS {
        return SolveOutcome::Infeasible;
    }
    proof {
        lemma_fx_mul_fits(s_h as int, (FX_ONE as int) + (c as int), FX_ONE as int, 2 * FX_ONE);
        lemma_fx_div_fits(
            fx_mul_spec(s_h as int, (FX_ONE as int) + (c as int)),
            one_minus_c as int,
            2 * FX_ONE,
            FX_EPS as int,
        );
    }
    let rhs: i64 = fx_div(fx_mul(s_h, FX_ONE + c), one_minus_c);
    if fx_abs(rhs) > FX_ONE + FX_EPS {
        return SolveOutcome::Infeasible;
    }
    let beta: i64 = acos_of(fx_clamp(rhs, -FX_ONE, FX_ONE));
    let alpha: i64 = FX_HALF_PI - max_height_rad;
    match select_candidate(alpha, beta, tilt_deg, df) {
        Option::None => SolveOutcome::Infeasible,
        Option::Some(c) => finish_solution(tilt_deg, c.0, c.1),
    }
}

/// A solved configuration of the simplified solver: latitude in Q32.32
/// degrees and a year fraction fixed at the summer solstice.
#[derive(Clone, Copy, Debug, PartialEq, Eq, Structural)]
pub struct SimpleSolution {
    pub latitude_degrees: i64,
    pub year_fraction: i64,
}

/// The outcome of the simplified inverse solver.
#[derive(Clone, Copy, Debug, PartialEq, Eq, Structural)]
pub enum SimpleOutcome {
    /// A latitude and year fraction meeting the requested day fraction.
    Solution(SimpleSolution),
    /// The durations were negative or added up to nothing.
    InvalidDuration,
    /// The day fraction cannot be met, or a division guard tripped.
    Infeasible,
    /// A perpetual day or night was requested; the simplified method does
    /// not compute polar configurations.
    UnsupportedPolarCase,
}

/// What the simplified solver returns: it fixes the summer solstice
/// (declination = tilt) and solves `cos(HA_sunset) = -tan(lat) * tan(dec)`
/// for the latitude alone. Divisions are guarded and route to
/// `Infeasible` when a denominator vanishes.
pub open spec fn simple_outcome_spec(tilt_deg: int, day: int, night: int) -> SimpleOutcome {
    if day + night <= 0 || day < 0 || night < 0 {
        SimpleOutcome::InvalidDuration
    } else if day == 0 && night > 0 {
        SimpleOutcome::UnsupportedPolarCase
    } else if night == 0 && day > 0 {
        SimpleOutcome::UnsupportedPolarCase
    } else {
        let df = fx_div_spec(day, day + night);
        let cos_ha = cos_val(fx_mul_spec(FX_PI as int, df));
        let tilt_rad = fx_mul_spec(tilt_deg, FX_DEG2RAD as int);
        if abs_i(tilt_rad) < FX_EPS {
            if abs_i(df - FX_HALF) > FX_EPS {
                SimpleOutcome::Infeasible
            } else {
                SimpleOutcome::Solution(
                    SimpleSolution { latitude_degrees: 0, year_fraction: FX_QUARTER },
                )
            }
        } else {
            let c = cos_val(tilt_rad);
            if abs_i(c) < FX_EPS {
                SimpleOutcome::Infeasible
            } else {
                let tan_dec = fx_div_spec(sin_val(tilt_rad), c);
                if abs_i(tan_dec) < FX_EPS {
                    SimpleOutcome::Infeasible
                } else {
                    let required_tan_lat = fx_div_spec(-cos_ha, tan_dec);
                    let lat_deg = fx_mul_spec(atan_val(required_tan_lat), FX_RAD2DEG as int);
                    if abs_i(lat_deg) > (FX_DEG_90 as int) + FX_EPS {
                        SimpleOutcome::Infeasible
                    } else {
                        SimpleOutcome::Solution(
                            SimpleSolution {
                                latitude_degrees: lat_deg as i64,
                                year_fraction: FX_QUARTER,
                            },
                        )
                    }
                }
            }
        }
    }
}

/// The simplified inverse solver: find the latitude whose day fraction at
/// the summer solstice (declination equal to the tilt) matches the
/// requested one. Perpetual-day and perpetual-night requests are not
/// computed here and are reported as unsupported.
pub fn calculate_timed_sky_center_params(
    planet_tilt_degrees: i64,
    day_duration_secs: i64,
    night_duration_secs: i64,
) -> (o: SimpleOutcome)
    requires
        -FX_DEG_90 <= planet_tilt_degrees <= FX_DEG_90,
        -FX_SECS_MAX <= day_duration_secs <= FX_SECS_MAX,
        -FX_SECS_MAX <= night_duration_secs <= FX_SECS_MAX,
    ensures
        o == simple_outcome_spec(
            planet_tilt_degrees as int,
            day_duration_secs as int,
            night_duration_secs as int,
        ),
{
    let total: i64 = day_duration_secs + night_duration_secs;
    if total <= 0 || day_duration_secs < 0 || night_duration_secs < 0 {
        return SimpleOutcome::InvalidDuration;
    }
    if day_duration_secs == 0 && night_duration_secs > 0 {
        return SimpleOutcome::UnsupportedPolarCase;
    }
    if night_duration_secs == 0 && day_duration_secs > 0 {
        return SimpleOutcome::UnsupportedPolarCase;
    }
    proof {
        vstd::arithmetic::div_mod::lemma_div_multiples_vanish(FX_ONE as int, total as int);
        assert((total as int) * (FX_ONE as int) / (total as int) == FX_ONE as int);
        lemma_fx_div_fits(day_duration_secs as int, total as int, total as int, total as int);
        lemma_fx_mul_fits(
            planet_tilt_degrees as int,
            FX_DEG2RAD as int,
            FX_DEG_90 as int,
            FX_DEG2RAD as int,
        );
    }
    let df: i64 = fx_div(day_duration_secs, total);
    proof {
        lemma_fx_mul_fits(FX_PI as int, df as int, FX_PI as int, FX_ONE as int);
    }
    let cos_ha: i64 = cos_of(fx_mul(FX_PI, df));
    let tilt_rad: i64 = fx_mul(planet_tilt_degrees, FX_DEG2RAD);
    if fx_abs(tilt_rad) < FX_EPS {
        if fx_abs(df - FX_HALF) > FX_EPS {
            return SimpleOutcome::Infeasible;
        }
        return SimpleOutcome::Solution(
            SimpleSolution { latitude_degrees: 0, year_fraction: FX_QUARTER },
        );
    }
    let s: i64 = sin_of(tilt_rad);
    let c: i64 = cos_of(tilt_rad);
    if fx_abs(c) < FX_EPS {
        return SimpleOutcome::Infeasible;
    }
    proof {
        lemma_fx_div_fits(s as int, c as int, FX_ONE as int, FX_EPS as int);
    }
    let tan_dec: i64 = fx_div(s, c);
    if fx_abs(tan_dec) < FX_EPS {
        return SimpleOutcome::Infeasible;
    }
    proof {
        lemma_fx_div_fits(-(cos_ha as int), tan_dec as int, FX_ONE as int, FX_EPS as int);
    }
    let required_tan_lat: i64 = fx_div(-cos_ha, tan_dec);
    let lat_rad: i64 = crate::trig::atan_of(required_tan_lat);
    proof {
        lemma_fx_mul_fits(lat_rad as int, FX_RAD2DEG as int, FX_HALF_PI as int, FX_RAD2DEG as int);
    }
    let lat_deg: i64 = fx_mul(lat_rad, FX_RAD2DEG);
    if fx_abs(lat_deg) > FX_DEG_90 + FX_EPS {
        return SimpleOutcome::Infeasible;
    }
    SimpleOutcome::Solution(
        SimpleSolution { latitude_degrees: lat_deg, year_fraction: FX_QUARTER },
    )
}

/// Find the latitude, year fraction and declination that give a requested
/// day/night duration split and maximum sun height, for a planet of the
/// given axial tilt. All quantities are Q32.32: tilt and height in degrees,
/// durations in seconds.
///
/// The result either carries the solved configuration or says exactly why
/// the request is rejected: bad durations, an elevation outside `[0, 90]`
/// degrees, or a geometrically unreachable combination.
pub fn calculate_latitude_yearfraction(
    planet_tilt_degrees: i64,
    day_duration_secs: i64,
    night_duration_secs: i64,
    max_sun_height_deg: i64,
) -> (o: SolveOutcome)
    requires
        -FX_DEG_90 <= planet_tilt_degrees <= FX_DEG_90,
        -FX_SECS_MAX <= day_duration_secs <= FX_SECS_MAX,
        -FX_SECS_MAX <= night_duration_secs <= FX_SECS_MAX,
        -FX_ELEV_MAX <= max_sun_height_deg <= FX_ELEV_MAX,
    ensures
        o == solve_outcome_spec(
            planet_tilt_degrees as int,
            day_duration_secs as int,
            night_duration_secs as int,
            max_sun_height_deg as int,
        ),
{
    let total: i64 = day_duration_secs + night_duration_secs;
    if total <= FX_EPS || day_duration_secs < 0 || night_duration_secs < 0 {
        return SolveOutcome::InvalidDuration;
    }
    if max_sun_height_deg < -FX_TENTH_DEG || max_sun_height_deg > FX_DEG_90 + FX_TENTH_DEG {
        return SolveOutcome::InvalidElevation;
    }
    if day_duration_secs < FX_EPS && night_duration_secs > FX_EPS {
        return solve_perpetual_night(planet_tilt_degrees, max_sun_height_deg);
    }
    if night_duration_secs < FX_EPS && day_duration_secs > FX_EPS {
        return solve_perpetual_day(planet_tilt_degrees, max_sun_height_deg);
    }
    solve_general(planet_tilt_degrees, day_duration_secs, night_duration_secs, max_sun_height_deg)
}

} // verus!
