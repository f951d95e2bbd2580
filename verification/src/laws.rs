//! Laws the solvers obey, stated and proved over the same spec functions
//! the solvers' contracts use.

use vstd::prelude::*;
use vstd::arithmetic::div_mod::{
    lemma_fundamental_div_mod, lemma_mod_bound,
};
use crate::fx::{abs_i, copysign_spec, fx_mul_spec, lemma_abs_copysign, lemma_abs_mul,
    lemma_fx_mul_bound, lemma_tdiv_abs, tdiv, FX_ONE};
use crate::solve::{
    candidate_valid_spec, general_case_spec, perpetual_day_spec, perpetual_night_spec,
    select_candidate_spec, solve_outcome_spec, SolveOutcome, FX_TENTH_DEG,
};
use crate::trig::{FX_DEG2RAD, FX_DEG_90, FX_EPS, FX_RAD2DEG};

verus! {

/// Slack the solution invariants allow, covering the fixed-point rounding
/// of the degree/radian round trips (about 15 millionths of a degree).
pub const FX_SOLUTION_TOL: i64 = 65536;

/// Whatever candidate the selection settles on, it passed the validity
/// filter.
pub proof fn lemma_select_valid(alpha: int, beta: int, tilt_deg: int, day_fraction: int)
    ensures
        match select_candidate_spec(alpha, beta, tilt_deg, day_fraction) {
            Option::None => true,
            Option::Some(c) => candidate_valid_spec(c, tilt_deg),
        },
{
}

/// Law: a solution's declination never exceeds the tilt, its year fraction
/// lies in `[0, 1)`, and its latitude never exceeds a quarter turn — each
/// bound up to the fixed-point tolerance. This holds for every request the
/// general solver answers with a solution.
pub proof fn lemma_solution_invariants(tilt_deg: int, day: int, night: int, max_height: int)
    requires
        -FX_DEG_90 <= tilt_deg <= FX_DEG_90,
    ensures
        match solve_outcome_spec(tilt_deg, day, night, max_height) {
            SolveOutcome::Solution(s) => abs_i(s.declination_degrees as int) <= abs_i(tilt_deg)
                + FX_SOLUTION_TOL && 0 <= s.year_fraction < FX_ONE && abs_i(
                s.latitude_degrees as int,
            ) <= (FX_DEG_90 as int) + FX_SOLUTION_TOL,
            _ => true,
        },
{
    let o = solve_outcome_spec(tilt_deg, day, night, max_height);
    if o is Solution {
        if !(day + night <= FX_EPS || day < 0 || night < 0) && !(max_height < -FX_TENTH_DEG
            || max_height > (FX_DEG_90 as int) + FX_TENTH_DEG) {
            if day < FX_EPS && night > FX_EPS {
                lemma_perpetual_night_invariants(tilt_deg, max_height);
            } else if night < FX_EPS && day > FX_EPS {
                lemma_perpetual_day_invariants(tilt_deg, max_height);
            } else {
                lemma_general_invariants(tilt_deg, day, night, max_height);
            }
        }
    }
}

/// The perpetual-night branch meets the solution invariants.
proof fn lemma_perpetual_night_invariants(tilt_deg: int, max_height: int)
    requires
        -FX_DEG_90 <= tilt_deg <= FX_DEG_90,
    ensures
        match perpetual_night_spec(tilt_deg, max_height) {
            SolveOutcome::Solution(s) => abs_i(s.declination_degrees as int) <= abs_i(tilt_deg)
                + FX_SOLUTION_TOL && 0 <= s.year_fraction < FX_ONE && abs_i(
                s.latitude_degrees as int,
            ) <= (FX_DEG_90 as int) + FX_SOLUTION_TOL,
            _ => true,
        },
{
    if perpetual_night_spec(tilt_deg, max_height) is Solution {
        lemma_abs_copysign((FX_DEG_90 as int) - abs_i(tilt_deg), -tilt_deg);
    }
}

/// The perpetual-day branch meets the solution invariants.
proof fn lemma_perpetual_day_invariants(tilt_deg: int, max_height: int)
    requires
        -FX_DEG_90 <= tilt_deg <= FX_DEG_90,
        -FX_TENTH_DEG <= max_height <= (FX_DEG_90 as int) + FX_TENTH_DEG,
    ensures
        match perpetual_day_spec(tilt_deg, max_height) {
            SolveOutcome::Solution(s) => abs_i(s.declination_degrees as int) <= abs_i(tilt_deg)
                + FX_SOLUTION_TOL && 0 <= s.year_fraction < FX_ONE && abs_i(
                s.latitude_degrees as int,
            ) <= (FX_DEG_90 as int) + FX_SOLUTION_TOL,
            _ => true,
        },
{
    if perpetual_day_spec(tilt_deg, max_height) is Solution {
        let t = abs_i(tilt_deg);
        let r = fx_mul_spec(t, FX_DEG2RAD as int);
        let mh_rad = fx_mul_spec(max_height, FX_DEG2RAD as int);
        let q = tdiv(mh_rad, 2);
        // The guard of the solution branch bounds the required declination.
        assert(abs_i(q) <= r + FX_EPS);

        // The tilt in radians, floored back through the product with the
        // degree factors.
        assert(r == t * (FX_DEG2RAD as int) / (FX_ONE as int)) by {
            lemma_tdiv_abs(t * (FX_DEG2RAD as int), FX_ONE as int);
            lemma_abs_mul(t, FX_DEG2RAD as int);
            assert(abs_i(t) == t);
            assert(abs_i(t * (FX_DEG2RAD as int)) == t * (FX_DEG2RAD as int));
            assert(tdiv(t * (FX_DEG2RAD as int), FX_ONE as int) == abs_i(
                t * (FX_DEG2RAD as int),
            ) / (FX_ONE as int));
        }
        assert(r * (FX_ONE as int) <= t * (FX_DEG2RAD as int)) by {
            lemma_fundamental_div_mod(t * (FX_DEG2RAD as int), FX_ONE as int);
            lemma_mod_bound(t * (FX_DEG2RAD as int), FX_ONE as int);
        }

        // Magnitude of the declination in degrees.
        let dq = abs_i(q);
        let dec_deg = fx_mul_spec(q, FX_RAD2DEG as int);
        let dd = abs_i(dec_deg);
        assert(dd == dq * (FX_RAD2DEG as int) / (FX_ONE as int)) by {
            lemma_tdiv_abs(q * (FX_RAD2DEG as int), FX_ONE as int);
            lemma_abs_mul(q, FX_RAD2DEG as int);
        }
        assert(dd * (FX_ONE as int) <= dq * (FX_RAD2DEG as int)) by {
            lemma_fundamental_div_mod(dq * (FX_RAD2DEG as int), FX_ONE as int);
            lemma_mod_bound(dq * (FX_RAD2DEG as int), FX_ONE as int);
            lemma_tdiv_abs(q * (FX_RAD2DEG as int), FX_ONE as int);
        }
        // Chain the two floors: dd * ONE^2 <= (r + eps) * R2D * ONE
        //                                  <= t * D2R * R2D + eps * R2D * ONE.
        assert(dd <= t + FX_SOLUTION_TOL) by (nonlinear_arith)
            requires
                dd * (FX_ONE as int) <= dq * (FX_RAD2DEG as int),
                dq <= r + FX_EPS,
                r * (FX_ONE as int) <= t * (FX_DEG2RAD as int),
                0 <= t <= FX_DEG_90 as int,
                0 <= dq,
                0 <= dd,
                0 <= r,
        ;

        // Latitude magnitude: at most the quarter turn plus the same slack.
        let quarter_turn_rad = fx_mul_spec(FX_DEG_90 as int, FX_DEG2RAD as int);
        assert(quarter_turn_rad == 6746518890);
        assert(0 <= mh_rad) by {
            lemma_tdiv_abs(max_height * (FX_DEG2RAD as int), FX_ONE as int);
        }
        assert(0 <= q <= r + FX_EPS);
        let lat_arg = quarter_turn_rad - q;
        assert(abs_i(lat_arg) <= 6746519402);
        lemma_fx_mul_bound(lat_arg, FX_RAD2DEG as int, 6746519402, FX_RAD2DEG as int);
        assert(6746519402 * (FX_RAD2DEG as int) / (FX_ONE as int) <= (FX_DEG_90 as int)
            + FX_SOLUTION_TOL);
        lemma_abs_copysign(fx_mul_spec(lat_arg, FX_RAD2DEG as int), tilt_deg);
        lemma_abs_copysign(dec_deg, tilt_deg);

        // Year fraction is wrapped into [0, 1).
        let final_dec = copysign_spec(dec_deg, tilt_deg);
        let ratio = crate::fx::clamp_spec(
            crate::fx::fx_div_spec(fx_mul_spec(final_dec, FX_DEG2RAD as int), r),
            -FX_ONE as int,
            FX_ONE as int,
        );
        let phi = crate::trig::asin_val(ratio);
        let phi_frac = crate::fx::fx_div_spec(phi, crate::trig::FX_TWO_PI as int);
        let yf = if final_dec >= 0 {
            phi_frac
        } else {
            (crate::solve::FX_HALF as int) - phi_frac
        };
        lemma_mod_bound(yf, FX_ONE as int);
    }
}

/// The general branch meets the solution invariants.
proof fn lemma_general_invariants(tilt_deg: int, day: int, night: int, max_height: int)
    requires
        -FX_DEG_90 <= tilt_deg <= FX_DEG_90,
    ensures
        match general_case_spec(tilt_deg, day, night, max_height) {
            SolveOutcome::Solution(s) => abs_i(s.declination_degrees as int) <= abs_i(tilt_deg)
                + FX_SOLUTION_TOL && 0 <= s.year_fraction < FX_ONE && abs_i(
                s.latitude_degrees as int,
            ) <= (FX_DEG_90 as int) + FX_SOLUTION_TOL,
            _ => true,
        },
{
    let o = general_case_spec(tilt_deg, day, night, max_height);
    if o is Solution {
        let df = crate::solve::day_fraction_spec(day, night);
        let mh_rad = fx_mul_spec(max_height, FX_DEG2RAD as int);
        let c = crate::trig::cos_val(fx_mul_spec(crate::trig::FX_PI as int, df));
        let s_h = crate::trig::sin_val(mh_rad);
        let rhs = crate::fx::fx_div_spec(
            fx_mul_spec(s_h, (FX_ONE as int) + c),
            (FX_ONE as int) - c,
        );
        let beta = crate::trig::acos_val(crate::fx::clamp_spec(rhs, -FX_ONE as int, FX_ONE as int));
        let alpha = (crate::trig::FX_HALF_PI as int) - mh_rad;
        lemma_select_valid(alpha, beta, tilt_deg, df);
        let sel = select_candidate_spec(alpha, beta, tilt_deg, df);
        if let Option::Some(cand) = sel {
            let tilt_rad = crate::solve::tilt_rad_spec(tilt_deg);
            if tilt_rad < FX_EPS {
            } else {
                let ratio = crate::fx::clamp_spec(
                    crate::fx::fx_div_spec(cand.1, tilt_rad),
                    -FX_ONE as int,
                    FX_ONE as int,
                );
                let phi = crate::trig::asin_val(ratio);
                let phi_frac = crate::fx::fx_div_spec(phi, crate::trig::FX_TWO_PI as int);
                let yf1 = if cand.1 >= 0 {
                    phi_frac
                } else {
                    (FX_ONE as int) + phi_frac
                };
                let yf2 = (crate::solve::FX_HALF as int) - phi_frac;
                let target = if cand.1 >= 0 {
                    crate::solve::FX_QUARTER as int
                } else {
                    crate::solve::FX_THREE_QUARTERS as int
                };
                let chosen = if abs_i(target - yf1) < abs_i(target - yf2) {
                    yf1
                } else {
                    yf2
                };
                lemma_mod_bound(chosen, FX_ONE as int);
            }
        }
    }
}

/// Rearranging a squared product.
proof fn lemma_sq_swap(a: int, b: int)
    by (nonlinear_arith)
    ensures
        (a * b) * (a * b) == a * a * (b * b),
{
}

/// Expanding a squared difference.
proof fn lemma_sq_sub(v: int, e: int)
    by (nonlinear_arith)
    ensures
        (v - e) * (v - e) == v * v - 2 * v * e + e * e,
{
}

/// Squaring an exact division identity.
proof fn lemma_norm_sq_identity(nc: int, n: int, c: int, k: int, e: int)
    requires
        nc * n == c * k - e,
    ensures
        nc * nc * (n * n) == c * c * (k * k) - 2 * (c * k) * e + e * e,
{
    lemma_sq_swap(nc, n);
    lemma_sq_swap(c, k);
    assert((nc * n) * (nc * n) == (c * k - e) * (c * k - e));
    lemma_sq_sub(c * k, e);
}

/// Summing the three squared identities.
proof fn lemma_norm_sum(
    nx: int,
    ny: int,
    nz: int,
    n: int,
    x: int,
    y: int,
    z: int,
    k: int,
    ex: int,
    ey: int,
    ez: int,
)
    by (nonlinear_arith)
    requires
        nx * nx * (n * n) == x * x * (k * k) - 2 * (x * k) * ex + ex * ex,
        ny * ny * (n * n) == y * y * (k * k) - 2 * (y * k) * ey + ey * ey,
        nz * nz * (n * n) == z * z * (k * k) - 2 * (z * k) * ez + ez * ez,
    ensures
        (nx * nx + ny * ny + nz * nz) * (n * n) == (x * x + y * y + z * z) * (k * k) - 2 * k * (x
            * ex + y * ey + z * ez) + (ex * ex + ey * ey + ez * ez),
{
    lemma_distrib3(nx * nx, ny * ny, nz * nz, n * n);
    lemma_distrib3(x * x, y * y, z * z, k * k);
    lemma_regroup(x, k, ex);
    lemma_regroup(y, k, ey);
    lemma_regroup(z, k, ez);
    lemma_distrib3(x * ex, y * ey, z * ez, 2 * k);
}

/// Distributing a factor over a three-part sum.
proof fn lemma_distrib3(p: int, q: int, r: int, m: int)
    by (nonlinear_arith)
    ensures
        (p + q + r) * m == p * m + q * m + r * m,
{
}

/// Regrouping a doubled triple product.
proof fn lemma_regroup(x: int, k: int, e: int)
    by (nonlinear_arith)
    ensures
        2 * (x * k) * e == (x * e) * (2 * k),
{
}

/// The mixed error terms stay within three squared roots.
proof fn lemma_norm_dot_bound(x: int, y: int, z: int, ex: int, ey: int, ez: int, n: int)
    by (nonlinear_arith)
    requires
        abs_i(x) <= n,
        abs_i(y) <= n,
        abs_i(z) <= n,
        abs_i(ex) < n,
        abs_i(ey) < n,
        abs_i(ez) < n,
        1 <= n,
    ensures
        abs_i(x * ex + y * ey + z * ez) <= 3 * (n * n),
        0 <= ex * ex + ey * ey + ez * ez <= 3 * (n * n),
{
}

/// Assemble the error budget and cancel the square of the root.
proof fn lemma_norm_assemble(q: int, n: int, s: int, k: int, d: int, e2: int)
    requires
        q * (n * n) == s * (k * k) - 2 * k * d + e2,
        abs_i(d) <= 3 * (n * n),
        0 <= e2 <= 3 * (n * n),
        0 <= s - n * n <= 2 * n,
        1 <= n,
        4 * n >= k,
        0 < k,
    ensures
        abs_i(q - k * k) <= 18 * k + 3,
{
    let a = q - k * k;
    assert(a * (n * n) == (s - n * n) * (k * k) - 2 * k * d + e2) by (nonlinear_arith)
        requires
            q * (n * n) == s * (k * k) - 2 * k * d + e2,
            a == q - k * k,
    ;
    assert(abs_i((s - n * n) * (k * k)) <= 2 * n * (k * k)) by (nonlinear_arith)
        requires
            0 <= s - n * n <= 2 * n,
            0 < k,
    ;
    assert(abs_i(2 * k * d) <= 6 * k * (n * n)) by (nonlinear_arith)
        requires
            abs_i(d) <= 3 * (n * n),
            0 < k,
    ;
    assert(abs_i(a * (n * n)) <= 2 * n * (k * k) + 6 * k * (n * n) + 3 * (n * n))
        by (nonlinear_arith)
        requires
            a * (n * n) == (s - n * n) * (k * k) - 2 * k * d + e2,
            abs_i((s - n * n) * (k * k)) <= 2 * n * (k * k),
            abs_i(2 * k * d) <= 6 * k * (n * n),
            0 <= e2 <= 3 * (n * n),
    ;
    assert(2 * n * (k * k) <= 8 * k * (n * n)) by (nonlinear_arith)
        requires
            k <= 4 * n,
            0 < k,
            1 <= n,
    ;
    assert(abs_i(a) <= 18 * k + 3) by (nonlinear_arith)
        requires
            abs_i(a * (n * n)) <= 2 * n * (k * k) + 6 * k * (n * n) + 3 * (n * n),
            2 * n * (k * k) <= 8 * k * (n * n),
            1 <= n,
            0 < k,
    ;
}

/// Law: normalization returns a unit vector. For any vector of length at
/// least a quarter unit, the squared length of its normalized image
/// differs from one (in Q32.32, from `FX_ONE` squared) by at most
/// `18 * FX_ONE + 3`, a relative error under five billionths.
pub proof fn lemma_normalize_unit_length(x: int, y: int, z: int)
    requires
        abs_i(x) <= 0x400000000,
        abs_i(y) <= 0x400000000,
        abs_i(z) <= 0x400000000,
        x * x + y * y + z * z >= 0x1000000000000000,
    ensures
        ({
            let v = crate::sun::normalize_spec(x, y, z);
            abs_i(
                v.0 * v.0 + v.1 * v.1 + v.2 * v.2 - (FX_ONE as int) * (FX_ONE as int),
            ) <= 18 * (FX_ONE as int) + 3
        }),
{
    let k = FX_ONE as int;
    let s = x * x + y * y + z * z;
    crate::fx::lemma_isqrt_exists(s);
    let n = crate::fx::isqrt_spec(s);
    assert(crate::fx::is_isqrt(n, s));
    assert(n >= 0x40000000) by (nonlinear_arith)
        requires
            crate::fx::is_isqrt(n, s),
            s >= 0x1000000000000000,
    ;

    let v = crate::sun::normalize_spec(x, y, z);
    let nx = v.0;
    let ny = v.1;
    let nz = v.2;
    assert(nx == tdiv(x * k, n) && ny == tdiv(y * k, n) && nz == tdiv(z * k, n));

    // Remainders of the three component divisions.
    crate::fx::lemma_tdiv_rem(x * k, n);
    crate::fx::lemma_tdiv_rem(y * k, n);
    crate::fx::lemma_tdiv_rem(z * k, n);
    let ex = x * k - nx * n;
    let ey = y * k - ny * n;
    let ez = z * k - nz * n;

    // Each component is dominated by the root of the summed squares.
    assert(abs_i(x) <= n && abs_i(y) <= n && abs_i(z) <= n) by (nonlinear_arith)
        requires
            crate::fx::is_isqrt(n, s),
            s == x * x + y * y + z * z,
    ;

    lemma_norm_sq_identity(nx, n, x, k, ex);
    lemma_norm_sq_identity(ny, n, y, k, ey);
    lemma_norm_sq_identity(nz, n, z, k, ez);
    lemma_norm_sum(nx, ny, nz, n, x, y, z, k, ex, ey, ez);
    lemma_norm_dot_bound(x, y, z, ex, ey, ez, n);
    assert(0 <= s - n * n <= 2 * n) by (nonlinear_arith)
        requires
            crate::fx::is_isqrt(n, s),
    ;
    lemma_norm_assemble(
        nx * nx + ny * ny + nz * nz,
        n,
        s,
        k,
        x * ex + y * ey + z * ez,
        ex * ex + ey * ey + ez * ez,
    );
}

/// The image of a selection under negation of both components.
pub open spec fn negate_pair_opt(o: Option<(int, int)>) -> Option<(int, int)> {
    match o {
        Option::None => Option::None,
        Option::Some(c) => Option::Some((-c.0, -c.1)),
    }
}

/// Converting a nonzero radian value to degrees keeps its sign and
/// magnitude at least one unit.
proof fn lemma_deg_sign(x: int)
    requires
        x != 0,
    ensures
        x > 0 ==> fx_mul_spec(x, FX_RAD2DEG as int) >= 1,
        x < 0 ==> fx_mul_spec(x, FX_RAD2DEG as int) <= -1,
{
    let y = abs_i(x);
    assert(y * (FX_RAD2DEG as int) >= FX_RAD2DEG as int) by (nonlinear_arith)
        requires
            y >= 1,
    ;
    assert(abs_i(y * (FX_RAD2DEG as int)) / (FX_ONE as int) >= 1) by (nonlinear_arith)
        requires
            y * (FX_RAD2DEG as int) >= FX_RAD2DEG as int,
    ;
    lemma_tdiv_abs(y * (FX_RAD2DEG as int), FX_ONE as int);
    assert(fx_mul_spec(y, FX_RAD2DEG as int) >= 1);
    if x < 0 {
        crate::fx::lemma_fx_mul_neg(y, FX_RAD2DEG as int);
        assert(-y == x);
    }
}

/// Law: swapping the day-length preference (asking for a long day instead
/// of a short one, or the reverse) mirrors the selected candidate across
/// the equator: the chosen latitude and declination both negate. This
/// captures the hemisphere symmetry of the candidate search, and holds
/// whenever the two half-angles are distinguishable (they differ by at
/// least two raw units, about a nanoradian), so that no candidate sits
/// exactly on the equator or on zero declination.
#[verifier::rlimit(80)]
#[verifier::spinoff_prover]
pub proof fn lemma_select_hemisphere_symmetry(
    alpha: int,
    beta: int,
    tilt_deg: int,
    df_long: int,
    df_short: int,
)
    requires
        0 <= alpha <= 0x300000000,
        0 <= beta <= 0x300000000,
        abs_i(beta - alpha) >= 2,
        df_long > crate::solve::FX_HALF as int,
        df_short < crate::solve::FX_HALF as int,
    ensures
        select_candidate_spec(alpha, beta, tilt_deg, df_short) == negate_pair_opt(
            select_candidate_spec(alpha, beta, tilt_deg, df_long),
        ),
{
    let c0 = crate::solve::candidate_spec(alpha, beta, 0);
    let c1 = crate::solve::candidate_spec(alpha, beta, 1);
    let c2 = crate::solve::candidate_spec(alpha, beta, 2);
    let c3 = crate::solve::candidate_spec(alpha, beta, 3);

    // The list is closed under negation: the last two candidates mirror the
    // first two.
    crate::fx::lemma_tdiv_neg(alpha + beta, 2);
    crate::fx::lemma_tdiv_neg(beta - alpha, 2);
    crate::fx::lemma_tdiv_neg(alpha - beta, 2);
    crate::fx::lemma_tdiv_neg(-beta - alpha, 2);
    assert(c3 == (-c0.0, -c0.1));
    assert(c2 == (-c1.0, -c1.1));

    // Degree conversions negate along with the radian values.
    crate::fx::lemma_fx_mul_neg(c0.0, FX_RAD2DEG as int);
    crate::fx::lemma_fx_mul_neg(c0.1, FX_RAD2DEG as int);
    crate::fx::lemma_fx_mul_neg(c1.0, FX_RAD2DEG as int);
    crate::fx::lemma_fx_mul_neg(c1.1, FX_RAD2DEG as int);

    // Validity is blind to the mirroring.
    assert(candidate_valid_spec(c3, tilt_deg) == candidate_valid_spec(c0, tilt_deg));
    assert(candidate_valid_spec(c2, tilt_deg) == candidate_valid_spec(c1, tilt_deg));

    // No component is zero, so every candidate has a definite sign pair,
    // and all four share the same sign product.
    assert(alpha + beta >= 2);
    assert(c0.0 >= 1 && abs_i(c0.1) >= 1 && abs_i(c1.0) >= 1 && c1.1 <= -1) by {
        lemma_tdiv_abs(alpha + beta, 2);
        lemma_tdiv_abs(beta - alpha, 2);
        lemma_tdiv_abs(alpha - beta, 2);
        lemma_tdiv_abs(-beta - alpha, 2);
    }
    lemma_deg_sign(c0.0);
    lemma_deg_sign(c0.1);
    lemma_deg_sign(c1.0);
    lemma_deg_sign(c1.1);
    crate::fx::lemma_sgn1_product(
        fx_mul_spec(c0.0, FX_RAD2DEG as int),
        fx_mul_spec(c0.1, FX_RAD2DEG as int),
    );
    crate::fx::lemma_sgn1_product(
        fx_mul_spec(c1.0, FX_RAD2DEG as int),
        fx_mul_spec(c1.1, FX_RAD2DEG as int),
    );
    crate::fx::lemma_sgn1_product(
        fx_mul_spec(c2.0, FX_RAD2DEG as int),
        fx_mul_spec(c2.1, FX_RAD2DEG as int),
    );
    crate::fx::lemma_sgn1_product(
        fx_mul_spec(c3.0, FX_RAD2DEG as int),
        fx_mul_spec(c3.1, FX_RAD2DEG as int),
    );

    if beta > alpha {
        // Long-day preference matches every candidate, short-day none.
        assert(c0.1 >= 1 && c1.0 <= -1);
        assert(crate::solve::candidate_preferred_spec(c0, df_long));
        assert(crate::solve::candidate_preferred_spec(c1, df_long));
        assert(crate::solve::candidate_preferred_spec(c2, df_long));
        assert(crate::solve::candidate_preferred_spec(c3, df_long));
        assert(!crate::solve::candidate_preferred_spec(c0, df_short));
        assert(!crate::solve::candidate_preferred_spec(c1, df_short));
        assert(!crate::solve::candidate_preferred_spec(c2, df_short));
        assert(!crate::solve::candidate_preferred_spec(c3, df_short));
    } else {
        // Short-day preference matches every candidate, long-day none.
        assert(c0.1 <= -1 && c1.0 >= 1);
        assert(crate::solve::candidate_preferred_spec(c0, df_short));
        assert(crate::solve::candidate_preferred_spec(c1, df_short));
        assert(crate::solve::candidate_preferred_spec(c2, df_short));
        assert(crate::solve::candidate_preferred_spec(c3, df_short));
        assert(!crate::solve::candidate_preferred_spec(c0, df_long));
        assert(!crate::solve::candidate_preferred_spec(c1, df_long));
        assert(!crate::solve::candidate_preferred_spec(c2, df_long));
        assert(!crate::solve::candidate_preferred_spec(c3, df_long));
    }
}

/// Law: the mirror symmetry also holds when the two half-angles coincide,
/// provided the mirrored-declination candidates fail the validity filter
/// (when they pass, the tie-break itself picks the answer and the symmetry
/// genuinely breaks).
#[verifier::rlimit(80)]
#[verifier::spinoff_prover]
pub proof fn lemma_select_hemisphere_symmetry_equal(
    alpha: int,
    tilt_deg: int,
    df_long: int,
    df_short: int,
)
    requires
        1 <= alpha <= 0x300000000,
        !candidate_valid_spec(crate::solve::candidate_spec(alpha, alpha, 1), tilt_deg),
        df_long > crate::solve::FX_HALF as int,
        df_short < crate::solve::FX_HALF as int,
    ensures
        select_candidate_spec(alpha, alpha, tilt_deg, df_short) == negate_pair_opt(
            select_candidate_spec(alpha, alpha, tilt_deg, df_long),
        ),
{
    let c0 = crate::solve::candidate_spec(alpha, alpha, 0);
    let c1 = crate::solve::candidate_spec(alpha, alpha, 1);
    let c2 = crate::solve::candidate_spec(alpha, alpha, 2);
    let c3 = crate::solve::candidate_spec(alpha, alpha, 3);
    assert(tdiv(alpha + alpha, 2) == alpha) by {
        vstd::arithmetic::div_mod::lemma_div_multiples_vanish(alpha, 2);
        assert(abs_i(alpha + alpha) == 2 * alpha);
    }
    assert(tdiv(0, 2) == 0) by {
        lemma_tdiv_abs(0, 2);
    }
    crate::fx::lemma_tdiv_neg(alpha + alpha, 2);
    crate::fx::lemma_tdiv_neg(alpha - alpha, 2);
    assert(c0 == (alpha, 0int) && c3 == (-alpha, 0int));
    assert(c2 == (-c1.0, -c1.1));

    crate::fx::lemma_fx_mul_neg(c0.0, FX_RAD2DEG as int);
    crate::fx::lemma_fx_mul_neg(c0.1, FX_RAD2DEG as int);
    crate::fx::lemma_fx_mul_neg(c1.0, FX_RAD2DEG as int);
    crate::fx::lemma_fx_mul_neg(c1.1, FX_RAD2DEG as int);
    assert(candidate_valid_spec(c3, tilt_deg) == candidate_valid_spec(c0, tilt_deg));
    assert(candidate_valid_spec(c2, tilt_deg) == candidate_valid_spec(c1, tilt_deg));

    lemma_deg_sign(alpha);
    assert(fx_mul_spec(0, FX_RAD2DEG as int) == 0) by {
        lemma_tdiv_abs(0, FX_ONE as int);
    }
    crate::fx::lemma_sgn1_product(
        fx_mul_spec(c0.0, FX_RAD2DEG as int),
        fx_mul_spec(c0.1, FX_RAD2DEG as int),
    );
    crate::fx::lemma_sgn1_product(
        fx_mul_spec(c3.0, FX_RAD2DEG as int),
        fx_mul_spec(c3.1, FX_RAD2DEG as int),
    );
    assert(!crate::solve::candidate_preferred_spec(c0, df_short));
    assert(crate::solve::candidate_preferred_spec(c0, df_long));
    assert(crate::solve::candidate_preferred_spec(c3, df_short));
}

/// Law: with no axial tilt a solution can only sit at an equinox — the
/// year fraction is zero and the declination vanishes (within tolerance).
pub proof fn lemma_zero_tilt_solution(day: int, night: int, max_height: int)
    ensures
        match solve_outcome_spec(0, day, night, max_height) {
            SolveOutcome::Solution(s) => s.year_fraction == 0 && abs_i(
                s.declination_degrees as int,
            ) <= FX_EPS,
            _ => true,
        },
{
    let o = solve_outcome_spec(0, day, night, max_height);
    if o is Solution {
        assert(crate::solve::tilt_rad_spec(0) == 0);
        let df = crate::solve::day_fraction_spec(day, night);
        let mh_rad = fx_mul_spec(max_height, FX_DEG2RAD as int);
        let c = crate::trig::cos_val(fx_mul_spec(crate::trig::FX_PI as int, df));
        let s_h = crate::trig::sin_val(mh_rad);
        let rhs = crate::fx::fx_div_spec(
            fx_mul_spec(s_h, (FX_ONE as int) + c),
            (FX_ONE as int) - c,
        );
        let beta = crate::trig::acos_val(crate::fx::clamp_spec(rhs, -FX_ONE as int, FX_ONE as int));
        let alpha = (crate::trig::FX_HALF_PI as int) - mh_rad;
        lemma_select_valid(alpha, beta, 0, df);
    }
}

} // verus!
