//! Tests for the inverse solvers: branch selection, failure reasons, and
//! the numeric values of solved configurations.

use sun_sky::solve::{
    calculate_latitude_yearfraction, calculate_timed_sky_center_params, SimpleOutcome,
    SkySolution, SolveOutcome, FX_QUARTER, FX_THREE_QUARTERS,
};

const ONE: f64 = 4294967296.0;

fn fx(v: f64) -> i64 {
    (v * ONE).round() as i64
}

fn fl(v: i64) -> f64 {
    v as f64 / ONE
}

fn solution(o: SolveOutcome) -> SkySolution {
    match o {
        SolveOutcome::Solution(s) => s,
        other => panic!("expected a solution, got {:?}", other),
    }
}

#[test]
fn invalid_duration_negative_day() {
    let o = calculate_latitude_yearfraction(fx(23.5), fx(-1.0), fx(10.0), 0);
    assert!(matches!(o, SolveOutcome::InvalidDuration));
}

#[test]
fn invalid_duration_zero_total() {
    let o = calculate_latitude_yearfraction(fx(23.5), 0, 0, fx(10.0));
    assert!(matches!(o, SolveOutcome::InvalidDuration));
}

#[test]
fn invalid_elevation_above_zenith() {
    let o = calculate_latitude_yearfraction(fx(23.5), fx(10.0), fx(10.0), fx(91.0));
    assert!(matches!(o, SolveOutcome::InvalidElevation));
}

#[test]
fn invalid_elevation_below_horizon() {
    let o = calculate_latitude_yearfraction(fx(23.5), fx(10.0), fx(10.0), fx(-1.0));
    assert!(matches!(o, SolveOutcome::InvalidElevation));
}

#[test]
fn perpetual_night_exact() {
    // Day length zero with a zero maximum height: the polar-circle winter.
    let s = solution(calculate_latitude_yearfraction(fx(23.5), 0, fx(10.0), 0));
    assert_eq!(s.latitude_degrees, fx(-66.5));
    assert_eq!(s.year_fraction, FX_THREE_QUARTERS);
    assert_eq!(s.declination_degrees, fx(-23.5));
}

#[test]
fn perpetual_night_negative_tilt_mirrors() {
    let s = solution(calculate_latitude_yearfraction(fx(-23.5), 0, fx(10.0), 0));
    assert_eq!(s.latitude_degrees, fx(66.5));
    assert_eq!(s.year_fraction, FX_QUARTER);
    assert_eq!(s.declination_degrees, fx(23.5));
}

#[test]
fn perpetual_night_with_height_infeasible() {
    let o = calculate_latitude_yearfraction(fx(23.5), 0, fx(10.0), fx(5.0));
    assert!(matches!(o, SolveOutcome::Infeasible));
}

#[test]
fn perpetual_night_zero_tilt_infeasible() {
    let o = calculate_latitude_yearfraction(0, 0, fx(10.0), 0);
    assert!(matches!(o, SolveOutcome::Infeasible));
}

#[test]
fn perpetual_day_basic() {
    // Max height 20 degrees forces a declination of 10 degrees and a
    // latitude of 80 degrees.
    let s = solution(calculate_latitude_yearfraction(fx(23.5), fx(10.0), 0, fx(20.0)));
    assert!((fl(s.latitude_degrees) - 80.0).abs() < 1e-3);
    assert!((fl(s.declination_degrees) - 10.0).abs() < 1e-3);
    let expected_yf = (10.0_f64 / 23.5).asin() / (2.0 * std::f64::consts::PI);
    assert!((fl(s.year_fraction) - expected_yf).abs() < 1e-3);
}

#[test]
fn perpetual_day_zero_height_infeasible() {
    let o = calculate_latitude_yearfraction(fx(23.5), fx(10.0), 0, 0);
    assert!(matches!(o, SolveOutcome::Infeasible));
}

#[test]
fn perpetual_day_height_beyond_tilt_infeasible() {
    // A 60 degree noon sun would need a 30 degree declination, above the
    // 23.5 degree tilt.
    let o = calculate_latitude_yearfraction(fx(23.5), fx(10.0), 0, fx(60.0));
    assert!(matches!(o, SolveOutcome::Infeasible));
}

#[test]
fn perpetual_day_zero_tilt_infeasible() {
    let o = calculate_latitude_yearfraction(0, fx(10.0), 0, fx(20.0));
    assert!(matches!(o, SolveOutcome::Infeasible));
}

#[test]
fn equal_split_zero_height_degenerates_to_pole() {
    // A 12/12 cycle with the sun peaking at the horizon: the solver keeps
    // the last valid candidate, the south pole with the sun circling the
    // horizon.
    let s = solution(calculate_latitude_yearfraction(fx(23.5), fx(15.0), fx(15.0), 0));
    assert!((fl(s.latitude_degrees) + 90.0).abs() < 1e-3);
    assert!(fl(s.declination_degrees).abs() < 1e-3);
}

#[test]
fn zero_tilt_unequal_split_infeasible() {
    let o = calculate_latitude_yearfraction(0, fx(10.0), fx(5.0), fx(45.0));
    assert!(matches!(o, SolveOutcome::Infeasible));
    let o = calculate_latitude_yearfraction(0, fx(10.0), fx(5.0), fx(30.0));
    assert!(matches!(o, SolveOutcome::Infeasible));
}

#[test]
fn zero_tilt_zenith_request_infeasible() {
    // A zenith sun on an equal split with no tilt is the equator at an
    // equinox, but the quarter-turn trigonometric residue (cosine of a
    // right angle does not evaluate to exactly zero) pushes the candidate
    // declination past the zero-tilt filter, so the request is reported
    // infeasible rather than solved.
    let o = calculate_latitude_yearfraction(0, fx(12.0), fx(12.0), fx(90.0));
    assert!(matches!(o, SolveOutcome::Infeasible));
}

#[test]
fn general_case_matches_spherical_trigonometry() {
    // day 18 / night 12 with a 35 degree noon sun: the identities give
    // latitude 63.7 degrees and declination 8.7 degrees.
    let s = solution(calculate_latitude_yearfraction(fx(23.5), fx(18.0), fx(12.0), fx(35.0)));
    assert!((fl(s.latitude_degrees) - 63.68).abs() < 0.05);
    assert!((fl(s.declination_degrees) - 8.68).abs() < 0.05);
}

#[test]
fn day_night_swap_asymmetry() {
    // Swapping day and night is not a pure hemisphere flip: with a high
    // noon sun the short-day request becomes geometrically infeasible
    // while the long-day one solves.
    let short_day = calculate_latitude_yearfraction(fx(23.5), fx(10.0), fx(20.0), fx(40.0));
    assert!(matches!(short_day, SolveOutcome::Infeasible));
    let long_day = solution(calculate_latitude_yearfraction(fx(23.5), fx(20.0), fx(10.0), fx(40.0)));
    assert!((fl(long_day.latitude_degrees) - 63.82).abs() < 0.05);
}

#[test]
fn latitude_monotone_in_day_fraction() {
    // Holding tilt and max height fixed, a longer day pulls the latitude
    // further toward the summer hemisphere (skipping the exactly equal
    // split, whose tie-break jumps hemisphere).
    let cases = [(7.0, 13.0), (8.0, 12.0), (9.0, 11.0), (11.0, 9.0), (12.0, 8.0), (13.0, 7.0)];
    let mut last = f64::NEG_INFINITY;
    for (day, night) in cases {
        let s = solution(calculate_latitude_yearfraction(fx(23.5), fx(day), fx(night), fx(10.0)));
        let lat = fl(s.latitude_degrees);
        assert!(lat > last, "latitude {} not above {} at day {}", lat, last, day);
        last = lat;
    }
}

#[test]
fn solution_invariants_on_samples() {
    // Wherever the solver answers, the declination stays within the tilt,
    // the year fraction within [0, 1), and the latitude within a quarter
    // turn (all within tolerance).
    let tilts = [0.0, 5.0, 23.5, 45.0, 80.0];
    let heights = [0.0, 10.0, 45.0, 89.0];
    let splits = [(0.0, 10.0), (10.0, 0.0), (6.0, 18.0), (12.0, 12.0), (18.0, 6.0)];
    for &t in &tilts {
        for &h in &heights {
            for &(d, n) in &splits {
                if let SolveOutcome::Solution(s) =
                    calculate_latitude_yearfraction(fx(t), fx(d), fx(n), fx(h))
                {
                    assert!(fl(s.declination_degrees).abs() <= t + 1e-4);
                    assert!(fl(s.year_fraction) >= 0.0 && fl(s.year_fraction) < 1.0);
                    assert!(fl(s.latitude_degrees).abs() <= 90.0 + 1e-4);
                }
            }
        }
    }
}

#[test]
fn perpetual_night_at_maximal_tilt() {
    // A planet lying on its side: the polar circle collapses onto the
    // equator.
    let s = solution(calculate_latitude_yearfraction(fx(90.0), 0, fx(10.0), 0));
    assert_eq!(s.latitude_degrees, 0);
    assert_eq!(s.year_fraction, FX_THREE_QUARTERS);
    assert_eq!(s.declination_degrees, fx(-90.0));
}

#[test]
fn legacy_maximal_tilt_infeasible() {
    // At a 90 degree tilt the solstice declination is a right angle and
    // its tangent has no finite value; the division guard reports the
    // request infeasible.
    let o = calculate_timed_sky_center_params(fx(90.0), fx(20.0), fx(10.0));
    assert!(matches!(o, SimpleOutcome::Infeasible));
}

#[test]
fn legacy_invalid_duration() {
    let o = calculate_timed_sky_center_params(fx(23.5), fx(-1.0), fx(10.0));
    assert!(matches!(o, SimpleOutcome::InvalidDuration));
}

#[test]
fn legacy_rejects_perpetual_night() {
    let o = calculate_timed_sky_center_params(fx(23.5), 0, fx(10.0));
    assert!(matches!(o, SimpleOutcome::UnsupportedPolarCase));
}

#[test]
fn legacy_rejects_perpetual_day() {
    let o = calculate_timed_sky_center_params(fx(23.5), fx(10.0), 0);
    assert!(matches!(o, SimpleOutcome::UnsupportedPolarCase));
}

#[test]
fn legacy_zero_tilt_equal_split() {
    match calculate_timed_sky_center_params(0, fx(10.0), fx(10.0)) {
        SimpleOutcome::Solution(s) => {
            assert_eq!(s.latitude_degrees, 0);
            assert_eq!(s.year_fraction, FX_QUARTER);
        }
        other => panic!("expected a solution, got {:?}", other),
    }
}

#[test]
fn legacy_zero_tilt_unequal_split_infeasible() {
    let o = calculate_timed_sky_center_params(0, fx(10.0), fx(5.0));
    assert!(matches!(o, SimpleOutcome::Infeasible));
}

#[test]
fn legacy_long_day_latitude() {
    // Two thirds day at the solstice of a 23.5 degree tilt: the sunset
    // identity gives a latitude of 49 degrees.
    match calculate_timed_sky_center_params(fx(23.5), fx(20.0), fx(10.0)) {
        SimpleOutcome::Solution(s) => {
            assert!((fl(s.latitude_degrees) - 49.0).abs() < 0.1);
            assert_eq!(s.year_fraction, FX_QUARTER);
        }
        other => panic!("expected a solution, got {:?}", other),
    }
}

#[test]
fn legacy_equal_split_equator() {
    match calculate_timed_sky_center_params(fx(23.5), fx(10.0), fx(10.0)) {
        SimpleOutcome::Solution(s) => {
            assert!(fl(s.latitude_degrees).abs() < 1e-2);
        }
        other => panic!("expected a solution, got {:?}", other),
    }
}
