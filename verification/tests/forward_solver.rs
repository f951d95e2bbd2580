//! Tests for the forward solver: boundary directions, the unit-length
//! invariant, and round trips against the inverse solver.

use sun_sky::solve::{calculate_latitude_yearfraction, SolveOutcome};
use sun_sky::sun::calculate_sun_direction;

const ONE: f64 = 4294967296.0;
const PI: f64 = std::f64::consts::PI;

fn fx(v: f64) -> i64 {
    (v * ONE).round() as i64
}

fn fl(v: i64) -> f64 {
    v as f64 / ONE
}

#[test]
fn noon_equator_equinox_points_up() {
    let d = calculate_sun_direction(fx(0.5), 0, 0, 0);
    assert!(fl(d.x_east).abs() < 1e-4);
    assert!((fl(d.y_up) - 1.0).abs() < 1e-4);
    assert!(fl(d.z_north).abs() < 1e-4);
}

#[test]
fn midnight_equator_equinox_points_down() {
    let d = calculate_sun_direction(0, 0, 0, 0);
    assert!(fl(d.x_east).abs() < 1e-4);
    assert!((fl(d.y_up) + 1.0).abs() < 1e-4);
    assert!(fl(d.z_north).abs() < 1e-4);
}

#[test]
fn quarter_day_sun_sits_on_horizon() {
    // A quarter into the day the hour angle is minus a quarter turn: the
    // sun sits on the horizon along the negative X axis (the hour-angle
    // sign convention carries the morning sun to -X and the afternoon sun
    // to +X).
    let d = calculate_sun_direction(fx(0.25), 0, 0, 0);
    assert!((fl(d.x_east) + 1.0).abs() < 1e-4);
    assert!(fl(d.y_up).abs() < 1e-4);
}

#[test]
fn mid_morning_direction_matches_closed_form() {
    // An hour fraction of 0.375 puts the hour angle at minus an eighth of
    // a turn: horizontal component -sin(45deg), up component cos(45deg).
    // A sine or cosine that merely echoed its argument would miss this.
    let d = calculate_sun_direction(fx(0.375), 0, 0, 0);
    let s = (PI / 4.0).sin();
    assert!((fl(d.x_east) + s).abs() < 1e-3);
    assert!((fl(d.y_up) - s).abs() < 1e-3);
    assert!(fl(d.z_north).abs() < 1e-3);
}

#[test]
fn high_latitude_winter_noon_stays_low() {
    // Helsinki-like latitude at the winter solstice: the noon sun peaks at
    // 90 - lat + dec degrees.
    let lat = 60.0_f64.to_radians();
    let tilt = 23.5_f64.to_radians();
    let d = calculate_sun_direction(fx(0.5), fx(lat), fx(tilt), fx(0.75));
    let altitude = fl(d.y_up).asin().to_degrees();
    assert!((altitude - (90.0 - 60.0 - 23.5)).abs() < 0.1);
}

#[test]
fn unit_length_over_sampled_domain() {
    // A thousand pseudo-random inputs across the valid domains: the
    // returned vector always has length one within 1e-5.
    let mut state: u64 = 0x853c49e6748fea9b;
    let mut next = move || {
        state = state
            .wrapping_mul(6364136223846793005)
            .wrapping_add(1442695040888963407);
        (state >> 11) as f64 / (1u64 << 53) as f64
    };
    for _ in 0..1000 {
        let hf = next();
        let lat = (next() - 0.5) * PI;
        let tilt = next() * PI / 2.0;
        let yf = next();
        let d = calculate_sun_direction(fx(hf), fx(lat), fx(tilt), fx(yf));
        let n = (fl(d.x_east).powi(2) + fl(d.y_up).powi(2) + fl(d.z_north).powi(2)).sqrt();
        assert!(
            (n - 1.0).abs() < 1e-5,
            "length {} off unit at hf={} lat={} tilt={} yf={}",
            n,
            hf,
            lat,
            tilt,
            yf
        );
    }
}

#[test]
fn round_trip_noon_altitude() {
    // Feed the inverse solver's answer back into the forward solver: at
    // noon the sun must reach the requested maximum height.
    let s = match calculate_latitude_yearfraction(fx(23.5), fx(18.0), fx(12.0), fx(35.0)) {
        SolveOutcome::Solution(s) => s,
        other => panic!("expected a solution, got {:?}", other),
    };
    let lat_rad = fl(s.latitude_degrees).to_radians();
    let tilt_rad = 23.5_f64.to_radians();
    let d = calculate_sun_direction(fx(0.5), fx(lat_rad), fx(tilt_rad), s.year_fraction);
    let altitude = fl(d.y_up).asin().to_degrees();
    assert!((altitude - 35.0).abs() < 0.05, "noon altitude {}", altitude);
}

#[test]
fn round_trip_sunset_altitude() {
    // The same answer at the sunset hour: altitude within a sliver of the
    // horizon. Day fraction 0.6 puts sunset at hour fraction 0.8.
    let s = match calculate_latitude_yearfraction(fx(23.5), fx(18.0), fx(12.0), fx(35.0)) {
        SolveOutcome::Solution(s) => s,
        other => panic!("expected a solution, got {:?}", other),
    };
    let lat_rad = fl(s.latitude_degrees).to_radians();
    let tilt_rad = 23.5_f64.to_radians();
    let d = calculate_sun_direction(fx(0.8), fx(lat_rad), fx(tilt_rad), s.year_fraction);
    let altitude = fl(d.y_up).asin().to_degrees();
    assert!(altitude.abs() < 0.3, "sunset altitude {}", altitude);
}

#[test]
fn round_trip_sunrise_altitude() {
    let s = match calculate_latitude_yearfraction(fx(23.5), fx(18.0), fx(12.0), fx(35.0)) {
        SolveOutcome::Solution(s) => s,
        other => panic!("expected a solution, got {:?}", other),
    };
    let lat_rad = fl(s.latitude_degrees).to_radians();
    let tilt_rad = 23.5_f64.to_radians();
    let d = calculate_sun_direction(fx(0.2), fx(lat_rad), fx(tilt_rad), s.year_fraction);
    let altitude = fl(d.y_up).asin().to_degrees();
    assert!(altitude.abs() < 0.3, "sunrise altitude {}", altitude);
}

#[test]
fn hour_fraction_wraps_by_whole_days() {
    let a = calculate_sun_direction(fx(0.3), fx(0.5), fx(0.4), fx(0.1));
    let b = calculate_sun_direction(fx(2.3), fx(0.5), fx(0.4), fx(0.1));
    assert!((fl(a.x_east) - fl(b.x_east)).abs() < 1e-5);
    assert!((fl(a.y_up) - fl(b.y_up)).abs() < 1e-5);
    assert!((fl(a.z_north) - fl(b.z_north)).abs() < 1e-5);
}
