//! Tests for the rotation/frame helpers and the sky-center records.

use sun_sky::frame::{
    local_frame, planet_tilt_orientation, quat_mul, rot_x, rot_y, sky_rotation,
    sphere_orientation, QuatFx,
};
use sun_sky::sky::{SkyCenter, TimedSkyConfig, FX_15_SECS, FX_600_SECS, FX_45_DEG, FX_EARTH_TILT};

const ONE: f64 = 4294967296.0;

fn fx(v: f64) -> i64 {
    (v * ONE).round() as i64
}

fn fl(v: i64) -> f64 {
    v as f64 / ONE
}

fn qf(q: QuatFx) -> [f64; 4] {
    [fl(q.x), fl(q.y), fl(q.z), fl(q.w)]
}

fn rotate(q: [f64; 4], v: [f64; 3]) -> [f64; 3] {
    // q v q* for a unit quaternion q = (x, y, z, w).
    let [qx, qy, qz, qw] = q;
    let [vx, vy, vz] = v;
    let tx = 2.0 * (qy * vz - qz * vy);
    let ty = 2.0 * (qz * vx - qx * vz);
    let tz = 2.0 * (qx * vy - qy * vx);
    [
        vx + qw * tx + (qy * tz - qz * ty),
        vy + qw * ty + (qz * tx - qx * tz),
        vz + qw * tz + (qx * ty - qy * tx),
    ]
}

#[test]
fn rotation_quaternions_are_unit() {
    for q in [
        rot_x(fx(0.7)),
        rot_y(fx(-1.3)),
        sphere_orientation(fx(0.6), fx(2.1)),
        planet_tilt_orientation(fx(0.41), fx(0.3)),
        sky_rotation(fx(0.9), fx(0.25)),
    ] {
        let [x, y, z, w] = qf(q);
        let n = (x * x + y * y + z * z + w * w).sqrt();
        assert!((n - 1.0).abs() < 1e-4, "norm {}", n);
    }
}

#[test]
fn quat_mul_matches_hamilton_product() {
    let a = rot_x(fx(0.7));
    let b = rot_y(fx(-0.4));
    let c = quat_mul(a, b);
    let [ax, ay, az, aw] = qf(a);
    let [bx, by, bz, bw] = qf(b);
    let expect = [
        aw * bx + ax * bw + ay * bz - az * by,
        aw * by - ax * bz + ay * bw + az * bx,
        aw * bz + ax * by - ay * bx + az * bw,
        aw * bw - ax * bx - ay * by - az * bz,
    ];
    let got = qf(c);
    for i in 0..4 {
        assert!((got[i] - expect[i]).abs() < 1e-6);
    }
}

#[test]
fn sphere_orientation_carries_up_to_sphere_point() {
    let lat = 30.0_f64.to_radians();
    let lon = 40.0_f64.to_radians();
    let q = sphere_orientation(fx(lat), fx(lon));
    let p = rotate(qf(q), [0.0, 1.0, 0.0]);
    let expect = [lat.cos() * lon.sin(), lat.sin(), lat.cos() * lon.cos()];
    for i in 0..3 {
        assert!((p[i] - expect[i]).abs() < 1e-3, "component {} is {}", i, p[i]);
    }
}

#[test]
fn sky_rotation_fixes_the_celestial_pole() {
    let lat = 52.0_f64.to_radians();
    let q = sky_rotation(fx(lat), fx(0.37));
    let axis = [0.0, lat.sin(), lat.cos()];
    let p = rotate(qf(q), axis);
    for i in 0..3 {
        assert!((p[i] - axis[i]).abs() < 1e-3);
    }
}

#[test]
fn planet_tilt_orientation_tilts_the_pole() {
    // At year fraction zero the composition reduces to the plain tilt
    // about X: the up axis leans by the tilt angle toward +Z... the
    // rotated up vector keeps a cosine-of-tilt vertical component.
    let tilt = 23.5_f64.to_radians();
    let q = planet_tilt_orientation(fx(tilt), 0);
    let p = rotate(qf(q), [0.0, 1.0, 0.0]);
    assert!((p[1] - tilt.cos()).abs() < 1e-3);
}

#[test]
fn local_frame_is_orthonormal() {
    let lat = 35.0_f64.to_radians();
    let lon = (-70.0_f64).to_radians();
    let (east, up, north) = local_frame(fx(lat), fx(lon));
    let e = [fl(east.x), fl(east.y), fl(east.z)];
    let u = [fl(up.x), fl(up.y), fl(up.z)];
    let n = [fl(north.x), fl(north.y), fl(north.z)];
    let dot = |a: [f64; 3], b: [f64; 3]| a[0] * b[0] + a[1] * b[1] + a[2] * b[2];
    assert!((dot(e, e) - 1.0).abs() < 1e-4);
    assert!((dot(u, u) - 1.0).abs() < 1e-4);
    assert!((dot(n, n) - 1.0).abs() < 1e-4);
    assert!(dot(e, u).abs() < 1e-4);
    assert!(dot(e, n).abs() < 1e-4);
    assert!(dot(u, n).abs() < 1e-4);
}

#[test]
fn local_frame_up_is_radial() {
    let lat = 35.0_f64.to_radians();
    let lon = (-70.0_f64).to_radians();
    let (_, up, _) = local_frame(fx(lat), fx(lon));
    assert!((fl(up.x) - lat.cos() * lon.sin()).abs() < 1e-4);
    assert!((fl(up.y) - lat.sin()).abs() < 1e-4);
    assert!((fl(up.z) - lat.cos() * lon.cos()).abs() < 1e-4);
}

#[test]
fn timed_sky_config_default_values() {
    let c = TimedSkyConfig::default();
    assert_eq!(c.planet_tilt_degrees, FX_EARTH_TILT);
    assert_eq!(c.day_duration_secs, FX_15_SECS);
    assert_eq!(c.night_duration_secs, FX_15_SECS);
    assert_eq!(c.max_sun_height_deg, FX_45_DEG);
    assert_eq!(FX_EARTH_TILT, fx(23.5));
    assert_eq!(FX_15_SECS, fx(15.0));
    assert_eq!(FX_45_DEG, fx(45.0));
}

#[test]
fn sky_center_default_values() {
    let c = SkyCenter::default();
    assert_eq!(c.latitude_degrees, 0);
    assert_eq!(c.planet_tilt_degrees, FX_EARTH_TILT);
    assert_eq!(c.year_fraction, 0);
    assert_eq!(c.cycle_duration_secs, FX_600_SECS);
    assert_eq!(c.current_cycle_time, 0);
    assert_eq!(FX_600_SECS, fx(600.0));
}

#[test]
fn sky_center_from_default_config() {
    // The default request (equal 15 s day and night, 45 degree noon sun)
    // degenerates to the mirrored-hemisphere candidate at -45 degrees.
    let c = TimedSkyConfig::default();
    let sky = SkyCenter::from_timed_config(&c).expect("solvable default");
    assert!((fl(sky.latitude_degrees) + 45.0).abs() < 0.01);
    assert_eq!(sky.planet_tilt_degrees, FX_EARTH_TILT);
    assert_eq!(sky.cycle_duration_secs, fx(30.0));
    assert_eq!(sky.current_cycle_time, 0);
    assert!(sky.year_fraction >= 0 && fl(sky.year_fraction) < 1.0);
}

#[test]
fn sky_center_from_unsolvable_config() {
    let c = TimedSkyConfig {
        planet_tilt_degrees: fx(23.5),
        day_duration_secs: fx(-1.0),
        night_duration_secs: fx(10.0),
        max_sun_height_deg: fx(45.0),
    };
    assert!(SkyCenter::from_timed_config(&c).is_none());
}

#[test]
fn sky_center_update_replaces_solution_fields() {
    let mut sky = SkyCenter::default();
    sky.current_cycle_time = fx(100.0);
    let c = TimedSkyConfig {
        planet_tilt_degrees: fx(23.5),
        day_duration_secs: fx(18.0),
        night_duration_secs: fx(12.0),
        max_sun_height_deg: fx(35.0),
    };
    sky.update_from_timed_config(&c);
    assert!((fl(sky.latitude_degrees) - 63.68).abs() < 0.05);
    assert_eq!(sky.cycle_duration_secs, fx(30.0));
    // The tilt and the running clock are kept.
    assert_eq!(sky.planet_tilt_degrees, FX_EARTH_TILT);
    assert_eq!(sky.current_cycle_time, fx(100.0));
}

#[test]
fn sky_center_update_keeps_state_on_failure() {
    let mut sky = SkyCenter::default();
    let before = sky;
    let c = TimedSkyConfig {
        planet_tilt_degrees: fx(23.5),
        day_duration_secs: fx(-1.0),
        night_duration_secs: fx(10.0),
        max_sun_height_deg: fx(45.0),
    };
    sky.update_from_timed_config(&c);
    assert_eq!(sky, before);
}

#[test]
fn advance_wraps_at_cycle_length() {
    let mut sky = SkyCenter::default();
    sky.advance(fx(300.0));
    assert_eq!(sky.current_cycle_time, fx(300.0));
    assert_eq!(sky.hour_fraction(), fx(0.5));
    sky.advance(fx(400.0));
    assert_eq!(sky.current_cycle_time, fx(100.0));
    sky.advance(fx(1300.0));
    assert_eq!(sky.current_cycle_time, fx(200.0));
}
