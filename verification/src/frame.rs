//! Rotation and frame helpers: orientation quaternions for the sky sphere
//! and the observer's local east/up/north triad.
//!
//! Quaternions are stored as Q32.32 components. The helpers compose
//! axis-aligned rotations with an exact Hamilton product, so each contract
//! pins the components as arithmetic over the named trigonometric results.

use vstd::prelude::*;
use crate::fx::{abs_i, fx_half, fx_mul, fx_mul_spec, lemma_fx_mul_fits, tdiv, FX_ONE};
use crate::trig::{cos_of, cos_val, sin_of, sin_val, FX_ANGLE_MAX, FX_HALF_PI, FX_PI, FX_TWO_PI};

verus! {

/// Largest quaternion component magnitude the product helper accepts.
pub const FX_QUAT_MAX: i64 = 0x10000000000;

/// A 3-vector in Q32.32 components.
#[derive(Clone, Copy, Debug, PartialEq, Eq, Structural)]
pub struct Vec3Fx {
    pub x: i64,
    pub y: i64,
    pub z: i64,
}

/// A rotation quaternion in Q32.32 components, `w` the scalar part.
#[derive(Clone, Copy, Debug, PartialEq, Eq, Structural)]
pub struct QuatFx {
    pub x: i64,
    pub y: i64,
    pub z: i64,
    pub w: i64,
}

/// The rotation by `angle` about the X axis.
pub open spec fn rot_x_spec(angle: int) -> (int, int, int, int) {
    (sin_val(tdiv(angle, 2)), 0, 0, cos_val(tdiv(angle, 2)))
}

/// The rotation by `angle` about the Y axis.
pub open spec fn rot_y_spec(angle: int) -> (int, int, int, int) {
    (0, sin_val(tdiv(angle, 2)), 0, cos_val(tdiv(angle, 2)))
}

/// The Hamilton product of two quaternions, each component a Q32.32 sum of
/// products.
pub open spec fn quat_mul_spec(
    a: (int, int, int, int),
    b: (int, int, int, int),
) -> (int, int, int, int) {
    (
        fx_mul_spec(a.3, b.0) + fx_mul_spec(a.0, b.3) + fx_mul_spec(a.1, b.2) - fx_mul_spec(
            a.2,
            b.1,
        ),
        fx_mul_spec(a.3, b.1) - fx_mul_spec(a.0, b.2) + fx_mul_spec(a.1, b.3) + fx_mul_spec(
            a.2,
            b.0,
        ),
        fx_mul_spec(a.3, b.2) + fx_mul_spec(a.0, b.1) - fx_mul_spec(a.1, b.0) + fx_mul_spec(
            a.2,
            b.3,
        ),
        fx_mul_spec(a.3, b.3) - fx_mul_spec(a.0, b.0) - fx_mul_spec(a.1, b.1) - fx_mul_spec(
            a.2,
            b.2,
        ),
    )
}

/// The components of a quaternion as a tuple, for the spec functions.
pub open spec fn quat_view(q: QuatFx) -> (int, int, int, int) {
    (q.x as int, q.y as int, q.z as int, q.w as int)
}

/// Rotation about the X axis.
pub fn rot_x(angle: i64) -> (q: QuatFx)
    requires
        -FX_ANGLE_MAX <= angle <= FX_ANGLE_MAX,
    ensures
        quat_view(q) == rot_x_spec(angle as int),
        abs_i(q.x as int) <= FX_ONE && q.y == 0 && q.z == 0 && abs_i(q.w as int) <= FX_ONE,
{
    let half: i64 = fx_half(angle);
    QuatFx { x: sin_of(half), y: 0, z: 0, w: cos_of(half) }
}

/// Rotation about the Y axis.
pub fn rot_y(angle: i64) -> (q: QuatFx)
    requires
        -FX_ANGLE_MAX <= angle <= FX_ANGLE_MAX,
    ensures
        quat_view(q) == rot_y_spec(angle as int),
        q.x == 0 && abs_i(q.y as int) <= FX_ONE && q.z == 0 && abs_i(q.w as int) <= FX_ONE,
{
    let half: i64 = fx_half(angle);
    QuatFx { x: 0, y: sin_of(half), z: 0, w: cos_of(half) }
}

/// The Hamilton product.
pub fn quat_mul(a: QuatFx, b: QuatFx) -> (q: QuatFx)
    requires
        abs_i(a.x as int) <= FX_QUAT_MAX,
        abs_i(a.y as int) <= FX_QUAT_MAX,
        abs_i(a.z as int) <= FX_QUAT_MAX,
        abs_i(a.w as int) <= FX_QUAT_MAX,
        abs_i(b.x as int) <= FX_QUAT_MAX,
        abs_i(b.y as int) <= FX_QUAT_MAX,
        abs_i(b.z as int) <= FX_QUAT_MAX,
        abs_i(b.w as int) <= FX_QUAT_MAX,
    ensures
        quat_view(q) == quat_mul_spec(quat_view(a), quat_view(b)),
        abs_i(q.x as int) <= 0x4000000000000,
        abs_i(q.y as int) <= 0x4000000000000,
        abs_i(q.z as int) <= 0x4000000000000,
        abs_i(q.w as int) <= 0x4000000000000,
        (abs_i(a.x as int) <= FX_ONE && abs_i(a.y as int) <= FX_ONE && abs_i(a.z as int) <= FX_ONE
            && abs_i(a.w as int) <= FX_ONE && abs_i(b.x as int) <= FX_ONE && abs_i(b.y as int)
            <= FX_ONE && abs_i(b.z as int) <= FX_ONE && abs_i(b.w as int) <= FX_ONE) ==> (abs_i(
            q.x as int,
        ) <= 4 * FX_ONE && abs_i(q.y as int) <= 4 * FX_ONE && abs_i(q.z as int) <= 4 * FX_ONE
            && abs_i(q.w as int) <= 4 * FX_ONE),
{
    proof {
        if abs_i(a.x as int) <= FX_ONE && abs_i(a.y as int) <= FX_ONE && abs_i(a.z as int)
            <= FX_ONE && abs_i(a.w as int) <= FX_ONE && abs_i(b.x as int) <= FX_ONE && abs_i(
            b.y as int,
        ) <= FX_ONE && abs_i(b.z as int) <= FX_ONE && abs_i(b.w as int) <= FX_ONE {
            lemma_fx_mul_fits(a.w as int, b.x as int, FX_ONE as int, FX_ONE as int);
            lemma_fx_mul_fits(a.x as int, b.w as int, FX_ONE as int, FX_ONE as int);
            lemma_fx_mul_fits(a.y as int, b.z as int, FX_ONE as int, FX_ONE as int);
            lemma_fx_mul_fits(a.z as int, b.y as int, FX_ONE as int, FX_ONE as int);
            lemma_fx_mul_fits(a.w as int, b.y as int, FX_ONE as int, FX_ONE as int);
            lemma_fx_mul_fits(a.x as int, b.z as int, FX_ONE as int, FX_ONE as int);
            lemma_fx_mul_fits(a.y as int, b.w as int, FX_ONE as int, FX_ONE as int);
            lemma_fx_mul_fits(a.z as int, b.x as int, FX_ONE as int, FX_ONE as int);
            lemma_fx_mul_fits(a.w as int, b.z as int, FX_ONE as int, FX_ONE as int);
            lemma_fx_mul_fits(a.x as int, b.y as int, FX_ONE as int, FX_ONE as int);
            lemma_fx_mul_fits(a.y as int, b.x as int, FX_ONE as int, FX_ONE as int);
            lemma_fx_mul_fits(a.z as int, b.w as int, FX_ONE as int, FX_ONE as int);
            lemma_fx_mul_fits(a.w as int, b.w as int, FX_ONE as int, FX_ONE as int);
            lemma_fx_mul_fits(a.x as int, b.x as int, FX_ONE as int, FX_ONE as int);
            lemma_fx_mul_fits(a.y as int, b.y as int, FX_ONE as int, FX_ONE as int);
            lemma_fx_mul_fits(a.z as int, b.z as int, FX_ONE as int, FX_ONE as int);
        }
    }
    proof {
        lemma_fx_mul_fits(a.w as int, b.x as int, FX_QUAT_MAX as int, FX_QUAT_MAX as int);
        lemma_fx_mul_fits(a.x as int, b.w as int, FX_QUAT_MAX as int, FX_QUAT_MAX as int);
        lemma_fx_mul_fits(a.y as int, b.z as int, FX_QUAT_MAX as int, FX_QUAT_MAX as int);
        lemma_fx_mul_fits(a.z as int, b.y as int, FX_QUAT_MAX as int, FX_QUAT_MAX as int);
        lemma_fx_mul_fits(a.w as int, b.y as int, FX_QUAT_MAX as int, FX_QUAT_MAX as int);
        lemma_fx_mul_fits(a.x as int, b.z as int, FX_QUAT_MAX as int, FX_QUAT_MAX as int);
        lemma_fx_mul_fits(a.y as int, b.w as int, FX_QUAT_MAX as int, FX_QUAT_MAX as int);
        lemma_fx_mul_fits(a.z as int, b.x as int, FX_QUAT_MAX as int, FX_QUAT_MAX as int);
        lemma_fx_mul_fits(a.w as int, b.z as int, FX_QUAT_MAX as int, FX_QUAT_MAX as int);
        lemma_fx_mul_fits(a.x as int, b.y as int, FX_QUAT_MAX as int, FX_QUAT_MAX as int);
        lemma_fx_mul_fits(a.y as int, b.x as int, FX_QUAT_MAX as int, FX_QUAT_MAX as int);
        lemma_fx_mul_fits(a.z as int, b.w as int, FX_QUAT_MAX as int, FX_QUAT_MAX as int);
        lemma_fx_mul_fits(a.w as int, b.w as int, FX_QUAT_MAX as int, FX_QUAT_MAX as int);
        lemma_fx_mul_fits(a.x as int, b.x as int, FX_QUAT_MAX as int, FX_QUAT_MAX as int);
        lemma_fx_mul_fits(a.y as int, b.y as int, FX_QUAT_MAX as int, FX_QUAT_MAX as int);
        lemma_fx_mul_fits(a.z as int, b.z as int, FX_QUAT_MAX as int, FX_QUAT_MAX as int);
    }
    let x: i64 = fx_mul(a.w, b.x) + fx_mul(a.x, b.w) + fx_mul(a.y, b.z) - fx_mul(a.z, b.y);
    let y: i64 = fx_mul(a.w, b.y) - fx_mul(a.x, b.z) + fx_mul(a.y, b.w) + fx_mul(a.z, b.x);
    let z: i64 = fx_mul(a.w, b.z) + fx_mul(a.x, b.y) - fx_mul(a.y, b.x) + fx_mul(a.z, b.w);
    let w: i64 = fx_mul(a.w, b.w) - fx_mul(a.x, b.x) - fx_mul(a.y, b.y) - fx_mul(a.z, b.z);
    QuatFx { x, y, z, w }
}

/// The orientation that carries the up basis vector to the point of a unit
/// sphere at the given latitude and longitude: a longitude rotation about
/// the vertical axis, a latitude rotation about the horizontal axis, and a
/// fixed quarter-turn basis correction.
pub open spec fn sphere_orientation_spec(lat_rad: int, lon_rad: int) -> (int, int, int, int) {
    quat_mul_spec(
        quat_mul_spec(rot_y_spec(lon_rad), rot_x_spec(-lat_rad)),
        rot_x_spec(FX_HALF_PI as int),
    )
}

/// Orientation quaternion of the sphere point at a latitude and longitude.
pub fn sphere_orientation(lat_rad: i64, lon_rad: i64) -> (q: QuatFx)
    requires
        -FX_ANGLE_MAX <= lat_rad <= FX_ANGLE_MAX,
        -FX_ANGLE_MAX <= lon_rad <= FX_ANGLE_MAX,
    ensures
        quat_view(q) == sphere_orientation_spec(lat_rad as int, lon_rad as int),
{
    let a: QuatFx = quat_mul(rot_y(lon_rad), rot_x(-lat_rad));
    quat_mul(a, rot_x(FX_HALF_PI))
}

/// The orientation of the whole celestial sphere for an axial tilt and a
/// year fraction: a year rotation about the vertical axis followed by the
/// tilt about the horizontal axis, matching the forward solver's
/// declination convention.
pub open spec fn planet_tilt_orientation_spec(tilt_rad: int, year_fraction: int) -> (
    int,
    int,
    int,
    int,
) {
    quat_mul_spec(
        rot_y_spec(fx_mul_spec(year_fraction, FX_TWO_PI as int)),
        rot_x_spec(tilt_rad),
    )
}

/// Orientation quaternion of the tilted celestial sphere.
pub fn planet_tilt_orientation(tilt_rad: i64, year_fraction: i64) -> (q: QuatFx)
    requires
        -FX_ANGLE_MAX <= tilt_rad <= FX_ANGLE_MAX,
        -0x10000000000 <= year_fraction <= 0x10000000000,
    ensures
        quat_view(q) == planet_tilt_orientation_spec(tilt_rad as int, year_fraction as int),
{
    proof {
        lemma_fx_mul_fits(year_fraction as int, FX_TWO_PI as int, 0x10000000000, FX_TWO_PI as int);
    }
    let year_angle: i64 = fx_mul(year_fraction, FX_TWO_PI);
    quat_mul(rot_y(year_angle), rot_x(tilt_rad))
}

/// The rotation of the sky sphere for an observer's latitude at a moment of
/// the day: a turn about the celestial pole axis `(0, sin lat, cos lat)` by
/// `pi - 2 pi * hour_fraction`, built as an axis-angle quaternion.
pub open spec fn sky_rotation_spec(lat_rad: int, hour_fraction: int) -> (int, int, int, int) {
    let angle = FX_PI - fx_mul_spec(hour_fraction, FX_TWO_PI as int);
    let half = tdiv(angle, 2);
    let s = sin_val(half);
    (0, fx_mul_spec(sin_val(lat_rad), s), fx_mul_spec(cos_val(lat_rad), s), cos_val(half))
}

/// Quaternion rotating the sky sphere to an hour of the day.
pub fn sky_rotation(lat_rad: i64, hour_fraction: i64) -> (q: QuatFx)
    requires
        -FX_ANGLE_MAX <= lat_rad <= FX_ANGLE_MAX,
        -0x10000000000 <= hour_fraction <= 0x10000000000,
    ensures
        quat_view(q) == sky_rotation_spec(lat_rad as int, hour_fraction as int),
{
    proof {
        lemma_fx_mul_fits(hour_fraction as int, FX_TWO_PI as int, 0x10000000000, FX_TWO_PI as int);
    }
    let angle: i64 = FX_PI - fx_mul(hour_fraction, FX_TWO_PI);
    let half: i64 = fx_half(angle);
    let s: i64 = sin_of(half);
    let ay: i64 = sin_of(lat_rad);
    let az: i64 = cos_of(lat_rad);
    proof {
        lemma_fx_mul_fits(ay as int, s as int, FX_ONE as int, FX_ONE as int);
        lemma_fx_mul_fits(az as int, s as int, FX_ONE as int, FX_ONE as int);
    }
    QuatFx { x: 0, y: fx_mul(ay, s), z: fx_mul(az, s), w: cos_of(half) }
}

/// The cross product, each component a Q32.32 difference of products.
pub open spec fn cross_spec(a: (int, int, int), b: (int, int, int)) -> (int, int, int) {
    (
        fx_mul_spec(a.1, b.2) - fx_mul_spec(a.2, b.1),
        fx_mul_spec(a.2, b.0) - fx_mul_spec(a.0, b.2),
        fx_mul_spec(a.0, b.1) - fx_mul_spec(a.1, b.0),
    )
}

/// The components of a vector as a tuple, for the spec functions.
pub open spec fn vec_view(v: Vec3Fx) -> (int, int, int) {
    (v.x as int, v.y as int, v.z as int)
}

/// The observer's local orthonormal triad at a latitude and longitude:
/// `up` is the radial direction, `east` the tangent toward increasing
/// longitude, and `north` their cross product `up x east`.
pub fn local_frame(lat_rad: i64, lon_rad: i64) -> (r: (Vec3Fx, Vec3Fx, Vec3Fx))
    requires
        -FX_ANGLE_MAX <= lat_rad <= FX_ANGLE_MAX,
        -FX_ANGLE_MAX <= lon_rad <= FX_ANGLE_MAX,
    ensures
        vec_view(r.0) == (cos_val(lon_rad as int), 0int, -sin_val(lon_rad as int)),
        vec_view(r.1) == (
            fx_mul_spec(cos_val(lat_rad as int), sin_val(lon_rad as int)),
            sin_val(lat_rad as int),
            fx_mul_spec(cos_val(lat_rad as int), cos_val(lon_rad as int)),
        ),
        vec_view(r.2) == cross_spec(vec_view(r.1), vec_view(r.0)),
{
    let sla: i64 = sin_of(lat_rad);
    let cla: i64 = cos_of(lat_rad);
    let slo: i64 = sin_of(lon_rad);
    let clo: i64 = cos_of(lon_rad);
    let east: Vec3Fx = Vec3Fx { x: clo, y: 0, z: -slo };
    proof {
        lemma_fx_mul_fits(cla as int, slo as int, FX_ONE as int, FX_ONE as int);
        lemma_fx_mul_fits(cla as int, clo as int, FX_ONE as int, FX_ONE as int);
    }
    let up: Vec3Fx = Vec3Fx { x: fx_mul(cla, slo), y: sla, z: fx_mul(cla, clo) };
    proof {
        lemma_fx_mul_fits(up.y as int, east.z as int, FX_ONE as int, FX_ONE as int);
        lemma_fx_mul_fits(up.z as int, east.y as int, FX_ONE as int, FX_ONE as int);
        lemma_fx_mul_fits(up.z as int, east.x as int, FX_ONE as int, FX_ONE as int);
        lemma_fx_mul_fits(up.x as int, east.z as int, FX_ONE as int, FX_ONE as int);
        lemma_fx_mul_fits(up.x as int, east.y as int, FX_ONE as int, FX_ONE as int);
        lemma_fx_mul_fits(up.y as int, east.x as int, FX_ONE as int, FX_ONE as int);
    }
    let north: Vec3Fx = Vec3Fx {
        x: fx_mul(up.y, east.z) - fx_mul(up.z, east.y),
        y: fx_mul(up.z, east.x) - fx_mul(up.x, east.z),
        z: fx_mul(up.x, east.y) - fx_mul(up.y, east.x),
    };
    (east, up, north)
}

} // verus!
