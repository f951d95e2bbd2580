//! Astronomical sun-position solvers over fixed-point arithmetic.
//!
//! The crate computes the apparent direction of a sun for an observer on a
//! tilted, rotating spheroid, and solves the inverse problem: given a target
//! day/night ratio and a target noon elevation, it recovers the latitude,
//! declination and year fraction that reproduce them.
//!
//! All quantities are carried as Q32.32 fixed-point numbers (an `i64` holding
//! the value scaled by 2^32), so that every arithmetic step has an exact
//! contract. Trigonometric primitives are evaluated by the `cordic` crate and
//! enter the proofs as named, uninterpreted results.

pub mod frame;
pub mod fx;
pub mod laws;
pub mod sky;
pub mod solve;
pub mod sun;
pub mod trig;
