//! Parameter records tying the solvers together: a timed-sky request and
//! the solved sky-center state a scene drives per frame.

use vstd::prelude::*;
use crate::fx::{fx_div, fx_div_spec, FX_ONE};
use crate::solve::{
    calculate_latitude_yearfraction, solve_outcome_spec, SolveOutcome, FX_ELEV_MAX, FX_SECS_MAX,
};
use crate::trig::{imod, FX_DEG_90};

verus! {

/// Q32.32 representation of 23.5 degrees, an Earth-like axial tilt.
pub const FX_EARTH_TILT: i64 = 100931731456;

/// Q32.32 representation of 15 seconds.
pub const FX_15_SECS: i64 = 64424509440;

/// Q32.32 representation of 45 degrees.
pub const FX_45_DEG: i64 = 193273528320;

/// Q32.32 representation of 600 seconds.
pub const FX_600_SECS: i64 = 2576980377600;

/// A requested sky configuration: how long day and night should last and
/// how high the sun should climb, for a given axial tilt. All fields are
/// Q32.32: degrees for angles, seconds for durations.
#[derive(Clone, Copy, Debug, PartialEq, Eq, Structural)]
pub struct TimedSkyConfig {
    pub planet_tilt_degrees: i64,
    pub day_duration_secs: i64,
    pub night_duration_secs: i64,
    pub max_sun_height_deg: i64,
}

impl Default for TimedSkyConfig {
    /// An Earth-like tilt with a 15 second day, a 15 second night and a
    /// 45 degree noon sun.
    fn default() -> (c: Self)
        ensures
            c == (TimedSkyConfig {
                planet_tilt_degrees: FX_EARTH_TILT,
                day_duration_secs: FX_15_SECS,
                night_duration_secs: FX_15_SECS,
                max_sun_height_deg: FX_45_DEG,
            }),
    {
        TimedSkyConfig {
            planet_tilt_degrees: FX_EARTH_TILT,
            day_duration_secs: FX_15_SECS,
            night_duration_secs: FX_15_SECS,
            max_sun_height_deg: FX_45_DEG,
        }
    }
}

/// The fields of a `TimedSkyConfig` lie within the solver's accepted
/// ranges.
pub open spec fn timed_config_in_range(c: TimedSkyConfig) -> bool {
    &&& -FX_DEG_90 <= c.planet_tilt_degrees <= FX_DEG_90
    &&& -FX_SECS_MAX <= c.day_duration_secs <= FX_SECS_MAX
    &&& -FX_SECS_MAX <= c.night_duration_secs <= FX_SECS_MAX
    &&& -FX_ELEV_MAX <= c.max_sun_height_deg <= FX_ELEV_MAX
}

/// The solved sky state a scene advances every frame: where the observer
/// stands, when in the year it is, and how far into the day/night cycle the
/// clock has run. All fields are Q32.32.
#[derive(Clone, Copy, Debug, PartialEq, Eq, Structural)]
pub struct SkyCenter {
    pub latitude_degrees: i64,
    pub planet_tilt_degrees: i64,
    pub year_fraction: i64,
    pub cycle_duration_secs: i64,
    pub current_cycle_time: i64,
}

impl Default for SkyCenter {
    /// The equator of an Earth-tilted planet at the vernal equinox, on a
    /// ten minute cycle.
    fn default() -> (c: Self)
        ensures
            c == (SkyCenter {
                latitude_degrees: 0,
                planet_tilt_degrees: FX_EARTH_TILT,
                year_fraction: 0,
                cycle_duration_secs: FX_600_SECS,
                current_cycle_time: 0,
            }),
    {
        SkyCenter {
            latitude_degrees: 0,
            planet_tilt_degrees: FX_EARTH_TILT,
            year_fraction: 0,
            cycle_duration_secs: FX_600_SECS,
            current_cycle_time: 0,
        }
    }
}

impl SkyCenter {
    /// Build a sky center from a timed request by running the inverse
    /// solver; nothing is built when the request has no solution.
    pub fn from_timed_config(timed_config: &TimedSkyConfig) -> (r: Option<SkyCenter>)
        requires
            timed_config_in_range(*timed_config),
        ensures
            match solve_outcome_spec(
                timed_config.planet_tilt_degrees as int,
                timed_config.day_duration_secs as int,
                timed_config.night_duration_secs as int,
                timed_config.max_sun_height_deg as int,
            ) {
                SolveOutcome::Solution(s) => r == Some(
                    SkyCenter {
                        latitude_degrees: s.latitude_degrees,
                        planet_tilt_degrees: timed_config.planet_tilt_degrees,
                        year_fraction: s.year_fraction,
                        cycle_duration_secs: (timed_config.day_duration_secs
                            + timed_config.night_duration_secs) as i64,
                        current_cycle_time: 0,
                    },
                ),
                _ => r is None,
            },
    {
        let calc: SolveOutcome = calculate_latitude_yearfraction(
            timed_config.planet_tilt_degrees,
            timed_config.day_duration_secs,
            timed_config.night_duration_secs,
            timed_config.max_sun_height_deg,
        );
        match calc {
            SolveOutcome::Solution(s) => Some(
                SkyCenter {
                    latitude_degrees: s.latitude_degrees,
                    planet_tilt_degrees: timed_config.planet_tilt_degrees,
                    year_fraction: s.year_fraction,
                    cycle_duration_secs: timed_config.day_duration_secs
                        + timed_config.night_duration_secs,
                    current_cycle_time: 0,
                },
            ),
            _ => None,
        }
    }

    /// Re-solve an existing sky center for a new timed request. On success
    /// the latitude, year fraction and cycle length are replaced (the tilt
    /// and the running clock are kept); a request without a solution leaves
    /// the state untouched.
    pub fn update_from_timed_config(&mut self, timed_config: &TimedSkyConfig)
        requires
            timed_config_in_range(*timed_config),
        ensures
            match solve_outcome_spec(
                timed_config.planet_tilt_degrees as int,
                timed_config.day_duration_secs as int,
                timed_config.night_duration_secs as int,
                timed_config.max_sun_height_deg as int,
            ) {
                SolveOutcome::Solution(s) => *final(self) == (SkyCenter {
                    latitude_degrees: s.latitude_degrees,
                    year_fraction: s.year_fraction,
                    cycle_duration_secs: (timed_config.day_duration_secs
                        + timed_config.night_duration_secs) as i64,
                    ..*old(self)
                }),
                _ => *final(self) == *old(self),
            },
    {
        let calc: SolveOutcome = calculate_latitude_yearfraction(
            timed_config.planet_tilt_degrees,
            timed_config.day_duration_secs,
            timed_config.night_duration_secs,
            timed_config.max_sun_height_deg,
        );
        match calc {
            SolveOutcome::Solution(s) => {
                self.latitude_degrees = s.latitude_degrees;
                self.year_fraction = s.year_fraction;
                self.cycle_duration_secs = timed_config.day_duration_secs
                    + timed_config.night_duration_secs;
            },
            _ => {},
        }
    }

    /// Advance the cycle clock by an elapsed time, wrapping at the cycle
    /// length.
    pub fn advance(&mut self, delta_secs: i64)
        requires
            0 < old(self).cycle_duration_secs <= FX_SECS_MAX,
            0 <= old(self).current_cycle_time <= FX_SECS_MAX,
            0 <= delta_secs <= FX_SECS_MAX,
        ensures
            *final(self) == (SkyCenter {
                current_cycle_time: ((old(self).current_cycle_time + delta_secs) % (
                old(self).cycle_duration_secs as int)) as i64,
                ..*old(self)
            }),
            0 <= final(self).current_cycle_time < final(self).cycle_duration_secs,
    {
        let t: i64 = self.current_cycle_time + delta_secs;
        self.current_cycle_time = imod(t, self.cycle_duration_secs);
    }

    /// How far into the day/night cycle the clock stands, as a Q32.32
    /// fraction in `[0, 1]`.
    pub fn hour_fraction(&self) -> (r: i64)
        requires
            0 < self.cycle_duration_secs,
            0 <= self.current_cycle_time <= self.cycle_duration_secs,
        ensures
            r == fx_div_spec(self.current_cycle_time as int, self.cycle_duration_secs as int),
            0 <= r <= FX_ONE,
    {
        proof {
            vstd::arithmetic::div_mod::lemma_div_multiples_vanish(
                FX_ONE as int,
                self.cycle_duration_secs as int,
            );
            crate::fx::lemma_fx_div_fits(
                self.current_cycle_time as int,
                self.cycle_duration_secs as int,
                self.cycle_duration_secs as int,
                self.cycle_duration_secs as int,
            );
        }
        fx_div(self.current_cycle_time, self.cycle_duration_secs)
    }
}

} // verus!
