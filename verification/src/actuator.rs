//! Stateless mapping of a longitudinal acceleration to actuator intensities.
//!
//! The mapping is piecewise linear: gentle commands use a shallow slope so
//! that small corrections move the pedals little, harder commands use
//! steeper slopes up to the saturated pedal. Throttle and brake are never
//! driven together, and both stay inside `[0, UNIT]`.

use vstd::prelude::*;
use crate::units::{spec_clamp, UNIT};

verus! {

/// Throttle intensity before the final clamp, for a positive
/// acceleration `a` (mm/s²): 40 % of a unit per m/s² up to 0.5 m/s²,
/// then 40 % per m/s² on top of 20 %, then 26.7 % per m/s² on top of 60 %.
pub open spec fn spec_throttle_raw(a: int) -> int {
    if a <= 500 {
        a * 400 / 1000
    } else if a <= 1500 {
        200 + (a - 500) * 400 / 1000
    } else {
        600 + (a - 1500) * 267 / 1000
    }
}

/// Brake intensity before the final clamp, for a deceleration magnitude
/// `d` (mm/s²): 30 % of a unit per m/s² up to 0.5 m/s², then 23.3 % per
/// m/s² on top of 15 % below 2 m/s², then 8.3 % per m/s² on top of 50 %
/// from 2 m/s² on.
pub open spec fn spec_brake_raw(d: int) -> int {
    if d <= 500 {
        d * 300 / 1000
    } else if d < 2000 {
        150 + (d - 500) * 233 / 1000
    } else {
        500 + (d - 2000) * 83 / 1000
    }
}

/// Throttle commanded for acceleration `a` (mm/s²), in thousandths.
pub open spec fn spec_throttle(a: int) -> int {
    if a > 0 {
        spec_clamp(spec_throttle_raw(a), 0, UNIT as int)
    } else {
        0
    }
}

/// Brake commanded for acceleration `a` (mm/s²), in thousandths.
pub open spec fn spec_brake(a: int) -> int {
    if a > 0 {
        0
    } else {
        spec_clamp(spec_brake_raw(-a), 0, UNIT as int)
    }
}

/// Translate an acceleration command (mm/s²) into a throttle/brake pair
/// (thousandths). At most one of the two is nonzero, and both lie in
/// `[0, UNIT]`.
pub fn acceleration_to_throttle_brake(acceleration: i64) -> (r: (i64, i64))
    requires
        -1_000_000_000_000 <= acceleration <= 1_000_000_000_000,
    ensures
        r.0 == spec_throttle(acceleration as int),
        r.1 == spec_brake(acceleration as int),
        0 <= r.0 <= UNIT,
        0 <= r.1 <= UNIT,
        r.0 == 0 || r.1 == 0,
{
    if acceleration > 0 {
        let raw: i64 = if acceleration <= 500 {
            acceleration * 400 / 1000
        } else if acceleration <= 1500 {
            200 + (acceleration - 500) * 400 / 1000
        } else {
            600 + (acceleration - 1500) * 267 / 1000
        };
        let throttle = crate::units::clamp_i64(raw, 0, UNIT);
        (throttle, 0)
    } else {
        let decel = -acceleration;
        let raw: i64 = if decel <= 500 {
            decel * 300 / 1000
        } else if decel < 2000 {
            150 + (decel - 500) * 233 / 1000
        } else {
            500 + (decel - 2000) * 83 / 1000
        };
        let brake = crate::units::clamp_i64(raw, 0, UNIT);
        (0, brake)
    }
}

} // verus!
