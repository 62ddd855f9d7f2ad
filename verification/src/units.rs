//! Fixed-point conventions and small arithmetic helpers.
//!
//! One whole unit is `UNIT` (1000) fixed-point steps: a velocity of
//! 12.5 m/s is stored as 12_500 mm/s, a time of 0.1 s as 100 ms, a pedal
//! position of 40 % as 400 thousandths. Divisions in the control laws
//! truncate toward zero, as `div_to_zero` defines.

use vstd::prelude::*;

verus! {

/// One whole unit in fixed-point steps (thousandths).
pub const UNIT: i64 = 1000;

/// Largest admitted velocity, mm/s (1000 m/s).
pub const VEL_MAX: i64 = 1_000_000;

/// Largest admitted clock value, ms.
pub const TIME_MAX: i64 = 1_000_000_000;

/// Largest admitted controller gain, thousandths (100.0).
pub const GAIN_MAX: i64 = 100_000;

/// Largest admitted configuration distance, mm (1 km).
pub const DIST_MAX: i64 = 1_000_000;

/// Largest admitted magnitude of the configured braking acceleration, mm/s².
pub const BRAKE_ACCEL_MAX: i64 = 100_000;

/// Largest admitted magnitude of a LiDAR coordinate, mm (100 km).
pub const COORD_MAX: i64 = 100_000_000;

/// Saturation bound of the PID integral accumulator, in micro-units
/// (the accumulator sums velocity error (mm/s) times timestep (ms)).
pub const INTEG_LIMIT: i64 = 4_000_000_000_000_000;

/// Quotient of `a` and `b` rounded toward zero (the rounding the
/// executable control laws use), defined for `b > 0`.
pub open spec fn div_to_zero(a: int, b: int) -> int {
    if a >= 0 {
        a / b
    } else {
        -((-a) / b)
    }
}

/// Clamp of `v` to the closed interval `[lo, hi]`.
pub open spec fn spec_clamp(v: int, lo: int, hi: int) -> int {
    if v < lo {
        lo
    } else if v > hi {
        hi
    } else {
        v
    }
}

/// Smaller of two integers.
pub open spec fn spec_min(a: int, b: int) -> int {
    if a < b {
        a
    } else {
        b
    }
}

/// Larger of two integers.
pub open spec fn spec_max(a: int, b: int) -> int {
    if a > b {
        a
    } else {
        b
    }
}

/// Magnitude of an integer.
pub open spec fn spec_abs(a: int) -> int {
    if a >= 0 {
        a
    } else {
        -a
    }
}

pub fn clamp_i64(v: i64, lo: i64, hi: i64) -> (r: i64)
    requires
        lo <= hi,
    ensures
        r == spec_clamp(v as int, lo as int, hi as int),
        lo <= r <= hi,
{
    if v < lo {
        lo
    } else if v > hi {
        hi
    } else {
        v
    }
}

pub fn div_i64_to_zero(a: i64, b: i64) -> (r: i64)
    requires
        b > 0,
        a > i64::MIN,
    ensures
        r == div_to_zero(a as int, b as int),
        spec_abs(r as int) <= spec_abs(a as int),
{
    if a >= 0 {
        proof {
            vstd::arithmetic::div_mod::lemma_div_basics_4(a as int, b as int);
            vstd::arithmetic::div_mod::lemma_div_basics_5(a as int, b as int);
        }
        a / b
    } else {
        let m = -a;
        proof {
            vstd::arithmetic::div_mod::lemma_div_basics_4(m as int, b as int);
            vstd::arithmetic::div_mod::lemma_div_basics_5(m as int, b as int);
        }
        -(m / b)
    }
}

/// Bound of the quotient toward zero from a bound of the dividend.
pub proof fn lemma_div_to_zero_bound(a: int, b: int, m: int)
    requires
        b > 0,
        spec_abs(a) <= m,
    ensures
        spec_abs(div_to_zero(a, b)) <= m,
        spec_abs(div_to_zero(a, b)) <= spec_abs(a),
{
    if a >= 0 {
        vstd::arithmetic::div_mod::lemma_div_basics_4(a, b);
        vstd::arithmetic::div_mod::lemma_div_basics_5(a, b);
    } else {
        vstd::arithmetic::div_mod::lemma_div_basics_4(-a, b);
        vstd::arithmetic::div_mod::lemma_div_basics_5(-a, b);
    }
}

/// A dividend within `m * b` keeps the quotient toward zero within `m`.
pub proof fn lemma_div_to_zero_scaled_bound(a: int, b: int, m: int)
    requires
        b > 0,
        m >= 0,
        spec_abs(a) <= m * b,
    ensures
        spec_abs(div_to_zero(a, b)) <= m,
{
    if a >= 0 {
        vstd::arithmetic::div_mod::lemma_div_basics_4(a, b);
        vstd::arithmetic::div_mod::lemma_div_is_ordered(a, m * b, b);
        vstd::arithmetic::div_mod::lemma_div_by_multiple(m, b);
    } else {
        vstd::arithmetic::div_mod::lemma_div_basics_4(-a, b);
        vstd::arithmetic::div_mod::lemma_div_is_ordered(-a, m * b, b);
        vstd::arithmetic::div_mod::lemma_div_by_multiple(m, b);
    }
}

} // verus!

