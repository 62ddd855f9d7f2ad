//! Append-only run log of the controller and its summary statistics.
//!
//! Four parallel series record, for every successful step, the commanded
//! target (mm/s), the measured velocity (mm/s), the clock (ms) and the
//! published acceleration (mm/s²). The summary reports the extremes and
//! truncated mean of the tracking error and of the acceleration.

use vstd::prelude::*;
use crate::units::div_to_zero;

verus! {

/// Largest magnitude an entry of the log may carry.
pub const LOG_VAL_MAX: i64 = 1_000_000_000;

/// The four parallel series of one run.
#[derive(Debug)]
pub struct ResultLog {
    pub desired_velocity: Vec<i64>,
    pub current_velocity: Vec<i64>,
    pub current_time: Vec<i64>,
    pub acceleration: Vec<i64>,
}

/// Extremes and truncated means over one run. The error of a step is
/// the commanded target minus the measured velocity.
#[derive(Clone, Copy, Debug, PartialEq, Eq, Structural)]
pub struct RunSummary {
    pub data_points: usize,
    pub min_error: i64,
    pub max_error: i64,
    pub avg_error: i64,
    pub min_acceleration: i64,
    pub max_acceleration: i64,
    pub avg_acceleration: i64,
}

/// Tracking error of step `i` of the log.
pub open spec fn step_error(log: ResultLog, i: int) -> int {
    log.desired_velocity@[i] - log.current_velocity@[i]
}

/// Sum of the tracking errors of the first `n` steps.
pub open spec fn error_sum(log: ResultLog, n: int) -> int
    decreases n,
{
    if n <= 0 {
        0
    } else {
        error_sum(log, n - 1) + step_error(log, n - 1)
    }
}

/// Least tracking error among the first `n` steps (for `n >= 1`).
pub open spec fn error_min(log: ResultLog, n: int) -> int
    decreases n,
{
    if n <= 1 {
        step_error(log, 0)
    } else {
        crate::units::spec_min(error_min(log, n - 1), step_error(log, n - 1))
    }
}

/// Greatest tracking error among the first `n` steps (for `n >= 1`).
pub open spec fn error_max(log: ResultLog, n: int) -> int
    decreases n,
{
    if n <= 1 {
        step_error(log, 0)
    } else {
        crate::units::spec_max(error_max(log, n - 1), step_error(log, n - 1))
    }
}

/// Sum of the accelerations of the first `n` steps.
pub open spec fn accel_sum(log: ResultLog, n: int) -> int
    decreases n,
{
    if n <= 0 {
        0
    } else {
        accel_sum(log, n - 1) + log.acceleration@[n - 1] as int
    }
}

/// Least acceleration among the first `n` steps (for `n >= 1`).
pub open spec fn accel_min(log: ResultLog, n: int) -> int
    decreases n,
{
    if n <= 1 {
        log.acceleration@[0] as int
    } else {
        crate::units::spec_min(accel_min(log, n - 1), log.acceleration@[n - 1] as int)
    }
}

/// Greatest acceleration among the first `n` steps (for `n >= 1`).
pub open spec fn accel_max(log: ResultLog, n: int) -> int
    decreases n,
{
    if n <= 1 {
        log.acceleration@[0] as int
    } else {
        crate::units::spec_max(accel_max(log, n - 1), log.acceleration@[n - 1] as int)
    }
}

impl ResultLog {
    /// The four series run in step and every entry is in range.
    pub open spec fn wf(self) -> bool {
        &&& self.current_velocity@.len() == self.desired_velocity@.len()
        &&& self.current_time@.len() == self.desired_velocity@.len()
        &&& self.acceleration@.len() == self.desired_velocity@.len()
        &&& forall|i: int|
            0 <= i < self.desired_velocity@.len() ==> -LOG_VAL_MAX
                <= #[trigger] self.desired_velocity@[i] <= LOG_VAL_MAX
        &&& forall|i: int|
            0 <= i < self.current_velocity@.len() ==> -LOG_VAL_MAX
                <= #[trigger] self.current_velocity@[i] <= LOG_VAL_MAX
        &&& forall|i: int|
            0 <= i < self.current_time@.len() ==> -LOG_VAL_MAX
                <= #[trigger] self.current_time@[i] <= LOG_VAL_MAX
        &&& forall|i: int|
            0 <= i < self.acceleration@.len() ==> -LOG_VAL_MAX
                <= #[trigger] self.acceleration@[i] <= LOG_VAL_MAX
    }

    /// An empty log.
    pub fn new() -> (r: ResultLog)
        ensures
            r.wf(),
            r.desired_velocity@.len() == 0,
            r.current_velocity@.len() == 0,
            r.current_time@.len() == 0,
            r.acceleration@.len() == 0,
    {
        ResultLog {
            desired_velocity: Vec::new(),
            current_velocity: Vec::new(),
            current_time: Vec::new(),
            acceleration: Vec::new(),
        }
    }

    /// Append one step to all four series.
    pub fn push(&mut self, desired: i64, current: i64, time: i64, acceleration: i64)
        requires
            old(self).wf(),
            old(self).desired_velocity@.len() < usize::MAX,
            -LOG_VAL_MAX <= desired <= LOG_VAL_MAX,
            -LOG_VAL_MAX <= current <= LOG_VAL_MAX,
            -LOG_VAL_MAX <= time <= LOG_VAL_MAX,
            -LOG_VAL_MAX <= acceleration <= LOG_VAL_MAX,
        ensures
            final(self).wf(),
            final(self).desired_velocity@ == old(self).desired_velocity@.push(desired),
            final(self).current_velocity@ == old(self).current_velocity@.push(current),
            final(self).current_time@ == old(self).current_time@.push(time),
            final(self).acceleration@ == old(self).acceleration@.push(acceleration),
    {
        self.desired_velocity.push(desired);
        self.current_velocity.push(current);
        self.current_time.push(time);
        self.acceleration.push(acceleration);
    }

    /// Number of recorded steps.
    pub fn len(&self) -> (r: usize)
        requires
            self.wf(),
        ensures
            r == self.desired_velocity@.len(),
    {
        self.desired_velocity.len()
    }

    /// Extremes and truncated means of the run, or nothing for an empty
    /// log.
    pub fn summary(&self) -> (r: Option<RunSummary>)
        requires
            self.wf(),
        ensures
            ({
                let n = self.desired_velocity@.len() as int;
                match r {
                    Option::None => n == 0,
                    Option::Some(s) => {
                        &&& n > 0
                        &&& s.data_points == n
                        &&& s.min_error == error_min(*self, n)
                        &&& s.max_error == error_max(*self, n)
                        &&& s.avg_error == div_to_zero(error_sum(*self, n), n)
                        &&& s.min_acceleration == accel_min(*self, n)
                        &&& s.max_acceleration == accel_max(*self, n)
                        &&& s.avg_acceleration == div_to_zero(accel_sum(*self, n), n)
                    },
                }
            }),
    {
        let n = self.desired_velocity.len();
        if n == 0 {
            return Option::None;
        }
        let mut min_error: i64 = self.desired_velocity[0] - self.current_velocity[0];
        let mut max_error: i64 = min_error;
        let mut sum_error: i128 = min_error as i128;
        let mut min_acceleration: i64 = self.acceleration[0];
        let mut max_acceleration: i64 = min_acceleration;
        let mut sum_acceleration: i128 = min_acceleration as i128;
        let mut i: usize = 1;
        proof {
            assert(error_sum(*self, 0) == 0);
            assert(accel_sum(*self, 0) == 0);
        }
        while i < n
            invariant
                self.wf(),
                n == self.desired_velocity@.len(),
                1 <= i <= n,
                min_error == error_min(*self, i as int),
                max_error == error_max(*self, i as int),
                sum_error == error_sum(*self, i as int),
                min_acceleration == accel_min(*self, i as int),
                max_acceleration == accel_max(*self, i as int),
                sum_acceleration == accel_sum(*self, i as int),
                crate::units::spec_abs(sum_error as int) <= 2 * (LOG_VAL_MAX as int) * (
                i as int),
                crate::units::spec_abs(sum_acceleration as int) <= (LOG_VAL_MAX as int) * (
                i as int),
            decreases n - i,
        {
            let e = self.desired_velocity[i] - self.current_velocity[i];
            if e < min_error {
                min_error = e;
            }
            if e > max_error {
                max_error = e;
            }
            proof {
                assert(2 * (LOG_VAL_MAX as int) * ((i + 1) as int)
                    == 2 * (LOG_VAL_MAX as int) * (i as int) + 2 * (LOG_VAL_MAX as int))
                    by (nonlinear_arith);
                assert((LOG_VAL_MAX as int) * ((i + 1) as int)
                    == (LOG_VAL_MAX as int) * (i as int) + (LOG_VAL_MAX as int))
                    by (nonlinear_arith);
                assert(2 * (LOG_VAL_MAX as int) * ((i + 1) as int)
                    <= 40_000_000_000_000_000_000_000_000_000int) by (nonlinear_arith)
                    requires (i as int) + 1 <= 18_446_744_073_709_551_616int;
                assert((LOG_VAL_MAX as int) * ((i + 1) as int)
                    <= 20_000_000_000_000_000_000_000_000_000int) by (nonlinear_arith)
                    requires (i as int) + 1 <= 18_446_744_073_709_551_616int;
            }
            sum_error = sum_error + (e as i128);
            let a = self.acceleration[i];
            if a < min_acceleration {
                min_acceleration = a;
            }
            if a > max_acceleration {
                max_acceleration = a;
            }
            sum_acceleration = sum_acceleration + (a as i128);
            i += 1;
        }
        proof {
            assert(2 * (LOG_VAL_MAX as int) * (n as int)
                <= 40_000_000_000_000_000_000_000_000_000int) by (nonlinear_arith)
                requires n as int <= 18_446_744_073_709_551_616int;
            assert((LOG_VAL_MAX as int) * (n as int)
                <= 20_000_000_000_000_000_000_000_000_000int) by (nonlinear_arith)
                requires n as int <= 18_446_744_073_709_551_616int;
        }
        let avg_error = div_i128_to_zero(sum_error, n as i128);
        let avg_acceleration = div_i128_to_zero(sum_acceleration, n as i128);
        proof {
            lemma_sum_quotient_fits(sum_error as int, n as int, 2 * (LOG_VAL_MAX as int));
            lemma_sum_quotient_fits(sum_acceleration as int, n as int, LOG_VAL_MAX as int);
        }
        Option::Some(
            RunSummary {
                data_points: n,
                min_error,
                max_error,
                avg_error: avg_error as i64,
                min_acceleration,
                max_acceleration,
                avg_acceleration: avg_acceleration as i64,
            },
        )
    }
}

/// Quotient of `a` and `b` rounded toward zero, on wide integers.
fn div_i128_to_zero(a: i128, b: i128) -> (r: i128)
    requires
        b > 0,
        a > i128::MIN,
    ensures
        r == div_to_zero(a as int, b as int),
        crate::units::spec_abs(r as int) <= crate::units::spec_abs(a as int),
{
    if a >= 0 {
        proof {
            vstd::arithmetic::div_mod::lemma_div_basics_4(a as int, b as int);
            vstd::arithmetic::div_mod::lemma_div_basics_5(a as int, b as int);
        }
        a / b
    } else {
        let m = -a;
        proof {
            vstd::arithmetic::div_mod::lemma_div_basics_4(m as int, b as int);
            vstd::arithmetic::div_mod::lemma_div_basics_5(m as int, b as int);
        }
        -(m / b)
    }
}

/// An average of `n` values, each within `m`, stays within `m`.
proof fn lemma_sum_quotient_fits(s: int, n: int, m: int)
    requires
        n > 0,
        m >= 0,
        -m * n <= s <= m * n,
    ensures
        crate::units::spec_abs(div_to_zero(s, n)) <= m,
{
    assert(crate::units::spec_abs(s) <= m * n) by (nonlinear_arith)
        requires -m * n <= s <= m * n;
    crate::units::lemma_div_to_zero_scaled_bound(s, n, m);
}

} // verus!
