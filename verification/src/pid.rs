//! The bounded PID cruise controller with safety overrides.
//!
//! One step of the controller (`compute`) fuses the commanded target
//! speed, the measured speed, the clock, the latest LiDAR frame and the
//! driver's pedal and steering inputs into one acceleration command with
//! derived actuator intensities, and drives the engage/suspend lifecycle
//! of the cruise feature. `spec_step` states the whole step as one
//! mathematical function; `compute` is proved to implement it exactly.

use vstd::prelude::*;
use crate::units::{
    div_to_zero, spec_abs, spec_clamp, spec_max, clamp_i64, div_i64_to_zero,
    BRAKE_ACCEL_MAX, DIST_MAX, GAIN_MAX, INTEG_LIMIT, TIME_MAX, UNIT, VEL_MAX,
};
use crate::actuator::{acceleration_to_throttle_brake, spec_brake, spec_throttle};
use crate::lidar::{closest_forward, closest_forward_obstacle, LidarMeasurement};

verus! {

/// Why the emergency brake engaged: the nearest path-blocking obstacle
/// (mm) and the velocity-scaled emergency threshold it undercut (mm).
#[derive(Clone, Copy, Debug, PartialEq, Eq, Structural)]
pub struct EmergencyReason {
    pub distance: i64,
    pub threshold: i64,
}

/// The outcome of one controller step.
#[derive(Clone, Debug)]
pub struct PIDResult {
    /// Commanded longitudinal acceleration, mm/s².
    pub acceleration: i64,
    /// Throttle intensity, thousandths of full pedal.
    pub throttle: i64,
    /// Brake intensity, thousandths of full pedal.
    pub brake: i64,
    pub emergency_brake_engaged: bool,
    pub emergency_reason: Option<EmergencyReason>,
    pub manual_brake_detected: bool,
    pub cruise_should_disengage: bool,
    pub cruise_can_reengage: bool,
}

/// The step could not be computed.
#[derive(Clone, Copy, Debug, PartialEq, Eq, Structural)]
pub enum ComputeError {
    /// The clock ran backwards by more than one millisecond.
    NegativeDeltaTime { delta_time: i64, current_time: i64 },
}

/// An ordinary result: acceleration `a` with its actuator pair, no flag set.
pub open spec fn spec_plain_result(a: int) -> PIDResult {
    PIDResult {
        acceleration: a as i64,
        throttle: spec_throttle(a) as i64,
        brake: spec_brake(a) as i64,
        emergency_brake_engaged: false,
        emergency_reason: Option::None,
        manual_brake_detected: false,
        cruise_should_disengage: false,
        cruise_can_reengage: false,
    }
}

/// An emergency-brake result: forces disengagement and carries the reason.
pub open spec fn spec_emergency_result(a: int, reason: EmergencyReason) -> PIDResult {
    PIDResult {
        acceleration: a as i64,
        throttle: spec_throttle(a) as i64,
        brake: spec_brake(a) as i64,
        emergency_brake_engaged: true,
        emergency_reason: Option::Some(reason),
        manual_brake_detected: false,
        cruise_should_disengage: true,
        cruise_can_reengage: false,
    }
}

/// A manual-brake result: the driver overrode cruise, which must disengage.
pub open spec fn spec_manual_result(a: int) -> PIDResult {
    PIDResult {
        acceleration: a as i64,
        throttle: spec_throttle(a) as i64,
        brake: spec_brake(a) as i64,
        emergency_brake_engaged: false,
        emergency_reason: Option::None,
        manual_brake_detected: true,
        cruise_should_disengage: true,
        cruise_can_reengage: false,
    }
}

/// A suspended step: zero intervention, possibly announcing that the
/// re-engagement conditions hold.
pub open spec fn spec_suspended_result(can_reengage: bool) -> PIDResult {
    PIDResult {
        acceleration: 0,
        throttle: spec_throttle(0) as i64,
        brake: spec_brake(0) as i64,
        emergency_brake_engaged: false,
        emergency_reason: Option::None,
        manual_brake_detected: false,
        cruise_should_disengage: false,
        cruise_can_reengage: can_reengage,
    }
}

impl PIDResult {
    /// An ordinary result for acceleration `acceleration` (mm/s²).
    pub fn new(acceleration: i64) -> (r: PIDResult)
        requires
            -1_000_000_000_000 <= acceleration <= 1_000_000_000_000,
        ensures
            r == spec_plain_result(acceleration as int),
    {
        let (throttle, brake) = acceleration_to_throttle_brake(acceleration);
        PIDResult {
            acceleration,
            throttle,
            brake,
            emergency_brake_engaged: false,
            emergency_reason: Option::None,
            manual_brake_detected: false,
            cruise_should_disengage: false,
            cruise_can_reengage: false,
        }
    }

    /// An emergency-brake result for acceleration `acceleration` (mm/s²).
    pub fn emergency(acceleration: i64, reason: EmergencyReason) -> (r: PIDResult)
        requires
            -1_000_000_000_000 <= acceleration <= 1_000_000_000_000,
        ensures
            r == spec_emergency_result(acceleration as int, reason),
    {
        let (throttle, brake) = acceleration_to_throttle_brake(acceleration);
        PIDResult {
            acceleration,
            throttle,
            brake,
            emergency_brake_engaged: true,
            emergency_reason: Option::Some(reason),
            manual_brake_detected: false,
            cruise_should_disengage: true,
            cruise_can_reengage: false,
        }
    }

    /// A manual-brake result for acceleration `acceleration` (mm/s²).
    pub fn manual_brake(acceleration: i64) -> (r: PIDResult)
        requires
            -1_000_000_000_000 <= acceleration <= 1_000_000_000_000,
        ensures
            r == spec_manual_result(acceleration as int),
    {
        let (throttle, brake) = acceleration_to_throttle_brake(acceleration);
        PIDResult {
            acceleration,
            throttle,
            brake,
            emergency_brake_engaged: false,
            emergency_reason: Option::None,
            manual_brake_detected: true,
            cruise_should_disengage: true,
            cruise_can_reengage: false,
        }
    }

    /// The same result, announcing that cruise may re-engage.
    pub fn with_reengage_capability(self) -> (r: PIDResult)
        ensures
            r == (PIDResult { cruise_can_reengage: true, ..self }),
    {
        PIDResult { cruise_can_reengage: true, ..self }
    }
}

/// The PID controller with its safety configuration and suspension state.
///
/// Gains are in thousandths, errors in mm/s, times in ms, distances in mm,
/// accelerations in mm/s². The integral accumulator sums error times
/// timestep in micro-units and saturates at `INTEG_LIMIT`.
#[derive(Clone, Copy, Debug)]
pub struct PIDController {
    pub kp: i64,
    pub ki: i64,
    pub kd: i64,
    pub velocity_error: i64,
    pub previous_error: i64,
    pub accumulated_error: i64,
    pub previous_time: i64,
    pub emergency_stop_distance: i64,
    pub slow_down_distance: i64,
    pub max_braking_acceleration: i64,
    pub previous_velocity: i64,
    pub manual_brake_threshold: i64,
    pub cruise_suspended: bool,
    pub target_speed_tolerance: i64,
}

impl PIDController {
    /// All fields lie in the ranges the control laws are stated for.
    pub open spec fn wf(self) -> bool {
        &&& 0 <= self.kp <= GAIN_MAX
        &&& 0 <= self.ki <= GAIN_MAX
        &&& 0 <= self.kd <= GAIN_MAX
        &&& -VEL_MAX <= self.velocity_error <= VEL_MAX
        &&& -VEL_MAX <= self.previous_error <= VEL_MAX
        &&& -INTEG_LIMIT <= self.accumulated_error <= INTEG_LIMIT
        &&& 0 <= self.previous_time <= TIME_MAX
        &&& 0 < self.emergency_stop_distance < self.slow_down_distance <= DIST_MAX
        &&& -BRAKE_ACCEL_MAX <= self.max_braking_acceleration <= 0
        &&& 0 <= self.previous_velocity <= VEL_MAX
        &&& 0 <= self.target_speed_tolerance <= VEL_MAX
    }

    /// A controller with gains `(kp, ki, kd)` (thousandths) and the
    /// default safety configuration: emergency stop at 3 m, slow-down at
    /// 15 m, hardest braking -10 m/s².
    pub fn new(kp: i64, ki: i64, kd: i64) -> (r: PIDController)
        requires
            0 <= kp <= GAIN_MAX,
            0 <= ki <= GAIN_MAX,
            0 <= kd <= GAIN_MAX,
        ensures
            r == spec_initial(kp as int, ki as int, kd as int, 3000, 15_000, -10_000),
            r.wf(),
    {
        Self::new_with_emergency_config(kp, ki, kd, 3000, 15_000, -10_000)
    }

    /// A controller with gains and an explicit safety configuration.
    pub fn new_with_emergency_config(
        kp: i64,
        ki: i64,
        kd: i64,
        emergency_stop_distance: i64,
        slow_down_distance: i64,
        max_braking_acceleration: i64,
    ) -> (r: PIDController)
        requires
            0 <= kp <= GAIN_MAX,
            0 <= ki <= GAIN_MAX,
            0 <= kd <= GAIN_MAX,
            0 < emergency_stop_distance < slow_down_distance <= DIST_MAX,
            -BRAKE_ACCEL_MAX <= max_braking_acceleration <= 0,
        ensures
            r == spec_initial(
                kp as int,
                ki as int,
                kd as int,
                emergency_stop_distance as int,
                slow_down_distance as int,
                max_braking_acceleration as int,
            ),
            r.wf(),
    {
        PIDController {
            kp,
            ki,
            kd,
            velocity_error: 0,
            previous_error: 0,
            accumulated_error: 0,
            previous_time: 0,
            emergency_stop_distance,
            slow_down_distance,
            max_braking_acceleration,
            previous_velocity: 0,
            manual_brake_threshold: -2000,
            cruise_suspended: false,
            target_speed_tolerance: 2000,
        }
    }

    /// Replace the emergency brake configuration.
    pub fn set_emergency_config(
        &mut self,
        emergency_stop_distance: i64,
        slow_down_distance: i64,
        max_braking_acceleration: i64,
    )
        requires
            0 < emergency_stop_distance < slow_down_distance <= DIST_MAX,
            -BRAKE_ACCEL_MAX <= max_braking_acceleration <= 0,
        ensures
            *final(self) == (PIDController {
                emergency_stop_distance,
                slow_down_distance,
                max_braking_acceleration,
                ..*old(self)
            }),
    {
        self.emergency_stop_distance = emergency_stop_distance;
        self.slow_down_distance = slow_down_distance;
        self.max_braking_acceleration = max_braking_acceleration;
    }

    /// The emergency brake configuration.
    pub fn get_emergency_config(&self) -> (r: (i64, i64, i64))
        ensures
            r == (self.emergency_stop_distance, self.slow_down_distance,
            self.max_braking_acceleration),
    {
        (self.emergency_stop_distance, self.slow_down_distance, self.max_braking_acceleration)
    }

    /// Replace the manual-brake configuration.
    pub fn set_manual_brake_config(&mut self, brake_threshold: i64, speed_tolerance: i64)
        requires
            0 <= speed_tolerance <= VEL_MAX,
        ensures
            *final(self) == (PIDController {
                manual_brake_threshold: brake_threshold,
                target_speed_tolerance: speed_tolerance,
                ..*old(self)
            }),
    {
        self.manual_brake_threshold = brake_threshold;
        self.target_speed_tolerance = speed_tolerance;
    }

    /// The manual-brake configuration and the suspension state.
    pub fn get_manual_brake_config(&self) -> (r: (i64, i64, bool))
        ensures
            r == (self.manual_brake_threshold, self.target_speed_tolerance,
            self.cruise_suspended),
    {
        (self.manual_brake_threshold, self.target_speed_tolerance, self.cruise_suspended)
    }

    /// Force cruise suspension.
    pub fn suspend_cruise_control(&mut self)
        ensures
            *final(self) == (PIDController { cruise_suspended: true, ..*old(self) }),
    {
        self.cruise_suspended = true;
    }

    /// Whether cruise is currently suspended.
    pub fn is_cruise_suspended(&self) -> (r: bool)
        ensures
            r == self.cruise_suspended,
    {
        self.cruise_suspended
    }

    /// Clear all history: errors, integral, clock, velocity, suspension.
    /// The configuration is kept.
    pub fn reset(&mut self)
        ensures
            *final(self) == (PIDController {
                velocity_error: 0,
                previous_error: 0,
                accumulated_error: 0,
                previous_time: 0,
                previous_velocity: 0,
                cruise_suspended: false,
                ..*old(self)
            }),
            final(self).accumulated_error == 0,
    {
        self.velocity_error = 0;
        self.previous_error = 0;
        self.accumulated_error = 0;
        self.previous_time = 0;
        self.previous_velocity = 0;
        self.cruise_suspended = false;
    }
}

/// A freshly configured controller: no history, not suspended, driver
/// tolerance of 2 m/s for re-engagement.
pub open spec fn spec_initial(
    kp: int,
    ki: int,
    kd: int,
    emergency_stop_distance: int,
    slow_down_distance: int,
    max_braking_acceleration: int,
) -> PIDController {
    PIDController {
        kp: kp as i64,
        ki: ki as i64,
        kd: kd as i64,
        velocity_error: 0,
        previous_error: 0,
        accumulated_error: 0,
        previous_time: 0,
        emergency_stop_distance: emergency_stop_distance as i64,
        slow_down_distance: slow_down_distance as i64,
        max_braking_acceleration: max_braking_acceleration as i64,
        previous_velocity: 0,
        manual_brake_threshold: -2000i64,
        cruise_suspended: false,
        target_speed_tolerance: 2000,
    }
}

/// Speed factor commanded by the steering input (thousandths): no
/// reduction up to 30 % steering, then a linear cut down to 80 % of the
/// target speed at full steering.
pub open spec fn spec_steering_factor(steer: int) -> int {
    let a = spec_abs(steer);
    if a <= 300 {
        1000
    } else {
        1000 - (a - 300) * 2 / 7
    }
}

/// Acceleration observed between the previous step and this one (mm/s²):
/// velocity change over elapsed time, zero when no time elapsed.
pub open spec fn spec_observed_accel(c: PIDController, cv: int, t: int) -> int {
    let dt = t - c.previous_time;
    if dt > 0 {
        div_to_zero((cv - c.previous_velocity) * 1000, dt)
    } else {
        0
    }
}

/// Whether a suspended cruise may re-engage: the speed has converged to
/// the target, the vehicle moves, and it is not braking hard.
pub open spec fn spec_can_reengage(c: PIDController, dv: int, cv: int, t: int) -> bool {
    &&& c.cruise_suspended
    &&& spec_abs(dv - cv) <= c.target_speed_tolerance
    &&& cv > 0
    &&& spec_observed_accel(c, cv, t) >= -500
}

/// Velocity scale of the safety distances: `max(cv, 10_000)` in mm/s,
/// to be read against the denominator 10_000. At and below 10 m/s the
/// thresholds equal their configured values; above, they grow linearly.
pub open spec fn spec_velocity_scale(cv: int) -> int {
    spec_max(cv, 10_000)
}

/// Emergency-brake acceleration (mm/s²) for an obstacle at `d` mm with
/// scaled emergency threshold `e_scaled = emergency_stop_distance *
/// spec_velocity_scale(cv)`: the configured hardest braking, weighted by
/// the urgency of the approach, never below half of it.
pub open spec fn spec_emergency_accel(c: PIDController, d: int, e_scaled: int) -> int {
    let urgency = 1000 - d * 10_000_000 / e_scaled;
    div_to_zero(c.max_braking_acceleration * spec_max(urgency, 500), 1000)
}

/// Position of `d` between the scaled emergency and slow-down thresholds,
/// in thousandths: 0 at the emergency threshold, approaching 1000 at the
/// slow-down threshold.
pub open spec fn spec_distance_factor(d: int, e_scaled: int, s_scaled: int) -> int {
    (d * 10_000 - e_scaled) * 1000 / (s_scaled - e_scaled)
}

/// The normal PID law over the (possibly modified) target `mt`: new
/// controller history and commanded acceleration (mm/s²), clamped to
/// ±1.5 m/s². The integral saturates at `INTEG_LIMIT` micro-units.
pub open spec fn spec_pid_update(c: PIDController, mt: int, cv: int, dt: int) -> (
    PIDController,
    int,
) {
    let err = mt - cv;
    let accum = spec_clamp(
        c.accumulated_error + err * dt,
        -INTEG_LIMIT as int,
        INTEG_LIMIT as int,
    );
    let deriv = div_to_zero((err - c.velocity_error) * 1000, dt);
    let raw = div_to_zero(c.kp * err, 1000) + div_to_zero(c.ki * div_to_zero(accum, 1000), 1000)
        + div_to_zero(c.kd * deriv, 1000);
    let a = spec_clamp(raw, -1500, 1500);
    (
        PIDController {
            velocity_error: err as i64,
            previous_error: c.velocity_error,
            accumulated_error: accum as i64,
            ..c
        },
        a,
    )
}

/// Gentle braking commanded when the vehicle runs more than 15 % over
/// the target: proportional to the excess, capped at -1 m/s².
pub open spec fn spec_overspeed_accel(cv: int, mt: int) -> int {
    let excess = cv - mt;
    if excess > 2000 {
        -1000
    } else {
        -(excess * 8 / 10)
    }
}

/// One full controller step as a mathematical function: the next
/// controller state and the step's outcome, given the commanded target
/// `dv`, measured velocity `cv`, clock `t` (all fixed-point), the nearest
/// path-blocking obstacle (mm, if any), and the driver inputs.
pub open spec fn spec_step(
    c: PIDController,
    dv: int,
    cv: int,
    t: int,
    obstacle: Option<int>,
    steer_in: int,
    brake_in: int,
) -> (PIDController, Result<PIDResult, ComputeError>) {
    if c.previous_time == 0 {
        // Bootstrap: record the clock and velocity, command nothing.
        (
            PIDController { previous_time: t as i64, previous_velocity: cv as i64, ..c },
            Result::Ok(spec_plain_result(0)),
        )
    } else {
        let dt = t - c.previous_time;
        if brake_in > 100 {
            // Driver override: suspend cruise, mirror the pedal as braking.
            (
                PIDController {
                    previous_time: t as i64,
                    previous_velocity: cv as i64,
                    cruise_suspended: true,
                    ..c
                },
                Result::Ok(spec_manual_result(-3 * brake_in)),
            )
        } else {
            let can_re = spec_can_reengage(c, dv, cv, t);
            if c.cruise_suspended {
                // Suspended: no intervention; announce re-engagement when
                // the conditions hold, and end the suspension then.
                (
                    PIDController {
                        previous_time: t as i64,
                        previous_velocity: cv as i64,
                        cruise_suspended: !can_re,
                        ..c
                    },
                    Result::Ok(spec_suspended_result(can_re)),
                )
            } else {
                let adj = dv * spec_steering_factor(steer_in) / 1000;
                let scale = spec_velocity_scale(cv);
                let e_scaled = c.emergency_stop_distance * scale;
                let s_scaled = c.slow_down_distance * scale;
                if obstacle matches Option::Some(d) && d * 10_000 < e_scaled {
                    // Obstacle inside the emergency envelope.
                    let d = obstacle.unwrap();
                    let reason = EmergencyReason {
                        distance: d as i64,
                        threshold: (e_scaled / 10_000) as i64,
                    };
                    (
                        PIDController { previous_time: t as i64, ..c },
                        Result::Ok(
                            spec_emergency_result(spec_emergency_accel(c, d, e_scaled), reason),
                        ),
                    )
                } else {
                    let slow = obstacle matches Option::Some(d) && d * 10_000 < s_scaled;
                    let df = if slow {
                        spec_distance_factor(obstacle.unwrap(), e_scaled, s_scaled)
                    } else {
                        1000
                    };
                    if slow && df < 500 {
                        // Aggressive slowing: immediate gentle braking.
                        let gentle = div_to_zero(
                            c.max_braking_acceleration * 3 * (1000 - df),
                            10_000,
                        );
                        (
                            PIDController { previous_time: t as i64, ..c },
                            Result::Ok(spec_plain_result(spec_max(gentle, -1000))),
                        )
                    } else {
                        let mt = if slow {
                            adj * spec_max(df, 200) / 1000
                        } else {
                            adj
                        };
                        if dt < -1 {
                            (
                                PIDController { previous_time: t as i64, ..c },
                                Result::Err(ComputeError::NegativeDeltaTime {
                                    delta_time: dt as i64,
                                    current_time: t as i64,
                                }),
                            )
                        } else {
                            let dt_eff = if dt <= 0 {
                                1int
                            } else {
                                dt
                            };
                            if 20 * cv > 23 * mt {
                                // Overspeed: bypass the PID and its integral.
                                (
                                    PIDController {
                                        previous_time: t as i64,
                                        previous_velocity: cv as i64,
                                        ..c
                                    },
                                    Result::Ok(spec_plain_result(spec_overspeed_accel(cv, mt))),
                                )
                            } else {
                                let (cpid, a) = spec_pid_update(c, mt, cv, dt_eff);
                                (
                                    PIDController {
                                        previous_time: t as i64,
                                        previous_velocity: cv as i64,
                                        ..cpid
                                    },
                                    Result::Ok(spec_plain_result(a)),
                                )
                            }
                        }
                    }
                }
            }
        }
    }
}

/// The nearest path-blocking obstacle the controller sees in a step: the
/// nearest corridor detection of the latest frame, unless the frame is
/// absent, flagged empty, or carries no detections.
pub open spec fn spec_effective_obstacle(lidar: Option<&LidarMeasurement>) -> Option<int> {
    match lidar {
        Option::None => Option::None,
        Option::Some(l) => if l.is_empty || l.detections@.len() == 0 {
            Option::None
        } else {
            closest_forward(l.detections@)
        },
    }
}

impl PIDController {
    /// Speed factor commanded by the steering input (thousandths).
    pub fn calculate_steering_compensation(steer_input: i64) -> (r: i64)
        requires
            -UNIT <= steer_input <= UNIT,
        ensures
            r == spec_steering_factor(steer_input as int),
            800 <= r <= 1000,
    {
        let abs_steering = if steer_input >= 0 {
            steer_input
        } else {
            -steer_input
        };
        if abs_steering <= 300 {
            1000
        } else {
            1000 - (abs_steering - 300) * 2 / 7
        }
    }

    /// One controller step. The returned state and result are exactly
    /// `spec_step` of the entry state over the effective obstacle of the
    /// given frame; the step fails only when the clock ran backwards by
    /// more than a millisecond before any safety branch decided.
    #[verifier::rlimit(80)]
    pub fn compute(
        &mut self,
        desired_velocity: i64,
        current_velocity: i64,
        current_time: i64,
        lidar_data: Option<&LidarMeasurement>,
        throttle_input: i64,
        steer_input: i64,
        brake_input: i64,
    ) -> (r: Result<PIDResult, ComputeError>)
        requires
            old(self).wf(),
            0 <= desired_velocity <= VEL_MAX,
            0 <= current_velocity <= VEL_MAX,
            0 <= current_time <= TIME_MAX,
            0 <= throttle_input <= UNIT,
            -UNIT <= steer_input <= UNIT,
            0 <= brake_input <= UNIT,
        ensures
            final(self).wf(),
            (*final(self), r) == spec_step(
                *old(self),
                desired_velocity as int,
                current_velocity as int,
                current_time as int,
                spec_effective_obstacle(lidar_data),
                steer_input as int,
                brake_input as int,
            ),
            current_time >= old(self).previous_time - 1 ==> r is Ok,
            r matches Result::Ok(p) ==> -BRAKE_ACCEL_MAX <= p.acceleration <= 1500,
            r matches Result::Ok(p) ==> p.throttle == spec_throttle(p.acceleration as int)
                && p.brake == spec_brake(p.acceleration as int) && (p.throttle == 0 || p.brake
                == 0) && 0 <= p.throttle <= UNIT && 0 <= p.brake <= UNIT,
    {
        let ghost c0 = *self;
        let ghost obstacle = spec_effective_obstacle(lidar_data);

        if self.previous_time == 0 {
            self.previous_time = current_time;
            self.previous_velocity = current_velocity;
            return Result::Ok(PIDResult::new(0));
        }

        let delta_time = current_time - self.previous_time;
        self.previous_time = current_time;

        if brake_input > 100 {
            self.cruise_suspended = true;
            self.previous_velocity = current_velocity;
            return Result::Ok(PIDResult::manual_brake(-3 * brake_input));
        }

        let velocity_change = current_velocity - self.previous_velocity;
        let actual_acceleration = if delta_time > 0 {
            div_i64_to_zero(velocity_change * 1000, delta_time)
        } else {
            0
        };
        proof {
            assert(actual_acceleration == spec_observed_accel(c0, current_velocity as int,
                current_time as int));
        }

        let speed_difference = if desired_velocity >= current_velocity {
            desired_velocity - current_velocity
        } else {
            current_velocity - desired_velocity
        };
        let can_reengage = self.cruise_suspended && speed_difference
            <= self.target_speed_tolerance && current_velocity > 0 && actual_acceleration >= -500;
        proof {
            assert(can_reengage == spec_can_reengage(c0, desired_velocity as int,
                current_velocity as int, current_time as int));
        }

        if self.cruise_suspended {
            self.cruise_suspended = !can_reengage;
            self.previous_velocity = current_velocity;
            let result = PIDResult::new(0);
            return Result::Ok(
                if can_reengage {
                    result.with_reengage_capability()
                } else {
                    result
                },
            );
        }

        let steering_factor = Self::calculate_steering_compensation(steer_input);
        proof {
            vstd::arithmetic::mul::lemma_mul_upper_bound(desired_velocity as int, VEL_MAX as int,
                steering_factor as int, 1000);
            vstd::arithmetic::mul::lemma_mul_nonnegative(desired_velocity as int,
                steering_factor as int);
            vstd::arithmetic::div_mod::lemma_div_basics_4(
                desired_velocity * steering_factor,
                1000,
            );
            vstd::arithmetic::div_mod::lemma_div_is_ordered(
                desired_velocity * steering_factor,
                (VEL_MAX as int) * 1000,
                1000,
            );
            assert((VEL_MAX as int) * 1000 / 1000 == VEL_MAX as int) by (nonlinear_arith);
        }
        let adjusted_desired_velocity = (desired_velocity * steering_factor) / 1000;

        let scale = if current_velocity > 10_000 {
            current_velocity
        } else {
            10_000
        };
        proof {
            assert(scale == spec_velocity_scale(current_velocity as int));
            vstd::arithmetic::mul::lemma_mul_upper_bound(self.emergency_stop_distance as int,
                DIST_MAX as int, scale as int, VEL_MAX as int);
            vstd::arithmetic::mul::lemma_mul_upper_bound(self.slow_down_distance as int,
                DIST_MAX as int, scale as int, VEL_MAX as int);
            assert(self.emergency_stop_distance * scale >= 1 * 10_000) by (nonlinear_arith)
                requires self.emergency_stop_distance >= 1 && scale >= 10_000;
            assert(self.slow_down_distance * scale >= (self.emergency_stop_distance + 1) * scale)
                by (nonlinear_arith)
                requires
                    self.slow_down_distance >= self.emergency_stop_distance + 1,
                    scale >= 10_000;
            assert((self.emergency_stop_distance + 1) * scale
                == self.emergency_stop_distance * scale + scale) by (nonlinear_arith);
        }
        let e_scaled = self.emergency_stop_distance * scale;
        let s_scaled = self.slow_down_distance * scale;

        let mut modified_desired_velocity = adjusted_desired_velocity;

        let obstacle_distance: Option<i64> = match lidar_data {
            Option::None => Option::None,
            Option::Some(l) => {
                if l.is_empty || l.detections.len() == 0 {
                    Option::None
                } else {
                    closest_forward_obstacle(&l.detections)
                }
            },
        };
        proof {
            match obstacle_distance {
                Option::Some(d) => {
                    assert(obstacle == Option::Some(d as int));
                    crate::lidar::lemma_closest_forward_member(
                        lidar_data.unwrap().detections@,
                    );
                    assert(1000 < d < 30_000);
                },
                Option::None => {
                    assert(obstacle is None);
                },
            }
        }

        if let Option::Some(closest_distance) = obstacle_distance {
            if closest_distance * 10_000 < e_scaled {
                let urgency = 1000 - (closest_distance * 10_000_000) / e_scaled;
                proof {
                    lemma_quotient_within(closest_distance * 10_000_000, e_scaled as int, 1000);
                }
                let urgency_weight = if urgency > 500 {
                    urgency
                } else {
                    500
                };
                proof {
                    lemma_product_bound(self.max_braking_acceleration as int,
                        urgency_weight as int, BRAKE_ACCEL_MAX as int, 1000);
                    crate::units::lemma_div_to_zero_scaled_bound(
                        (self.max_braking_acceleration as int) * (urgency_weight as int),
                        1000,
                        BRAKE_ACCEL_MAX as int,
                    );
                    assert((self.max_braking_acceleration as int) * (urgency_weight as int)
                        <= 0) by (nonlinear_arith)
                        requires
                            self.max_braking_acceleration <= 0,
                            urgency_weight >= 0;
                    vstd::arithmetic::div_mod::lemma_div_basics_4(
                        -((self.max_braking_acceleration as int) * (urgency_weight as int)),
                        1000,
                    );
                }
                let emergency_acceleration = div_i64_to_zero(
                    self.max_braking_acceleration * urgency_weight,
                    1000,
                );
                let reason = EmergencyReason {
                    distance: closest_distance,
                    threshold: e_scaled / 10_000,
                };
                return Result::Ok(PIDResult::emergency(emergency_acceleration, reason));
            } else if closest_distance * 10_000 < s_scaled {
                proof {
                    lemma_quotient_within(
                        (closest_distance * 10_000 - e_scaled) * 1000,
                        s_scaled - e_scaled,
                        1000,
                    );
                }
                let distance_factor = ((closest_distance * 10_000 - e_scaled) * 1000) / (s_scaled
                    - e_scaled);
                let brake_intensity = 1000 - distance_factor;

                let df_floor = if distance_factor > 200 {
                    distance_factor
                } else {
                    200
                };
                proof {
                    vstd::arithmetic::mul::lemma_mul_upper_bound(
                        adjusted_desired_velocity as int,
                        VEL_MAX as int,
                        df_floor as int,
                        1000,
                    );
                    vstd::arithmetic::mul::lemma_mul_nonnegative(adjusted_desired_velocity as int,
                        df_floor as int);
                    vstd::arithmetic::div_mod::lemma_div_basics_4(
                        adjusted_desired_velocity * df_floor,
                        1000,
                    );
                    vstd::arithmetic::div_mod::lemma_div_is_ordered(
                        adjusted_desired_velocity * df_floor,
                        (VEL_MAX as int) * 1000,
                        1000,
                    );
                    assert((VEL_MAX as int) * 1000 / 1000 == VEL_MAX as int) by (nonlinear_arith);
                }
                modified_desired_velocity = (adjusted_desired_velocity * df_floor) / 1000;

                if brake_intensity > 500 {
                    proof {
                        assert(spec_abs(self.max_braking_acceleration * 3 * (1000
                            - distance_factor)) <= 300_000_000) by (nonlinear_arith)
                            requires
                                -BRAKE_ACCEL_MAX <= self.max_braking_acceleration <= 0,
                                0 <= distance_factor < 1000,
                                BRAKE_ACCEL_MAX == 100_000;
                    }
                    proof {
                        assert(self.max_braking_acceleration * 3 * (1000 - distance_factor)
                            <= 0) by (nonlinear_arith)
                            requires
                                self.max_braking_acceleration <= 0,
                                distance_factor < 1000;
                        vstd::arithmetic::div_mod::lemma_div_basics_4(
                            -(self.max_braking_acceleration * 3 * (1000 - distance_factor)),
                            10_000,
                        );
                    }
                    let gentle_brake = div_i64_to_zero(
                        self.max_braking_acceleration * 3 * (1000 - distance_factor),
                        10_000,
                    );
                    let braking = if gentle_brake > -1000 {
                        gentle_brake
                    } else {
                        -1000
                    };
                    return Result::Ok(PIDResult::new(braking));
                }
            }
        }

        if delta_time <= 0 {
            if delta_time < -1 {
                return Result::Err(ComputeError::NegativeDeltaTime {
                    delta_time,
                    current_time,
                });
            }
            let result = self.compute_pid(modified_desired_velocity, current_velocity, 1);
            self.previous_velocity = current_velocity;
            return Result::Ok(result);
        }

        let result = self.compute_pid(modified_desired_velocity, current_velocity, delta_time);
        self.previous_velocity = current_velocity;
        Result::Ok(result)
    }

    /// The overspeed clamp and the normal PID law over the (possibly
    /// modified) target. The caller guarantees a positive timestep.
    fn compute_pid(&mut self, desired_velocity: i64, current_velocity: i64, delta_time: i64) -> (r:
        PIDResult)
        requires
            old(self).wf(),
            0 <= desired_velocity <= VEL_MAX,
            0 <= current_velocity <= VEL_MAX,
            0 < delta_time <= TIME_MAX,
        ensures
            final(self).wf(),
            if 20 * current_velocity > 23 * desired_velocity {
                *final(self) == *old(self) && r == spec_plain_result(
                    spec_overspeed_accel(current_velocity as int, desired_velocity as int),
                )
            } else {
                ({
                    let (cpid, a) = spec_pid_update(
                        *old(self),
                        desired_velocity as int,
                        current_velocity as int,
                        delta_time as int,
                    );
                    *final(self) == cpid && r == spec_plain_result(a)
                })
            },
    {
        // Overspeed by more than 15 %: brake gently, bypass the PID.
        if 20 * current_velocity > 23 * desired_velocity {
            let speed_excess = current_velocity - desired_velocity;
            let gentle_braking = if speed_excess > 2000 {
                -1000
            } else {
                -((speed_excess * 8) / 10)
            };
            return PIDResult::new(gentle_braking);
        }

        self.previous_error = self.velocity_error;
        self.velocity_error = desired_velocity - current_velocity;
        proof {
            assert(spec_abs((self.velocity_error as int) * (delta_time as int))
                <= 1_000_000_000_000_000) by (nonlinear_arith)
                requires
                    -VEL_MAX <= self.velocity_error <= VEL_MAX,
                    0 < delta_time <= TIME_MAX,
                    VEL_MAX == 1_000_000,
                    TIME_MAX == 1_000_000_000;
        }
        let integral_step = self.velocity_error * delta_time;
        self.accumulated_error = clamp_i64(
            if self.accumulated_error <= INTEG_LIMIT - integral_step {
                self.accumulated_error + integral_step
            } else {
                INTEG_LIMIT
            },
            -INTEG_LIMIT,
            INTEG_LIMIT,
        );
        proof {
            assert(self.accumulated_error as int == spec_clamp(
                old(self).accumulated_error + (self.velocity_error as int) * (delta_time as int),
                -INTEG_LIMIT as int,
                INTEG_LIMIT as int,
            ));
        }
        let derivative_error = div_i64_to_zero(
            (self.velocity_error - self.previous_error) * 1000,
            delta_time,
        );
        proof {
            lemma_quotient_scale_bound(self.accumulated_error as int, INTEG_LIMIT as int);
            lemma_product_bound(self.kp as int, self.velocity_error as int, GAIN_MAX as int,
                VEL_MAX as int);
            lemma_product_bound(self.ki as int, div_to_zero(self.accumulated_error as int, 1000),
                GAIN_MAX as int, 4_000_000_000_000int);
            lemma_product_bound(self.kd as int, derivative_error as int, GAIN_MAX as int,
                2_000_000_000int);
        }
        let p_term = div_i64_to_zero(self.kp * self.velocity_error, 1000);
        let i_scaled = div_i64_to_zero(self.accumulated_error, 1000);
        let i_term = div_i64_to_zero(self.ki * i_scaled, 1000);
        let d_term = div_i64_to_zero(self.kd * derivative_error, 1000);
        let acceleration = p_term + i_term + d_term;
        let limited_acceleration = clamp_i64(acceleration, -1500, 1500);
        PIDResult::new(limited_acceleration)
    }
}

/// For `0 <= x < d * k` with positive `d`, the quotient `x / d` stays
/// strictly below `k`.
proof fn lemma_quotient_within(x: int, d: int, k: int)
    requires
        d > 0,
        k > 0,
        0 <= x < d * k,
    ensures
        0 <= x / d < k,
{
    vstd::arithmetic::div_mod::lemma_div_basics_4(x, d);
    if x / d >= k {
        vstd::arithmetic::div_mod::lemma_fundamental_div_mod(x, d);
        vstd::arithmetic::mul::lemma_mul_inequality(k, x / d, d);
        assert(d * k <= d * (x / d)) by (nonlinear_arith)
            requires k <= x / d, d > 0;
        assert(false);
    }
}

/// `|a| <= ma` and `|b| <= mb` bound the product: `|a * b| <= ma * mb`.
proof fn lemma_product_bound(a: int, b: int, ma: int, mb: int)
    requires
        spec_abs(a) <= ma,
        spec_abs(b) <= mb,
    ensures
        spec_abs(a * b) <= ma * mb,
{
    assert(spec_abs(a * b) <= ma * mb) by (nonlinear_arith)
        requires
            spec_abs(a) <= ma,
            spec_abs(b) <= mb;
}

/// A value within the integral saturation bound, scaled down by 1000,
/// stays within a thousandth of the bound.
proof fn lemma_quotient_scale_bound(a: int, lim: int)
    requires
        lim == INTEG_LIMIT as int,
        spec_abs(a) <= lim,
    ensures
        spec_abs(div_to_zero(a, 1000)) <= 4_000_000_000_000int,
{
    if a >= 0 {
        vstd::arithmetic::div_mod::lemma_div_basics_4(a, 1000);
        vstd::arithmetic::div_mod::lemma_div_is_ordered(a, lim, 1000);
        assert(lim / 1000 == 4_000_000_000_000int);
    } else {
        vstd::arithmetic::div_mod::lemma_div_basics_4(-a, 1000);
        vstd::arithmetic::div_mod::lemma_div_is_ordered(-a, lim, 1000);
        assert(lim / 1000 == 4_000_000_000_000int);
    }
}

} // verus!
