//! The guarantees the library makes across its functions, each proved.
//!
//! Every law is a public proof function: its statement is the claim and
//! Verus has checked it for all values of its parameters.

use vstd::prelude::*;
use crate::actuator::{spec_brake, spec_brake_raw, spec_throttle, spec_throttle_raw};
use crate::dispatch::{spec_handle_core, CruiseState, IngressEvent};
use crate::lidar::{closest_forward, in_corridor, lemma_closest_forward_le, LidarDetection};
use crate::pid::{
    spec_plain_result, spec_steering_factor, spec_step, spec_velocity_scale, ComputeError,
    PIDController, PIDResult,
};
use crate::units::spec_abs;

verus! {

/// Law: for every acceleration, at most one actuator is driven — the
/// product of throttle and brake is zero — and both lie in `[0, 1000]`.
pub proof fn law_actuators_exclusive(a: int)
    ensures
        spec_throttle(a) * spec_brake(a) == 0,
        0 <= spec_throttle(a) <= 1000,
        0 <= spec_brake(a) <= 1000,
{
    if a > 0 {
        assert(spec_throttle(a) * spec_brake(a) == 0) by (nonlinear_arith)
            requires spec_brake(a) == 0;
    } else {
        assert(spec_throttle(a) * spec_brake(a) == 0) by (nonlinear_arith)
            requires spec_throttle(a) == 0;
    }
}

/// The raw throttle curve never decreases on positive accelerations.
proof fn lemma_throttle_raw_monotone(a1: int, a2: int)
    requires
        0 < a1 <= a2,
    ensures
        spec_throttle_raw(a1) <= spec_throttle_raw(a2),
{
    vstd::arithmetic::div_mod::lemma_div_is_ordered(a1 * 400, a2 * 400, 1000);
    vstd::arithmetic::div_mod::lemma_div_is_ordered((a1 - 500) * 400, (a2 - 500) * 400, 1000);
    vstd::arithmetic::div_mod::lemma_div_is_ordered((a1 - 1500) * 267, (a2 - 1500) * 267, 1000);
    if a1 <= 500 && a2 > 500 {
        vstd::arithmetic::div_mod::lemma_div_is_ordered(a1 * 400, 200_000int, 1000);
        vstd::arithmetic::div_mod::lemma_div_basics_4((a2 - 500) * 400, 1000);
    }
    if a1 <= 1500 && a2 > 1500 {
        vstd::arithmetic::div_mod::lemma_div_is_ordered((a1 - 500) * 400, 400_000int, 1000);
        vstd::arithmetic::div_mod::lemma_div_basics_4((a2 - 1500) * 267, 1000);
        if a1 <= 500 {
            vstd::arithmetic::div_mod::lemma_div_is_ordered(a1 * 400, 200_000int, 1000);
        }
    }
}

/// The raw brake curve never decreases on deceleration magnitudes.
proof fn lemma_brake_raw_monotone(d1: int, d2: int)
    requires
        0 <= d1 <= d2,
    ensures
        spec_brake_raw(d1) <= spec_brake_raw(d2),
{
    vstd::arithmetic::div_mod::lemma_div_is_ordered(d1 * 300, d2 * 300, 1000);
    vstd::arithmetic::div_mod::lemma_div_is_ordered((d1 - 500) * 233, (d2 - 500) * 233, 1000);
    vstd::arithmetic::div_mod::lemma_div_is_ordered((d1 - 2000) * 83, (d2 - 2000) * 83, 1000);
    if d1 <= 500 && d2 > 500 {
        vstd::arithmetic::div_mod::lemma_div_is_ordered(d1 * 300, 150_000int, 1000);
        vstd::arithmetic::div_mod::lemma_div_basics_4((d2 - 500) * 233, 1000);
    }
    if d1 < 2000 && d2 >= 2000 {
        vstd::arithmetic::div_mod::lemma_div_is_ordered((d1 - 500) * 233, 349_267int, 1000);
        vstd::arithmetic::div_mod::lemma_div_basics_4((d2 - 2000) * 83, 1000);
        if d1 <= 500 {
            vstd::arithmetic::div_mod::lemma_div_is_ordered(d1 * 300, 150_000int, 1000);
        }
    }
}

/// Law: the actuator mapping is monotone — throttle never decreases and
/// brake never increases as the commanded acceleration grows.
pub proof fn law_actuator_map_monotone(a1: int, a2: int)
    requires
        a1 <= a2,
    ensures
        spec_throttle(a1) <= spec_throttle(a2),
        spec_brake(a1) >= spec_brake(a2),
{
    if 0 < a1 {
        lemma_throttle_raw_monotone(a1, a2);
    }
    if a2 <= 0 {
        lemma_brake_raw_monotone(-a2, -a1);
    }
}

/// Law: the first step after construction or `reset` commands exactly
/// zero acceleration, whatever the inputs, and performs no integration.
pub proof fn law_first_step_is_zero(
    c: PIDController,
    dv: int,
    cv: int,
    t: int,
    obstacle: Option<int>,
    steer_in: int,
    brake_in: int,
)
    requires
        c.previous_time == 0,
    ensures
        spec_step(c, dv, cv, t, obstacle, steer_in, brake_in).1 == Result::<
            PIDResult,
            ComputeError,
        >::Ok(spec_plain_result(0)),
        spec_step(c, dv, cv, t, obstacle, steer_in, brake_in).0.accumulated_error
            == c.accumulated_error,
{
}

/// Law: a brake pedal past 10 % forces a manual-brake result that
/// disengages cruise, and leaves the controller suspended.
pub proof fn law_manual_brake_disengages(
    c: PIDController,
    dv: int,
    cv: int,
    t: int,
    obstacle: Option<int>,
    steer_in: int,
    brake_in: int,
)
    requires
        c.previous_time != 0,
        brake_in > 100,
    ensures
        ({
            let r = spec_step(c, dv, cv, t, obstacle, steer_in, brake_in).1;
            &&& r matches Result::Ok(p)
            &&& r.unwrap().manual_brake_detected
            &&& r.unwrap().cruise_should_disengage
            &&& !r.unwrap().cruise_can_reengage
        }),
        spec_step(c, dv, cv, t, obstacle, steer_in, brake_in).0.cruise_suspended,
{
}

/// Law: a corridor detection inside the scaled emergency envelope forces
/// an emergency-brake result that disengages cruise — provided the step
/// reaches the safety overlay (no bootstrap, no manual brake, not
/// suspended).
pub proof fn law_corridor_obstacle_forces_emergency(
    c: PIDController,
    dv: int,
    cv: int,
    t: int,
    dets: Seq<LidarDetection>,
    i: int,
    steer_in: int,
    brake_in: int,
)
    requires
        c.previous_time != 0,
        brake_in <= 100,
        !c.cruise_suspended,
        0 <= i < dets.len(),
        in_corridor(dets[i].point),
        dets[i].point.x * 10_000 < c.emergency_stop_distance * spec_velocity_scale(cv),
    ensures
        ({
            let r = spec_step(c, dv, cv, t, closest_forward(dets), steer_in, brake_in).1;
            &&& r matches Result::Ok(p)
            &&& r.unwrap().emergency_brake_engaged
            &&& r.unwrap().cruise_should_disengage
            &&& !r.unwrap().cruise_can_reengage
            &&& r.unwrap().emergency_reason is Some
        }),
{
    lemma_closest_forward_le(dets, i);
}

/// Law: an engage transition (activation or deactivation) clears the
/// controller's integral and history.
pub proof fn law_engage_transition_clears_integrator(s: CruiseState, e: u8)
    requires
        (e != 0) == !s.pid_active,
    ensures
        spec_handle_core(s, IngressEvent::Engage(e)).0.controller.accumulated_error == 0,
        spec_handle_core(s, IngressEvent::Engage(e)).0.controller.previous_time == 0,
{
}

/// A state in which the controller, whenever it is active, has a clear
/// integral and no history.
pub open spec fn integrator_cleared(s: CruiseState) -> bool {
    s.pid_active ==> s.controller.accumulated_error == 0 && s.controller.previous_time == 0
}

/// The state after a string of engage events, applied front to back.
pub open spec fn apply_engages(s: CruiseState, evs: Seq<u8>) -> CruiseState
    decreases evs.len(),
{
    if evs.len() == 0 {
        s
    } else {
        apply_engages(spec_handle_core(s, IngressEvent::Engage(evs[0])).0, evs.drop_first())
    }
}

/// Law: after any sequence of engage events with nothing in between,
/// starting from a disengaged controller, the integrator is zero whenever
/// the sequence leaves the controller active — so the first post-engage
/// step integrates from zero.
pub proof fn law_engage_sequence_clears_integrator(s: CruiseState, evs: Seq<u8>)
    requires
        !s.pid_active,
    ensures
        integrator_cleared(apply_engages(s, evs)),
{
    lemma_engage_chain_keeps_cleared(s, evs);
}

/// An engage event preserves `integrator_cleared`, and so does any chain
/// of them.
proof fn lemma_engage_chain_keeps_cleared(s: CruiseState, evs: Seq<u8>)
    requires
        integrator_cleared(s),
    ensures
        integrator_cleared(apply_engages(s, evs)),
    decreases evs.len(),
{
    if evs.len() > 0 {
        let s1 = spec_handle_core(s, IngressEvent::Engage(evs[0])).0;
        assert(integrator_cleared(s1));
        lemma_engage_chain_keeps_cleared(s1, evs.drop_first());
    }
}

/// Law: the first velocity step after an activating engage transition
/// publishes exactly zero acceleration and leaves the integral at zero.
pub proof fn law_first_step_after_engage(s: CruiseState, e: u8, v: i64)
    requires
        !s.pid_active,
        e != 0,
    ensures
        ({
            let s1 = spec_handle_core(s, IngressEvent::Engage(e)).0;
            let (s2, eff) = spec_handle_core(s1, IngressEvent::Velocity(v));
            &&& s1.controller.accumulated_error == 0
            &&& s2.controller.accumulated_error == 0
            &&& eff.actuation == Option::Some(0i64)
            &&& eff.engage_signal is None
        }),
{
}

/// Law: the steering compensation is exact at the anchor points — no
/// reduction at center or at 30 % steering, a 20 % speed cut at full
/// steering either way.
pub proof fn law_steering_factor_values()
    ensures
        spec_steering_factor(0) == 1000,
        spec_steering_factor(300) == 1000,
        spec_steering_factor(-300) == 1000,
        spec_steering_factor(1000) == 800,
        spec_steering_factor(-1000) == 800,
{
}

/// Law: the steering compensation never increases as the magnitude of
/// the steering input grows.
pub proof fn law_steering_factor_monotone(s1: int, s2: int)
    requires
        spec_abs(s1) <= spec_abs(s2),
    ensures
        spec_steering_factor(s1) >= spec_steering_factor(s2),
{
    let a1 = spec_abs(s1);
    let a2 = spec_abs(s2);
    if a2 > 300 {
        vstd::arithmetic::div_mod::lemma_div_basics_4((a2 - 300) * 2, 7);
        if a1 > 300 {
            vstd::arithmetic::div_mod::lemma_div_is_ordered((a1 - 300) * 2, (a2 - 300) * 2, 7);
        }
    }
}

/// Law: on a velocity event of an active controller, the dispatcher
/// publishes the engage signal `0` exactly when the step demanded
/// disengagement — and the feature is then off — and `1` exactly when a
/// disengaged feature may re-engage — and it is then on again; an
/// actuation value is published exactly when the step succeeded.
pub proof fn law_engage_signal_matches_step(s: CruiseState, v: i64)
    requires
        s.pid_active,
    ensures
        ({
            let (s2, eff) = spec_handle_core(s, IngressEvent::Velocity(v));
            let sr = spec_step(
                s.controller,
                s.desired_velocity as int,
                v as int,
                s.current_time as int,
                crate::dispatch::spec_stored_obstacle(s.latest_lidar_data),
                s.steer as int,
                s.brake as int,
            );
            &&& (eff.actuation is Some) == (sr.1 is Ok)
            &&& (eff.engage_signal == Option::Some(0u8)) == (sr.1 matches Result::Ok(p)
                && p.cruise_should_disengage)
            &&& (eff.engage_signal == Option::Some(0u8)) ==> s2.is_engaged == 0 && !s2.pid_active
            &&& (eff.engage_signal == Option::Some(1u8)) == (sr.1 matches Result::Ok(p)
                && !p.cruise_should_disengage && p.cruise_can_reengage && s.is_engaged == 0)
            &&& (eff.engage_signal == Option::Some(1u8)) ==> s2.is_engaged == 1 && s2.pid_active
        }),
{
}

/// Law: the flags of a step result hang together — an emergency or a
/// manual brake forces disengagement and rules out re-engagement, and
/// re-engagement is only ever announced from a suspended controller.
pub proof fn law_result_flags(
    c: PIDController,
    dv: int,
    cv: int,
    t: int,
    obstacle: Option<int>,
    steer_in: int,
    brake_in: int,
)
    ensures
        ({
            let r = spec_step(c, dv, cv, t, obstacle, steer_in, brake_in).1;
            r matches Result::Ok(p) ==> {
                &&& (p.emergency_brake_engaged ==> p.cruise_should_disengage
                    && !p.cruise_can_reengage && p.emergency_reason is Some)
                &&& (p.manual_brake_detected ==> p.cruise_should_disengage
                    && !p.cruise_can_reengage)
                &&& (p.cruise_can_reengage ==> c.cruise_suspended)
            }
        }),
{
}

} // verus!
