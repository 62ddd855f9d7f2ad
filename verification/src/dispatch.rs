//! Event-driven dispatch around the controller.
//!
//! Six ingress channels feed a shared state block; a controller step runs
//! only on a velocity event. The step's publications (the actuation value
//! and, on an engage transition, the engage signal) are returned as plain
//! values for the transport adapter to send; nothing here talks to a
//! transport itself.

use vstd::prelude::*;
use crate::lidar::{closest_forward, min_square_range, min_square_range_of, isqrt_i64,
    LidarMeasurement};
use crate::pid::{spec_step, PIDController};
use crate::recorder::ResultLog;
use crate::units::{TIME_MAX, UNIT, VEL_MAX};

verus! {

/// One message of an ingress channel, already decoded to fixed point.
#[derive(Debug)]
pub enum IngressEvent {
    /// Monotonic clock, ms.
    Clock(i64),
    /// Measured velocity, mm/s.
    Velocity(i64),
    /// Commanded target speed, mm/s.
    TargetSpeed(i64),
    /// Cruise engage flag: 0 off, anything else on.
    Engage(u8),
    /// A fresh LiDAR frame.
    Lidar(LidarMeasurement),
    /// Driver inputs, thousandths; steer is signed.
    ControlInputs { throttle: i64, steer: i64, brake: i64 },
}

/// What an event asks the transport to publish.
#[derive(Clone, Copy, Debug)]
pub struct EventEffects {
    /// Acceleration (mm/s²) for the actuation channel.
    pub actuation: Option<i64>,
    /// `0` or `1` for the engage channel, on controller-driven transitions.
    pub engage_signal: Option<u8>,
}

/// No publication.
pub open spec fn spec_no_effects() -> EventEffects {
    EventEffects { actuation: Option::None, engage_signal: Option::None }
}

/// The shared state block: the most recent value of every ingress scalar,
/// the controller, the activity flags and the run log.
#[derive(Debug)]
pub struct CruiseState {
    pub controller: PIDController,
    pub current_velocity: i64,
    pub desired_velocity: i64,
    pub current_time: i64,
    pub is_engaged: u8,
    pub pid_active: bool,
    pub latest_lidar_data: Option<LidarMeasurement>,
    pub throttle: i64,
    pub steer: i64,
    pub brake: i64,
    pub results: ResultLog,
}

/// The obstacle the controller would see for a stored frame: the nearest
/// corridor detection, unless the frame is absent, flagged empty or
/// carries no detections.
pub open spec fn spec_stored_obstacle(lidar: Option<LidarMeasurement>) -> Option<int> {
    match lidar {
        Option::None => Option::None,
        Option::Some(m) => if m.is_empty || m.detections@.len() == 0 {
            Option::None
        } else {
            closest_forward(m.detections@)
        },
    }
}

/// Whether a decoded ingress value lies in the admitted ranges.
pub open spec fn event_wf(ev: IngressEvent) -> bool {
    match ev {
        IngressEvent::Clock(t) => 0 <= t <= TIME_MAX,
        IngressEvent::Velocity(v) => 0 <= v <= VEL_MAX,
        IngressEvent::TargetSpeed(v) => 0 <= v <= VEL_MAX,
        IngressEvent::Engage(_) => true,
        IngressEvent::Lidar(m) => m.wf(),
        IngressEvent::ControlInputs { throttle, steer, brake } => 0 <= throttle <= UNIT
            && -UNIT <= steer <= UNIT && 0 <= brake <= UNIT,
    }
}

/// The state an event produces and what it publishes, except for the run
/// log, which `spec_recorded` describes: the returned state carries the
/// entry log unchanged.
pub open spec fn spec_handle_core(s: CruiseState, ev: IngressEvent) -> (
    CruiseState,
    EventEffects,
) {
    match ev {
        IngressEvent::Clock(t) => (CruiseState { current_time: t, ..s }, spec_no_effects()),
        IngressEvent::TargetSpeed(v) => (
            CruiseState { desired_velocity: v, ..s },
            spec_no_effects(),
        ),
        IngressEvent::ControlInputs { throttle, steer, brake } => (
            CruiseState { throttle, steer, brake, ..s },
            spec_no_effects(),
        ),
        IngressEvent::Lidar(m) => (
            CruiseState { latest_lidar_data: Option::Some(m), ..s },
            spec_no_effects(),
        ),
        IngressEvent::Engage(e) => {
            if e != 0 && !s.pid_active {
                // Activation transition: reset the controller's history.
                (
                    CruiseState {
                        is_engaged: e,
                        pid_active: true,
                        controller: spec_reset(s.controller),
                        ..s
                    },
                    spec_no_effects(),
                )
            } else if e == 0 && s.pid_active {
                // Deactivation transition: reset as well.
                (
                    CruiseState {
                        is_engaged: e,
                        pid_active: false,
                        controller: spec_reset(s.controller),
                        ..s
                    },
                    spec_no_effects(),
                )
            } else {
                (CruiseState { is_engaged: e, ..s }, spec_no_effects())
            }
        },
        IngressEvent::Velocity(v) => {
            if !s.pid_active {
                (CruiseState { current_velocity: v, ..s }, spec_no_effects())
            } else {
                let sr = spec_step(
                    s.controller,
                    s.desired_velocity as int,
                    v as int,
                    s.current_time as int,
                    spec_stored_obstacle(s.latest_lidar_data),
                    s.steer as int,
                    s.brake as int,
                );
                let s2 = CruiseState { current_velocity: v, controller: sr.0, ..s };
                match sr.1 {
                    Result::Err(_) => (s2, spec_no_effects()),
                    Result::Ok(p) => {
                        if p.cruise_should_disengage {
                            (
                                CruiseState { is_engaged: 0, pid_active: false, ..s2 },
                                EventEffects {
                                    actuation: Option::Some(p.acceleration),
                                    engage_signal: Option::Some(0u8),
                                },
                            )
                        } else if p.cruise_can_reengage && s.is_engaged == 0 {
                            (
                                CruiseState { is_engaged: 1, pid_active: true, ..s2 },
                                EventEffects {
                                    actuation: Option::Some(p.acceleration),
                                    engage_signal: Option::Some(1u8),
                                },
                            )
                        } else {
                            (
                                s2,
                                EventEffects {
                                    actuation: Option::Some(p.acceleration),
                                    engage_signal: Option::None,
                                },
                            )
                        }
                    },
                }
            }
        },
    }
}

/// The row a successful velocity step appends to the run log:
/// (target, measured, clock, acceleration).
pub open spec fn spec_recorded(s: CruiseState, ev: IngressEvent) -> Option<(i64, i64, i64, i64)> {
    match ev {
        IngressEvent::Velocity(v) => {
            if !s.pid_active {
                Option::None
            } else {
                let sr = spec_step(
                    s.controller,
                    s.desired_velocity as int,
                    v as int,
                    s.current_time as int,
                    spec_stored_obstacle(s.latest_lidar_data),
                    s.steer as int,
                    s.brake as int,
                );
                match sr.1 {
                    Result::Err(_) => Option::None,
                    Result::Ok(p) => Option::Some(
                        (s.desired_velocity, v, s.current_time, p.acceleration),
                    ),
                }
            }
        },
        _ => Option::None,
    }
}

/// The controller after `reset`: history cleared, configuration kept.
pub open spec fn spec_reset(c: PIDController) -> PIDController {
    PIDController {
        velocity_error: 0,
        previous_error: 0,
        accumulated_error: 0,
        previous_time: 0,
        previous_velocity: 0,
        cruise_suspended: false,
        ..c
    }
}

impl CruiseState {
    /// Every stored scalar is in range, the controller and log are well
    /// formed, and a stored frame has plausible coordinates.
    pub open spec fn wf(self) -> bool {
        &&& self.controller.wf()
        &&& 0 <= self.current_velocity <= VEL_MAX
        &&& 0 <= self.desired_velocity <= VEL_MAX
        &&& 0 <= self.current_time <= TIME_MAX
        &&& 0 <= self.throttle <= UNIT
        &&& -UNIT <= self.steer <= UNIT
        &&& 0 <= self.brake <= UNIT
        &&& (self.latest_lidar_data matches Option::Some(m) ==> m.wf())
        &&& self.results.wf()
    }

    /// A fresh state around `controller`: every scalar neutral, nothing
    /// received yet, cruise disengaged and inactive.
    pub fn new(controller: PIDController) -> (r: CruiseState)
        requires
            controller.wf(),
        ensures
            r.wf(),
            r.controller == controller,
            r.current_velocity == 0,
            r.desired_velocity == 0,
            r.current_time == 0,
            r.is_engaged == 0,
            !r.pid_active,
            r.latest_lidar_data is None,
            r.throttle == 0,
            r.steer == 0,
            r.brake == 0,
            r.results.desired_velocity@.len() == 0,
    {
        CruiseState {
            controller,
            current_velocity: 0,
            desired_velocity: 0,
            current_time: 0,
            is_engaged: 0,
            pid_active: false,
            latest_lidar_data: Option::None,
            throttle: 0,
            steer: 0,
            brake: 0,
            results: ResultLog::new(),
        }
    }

    /// Apply one ingress event: update the shared state, run a controller
    /// step on a velocity event while the feature is active, and hand back
    /// what must be published.
    pub fn handle_event(&mut self, ev: IngressEvent) -> (eff: EventEffects)
        requires
            old(self).wf(),
            event_wf(ev),
            old(self).results.desired_velocity@.len() < usize::MAX,
        ensures
            final(self).wf(),
            ({
                let (s2, e2) = spec_handle_core(*old(self), ev);
                &&& *final(self) == (CruiseState { results: final(self).results, ..s2 })
                &&& eff == e2
            }),
            ({
                let r0 = old(self).results;
                let r1 = final(self).results;
                match spec_recorded(*old(self), ev) {
                    Option::None => {
                        &&& r1.desired_velocity@ == r0.desired_velocity@
                        &&& r1.current_velocity@ == r0.current_velocity@
                        &&& r1.current_time@ == r0.current_time@
                        &&& r1.acceleration@ == r0.acceleration@
                    },
                    Option::Some(row) => {
                        &&& r1.desired_velocity@ == r0.desired_velocity@.push(row.0)
                        &&& r1.current_velocity@ == r0.current_velocity@.push(row.1)
                        &&& r1.current_time@ == r0.current_time@.push(row.2)
                        &&& r1.acceleration@ == r0.acceleration@.push(row.3)
                    },
                }
            }),
    {
        match ev {
            IngressEvent::Clock(t) => {
                self.current_time = t;
                EventEffects { actuation: Option::None, engage_signal: Option::None }
            },
            IngressEvent::TargetSpeed(v) => {
                self.desired_velocity = v;
                EventEffects { actuation: Option::None, engage_signal: Option::None }
            },
            IngressEvent::ControlInputs { throttle, steer, brake } => {
                self.throttle = throttle;
                self.steer = steer;
                self.brake = brake;
                EventEffects { actuation: Option::None, engage_signal: Option::None }
            },
            IngressEvent::Lidar(m) => {
                self.latest_lidar_data = Option::Some(m);
                EventEffects { actuation: Option::None, engage_signal: Option::None }
            },
            IngressEvent::Engage(e) => {
                self.is_engaged = e;
                let enable = e != 0;
                if enable && !self.pid_active {
                    self.activate_pid();
                } else if !enable && self.pid_active {
                    self.deactivate_pid();
                }
                EventEffects { actuation: Option::None, engage_signal: Option::None }
            },
            IngressEvent::Velocity(v) => {
                self.current_velocity = v;
                if !self.pid_active {
                    return EventEffects { actuation: Option::None, engage_signal: Option::None };
                }
                let step = self.controller.compute(
                    self.desired_velocity,
                    v,
                    self.current_time,
                    self.latest_lidar_data.as_ref(),
                    self.throttle,
                    self.steer,
                    self.brake,
                );
                match step {
                    Result::Err(_) => EventEffects {
                        actuation: Option::None,
                        engage_signal: Option::None,
                    },
                    Result::Ok(p) => {
                        let engage_signal: Option<u8> = if p.cruise_should_disengage {
                            self.is_engaged = 0;
                            self.pid_active = false;
                            Option::Some(0u8)
                        } else if p.cruise_can_reengage && self.is_engaged == 0 {
                            self.is_engaged = 1;
                            self.pid_active = true;
                            Option::Some(1u8)
                        } else {
                            Option::None
                        };
                        self.results.push(self.desired_velocity, v, self.current_time,
                            p.acceleration);
                        EventEffects { actuation: Option::Some(p.acceleration), engage_signal }
                    },
                }
            },
        }
    }

    /// Activate the controller, clearing its history.
    fn activate_pid(&mut self)
        ensures
            *final(self) == (CruiseState {
                pid_active: true,
                controller: spec_reset(old(self).controller),
                ..*old(self)
            }),
    {
        self.pid_active = true;
        self.controller.reset();
    }

    /// Deactivate the controller, clearing its history.
    fn deactivate_pid(&mut self)
        ensures
            *final(self) == (CruiseState {
                pid_active: false,
                controller: spec_reset(old(self).controller),
                ..*old(self)
            }),
    {
        self.pid_active = false;
        self.controller.reset();
    }

    /// Whether the controller is currently active.
    pub fn is_active(&self) -> (r: bool)
        ensures
            r == self.pid_active,
    {
        self.pid_active
    }

    /// The current scalar snapshot: measured velocity, target, clock and
    /// activity.
    pub fn get_state(&self) -> (r: (i64, i64, i64, bool))
        ensures
            r == (self.current_velocity, self.desired_velocity, self.current_time,
            self.pid_active),
    {
        (self.current_velocity, self.desired_velocity, self.current_time, self.pid_active)
    }

    /// The driver inputs last received: throttle, steer, brake.
    pub fn get_control_values(&self) -> (r: (i64, i64, i64))
        ensures
            r == (self.throttle, self.steer, self.brake),
    {
        (self.throttle, self.steer, self.brake)
    }

    /// A copy of the latest LiDAR frame, if one arrived.
    pub fn get_latest_lidar_data(&self) -> (r: Option<LidarMeasurement>)
        ensures
            match self.latest_lidar_data {
                Option::None => r is None,
                Option::Some(m) => r matches Option::Some(c) && c.channel_count == m.channel_count
                    && c.detections@ == m.detections@ && c.horizontal_angle == m.horizontal_angle
                    && c.is_empty == m.is_empty && c.len == m.len,
            },
    {
        match &self.latest_lidar_data {
            Option::None => Option::None,
            Option::Some(m) => Option::Some(m.duplicate()),
        }
    }

    /// Straight-line range (mm, rounded down) of the detection nearest to
    /// the sensor in the latest frame, over all detections, or nothing
    /// when no usable frame arrived.
    pub fn get_closest_obstacle(&self) -> (r: Option<i64>)
        requires
            self.wf(),
        ensures
            match self.latest_lidar_data {
                Option::None => r is None,
                Option::Some(m) => {
                    if m.is_empty || m.detections@.len() == 0 {
                        r is None
                    } else {
                        r matches Option::Some(d) && 0 <= d && d * d
                            <= min_square_range(m.detections@).unwrap() < (d + 1) * (d + 1)
                    }
                },
            },
    {
        match &self.latest_lidar_data {
            Option::None => Option::None,
            Option::Some(m) => {
                if m.is_empty || m.detections.len() == 0 {
                    Option::None
                } else {
                    match min_square_range_of(&m.detections) {
                        Option::None => Option::None,
                        Option::Some(s) => Option::Some(isqrt_i64(s)),
                    }
                }
            },
        }
    }
}

} // verus!
