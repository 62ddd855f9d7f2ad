use cruise_pid::dispatch::{CruiseState, IngressEvent};
use cruise_pid::lidar::{LidarDetection, LidarMeasurement, PointCoords};
use cruise_pid::pid::PIDController;

fn default_state() -> CruiseState {
    CruiseState::new(PIDController::new(500, 100, 50))
}

fn frame(points: &[(i64, i64, i64)]) -> LidarMeasurement {
    LidarMeasurement {
        channel_count: 1,
        detections: points
            .iter()
            .map(|&(x, y, z)| LidarDetection { intensity: 1000, point: PointCoords { x, y, z } })
            .collect(),
        horizontal_angle: 0,
        is_empty: points.is_empty(),
        len: points.len() as u32,
    }
}

#[test]
fn steady_state_publishes_zero() {
    let mut s = default_state();
    s.handle_event(IngressEvent::Clock(1_000));
    s.handle_event(IngressEvent::TargetSpeed(10_000));
    s.handle_event(IngressEvent::Engage(1));
    let eff = s.handle_event(IngressEvent::Velocity(10_000));
    assert_eq!(eff.actuation, Some(0)); // bootstrap step
    s.handle_event(IngressEvent::Clock(1_100));
    let eff = s.handle_event(IngressEvent::Velocity(10_000));
    assert_eq!(eff.actuation, Some(0)); // steady at target
    assert_eq!(eff.engage_signal, None);
}

#[test]
fn below_target_publishes_throttle_acceleration() {
    let mut s = default_state();
    s.handle_event(IngressEvent::Engage(1));
    s.handle_event(IngressEvent::TargetSpeed(20_000));
    s.handle_event(IngressEvent::Clock(1_000));
    s.handle_event(IngressEvent::Velocity(10_000));
    s.handle_event(IngressEvent::Clock(1_100));
    let eff = s.handle_event(IngressEvent::Velocity(10_000));
    let a = eff.actuation.expect("a step must publish");
    assert!(a > 0);
}

#[test]
fn overspeed_publishes_gentle_braking() {
    let mut s = default_state();
    s.handle_event(IngressEvent::Engage(1));
    s.handle_event(IngressEvent::TargetSpeed(10_000));
    s.handle_event(IngressEvent::Clock(1_000));
    s.handle_event(IngressEvent::Velocity(15_000));
    s.handle_event(IngressEvent::Clock(1_100));
    let eff = s.handle_event(IngressEvent::Velocity(15_000));
    assert_eq!(eff.actuation, Some(-1_000)); // excess of 5 m/s caps at -1
}

#[test]
fn manual_brake_disengages_and_publishes_zero_signal() {
    let mut s = default_state();
    s.handle_event(IngressEvent::Engage(1));
    s.handle_event(IngressEvent::TargetSpeed(10_000));
    s.handle_event(IngressEvent::Clock(1_000));
    s.handle_event(IngressEvent::Velocity(10_000));
    s.handle_event(IngressEvent::ControlInputs { throttle: 0, steer: 0, brake: 500 });
    s.handle_event(IngressEvent::Clock(1_100));
    let eff = s.handle_event(IngressEvent::Velocity(10_000));
    assert_eq!(eff.actuation, Some(-1_500));
    assert_eq!(eff.engage_signal, Some(0));
    assert!(!s.is_active());
    let (_, _, _, active) = s.get_state();
    assert!(!active);
}

#[test]
fn emergency_obstacle_disengages() {
    let mut s = default_state();
    s.handle_event(IngressEvent::Engage(1));
    s.handle_event(IngressEvent::TargetSpeed(10_000));
    s.handle_event(IngressEvent::Clock(1_000));
    s.handle_event(IngressEvent::Velocity(10_000));
    s.handle_event(IngressEvent::Lidar(frame(&[(2_000, 0, 1_000)])));
    s.handle_event(IngressEvent::Clock(1_100));
    let eff = s.handle_event(IngressEvent::Velocity(10_000));
    assert_eq!(eff.actuation, Some(-5_000));
    assert_eq!(eff.engage_signal, Some(0));
    assert!(!s.is_active());
}

#[test]
fn reengagement_publishes_one_signal() {
    let mut s = default_state();
    s.handle_event(IngressEvent::Engage(1));
    s.handle_event(IngressEvent::TargetSpeed(10_000));
    s.handle_event(IngressEvent::Clock(1_000));
    s.handle_event(IngressEvent::Velocity(10_000));
    // Suspend the controller directly, as a driver override would, and
    // mark the feature disengaged while leaving the stepper active.
    s.controller.suspend_cruise_control();
    s.is_engaged = 0;
    s.handle_event(IngressEvent::Clock(1_100));
    let eff = s.handle_event(IngressEvent::Velocity(10_000));
    assert_eq!(eff.actuation, Some(0));
    assert_eq!(eff.engage_signal, Some(1));
    assert!(s.is_active());
    assert_eq!(s.is_engaged, 1);
}

#[test]
fn engage_transition_resets_the_integrator() {
    let mut s = default_state();
    s.handle_event(IngressEvent::Engage(1));
    s.handle_event(IngressEvent::TargetSpeed(20_000));
    s.handle_event(IngressEvent::Clock(1_000));
    s.handle_event(IngressEvent::Velocity(10_000));
    s.handle_event(IngressEvent::Clock(1_100));
    s.handle_event(IngressEvent::Velocity(10_000));
    assert_ne!(s.controller.accumulated_error, 0);
    // Disengage and engage again: the first step after that is a clean
    // bootstrap publishing zero.
    s.handle_event(IngressEvent::Engage(0));
    assert_eq!(s.controller.accumulated_error, 0);
    s.handle_event(IngressEvent::Engage(1));
    assert_eq!(s.controller.accumulated_error, 0);
    s.handle_event(IngressEvent::Clock(1_200));
    let eff = s.handle_event(IngressEvent::Velocity(10_000));
    assert_eq!(eff.actuation, Some(0));
    assert_eq!(s.controller.accumulated_error, 0);
}

#[test]
fn inactive_controller_publishes_nothing() {
    let mut s = default_state();
    s.handle_event(IngressEvent::TargetSpeed(20_000));
    s.handle_event(IngressEvent::Clock(1_000));
    let eff = s.handle_event(IngressEvent::Velocity(10_000));
    assert_eq!(eff.actuation, None);
    assert_eq!(eff.engage_signal, None);
    assert_eq!(s.results.desired_velocity.len(), 0);
}

#[test]
fn failed_step_publishes_nothing_and_records_nothing() {
    let mut s = default_state();
    s.handle_event(IngressEvent::Engage(1));
    s.handle_event(IngressEvent::Clock(1_000));
    s.handle_event(IngressEvent::Velocity(10_000));
    // The clock runs backwards by more than a millisecond.
    s.handle_event(IngressEvent::Clock(500));
    let recorded = s.results.desired_velocity.len();
    let eff = s.handle_event(IngressEvent::Velocity(10_000));
    assert_eq!(eff.actuation, None);
    assert_eq!(s.results.desired_velocity.len(), recorded);
}

#[test]
fn successful_steps_are_recorded() {
    let mut s = default_state();
    s.handle_event(IngressEvent::Engage(1));
    s.handle_event(IngressEvent::TargetSpeed(10_000));
    s.handle_event(IngressEvent::Clock(1_000));
    s.handle_event(IngressEvent::Velocity(9_000));
    s.handle_event(IngressEvent::Clock(1_100));
    s.handle_event(IngressEvent::Velocity(9_500));
    assert_eq!(s.results.desired_velocity, vec![10_000, 10_000]);
    assert_eq!(s.results.current_velocity, vec![9_000, 9_500]);
    assert_eq!(s.results.current_time, vec![1_000, 1_100]);
    assert_eq!(s.results.acceleration.len(), 2);
}

#[test]
fn state_snapshot_and_control_values() {
    let mut s = default_state();
    s.handle_event(IngressEvent::Clock(2_000));
    s.handle_event(IngressEvent::TargetSpeed(15_000));
    s.handle_event(IngressEvent::Velocity(12_000));
    s.handle_event(IngressEvent::ControlInputs { throttle: 300, steer: -200, brake: 50 });
    assert_eq!(s.get_state(), (12_000, 15_000, 2_000, false));
    assert_eq!(s.get_control_values(), (300, -200, 50));
}

#[test]
fn closest_obstacle_is_the_straight_line_range() {
    let mut s = default_state();
    assert_eq!(s.get_closest_obstacle(), None);
    s.handle_event(IngressEvent::Lidar(frame(&[(3_000, 4_000, 0), (2_000, 0, 1_000)])));
    // Ranges 5000 and floor(sqrt(5_000_000)) = 2236: the nearest wins.
    assert_eq!(s.get_closest_obstacle(), Some(2_236));
    s.handle_event(IngressEvent::Lidar(frame(&[])));
    assert_eq!(s.get_closest_obstacle(), None);
}

#[test]
fn latest_lidar_frame_is_returned_intact() {
    let mut s = default_state();
    assert!(s.get_latest_lidar_data().is_none());
    s.handle_event(IngressEvent::Lidar(frame(&[(2_000, 0, 1_000)])));
    let copy = s.get_latest_lidar_data().expect("a frame was stored");
    assert_eq!(copy.detections.len(), 1);
    assert_eq!(copy.detections[0].point.x, 2_000);
    assert_eq!(copy.len, 1);
    assert!(!copy.is_empty);
}

#[test]
fn bootstrap_at_time_zero_repeats_until_the_clock_moves() {
    let mut s = default_state();
    s.handle_event(IngressEvent::Clock(0));
    s.handle_event(IngressEvent::TargetSpeed(10_000));
    s.handle_event(IngressEvent::Engage(1));
    // With the clock still at zero the controller keeps bootstrapping:
    // its stored time stays zero, so every step publishes zero.
    let eff = s.handle_event(IngressEvent::Velocity(10_000));
    assert_eq!(eff.actuation, Some(0));
    s.handle_event(IngressEvent::Clock(100));
    let eff = s.handle_event(IngressEvent::Velocity(10_000));
    assert_eq!(eff.actuation, Some(0)); // one more bootstrap, now anchored
    s.handle_event(IngressEvent::Clock(200));
    s.handle_event(IngressEvent::TargetSpeed(20_000));
    let eff = s.handle_event(IngressEvent::Velocity(10_000));
    assert!(eff.actuation.unwrap() > 0); // the first anchored step computes
}
