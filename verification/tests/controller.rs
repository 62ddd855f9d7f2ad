use cruise_pid::actuator::acceleration_to_throttle_brake;
use cruise_pid::lidar::{LidarDetection, LidarMeasurement, PointCoords};
use cruise_pid::pid::{ComputeError, PIDController};

fn frame(points: &[(i64, i64, i64)]) -> LidarMeasurement {
    LidarMeasurement {
        channel_count: 1,
        detections: points
            .iter()
            .map(|&(x, y, z)| LidarDetection { intensity: 1000, point: PointCoords { x, y, z } })
            .collect(),
        horizontal_angle: 0,
        is_empty: points.is_empty(),
        len: points.len() as u32,
    }
}

#[test]
fn actuator_map_table() {
    // Boundary values of the piecewise curve, in thousandths.
    assert_eq!(acceleration_to_throttle_brake(0), (0, 0));
    assert_eq!(acceleration_to_throttle_brake(500), (200, 0));
    assert_eq!(acceleration_to_throttle_brake(1500), (600, 0));
    assert_eq!(acceleration_to_throttle_brake(3000), (1000, 0));
    assert_eq!(acceleration_to_throttle_brake(-500), (0, 150));
    assert_eq!(acceleration_to_throttle_brake(-1500), (0, 383));
    assert_eq!(acceleration_to_throttle_brake(-1999), (0, 499));
    assert_eq!(acceleration_to_throttle_brake(-2000), (0, 500));
    assert_eq!(acceleration_to_throttle_brake(-8024), (0, 999));
    assert_eq!(acceleration_to_throttle_brake(-8025), (0, 1000));
}

#[test]
fn actuator_map_stays_exclusive_and_bounded() {
    for a in (-20000..20000).step_by(37) {
        let (throttle, brake) = acceleration_to_throttle_brake(a);
        assert_eq!(throttle * brake, 0);
        assert!((0..=1000).contains(&throttle));
        assert!((0..=1000).contains(&brake));
    }
}

#[test]
fn actuator_map_is_monotone_on_samples() {
    let mut previous = acceleration_to_throttle_brake(-20000);
    for a in (-19999..20000).step_by(13) {
        let current = acceleration_to_throttle_brake(a);
        assert!(previous.0 <= current.0, "throttle fell at {a}");
        assert!(previous.1 >= current.1, "brake rose at {a}");
        previous = current;
    }
}

#[test]
fn steering_factor_anchor_values() {
    let f = PIDController::calculate_steering_compensation;
    assert_eq!(f(0), 1000);
    assert_eq!(f(300), 1000);
    assert_eq!(f(-300), 1000);
    assert_eq!(f(1000), 800);
    assert_eq!(f(-1000), 800);
    assert_eq!(f(650), 900);
}

#[test]
fn steering_factor_monotone_on_samples() {
    let mut previous = 1000;
    for s in 0..=1000 {
        let factor = PIDController::calculate_steering_compensation(s);
        assert!(factor <= previous);
        assert_eq!(factor, PIDController::calculate_steering_compensation(-s));
        previous = factor;
    }
}

#[test]
fn first_step_returns_zero_whatever_the_inputs() {
    let mut pid = PIDController::new(500, 100, 50);
    let r = pid
        .compute(20_000, 5_000, 1_000, None, 900, -700, 0)
        .unwrap();
    assert_eq!(r.acceleration, 0);
    assert_eq!(r.throttle, 0);
    assert_eq!(r.brake, 0);
    assert!(!r.cruise_should_disengage);
}

#[test]
fn first_step_after_reset_returns_zero() {
    let mut pid = PIDController::new(500, 100, 50);
    pid.compute(10_000, 10_000, 1_000, None, 0, 0, 0).unwrap();
    pid.compute(10_000, 10_000, 1_100, None, 0, 0, 0).unwrap();
    pid.reset();
    let r = pid.compute(10_000, 3_000, 2_000, None, 0, 0, 0).unwrap();
    assert_eq!(r.acceleration, 0);
}

#[test]
fn manual_brake_detected_and_disengages() {
    let mut pid = PIDController::new(500, 100, 50);
    pid.compute(10_000, 10_000, 1_000, None, 0, 0, 0).unwrap();
    let r = pid.compute(10_000, 10_000, 1_100, None, 0, 0, 500).unwrap();
    assert!(r.manual_brake_detected);
    assert!(r.cruise_should_disengage);
    assert!(!r.cruise_can_reengage);
    assert_eq!(r.acceleration, -1_500);
    assert_eq!(r.brake, 383);
    assert_eq!(r.throttle, 0);
    assert!(pid.is_cruise_suspended());
}

#[test]
fn brake_at_ten_percent_is_not_manual() {
    let mut pid = PIDController::new(500, 100, 50);
    pid.compute(10_000, 10_000, 1_000, None, 0, 0, 0).unwrap();
    let r = pid.compute(10_000, 10_000, 1_100, None, 0, 0, 100).unwrap();
    assert!(!r.manual_brake_detected);
}

#[test]
fn corridor_obstacle_forces_emergency_brake() {
    let mut pid = PIDController::new(500, 100, 50);
    pid.compute(10_000, 10_000, 1_000, None, 0, 0, 0).unwrap();
    // A point 2 m ahead, centered, 1 m up: inside the corridor, and the
    // emergency threshold at 10 m/s is the configured 3 m.
    let lidar = frame(&[(2_000, 0, 1_000)]);
    let r = pid
        .compute(10_000, 10_000, 1_100, Some(&lidar), 0, 0, 0)
        .unwrap();
    assert!(r.emergency_brake_engaged);
    assert!(r.cruise_should_disengage);
    assert!(!r.cruise_can_reengage);
    let reason = r.emergency_reason.expect("reason expected");
    assert_eq!(reason.distance, 2_000);
    assert_eq!(reason.threshold, 3_000);
    // Urgency 1 - 2/3 is below one half, so half the hardest braking.
    assert_eq!(r.acceleration, -5_000);
}

#[test]
fn obstacle_outside_corridor_changes_nothing() {
    let mut pid = PIDController::new(500, 100, 50);
    pid.compute(10_000, 10_000, 1_000, None, 0, 0, 0).unwrap();
    // Too far left, too low, and behind: all filtered out.
    let lidar = frame(&[(2_000, 2_000, 1_000), (2_000, 0, 100), (-5_000, 0, 1_000)]);
    let r = pid
        .compute(10_000, 10_000, 1_100, Some(&lidar), 0, 0, 0)
        .unwrap();
    assert!(!r.emergency_brake_engaged);
    assert_eq!(r.acceleration, 0);
}

#[test]
fn slow_down_zone_brakes_gently() {
    let mut pid = PIDController::new(500, 100, 50);
    pid.compute(10_000, 10_000, 1_000, None, 0, 0, 0).unwrap();
    // 5 m ahead: between the 3 m emergency and 15 m slow-down thresholds,
    // distance factor 1/6, so immediate gentle braking applies.
    let lidar = frame(&[(5_000, 0, 1_000)]);
    let r = pid
        .compute(10_000, 10_000, 1_100, Some(&lidar), 0, 0, 0)
        .unwrap();
    assert!(!r.emergency_brake_engaged);
    assert!(!r.cruise_should_disengage);
    // max_braking * 0.3 * (1 - 1/6) clamped at -1 m/s².
    assert_eq!(r.acceleration, -1_000);
}

#[test]
fn overspeed_brakes_proportionally() {
    let mut pid = PIDController::new(500, 100, 50);
    pid.compute(10_000, 15_000, 1_000, None, 0, 0, 0).unwrap();
    let r = pid.compute(10_000, 15_000, 1_100, None, 0, 0, 0).unwrap();
    // Five m/s over target: excess beyond 2 m/s caps at -1 m/s².
    assert_eq!(r.acceleration, -1_000);
    assert!(r.brake > 0);
    assert_eq!(r.throttle, 0);
}

#[test]
fn mild_overspeed_brakes_by_fraction_of_excess() {
    let mut pid = PIDController::new(500, 100, 50);
    pid.compute(10_000, 12_000, 1_000, None, 0, 0, 0).unwrap();
    let r = pid.compute(10_000, 12_000, 1_100, None, 0, 0, 0).unwrap();
    // Two m/s over target: 0.8 of the excess.
    assert_eq!(r.acceleration, -1_600);
}

#[test]
fn normal_pid_accelerates_toward_target() {
    let mut pid = PIDController::new(500, 100, 50);
    pid.compute(20_000, 10_000, 1_000, None, 0, 0, 0).unwrap();
    let r = pid.compute(20_000, 10_000, 1_100, None, 0, 0, 0).unwrap();
    // Ten m/s of error saturates the +1.5 m/s² clamp.
    assert_eq!(r.acceleration, 1_500);
    assert_eq!(r.throttle, 600);
    assert_eq!(r.brake, 0);
}

#[test]
fn significant_negative_timestep_fails() {
    let mut pid = PIDController::new(500, 100, 50);
    pid.compute(10_000, 10_000, 1_000, None, 0, 0, 0).unwrap();
    let r = pid.compute(10_000, 10_000, 997, None, 0, 0, 0);
    match r {
        Err(ComputeError::NegativeDeltaTime { delta_time, current_time }) => {
            assert_eq!(delta_time, -3);
            assert_eq!(current_time, 997);
        }
        other => panic!("expected a negative-timestep failure, got {other:?}"),
    }
}

#[test]
fn one_millisecond_backwards_is_tolerated() {
    let mut pid = PIDController::new(500, 100, 50);
    pid.compute(10_000, 10_000, 1_000, None, 0, 0, 0).unwrap();
    let r = pid.compute(10_000, 10_000, 999, None, 0, 0, 0);
    assert!(r.is_ok());
}

#[test]
fn suspension_and_reengagement_cycle() {
    let mut pid = PIDController::new(500, 100, 50);
    pid.compute(10_000, 10_000, 1_000, None, 0, 0, 0).unwrap();
    // Driver brakes: cruise suspends.
    pid.compute(10_000, 10_000, 1_100, None, 0, 0, 500).unwrap();
    assert!(pid.is_cruise_suspended());
    // Pedal released, speed within tolerance: the suspended step reports
    // zero intervention and announces re-engagement.
    let r = pid.compute(10_000, 10_000, 1_200, None, 0, 0, 0).unwrap();
    assert_eq!(r.acceleration, 0);
    assert!(r.cruise_can_reengage);
    assert!(!pid.is_cruise_suspended());
    // The following step runs the normal law again.
    let r = pid.compute(12_000, 10_000, 1_300, None, 0, 0, 0).unwrap();
    assert!(r.acceleration > 0);
}

#[test]
fn suspended_far_from_target_stays_suspended() {
    let mut pid = PIDController::new(500, 100, 50);
    pid.compute(10_000, 10_000, 1_000, None, 0, 0, 0).unwrap();
    pid.compute(10_000, 10_000, 1_100, None, 0, 0, 500).unwrap();
    // Five m/s from target: outside the 2 m/s tolerance.
    let r = pid.compute(10_000, 5_000, 1_200, None, 0, 0, 0).unwrap();
    assert_eq!(r.acceleration, 0);
    assert!(!r.cruise_can_reengage);
    assert!(pid.is_cruise_suspended());
}

#[test]
fn steering_cuts_the_target_speed() {
    let mut pid = PIDController::new(500, 100, 50);
    pid.compute(10_000, 10_000, 1_000, None, 0, 0, 0).unwrap();
    // Full steering cuts the 10 m/s target to 8 m/s; at 10 m/s measured
    // the vehicle is 25 % over it, so the overspeed clamp brakes.
    let r = pid.compute(10_000, 10_000, 1_100, None, 0, 1_000, 0).unwrap();
    assert_eq!(r.acceleration, -1_600);
}

#[test]
fn configuration_getters_and_setters() {
    let mut pid = PIDController::new_with_emergency_config(500, 100, 50, 4_000, 20_000, -8_000);
    assert_eq!(pid.get_emergency_config(), (4_000, 20_000, -8_000));
    pid.set_emergency_config(3_000, 15_000, -10_000);
    assert_eq!(pid.get_emergency_config(), (3_000, 15_000, -10_000));
    assert_eq!(pid.get_manual_brake_config(), (-2_000, 2_000, false));
    pid.set_manual_brake_config(-1_000, 3_000);
    assert_eq!(pid.get_manual_brake_config(), (-1_000, 3_000, false));
    pid.suspend_cruise_control();
    assert!(pid.is_cruise_suspended());
    assert_eq!(pid.get_manual_brake_config(), (-1_000, 3_000, true));
}
