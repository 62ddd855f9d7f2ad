//! Core decision engine of a cruise-control feature for a ground vehicle.
//!
//! Every physical quantity is carried as a fixed-point `i64` in milli-units:
//! velocities in mm/s, times in ms, distances in mm, accelerations in mm/s²,
//! and dimensionless ratios (pedal positions, gains, factors) in thousandths.
//! The transport adapters that feed and drain the engine live outside this
//! library and exchange plain scalars with it.

pub mod units;
pub mod actuator;
pub mod lidar;
pub mod pid;
pub mod recorder;
pub mod dispatch;
pub mod codec;
pub mod laws;
