//! Fan control for a host machine.
//!
//! The hottest temperature sensor is sampled, the samples are smoothed over
//! a short window, the mean is looked up in a curve of breakpoints, and the
//! fan controller is told the new speed whenever it changes. The values the
//! loop observes are kept in a metrics store for exposition.
//!
//! All temperatures and fan speeds are fixed-point: `i32` counts of
//! thousandths of a degree or of a percent, so `50_500` stands for 50.5.
//! Nothing here reads a sensor, writes to a port or listens on a socket: the
//! functions take what was read and say what to do next.

pub mod control;
pub mod curve;
pub mod decimal;
pub mod metrics;
pub mod metrics_server;
pub mod param;
pub mod sampler;
pub mod smoother;
pub mod text;
pub mod uf2;
