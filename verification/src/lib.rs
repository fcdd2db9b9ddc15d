//! Runtime core for small sensor and actuator firmware.
//!
//! - `value`: fixed-point measurements with a scale and a unit.
//! - `device`: devices, their capability classes, and the registry that
//!   enumerates and filters them.
//! - `shell`: a line-oriented command shell.
//! - `clock`: clocks at two resolutions and sleeps of any length.
//! - `sched`: execution units and the choice of the one to run.
//! - `signal`: the handoff of an edge from an interrupt to a thread.
//! - `control`: the threshold control loop.
//!
//! The core decides and computes; it touches no hardware. Whoever runs it
//! reads the console, the sensors and the timers, and hands in what came
//! back.

pub mod clock;
pub mod control;
pub mod device;
pub mod sched;
pub mod shell;
pub mod signal;
pub mod value;
