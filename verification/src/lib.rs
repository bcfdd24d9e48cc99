//! A deterministic frame-stepped combat-simulation benchmark harness.
//!
//! The library generates a reproducible population of combat entities from a
//! seeded linear-congruential generator, steps an eleven-stage update pipeline
//! over it for a fixed number of frames, and reduces the recorded per-frame
//! durations to latency statistics (percentiles, budget compliance, jank).
//!
//! All world quantities are held in fixed-point integers: positions and
//! velocities in thousandths of a world unit, angles in milliradians, times in
//! milliseconds, frame durations in microseconds.

pub mod entity;
pub mod gen;
pub mod report;
pub mod rng;
pub mod sim;
pub mod stages;
pub mod stats;
