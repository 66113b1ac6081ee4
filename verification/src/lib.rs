//! Runtime core of a small real-time interactive application: an
//! entity-component-system that stores per-entity state and runs per-frame
//! logic systems, driven by a frame-synchronized input-capture layer that
//! translates raw platform key/character events into semantically stable,
//! time-aware input events (including key-repeat timing).
//!
//! All coordinates, velocities and durations are fixed-point integers:
//! positions and sizes in micro-units, rates in micro-units per second,
//! times and durations in microseconds.

pub mod time;
pub mod fixed;
pub mod input;
pub mod controller;
pub mod ecs;
pub mod world;
pub mod render;
pub mod schedule;
