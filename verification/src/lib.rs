//! A verified traffic-intersection simulation engine.
//!
//! Vehicles travel along one-dimensional lanes, react to a leading vehicle
//! and to red traffic signals, and are periodically introduced by per-lane
//! spawners. Traffic lights cycle through timed phases. All coordinates,
//! speeds and durations are fixed-point integers with a scale of 1000
//! (see the `units` module), so every step of the update algorithm is
//! exact and free of floating-point error.

pub mod car;
pub mod direction;
pub mod lane;
pub mod light;
pub mod queue_sim;
pub mod rng;
pub mod road;
pub mod spawner;
pub mod units;
pub mod world;
