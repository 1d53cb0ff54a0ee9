//! Verified core of a 2D agent-population simulation.
//!
//! Autonomous agents ("minions") compete for food, fight, reproduce and age
//! inside a bounded square world. This crate holds the simulation logic:
//! sensor aggregation, neural-decision plumbing, the coupled health/hunger
//! homeostasis model, combat and feeding resolution, reproduction, food
//! scheduling and entity lifecycle. The collision engine, the rendering layer
//! and the neural network itself are outside collaborators: the library
//! consumes their results as plain values and hands plain values back.
//!
//! All quantities are fixed-point integers in micro-units: one simulation
//! unit equals `MICRO` (1_000_000) steps of the integer scale.

pub mod agent;
pub mod geom;
pub mod homeostasis;
pub mod poplog;
mod randsrc;
pub mod schedule;
pub mod sensor;
pub mod units;
pub mod world;
