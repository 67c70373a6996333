//! A verified flocking simulation core.
//!
//! A flock of boids moves under four local steering rules: cohesion,
//! separation, alignment and goal-seeking.  All geometry is carried in
//! fixed-point milli-units (one world unit is 1000), so every update is an
//! exact integer computation with a contract that pins its result down.

pub mod boid;
pub mod config;
pub mod flock;
pub mod laws;
pub mod store;
pub mod vec3;
