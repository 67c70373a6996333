//! The process-wide tunable weights of the flocking rules.  A configuration
//! value is passed explicitly into every update, so tests and callers can
//! build their own; nothing is ambient.

use vstd::prelude::*;
use crate::vec3::{MAX_COORD, SCALE};

verus! {

/// Largest admitted rule weight: one thousand in fixed point.
pub const MAX_FACTOR: i64 = 1_000_000;

/// The tunable weights and radii of the flocking rules, in fixed point
/// (milli-units; a factor of `SCALE` is one).
#[derive(Clone, Copy, Debug, PartialEq, Eq, Structural)]
pub struct BoidConfig {
    /// Weight of the repulsion from the local centroid of nearby boids.
    pub cohesion_factor: i64,
    /// Weight of the push away from too-close neighbors.
    pub separation_factor: i64,
    /// Interpolation weight toward the neighbors' average velocity,
    /// between zero and `SCALE` (one).
    pub alignment_factor: i64,
    /// Weight of the pull toward the shared target point.
    pub target_factor: i64,
    /// Distance under which a neighbor is pushed away from.
    pub desired_separation: i64,
    /// Radius within which neighbors enter the cohesion centroid.
    pub cohesion_radius: i64,
    /// Radius within which neighbors' velocities are averaged.
    pub alignment_radius: i64,
    /// Hard cap on a boid's velocity magnitude, applied every update.
    pub speed_limit: i64,
}

impl BoidConfig {
    /// A configuration is well-formed when every factor and radius is in its
    /// admitted range and the rule radii keep their intended ordering:
    /// boids notice separation threats closer than cohesion pull, and
    /// cohesion pull closer than social alignment.
    pub open spec fn wf(&self) -> bool {
        &&& 0 <= self.cohesion_factor <= MAX_FACTOR
        &&& 0 <= self.separation_factor <= MAX_FACTOR
        &&& 0 <= self.target_factor <= MAX_FACTOR
        &&& 0 <= self.alignment_factor <= SCALE
        &&& 0 < self.cohesion_radius < self.desired_separation < self.alignment_radius <= MAX_COORD
        &&& 1 <= self.speed_limit <= MAX_COORD
    }
}

impl Default for BoidConfig {
    /// The default weights: moderate cohesion and target pull, a gentle
    /// separation push up to three quarters of a unit, strong velocity
    /// alignment within one unit, and a small speed cap.
    fn default() -> (c: BoidConfig)
        ensures
            c.wf(),
            c == (BoidConfig {
                cohesion_factor: 25_000,
                separation_factor: 15_000,
                alignment_factor: 900,
                target_factor: 25_000,
                desired_separation: 750,
                cohesion_radius: 500,
                alignment_radius: 1000,
                speed_limit: 75,
            }),
    {
        BoidConfig {
            cohesion_factor: 25_000,
            separation_factor: 15_000,
            alignment_factor: 900,
            target_factor: 25_000,
            desired_separation: 750,
            cohesion_radius: 500,
            alignment_radius: 1000,
            speed_limit: 75,
        }
    }
}

} // verus!
