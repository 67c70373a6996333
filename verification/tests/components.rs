//! Exact-value tests of the geometric helpers, the configuration, the
//! individual steering rules and the entity store.

use boids::boid::{Boid, BoidState, ARRIVAL_RADIUS};
use boids::config::BoidConfig;
use boids::store::BoidEntityStore;
use boids::vec3::{dist_of, Vec3, SCALE};

fn boid_at(x: i64, y: i64, z: i64) -> Boid {
    Boid::new(Vec3 { x, y, z })
}

fn moving_boid(position: Vec3, velocity: Vec3, target: Vec3) -> Boid {
    Boid {
        boid_state: BoidState::Moving,
        position,
        velocity,
        target_position: Some(target),
    }
}

#[test]
fn scale_is_one_thousandth() {
    assert_eq!(SCALE, 1000);
    assert_eq!(ARRIVAL_RADIUS, 500);
}

#[test]
fn distance_of_scaled_three_four_five_triangle() {
    let a = Vec3 { x: 3000, y: 4000, z: 0 };
    let o = Vec3 { x: 0, y: 0, z: 0 };
    assert_eq!(dist_of(&a, &o), 5000);
}

#[test]
fn distance_rounds_down() {
    // |(1, 1, 0)| in milli-units: isqrt(2_000_000) = 1414
    let a = Vec3 { x: 1000, y: 1000, z: 0 };
    let o = Vec3 { x: 0, y: 0, z: 0 };
    assert_eq!(dist_of(&a, &o), 1414);
}

#[test]
fn distance_is_symmetric_and_zero_on_self() {
    let a = Vec3 { x: -250, y: 40, z: 17 };
    let b = Vec3 { x: 99, y: -1, z: 3 };
    assert_eq!(dist_of(&a, &b), dist_of(&b, &a));
    assert_eq!(dist_of(&a, &a), 0);
}

#[test]
fn default_config_values() {
    let cfg = BoidConfig::default();
    assert_eq!(cfg.cohesion_factor, 25_000);
    assert_eq!(cfg.separation_factor, 15_000);
    assert_eq!(cfg.alignment_factor, 900);
    assert_eq!(cfg.target_factor, 25_000);
    assert_eq!(cfg.desired_separation, 750);
    assert_eq!(cfg.cohesion_radius, 500);
    assert_eq!(cfg.alignment_radius, 1000);
    assert_eq!(cfg.speed_limit, 75);
}

#[test]
fn new_boid_starts_idle_at_rest() {
    let b = boid_at(1000, 2000, 3000);
    assert_eq!(b.boid_state, BoidState::Idle);
    assert_eq!(b.position, Vec3 { x: 1000, y: 2000, z: 3000 });
    assert_eq!(b.velocity, Vec3 { x: 0, y: 0, z: 0 });
    assert_eq!(b.target_position, Some(Vec3 { x: 0, y: 0, z: 0 }));
    assert_eq!(BoidState::default(), BoidState::Idle);
}

#[test]
fn reached_target_without_target_is_true() {
    let mut b = boid_at(5000, 0, 0);
    b.target_position = None;
    assert!(b.reached_target());
}

#[test]
fn reached_target_inside_and_outside_radius() {
    let mut b = boid_at(0, 0, 0);
    b.target_position = Some(Vec3 { x: 499, y: 0, z: 0 });
    assert!(b.reached_target());
    b.target_position = Some(Vec3 { x: 500, y: 0, z: 0 });
    assert!(!b.reached_target());
}

#[test]
fn cohesion_pushes_away_from_local_centroid() {
    let cfg = BoidConfig::default();
    let me = boid_at(0, 0, 0);
    // one neighbor inside the 500 cohesion radius, at (300, 0, 0): the
    // centroid is (300, 0, 0), and the force is the unit vector from the
    // centroid back toward the boid
    let flock = vec![boid_at(300, 0, 0)];
    let f = me.calculate_cohesion_force(&flock, &cfg);
    assert_eq!(f, Vec3 { x: -1000, y: 0, z: 0 });
}

#[test]
fn cohesion_repulsion_is_relative_to_the_boid() {
    // away from the origin the repulsion still points from the local
    // centroid toward the boid: neighbors on the boid's +x side push it
    // toward -x, wherever the flock stands in the world
    let cfg = BoidConfig::default();
    let me = boid_at(-10_000, 0, 0);
    let flock = vec![boid_at(-9_700, 0, 0)];
    let f = me.calculate_cohesion_force(&flock, &cfg);
    assert_eq!(f, Vec3 { x: -1000, y: 0, z: 0 });

    // and two neighbors average before the direction is taken:
    // centroid (-9700, 100, 0), boid - centroid = (-300, -100, 0),
    // |.| = isqrt(100000) = 316, coordinates scaled by 1000/316
    let flock = vec![boid_at(-9_700, 250, 0), boid_at(-9_700, -50, 0)];
    let f = me.calculate_cohesion_force(&flock, &cfg);
    assert_eq!(f, Vec3 { x: -949, y: -316, z: 0 });
}

#[test]
fn cohesion_skips_coincident_boids_and_far_boids() {
    let cfg = BoidConfig::default();
    let me = boid_at(0, 0, 0);
    // a boid at exactly the same position and one outside the radius
    let flock = vec![boid_at(0, 0, 0), boid_at(600, 0, 0)];
    let f = me.calculate_cohesion_force(&flock, &cfg);
    assert_eq!(f, Vec3 { x: 0, y: 0, z: 0 });
}

#[test]
fn separation_push_exact_value() {
    let cfg = BoidConfig::default();
    let me = boid_at(0, 0, 0);
    // neighbor at distance 300 under threshold 750:
    // (0 - 300) * (750 - 300) / 750 = -180
    let flock = vec![boid_at(300, 0, 0)];
    let f = me.calculate_separation_acceleration(&flock, &cfg);
    assert_eq!(f, Vec3 { x: -180, y: 0, z: 0 });
}

#[test]
fn separation_push_decreases_toward_threshold() {
    let cfg = BoidConfig::default();
    let me = boid_at(0, 0, 0);
    let mut pushes: Vec<i64> = Vec::new();
    // distances from half the threshold up to and past it
    for d in [375i64, 400, 500, 700, 749, 750, 800] {
        let flock = vec![boid_at(d, 0, 0)];
        let f = me.calculate_separation_acceleration(&flock, &cfg);
        assert_eq!(f.y, 0);
        assert_eq!(f.z, 0);
        pushes.push(-f.x);
    }
    assert_eq!(pushes, vec![187, 186, 166, 46, 0, 0, 0]);
    for w in pushes.windows(2) {
        assert!(w[0] >= w[1]);
    }
}

#[test]
fn separation_ignores_coincident_neighbor() {
    let cfg = BoidConfig::default();
    let me = boid_at(0, 0, 0);
    let flock = vec![boid_at(0, 0, 0)];
    let f = me.calculate_separation_acceleration(&flock, &cfg);
    assert_eq!(f, Vec3 { x: 0, y: 0, z: 0 });
}

#[test]
fn target_acceleration_is_unit_pull() {
    let me = moving_boid(
        Vec3 { x: 0, y: 0, z: 0 },
        Vec3 { x: 0, y: 0, z: 0 },
        Vec3 { x: 2000, y: 0, z: 0 },
    );
    let f = me.calculate_target_acceleration();
    assert_eq!(f, Vec3 { x: 1000, y: 0, z: 0 });
}

#[test]
fn target_acceleration_zero_without_target_or_when_arrived() {
    let mut me = boid_at(0, 0, 0);
    me.target_position = None;
    assert_eq!(me.calculate_target_acceleration(), Vec3 { x: 0, y: 0, z: 0 });
    me.target_position = Some(Vec3 { x: 400, y: 0, z: 0 });
    assert_eq!(me.calculate_target_acceleration(), Vec3 { x: 0, y: 0, z: 0 });
}

#[test]
fn alignment_matches_average_neighbor_velocity() {
    let cfg = BoidConfig::default();
    let me = moving_boid(
        Vec3 { x: 0, y: 0, z: 0 },
        Vec3 { x: 10, y: 0, z: 0 },
        Vec3 { x: 100_000, y: 0, z: 0 },
    );
    // one neighbor inside the 1000 alignment radius with velocity 50:
    // average 50, minus own velocity 10
    let flock = vec![moving_boid(
        Vec3 { x: 100, y: 0, z: 0 },
        Vec3 { x: 50, y: 0, z: 0 },
        Vec3 { x: 100_000, y: 0, z: 0 },
    )];
    let f = me.calculate_alignment_velocity(&flock, &cfg);
    assert_eq!(f, Vec3 { x: 40, y: 0, z: 0 });
}

#[test]
fn alignment_zero_without_neighbors_in_radius() {
    let cfg = BoidConfig::default();
    let me = boid_at(0, 0, 0);
    let flock = vec![boid_at(5000, 0, 0)];
    let f = me.calculate_alignment_velocity(&flock, &cfg);
    assert_eq!(f, Vec3 { x: 0, y: 0, z: 0 });
}

#[test]
fn speed_limit_rescales_long_velocity() {
    let mut b = boid_at(0, 0, 0);
    b.boid_state = BoidState::Moving;
    b.velocity = Vec3 { x: 2500, y: 0, z: 0 };
    b.apply_speed_limit(75);
    // |v| = 2500 > 75: each coordinate becomes c * 75 / 2501
    assert_eq!(b.velocity, Vec3 { x: 74, y: 0, z: 0 });
}

#[test]
fn speed_limit_leaves_short_velocity_alone() {
    let mut b = boid_at(0, 0, 0);
    b.boid_state = BoidState::Moving;
    b.velocity = Vec3 { x: 40, y: -30, z: 60 };
    // |v|^2 = 1600 + 900 + 3600 = 6100 > 75^2 = 5625: rescaled
    b.apply_speed_limit(75);
    let s = b.velocity.x * b.velocity.x + b.velocity.y * b.velocity.y
        + b.velocity.z * b.velocity.z;
    assert!(s <= 75 * 75);
    b.velocity = Vec3 { x: 40, y: -30, z: 45 };
    // |v|^2 = 1600 + 900 + 2025 = 4525 <= 5625: untouched
    b.apply_speed_limit(75);
    assert_eq!(b.velocity, Vec3 { x: 40, y: -30, z: 45 });
}

#[test]
fn store_add_get_and_replace() {
    let mut store = BoidEntityStore::new();
    assert!(store.get(7).is_none());
    store.add(7, boid_at(1000, 0, 0));
    store.add(9, boid_at(2000, 0, 0));
    let got = store.get(7).unwrap();
    assert_eq!(got.position, Vec3 { x: 1000, y: 0, z: 0 });
    // re-adding a known id replaces its boid in place
    store.add(7, boid_at(3000, 0, 0));
    let got = store.get(7).unwrap();
    assert_eq!(got.position, Vec3 { x: 3000, y: 0, z: 0 });
    assert!(store.get(8).is_none());
}

#[test]
fn store_get_all_keeps_insertion_order() {
    let mut store = BoidEntityStore::new();
    store.add(3, boid_at(100, 0, 0));
    store.add(1, boid_at(200, 0, 0));
    store.add(2, boid_at(300, 0, 0));
    let all = store.get_all();
    assert_eq!(all.len(), 3);
    assert_eq!(all[0].position.x, 100);
    assert_eq!(all[1].position.x, 200);
    assert_eq!(all[2].position.x, 300);
}
