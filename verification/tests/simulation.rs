//! Whole-tick scenarios: the update pipeline, the state machine, the
//! snapshot discipline and the broadcast target selection.

use boids::boid::{Boid, BoidState};
use boids::config::BoidConfig;
use boids::flock::{apply_target_event, set_flock_target, update_flock};
use boids::vec3::Vec3;

fn v(x: i64, y: i64, z: i64) -> Vec3 {
    Vec3 { x, y, z }
}

fn sq_length(w: Vec3) -> i64 {
    w.x * w.x + w.y * w.y + w.z * w.z
}

/// A configuration with every rule switched off; tests enable one rule at
/// a time.
fn quiet_config() -> BoidConfig {
    BoidConfig {
        cohesion_factor: 0,
        separation_factor: 0,
        alignment_factor: 0,
        target_factor: 0,
        desired_separation: 750,
        cohesion_radius: 500,
        alignment_radius: 1000,
        speed_limit: 1_000_000,
    }
}

#[test]
fn single_idle_boid_holds_still() {
    // one boid at the origin, idle, no target, no neighbors: after a tick
    // its velocity is exactly zero and its state unchanged
    let mut b = Boid::new(v(0, 0, 0));
    b.target_position = None;
    let mut flock = vec![b];
    let cfg = BoidConfig::default();
    update_flock(&mut flock, 16, &cfg);
    assert_eq!(flock[0].velocity, v(0, 0, 0));
    assert_eq!(flock[0].boid_state, BoidState::Idle);
    assert_eq!(flock[0].target_position, None);
}

#[test]
fn idle_boids_stay_at_zero_velocity_over_many_ticks() {
    let mut flock = vec![Boid::new(v(0, 0, 0)), Boid::new(v(300, 0, 0))];
    let cfg = BoidConfig::default();
    for _ in 0..50 {
        update_flock(&mut flock, 16, &cfg);
        for b in &flock {
            assert_eq!(b.boid_state, BoidState::Idle);
            assert_eq!(b.velocity, v(0, 0, 0));
        }
    }
}

#[test]
fn two_close_boids_push_each_other_apart() {
    // two boids 0.3 units apart under a 0.75 separation threshold and a
    // separation factor of 15: the push is 15 * (0.75 - 0.3) / 0.75 of the
    // 0.3-long vector between them, 2.7 units, exactly -2700 and 2700
    // milli-units after one 1-second tick
    let mut cfg = quiet_config();
    cfg.separation_factor = 15_000;
    let far_target = v(100_000, 0, 0);
    let mut a = Boid::new(v(0, 0, 0));
    a.boid_state = BoidState::Moving;
    a.target_position = Some(far_target);
    let mut b = Boid::new(v(300, 0, 0));
    b.boid_state = BoidState::Moving;
    b.target_position = Some(far_target);
    let mut flock = vec![a, b];
    update_flock(&mut flock, 1000, &cfg);
    assert_eq!(flock[0].velocity, v(-2700, 0, 0));
    assert_eq!(flock[1].velocity, v(2700, 0, 0));
}

#[test]
fn arrived_boid_goes_idle_with_zero_velocity() {
    // a moving boid placed (by test setup) within the arrival radius of
    // its target goes idle on its next update and drops the target
    let mut b = Boid::new(v(0, 0, 0));
    b.boid_state = BoidState::Moving;
    b.velocity = v(50, 0, 0);
    b.target_position = Some(v(400, 0, 0));
    let mut flock = vec![b];
    let cfg = BoidConfig::default();
    update_flock(&mut flock, 16, &cfg);
    assert_eq!(flock[0].boid_state, BoidState::Idle);
    assert_eq!(flock[0].velocity, v(0, 0, 0));
    assert_eq!(flock[0].target_position, None);
}

#[test]
fn moving_boid_without_target_counts_as_arrived() {
    let mut b = Boid::new(v(0, 0, 0));
    b.boid_state = BoidState::Moving;
    b.velocity = v(50, 0, 0);
    b.target_position = None;
    let mut flock = vec![b];
    update_flock(&mut flock, 16, &quiet_config());
    assert_eq!(flock[0].boid_state, BoidState::Idle);
    assert_eq!(flock[0].velocity, v(0, 0, 0));
}

#[test]
fn lone_boid_velocity_is_driven_by_target_alone() {
    // no neighbors: with the default config the only force is the unit
    // pull toward the target, 25 milli-units after a 1-second tick,
    // interpolated 0.9 toward zero alignment: 25000 - 22500 = 2500, then
    // capped at 75: 2500 * 75 / 2501 = 74
    let mut b = Boid::new(v(0, 0, 0));
    b.boid_state = BoidState::Moving;
    b.target_position = Some(v(5000, 0, 0));
    let flock_snapshot: Vec<Boid> = Vec::new();
    let cfg = BoidConfig::default();
    b.apply_rules(&flock_snapshot, 1000, &cfg);
    assert_eq!(b.velocity, v(74, 0, 0));
    assert_eq!(b.boid_state, BoidState::Moving);
}

#[test]
fn alignment_factor_interpolates_the_candidate_velocity() {
    // target pull alone gives a candidate of 25 milli-units per second; a
    // 0.5 alignment factor moves the result halfway toward the alignment
    // velocity — zero without neighbors, the neighbor's velocity with one
    let mut cfg = quiet_config();
    cfg.target_factor = 25_000;
    cfg.alignment_factor = 500;
    let mut me = Boid::new(v(0, 0, 0));
    me.boid_state = BoidState::Moving;
    me.target_position = Some(v(5000, 0, 0));
    let mut other = Boid::new(v(500, 0, 0));
    other.boid_state = BoidState::Moving;
    other.velocity = v(2000, 0, 0);
    other.target_position = Some(v(5000, 0, 0));

    let mut alone = me;
    alone.apply_rules(&vec![], 1000, &cfg);
    assert_eq!(alone.velocity, v(12_500, 0, 0));

    me.apply_rules(&vec![other], 1000, &cfg);
    assert_eq!(me.velocity, v(13_500, 0, 0));
}

#[test]
fn speed_cap_holds_after_every_tick() {
    let mut cfg = BoidConfig::default();
    cfg.separation_factor = 200_000;
    cfg.target_factor = 100_000;
    cfg.alignment_factor = 100;
    let target = v(900_000, 400_000, -200_000);
    let mut flock: Vec<Boid> = Vec::new();
    for i in 0..10i64 {
        let mut b = Boid::new(v(i * 100, -i * 37, i * i));
        b.boid_state = BoidState::Moving;
        b.target_position = Some(target);
        flock.push(b);
    }
    for _ in 0..20 {
        update_flock(&mut flock, 1000, &cfg);
        for b in &flock {
            assert!(sq_length(b.velocity) <= cfg.speed_limit * cfg.speed_limit);
        }
    }
}

#[test]
fn update_uses_the_pre_tick_snapshot() {
    // full alignment, everything else off: each boid's new velocity is the
    // snapshot average of its neighbors' velocities minus its own; if the
    // second boid saw the first one's already-updated velocity the result
    // would differ
    let mut cfg = quiet_config();
    cfg.alignment_factor = 1000;
    let far_target = v(100_000, 0, 0);
    let mut a = Boid::new(v(0, 0, 0));
    a.boid_state = BoidState::Moving;
    a.velocity = v(100, 0, 0);
    a.target_position = Some(far_target);
    let mut b = Boid::new(v(300, 0, 0));
    b.boid_state = BoidState::Moving;
    b.target_position = Some(far_target);
    let mut flock = vec![a, b];
    update_flock(&mut flock, 1000, &cfg);
    // both average over both snapshot velocities: (100 + 0) / 2 = 50
    assert_eq!(flock[0].velocity, v(-50, 0, 0));
    assert_eq!(flock[1].velocity, v(50, 0, 0));
}

#[test]
fn identical_inputs_give_identical_outputs() {
    let cfg = BoidConfig::default();
    let far_target = v(50_000, 20_000, 0);
    let mut flock: Vec<Boid> = Vec::new();
    for i in 0..6i64 {
        let mut b = Boid::new(v(i * 200, 0, -i * 150));
        b.boid_state = BoidState::Moving;
        b.velocity = v(10 - i, 2 * i, 0);
        b.target_position = Some(far_target);
        flock.push(b);
    }
    let mut once = flock.clone();
    let mut twice = flock.clone();
    update_flock(&mut once, 16, &cfg);
    update_flock(&mut twice, 16, &cfg);
    for (x, y) in once.iter().zip(twice.iter()) {
        assert_eq!(x.velocity, y.velocity);
        assert_eq!(x.boid_state, y.boid_state);
        assert_eq!(x.position, y.position);
        assert_eq!(x.target_position, y.target_position);
    }
}

#[test]
fn a_larger_flock_ticks_and_respects_the_cap() {
    let cfg = BoidConfig::default();
    let mut flock: Vec<Boid> = Vec::new();
    for i in 0..200i64 {
        let mut b = Boid::new(v((i % 20) * 400, 500, (i / 20) * 400));
        b.boid_state = BoidState::Moving;
        b.target_position = Some(v(30_000, 500, 30_000));
        flock.push(b);
    }
    for _ in 0..3 {
        update_flock(&mut flock, 100, &cfg);
        for b in &flock {
            assert!(sq_length(b.velocity) <= cfg.speed_limit * cfg.speed_limit);
            assert_eq!(b.boid_state, BoidState::Moving);
        }
    }
}

#[test]
fn target_selection_broadcasts_to_every_boid() {
    let mut flock = vec![Boid::new(v(0, 0, 0)), Boid::new(v(1000, 0, 0))];
    let point = v(4000, 0, 2000);
    set_flock_target(&mut flock, point);
    for b in &flock {
        assert_eq!(b.boid_state, BoidState::Moving);
        assert_eq!(b.target_position, Some(point));
    }
}

#[test]
fn empty_selection_event_changes_nothing() {
    let mut flock = vec![Boid::new(v(0, 0, 0)), Boid::new(v(1000, 0, 0))];
    set_flock_target(&mut flock, v(4000, 0, 0));
    let before: Vec<(Vec3, Option<Vec3>)> =
        flock.iter().map(|b| (b.position, b.target_position)).collect();
    apply_target_event(&mut flock, None);
    for (b, (pos, tgt)) in flock.iter().zip(before.iter()) {
        assert_eq!(b.boid_state, BoidState::Moving);
        assert_eq!(b.position, *pos);
        assert_eq!(b.target_position, *tgt);
    }
}

#[test]
fn populated_selection_event_retargets_the_flock() {
    let mut flock = vec![Boid::new(v(0, 0, 0))];
    apply_target_event(&mut flock, Some(v(9000, 0, 0)));
    assert_eq!(flock[0].boid_state, BoidState::Moving);
    assert_eq!(flock[0].target_position, Some(v(9000, 0, 0)));
}

#[test]
fn kinematic_integration_advances_position() {
    let mut b = Boid::new(v(1000, 2000, 3000));
    b.boid_state = BoidState::Moving;
    b.velocity = v(75, -40, 10);
    b.target_position = Some(v(50_000, 0, 0));
    // half a second: position moves by velocity * 500 / 1000
    b.integrate(500);
    assert_eq!(b.position, v(1037, 1980, 3005));
    assert_eq!(b.velocity, v(75, -40, 10));
}

#[test]
fn flock_chases_a_selected_target_and_settles_there() {
    let cfg = BoidConfig::default();
    let mut flock = vec![Boid::new(v(0, 0, 0))];
    set_flock_target(&mut flock, v(2000, 0, 0));
    let mut arrived_at_tick: Option<u32> = None;
    for tick in 0..2000 {
        update_flock(&mut flock, 100, &cfg);
        let mut b = flock[0];
        b.integrate(100);
        flock[0] = b;
        if flock[0].boid_state == BoidState::Idle {
            arrived_at_tick = Some(tick);
            break;
        }
    }
    // the boid reaches the arrival radius of the target and goes idle
    assert!(arrived_at_tick.is_some());
    assert_eq!(flock[0].velocity, v(0, 0, 0));
    assert_eq!(flock[0].target_position, None);
    assert!(dist_between(flock[0].position, v(2000, 0, 0)) < 500);
}

fn dist_between(a: Vec3, b: Vec3) -> i64 {
    boids::vec3::dist_of(&a, &b)
}
