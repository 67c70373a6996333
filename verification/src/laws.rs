//! The global guarantees of the flocking update, each stated once over the
//! specification functions that the executable contracts are written in.

use vstd::prelude::*;
use crate::boid::{
    alignment_velocity, arrived, cohesion_force, separation_acc, separation_pair, step_boid,
    target_force, accel, Boid, BoidM, BoidState,
};
use crate::config::BoidConfig;
use crate::vec3::{
    dist, div_t, is_isqrt, mag, sq_len, v_clamp, v_lerp, v_scale_div, v_sub, v_zero,
    lemma_clamp_in_cap, lemma_div_t_mag, lemma_isqrt_eq, V3, SCALE,
};
use vstd::arithmetic::div_mod::lemma_div_is_ordered;

verus! {

/// Speed cap: whatever the snapshot, elapsed time and configuration, the
/// velocity a well-formed boid holds after an update has squared length at
/// most the squared speed limit.
pub proof fn lemma_speed_cap(b: Boid, boids: Seq<Boid>, dt: int, cfg: BoidConfig)
    requires
        b.wf(),
        cfg.wf(),
    ensures
        sq_len(step_boid(b, boids, dt, cfg).velocity) <= cfg.speed_limit * cfg.speed_limit,
{
    assert(cfg.speed_limit * cfg.speed_limit >= 1) by (nonlinear_arith)
        requires
            cfg.speed_limit >= 1,
    {
    }
    if !(b.boid_state is Idle) && !arrived(b@) {
        let iv = v_scale_div(
            accel(
                cohesion_force(b.position@, boids, cfg.cohesion_radius as int),
                separation_acc(b.position@, boids, cfg.desired_separation as int),
                target_force(b.position@, b@.target),
                cfg,
            ),
            dt,
            SCALE as int,
        );
        let av = alignment_velocity(b.position@, b.velocity@, boids, cfg.alignment_radius as int);
        lemma_clamp_in_cap(v_lerp(iv, av, cfg.alignment_factor as int), cfg.speed_limit as int);
    }
}

/// Idle invariant: an idle boid is a fixed point of the update, whatever
/// the snapshot, the elapsed time or the configuration; so over any
/// sequence of ticks without an external selection event it stays idle and
/// its velocity stays exactly zero.
pub proof fn lemma_idle_fixed(b: Boid, ticks: Seq<(Seq<Boid>, int)>, cfg: BoidConfig)
    requires
        b.wf(),
        b.boid_state is Idle,
    ensures
        b.velocity@ == v_zero(),
        forall|k: int|
            0 <= k < ticks.len() ==> step_boid(b, (#[trigger] ticks[k]).0, ticks[k].1, cfg) == b@,
{
}

/// Arrival transition: a moving boid that stands within the arrival radius
/// of its target (wherever test setup or integration put it) goes idle on
/// its next update, with zero velocity and its target cleared.
pub proof fn lemma_arrival_transition(b: Boid, boids: Seq<Boid>, dt: int, cfg: BoidConfig)
    requires
        b.boid_state is Moving,
        arrived(b@),
    ensures
        step_boid(b, boids, dt, cfg) == (BoidM {
            state: BoidState::Idle,
            position: b.position@,
            velocity: v_zero(),
            target: None,
        }),
{
}

/// The magnitude of the separation push between two boids that stand `d`
/// apart along a single axis, under separation threshold `ds`.
pub open spec fn separation_push(d: int, ds: int) -> int {
    mag(separation_pair(v_zero(), V3 { x: d, y: 0, z: 0 }, ds).x)
}

/// The distance between the origin and a point `d >= 0` along one axis is
/// exactly `d`.
proof fn lemma_axis_dist(d: int)
    requires
        0 <= d,
    ensures
        dist(v_zero(), V3 { x: d, y: 0, z: 0 }) == d,
{
    let v = v_sub(v_zero(), V3 { x: d, y: 0, z: 0 });
    assert(sq_len(v) == d * d) by (nonlinear_arith)
        requires
            sq_len(v) == v.x * v.x + v.y * v.y + v.z * v.z,
            v.x == -d,
            v.y == 0,
            v.z == 0,
    {
    }
    assert(is_isqrt(d * d, d)) by (nonlinear_arith)
        requires
            d >= 0,
    {
    }
    lemma_isqrt_eq(d * d, d);
}

/// Separation monotonicity, from half the threshold outward: for two
/// axis-aligned pairs inside the threshold `ds`, the farther pair's
/// unrounded push `d * (ds - d)` is strictly smaller, the rounded
/// fixed-point push never larger, and a pair at or past the threshold
/// pushes not at all.  (Inside half the threshold the push grows with the
/// distance instead: the pushing vector itself lengthens faster than the
/// `(ds - d) / ds` weight decays.)
pub proof fn lemma_separation_monotone(d1: int, d2: int, ds: int)
    requires
        0 < ds,
        2 * d1 >= ds,
        0 <= d1 <= d2,
    ensures
        d1 < d2 < ds ==> d2 * (ds - d2) < d1 * (ds - d1),
        d2 < ds ==> separation_push(d2, ds) <= separation_push(d1, ds),
        d2 >= ds ==> separation_pair(v_zero(), V3 { x: d2, y: 0, z: 0 }, ds) == v_zero(),
{
    lemma_axis_dist(d1);
    lemma_axis_dist(d2);
    if d2 < ds {
        lemma_push_value(d1, ds);
        lemma_push_value(d2, ds);
        assert(d2 * (ds - d2) <= d1 * (ds - d1)) by (nonlinear_arith)
            requires
                2 * d1 >= ds,
                d1 <= d2,
        {
        }
        if d1 < d2 {
            assert(d2 * (ds - d2) < d1 * (ds - d1)) by (nonlinear_arith)
                requires
                    2 * d1 >= ds,
                    d1 < d2,
            {
            }
        }
        lemma_div_is_ordered(d2 * (ds - d2), d1 * (ds - d1), ds);
    }
}

/// The push of an axis-aligned pair inside the threshold is
/// `d * (ds - d) / ds`, rounded down.
proof fn lemma_push_value(d: int, ds: int)
    requires
        0 <= d < ds,
        dist(v_zero(), V3 { x: d, y: 0, z: 0 }) == d,
    ensures
        separation_push(d, ds) == (d * (ds - d)) / ds,
        separation_push(d, ds) >= 0,
{
    let q = V3 { x: d, y: 0, z: 0 };
    let c = separation_pair(v_zero(), q, ds);
    assert(c.x == div_t((-d) * (ds - d), ds));
    assert((-d) * (ds - d) == -(d * (ds - d)) && d * (ds - d) >= 0) by (nonlinear_arith)
        requires
            0 <= d < ds,
    {
    }
    lemma_div_t_mag((-d) * (ds - d), ds);
    vstd::arithmetic::div_mod::lemma_div_pos_is_pos(d * (ds - d), ds);
}

/// No-neighbor defaults: against an empty snapshot the cohesion and
/// alignment rules yield exactly zero, the separation sum is empty, and a
/// moving boid's new velocity is driven by target-seeking alone; a moving
/// boid with no target counts as arrived and goes idle with zero velocity.
pub proof fn lemma_no_neighbors(b: Boid, dt: int, cfg: BoidConfig)
    ensures
        cohesion_force(b.position@, Seq::<Boid>::empty(), cfg.cohesion_radius as int) == v_zero(),
        separation_acc(b.position@, Seq::<Boid>::empty(), cfg.desired_separation as int)
            == v_zero(),
        alignment_velocity(
            b.position@,
            b.velocity@,
            Seq::<Boid>::empty(),
            cfg.alignment_radius as int,
        ) == v_zero(),
        b.boid_state is Moving && !arrived(b@) ==> step_boid(
            b,
            Seq::<Boid>::empty(),
            dt,
            cfg,
        ).velocity == v_clamp(
            v_lerp(
                v_scale_div(
                    accel(v_zero(), v_zero(), target_force(b.position@, b@.target), cfg),
                    dt,
                    SCALE as int,
                ),
                v_zero(),
                cfg.alignment_factor as int,
            ),
            cfg.speed_limit as int,
        ),
        b.boid_state is Moving && b.target_position is None ==> step_boid(
            b,
            Seq::<Boid>::empty(),
            dt,
            cfg,
        ).velocity == v_zero(),
        b.boid_state is Idle ==> step_boid(b, Seq::<Boid>::empty(), dt, cfg).velocity
            == b.velocity@,
{
}

/// Determinism: the update is a pure function of the boid, the snapshot,
/// the elapsed time and the configuration — two runs over equal inputs
/// give equal post-states, with no hidden mutable state anywhere.
pub proof fn lemma_deterministic(
    b1: Boid,
    b2: Boid,
    boids1: Seq<Boid>,
    boids2: Seq<Boid>,
    dt1: int,
    dt2: int,
    cfg1: BoidConfig,
    cfg2: BoidConfig,
)
    requires
        b1 == b2,
        boids1 == boids2,
        dt1 == dt2,
        cfg1 == cfg2,
    ensures
        step_boid(b1, boids1, dt1, cfg1) == step_boid(b2, boids2, dt2, cfg2),
{
}

} // verus!
