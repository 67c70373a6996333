//! Per-tick orchestration of the whole flock: snapshot every boid, then
//! update each one against that immutable snapshot, so no boid ever
//! observes another boid's already-updated state from the same tick; and
//! the broadcast handling of a target-selection event.

use vstd::prelude::*;
use crate::boid::{all_wf, step_boid, Boid, BoidM, BoidState, MAX_DT, MAX_FLOCK};
use crate::config::BoidConfig;
use crate::vec3::{in_range, sq_len, v_add, v_scale_div, Vec3, V3, MAX_COORD, SCALE};

verus! {

/// The position a boid reaches after kinematically integrating its velocity
/// over `dt` milli-seconds.
pub open spec fn integrated_position(b: BoidM, dt: int) -> V3 {
    v_add(b.position, v_scale_div(b.velocity, dt, SCALE as int))
}

/// The state of a boid after a target-selection broadcast: moving toward
/// the selected point, with position and velocity untouched.
pub open spec fn retargeted(b: Boid, p: V3) -> BoidM {
    BoidM {
        state: BoidState::Moving,
        position: b.position@,
        velocity: b.velocity@,
        target: Some(p),
    }
}

impl Boid {
    /// Kinematic integration, the default sink for the computed velocity:
    /// the position advances by the velocity integrated over the elapsed
    /// time.  The caller must keep the flock inside the admitted coordinate
    /// range (a boid chasing an in-range target never leaves a bounded
    /// world by much, but the library does not guess a wrap-around rule).
    pub fn integrate(&mut self, dt: i64)
        requires
            old(self).wf(),
            0 <= dt <= MAX_DT,
            in_range(integrated_position(old(self)@, dt as int), MAX_COORD as int),
        ensures
            final(self).position@ == integrated_position(old(self)@, dt as int),
            final(self).velocity == old(self).velocity,
            final(self).boid_state == old(self).boid_state,
            final(self).target_position == old(self).target_position,
            final(self).wf(),
    {
        let sx = crate::vec3::div_pos(self.velocity.x * dt, SCALE);
        let sy = crate::vec3::div_pos(self.velocity.y * dt, SCALE);
        let sz = crate::vec3::div_pos(self.velocity.z * dt, SCALE);
        proof {
            crate::vec3::lemma_div_t_mag(self.velocity.x * dt, SCALE as int);
            crate::vec3::lemma_div_t_mag(self.velocity.y * dt, SCALE as int);
            crate::vec3::lemma_div_t_mag(self.velocity.z * dt, SCALE as int);
            crate::vec3::lemma_mul_mag(self.velocity.x as int, MAX_COORD as int, dt as int, MAX_DT as int);
            crate::vec3::lemma_mul_mag(self.velocity.y as int, MAX_COORD as int, dt as int, MAX_DT as int);
            crate::vec3::lemma_mul_mag(self.velocity.z as int, MAX_COORD as int, dt as int, MAX_DT as int);
        }
        self.position = Vec3 {
            x: self.position.x + sx,
            y: self.position.y + sy,
            z: self.position.z + sz,
        };
    }
}

/// One simulation tick over the whole flock: every boid is updated by
/// `apply_rules` against the snapshot of the flock as it stood when the
/// tick began.  Velocities are written back in place; positions are not
/// touched, so the caller may read the new velocities as forces (dynamic
/// mode) or integrate them (kinematic mode).
pub fn update_flock(boids: &mut Vec<Boid>, dt: i64, cfg: &BoidConfig)
    requires
        all_wf(old(boids)@),
        old(boids)@.len() <= MAX_FLOCK,
        0 <= dt <= MAX_DT,
        cfg.wf(),
    ensures
        final(boids)@.len() == old(boids)@.len(),
        forall|i: int|
            0 <= i < old(boids)@.len() ==> (#[trigger] final(boids)@[i])@ == step_boid(
                old(boids)@[i],
                old(boids)@,
                dt as int,
                *cfg,
            ),
        all_wf(final(boids)@),
        forall|i: int|
            0 <= i < old(boids)@.len() ==> sq_len((#[trigger] final(boids)@[i]).velocity@)
                <= cfg.speed_limit * cfg.speed_limit,
{
    let mut snapshot: Vec<Boid> = Vec::new();
    let mut i: usize = 0;
    while i < boids.len()
        invariant
            i <= boids@.len(),
            boids@ == old(boids)@,
            snapshot@ == boids@.take(i as int),
        decreases boids@.len() - i,
    {
        snapshot.push(boids[i]);
        proof {
            assert(boids@.take(i + 1) =~= boids@.take(i as int).push(boids@[i as int]));
        }
        i = i + 1;
    }
    proof {
        assert(boids@.take(boids@.len() as int) =~= boids@);
    }
    let mut i: usize = 0;
    while i < boids.len()
        invariant
            i <= boids@.len(),
            boids@.len() == old(boids)@.len(),
            snapshot@ == old(boids)@,
            all_wf(old(boids)@),
            old(boids)@.len() <= MAX_FLOCK,
            0 <= dt <= MAX_DT,
            cfg.wf(),
            forall|j: int|
                0 <= j < i ==> (#[trigger] boids@[j])@ == step_boid(
                    old(boids)@[j],
                    old(boids)@,
                    dt as int,
                    *cfg,
                ),
            forall|j: int| 0 <= j < i ==> (#[trigger] boids@[j]).wf(),
            forall|j: int|
                0 <= j < i ==> sq_len((#[trigger] boids@[j]).velocity@) <= cfg.speed_limit
                    * cfg.speed_limit,
            forall|j: int| i <= j < boids@.len() ==> boids@[j] == old(boids)@[j],
        decreases boids@.len() - i,
    {
        let mut b = boids[i];
        proof {
            assert(boids@[i as int] == old(boids)@[i as int]);
            assert(old(boids)@[i as int].wf());
        }
        b.apply_rules(&snapshot, dt, cfg);
        boids[i] = b;
        i = i + 1;
    }
}

/// Broadcasts a freshly selected target point to the whole flock: every
/// boid is set moving toward it.  All boids chase the same shared
/// destination; there is no per-boid routing.
pub fn set_flock_target(boids: &mut Vec<Boid>, target: Vec3)
    requires
        all_wf(old(boids)@),
        in_range(target@, MAX_COORD as int),
    ensures
        final(boids)@.len() == old(boids)@.len(),
        forall|i: int|
            0 <= i < old(boids)@.len() ==> (#[trigger] final(boids)@[i])@ == retargeted(
                old(boids)@[i],
                target@,
            ),
        all_wf(final(boids)@),
{
    let mut i: usize = 0;
    while i < boids.len()
        invariant
            i <= boids@.len(),
            boids@.len() == old(boids)@.len(),
            all_wf(old(boids)@),
            in_range(target@, MAX_COORD as int),
            forall|j: int|
                0 <= j < i ==> (#[trigger] boids@[j])@ == retargeted(old(boids)@[j], target@),
            forall|j: int| 0 <= j < i ==> (#[trigger] boids@[j]).wf(),
            forall|j: int| i <= j < boids@.len() ==> boids@[j] == old(boids)@[j],
        decreases boids@.len() - i,
    {
        proof {
            assert(old(boids)@[i as int].wf());
        }
        let mut b = boids[i];
        b.boid_state = BoidState::Moving;
        b.target_position = Some(target);
        boids[i] = b;
        i = i + 1;
    }
}

/// Handles one target-selection event as delivered by an external picking
/// collaborator: a populated event broadcasts the point to the whole
/// flock, an empty one is a no-op deselection and changes nothing.
pub fn apply_target_event(boids: &mut Vec<Boid>, event: Option<Vec3>)
    requires
        all_wf(old(boids)@),
        match event {
            Some(p) => in_range(p@, MAX_COORD as int),
            None => true,
        },
    ensures
        final(boids)@.len() == old(boids)@.len(),
        match event {
            None => final(boids)@ == old(boids)@,
            Some(p) => forall|i: int|
                0 <= i < old(boids)@.len() ==> (#[trigger] final(boids)@[i])@ == retargeted(
                    old(boids)@[i],
                    p@,
                ),
        },
        all_wf(final(boids)@),
{
    match event {
        None => {},
        Some(p) => set_flock_target(boids, p),
    }
}

} // verus!
