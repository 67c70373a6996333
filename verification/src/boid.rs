//! One flocking agent: its state machine, its per-update rule evaluation,
//! and the exact integer specification of both.

use vstd::prelude::*;
use crate::config::{BoidConfig, MAX_FACTOR};
use crate::vec3::{
    dist, div_t, in_range, mag, sq_len, v_add, v_clamp, v_div, v_lerp,
    v_scale_div, v_sub, v_unit, v_zero, Vec3, V3, MAX_COORD, SCALE,
};

verus! {

/// Distance (in milli-units) under which a boid counts as having reached
/// its target.
pub const ARRIVAL_RADIUS: i64 = 500;

/// Largest elapsed time (in milli-seconds) a single update admits.
pub const MAX_DT: i64 = 60_000;

/// Largest number of boids a neighbor snapshot admits.
pub const MAX_FLOCK: usize = 10_000;

/// The movement mode of one boid: an idle boid holds still and ignores its
/// neighbors; a moving boid runs the full rule pipeline each update.
#[derive(Clone, Copy, Debug, PartialEq, Eq, Structural)]
pub enum BoidState {
    Idle,
    Moving,
}

impl Default for BoidState {
    /// A boid starts idle.
    fn default() -> (s: BoidState)
        ensures
            s == BoidState::Idle,
    {
        BoidState::Idle
    }
}

/// One flocking agent.
#[derive(Clone, Copy, Debug)]
pub struct Boid {
    pub boid_state: BoidState,
    /// World position in milli-units, mirrored each tick from whatever owns
    /// the authoritative transform.
    pub position: Vec3,
    /// The boid's own steering output, capped at the configured speed limit.
    pub velocity: Vec3,
    /// The shared destination, if one was selected; `None` means "no goal".
    pub target_position: Option<Vec3>,
}

/// The mathematical model of a boid: the same fields over unbounded
/// integer vectors.
pub struct BoidM {
    pub state: BoidState,
    pub position: V3,
    pub velocity: V3,
    pub target: Option<V3>,
}

impl View for Boid {
    type V = BoidM;

    open spec fn view(&self) -> BoidM {
        BoidM {
            state: self.boid_state,
            position: self.position@,
            velocity: self.velocity@,
            target: match self.target_position {
                Some(p) => Some(p@),
                None => None,
            },
        }
    }
}

/// The boid has no goal, or stands within the arrival radius of it.
pub open spec fn arrived(b: BoidM) -> bool {
    match b.target {
        None => true,
        Some(p) => dist(b.position, p) < ARRIVAL_RADIUS,
    }
}

impl Boid {
    /// A boid is well-formed when its geometry is in the admitted coordinate
    /// range and an idle boid holds exactly zero velocity.
    pub open spec fn wf(&self) -> bool {
        &&& in_range(self.position@, MAX_COORD as int)
        &&& in_range(self.velocity@, MAX_COORD as int)
        &&& (match self.target_position {
            Some(p) => in_range(p@, MAX_COORD as int),
            None => true,
        })
        &&& (self.boid_state is Idle ==> self.velocity@ == v_zero())
    }

    /// A fresh boid: idle, at rest, at the given position, with the world
    /// origin as its (not yet pursued) target.
    pub fn new(position: Vec3) -> (b: Boid)
        requires
            in_range(position@, MAX_COORD as int),
        ensures
            b@ == (BoidM {
                state: BoidState::Idle,
                position: position@,
                velocity: v_zero(),
                target: Some(v_zero()),
            }),
            b.wf(),
    {
        Boid {
            boid_state: BoidState::Idle,
            position,
            velocity: Vec3 { x: 0, y: 0, z: 0 },
            target_position: Some(Vec3 { x: 0, y: 0, z: 0 }),
        }
    }

    /// True exactly when the boid has no goal or stands within the arrival
    /// radius of it.  Pure: consulted both by the update itself and by
    /// callers deciding whether a boid still influences its neighbors.
    pub fn reached_target(&self) -> (r: bool)
        requires
            self.wf(),
        ensures
            r == arrived(self@),
    {
        match self.target_position {
            Some(p) => crate::vec3::dist_of(&self.position, &p) < ARRIVAL_RADIUS,
            None => true,
        }
    }
}

/// Every boid of a snapshot is well-formed.
pub open spec fn all_wf(boids: Seq<Boid>) -> bool {
    forall|i: int| 0 <= i < boids.len() ==> (#[trigger] boids[i]).wf()
}

/// The positions of the snapshot boids at another position than `pos` and
/// within `radius` of it, summed, together with their count.
pub open spec fn cohesion_sum(pos: V3, boids: Seq<Boid>, radius: int) -> (V3, int)
    decreases boids.len(),
{
    if boids.len() == 0 {
        (v_zero(), 0)
    } else {
        let rest = cohesion_sum(pos, boids.drop_last(), radius);
        let q = boids.last().position@;
        if q != pos && dist(pos, q) < radius {
            (v_add(rest.0, q), rest.1 + 1)
        } else {
            rest
        }
    }
}

/// The cohesion rule: a fixed-point unit vector pointing from the local
/// centroid of the neighbors within the cohesion radius toward the boid —
/// a repulsion from over-dense clusters — or zero when there is no such
/// neighbor or the centroid falls exactly on the boid's position.
/// Coincident boids are skipped: an exactly shared position gives no
/// usable direction.
pub open spec fn cohesion_force(pos: V3, boids: Seq<Boid>, radius: int) -> V3 {
    let sum = cohesion_sum(pos, boids, radius);
    if sum.1 == 0 {
        v_zero()
    } else {
        v_unit(v_sub(pos, v_div(sum.0, sum.1)))
    }
}

/// The separation push one neighbor at `q` exerts on a boid at `pos`: the
/// vector from the neighbor, scaled by how much the desired separation is
/// violated — `(ds - d) / ds` of it, smoothly reaching zero at the
/// threshold distance `ds` and beyond.  A coincident neighbor contributes
/// zero: the push has no defined direction there.
pub open spec fn separation_pair(pos: V3, q: V3, ds: int) -> V3 {
    let d = dist(pos, q);
    if d < ds {
        v_scale_div(v_sub(pos, q), ds - d, ds)
    } else {
        v_zero()
    }
}

/// The separation rule: the unnormalized sum of the pushes of all
/// too-close neighbors.
pub open spec fn separation_acc(pos: V3, boids: Seq<Boid>, ds: int) -> V3
    decreases boids.len(),
{
    if boids.len() == 0 {
        v_zero()
    } else {
        v_add(
            separation_acc(pos, boids.drop_last(), ds),
            separation_pair(pos, boids.last().position@, ds),
        )
    }
}

/// The target rule: a fixed-point unit vector from `pos` toward the target
/// — a constant-magnitude pull regardless of distance — or zero when there
/// is no target or the boid already stands within the arrival radius.
pub open spec fn target_force(pos: V3, target: Option<V3>) -> V3 {
    match target {
        None => v_zero(),
        Some(p) => if dist(pos, p) < ARRIVAL_RADIUS {
            v_zero()
        } else {
            v_unit(v_sub(p, pos))
        },
    }
}

/// The velocities of the snapshot boids within `radius` of `pos`, summed,
/// together with their count.
pub open spec fn alignment_sum(pos: V3, boids: Seq<Boid>, radius: int) -> (V3, int)
    decreases boids.len(),
{
    if boids.len() == 0 {
        (v_zero(), 0)
    } else {
        let rest = alignment_sum(pos, boids.drop_last(), radius);
        let b = boids.last();
        if dist(pos, b.position@) < radius {
            (v_add(rest.0, b.velocity@), rest.1 + 1)
        } else {
            rest
        }
    }
}

/// The alignment rule: the average velocity of the neighbors within the
/// alignment radius, minus the boid's own velocity — a velocity delta, not
/// a force — or zero when there is no neighbor in range.
pub open spec fn alignment_velocity(pos: V3, vel: V3, boids: Seq<Boid>, radius: int) -> V3 {
    let sum = alignment_sum(pos, boids, radius);
    if sum.1 == 0 {
        v_zero()
    } else {
        v_sub(v_div(sum.0, sum.1), vel)
    }
}

/// The three forces, weighted by their configured factors and brought back
/// to milli-units.
pub open spec fn accel(coh: V3, sep: V3, tgt: V3, cfg: BoidConfig) -> V3 {
    V3 {
        x: div_t(
            cfg.cohesion_factor * coh.x + cfg.separation_factor * sep.x + cfg.target_factor * tgt.x,
            SCALE as int,
        ),
        y: div_t(
            cfg.cohesion_factor * coh.y + cfg.separation_factor * sep.y + cfg.target_factor * tgt.y,
            SCALE as int,
        ),
        z: div_t(
            cfg.cohesion_factor * coh.z + cfg.separation_factor * sep.z + cfg.target_factor * tgt.z,
            SCALE as int,
        ),
    }
}

/// The new velocity of a moving boid that has not arrived: the weighted
/// force sum is integrated over the elapsed time into a candidate velocity,
/// the candidate is interpolated toward the alignment velocity by the
/// alignment factor, and the result is capped at the speed limit.
pub open spec fn blended_velocity(b: Boid, boids: Seq<Boid>, dt: int, cfg: BoidConfig) -> V3 {
    let coh = cohesion_force(b.position@, boids, cfg.cohesion_radius as int);
    let sep = separation_acc(b.position@, boids, cfg.desired_separation as int);
    let tgt = target_force(b.position@, b@.target);
    let iv = v_scale_div(accel(coh, sep, tgt, cfg), dt, SCALE as int);
    let av = alignment_velocity(b.position@, b.velocity@, boids, cfg.alignment_radius as int);
    v_clamp(v_lerp(iv, av, cfg.alignment_factor as int), cfg.speed_limit as int)
}

/// One whole update of one boid against an immutable snapshot: an idle boid
/// is untouched; a moving boid that has arrived goes idle, drops its target
/// and zeroes its velocity; any other moving boid gets the blended rule
/// velocity.  Position is never written here.
pub open spec fn step_boid(b: Boid, boids: Seq<Boid>, dt: int, cfg: BoidConfig) -> BoidM {
    if b.boid_state is Idle {
        b@
    } else if arrived(b@) {
        BoidM {
            state: BoidState::Idle,
            position: b.position@,
            velocity: v_zero(),
            target: None,
        }
    } else {
        BoidM {
            state: BoidState::Moving,
            position: b.position@,
            velocity: blended_velocity(b, boids, dt, cfg),
            target: b@.target,
        }
    }
}

impl Boid {
    /// Evaluates the cohesion rule against the snapshot.
    pub fn calculate_cohesion_force(&self, boids: &Vec<Boid>, cfg: &BoidConfig) -> (f: Vec3)
        requires
            self.wf(),
            cfg.wf(),
            all_wf(boids@),
            boids@.len() <= MAX_FLOCK,
        ensures
            f@ == cohesion_force(self.position@, boids@, cfg.cohesion_radius as int),
            in_range(f@, SCALE as int),
    {
        let ghost pos = self.position@;
        let ghost radius = cfg.cohesion_radius as int;
        let mut sx: i64 = 0;
        let mut sy: i64 = 0;
        let mut sz: i64 = 0;
        let mut n: i64 = 0;
        let mut i: usize = 0;
        while i < boids.len()
            invariant
                i <= boids@.len() <= MAX_FLOCK,
                self.wf(),
                cfg.wf(),
                all_wf(boids@),
                pos == self.position@,
                radius == cfg.cohesion_radius as int,
                0 <= n <= i,
                cohesion_sum(pos, boids@.take(i as int), radius) == (
                (V3 { x: sx as int, y: sy as int, z: sz as int }, n as int)),
                mag(sx as int) <= n * MAX_COORD,
                mag(sy as int) <= n * MAX_COORD,
                mag(sz as int) <= n * MAX_COORD,
            decreases boids@.len() - i,
        {
            proof {
                assert(boids@.take(i + 1).drop_last() =~= boids@.take(i as int));
                assert(boids@[i as int].wf());
            }
            let q = boids[i].position;
            let coincident = q.x == self.position.x && q.y == self.position.y
                && q.z == self.position.z;
            if !coincident && crate::vec3::dist_of(&self.position, &q) < cfg.cohesion_radius {
                sx = sx + q.x;
                sy = sy + q.y;
                sz = sz + q.z;
                n = n + 1;
            }
            i = i + 1;
        }
        proof {
            assert(boids@.take(boids@.len() as int) =~= boids@);
        }
        if n > 0 {
            let center = Vec3 {
                x: crate::vec3::div_pos(sx, n),
                y: crate::vec3::div_pos(sy, n),
                z: crate::vec3::div_pos(sz, n),
            };
            proof {
                assert(n * MAX_COORD == MAX_COORD * n) by (nonlinear_arith);
                crate::vec3::lemma_div_t_bound(sx as int, n as int, MAX_COORD as int);
                crate::vec3::lemma_div_t_bound(sy as int, n as int, MAX_COORD as int);
                crate::vec3::lemma_div_t_bound(sz as int, n as int, MAX_COORD as int);
            }
            let away = Vec3 {
                x: self.position.x - center.x,
                y: self.position.y - center.y,
                z: self.position.z - center.z,
            };
            crate::vec3::unit_of(&away)
        } else {
            Vec3 { x: 0, y: 0, z: 0 }
        }
    }

    /// Evaluates the separation rule against the snapshot.
    pub fn calculate_separation_acceleration(&self, boids: &Vec<Boid>, cfg: &BoidConfig) -> (f:
        Vec3)
        requires
            self.wf(),
            cfg.wf(),
            all_wf(boids@),
            boids@.len() <= MAX_FLOCK,
        ensures
            f@ == separation_acc(self.position@, boids@, cfg.desired_separation as int),
            in_range(f@, boids@.len() * MAX_COORD),
    {
        let ghost pos = self.position@;
        let ghost ds = cfg.desired_separation as int;
        let mut sx: i64 = 0;
        let mut sy: i64 = 0;
        let mut sz: i64 = 0;
        let mut i: usize = 0;
        while i < boids.len()
            invariant
                i <= boids@.len() <= MAX_FLOCK,
                self.wf(),
                cfg.wf(),
                all_wf(boids@),
                pos == self.position@,
                ds == cfg.desired_separation as int,
                separation_acc(pos, boids@.take(i as int), ds) == (
                (V3 { x: sx as int, y: sy as int, z: sz as int })),
                mag(sx as int) <= i * MAX_COORD,
                mag(sy as int) <= i * MAX_COORD,
                mag(sz as int) <= i * MAX_COORD,
            decreases boids@.len() - i,
        {
            proof {
                assert(boids@.take(i + 1).drop_last() =~= boids@.take(i as int));
                assert(boids@[i as int].wf());
            }
            let q = boids[i].position;
            let d = crate::vec3::dist_of(&self.position, &q);
            if d < cfg.desired_separation {
                let w = cfg.desired_separation - d;
                let vx = self.position.x - q.x;
                let vy = self.position.y - q.y;
                let vz = self.position.z - q.z;
                proof {
                    crate::vec3::lemma_coord_le_norm(v_sub(pos, boids@[i as int].position@));
                    crate::vec3::lemma_mul_mag(vx as int, 2_000_000_000, w as int, MAX_COORD as int);
                    crate::vec3::lemma_mul_mag(vy as int, 2_000_000_000, w as int, MAX_COORD as int);
                    crate::vec3::lemma_mul_mag(vz as int, 2_000_000_000, w as int, MAX_COORD as int);
                    crate::vec3::lemma_mul_mag(vx as int, MAX_COORD as int, w as int, ds);
                    crate::vec3::lemma_mul_mag(vy as int, MAX_COORD as int, w as int, ds);
                    crate::vec3::lemma_mul_mag(vz as int, MAX_COORD as int, w as int, ds);
                    assert(MAX_COORD * ds == (MAX_COORD as int) * ds) by (nonlinear_arith);
                }
                let cx = crate::vec3::div_pos(vx * w, cfg.desired_separation);
                let cy = crate::vec3::div_pos(vy * w, cfg.desired_separation);
                let cz = crate::vec3::div_pos(vz * w, cfg.desired_separation);
                proof {
                    crate::vec3::lemma_div_t_bound(vx * w, ds, MAX_COORD as int);
                    crate::vec3::lemma_div_t_bound(vy * w, ds, MAX_COORD as int);
                    crate::vec3::lemma_div_t_bound(vz * w, ds, MAX_COORD as int);
                }
                sx = sx + cx;
                sy = sy + cy;
                sz = sz + cz;
            }
            i = i + 1;
        }
        proof {
            assert(boids@.take(boids@.len() as int) =~= boids@);
        }
        Vec3 { x: sx, y: sy, z: sz }
    }

    /// Evaluates the target-seeking rule.
    pub fn calculate_target_acceleration(&self) -> (f: Vec3)
        requires
            self.wf(),
        ensures
            f@ == target_force(self.position@, self@.target),
            in_range(f@, SCALE as int),
    {
        match self.target_position {
            None => Vec3 { x: 0, y: 0, z: 0 },
            Some(p) => {
                let d = crate::vec3::dist_of(&self.position, &p);
                if d < ARRIVAL_RADIUS {
                    Vec3 { x: 0, y: 0, z: 0 }
                } else {
                    let to_target = Vec3 {
                        x: p.x - self.position.x,
                        y: p.y - self.position.y,
                        z: p.z - self.position.z,
                    };
                    crate::vec3::unit_of(&to_target)
                }
            },
        }
    }

    /// Evaluates the alignment rule against the snapshot.
    pub fn calculate_alignment_velocity(&self, boids: &Vec<Boid>, cfg: &BoidConfig) -> (f: Vec3)
        requires
            self.wf(),
            cfg.wf(),
            all_wf(boids@),
            boids@.len() <= MAX_FLOCK,
        ensures
            f@ == alignment_velocity(
                self.position@,
                self.velocity@,
                boids@,
                cfg.alignment_radius as int,
            ),
            in_range(f@, 2 * MAX_COORD),
    {
        let ghost pos = self.position@;
        let ghost radius = cfg.alignment_radius as int;
        let mut sx: i64 = 0;
        let mut sy: i64 = 0;
        let mut sz: i64 = 0;
        let mut n: i64 = 0;
        let mut i: usize = 0;
        while i < boids.len()
            invariant
                i <= boids@.len() <= MAX_FLOCK,
                self.wf(),
                cfg.wf(),
                all_wf(boids@),
                pos == self.position@,
                radius == cfg.alignment_radius as int,
                0 <= n <= i,
                alignment_sum(pos, boids@.take(i as int), radius) == (
                (V3 { x: sx as int, y: sy as int, z: sz as int }, n as int)),
                mag(sx as int) <= n * MAX_COORD,
                mag(sy as int) <= n * MAX_COORD,
                mag(sz as int) <= n * MAX_COORD,
            decreases boids@.len() - i,
        {
            proof {
                assert(boids@.take(i + 1).drop_last() =~= boids@.take(i as int));
                assert(boids@[i as int].wf());
            }
            let q = boids[i].position;
            if crate::vec3::dist_of(&self.position, &q) < cfg.alignment_radius {
                sx = sx + boids[i].velocity.x;
                sy = sy + boids[i].velocity.y;
                sz = sz + boids[i].velocity.z;
                n = n + 1;
            }
            i = i + 1;
        }
        proof {
            assert(boids@.take(boids@.len() as int) =~= boids@);
        }
        if n > 0 {
            proof {
                assert(n * MAX_COORD == MAX_COORD * n) by (nonlinear_arith);
                crate::vec3::lemma_div_t_bound(sx as int, n as int, MAX_COORD as int);
                crate::vec3::lemma_div_t_bound(sy as int, n as int, MAX_COORD as int);
                crate::vec3::lemma_div_t_bound(sz as int, n as int, MAX_COORD as int);
            }
            Vec3 {
                x: crate::vec3::div_pos(sx, n) - self.velocity.x,
                y: crate::vec3::div_pos(sy, n) - self.velocity.y,
                z: crate::vec3::div_pos(sz, n) - self.velocity.z,
            }
        } else {
            Vec3 { x: 0, y: 0, z: 0 }
        }
    }
}

/// One fixed-point coordinate of the pre-clamp blended velocity: the
/// weighted force sum, integrated over `dt`, interpolated toward the
/// alignment coordinate `a` by the alignment factor.
fn blend_coord(c: i64, s: i64, t: i64, a: i64, dt: i64, cfg: &BoidConfig) -> (v: i64)
    requires
        cfg.wf(),
        0 <= dt <= MAX_DT,
        mag(c as int) <= SCALE,
        mag(t as int) <= SCALE,
        mag(s as int) <= 10_000_000_000_000,
        mag(a as int) <= 2 * MAX_COORD,
    ensures
        v as int == {
            let acc = div_t(
                cfg.cohesion_factor * c + cfg.separation_factor * s + cfg.target_factor * t,
                SCALE as int,
            );
            let iv = div_t(acc * dt, SCALE as int);
            iv + div_t((a - iv) * cfg.alignment_factor, SCALE as int)
        },
        mag(v as int) <= 2_000_000_000_000_000_000,
{
    proof {
        crate::vec3::lemma_mul_mag(cfg.cohesion_factor as int, MAX_FACTOR as int, c as int, SCALE as int);
        crate::vec3::lemma_mul_mag(cfg.separation_factor as int, MAX_FACTOR as int, s as int, 10_000_000_000_000);
        crate::vec3::lemma_mul_mag(cfg.target_factor as int, MAX_FACTOR as int, t as int, SCALE as int);
    }
    let weighted: i128 = (cfg.cohesion_factor as i128) * (c as i128)
        + (cfg.separation_factor as i128) * (s as i128)
        + (cfg.target_factor as i128) * (t as i128);
    let acc: i128 = crate::vec3::div_pos_wide(weighted, 1000);
    proof {
        crate::vec3::lemma_div_t_bound(weighted as int, 1000, 10_002_000_000_000_000);
        crate::vec3::lemma_mul_mag(acc as int, 10_002_000_000_000_000, dt as int, MAX_DT as int);
    }
    let iv: i128 = crate::vec3::div_pos_wide(acc * (dt as i128), 1000);
    proof {
        crate::vec3::lemma_div_t_bound(acc * (dt as int), 1000, 600_120_000_000_000_000);
        crate::vec3::lemma_mul_mag(
            (a as int) - (iv as int),
            602_120_000_000_000_000,
            cfg.alignment_factor as int,
            SCALE as int,
        );
    }
    let delta: i128 = (a as i128) - iv;
    let toward: i128 = crate::vec3::div_pos_wide(delta * (cfg.alignment_factor as i128), 1000);
    proof {
        crate::vec3::lemma_div_t_bound(
            delta as int * (cfg.alignment_factor as int),
            1000,
            602_120_000_000_000_000,
        );
    }
    (iv + toward) as i64
}

impl Boid {
    /// Caps the stored velocity at `limit`: a velocity within the cap is
    /// unchanged, a longer one is rescaled to length at most the cap,
    /// direction-preserving up to the truncation of each coordinate toward
    /// zero (a coordinate much smaller than the cap can round to zero).
    pub fn apply_speed_limit(&mut self, limit: i64)
        requires
            limit >= 1,
        ensures
            final(self).velocity@ == v_clamp(old(self).velocity@, limit as int),
            sq_len(final(self).velocity@) <= limit * limit,
            in_range(final(self).velocity@, limit as int),
            final(self).boid_state == old(self).boid_state,
            final(self).position == old(self).position,
            final(self).target_position == old(self).target_position,
    {
        proof {
            crate::vec3::lemma_clamp_in_cap(old(self).velocity@, limit as int);
            crate::vec3::lemma_mul_mag(limit as int, 9_223_372_036_854_775_807, limit as int, 9_223_372_036_854_775_807);
        }
        let s = crate::vec3::sq_len_wide(&self.velocity);
        let cap = (limit as u128) * (limit as u128);
        if s > cap {
            let r = crate::vec3::isqrt_u128(s);
            proof {
                assert((18_446_744_073_709_551_615int + 1) * (18_446_744_073_709_551_615int + 1)
                    > u128::MAX);
                crate::vec3::lemma_isqrt_le(s as int, 18_446_744_073_709_551_615);
                crate::vec3::lemma_isqrt_eq(s as int, r as int);
                crate::vec3::lemma_mul_mag(self.velocity.x as int, 9_223_372_036_854_775_808, limit as int, 9_223_372_036_854_775_807);
                crate::vec3::lemma_mul_mag(self.velocity.y as int, 9_223_372_036_854_775_808, limit as int, 9_223_372_036_854_775_807);
                crate::vec3::lemma_mul_mag(self.velocity.z as int, 9_223_372_036_854_775_808, limit as int, 9_223_372_036_854_775_807);
            }
            let d = (r + 1) as i128;
            let qx = crate::vec3::div_pos_wide((self.velocity.x as i128) * (limit as i128), d);
            let qy = crate::vec3::div_pos_wide((self.velocity.y as i128) * (limit as i128), d);
            let qz = crate::vec3::div_pos_wide((self.velocity.z as i128) * (limit as i128), d);
            self.velocity = Vec3 { x: qx as i64, y: qy as i64, z: qz as i64 };
        }
    }

    /// The full rule pipeline of a moving boid that has not arrived: the
    /// three forces are weighted, integrated over the elapsed time,
    /// interpolated toward the alignment velocity, and capped.
    fn apply_moving_rules(&mut self, boids: &Vec<Boid>, dt: i64, cfg: &BoidConfig)
        requires
            old(self).wf(),
            cfg.wf(),
            all_wf(boids@),
            boids@.len() <= MAX_FLOCK,
            0 <= dt <= MAX_DT,
        ensures
            final(self).velocity@ == blended_velocity(*old(self), boids@, dt as int, *cfg),
            sq_len(final(self).velocity@) <= cfg.speed_limit * cfg.speed_limit,
            in_range(final(self).velocity@, cfg.speed_limit as int),
            final(self).boid_state == old(self).boid_state,
            final(self).position == old(self).position,
            final(self).target_position == old(self).target_position,
    {
        let coh = self.calculate_cohesion_force(boids, cfg);
        let sep = self.calculate_separation_acceleration(boids, cfg);
        let tgt = self.calculate_target_acceleration();
        let av = self.calculate_alignment_velocity(boids, cfg);
        let vx = blend_coord(coh.x, sep.x, tgt.x, av.x, dt, cfg);
        let vy = blend_coord(coh.y, sep.y, tgt.y, av.y, dt, cfg);
        let vz = blend_coord(coh.z, sep.z, tgt.z, av.z, dt, cfg);
        self.velocity = Vec3 { x: vx, y: vy, z: vz };
        proof {
            let b = *old(self);
            let iv = v_scale_div(
                accel(
                    cohesion_force(b.position@, boids@, cfg.cohesion_radius as int),
                    separation_acc(b.position@, boids@, cfg.desired_separation as int),
                    target_force(b.position@, b@.target),
                    *cfg,
                ),
                dt as int,
                SCALE as int,
            );
            let avs = alignment_velocity(
                b.position@,
                b.velocity@,
                boids@,
                cfg.alignment_radius as int,
            );
            assert(self.velocity@ == v_lerp(iv, avs, cfg.alignment_factor as int));
        }
        self.apply_speed_limit(cfg.speed_limit);
    }

    /// One whole per-tick update of this boid against an immutable snapshot
    /// of the flock, the elapsed time in milli-seconds, and the current
    /// configuration.  An idle boid is untouched.  A moving boid that has
    /// reached its target (or has none) goes idle: its velocity is zeroed
    /// and its target cleared — arrival takes priority over momentum.  Any
    /// other moving boid gets the blended rule velocity, whose length the
    /// speed limit caps.
    pub fn apply_rules(&mut self, boids: &Vec<Boid>, dt: i64, cfg: &BoidConfig)
        requires
            old(self).wf(),
            cfg.wf(),
            all_wf(boids@),
            boids@.len() <= MAX_FLOCK,
            0 <= dt <= MAX_DT,
        ensures
            final(self)@ == step_boid(*old(self), boids@, dt as int, *cfg),
            final(self).wf(),
            final(self).position == old(self).position,
            sq_len(final(self).velocity@) <= cfg.speed_limit * cfg.speed_limit,
    {
        proof {
            assert(cfg.speed_limit * cfg.speed_limit >= 1) by (nonlinear_arith)
                requires
                    cfg.speed_limit >= 1,
            {
            }
        }
        match self.boid_state {
            BoidState::Idle => {},
            BoidState::Moving => {
                if self.reached_target() {
                    self.boid_state = BoidState::Idle;
                    self.velocity = Vec3 { x: 0, y: 0, z: 0 };
                    self.target_position = None;
                } else {
                    self.apply_moving_rules(boids, dt, cfg);
                }
            },
        }
    }
}

} // verus!
