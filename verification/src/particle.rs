use vstd::prelude::*;
use crate::fixed::{
    div_trunc, lemma_tdiv_le, mul_i64, rem_euclid_fx, sat64, sat_i64, tdiv, BOX_MAX, FX,
    MASS_MAX, MAX_PARTICLES,
};
use crate::rng::random_below;

verus! {

/// One body of the simulation.  Every component is a fixed-point value
/// at scale FX.
#[derive(Clone, Copy)]
pub struct Particle {
    /// Position inside the periodic box; each component in [0, box_size).
    pub position: [i64; 3],
    /// Velocity; unconstrained.
    pub velocity: [i64; 3],
    /// Force gathered from the mesh during the current step; transient.
    pub force: [i64; 3],
    /// Mass; positive.
    pub mass: i64,
}

/// A particle is well formed for a given box side when its position lies
/// inside the box and its mass is positive and bounded.
pub open spec fn particle_wf(p: Particle, box_size: i64) -> bool {
    &&& 0 <= p.position[0] < box_size
    &&& 0 <= p.position[1] < box_size
    &&& 0 <= p.position[2] < box_size
    &&& 0 < p.mass <= MASS_MAX
}

/// Total mass of a sequence of particles, as an unbounded integer.
pub open spec fn total_mass_of(s: Seq<Particle>) -> int
    decreases s.len(),
{
    if s.len() == 0 {
        0
    } else {
        total_mass_of(s.drop_last()) + s.last().mass
    }
}

/// Two particle sequences of equal length and pairwise equal masses have
/// the same total mass.  Integration, force interpolation and deposit all
/// leave masses alone, so this carries mass conservation through a step.
pub proof fn lemma_total_mass_same(a: Seq<Particle>, b: Seq<Particle>)
    requires
        a.len() == b.len(),
        forall|i: int| 0 <= i < a.len() ==> a[i].mass == b[i].mass,
    ensures
        total_mass_of(a) == total_mass_of(b),
    decreases a.len(),
{
    if a.len() > 0 {
        lemma_total_mass_same(a.drop_last(), b.drop_last());
    }
}

/// The total mass of well-formed particles is nonnegative and bounded
/// by the per-particle cap times the count.
pub proof fn lemma_total_mass_bounds(s: Seq<Particle>, box_size: i64)
    requires
        forall|i: int| 0 <= i < s.len() ==> particle_wf(#[trigger] s[i], box_size),
    ensures
        0 <= total_mass_of(s) <= s.len() * MASS_MAX,
    decreases s.len(),
{
    if s.len() == 0 {
    } else {
        lemma_total_mass_bounds(s.drop_last(), box_size);
        assert((s.len() - 1) * MASS_MAX + MASS_MAX == s.len() * MASS_MAX) by (nonlinear_arith);
    }
}

/// The total mass of a prefix one element longer grows by that element's
/// mass.
pub proof fn lemma_total_mass_take_step(s: Seq<Particle>, i: int)
    requires
        0 <= i < s.len(),
    ensures
        total_mass_of(s.take(i + 1)) == total_mass_of(s.take(i)) + s[i].mass,
{
    assert(s.take(i + 1).drop_last() =~= s.take(i));
}

/// A full-length prefix carries the whole total mass.
pub proof fn lemma_total_mass_take_all(s: Seq<Particle>)
    ensures
        total_mass_of(s.take(s.len() as int)) == total_mass_of(s),
{
    assert(s.take(s.len() as int) =~= s);
}

/// Velocity after half a kick: the old velocity plus acceleration
/// (force over mass) times half the time step, saturated.
pub open spec fn kicked_velocity(v: int, f: int, m: int, dt: int) -> int {
    sat_i64(v + tdiv(f * dt, 2 * m))
}

/// Velocity after a full kick: the old velocity plus acceleration
/// (force over mass) times the whole time step, saturated.
pub open spec fn full_kick_velocity(v: int, f: int, m: int, dt: int) -> int {
    sat_i64(v + tdiv(f * dt, m))
}

/// Position after a drift: the old position plus velocity times the time
/// step, wrapped back into the periodic box.
pub open spec fn drifted_position(x: int, v: int, dt: int, b: int) -> int {
    (x + tdiv(v * dt, FX as int)) % b
}

/// One velocity component after half a kick.
pub(crate) fn kick_one(v: i64, f: i64, m: i64, dt: i64) -> (r: i64)
    requires
        0 < m <= MASS_MAX,
    ensures
        r == kicked_velocity(v as int, f as int, m as int, dt as int),
{
    let num: i128 = mul_i64(f, dt);
    let q: i128 = div_trunc(num, 2 * (m as i128));
    proof {
        lemma_tdiv_le(num as int, 2 * (m as int));
    }
    sat64((v as i128) + q)
}

/// One velocity component after a full kick.
pub(crate) fn full_kick_one(v: i64, f: i64, m: i64, dt: i64) -> (r: i64)
    requires
        0 < m <= MASS_MAX,
    ensures
        r == full_kick_velocity(v as int, f as int, m as int, dt as int),
{
    let num: i128 = mul_i64(f, dt);
    let q: i128 = div_trunc(num, m as i128);
    proof {
        lemma_tdiv_le(num as int, m as int);
    }
    sat64((v as i128) + q)
}

/// One position component after a drift with periodic wrap.
pub(crate) fn drift_one(x: i64, v: i64, dt: i64, b: i64) -> (r: i64)
    requires
        1 <= b,
    ensures
        r == drifted_position(x as int, v as int, dt as int, b as int),
        0 <= r < b,
{
    let num: i128 = mul_i64(v, dt);
    let disp: i128 = div_trunc(num, FX as i128);
    proof {
        lemma_tdiv_le(num as int, FX as int);
    }
    rem_euclid_fx((x as i128) + disp, b)
}

/// The particles of one simulation run, together with the side length of
/// the periodic box they live in.
pub struct ParticleSet {
    /// The bodies; indices stay stable across a step.
    pub particles: Vec<Particle>,
    /// Side length of the cubic box, fixed-point at scale FX.
    pub box_size: i64,
}

impl ParticleSet {
    /// A set is well formed when the box side is positive and bounded,
    /// the count is bounded, and every particle is well formed.
    pub open spec fn wf(&self) -> bool {
        &&& 1 <= self.box_size <= BOX_MAX
        &&& self.particles@.len() <= MAX_PARTICLES
        &&& forall|i: int|
            0 <= i < self.particles@.len() ==> particle_wf(
                #[trigger] self.particles@[i],
                self.box_size,
            )
    }

    /// Total mass of the set.
    pub open spec fn total_mass(&self) -> int {
        total_mass_of(self.particles@)
    }

    /// An empty set with no box chosen yet; one of the initializers
    /// populates it.
    pub fn new() -> (r: ParticleSet)
        ensures
            r.particles@.len() == 0,
            r.box_size == 0,
    {
        ParticleSet { particles: Vec::new(), box_size: 0 }
    }

    /// Total mass of the set as a machine integer.
    pub fn total_mass_exec(&self) -> (r: i64)
        requires
            self.wf(),
        ensures
            r == self.total_mass(),
            0 <= r <= MAX_PARTICLES * MASS_MAX,
    {
        let n = self.particles.len();
        let mut sum: i64 = 0;
        let mut i: usize = 0;
        proof {
            lemma_total_mass_bounds(self.particles@, self.box_size);
        }
        while i < n
            invariant
                i <= n,
                n == self.particles@.len(),
                self.wf(),
                sum == total_mass_of(self.particles@.take(i as int)),
                0 <= sum <= i * MASS_MAX,
            decreases n - i,
        {
            proof {
                lemma_total_mass_take_step(self.particles@, i as int);
                assert(i * MASS_MAX + MASS_MAX <= MAX_PARTICLES * MASS_MAX)
                    by (nonlinear_arith)
                    requires
                        0 <= i < MAX_PARTICLES,
                ;
                assert((i + 1) * MASS_MAX == i * MASS_MAX + MASS_MAX) by (nonlinear_arith);
            }
            sum = sum + self.particles[i].mass;
            i = i + 1;
        }
        proof {
            lemma_total_mass_take_all(self.particles@);
        }
        sum
    }

    /// Place every particle at an independently uniform random position
    /// in the box, with zero velocity and unit mass.
    pub fn initialize_uniform(&mut self, num_particles: usize, box_size: i64)
        requires
            0 < num_particles <= MAX_PARTICLES,
            1 <= box_size <= BOX_MAX,
        ensures
            final(self).wf(),
            final(self).box_size == box_size,
            final(self).particles@.len() == num_particles,
            forall|i: int|
                0 <= i < num_particles ==> {
                    let p = #[trigger] final(self).particles@[i];
                    &&& 0 <= p.position[0] < box_size
                    &&& 0 <= p.position[1] < box_size
                    &&& 0 <= p.position[2] < box_size
                    &&& p.velocity[0] == 0 && p.velocity[1] == 0 && p.velocity[2] == 0
                    &&& p.mass == FX
                },
    {
        self.box_size = box_size;
        self.particles = Vec::new();
        let mut i: usize = 0;
        while i < num_particles
            invariant
                1 <= box_size <= BOX_MAX,
                num_particles <= MAX_PARTICLES,
                self.box_size == box_size,
                self.particles@.len() == i <= num_particles,
                forall|k: int|
                    0 <= k < i ==> {
                        let p = #[trigger] self.particles@[k];
                        &&& 0 <= p.position[0] < box_size
                        &&& 0 <= p.position[1] < box_size
                        &&& 0 <= p.position[2] < box_size
                        &&& p.velocity[0] == 0 && p.velocity[1] == 0 && p.velocity[2] == 0
                        &&& p.mass == FX
                    },
            decreases num_particles - i,
        {
            let p = Particle {
                position: [
                    random_below(box_size),
                    random_below(box_size),
                    random_below(box_size),
                ],
                velocity: [0, 0, 0],
                force: [0, 0, 0],
                mass: FX,
            };
            self.particles.push(p);
            i = i + 1;
        }
    }

    /// Half-kick every velocity by the current force, then drift every
    /// position by the new velocity, wrapping back into the box.
    pub fn integrate(&mut self, dt: i64)
        requires
            old(self).wf(),
        ensures
            final(self).wf(),
            final(self).box_size == old(self).box_size,
            final(self).particles@.len() == old(self).particles@.len(),
            forall|i: int|
                0 <= i < final(self).particles@.len() ==> {
                    let p0 = old(self).particles@[i];
                    let p1 = #[trigger] final(self).particles@[i];
                    let b = old(self).box_size as int;
                    &&& p1.mass == p0.mass
                    &&& p1.force == p0.force
                    &&& p1.velocity[0] == kicked_velocity(
                        p0.velocity[0] as int,
                        p0.force[0] as int,
                        p0.mass as int,
                        dt as int,
                    )
                    &&& p1.velocity[1] == kicked_velocity(
                        p0.velocity[1] as int,
                        p0.force[1] as int,
                        p0.mass as int,
                        dt as int,
                    )
                    &&& p1.velocity[2] == kicked_velocity(
                        p0.velocity[2] as int,
                        p0.force[2] as int,
                        p0.mass as int,
                        dt as int,
                    )
                    &&& p1.position[0] == drifted_position(
                        p0.position[0] as int,
                        p1.velocity[0] as int,
                        dt as int,
                        b,
                    )
                    &&& p1.position[1] == drifted_position(
                        p0.position[1] as int,
                        p1.velocity[1] as int,
                        dt as int,
                        b,
                    )
                    &&& p1.position[2] == drifted_position(
                        p0.position[2] as int,
                        p1.velocity[2] as int,
                        dt as int,
                        b,
                    )
                },
            final(self).total_mass() == old(self).total_mass(),
    {
        let count = self.particles.len();
        let b = self.box_size;
        let ghost s0 = self.particles@;
        let mut i: usize = 0;
        while i < count
            invariant
                self.wf(),
                self.box_size == b,
                count == self.particles@.len() == s0.len(),
                i <= count,
                forall|k: int| 0 <= k < s0.len() ==> particle_wf(#[trigger] s0[k], b),
                forall|k: int| i <= k < count ==> self.particles@[k] == s0[k],
                forall|k: int|
                    0 <= k < i ==> {
                        let p0 = s0[k];
                        let p1 = #[trigger] self.particles@[k];
                        &&& p1.mass == p0.mass
                        &&& p1.force == p0.force
                        &&& p1.velocity[0] == kicked_velocity(
                            p0.velocity[0] as int,
                            p0.force[0] as int,
                            p0.mass as int,
                            dt as int,
                        )
                        &&& p1.velocity[1] == kicked_velocity(
                            p0.velocity[1] as int,
                            p0.force[1] as int,
                            p0.mass as int,
                            dt as int,
                        )
                        &&& p1.velocity[2] == kicked_velocity(
                            p0.velocity[2] as int,
                            p0.force[2] as int,
                            p0.mass as int,
                            dt as int,
                        )
                        &&& p1.position[0] == drifted_position(
                            p0.position[0] as int,
                            p1.velocity[0] as int,
                            dt as int,
                            b as int,
                        )
                        &&& p1.position[1] == drifted_position(
                            p0.position[1] as int,
                            p1.velocity[1] as int,
                            dt as int,
                            b as int,
                        )
                        &&& p1.position[2] == drifted_position(
                            p0.position[2] as int,
                            p1.velocity[2] as int,
                            dt as int,
                            b as int,
                        )
                    },
            decreases count - i,
        {
            let p: Particle = self.particles[i];
            let v0 = kick_one(p.velocity[0], p.force[0], p.mass, dt);
            let v1 = kick_one(p.velocity[1], p.force[1], p.mass, dt);
            let v2 = kick_one(p.velocity[2], p.force[2], p.mass, dt);
            let x0 = drift_one(p.position[0], v0, dt, b);
            let x1 = drift_one(p.position[1], v1, dt, b);
            let x2 = drift_one(p.position[2], v2, dt, b);
            let updated = Particle {
                position: [x0, x1, x2],
                velocity: [v0, v1, v2],
                force: p.force,
                mass: p.mass,
            };
            self.particles.set(i, updated);
            i = i + 1;
        }
        proof {
            lemma_total_mass_same(old(self).particles@, self.particles@);
        }
    }

    /// Half-kick every velocity by the current force; positions stay.
    pub fn kick(&mut self, dt: i64)
        requires
            old(self).wf(),
        ensures
            final(self).wf(),
            final(self).box_size == old(self).box_size,
            final(self).particles@.len() == old(self).particles@.len(),
            forall|i: int|
                0 <= i < final(self).particles@.len() ==> {
                    let p0 = old(self).particles@[i];
                    let p1 = #[trigger] final(self).particles@[i];
                    &&& p1.mass == p0.mass
                    &&& p1.force == p0.force
                    &&& p1.position == p0.position
                    &&& p1.velocity[0] == kicked_velocity(
                        p0.velocity[0] as int,
                        p0.force[0] as int,
                        p0.mass as int,
                        dt as int,
                    )
                    &&& p1.velocity[1] == kicked_velocity(
                        p0.velocity[1] as int,
                        p0.force[1] as int,
                        p0.mass as int,
                        dt as int,
                    )
                    &&& p1.velocity[2] == kicked_velocity(
                        p0.velocity[2] as int,
                        p0.force[2] as int,
                        p0.mass as int,
                        dt as int,
                    )
                },
            final(self).total_mass() == old(self).total_mass(),
    {
        let count = self.particles.len();
        let b = self.box_size;
        let ghost s0 = self.particles@;
        let mut i: usize = 0;
        while i < count
            invariant
                self.wf(),
                self.box_size == b,
                count == self.particles@.len() == s0.len(),
                i <= count,
                forall|k: int| 0 <= k < s0.len() ==> particle_wf(#[trigger] s0[k], b),
                forall|k: int| i <= k < count ==> self.particles@[k] == s0[k],
                forall|k: int|
                    0 <= k < i ==> {
                        let p0 = s0[k];
                        let p1 = #[trigger] self.particles@[k];
                        &&& p1.mass == p0.mass
                        &&& p1.force == p0.force
                        &&& p1.position == p0.position
                        &&& p1.velocity[0] == kicked_velocity(
                            p0.velocity[0] as int,
                            p0.force[0] as int,
                            p0.mass as int,
                            dt as int,
                        )
                        &&& p1.velocity[1] == kicked_velocity(
                            p0.velocity[1] as int,
                            p0.force[1] as int,
                            p0.mass as int,
                            dt as int,
                        )
                        &&& p1.velocity[2] == kicked_velocity(
                            p0.velocity[2] as int,
                            p0.force[2] as int,
                            p0.mass as int,
                            dt as int,
                        )
                    },
            decreases count - i,
        {
            let p: Particle = self.particles[i];
            let v0 = kick_one(p.velocity[0], p.force[0], p.mass, dt);
            let v1 = kick_one(p.velocity[1], p.force[1], p.mass, dt);
            let v2 = kick_one(p.velocity[2], p.force[2], p.mass, dt);
            let updated = Particle {
                position: p.position,
                velocity: [v0, v1, v2],
                force: p.force,
                mass: p.mass,
            };
            self.particles.set(i, updated);
            i = i + 1;
        }
        proof {
            lemma_total_mass_same(old(self).particles@, self.particles@);
        }
    }
}

} // verus!
