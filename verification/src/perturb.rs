use vstd::prelude::*;
use crate::fixed::{
    div_trunc, fx_mul, isqrt, lemma_div_below, rem_euclid_fx, BOX_MAX, FX, FX2,
    MAX_PARTICLES,
};
use crate::particle::{particle_wf, Particle, ParticleSet};
use crate::rng::random_below;

verus! {

/// Positive floor the sampled density field is clamped to, one tenth of
/// the mean density.
pub const RHO_FLOOR: i64 = 6553;

/// Upper bound of the sampled density field: the mean plus one full
/// amplitude from each superposed mode.
pub const RHO_CAP: i64 = 1638400;

/// Quadratic approximation of the sine of t turns, fixed-point at scale
/// FX: a parabola through the zero crossings and the peak on each half
/// period.
pub open spec fn sine_turns_spec(t: int) -> int {
    if t < 32768 {
        (4 * (2 * t) * (FX - 2 * t)) / (FX as int)
    } else {
        -((4 * (2 * (t - 32768)) * (FX - 2 * (t - 32768))) / (FX as int))
    }
}

/// Sine of t turns, by the quadratic approximation.
pub fn sine_turns(t: i64) -> (r: i64)
    requires
        0 <= t < FX,
    ensures
        r == sine_turns_spec(t as int),
        -FX <= r <= FX,
{
    proof {
        assert(forall|u: int|
            0 <= u <= FX ==> 0 <= #[trigger] (4 * u * (FX - u)) <= FX * FX)
            by (nonlinear_arith);
    }
    if t < 32768 {
        let u: u64 = (2 * t) as u64;
        let num: u64 = 4 * u * ((FX as u64) - u);
        proof {
            lemma_div_below(num as int, FX as int, FX + 1);
        }
        (num / (FX as u64)) as i64
    } else {
        let u: u64 = (2 * (t - 32768)) as u64;
        let num: u64 = 4 * u * ((FX as u64) - u);
        proof {
            lemma_div_below(num as int, FX as int, FX + 1);
        }
        -((num / (FX as u64)) as i64)
    }
}

/// One discrete plane wave of the toy clustering spectrum: an integer-free
/// wave vector in cycles per box side (scale FX), a phase in turns
/// (scale FX), and an amplitude (scale FX).
pub struct WaveMode {
    /// Cycles along x per box side.
    pub cx: i64,
    /// Cycles along y per box side.
    pub cy: i64,
    /// Cycles along z per box side.
    pub cz: i64,
    /// Phase, in turns.
    pub phase: i64,
    /// Amplitude of the mode.
    pub amp: i64,
}

/// A mode is well formed when its wave vector, phase and amplitude are in
/// the ranges the sampler needs.
pub open spec fn mode_wf(m: WaveMode) -> bool {
    &&& -8 * FX <= m.cx <= 8 * FX
    &&& -8 * FX <= m.cy <= 8 * FX
    &&& -8 * FX <= m.cz <= 8 * FX
    &&& 0 <= m.phase < FX
    &&& 0 < m.amp <= FX
}

/// Build the toy spectrum: eight scales, three random orientations each,
/// amplitude falling off as one over the square root of the scale, random
/// phases.
fn build_modes() -> (modes: Vec<WaveMode>)
    ensures
        modes@.len() == 24,
        forall|i: int| 0 <= i < modes@.len() ==> mode_wf(#[trigger] modes@[i]),
{
    let mut modes: Vec<WaveMode> = Vec::new();
    let mut i: u64 = 1;
    while i <= 8
        invariant
            1 <= i <= 9,
            modes@.len() == 3 * (i - 1),
            forall|k: int| 0 <= k < modes@.len() ==> mode_wf(#[trigger] modes@[k]),
        decreases 9 - i,
    {
        let s: u64 = isqrt(i * (FX2 as u64));
        proof {
            assert((FX as int) * (FX as int) <= (i as int) * (FX2 as int) && (i as int) * (
            FX2 as int) < (3 * FX as int) * (3 * FX as int)) by (nonlinear_arith)
                requires
                    1 <= i <= 8,
                    FX == 65536,
                    FX2 == 4294967296,
            ;
            assert(s >= FX) by (nonlinear_arith)
                requires
                    (s as int + 1) * (s as int + 1) > (i as int) * (FX2 as int),
                    (i as int) * (FX2 as int) >= (FX as int) * (FX as int),
                    s >= 0,
                    FX == 65536,
            ;
            assert(s < 3 * FX) by (nonlinear_arith)
                requires
                    (s as int) * (s as int) <= (i as int) * (FX2 as int),
                    (i as int) * (FX2 as int) < (3 * FX as int) * (3 * FX as int),
                    s >= 0,
                    FX == 65536,
            ;
            lemma_div_below(FX2 as int, s as int, FX + 1);
            vstd::arithmetic::div_mod::lemma_fundamental_div_mod(FX2 as int, s as int);
            assert((FX2 as int) / (s as int) >= 1) by (nonlinear_arith)
                requires
                    FX <= s < 3 * FX,
                    FX == 65536,
                    FX2 == 4294967296,
                    FX2 as int == (s as int) * ((FX2 as int) / (s as int)) + (FX2 as int) % (
                    s as int),
                    0 <= (FX2 as int) % (s as int) < s,
            ;
        }
        let amp: i64 = ((FX2 as u64) / s) as i64;
        let mut o: usize = 0;
        while o < 3
            invariant
                1 <= i <= 8,
                0 < amp <= FX,
                o <= 3,
                modes@.len() == 3 * (i - 1) + o,
                forall|k: int| 0 <= k < modes@.len() ==> mode_wf(#[trigger] modes@[k]),
            decreases 3 - o,
        {
            let dx: i64 = random_below(2 * FX + 1) - FX;
            let dy: i64 = random_below(2 * FX + 1) - FX;
            let dz: i64 = random_below(2 * FX + 1) - FX;
            proof {
                assert(-8 * FX <= (i as int) * (dx as int) <= 8 * FX && -8 * FX <= (i as int)
                    * (dy as int) <= 8 * FX && -8 * FX <= (i as int) * (dz as int) <= 8 * FX)
                    by (nonlinear_arith)
                    requires
                        1 <= i <= 8,
                        -FX <= dx <= FX,
                        -FX <= dy <= FX,
                        -FX <= dz <= FX,
                ;
            }
            let m = WaveMode {
                cx: (i as i64) * dx,
                cy: (i as i64) * dy,
                cz: (i as i64) * dz,
                phase: random_below(FX),
                amp,
            };
            modes.push(m);
            o = o + 1;
        }
        i = i + 1;
    }
    modes
}

/// Evaluate the toy density field at a position: the mean plus each
/// mode's amplitude times the sine of its phase there, clamped to a
/// positive floor.
fn density_at(modes: &Vec<WaveMode>, x: i64, y: i64, z: i64, b: i64) -> (r: i64)
    requires
        modes@.len() <= 24,
        forall|i: int| 0 <= i < modes@.len() ==> mode_wf(#[trigger] modes@[i]),
        0 <= x < b,
        0 <= y < b,
        0 <= z < b,
        1 <= b <= BOX_MAX,
    ensures
        RHO_FLOOR <= r <= RHO_CAP,
{
    let count = modes.len();
    let mut acc: i64 = FX;
    let mut i: usize = 0;
    while i < count
        invariant
            count == modes@.len() <= 24,
            forall|k: int| 0 <= k < modes@.len() ==> mode_wf(#[trigger] modes@[k]),
            0 <= x < b,
            0 <= y < b,
            0 <= z < b,
            1 <= b <= BOX_MAX,
            i <= count,
            FX - i * FX <= acc <= FX + i * FX,
        decreases count - i,
    {
        let m = &modes[i];
        proof {
            assert(-(8 * FX as int) * (BOX_MAX as int) <= (m.cx as int) * (x as int) <= (8
                * FX as int) * (BOX_MAX as int) && -(8 * FX as int) * (BOX_MAX as int) <= (
            m.cy as int) * (y as int) <= (8 * FX as int) * (BOX_MAX as int) && -(8
                * FX as int) * (BOX_MAX as int) <= (m.cz as int) * (z as int) <= (8
                * FX as int) * (BOX_MAX as int)) by (nonlinear_arith)
                requires
                    -8 * FX <= m.cx <= 8 * FX,
                    -8 * FX <= m.cy <= 8 * FX,
                    -8 * FX <= m.cz <= 8 * FX,
                    0 <= x < b <= BOX_MAX,
                    0 <= y < b <= BOX_MAX,
                    0 <= z < b <= BOX_MAX,
                    FX == 65536,
            ;
        }
        let t: i128 = (m.cx as i128) * (x as i128) + (m.cy as i128) * (y as i128) + (
        m.cz as i128) * (z as i128);
        let cyc: i128 = div_trunc(t, b as i128);
        proof {
            crate::fixed::lemma_tdiv_le(t as int, b as int);
        }
        let turn: i64 = rem_euclid_fx(cyc + (m.phase as i128), FX);
        let s: i64 = sine_turns(turn);
        let term: i64 = fx_mul(m.amp, s);
        proof {
            assert(-(FX as int) * FX <= (m.amp as int) * (s as int) <= (FX as int) * FX)
                by (nonlinear_arith)
                requires
                    0 < m.amp <= FX,
                    -FX <= s <= FX,
            ;
            let prod = (m.amp as int) * (s as int);
            if prod >= 0 {
                lemma_div_below(prod, FX as int, FX + 1);
            } else {
                lemma_div_below(-prod, FX as int, FX + 1);
            }
            assert((i + 1) * FX == i * FX + FX) by (nonlinear_arith);
        }
        acc = acc + term;
        i = i + 1;
    }
    if acc < RHO_FLOOR {
        RHO_FLOOR
    } else {
        acc
    }
}

/// A small random velocity jitter, within half a percent either way.
fn jitter() -> (r: i64)
    ensures
        -328 <= r <= 328,
{
    let u: i64 = random_below(FX);
    if u >= 32768 {
        (((u - 32768) as u64) / 100) as i64
    } else {
        -((((32768 - u) as u64) / 100) as i64)
    }
}

/// A particle at a uniform random position with jittered velocity and
/// unit mass.
fn random_particle(b: i64) -> (p: Particle)
    requires
        1 <= b <= BOX_MAX,
    ensures
        particle_wf(p, b),
        p.mass == FX,
        -328 <= p.velocity[0] <= 328,
        -328 <= p.velocity[1] <= 328,
        -328 <= p.velocity[2] <= 328,
{
    Particle {
        position: [random_below(b), random_below(b), random_below(b)],
        velocity: [jitter(), jitter(), jitter()],
        force: [0, 0, 0],
        mass: FX,
    }
}

impl ParticleSet {
    /// Populate the set by rejection sampling against a superposition of
    /// random plane-wave modes with amplitudes falling off in scale: a
    /// toy stand-in for a clustering power spectrum.  The attempt budget
    /// is bounded; any shortfall is filled with uniform placement, so the
    /// generator always returns exactly the requested count.
    pub fn initialize_grid_with_perturbations(&mut self, num_particles: usize, box_size: i64)
        requires
            0 < num_particles <= MAX_PARTICLES,
            1 <= box_size <= BOX_MAX,
        ensures
            final(self).wf(),
            final(self).box_size == box_size,
            final(self).particles@.len() == num_particles,
            forall|i: int|
                0 <= i < num_particles ==> {
                    let p = #[trigger] final(self).particles@[i];
                    &&& p.mass == FX
                    &&& -328 <= p.velocity[0] <= 328
                    &&& -328 <= p.velocity[1] <= 328
                    &&& -328 <= p.velocity[2] <= 328
                },
    {
        self.box_size = box_size;
        self.particles = Vec::new();
        let modes = build_modes();
        // Estimate the density maximum from random samples, then add a
        // safety margin of one fifth.
        let mut max_rho: i64 = RHO_FLOOR;
        let mut s: usize = 0;
        while s < 1000
            invariant
                1 <= box_size <= BOX_MAX,
                modes@.len() == 24,
                forall|k: int| 0 <= k < modes@.len() ==> mode_wf(#[trigger] modes@[k]),
                RHO_FLOOR <= max_rho <= RHO_CAP,
            decreases 1000 - s,
        {
            let x = random_below(box_size);
            let y = random_below(box_size);
            let z = random_below(box_size);
            let rho = density_at(&modes, x, y, z, box_size);
            if rho > max_rho {
                max_rho = rho;
            }
            s = s + 1;
        }
        max_rho = max_rho + ((max_rho as u64) / 5) as i64;
        // Rejection sampling with a bounded attempt budget: generation
        // never blocks however extreme the field is.
        let max_attempts: usize = num_particles * 100;
        let mut attempts: usize = 0;
        while self.particles.len() < num_particles && attempts < max_attempts
            invariant
                0 < num_particles <= MAX_PARTICLES,
                1 <= box_size <= BOX_MAX,
                self.box_size == box_size,
                modes@.len() == 24,
                forall|k: int| 0 <= k < modes@.len() ==> mode_wf(#[trigger] modes@[k]),
                RHO_FLOOR <= max_rho,
                attempts <= max_attempts,
                self.particles@.len() <= num_particles,
                forall|i: int|
                    0 <= i < self.particles@.len() ==> {
                        let p = #[trigger] self.particles@[i];
                        &&& particle_wf(p, box_size)
                        &&& p.mass == FX
                        &&& -328 <= p.velocity[0] <= 328
                        &&& -328 <= p.velocity[1] <= 328
                        &&& -328 <= p.velocity[2] <= 328
                    },
            decreases max_attempts - attempts,
        {
            let x = random_below(box_size);
            let y = random_below(box_size);
            let z = random_below(box_size);
            let rho = density_at(&modes, x, y, z, box_size);
            if random_below(max_rho) < rho {
                let p = Particle {
                    position: [x, y, z],
                    velocity: [jitter(), jitter(), jitter()],
                    force: [0, 0, 0],
                    mass: FX,
                };
                self.particles.push(p);
            }
            attempts = attempts + 1;
        }
        // Fill any shortfall with uniform placement.
        while self.particles.len() < num_particles
            invariant
                0 < num_particles <= MAX_PARTICLES,
                1 <= box_size <= BOX_MAX,
                self.box_size == box_size,
                self.particles@.len() <= num_particles,
                forall|i: int|
                    0 <= i < self.particles@.len() ==> {
                        let p = #[trigger] self.particles@[i];
                        &&& particle_wf(p, box_size)
                        &&& p.mass == FX
                        &&& -328 <= p.velocity[0] <= 328
                        &&& -328 <= p.velocity[1] <= 328
                        &&& -328 <= p.velocity[2] <= 328
                    },
            decreases num_particles - self.particles@.len(),
        {
            let p = random_particle(box_size);
            self.particles.push(p);
        }
    }
}

} // verus!
