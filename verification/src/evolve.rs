use vstd::prelude::*;
use crate::particle::{
    drifted_position, drift_one, full_kick_one, full_kick_velocity, lemma_total_mass_same,
    particle_wf, Particle, ParticleSet,
};

verus! {

/// Advance every particle by one combined kick-and-drift: a full kick of
/// the velocity by the current force (acceleration is force over mass),
/// then a drift of the position by the new velocity, wrapped back into
/// the periodic box.
pub fn evolve_particles(particles: &mut ParticleSet, time_step: i64)
    requires
        old(particles).wf(),
    ensures
        final(particles).wf(),
        final(particles).box_size == old(particles).box_size,
        final(particles).particles@.len() == old(particles).particles@.len(),
        forall|i: int|
            0 <= i < final(particles).particles@.len() ==> {
                let p0 = old(particles).particles@[i];
                let p1 = #[trigger] final(particles).particles@[i];
                let b = old(particles).box_size as int;
                &&& p1.mass == p0.mass
                &&& p1.force == p0.force
                &&& p1.velocity[0] == full_kick_velocity(
                    p0.velocity[0] as int,
                    p0.force[0] as int,
                    p0.mass as int,
                    time_step as int,
                )
                &&& p1.velocity[1] == full_kick_velocity(
                    p0.velocity[1] as int,
                    p0.force[1] as int,
                    p0.mass as int,
                    time_step as int,
                )
                &&& p1.velocity[2] == full_kick_velocity(
                    p0.velocity[2] as int,
                    p0.force[2] as int,
                    p0.mass as int,
                    time_step as int,
                )
                &&& p1.position[0] == drifted_position(
                    p0.position[0] as int,
                    p1.velocity[0] as int,
                    time_step as int,
                    b,
                )
                &&& p1.position[1] == drifted_position(
                    p0.position[1] as int,
                    p1.velocity[1] as int,
                    time_step as int,
                    b,
                )
                &&& p1.position[2] == drifted_position(
                    p0.position[2] as int,
                    p1.velocity[2] as int,
                    time_step as int,
                    b,
                )
            },
        final(particles).total_mass() == old(particles).total_mass(),
{
    let count = particles.particles.len();
    let b = particles.box_size;
    let ghost s0 = particles.particles@;
    let mut i: usize = 0;
    while i < count
        invariant
            particles.wf(),
            particles.box_size == b,
            count == particles.particles@.len() == s0.len(),
            i <= count,
            forall|k: int| 0 <= k < s0.len() ==> particle_wf(#[trigger] s0[k], b),
            forall|k: int| i <= k < count ==> particles.particles@[k] == s0[k],
            forall|k: int|
                0 <= k < i ==> {
                    let p0 = s0[k];
                    let p1 = #[trigger] particles.particles@[k];
                    &&& p1.mass == p0.mass
                    &&& p1.force == p0.force
                    &&& p1.velocity[0] == full_kick_velocity(
                        p0.velocity[0] as int,
                        p0.force[0] as int,
                        p0.mass as int,
                        time_step as int,
                    )
                    &&& p1.velocity[1] == full_kick_velocity(
                        p0.velocity[1] as int,
                        p0.force[1] as int,
                        p0.mass as int,
                        time_step as int,
                    )
                    &&& p1.velocity[2] == full_kick_velocity(
                        p0.velocity[2] as int,
                        p0.force[2] as int,
                        p0.mass as int,
                        time_step as int,
                    )
                    &&& p1.position[0] == drifted_position(
                        p0.position[0] as int,
                        p1.velocity[0] as int,
                        time_step as int,
                        b as int,
                    )
                    &&& p1.position[1] == drifted_position(
                        p0.position[1] as int,
                        p1.velocity[1] as int,
                        time_step as int,
                        b as int,
                    )
                    &&& p1.position[2] == drifted_position(
                        p0.position[2] as int,
                        p1.velocity[2] as int,
                        time_step as int,
                        b as int,
                    )
                },
        decreases count - i,
    {
        let p = particles.particles[i];
        let v0 = full_kick_one(p.velocity[0], p.force[0], p.mass, time_step);
        let v1 = full_kick_one(p.velocity[1], p.force[1], p.mass, time_step);
        let v2 = full_kick_one(p.velocity[2], p.force[2], p.mass, time_step);
        let x0 = drift_one(p.position[0], v0, time_step, b);
        let x1 = drift_one(p.position[1], v1, time_step, b);
        let x2 = drift_one(p.position[2], v2, time_step, b);
        let updated = Particle {
            position: [x0, x1, x2],
            velocity: [v0, v1, v2],
            force: p.force,
            mass: p.mass,
        };
        particles.particles.set(i, updated);
        i = i + 1;
    }
    proof {
        lemma_total_mass_same(old(particles).particles@, particles.particles@);
    }
}

} // verus!
