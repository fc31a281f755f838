use vstd::prelude::*;
use crate::fixed::{sat_i64, tdiv, BOX_MAX, FX, MAX_PARTICLES};
use crate::forces::{
    calculate_forces_from_potential, force_cell, gather_cic, interpolate_forces_to_particles,
    scale_forces,
};
use crate::geom::MAX_RES;
use crate::gravity::{assign_mass_cic, contrast_cell, deposit_cell};
use crate::grid::Grid;
use crate::particle::{
    drifted_position, kicked_velocity, lemma_total_mass_same, ParticleSet,
};

verus! {

/// What a run can be rejected for before any computation begins.
#[derive(Clone, Copy, Debug, PartialEq, Eq, Structural)]
pub enum SimError {
    /// A count, resolution or box side is zero, negative or over the
    /// crate's caps.
    InvalidConfiguration,
}

/// Check the run parameters: counts and resolutions must be positive and
/// within the crate's caps, and the box side must be positive.
pub fn validate_config(
    num_particles: usize,
    grid_resolution: usize,
    box_size: i64,
    projection_res: usize,
) -> (r: Result<(), SimError>)
    ensures
        r is Ok <==> (0 < num_particles <= MAX_PARTICLES && 0 < grid_resolution <= MAX_RES
            && 1 <= box_size <= BOX_MAX && 0 < projection_res <= MAX_RES),
        r is Err ==> r == Result::<(), SimError>::Err(SimError::InvalidConfiguration),
{
    if num_particles == 0 || num_particles > MAX_PARTICLES {
        Err(SimError::InvalidConfiguration)
    } else if grid_resolution == 0 || grid_resolution > MAX_RES {
        Err(SimError::InvalidConfiguration)
    } else if box_size < 1 || box_size > BOX_MAX {
        Err(SimError::InvalidConfiguration)
    } else if projection_res == 0 || projection_res > MAX_RES {
        Err(SimError::InvalidConfiguration)
    } else {
        Ok(())
    }
}

/// Which half of the leapfrog step the next solved potential feeds.
#[derive(Clone, Copy, Debug, PartialEq, Eq, Structural)]
pub enum StepPhase {
    /// The next force evaluation kicks half a step and drifts.
    FirstHalf,
    /// Forces were recomputed after the drift; the next evaluation
    /// completes the step with the second half-kick.
    SecondHalf,
}

/// The force mesh along one axis derived from a potential and scaled by
/// the explicit force gain.
pub open spec fn scaled_mesh(pot: Seq<i64>, n: int, b: int, gain: int, axis: int) -> Seq<
    i64> {
    Seq::new(
        (n * n * n) as nat,
        |c: int| sat_i64(tdiv(force_cell(pot, n, b, c, axis) * gain, FX as int)) as i64,
    )
}

/// One simulation run: the particles, the mesh, the step parameters and
/// where in the current step the run stands.  The run owns no transform:
/// the caller solves each density it exposes into a potential and hands
/// the potential back, and the run does everything else.
pub struct SimRun {
    /// The bodies being advanced.
    pub particles: ParticleSet,
    /// The mesh shared by deposit, solve and force differencing.
    pub grid: Grid,
    /// Leapfrog time step, fixed-point at scale FX.
    pub time_step: i64,
    /// Explicit force-amplification gain, fixed-point at scale FX; FX
    /// means physical forces.
    pub force_gain: i64,
    /// Whole steps still to run.
    pub steps_remaining: usize,
    /// Which half of the current step the next potential feeds.
    pub phase: StepPhase,
}

impl SimRun {
    /// A run is well formed when particles and grid are, and they agree
    /// on the box; inside a step there is always a step left to finish.
    pub open spec fn wf(&self) -> bool {
        &&& self.particles.wf()
        &&& self.grid.wf()
        &&& self.grid.box_size == self.particles.box_size
        &&& (self.phase is SecondHalf ==> self.steps_remaining > 0)
    }

    /// A run is finished when no step remains.
    pub open spec fn finished(&self) -> bool {
        self.steps_remaining == 0
    }

    /// Start a run over an initialized particle set.  With zero steps
    /// requested the run is finished at once, so projecting afterwards
    /// projects exactly the initial particle distribution.
    pub fn new(
        particles: ParticleSet,
        grid_resolution: usize,
        time_step: i64,
        force_gain: i64,
        num_steps: usize,
    ) -> (r: SimRun)
        requires
            particles.wf(),
            0 < grid_resolution <= MAX_RES,
        ensures
            r.wf(),
            r.particles == particles,
            r.grid.resolution == grid_resolution,
            r.grid.box_size == particles.box_size,
            r.time_step == time_step,
            r.force_gain == force_gain,
            r.steps_remaining == num_steps,
            r.phase is FirstHalf,
            num_steps == 0 ==> r.finished(),
    {
        let box_size = particles.box_size;
        SimRun {
            particles,
            grid: Grid::new(grid_resolution, box_size),
            time_step,
            force_gain,
            steps_remaining: num_steps,
            phase: StepPhase::FirstHalf,
        }
    }

    /// Whether any step remains to run.
    pub fn is_finished(&self) -> (r: bool)
        ensures
            r == self.finished(),
    {
        self.steps_remaining == 0
    }

    /// Clear the density field and deposit the current particles: after
    /// this the grid's density contrast is exactly the normalized
    /// Cloud-in-Cell deposit of the particles, ready to be solved.
    pub fn prepare_density(&mut self)
        requires
            old(self).wf(),
        ensures
            final(self).wf(),
            final(self).particles == old(self).particles,
            final(self).time_step == old(self).time_step,
            final(self).force_gain == old(self).force_gain,
            final(self).steps_remaining == old(self).steps_remaining,
            final(self).phase == old(self).phase,
            final(self).grid.resolution == old(self).grid.resolution,
            final(self).grid.box_size == old(self).grid.box_size,
            final(self).grid.potential@ == old(self).grid.potential@,
            final(self).grid.density_contrast@.len() == old(self).grid.density_contrast@.len(),
            old(self).particles.total_mass() == 0 ==> forall|c: int|
                0 <= c < final(self).grid.density_contrast@.len() ==> final(self).grid.density_contrast@[c] == 0,
            old(self).particles.total_mass() > 0 ==> forall|c: int|
                0 <= c < final(self).grid.density_contrast@.len() ==> final(self).grid.density_contrast@[c] == contrast_cell(
                    deposit_cell(
                        old(self).particles.particles@,
                        old(self).grid.resolution as int,
                        old(self).particles.box_size as int,
                        c,
                    ),
                    old(self).particles.total_mass(),
                    (old(self).grid.resolution * old(self).grid.resolution * old(self).grid.resolution) as int,
                ),
            old(self).particles.total_mass() > 0 ==> -(final(self).grid.density_contrast@.len() as int) < crate::sums::sum_i64(final(self).grid.density_contrast@) <= 0,
    {
        self.grid.clear_density();
        assign_mass_cic(&self.particles, &mut self.grid);
    }

    /// Consume one solved potential: install it, differentiate it into
    /// force meshes, apply the explicit gain, gather the forces onto the
    /// particles, and advance the leapfrog by the half-step the phase
    /// calls for.  Total particle mass is untouched.
    pub fn apply_potential(&mut self, pot: Vec<i64>)
        requires
            old(self).wf(),
            !old(self).finished(),
            pot@.len() == old(self).grid.cells(),
        ensures
            final(self).wf(),
            final(self).time_step == old(self).time_step,
            final(self).force_gain == old(self).force_gain,
            final(self).grid.resolution == old(self).grid.resolution,
            final(self).grid.box_size == old(self).grid.box_size,
            final(self).grid.potential@ == pot@,
            final(self).particles.box_size == old(self).particles.box_size,
            final(self).particles.particles@.len() == old(self).particles.particles@.len(),
            final(self).particles.total_mass() == old(self).particles.total_mass(),
            old(self).phase is FirstHalf ==> final(self).phase is SecondHalf && final(self).steps_remaining == old(self).steps_remaining,
            old(self).phase is SecondHalf ==> final(self).phase is FirstHalf && final(self).steps_remaining == old(self).steps_remaining - 1,
            forall|i: int|
                0 <= i < final(self).particles.particles@.len() ==> {
                    let p0 = old(self).particles.particles@[i];
                    let p1 = #[trigger] final(self).particles.particles@[i];
                    let n = old(self).grid.resolution as int;
                    let b = old(self).grid.box_size as int;
                    let gain = old(self).force_gain as int;
                    let dt = old(self).time_step as int;
                    let f0 = gather_cic(scaled_mesh(pot@, n, b, gain, 0), p0, n, b);
                    let f1 = gather_cic(scaled_mesh(pot@, n, b, gain, 1), p0, n, b);
                    let f2 = gather_cic(scaled_mesh(pot@, n, b, gain, 2), p0, n, b);
                    &&& p1.mass == p0.mass
                    &&& p1.force[0] == f0
                    &&& p1.force[1] == f1
                    &&& p1.force[2] == f2
                    &&& (old(self).phase is FirstHalf ==> {
                        &&& p1.velocity[0] == kicked_velocity(
                            p0.velocity[0] as int,
                            f0,
                            p0.mass as int,
                            dt,
                        )
                        &&& p1.velocity[1] == kicked_velocity(
                            p0.velocity[1] as int,
                            f1,
                            p0.mass as int,
                            dt,
                        )
                        &&& p1.velocity[2] == kicked_velocity(
                            p0.velocity[2] as int,
                            f2,
                            p0.mass as int,
                            dt,
                        )
                        &&& p1.position[0] == drifted_position(
                            p0.position[0] as int,
                            p1.velocity[0] as int,
                            dt,
                            b,
                        )
                        &&& p1.position[1] == drifted_position(
                            p0.position[1] as int,
                            p1.velocity[1] as int,
                            dt,
                            b,
                        )
                        &&& p1.position[2] == drifted_position(
                            p0.position[2] as int,
                            p1.velocity[2] as int,
                            dt,
                            b,
                        )
                    })
                    &&& (old(self).phase is SecondHalf ==> {
                        &&& p1.position == p0.position
                        &&& p1.velocity[0] == kicked_velocity(
                            p0.velocity[0] as int,
                            f0,
                            p0.mass as int,
                            dt,
                        )
                        &&& p1.velocity[1] == kicked_velocity(
                            p0.velocity[1] as int,
                            f1,
                            p0.mass as int,
                            dt,
                        )
                        &&& p1.velocity[2] == kicked_velocity(
                            p0.velocity[2] as int,
                            f2,
                            p0.mass as int,
                            dt,
                        )
                    })
                },
    {
        let n = self.grid.resolution;
        let b = self.grid.box_size;
        let gain = self.force_gain;
        self.grid.set_potential(pot);
        let (mut fxm, mut fym, mut fzm) = calculate_forces_from_potential(&self.grid);
        scale_forces(&mut fxm, gain);
        scale_forces(&mut fym, gain);
        scale_forces(&mut fzm, gain);
        proof {
            assert(fxm@ =~= scaled_mesh(
                self.grid.potential@,
                n as int,
                b as int,
                gain as int,
                0,
            ));
            assert(fym@ =~= scaled_mesh(
                self.grid.potential@,
                n as int,
                b as int,
                gain as int,
                1,
            ));
            assert(fzm@ =~= scaled_mesh(
                self.grid.potential@,
                n as int,
                b as int,
                gain as int,
                2,
            ));
        }
        let ghost before_gather = self.particles.particles@;
        interpolate_forces_to_particles(&mut self.particles, &self.grid, &fxm, &fym, &fzm);
        proof {
            lemma_total_mass_same(before_gather, self.particles.particles@);
        }
        match self.phase {
            StepPhase::FirstHalf => {
                self.particles.integrate(self.time_step);
                self.phase = StepPhase::SecondHalf;
            },
            StepPhase::SecondHalf => {
                self.particles.kick(self.time_step);
                self.steps_remaining = self.steps_remaining - 1;
                self.phase = StepPhase::FirstHalf;
            },
        }
    }
}

} // verus!
