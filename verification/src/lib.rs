//! A particle-mesh N-body gravity simulation over exact fixed-point
//! arithmetic.
//!
//! Particles carry mass, position and velocity; gravity is solved on a
//! periodic mesh: mass is deposited with the Cloud-in-Cell scheme, the
//! Poisson equation is solved in Fourier space (the caller supplies the
//! transform and hands the solved potential back through [`driver::SimRun`]),
//! forces are taken by central differences and gathered back onto the
//! particles with the same Cloud-in-Cell weights, and a kick-drift-kick
//! leapfrog advances the particles.  Every quantity is an integer count of
//! units of 1/[`fixed::FX`], so deposits, wraps and weights are exact and
//! their conservation laws are proved rather than approximated.

pub mod cic;
pub mod driver;
pub mod evolve;
pub mod fixed;
pub mod forces;
pub mod geom;
pub mod gravity;
pub mod grid;
pub mod lines;
pub mod particle;
pub mod perturb;
pub mod project;
pub mod rng;
pub mod sums;
pub mod spectral;
pub mod zeldovich;
