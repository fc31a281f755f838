use bayronik_core::driver::{SimRun, StepPhase};
use bayronik_core::fixed::{FX, FX2, FX3};
use bayronik_core::forces::{
    calculate_forces_from_potential, interpolate_forces_to_particles, scale_forces,
};
use bayronik_core::geom::lin3;
use bayronik_core::gravity::{assign_mass_cic, deposit_mass_cic};
use bayronik_core::grid::Grid;
use bayronik_core::lines::{
    extract_line_x, extract_line_y, extract_line_z, write_line_x, write_line_y, write_line_z,
};
use bayronik_core::particle::{Particle, ParticleSet};
use bayronik_core::spectral::greens_factor;
use num_complex::Complex;
use rustfft::FftPlanner;

fn fx_to_f64(v: i64) -> f64 {
    v as f64 / FX as f64
}

/// Separable 3D transform: batched 1D transforms along z, then y, then x,
/// through the crate's verified line gather/scatter.
fn fft3(buf: &mut Vec<Complex<f64>>, n: usize, forward: bool) {
    let mut planner = FftPlanner::<f64>::new();
    let plan = if forward {
        planner.plan_fft_forward(n)
    } else {
        planner.plan_fft_inverse(n)
    };
    for ix in 0..n {
        for iy in 0..n {
            let mut line = extract_line_z(buf, n, ix, iy);
            plan.process(&mut line);
            write_line_z(buf, &line, n, ix, iy);
        }
    }
    for ix in 0..n {
        for iz in 0..n {
            let mut line = extract_line_y(buf, n, ix, iz);
            plan.process(&mut line);
            write_line_y(buf, &line, n, ix, iz);
        }
    }
    for iy in 0..n {
        for iz in 0..n {
            let mut line = extract_line_x(buf, n, iy, iz);
            plan.process(&mut line);
            write_line_x(buf, &line, n, iy, iz);
        }
    }
}

/// Solve the Poisson equation of a density contrast field: forward 3D
/// transform, the crate's Green's multiplier per mode, inverse transform,
/// 1/N^3 normalization.
fn solve_potential_fx(density: &[i64], n: usize, b: i64) -> Vec<i64> {
    let cells = n * n * n;
    let mut buf: Vec<Complex<f64>> = density
        .iter()
        .map(|&d| Complex::new(fx_to_f64(d), 0.0))
        .collect();
    fft3(&mut buf, n, true);
    for idx in 0..cells {
        let g = greens_factor(idx, n, b);
        buf[idx] *= fx_to_f64(g);
    }
    fft3(&mut buf, n, false);
    let norm = 1.0 / cells as f64;
    buf.iter()
        .map(|c| (c.re * norm * FX as f64).round() as i64)
        .collect()
}

#[test]
fn deposit_conserves_mass_even_across_the_boundary() {
    let n = 4;
    let b = 7 * FX + 1234;
    // one particle deposited right at the upper box edge wraps around
    let set = ParticleSet {
        particles: vec![
            Particle {
                position: [b - 1, b - 1, b - 1],
                velocity: [0, 0, 0],
                force: [0, 0, 0],
                mass: FX,
            },
            Particle {
                position: [b / 3, b / 2, 1],
                velocity: [0, 0, 0],
                force: [0, 0, 0],
                mass: 3 * FX,
            },
        ],
        box_size: b,
    };
    let raw = deposit_mass_cic(&set, n);
    let total: i128 = raw.iter().sum();
    assert_eq!(total, (4 * FX) as i128 * FX3 as i128);
}

#[test]
fn grid_point_particles_own_a_single_cell() {
    // 8 particles exactly on the 8 grid points of a 2-cell mesh: zero
    // fractional offset, so each deposits its whole mass into one cell
    let n = 2;
    let b = 2 * FX;
    let mut particles = Vec::new();
    for i in 0..2i64 {
        for j in 0..2i64 {
            for k in 0..2i64 {
                particles.push(Particle {
                    position: [i * FX, j * FX, k * FX],
                    velocity: [0, 0, 0],
                    force: [0, 0, 0],
                    mass: FX,
                });
            }
        }
    }
    let set = ParticleSet {
        particles,
        box_size: b,
    };
    let raw = deposit_mass_cic(&set, n);
    for &cell in raw.iter() {
        assert_eq!(cell, FX as i128 * FX3 as i128);
    }
}

#[test]
fn density_contrast_sums_to_zero_after_normalization() {
    // one unit-mass particle in a 4^3 mesh, arbitrary box: the contrast
    // sums to zero up to one truncation unit per cell
    let n = 4;
    let b = 100 * FX + 4321;
    let set = ParticleSet {
        particles: vec![Particle {
            position: [b / 7, b / 3, b / 2],
            velocity: [0, 0, 0],
            force: [0, 0, 0],
            mass: FX,
        }],
        box_size: b,
    };
    let mut grid = Grid::new(n, b);
    assign_mass_cic(&set, &mut grid);
    let sum: i64 = grid.density_contrast.iter().sum();
    let cells = (n * n * n) as i64;
    assert!(-cells < sum && sum <= 0, "contrast sum {} out of range", sum);
}

#[test]
fn transform_round_trip_reproduces_the_field() {
    let n = 8;
    let cells = n * n * n;
    let mut field: Vec<f64> = Vec::with_capacity(cells);
    for c in 0..cells {
        // a deterministic, non-symmetric test field
        field.push(((c * 2654435761) % 1000) as f64 / 500.0 - 1.0);
    }
    let mut buf: Vec<Complex<f64>> = field.iter().map(|&v| Complex::new(v, 0.0)).collect();
    fft3(&mut buf, n, true);
    fft3(&mut buf, n, false);
    let norm = 1.0 / cells as f64;
    for c in 0..cells {
        let back = buf[c].re * norm;
        assert!((back - field[c]).abs() < 1e-9);
        assert!(buf[c].im.abs() * norm < 1e-9);
    }
}

#[test]
fn solved_potential_has_no_zero_frequency_component() {
    let n = 4;
    let b = 10 * FX;
    let mut set = ParticleSet::new();
    set.initialize_grid_with_perturbations(50, b);
    let mut grid = Grid::new(n, b);
    assign_mass_cic(&set, &mut grid);
    let mut buf: Vec<Complex<f64>> = grid
        .density_contrast
        .iter()
        .map(|&d| Complex::new(fx_to_f64(d), 0.0))
        .collect();
    fft3(&mut buf, n, true);
    for idx in 0..(n * n * n) {
        buf[idx] *= fx_to_f64(greens_factor(idx, n, b));
    }
    // the multiplier of the zero mode is exactly zero, so the potential's
    // zero-frequency component is exactly zero
    assert_eq!(buf[0], Complex::new(0.0, 0.0));
}

#[test]
fn central_difference_matches_the_analytic_derivative() {
    // potential sin(2 pi x / L) on a 32-cell axis: the force must match
    // -d(potential)/dx within the discretization error of the stencil
    let n = 32usize;
    let b = (n as i64) * FX;
    let length = n as f64;
    let k = 2.0 * std::f64::consts::PI / length;
    let mut grid = Grid::new(n, b);
    let mut pot = vec![0i64; n * n * n];
    for ix in 0..n {
        let v = (k * ix as f64).sin();
        for iy in 0..n {
            for iz in 0..n {
                pot[lin3(ix, iy, iz, n)] = (v * FX as f64).round() as i64;
            }
        }
    }
    grid.set_potential(pot);
    let (fx_mesh, fy_mesh, fz_mesh) = calculate_forces_from_potential(&grid);
    for ix in 0..n {
        let analytic = -k * (k * ix as f64).cos();
        let got = fx_to_f64(fx_mesh[lin3(ix, 3, 5, n)]);
        assert!(
            (got - analytic).abs() < 0.01,
            "axis force {} vs analytic {}",
            got,
            analytic
        );
        // the potential is constant along y and z, so those forces vanish
        assert!(fx_to_f64(fy_mesh[lin3(ix, 3, 5, n)]).abs() < 1e-3);
        assert!(fx_to_f64(fz_mesh[lin3(ix, 3, 5, n)]).abs() < 1e-3);
    }
}

#[test]
fn zero_steps_return_the_initial_projection() {
    let b = 10 * FX;
    let mut set = ParticleSet::new();
    set.initialize_uniform(40, b);
    let direct = set.project_to_2d(8);
    let mut run = SimRun::new(set, 4, FX / 100, FX, 0);
    // the run is finished before any potential is ever solved
    while !run.is_finished() {
        run.prepare_density();
        let pot = solve_potential_fx(&run.grid.density_contrast, 4, b);
        run.apply_potential(pot);
    }
    let map = run.particles.project_to_2d(8);
    assert_eq!(map, direct);
}

#[test]
fn total_mass_is_conserved_across_steps() {
    let n = 8usize;
    let b = 10 * FX;
    let mut set = ParticleSet::new();
    set.initialize_grid_with_perturbations(100, b);
    let mass_before = set.total_mass_exec();
    // growth gain of 2.5, as the driver runs it
    let mut run = SimRun::new(set, n, FX / 100, 5 * FX / 2, 3);
    while !run.is_finished() {
        run.prepare_density();
        let pot = solve_potential_fx(&run.grid.density_contrast, n, b);
        run.apply_potential(pot);
    }
    assert_eq!(run.particles.total_mass_exec(), mass_before);
    // the projected map carries exactly the same mass
    let map = run.particles.project_to_2d(16);
    let total: i128 = map.iter().sum();
    assert_eq!(total, mass_before as i128 * FX2 as i128);
}

#[test]
fn projection_conserves_mass_and_ignores_depth() {
    let b = 4 * FX;
    let set = ParticleSet {
        particles: vec![
            Particle {
                position: [FX, 2 * FX, 123],
                velocity: [0, 0, 0],
                force: [0, 0, 0],
                mass: FX,
            },
            Particle {
                position: [FX, 2 * FX, 3 * FX + 9999],
                velocity: [0, 0, 0],
                force: [0, 0, 0],
                mass: 2 * FX,
            },
        ],
        box_size: b,
    };
    let map = set.project_to_2d(4);
    // both particles sit on the same (x, y) grid point: one map cell
    // holds everything, z plays no part
    let idx = 1 * 4 + 2;
    assert_eq!(map[idx], (3 * FX) as i128 * FX2 as i128);
    let total: i128 = map.iter().sum();
    assert_eq!(total, (3 * FX) as i128 * FX2 as i128);
}

#[test]
fn zeldovich_displaces_the_lattice() {
    let n = 2usize;
    let b = 8 * FX;
    let cells = n * n * n;
    // zero field: particles sit exactly at the cell centers
    let zero = vec![0i64; cells];
    let mut set = ParticleSet::new();
    set.initialize_zeldovich(n, b, &zero, &zero, &zero);
    assert_eq!(set.particles.len(), cells);
    for (c, p) in set.particles.iter().enumerate() {
        let iz = (c % n) as i64;
        let iy = ((c / n) % n) as i64;
        let ix = ((c / n) / n) as i64;
        // cell centers of a 2-cell axis in a box of 8.0: 2.0 and 6.0
        assert_eq!(p.position[0], (2 * ix + 1) * 2 * FX);
        assert_eq!(p.position[1], (2 * iy + 1) * 2 * FX);
        assert_eq!(p.position[2], (2 * iz + 1) * 2 * FX);
        assert_eq!(p.velocity, [0, 0, 0]);
        assert_eq!(p.mass, FX);
    }
    // a unit field displaces by five percent of the box and sets the
    // matching velocity
    let ones = vec![FX; cells];
    let mut set2 = ParticleSet::new();
    set2.initialize_zeldovich(n, b, &ones, &zero, &zero);
    let disp = b / 20;
    for (c, p) in set2.particles.iter().enumerate() {
        let ix = ((c / n) / n) as i64;
        assert_eq!(p.position[0], (2 * ix + 1) * 2 * FX + disp);
        assert_eq!(p.velocity[0], disp / 50);
        assert_eq!(p.velocity[1], 0);
    }
}

#[test]
fn gathering_a_constant_mesh_returns_the_constant() {
    // the eight corner weights sum to one, so a constant force mesh is
    // interpolated without distortion wherever the particle sits
    let n = 4;
    let b = 10 * FX;
    let mut set = ParticleSet {
        particles: vec![Particle {
            position: [12345, 6 * FX + 7, 9 * FX],
            velocity: [0, 0, 0],
            force: [0, 0, 0],
            mass: FX,
        }],
        box_size: b,
    };
    let grid = Grid::new(n, b);
    let cells = n * n * n;
    let fx_mesh = vec![3 * FX; cells];
    let fy_mesh = vec![-5 * FX; cells];
    let fz_mesh = vec![0i64; cells];
    interpolate_forces_to_particles(&mut set, &grid, &fx_mesh, &fy_mesh, &fz_mesh);
    assert_eq!(set.particles[0].force, [3 * FX, -5 * FX, 0]);
}

#[test]
fn force_gain_scales_the_mesh() {
    let mut mesh = vec![FX, -2 * FX, 3, 0];
    // a gain of 2.5
    scale_forces(&mut mesh, 5 * FX / 2);
    assert_eq!(mesh, vec![5 * FX / 2, -5 * FX, 7, 0]);
}

#[test]
fn the_run_alternates_its_two_half_steps() {
    let n = 2usize;
    let b = 4 * FX;
    let mut set = ParticleSet::new();
    set.initialize_uniform(5, b);
    let mut run = SimRun::new(set, n, FX / 10, FX, 1);
    assert!(!run.is_finished());
    assert_eq!(run.phase, StepPhase::FirstHalf);
    run.prepare_density();
    let pot = solve_potential_fx(&run.grid.density_contrast, n, b);
    run.apply_potential(pot);
    assert_eq!(run.phase, StepPhase::SecondHalf);
    assert!(!run.is_finished());
    run.prepare_density();
    let pot = solve_potential_fx(&run.grid.density_contrast, n, b);
    run.apply_potential(pot);
    assert_eq!(run.phase, StepPhase::FirstHalf);
    assert!(run.is_finished());
}
