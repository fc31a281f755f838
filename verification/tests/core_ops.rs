use bayronik_core::cic::{cell_coord, cic_weights4, cic_weights8};
use bayronik_core::driver::{validate_config, SimError};
use bayronik_core::evolve::evolve_particles;
use bayronik_core::fixed::{div_trunc, rem_euclid_fx, sat64, FX, FX2, FX3};
use bayronik_core::geom::{decompose3, freq_of, lin2, lin3, mode_squared, wrap_dec, wrap_inc};
use bayronik_core::particle::{Particle, ParticleSet};
use bayronik_core::perturb::sine_turns;
use bayronik_core::rng::random_below;
use bayronik_core::spectral::greens_factor;

#[test]
fn truncated_division_rounds_toward_zero() {
    assert_eq!(div_trunc(7, 2), 3);
    assert_eq!(div_trunc(-7, 2), -3);
    assert_eq!(div_trunc(0, 5), 0);
}

#[test]
fn euclidean_wrap_is_always_nonnegative() {
    assert_eq!(rem_euclid_fx(7, 5), 2);
    assert_eq!(rem_euclid_fx(-7, 5), 3);
    assert_eq!(rem_euclid_fx(-5, 5), 0);
    assert_eq!(rem_euclid_fx(0, 5), 0);
}

#[test]
fn saturation_clamps_to_the_machine_range() {
    assert_eq!(sat64(12345), 12345);
    assert_eq!(sat64(i64::MAX as i128 + 1), i64::MAX);
    assert_eq!(sat64(i64::MIN as i128 - 1), i64::MIN);
}

#[test]
fn linear_index_round_trips_through_decompose() {
    let n = 5;
    for i in 0..n {
        for j in 0..n {
            for k in 0..n {
                let idx = lin3(i, j, k, n);
                assert_eq!(decompose3(idx, n), (i, j, k));
            }
        }
    }
    assert_eq!(lin3(1, 2, 3, 4), (1 * 4 + 2) * 4 + 3);
    assert_eq!(lin2(3, 1, 4), 13);
}

#[test]
fn periodic_neighbors_wrap_at_the_edges() {
    assert_eq!(wrap_inc(0, 4), 1);
    assert_eq!(wrap_inc(3, 4), 0);
    assert_eq!(wrap_dec(0, 4), 3);
    assert_eq!(wrap_dec(3, 4), 2);
}

#[test]
fn frequencies_fold_above_half_the_resolution() {
    assert_eq!(freq_of(0, 8), 0);
    assert_eq!(freq_of(4, 8), 4);
    assert_eq!(freq_of(5, 8), -3);
    assert_eq!(freq_of(7, 8), -1);
}

#[test]
fn mode_squared_is_zero_only_at_the_origin() {
    let n = 4;
    assert_eq!(mode_squared(0, n), 0);
    for idx in 1..(n * n * n) {
        assert!(mode_squared(idx, n) > 0);
    }
    // index (1, 0, 0): frequency (1, 0, 0), squared magnitude 1
    assert_eq!(mode_squared(lin3(1, 0, 0, n), n), 1);
    // index (3, 0, 2): frequency (-1, 0, 2), squared magnitude 5
    assert_eq!(mode_squared(lin3(3, 0, 2, n), n), 5);
}

#[test]
fn cell_coordinates_split_position_into_cell_and_offset() {
    let b = 4 * FX;
    // position 1.5 on a 4-cell axis of a box of 4.0: cell 1, offset 0.5
    let (i, dx) = cell_coord(3 * FX / 2, b, 4);
    assert_eq!(i, 1);
    assert_eq!(dx, FX / 2);
    // a position exactly on a grid point has zero offset
    let (i, dx) = cell_coord(3 * FX, b, 4);
    assert_eq!(i, 3);
    assert_eq!(dx, 0);
}

#[test]
fn cic_corner_weights_sum_to_exactly_one() {
    // the sum is exactly FX^3 whatever the offsets
    for &(dx, dy, dz) in &[
        (0, 0, 0),
        (FX / 2, FX / 2, FX / 2),
        (1, 2, 3),
        (FX - 1, FX - 1, FX - 1),
        (12345, 54321, 7),
    ] {
        let w = cic_weights8(dx, dy, dz);
        let total: i64 = w.iter().sum();
        assert_eq!(total, FX3);
        for &v in &w {
            assert!(v >= 0);
        }
    }
    // the degenerate case puts everything on the base corner
    let w = cic_weights8(0, 0, 0);
    assert_eq!(w[0], FX3);
    assert_eq!(&w[1..], &[0, 0, 0, 0, 0, 0, 0]);
    // the 2D weights close the same way
    let w2 = cic_weights4(FX / 4, FX / 4);
    let total2: i64 = w2.iter().sum();
    assert_eq!(total2, FX2);
}

#[test]
fn quadratic_sine_hits_the_quarter_points() {
    assert_eq!(sine_turns(0), 0);
    assert_eq!(sine_turns(FX / 4), FX);
    assert_eq!(sine_turns(FX / 2), 0);
    assert_eq!(sine_turns(3 * FX / 4), -FX);
    for t in (0..FX).step_by(997) {
        let s = sine_turns(t);
        assert!(-FX <= s && s <= FX);
    }
}

#[test]
fn greens_multiplier_vanishes_only_at_the_zero_mode() {
    let n = 4;
    let b = FX;
    assert_eq!(greens_factor(0, n, b), 0);
    // mode (1, 0, 0): -b^2 / (4 pi^2), truncated on the fixed-point lattice
    let g = greens_factor(lin3(1, 0, 0, n), n, b);
    assert_eq!(g, -((FX as i128 * FX as i128) / (4 * 646859)) as i64);
    assert!(g < 0);
    for idx in 1..(n * n * n) {
        assert!(greens_factor(idx, n, b) < 0);
    }
}

#[test]
fn uniform_positions_stay_inside_the_box() {
    let b = 10 * FX;
    let mut set = ParticleSet::new();
    assert_eq!(set.box_size, 0);
    set.initialize_uniform(200, b);
    assert_eq!(set.particles.len(), 200);
    for p in &set.particles {
        for a in 0..3 {
            assert!(0 <= p.position[a] && p.position[a] < b);
            assert_eq!(p.velocity[a], 0);
        }
        assert_eq!(p.mass, FX);
    }
}

#[test]
fn random_draws_respect_their_bound() {
    for _ in 0..1000 {
        let r = random_below(37);
        assert!(0 <= r && r < 37);
    }
}

#[test]
fn perturbed_generator_always_fills_the_request() {
    let b = 10 * FX;
    let mut set = ParticleSet::new();
    set.initialize_grid_with_perturbations(300, b);
    assert_eq!(set.particles.len(), 300);
    for p in &set.particles {
        for a in 0..3 {
            assert!(0 <= p.position[a] && p.position[a] < b);
            assert!(p.velocity[a].abs() <= 328);
        }
        assert_eq!(p.mass, FX);
    }
}

#[test]
fn configuration_is_validated_before_any_work() {
    assert!(validate_config(10, 8, FX, 16).is_ok());
    assert_eq!(
        validate_config(0, 8, FX, 16),
        Err(SimError::InvalidConfiguration)
    );
    assert_eq!(
        validate_config(10, 0, FX, 16),
        Err(SimError::InvalidConfiguration)
    );
    assert_eq!(
        validate_config(10, 8, 0, 16),
        Err(SimError::InvalidConfiguration)
    );
    assert_eq!(
        validate_config(10, 8, -FX, 16),
        Err(SimError::InvalidConfiguration)
    );
    assert_eq!(
        validate_config(10, 8, FX, 0),
        Err(SimError::InvalidConfiguration)
    );
}

#[test]
fn half_kick_divides_by_the_mass() {
    // mass 2.0, force 1.0, dt 1.0: acceleration 0.5, half kick 0.25
    let mut set = ParticleSet {
        particles: vec![Particle {
            position: [0, 0, 0],
            velocity: [0, 0, 0],
            force: [FX, 0, -FX],
            mass: 2 * FX,
        }],
        box_size: 4 * FX,
    };
    set.kick(FX);
    let p = &set.particles[0];
    assert_eq!(p.velocity, [FX / 4, 0, -(FX / 4)]);
    assert_eq!(p.position, [0, 0, 0]);
}

#[test]
fn integrate_kicks_then_drifts_with_wrap() {
    // mass 1.0, force 1.0, dt 1.0: half kick 0.5, drift 0.5 with wrap
    let mut set = ParticleSet {
        particles: vec![Particle {
            position: [3 * FX + FX / 2, 0, 0],
            velocity: [0, 0, 0],
            force: [FX, 0, 0],
            mass: FX,
        }],
        box_size: 4 * FX,
    };
    set.integrate(FX);
    let p = &set.particles[0];
    assert_eq!(p.velocity[0], FX / 2);
    // 3.5 + 0.5 wraps to 0.0 in a box of 4.0
    assert_eq!(p.position[0], 0);
}

#[test]
fn evolve_applies_a_full_kick() {
    let mut set = ParticleSet {
        particles: vec![Particle {
            position: [0, 0, 0],
            velocity: [0, 0, 0],
            force: [2 * FX, 0, 0],
            mass: 2 * FX,
        }],
        box_size: 4 * FX,
    };
    evolve_particles(&mut set, FX);
    let p = &set.particles[0];
    assert_eq!(p.velocity[0], FX);
    assert_eq!(p.position[0], FX);
}
