use vstd::prelude::*;
use crate::fixed::{
    div_trunc, lemma_div_below, lemma_tdiv_le, mul_i64, rem_euclid_fx, sat64, sat_i64, tdiv,
    BOX_MAX, FX, MAX_PARTICLES,
};
use crate::geom::MAX_RES;
use crate::particle::{particle_wf, Particle, ParticleSet};
use vstd::arithmetic::div_mod::lemma_fundamental_div_mod;

verus! {

/// Lagrangian position of lattice cell ia on an n-cell axis: the center
/// of the cell, (ia + 1/2) times the cell size.
pub open spec fn lattice_coord(ia: int, n: int, b: int) -> int {
    ((2 * ia + 1) * b) / (2 * n)
}

/// Displacement of one particle from the raw field value: the field value
/// times one twentieth of the box side (the five percent displacement
/// scale), on the fixed-point lattice.
pub open spec fn zel_displacement(psi: int, b: int) -> int {
    sat_i64(tdiv(psi * (b / 20), FX as int))
}

/// Eulerian position of one lattice particle: the cell center displaced
/// by the field, wrapped back into the box.
pub open spec fn zel_position(ia: int, psi: int, n: int, b: int) -> int {
    (lattice_coord(ia, n, b) + zel_displacement(psi, b)) % b
}

/// Peculiar velocity of one lattice particle: proportional to its
/// displacement, at one fiftieth (the linear-theory stand-in; no explicit
/// growth factor).
pub open spec fn zel_velocity(psi: int, b: int) -> int {
    tdiv(zel_displacement(psi, b), 50)
}

/// The lattice coordinate of an in-range cell lies inside the box.
proof fn lemma_lattice_coord_range(ia: int, n: int, b: int)
    requires
        0 <= ia < n,
        b >= 1,
        n >= 1,
    ensures
        0 <= lattice_coord(ia, n, b) < b,
{
    assert(0 <= (2 * ia + 1) * b < (2 * n) * b) by (nonlinear_arith)
        requires
            0 <= ia < n,
            b >= 1,
    ;
    lemma_div_below((2 * ia + 1) * b, 2 * n, b);
}

/// One axis of one lattice particle: cell center plus displacement,
/// wrapped.
fn place_axis(ia: usize, psi: i64, n: usize, b: i64) -> (r: (i64, i64))
    requires
        ia < n,
        0 < n <= MAX_RES,
        1 <= b <= BOX_MAX,
    ensures
        r.0 == zel_position(ia as int, psi as int, n as int, b as int),
        0 <= r.0 < b,
        r.1 == zel_velocity(psi as int, b as int),
{
    proof {
        assert(0 <= (2 * (ia as int) + 1) * (b as int) <= (2 * MAX_RES as int + 1) * (
        BOX_MAX as int)) by (nonlinear_arith)
            requires
                0 <= ia < n <= MAX_RES,
                1 <= b <= BOX_MAX,
        ;
        lemma_lattice_coord_range(ia as int, n as int, b as int);
    }
    let qn: u128 = ((2 * (ia as u128)) + 1) * (b as u128);
    let q: i64 = (qn / (2 * (n as u128))) as i64;
    let scale: i64 = ((b as u64) / 20) as i64;
    let num: i128 = mul_i64(psi, scale);
    let disp_wide: i128 = div_trunc(num, FX as i128);
    proof {
        lemma_tdiv_le(num as int, FX as int);
    }
    let disp: i64 = sat64(disp_wide);
    let pos: i64 = rem_euclid_fx((q as i128) + (disp as i128), b);
    let vel_wide: i128 = div_trunc(disp as i128, 50);
    proof {
        lemma_tdiv_le(disp as int, 50);
    }
    let vel: i64 = vel_wide as i64;
    (pos, vel)
}

impl ParticleSet {
    /// Populate the set with one particle per cell of an n-per-axis
    /// lattice, each placed at its cell center displaced by the handed
    /// displacement field (one field per axis, row-major over the
    /// lattice, fixed-point at scale FX), wrapped periodically, with
    /// velocity proportional to the displacement and unit mass.  The
    /// caller produces the field; spectral weighting and transforms are
    /// its business, the placement here is exact.
    pub fn initialize_zeldovich(
        &mut self,
        grid_res: usize,
        box_size: i64,
        psi_x: &Vec<i64>,
        psi_y: &Vec<i64>,
        psi_z: &Vec<i64>,
    )
        requires
            0 < grid_res <= MAX_RES,
            grid_res * grid_res * grid_res <= MAX_PARTICLES,
            1 <= box_size <= BOX_MAX,
            psi_x@.len() == grid_res * grid_res * grid_res,
            psi_y@.len() == grid_res * grid_res * grid_res,
            psi_z@.len() == grid_res * grid_res * grid_res,
        ensures
            final(self).wf(),
            final(self).box_size == box_size,
            final(self).particles@.len() == grid_res * grid_res * grid_res,
            forall|c: int|
                0 <= c < final(self).particles@.len() ==> {
                    let p = #[trigger] final(self).particles@[c];
                    let n = grid_res as int;
                    let b = box_size as int;
                    let iz = c % n;
                    let iy = (c / n) % n;
                    let ix = (c / n) / n;
                    &&& p.mass == FX
                    &&& p.position[0] == zel_position(ix, psi_x@[c] as int, n, b)
                    &&& p.position[1] == zel_position(iy, psi_y@[c] as int, n, b)
                    &&& p.position[2] == zel_position(iz, psi_z@[c] as int, n, b)
                    &&& p.velocity[0] == zel_velocity(psi_x@[c] as int, b)
                    &&& p.velocity[1] == zel_velocity(psi_y@[c] as int, b)
                    &&& p.velocity[2] == zel_velocity(psi_z@[c] as int, b)
                },
    {
        self.box_size = box_size;
        self.particles = Vec::new();
        let n = grid_res;
        proof {
            assert(n * (n * n) == n * n * n && 0 < n * n * n && n * n <= 0x10_0000)
                by (nonlinear_arith)
                requires
                    0 < n <= MAX_RES,
            ;
        }
        let cells: usize = n * (n * n);
        let mut c: usize = 0;
        while c < cells
            invariant
                0 < n <= MAX_RES,
                cells == n * n * n <= MAX_PARTICLES,
                1 <= box_size <= BOX_MAX,
                self.box_size == box_size,
                psi_x@.len() == cells,
                psi_y@.len() == cells,
                psi_z@.len() == cells,
                self.particles@.len() == c <= cells,
                forall|k: int|
                    0 <= k < c ==> {
                        let p = #[trigger] self.particles@[k];
                        let nn = n as int;
                        let b = box_size as int;
                        let iz = k % nn;
                        let iy = (k / nn) % nn;
                        let ix = (k / nn) / nn;
                        &&& particle_wf(p, box_size)
                        &&& p.mass == FX
                        &&& p.position[0] == zel_position(ix, psi_x@[k] as int, nn, b)
                        &&& p.position[1] == zel_position(iy, psi_y@[k] as int, nn, b)
                        &&& p.position[2] == zel_position(iz, psi_z@[k] as int, nn, b)
                        &&& p.velocity[0] == zel_velocity(psi_x@[k] as int, b)
                        &&& p.velocity[1] == zel_velocity(psi_y@[k] as int, b)
                        &&& p.velocity[2] == zel_velocity(psi_z@[k] as int, b)
                    },
            decreases cells - c,
        {
            let iz: usize = c % n;
            let iyx: usize = c / n;
            proof {
                lemma_fundamental_div_mod(c as int, n as int);
                assert(iyx < n * n) by (nonlinear_arith)
                    requires
                        n > 0,
                        c < n * n * n,
                        c as int == (n as int) * (iyx as int) + (iz as int),
                        0 <= iz < n,
                ;
            }
            let iy: usize = iyx % n;
            let ix: usize = iyx / n;
            proof {
                lemma_fundamental_div_mod(iyx as int, n as int);
                assert(ix < n) by (nonlinear_arith)
                    requires
                        n > 0,
                        iyx < n * n,
                        iyx as int == (n as int) * (ix as int) + (iy as int),
                        0 <= iy < n,
                ;
            }
            let (x0, v0) = place_axis(ix, psi_x[c], n, box_size);
            let (x1, v1) = place_axis(iy, psi_y[c], n, box_size);
            let (x2, v2) = place_axis(iz, psi_z[c], n, box_size);
            let p = Particle {
                position: [x0, x1, x2],
                velocity: [v0, v1, v2],
                force: [0, 0, 0],
                mass: FX,
            };
            self.particles.push(p);
            c = c + 1;
        }
    }
}

} // verus!
