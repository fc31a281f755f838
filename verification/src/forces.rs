use vstd::prelude::*;
use crate::cic::{axis_coord, axis_frac, cell_coord, cic_weights8, corner_weight};
use crate::fixed::{div_trunc, fx_mul, sat64, sat_i64, tdiv, BOX_MAX, FX, FX3};
use crate::geom::{lin3, lin3_spec, wrap_dec, wrap_inc, MAX_RES};
use crate::gravity::corner_cell;
use crate::grid::Grid;
use crate::particle::{particle_wf, Particle, ParticleSet};
use vstd::arithmetic::div_mod::{lemma_fundamental_div_mod, lemma_small_mod};

verus! {

/// Force along `axis` at linear cell c, from the potential by a
/// second-order central difference with periodic neighbor wrap:
/// minus (potential at the next cell minus potential at the previous
/// cell) over twice the cell size.
pub open spec fn force_cell(pot: Seq<i64>, n: int, b: int, c: int, axis: int) -> int {
    let k = c % n;
    let j = (c / n) % n;
    let i = (c / n) / n;
    let cp = if axis == 0 {
        lin3_spec((i + 1) % n, j, k, n)
    } else if axis == 1 {
        lin3_spec(i, (j + 1) % n, k, n)
    } else {
        lin3_spec(i, j, (k + 1) % n, n)
    };
    let cm = if axis == 0 {
        lin3_spec((i - 1) % n, j, k, n)
    } else if axis == 1 {
        lin3_spec(i, (j - 1) % n, k, n)
    } else {
        lin3_spec(i, j, (k - 1) % n, n)
    };
    sat_i64(tdiv((pot[cm] - pot[cp]) * n * FX, 2 * b))
}

/// The central difference of two potential samples, scaled by the
/// inverse of twice the cell size (cell size being box / n).
fn axis_force(pot: &Vec<i64>, cm: usize, cp: usize, n: usize, b: i64) -> (r: i64)
    requires
        cm < pot@.len(),
        cp < pot@.len(),
        0 < n <= MAX_RES,
        1 <= b <= BOX_MAX,
    ensures
        r == sat_i64(tdiv((pot@[cm as int] - pot@[cp as int]) * n * FX, 2 * b)),
{
    let pm: i64 = pot[cm];
    let pp: i64 = pot[cp];
    let diff: i128 = (pm as i128) - (pp as i128);
    proof {
        assert(-0x2000_0000_0000_0000_0000_0000 < diff * (n as int) * FX
            < 0x2000_0000_0000_0000_0000_0000) by (nonlinear_arith)
            requires
                -0x2_0000_0000_0000_0000 < diff < 0x2_0000_0000_0000_0000,
                0 < n <= MAX_RES,
                FX == 65536,
        ;
    }
    let num: i128 = diff * (n as i128) * (FX as i128);
    let q: i128 = div_trunc(num, 2 * (b as i128));
    sat64(q)
}

/// Differentiate the potential into three force meshes, one per axis,
/// with periodic neighbor wrap.
pub fn calculate_forces_from_potential(grid: &Grid) -> (r: (Vec<i64>, Vec<i64>, Vec<i64>))
    requires
        grid.wf(),
    ensures
        r.0@.len() == grid.cells(),
        r.1@.len() == grid.cells(),
        r.2@.len() == grid.cells(),
        forall|c: int|
            0 <= c < grid.cells() ==> r.0@[c] == force_cell(
                grid.potential@,
                grid.resolution as int,
                grid.box_size as int,
                c,
                0,
            ),
        forall|c: int|
            0 <= c < grid.cells() ==> r.1@[c] == force_cell(
                grid.potential@,
                grid.resolution as int,
                grid.box_size as int,
                c,
                1,
            ),
        forall|c: int|
            0 <= c < grid.cells() ==> r.2@[c] == force_cell(
                grid.potential@,
                grid.resolution as int,
                grid.box_size as int,
                c,
                2,
            ),
{
    let n = grid.resolution;
    let b = grid.box_size;
    let cells = grid.potential.len();
    let mut fx: Vec<i64> = Vec::new();
    let mut fy: Vec<i64> = Vec::new();
    let mut fz: Vec<i64> = Vec::new();
    let mut c: usize = 0;
    while c < cells
        invariant
            grid.wf(),
            n == grid.resolution,
            b == grid.box_size,
            cells == grid.cells(),
            cells == grid.potential@.len(),
            c <= cells,
            fx@.len() == c,
            fy@.len() == c,
            fz@.len() == c,
            forall|cc: int|
                0 <= cc < c ==> fx@[cc] == force_cell(
                    grid.potential@,
                    n as int,
                    b as int,
                    cc,
                    0,
                ),
            forall|cc: int|
                0 <= cc < c ==> fy@[cc] == force_cell(
                    grid.potential@,
                    n as int,
                    b as int,
                    cc,
                    1,
                ),
            forall|cc: int|
                0 <= cc < c ==> fz@[cc] == force_cell(
                    grid.potential@,
                    n as int,
                    b as int,
                    cc,
                    2,
                ),
        decreases cells - c,
    {
        let iz: usize = c % n;
        let iyx: usize = c / n;
        proof {
            lemma_fundamental_div_mod(c as int, n as int);
            assert(iyx < n * n) by (nonlinear_arith)
                requires
                    n > 0,
                    c < n * n * n,
                    c as int == (n as int) * (iyx as int) + (iz as int),
                    0 <= iz < n,
            ;
        }
        let iy: usize = iyx % n;
        let ix: usize = iyx / n;
        proof {
            lemma_fundamental_div_mod(iyx as int, n as int);
            assert(ix < n) by (nonlinear_arith)
                requires
                    n > 0,
                    iyx < n * n,
                    iyx as int == (n as int) * (ix as int) + (iy as int),
                    0 <= iy < n,
            ;
            lemma_small_mod(ix as nat, n as nat);
            lemma_small_mod(iy as nat, n as nat);
            lemma_small_mod(iz as nat, n as nat);
        }
        let ixp = wrap_inc(ix, n);
        let ixm = wrap_dec(ix, n);
        let iyp = wrap_inc(iy, n);
        let iym = wrap_dec(iy, n);
        let izp = wrap_inc(iz, n);
        let izm = wrap_dec(iz, n);
        let vx = axis_force(
            &grid.potential,
            lin3(ixm, iy, iz, n),
            lin3(ixp, iy, iz, n),
            n,
            b,
        );
        let vy = axis_force(
            &grid.potential,
            lin3(ix, iym, iz, n),
            lin3(ix, iyp, iz, n),
            n,
            b,
        );
        let vz = axis_force(
            &grid.potential,
            lin3(ix, iy, izm, n),
            lin3(ix, iy, izp, n),
            n,
            b,
        );
        fx.push(vx);
        fy.push(vy);
        fz.push(vz);
        c = c + 1;
    }
    (fx, fy, fz)
}

/// Scale a force mesh by a fixed-point gain, cell by cell.  The gain is
/// the explicit force-amplification knob of the driver; a gain of FX
/// leaves the physical force alone.
pub fn scale_forces(mesh: &mut Vec<i64>, gain: i64)
    ensures
        final(mesh)@.len() == old(mesh)@.len(),
        forall|c: int|
            0 <= c < final(mesh)@.len() ==> final(mesh)@[c] == sat_i64(
                tdiv(old(mesh)@[c] * gain, FX as int),
            ),
{
    let len = mesh.len();
    let ghost g0 = mesh@;
    let mut c: usize = 0;
    while c < len
        invariant
            len == mesh@.len() == g0.len(),
            c <= len,
            forall|cc: int| c <= cc < len ==> mesh@[cc] == g0[cc],
            forall|cc: int|
                0 <= cc < c ==> mesh@[cc] == sat_i64(tdiv(g0[cc] * gain, FX as int)),
        decreases len - c,
    {
        let v = fx_mul(mesh[c], gain);
        mesh.set(c, v);
        c = c + 1;
    }
}

/// Mesh values gathered by particle p through its first j corners,
/// weighted by the trilinear corner weights, at scale FX^3.
pub open spec fn gather_prefix(mesh: Seq<i64>, p: Particle, n: int, b: int, j: int) -> int
    decreases j,
{
    if j <= 0 {
        0
    } else {
        let bx = axis_coord(p.position[0] as int, b, n);
        let by = axis_coord(p.position[1] as int, b, n);
        let bz = axis_coord(p.position[2] as int, b, n);
        let dx = axis_frac(p.position[0] as int, b, n);
        let dy = axis_frac(p.position[1] as int, b, n);
        let dz = axis_frac(p.position[2] as int, b, n);
        gather_prefix(mesh, p, n, b, j - 1) + corner_weight(dx, dy, dz, j - 1) * mesh[
            corner_cell(bx, by, bz, n, j - 1)]
    }
}

/// Trilinear interpolation of a mesh at particle p's position: the same
/// base cell, offsets and corner weights as the mass deposit, which keeps
/// the particle from feeling a force from its own deposited mass.
pub open spec fn gather_cic(mesh: Seq<i64>, p: Particle, n: int, b: int) -> int {
    sat_i64(tdiv(gather_prefix(mesh, p, n, b, 8), FX3 as int))
}

proof fn gather_prefix_step(mesh: Seq<i64>, p: Particle, n: int, b: int, j: int)
    requires
        0 <= j,
    ensures
        gather_prefix(mesh, p, n, b, j + 1) == gather_prefix(mesh, p, n, b, j)
            + corner_weight(
            axis_frac(p.position[0] as int, b, n),
            axis_frac(p.position[1] as int, b, n),
            axis_frac(p.position[2] as int, b, n),
            j,
        ) * mesh[corner_cell(
            axis_coord(p.position[0] as int, b, n),
            axis_coord(p.position[1] as int, b, n),
            axis_coord(p.position[2] as int, b, n),
            n,
            j,
        )],
{
}

proof fn gather_prefix_bound(mesh: Seq<i64>, p: Particle, n: int, b: int, j: int)
    requires
        0 <= j <= 8,
        forall|jj: int|
            0 <= jj < 8 ==> 0 <= #[trigger] corner_weight(
                axis_frac(p.position[0] as int, b, n),
                axis_frac(p.position[1] as int, b, n),
                axis_frac(p.position[2] as int, b, n),
                jj,
            ) <= FX3,
    ensures
        -j * (FX3 * 0x8000_0000_0000_0000) <= gather_prefix(mesh, p, n, b, j) <= j * (FX3
            * 0x8000_0000_0000_0000),
    decreases j,
{
    if j > 0 {
        gather_prefix_bound(mesh, p, n, b, j - 1);
        let w = corner_weight(
            axis_frac(p.position[0] as int, b, n),
            axis_frac(p.position[1] as int, b, n),
            axis_frac(p.position[2] as int, b, n),
            j - 1,
        );
        let v = mesh[corner_cell(
            axis_coord(p.position[0] as int, b, n),
            axis_coord(p.position[1] as int, b, n),
            axis_coord(p.position[2] as int, b, n),
            n,
            j - 1,
        )];
        assert(-(FX3 * 0x8000_0000_0000_0000) <= w * v <= FX3 * 0x8000_0000_0000_0000)
            by (nonlinear_arith)
            requires
                0 <= w <= FX3,
                -0x8000_0000_0000_0000 <= v <= 0x7FFF_FFFF_FFFF_FFFF,
        ;
        assert((j - 1) * (FX3 * 0x8000_0000_0000_0000) + FX3 * 0x8000_0000_0000_0000 == j * (
        FX3 * 0x8000_0000_0000_0000)) by (nonlinear_arith);
    }
}

/// Gather one mesh at one particle with the trilinear weights.
fn gather_axis(mesh: &Vec<i64>, p: &Particle, n: usize, b: i64, cells8: &[usize; 8], w: &[
    i64; 8]) -> (r: i64)
    requires
        0 < n <= MAX_RES,
        1 <= b <= BOX_MAX,
        particle_wf(*p, b),
        mesh@.len() == n * n * n,
        forall|jj: int|
            0 <= jj < 8 ==> #[trigger] cells8[jj] == corner_cell(
                axis_coord(p.position[0] as int, b as int, n as int),
                axis_coord(p.position[1] as int, b as int, n as int),
                axis_coord(p.position[2] as int, b as int, n as int),
                n as int,
                jj,
            ),
        forall|jj: int| 0 <= jj < 8 ==> #[trigger] cells8[jj] < mesh@.len(),
        forall|jj: int|
            0 <= jj < 8 ==> #[trigger] w[jj] == corner_weight(
                axis_frac(p.position[0] as int, b as int, n as int),
                axis_frac(p.position[1] as int, b as int, n as int),
                axis_frac(p.position[2] as int, b as int, n as int),
                jj,
            ),
        forall|jj: int| 0 <= jj < 8 ==> 0 <= #[trigger] w[jj] <= FX3,
    ensures
        r == gather_cic(mesh@, *p, n as int, b as int),
{
    proof {
        assert forall|jj: int|
            0 <= jj < 8 implies 0 <= #[trigger] corner_weight(
            axis_frac(p.position[0] as int, b as int, n as int),
            axis_frac(p.position[1] as int, b as int, n as int),
            axis_frac(p.position[2] as int, b as int, n as int),
            jj,
        ) <= FX3 by {
            assert(w[jj] == corner_weight(
                axis_frac(p.position[0] as int, b as int, n as int),
                axis_frac(p.position[1] as int, b as int, n as int),
                axis_frac(p.position[2] as int, b as int, n as int),
                jj,
            ));
            assert(0 <= w[jj] <= FX3);
        }
    }
    let mut acc: i128 = 0;
    let mut j: usize = 0;
    while j < 8
        invariant
            0 < n <= MAX_RES,
            1 <= b <= BOX_MAX,
            particle_wf(*p, b),
            mesh@.len() == n * n * n,
            j <= 8,
            forall|jj: int|
                0 <= jj < 8 ==> #[trigger] cells8[jj] == corner_cell(
                    axis_coord(p.position[0] as int, b as int, n as int),
                    axis_coord(p.position[1] as int, b as int, n as int),
                    axis_coord(p.position[2] as int, b as int, n as int),
                    n as int,
                    jj,
                ),
            forall|jj: int| 0 <= jj < 8 ==> #[trigger] cells8[jj] < mesh@.len(),
            forall|jj: int|
                0 <= jj < 8 ==> #[trigger] w[jj] == corner_weight(
                    axis_frac(p.position[0] as int, b as int, n as int),
                    axis_frac(p.position[1] as int, b as int, n as int),
                    axis_frac(p.position[2] as int, b as int, n as int),
                    jj,
                ),
            forall|jj: int| 0 <= jj < 8 ==> 0 <= #[trigger] w[jj] <= FX3,
            forall|jj: int|
                0 <= jj < 8 ==> 0 <= #[trigger] corner_weight(
                    axis_frac(p.position[0] as int, b as int, n as int),
                    axis_frac(p.position[1] as int, b as int, n as int),
                    axis_frac(p.position[2] as int, b as int, n as int),
                    jj,
                ) <= FX3,
            acc == gather_prefix(mesh@, *p, n as int, b as int, j as int),
        decreases 8 - j,
    {
        proof {
            gather_prefix_bound(mesh@, *p, n as int, b as int, j as int);
            gather_prefix_step(mesh@, *p, n as int, b as int, j as int);
            assert(-(FX3 * 0x8000_0000_0000_0000) <= (w[j as int] as int) * (mesh@[cells8[
            j as int] as int] as int) <= FX3 * 0x8000_0000_0000_0000) by (nonlinear_arith)
                requires
                    0 <= w[j as int] <= FX3,
                    -0x8000_0000_0000_0000 <= mesh@[cells8[j as int] as int]
                        <= 0x7FFF_FFFF_FFFF_FFFF,
            ;
        }
        let v: i64 = mesh[cells8[j]];
        acc = acc + (w[j] as i128) * (v as i128);
        j = j + 1;
    }
    proof {
        gather_prefix_bound(mesh@, *p, n as int, b as int, 8);
    }
    let q: i128 = div_trunc(acc, FX3 as i128);
    sat64(q)
}

/// Interpolate the three force meshes onto every particle with the same
/// Cloud-in-Cell weights that deposited the mass.  Only the particles'
/// force fields change.
pub fn interpolate_forces_to_particles(
    particles: &mut ParticleSet,
    grid: &Grid,
    fx: &Vec<i64>,
    fy: &Vec<i64>,
    fz: &Vec<i64>,
)
    requires
        old(particles).wf(),
        grid.wf(),
        old(particles).box_size == grid.box_size,
        fx@.len() == grid.cells(),
        fy@.len() == grid.cells(),
        fz@.len() == grid.cells(),
    ensures
        final(particles).wf(),
        final(particles).box_size == old(particles).box_size,
        final(particles).particles@.len() == old(particles).particles@.len(),
        forall|i: int|
            0 <= i < final(particles).particles@.len() ==> {
                let p0 = old(particles).particles@[i];
                let p1 = #[trigger] final(particles).particles@[i];
                &&& p1.position == p0.position
                &&& p1.velocity == p0.velocity
                &&& p1.mass == p0.mass
                &&& p1.force[0] == gather_cic(
                    fx@,
                    p0,
                    grid.resolution as int,
                    grid.box_size as int,
                )
                &&& p1.force[1] == gather_cic(
                    fy@,
                    p0,
                    grid.resolution as int,
                    grid.box_size as int,
                )
                &&& p1.force[2] == gather_cic(
                    fz@,
                    p0,
                    grid.resolution as int,
                    grid.box_size as int,
                )
            },
{
    let n = grid.resolution;
    let b = grid.box_size;
    let count = particles.particles.len();
    let ghost s0 = particles.particles@;
    let mut i: usize = 0;
    while i < count
        invariant
            0 < n <= MAX_RES,
            1 <= b <= BOX_MAX,
            n == grid.resolution,
            b == grid.box_size,
            fx@.len() == n * n * n,
            fy@.len() == n * n * n,
            fz@.len() == n * n * n,
            particles.box_size == b,
            particles.wf(),
            count == particles.particles@.len() == s0.len(),
            i <= count,
            forall|k: int| 0 <= k < s0.len() ==> particle_wf(#[trigger] s0[k], b),
            forall|k: int| i <= k < count ==> particles.particles@[k] == s0[k],
            forall|k: int|
                0 <= k < i ==> {
                    let p0 = s0[k];
                    let p1 = #[trigger] particles.particles@[k];
                    &&& p1.position == p0.position
                    &&& p1.velocity == p0.velocity
                    &&& p1.mass == p0.mass
                    &&& p1.force[0] == gather_cic(fx@, p0, n as int, b as int)
                    &&& p1.force[1] == gather_cic(fy@, p0, n as int, b as int)
                    &&& p1.force[2] == gather_cic(fz@, p0, n as int, b as int)
                },
        decreases count - i,
    {
        let p: Particle = particles.particles[i];
        let (bx, dx) = cell_coord(p.position[0], b, n);
        let (by, dy) = cell_coord(p.position[1], b, n);
        let (bz, dz) = cell_coord(p.position[2], b, n);
        let w = cic_weights8(dx, dy, dz);
        let bx1 = wrap_inc(bx, n);
        let by1 = wrap_inc(by, n);
        let bz1 = wrap_inc(bz, n);
        let c0 = lin3(bx, by, bz, n);
        let c1 = lin3(bx1, by, bz, n);
        let c2 = lin3(bx, by1, bz, n);
        let c3 = lin3(bx, by, bz1, n);
        let c4 = lin3(bx1, by1, bz, n);
        let c5 = lin3(bx1, by, bz1, n);
        let c6 = lin3(bx, by1, bz1, n);
        let c7 = lin3(bx1, by1, bz1, n);
        proof {
            lemma_small_mod(bx as nat, n as nat);
            lemma_small_mod(by as nat, n as nat);
            lemma_small_mod(bz as nat, n as nat);
        }
        let cells8: [usize; 8] = [c0, c1, c2, c3, c4, c5, c6, c7];
        let gx = gather_axis(fx, &p, n, b, &cells8, &w);
        let gy = gather_axis(fy, &p, n, b, &cells8, &w);
        let gz = gather_axis(fz, &p, n, b, &cells8, &w);
        let updated = Particle {
            position: p.position,
            velocity: p.velocity,
            force: [gx, gy, gz],
            mass: p.mass,
        };
        particles.particles.set(i, updated);
        i = i + 1;
    }
}

} // verus!
