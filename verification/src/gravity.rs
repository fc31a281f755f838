use vstd::prelude::*;
use crate::cic::{axis_coord, axis_frac, cell_coord, cic_weights8, corner_weight};
use crate::fixed::{lemma_div_below, BOX_MAX, FX, FX2, FX3, MASS_MAX, MAX_PARTICLES};
use crate::grid::Grid;
use crate::geom::{lin3, lin3_spec, wrap_inc, MAX_RES};
use vstd::arithmetic::div_mod::{lemma_fundamental_div_mod, lemma_small_mod};
use crate::particle::{
    lemma_total_mass_bounds, lemma_total_mass_take_all, lemma_total_mass_take_step,
    particle_wf, total_mass_of, Particle, ParticleSet,
};
use crate::sums::{
    lemma_sum_i128_elem_bound, lemma_sum_i128_take_all, lemma_sum_i128_take_step,
    lemma_sum_i128_update, lemma_sum_i128_zero, lemma_sum_i64_push, sum_i128, sum_i64,
};

verus! {

/// Upper bound on the raw deposited mass of a whole particle set, at the
/// deposit scale: count cap times mass cap times FX^3.
pub const DEPOSIT_CAP: i128 = 19807040628566084398385987584;

/// Wrapped linear index of corner j of the base cell (bx, by, bz), in the
/// same corner order as corner_weight.
pub open spec fn corner_cell(bx: int, by: int, bz: int, n: int, j: int) -> int {
    let ox: int = if j == 1 || j == 4 || j == 5 || j == 7 {
        1
    } else {
        0
    };
    let oy: int = if j == 2 || j == 4 || j == 6 || j == 7 {
        1
    } else {
        0
    };
    let oz: int = if j == 3 || j == 5 || j == 6 || j == 7 {
        1
    } else {
        0
    };
    lin3_spec((bx + ox) % n, (by + oy) % n, (bz + oz) % n, n)
}

/// Mass that particle p lays into cell c through its first j corners.
pub open spec fn corner_mass_prefix(p: Particle, n: int, b: int, c: int, j: int) -> int
    decreases j,
{
    if j <= 0 {
        0
    } else {
        let bx = axis_coord(p.position[0] as int, b, n);
        let by = axis_coord(p.position[1] as int, b, n);
        let bz = axis_coord(p.position[2] as int, b, n);
        let dx = axis_frac(p.position[0] as int, b, n);
        let dy = axis_frac(p.position[1] as int, b, n);
        let dz = axis_frac(p.position[2] as int, b, n);
        corner_mass_prefix(p, n, b, c, j - 1) + if corner_cell(bx, by, bz, n, j - 1) == c {
            p.mass * corner_weight(dx, dy, dz, j - 1)
        } else {
            0
        }
    }
}

/// Mass that particle p lays into cell c: its mass split over the eight
/// wrapped corner cells with the trilinear weights.
pub open spec fn particle_cell_mass(p: Particle, n: int, b: int, c: int) -> int {
    corner_mass_prefix(p, n, b, c, 8)
}

/// Raw mass that a whole particle sequence lays into cell c, at scale
/// mass * FX^3.
pub open spec fn deposit_cell(s: Seq<Particle>, n: int, b: int, c: int) -> int
    decreases s.len(),
{
    if s.len() == 0 {
        0
    } else {
        deposit_cell(s.drop_last(), n, b, c) + particle_cell_mass(s.last(), n, b, c)
    }
}

/// Extending a prefix by one particle adds that particle's contribution,
/// cell by cell.
pub proof fn lemma_deposit_cell_take_step(s: Seq<Particle>, n: int, b: int, i: int)
    requires
        0 <= i < s.len(),
    ensures
        forall|c: int|
            deposit_cell(s.take(i + 1), n, b, c) == deposit_cell(s.take(i), n, b, c)
                + particle_cell_mass(s[i], n, b, c),
{
    assert(s.take(i + 1).drop_last() =~= s.take(i));
    assert(s.take(i + 1).last() == s[i]);
}

/// A full-length prefix lays down the whole deposit.
pub proof fn lemma_deposit_cell_take_all(s: Seq<Particle>, n: int, b: int)
    ensures
        forall|c: int|
            deposit_cell(s.take(s.len() as int), n, b, c) == deposit_cell(s, n, b, c),
{
    assert(s.take(s.len() as int) =~= s);
}

/// Scatter one particle's mass onto the eight corner cells of its base
/// cell, with periodic wrap.
fn deposit_one(raw: &mut Vec<i128>, p: &Particle, n: usize, b: i64)
    requires
        0 < n <= MAX_RES,
        1 <= b <= BOX_MAX,
        particle_wf(*p, b),
        old(raw)@.len() == n * n * n,
        forall|c: int| 0 <= c < old(raw)@.len() ==> old(raw)@[c] >= 0,
        sum_i128(old(raw)@) <= DEPOSIT_CAP,
    ensures
        final(raw)@.len() == old(raw)@.len(),
        forall|c: int|
            0 <= c < final(raw)@.len() ==> final(raw)@[c] == old(raw)@[c]
                + particle_cell_mass(*p, n as int, b as int, c),
        forall|c: int| 0 <= c < final(raw)@.len() ==> final(raw)@[c] >= 0,
        sum_i128(final(raw)@) == sum_i128(old(raw)@) + p.mass * FX3,
{
    let ghost g0 = raw@;
    let (bx, dx) = cell_coord(p.position[0], b, n);
    let (by, dy) = cell_coord(p.position[1], b, n);
    let (bz, dz) = cell_coord(p.position[2], b, n);
    let w = cic_weights8(dx, dy, dz);
    let bx1 = wrap_inc(bx, n);
    let by1 = wrap_inc(by, n);
    let bz1 = wrap_inc(bz, n);
    let m: i128 = p.mass as i128;
    proof {
        assert forall|j: int| 0 <= j < 8 implies 0 <= m * #[trigger] w[j] <= MASS_MAX * FX3 by {
            vstd::arithmetic::mul::lemma_mul_nonnegative(m as int, w[j] as int);
            vstd::arithmetic::mul::lemma_mul_upper_bound(
                m as int,
                MASS_MAX as int,
                w[j] as int,
                FX3 as int,
            );
        }
    }
    let c0 = lin3(bx, by, bz, n);
    let c1 = lin3(bx1, by, bz, n);
    let c2 = lin3(bx, by1, bz, n);
    let c3 = lin3(bx, by, bz1, n);
    let c4 = lin3(bx1, by1, bz, n);
    let c5 = lin3(bx1, by, bz1, n);
    let c6 = lin3(bx, by1, bz1, n);
    let c7 = lin3(bx1, by1, bz1, n);
    proof {
        lemma_small_mod(bx as nat, n as nat);
        lemma_small_mod(by as nat, n as nat);
        lemma_small_mod(bz as nat, n as nat);
        assert(c0 == corner_cell(bx as int, by as int, bz as int, n as int, 0));
        assert(c1 == corner_cell(bx as int, by as int, bz as int, n as int, 1));
        assert(c2 == corner_cell(bx as int, by as int, bz as int, n as int, 2));
        assert(c3 == corner_cell(bx as int, by as int, bz as int, n as int, 3));
        assert(c4 == corner_cell(bx as int, by as int, bz as int, n as int, 4));
        assert(c5 == corner_cell(bx as int, by as int, bz as int, n as int, 5));
        assert(c6 == corner_cell(bx as int, by as int, bz as int, n as int, 6));
        assert(c7 == corner_cell(bx as int, by as int, bz as int, n as int, 7));
    }
    let cells: [usize; 8] = [c0, c1, c2, c3, c4, c5, c6, c7];
    let mut j: usize = 0;
    while j < 8
        invariant
            0 < n <= MAX_RES,
            1 <= b <= BOX_MAX,
            particle_wf(*p, b),
            j <= 8,
            m == p.mass,
            raw@.len() == g0.len() == n * n * n,
            forall|jj: int|
                0 <= jj < 8 ==> #[trigger] cells[jj] == corner_cell(
                    bx as int,
                    by as int,
                    bz as int,
                    n as int,
                    jj,
                ),
            forall|jj: int| 0 <= jj < 8 ==> #[trigger] cells[jj] < raw@.len(),
            forall|jj: int|
                0 <= jj < 8 ==> #[trigger] w[jj] == corner_weight(
                    axis_frac(p.position[0] as int, b as int, n as int),
                    axis_frac(p.position[1] as int, b as int, n as int),
                    axis_frac(p.position[2] as int, b as int, n as int),
                    jj,
                ),
            forall|jj: int| 0 <= jj < 8 ==> 0 <= m * #[trigger] w[jj] <= MASS_MAX * FX3,
            bx == axis_coord(p.position[0] as int, b as int, n as int),
            by == axis_coord(p.position[1] as int, b as int, n as int),
            bz == axis_coord(p.position[2] as int, b as int, n as int),
            forall|c: int|
                0 <= c < raw@.len() ==> raw@[c] == g0[c] + corner_mass_prefix(
                    *p,
                    n as int,
                    b as int,
                    c,
                    j as int,
                ),
            forall|c: int| 0 <= c < raw@.len() ==> raw@[c] >= 0,
            sum_i128(g0) <= DEPOSIT_CAP,
            forall|c: int| 0 <= c < g0.len() ==> g0[c] >= 0,
            sum_i128(raw@) == sum_i128(g0) + corner_sum_prefix(m as int, w@, j as int),
        decreases 8 - j,
    {
        let idx = cells[j];
        proof {
            lemma_sum_i128_elem_bound(raw@, idx as int);
            sum_prefix_bound(m as int, w@, j as int);
        }
        let add: i128 = m * (w[j] as i128);
        let cur: i128 = raw[idx];
        let ghost before = raw@;
        raw.set(idx, cur + add);
        proof {
            lemma_sum_i128_update(before, idx as int, (cur + add) as i128);
            sum_prefix_step(m as int, w@, j as int);
            assert(forall|c: int|
                0 <= c < raw@.len() ==> raw@[c] == g0[c] + corner_mass_prefix(
                    *p,
                    n as int,
                    b as int,
                    c,
                    j as int + 1,
                ));
        }
        j = j + 1;
    }
    proof {
        sum_prefix_all(m as int, w@);
        assert(m * FX3 == p.mass * FX3) by (nonlinear_arith)
            requires
                m == p.mass,
        ;
    }
}

/// Sum of the first j weights, scaled by the mass.
pub open spec fn corner_sum_prefix(m: int, w: Seq<i64>, j: int) -> int
    decreases j,
{
    if j <= 0 {
        0
    } else {
        corner_sum_prefix(m, w, j - 1) + m * w[j - 1]
    }
}

proof fn sum_prefix_step(m: int, w: Seq<i64>, j: int)
    requires
        0 <= j,
    ensures
        corner_sum_prefix(m, w, j + 1) == corner_sum_prefix(m, w, j) + m * w[j],
{
}

proof fn sum_prefix_bound(m: int, w: Seq<i64>, j: int)
    requires
        0 <= j <= 8,
        w.len() == 8,
        forall|jj: int| 0 <= jj < 8 ==> 0 <= m * #[trigger] (w[jj] as int) <= MASS_MAX * FX3,
    ensures
        0 <= corner_sum_prefix(m, w, j) <= j * (MASS_MAX * FX3),
    decreases j,
{
    if j > 0 {
        sum_prefix_bound(m, w, j - 1);
        assert((j - 1) * (MASS_MAX * FX3) + MASS_MAX * FX3 == j * (MASS_MAX * FX3))
            by (nonlinear_arith);
    }
}

/// With the eight trilinear weights, the prefix sums close to m * FX^3.
proof fn sum_prefix_all(m: int, w: Seq<i64>)
    requires
        w.len() == 8,
        w[0] + w[1] + w[2] + w[3] + w[4] + w[5] + w[6] + w[7] == FX3,
    ensures
        corner_sum_prefix(m, w, 8) == m * FX3,
{
    sum_prefix_step(m, w, 0);
    sum_prefix_step(m, w, 1);
    sum_prefix_step(m, w, 2);
    sum_prefix_step(m, w, 3);
    sum_prefix_step(m, w, 4);
    sum_prefix_step(m, w, 5);
    sum_prefix_step(m, w, 6);
    sum_prefix_step(m, w, 7);
    assert(corner_sum_prefix(m, w, 0) == 0);
    assert(corner_sum_prefix(m, w, 8) == m * w[0] + m * w[1] + m * w[2] + m * w[3] + m * w[4]
        + m * w[5] + m * w[6] + m * w[7]);
    assert(m * w[0] + m * w[1] + m * w[2] + m * w[3] + m * w[4] + m * w[5] + m * w[6] + m
        * w[7] == m * FX3) by (nonlinear_arith)
        requires
            w[0] + w[1] + w[2] + w[3] + w[4] + w[5] + w[6] + w[7] == FX3,
    ;
}

/// Deposit the mass of every particle onto an n-per-axis mesh with the
/// Cloud-in-Cell scheme and periodic wrap.  The result is the raw mass
/// field at scale mass * FX^3; the periodic wrap neither loses nor
/// duplicates mass, so the field sums to exactly the total particle mass.
pub fn deposit_mass_cic(particles: &ParticleSet, n: usize) -> (raw: Vec<i128>)
    requires
        particles.wf(),
        0 < n <= MAX_RES,
    ensures
        raw@.len() == n * n * n,
        forall|c: int|
            0 <= c < raw@.len() ==> raw@[c] == deposit_cell(
                particles.particles@,
                n as int,
                particles.box_size as int,
                c,
            ),
        forall|c: int| 0 <= c < raw@.len() ==> raw@[c] >= 0,
        sum_i128(raw@) == particles.total_mass() * FX3,
{
    proof {
        assert(n * n * n <= 0x4000_0000) by (nonlinear_arith)
            requires
                0 < n <= MAX_RES,
        ;
    }
    let cells = lin3(n - 1, n - 1, n - 1, n) + 1;
    proof {
        assert((n - 1) * (n as int) + (n - 1) == (n as int) * (n as int) - 1)
            by (nonlinear_arith);
        assert(((n as int) * (n as int) - 1) * (n as int) + (n - 1) == (n as int) * (n as int)
            * (n as int) - 1) by (nonlinear_arith);
    }
    let mut raw: Vec<i128> = Vec::new();
    let mut z: usize = 0;
    while z < cells
        invariant
            raw@.len() == z <= cells,
            forall|c: int| 0 <= c < z ==> raw@[c] == 0,
        decreases cells - z,
    {
        raw.push(0);
        z = z + 1;
    }
    proof {
        lemma_sum_i128_zero(raw@);
        lemma_total_mass_bounds(particles.particles@, particles.box_size);
    }
    let count = particles.particles.len();
    let mut i: usize = 0;
    while i < count
        invariant
            particles.wf(),
            0 < n <= MAX_RES,
            count == particles.particles@.len(),
            i <= count,
            raw@.len() == n * n * n,
            forall|c: int|
                0 <= c < raw@.len() ==> raw@[c] == deposit_cell(
                    particles.particles@.take(i as int),
                    n as int,
                    particles.box_size as int,
                    c,
                ),
            forall|c: int| 0 <= c < raw@.len() ==> raw@[c] >= 0,
            sum_i128(raw@) == total_mass_of(particles.particles@.take(i as int)) * FX3,
        decreases count - i,
    {
        proof {
            lemma_total_mass_bounds(
                particles.particles@.take(i as int),
                particles.box_size,
            );
            assert(total_mass_of(particles.particles@.take(i as int)) * FX3 <= DEPOSIT_CAP)
                by (nonlinear_arith)
                requires
                    0 <= total_mass_of(particles.particles@.take(i as int)) <= (
                    MAX_PARTICLES as int) * MASS_MAX,
            ;
        }
        let p = &particles.particles[i];
        deposit_one(&mut raw, p, n, particles.box_size);
        proof {
            lemma_deposit_cell_take_step(
                particles.particles@,
                n as int,
                particles.box_size as int,
                i as int,
            );
            lemma_total_mass_take_step(particles.particles@, i as int);
        }
        i = i + 1;
    }
    proof {
        lemma_deposit_cell_take_all(
            particles.particles@,
            n as int,
            particles.box_size as int,
        );
        lemma_total_mass_take_all(particles.particles@);
    }
    raw
}

/// Density contrast of one cell: raw cell mass over mean cell mass,
/// minus one, on the fixed-point lattice.  The mean cell mass is
/// total / cells at scale FX^3, so the quotient below carries scale FX.
pub open spec fn contrast_cell(raw: int, total: int, cells: int) -> int {
    (raw * cells) / (total * FX2) - FX
}

/// Turn a raw deposited mass field into a density contrast field.
/// When the total mass is zero the mean density is zero and the field is
/// left at zero instead of dividing by it.
pub fn normalize_contrast(raw: &Vec<i128>, total: i64, n: usize) -> (out: Vec<i64>)
    requires
        0 < n <= MAX_RES,
        raw@.len() == n * n * n,
        0 <= total <= MAX_PARTICLES * MASS_MAX,
        forall|c: int| 0 <= c < raw@.len() ==> 0 <= #[trigger] raw@[c] <= total * FX3,
        sum_i128(raw@) == total * FX3,
    ensures
        out@.len() == raw@.len(),
        total == 0 ==> forall|c: int| 0 <= c < out@.len() ==> out@[c] == 0,
        total > 0 ==> forall|c: int|
            0 <= c < out@.len() ==> out@[c] == contrast_cell(
                raw@[c] as int,
                total as int,
                (n * n * n) as int,
            ),
        forall|c: int| 0 <= c < out@.len() ==> -FX <= #[trigger] out@[c],
        total > 0 ==> -(raw@.len() as int) < sum_i64(out@) <= 0,
{
    proof {
        assert(n * (n * n) == n * n * n && 0 < n * n * n <= 0x4000_0000 && n * n
            <= 0x10_0000) by (nonlinear_arith)
            requires
                0 < n <= MAX_RES,
        ;
    }
    let cells: usize = n * (n * n);
    let len = raw.len();
    let mut out: Vec<i64> = Vec::new();
    proof {
        assert(raw@.take(0) =~= Seq::<i128>::empty());
        assert(((total as int) * FX2) * (sum_i64(out@) + 0 * FX) == 0) by (nonlinear_arith)
            requires
                sum_i64(out@) == 0,
        ;
        assert(sum_i128(raw@.take(0)) * (cells as int) == 0) by (nonlinear_arith)
            requires
                sum_i128(raw@.take(0)) == 0,
        ;
    }
    let mut c: usize = 0;
    while c < len
        invariant
            0 < n <= MAX_RES,
            cells == n * n * n,
            len == raw@.len() == n * n * n,
            0 < cells <= 0x4000_0000,
            0 <= total <= MAX_PARTICLES * MASS_MAX,
            forall|k: int| 0 <= k < raw@.len() ==> 0 <= #[trigger] raw@[k] <= total * FX3,
            out@.len() == c <= len,
            total == 0 ==> forall|k: int| 0 <= k < c ==> out@[k] == 0,
            total > 0 ==> forall|k: int|
                0 <= k < c ==> out@[k] == contrast_cell(
                    raw@[k] as int,
                    total as int,
                    (n * n * n) as int,
                ),
            forall|k: int| 0 <= k < c ==> -FX <= #[trigger] out@[k],
            total > 0 ==> ((total as int) * FX2) * (sum_i64(out@) + c * FX) <= sum_i128(
                raw@.take(c as int),
            ) * (cells as int),
            total > 0 ==> ((total as int) * FX2) * (sum_i64(out@) + c * FX) >= sum_i128(
                raw@.take(c as int),
            ) * (cells as int) - c * ((total as int) * FX2) + c,
        decreases len - c,
    {
        let ghost sum_before = sum_i64(out@);
        let ghost raw_sum_before = sum_i128(raw@.take(c as int));
        if total == 0 {
            proof {
                lemma_sum_i64_push(out@, 0);
            }
            out.push(0);
        } else {
            proof {
                assert(0 <= raw@[c as int] * (cells as int) <= (total as int) * FX3 * (
                cells as int) && 0 < (total as int) * FX2 <= (MAX_PARTICLES as int)
                    * MASS_MAX * FX2 && (total as int) * FX3 * (cells as int)
                    < 0x2000_0000_0000_0000_0000_0000_0000_0000) by (nonlinear_arith)
                    requires
                        0 <= raw@[c as int] <= total * FX3,
                        0 < total <= MAX_PARTICLES * MASS_MAX,
                        0 < cells <= 0x4000_0000,
                ;
                assert(raw@[c as int] * (cells as int) < ((total as int) * FX2) * (FX * (
                cells as int) + 1)) by (nonlinear_arith)
                    requires
                        0 <= raw@[c as int] * (cells as int) <= (total as int) * FX3 * (
                        cells as int),
                        0 < total,
                        0 < cells,
                ;
                lemma_div_below(
                    raw@[c as int] * (cells as int),
                    (total as int) * FX2,
                    FX * (cells as int) + 1,
                );
            }
            let y: i128 = raw[c] * (cells as i128);
            let d: i128 = (total as i128) * (FX2 as i128);
            let q: i128 = y / d;
            proof {
                lemma_fundamental_div_mod(y as int, d as int);
                lemma_sum_i64_push(out@, ((q as i64) - FX) as i64);
                lemma_sum_i128_take_step(raw@, c as int);
                // the new partial sums stay inside the same window: the
                // quotient accounts for the new cell up to one remainder
                assert((d as int) * (sum_before + (q as int) - FX + (c + 1) * FX)
                    == (d as int) * (sum_before + c * FX) + (d as int) * (q as int))
                    by (nonlinear_arith);
                assert((raw_sum_before + raw@[c as int]) * (cells as int) == raw_sum_before
                    * (cells as int) + raw@[c as int] * (cells as int)) by (nonlinear_arith);
                assert((d as int) * (q as int) >= (y as int) - (d as int) + 1);
                assert((c + 1) * (d as int) == c * (d as int) + (d as int))
                    by (nonlinear_arith);
            }
            out.push((q as i64) - FX);
        }
        c = c + 1;
    }
    proof {
        lemma_sum_i128_take_all(raw@);
        if total > 0 {
            let d = (total as int) * FX2;
            let k = cells as int;
            let s_out = sum_i64(out@);
            assert(sum_i128(raw@) * k == d * (FX * k)) by (nonlinear_arith)
                requires
                    sum_i128(raw@) == (total as int) * FX3,
                    d == (total as int) * FX2,
                    FX == 65536,
                    FX2 == 4294967296,
                    FX3 == 281474976710656,
            ;
            assert(s_out <= 0) by (nonlinear_arith)
                requires
                    d > 0,
                    d * (s_out + k * FX) <= d * (FX * k),
            ;
            assert(s_out > -k) by (nonlinear_arith)
                requires
                    d > 0,
                    k > 0,
                    d * (s_out + k * FX) >= d * (FX * k) - k * d + k,
            ;
        }
    }
    out
}

/// Deposit every particle's mass onto the grid with the Cloud-in-Cell
/// scheme and store the normalized density contrast, leaving the rest of
/// the grid alone.  The grid and the particles must share one box.
pub fn assign_mass_cic(particles: &ParticleSet, grid: &mut Grid)
    requires
        particles.wf(),
        old(grid).wf(),
        old(grid).box_size == particles.box_size,
    ensures
        final(grid).wf(),
        final(grid).resolution == old(grid).resolution,
        final(grid).box_size == old(grid).box_size,
        final(grid).potential@ == old(grid).potential@,
        final(grid).density_contrast@.len() == old(grid).density_contrast@.len(),
        particles.total_mass() == 0 ==> forall|c: int|
            0 <= c < final(grid).density_contrast@.len() ==> final(grid).density_contrast@[c] == 0,
        particles.total_mass() > 0 ==> forall|c: int|
            0 <= c < final(grid).density_contrast@.len() ==> final(grid).density_contrast@[c] == contrast_cell(
                deposit_cell(
                    particles.particles@,
                    old(grid).resolution as int,
                    particles.box_size as int,
                    c,
                ),
                particles.total_mass(),
                (old(grid).resolution * old(grid).resolution * old(grid).resolution) as int,
            ),
        particles.total_mass() > 0 ==> -(final(grid).density_contrast@.len() as int)
            < sum_i64(final(grid).density_contrast@) <= 0,
{
    let n = grid.resolution;
    let raw = deposit_mass_cic(particles, n);
    let total = particles.total_mass_exec();
    proof {
        assert forall|c: int| 0 <= c < raw@.len() implies 0 <= #[trigger] raw@[c] <= (
        total as int) * FX3 by {
            lemma_sum_i128_elem_bound(raw@, c);
        }
    }
    let contrast = normalize_contrast(&raw, total, n);
    grid.density_contrast = contrast;
}

} // verus!
