use vstd::prelude::*;
use crate::cic::{axis_coord, axis_frac, cell_coord, cic_weights4, corner_weight2};
use crate::fixed::{BOX_MAX, FX2, MASS_MAX, MAX_PARTICLES};
use crate::geom::{lin2, lin2_spec, wrap_inc, MAX_RES};
use crate::particle::{
    lemma_total_mass_bounds, lemma_total_mass_take_all, lemma_total_mass_take_step,
    particle_wf, total_mass_of, Particle, ParticleSet,
};
use crate::sums::{
    lemma_sum_i128_elem_bound, lemma_sum_i128_update, lemma_sum_i128_zero, sum_i128,
};
use vstd::arithmetic::div_mod::lemma_small_mod;

verus! {

/// Upper bound on the raw projected mass of a whole particle set, at the
/// projection scale: count cap times mass cap times FX^2.
pub const PROJECT_CAP: i128 = 302231454903657293676544;

/// Wrapped linear index of corner j of the base cell (bx, by) of the 2D
/// map, in the same corner order as corner_weight2.
pub open spec fn corner_cell2(bx: int, by: int, n: int, j: int) -> int {
    let ox: int = if j == 1 || j == 3 {
        1
    } else {
        0
    };
    let oy: int = if j == 2 || j == 3 {
        1
    } else {
        0
    };
    lin2_spec((bx + ox) % n, (by + oy) % n, n)
}

/// Mass that particle p lays into 2D cell c through its first j corners,
/// reading only its x and y components (z is projected out).
pub open spec fn corner_mass_prefix2(p: Particle, n: int, b: int, c: int, j: int) -> int
    decreases j,
{
    if j <= 0 {
        0
    } else {
        let bx = axis_coord(p.position[0] as int, b, n);
        let by = axis_coord(p.position[1] as int, b, n);
        let dx = axis_frac(p.position[0] as int, b, n);
        let dy = axis_frac(p.position[1] as int, b, n);
        corner_mass_prefix2(p, n, b, c, j - 1) + if corner_cell2(bx, by, n, j - 1) == c {
            p.mass * corner_weight2(dx, dy, j - 1)
        } else {
            0
        }
    }
}

/// Mass that particle p lays into 2D cell c: its mass split over the four
/// wrapped corner cells with the bilinear weights.
pub open spec fn particle_cell_mass2(p: Particle, n: int, b: int, c: int) -> int {
    corner_mass_prefix2(p, n, b, c, 4)
}

/// Surface mass that a whole particle sequence lays into 2D cell c, at
/// scale mass * FX^2.
pub open spec fn projected_cell(s: Seq<Particle>, n: int, b: int, c: int) -> int
    decreases s.len(),
{
    if s.len() == 0 {
        0
    } else {
        projected_cell(s.drop_last(), n, b, c) + particle_cell_mass2(s.last(), n, b, c)
    }
}

proof fn lemma_projected_cell_take_step(s: Seq<Particle>, n: int, b: int, i: int)
    requires
        0 <= i < s.len(),
    ensures
        forall|c: int|
            projected_cell(s.take(i + 1), n, b, c) == projected_cell(s.take(i), n, b, c)
                + particle_cell_mass2(s[i], n, b, c),
{
    assert(s.take(i + 1).drop_last() =~= s.take(i));
    assert(s.take(i + 1).last() == s[i]);
}

proof fn lemma_projected_cell_take_all(s: Seq<Particle>, n: int, b: int)
    ensures
        forall|c: int|
            projected_cell(s.take(s.len() as int), n, b, c) == projected_cell(s, n, b, c),
{
    assert(s.take(s.len() as int) =~= s);
}

/// Sum of the first j bilinear weights, scaled by the mass.
spec fn corner_sum_prefix2(m: int, w: Seq<i64>, j: int) -> int
    decreases j,
{
    if j <= 0 {
        0
    } else {
        corner_sum_prefix2(m, w, j - 1) + m * w[j - 1]
    }
}

proof fn sum_prefix2_step(m: int, w: Seq<i64>, j: int)
    requires
        0 <= j,
    ensures
        corner_sum_prefix2(m, w, j + 1) == corner_sum_prefix2(m, w, j) + m * w[j],
{
}

proof fn sum_prefix2_bound(m: int, w: Seq<i64>, j: int)
    requires
        0 <= j <= 4,
        w.len() == 4,
        forall|jj: int| 0 <= jj < 4 ==> 0 <= m * #[trigger] (w[jj] as int) <= MASS_MAX * FX2,
    ensures
        0 <= corner_sum_prefix2(m, w, j) <= j * (MASS_MAX * FX2),
    decreases j,
{
    if j > 0 {
        sum_prefix2_bound(m, w, j - 1);
        assert((j - 1) * (MASS_MAX * FX2) + MASS_MAX * FX2 == j * (MASS_MAX * FX2))
            by (nonlinear_arith);
    }
}

proof fn sum_prefix2_all(m: int, w: Seq<i64>)
    requires
        w.len() == 4,
        w[0] + w[1] + w[2] + w[3] == FX2,
    ensures
        corner_sum_prefix2(m, w, 4) == m * FX2,
{
    sum_prefix2_step(m, w, 0);
    sum_prefix2_step(m, w, 1);
    sum_prefix2_step(m, w, 2);
    sum_prefix2_step(m, w, 3);
    assert(corner_sum_prefix2(m, w, 0) == 0);
    assert(corner_sum_prefix2(m, w, 4) == m * w[0] + m * w[1] + m * w[2] + m * w[3]);
    assert(m * w[0] + m * w[1] + m * w[2] + m * w[3] == m * FX2) by (nonlinear_arith)
        requires
            w[0] + w[1] + w[2] + w[3] == FX2,
    ;
}

/// Scatter one particle's mass onto the four corner cells of its base
/// cell on the 2D map, with periodic wrap.
fn project_one(map: &mut Vec<i128>, p: &Particle, n: usize, b: i64)
    requires
        0 < n <= MAX_RES,
        1 <= b <= BOX_MAX,
        particle_wf(*p, b),
        old(map)@.len() == n * n,
        forall|c: int| 0 <= c < old(map)@.len() ==> old(map)@[c] >= 0,
        sum_i128(old(map)@) <= PROJECT_CAP,
    ensures
        final(map)@.len() == old(map)@.len(),
        forall|c: int|
            0 <= c < final(map)@.len() ==> final(map)@[c] == old(map)@[c]
                + particle_cell_mass2(*p, n as int, b as int, c),
        forall|c: int| 0 <= c < final(map)@.len() ==> final(map)@[c] >= 0,
        sum_i128(final(map)@) == sum_i128(old(map)@) + p.mass * FX2,
{
    let ghost g0 = map@;
    let (bx, dx) = cell_coord(p.position[0], b, n);
    let (by, dy) = cell_coord(p.position[1], b, n);
    let w = cic_weights4(dx, dy);
    let bx1 = wrap_inc(bx, n);
    let by1 = wrap_inc(by, n);
    let m: i128 = p.mass as i128;
    proof {
        assert forall|j: int| 0 <= j < 4 implies 0 <= m * #[trigger] w[j] <= MASS_MAX * FX2 by {
            vstd::arithmetic::mul::lemma_mul_nonnegative(m as int, w[j] as int);
            vstd::arithmetic::mul::lemma_mul_upper_bound(
                m as int,
                MASS_MAX as int,
                w[j] as int,
                FX2 as int,
            );
        }
    }
    let c0 = lin2(bx, by, n);
    let c1 = lin2(bx1, by, n);
    let c2 = lin2(bx, by1, n);
    let c3 = lin2(bx1, by1, n);
    proof {
        lemma_small_mod(bx as nat, n as nat);
        lemma_small_mod(by as nat, n as nat);
        assert(c0 == corner_cell2(bx as int, by as int, n as int, 0));
        assert(c1 == corner_cell2(bx as int, by as int, n as int, 1));
        assert(c2 == corner_cell2(bx as int, by as int, n as int, 2));
        assert(c3 == corner_cell2(bx as int, by as int, n as int, 3));
    }
    let cells: [usize; 4] = [c0, c1, c2, c3];
    let mut j: usize = 0;
    while j < 4
        invariant
            0 < n <= MAX_RES,
            1 <= b <= BOX_MAX,
            particle_wf(*p, b),
            j <= 4,
            m == p.mass,
            map@.len() == g0.len() == n * n,
            forall|jj: int|
                0 <= jj < 4 ==> #[trigger] cells[jj] == corner_cell2(
                    bx as int,
                    by as int,
                    n as int,
                    jj,
                ),
            forall|jj: int| 0 <= jj < 4 ==> #[trigger] cells[jj] < map@.len(),
            forall|jj: int|
                0 <= jj < 4 ==> #[trigger] w[jj] == corner_weight2(
                    axis_frac(p.position[0] as int, b as int, n as int),
                    axis_frac(p.position[1] as int, b as int, n as int),
                    jj,
                ),
            forall|jj: int| 0 <= jj < 4 ==> 0 <= m * #[trigger] w[jj] <= MASS_MAX * FX2,
            bx == axis_coord(p.position[0] as int, b as int, n as int),
            by == axis_coord(p.position[1] as int, b as int, n as int),
            forall|c: int|
                0 <= c < map@.len() ==> map@[c] == g0[c] + corner_mass_prefix2(
                    *p,
                    n as int,
                    b as int,
                    c,
                    j as int,
                ),
            forall|c: int| 0 <= c < map@.len() ==> map@[c] >= 0,
            sum_i128(g0) <= PROJECT_CAP,
            forall|c: int| 0 <= c < g0.len() ==> g0[c] >= 0,
            sum_i128(map@) == sum_i128(g0) + corner_sum_prefix2(m as int, w@, j as int),
        decreases 4 - j,
    {
        let idx = cells[j];
        proof {
            lemma_sum_i128_elem_bound(map@, idx as int);
            sum_prefix2_bound(m as int, w@, j as int);
        }
        let add: i128 = m * (w[j] as i128);
        let cur: i128 = map[idx];
        let ghost before = map@;
        map.set(idx, cur + add);
        proof {
            lemma_sum_i128_update(before, idx as int, (cur + add) as i128);
            assert(forall|c: int|
                0 <= c < map@.len() ==> map@[c] == g0[c] + corner_mass_prefix2(
                    *p,
                    n as int,
                    b as int,
                    c,
                    j as int + 1,
                ));
        }
        j = j + 1;
    }
    proof {
        sum_prefix2_all(m as int, w@);
        assert(m * FX2 == p.mass * FX2) by (nonlinear_arith)
            requires
                m == p.mass,
        ;
    }
}

impl ParticleSet {
    /// Project every particle's mass onto an n-by-n map of the (x, y)
    /// plane with the bilinear Cloud-in-Cell scheme and periodic wrap,
    /// ignoring z: a surface density proxy, row-major flattened, at scale
    /// mass * FX^2.  The wrap neither loses nor duplicates mass, so the
    /// map sums to exactly the total particle mass.
    pub fn project_to_2d(&self, resolution: usize) -> (map: Vec<i128>)
        requires
            self.wf(),
            0 < resolution <= MAX_RES,
        ensures
            map@.len() == resolution * resolution,
            forall|c: int|
                0 <= c < map@.len() ==> map@[c] == projected_cell(
                    self.particles@,
                    resolution as int,
                    self.box_size as int,
                    c,
                ),
            forall|c: int| 0 <= c < map@.len() ==> map@[c] >= 0,
            sum_i128(map@) == self.total_mass() * FX2,
    {
        let n = resolution;
        proof {
            assert(0 < n * n <= 0x10_0000) by (nonlinear_arith)
                requires
                    0 < n <= MAX_RES,
            ;
        }
        let cells: usize = n * n;
        let mut map: Vec<i128> = Vec::new();
        let mut z: usize = 0;
        while z < cells
            invariant
                map@.len() == z <= cells,
                forall|c: int| 0 <= c < z ==> map@[c] == 0,
            decreases cells - z,
        {
            map.push(0);
            z = z + 1;
        }
        proof {
            lemma_sum_i128_zero(map@);
            lemma_total_mass_bounds(self.particles@, self.box_size);
        }
        let count = self.particles.len();
        let mut i: usize = 0;
        while i < count
            invariant
                self.wf(),
                0 < n <= MAX_RES,
                count == self.particles@.len(),
                i <= count,
                map@.len() == n * n,
                forall|c: int|
                    0 <= c < map@.len() ==> map@[c] == projected_cell(
                        self.particles@.take(i as int),
                        n as int,
                        self.box_size as int,
                        c,
                    ),
                forall|c: int| 0 <= c < map@.len() ==> map@[c] >= 0,
                sum_i128(map@) == total_mass_of(self.particles@.take(i as int)) * FX2,
            decreases count - i,
        {
            proof {
                lemma_total_mass_bounds(self.particles@.take(i as int), self.box_size);
                assert(total_mass_of(self.particles@.take(i as int)) * FX2 <= PROJECT_CAP)
                    by (nonlinear_arith)
                    requires
                        0 <= total_mass_of(self.particles@.take(i as int)) <= (
                        MAX_PARTICLES as int) * MASS_MAX,
                ;
            }
            let p = &self.particles[i];
            project_one(&mut map, p, n, self.box_size);
            proof {
                lemma_projected_cell_take_step(
                    self.particles@,
                    n as int,
                    self.box_size as int,
                    i as int,
                );
                lemma_total_mass_take_step(self.particles@, i as int);
            }
            i = i + 1;
        }
        proof {
            lemma_projected_cell_take_all(
                self.particles@,
                n as int,
                self.box_size as int,
            );
            lemma_total_mass_take_all(self.particles@);
        }
        map
    }
}

} // verus!
