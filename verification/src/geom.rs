use vstd::prelude::*;
use vstd::arithmetic::div_mod::{
    lemma_fundamental_div_mod, lemma_fundamental_div_mod_converse, lemma_small_mod,
};

verus! {

/// Largest grid resolution the crate accepts along one axis.  Keeps every
/// linear index and every intermediate product comfortably inside the
/// machine integer ranges.
pub const MAX_RES: usize = 1024;

/// Row-major linear index of the cell (i, j, k) on an n-per-axis mesh.
pub open spec fn lin3_spec(i: int, j: int, k: int, n: int) -> int {
    (i * n + j) * n + k
}

/// Row-major linear index of the cell (i, j) on an n-per-axis 2D mesh.
pub open spec fn lin2_spec(i: int, j: int, n: int) -> int {
    i * n + j
}

/// The linear index of an in-range 3D cell lies below n^3.
pub proof fn lemma_lin3_bound(i: int, j: int, k: int, n: int)
    requires
        0 <= i < n,
        0 <= j < n,
        0 <= k < n,
    ensures
        0 <= lin3_spec(i, j, k, n) < n * n * n,
        0 <= i * n + j < n * n,
{
    assert(0 <= (i * n + j) * n + k < n * n * n && 0 <= i * n + j < n * n)
        by (nonlinear_arith)
        requires
            0 <= i < n,
            0 <= j < n,
            0 <= k < n,
    ;
}

/// Row-major flattening of a 3D cell address.
pub fn lin3(i: usize, j: usize, k: usize, n: usize) -> (r: usize)
    requires
        i < n,
        j < n,
        k < n,
        n <= MAX_RES,
    ensures
        r == lin3_spec(i as int, j as int, k as int, n as int),
        r < n * n * n,
{
    proof {
        lemma_lin3_bound(i as int, j as int, k as int, n as int);
        assert(n * n * n <= 0x4000_0000 && n * n <= 0x10_0000) by (nonlinear_arith)
            requires
                0 < n <= MAX_RES,
        ;
    }
    (i * n + j) * n + k
}

/// Row-major flattening of a 2D cell address.
pub fn lin2(i: usize, j: usize, n: usize) -> (r: usize)
    requires
        i < n,
        j < n,
        n <= MAX_RES,
    ensures
        r == lin2_spec(i as int, j as int, n as int),
        r < n * n,
{
    proof {
        assert(0 <= i * n + j < n * n) by (nonlinear_arith)
            requires
                0 <= i < n,
                0 <= j < n,
        ;
        assert(n * n <= 0x10_0000) by (nonlinear_arith)
            requires
                0 < n <= MAX_RES,
        ;
    }
    i * n + j
}

/// Recover the 3D cell address from a row-major linear index.
pub fn decompose3(idx: usize, n: usize) -> (r: (usize, usize, usize))
    requires
        n > 0,
        n <= MAX_RES,
        idx < n * n * n,
    ensures
        r.0 < n,
        r.1 < n,
        r.2 < n,
        lin3_spec(r.0 as int, r.1 as int, r.2 as int, n as int) == idx,
{
    let iz: usize = idx % n;
    let iyx: usize = idx / n;
    proof {
        lemma_fundamental_div_mod(idx as int, n as int);
        assert(iyx < n * n) by (nonlinear_arith)
            requires
                n > 0,
                idx < n * n * n,
                iyx == idx as int / n as int,
                idx as int == (n as int) * (iyx as int) + (iz as int),
                0 <= iz < n,
        ;
    }
    let iy: usize = iyx % n;
    let ix: usize = iyx / n;
    proof {
        lemma_fundamental_div_mod(iyx as int, n as int);
        assert(ix < n) by (nonlinear_arith)
            requires
                n > 0,
                iyx < n * n,
                iyx as int == (n as int) * (ix as int) + (iy as int),
                0 <= iy < n,
        ;
        assert((ix * n + iy) * n + iz == idx) by (nonlinear_arith)
            requires
                idx as int == (n as int) * (iyx as int) + (iz as int),
                iyx as int == (n as int) * (ix as int) + (iy as int),
    ;
    }
    (ix, iy, iz)
}

/// Wrap a cell index one step up with periodic boundary conditions.
pub fn wrap_inc(i: usize, n: usize) -> (r: usize)
    requires
        i < n,
    ensures
        r == (i as int + 1) % (n as int),
        r < n,
{
    proof {
        if i + 1 < n {
            lemma_small_mod((i + 1) as nat, n as nat);
        } else {
            lemma_fundamental_div_mod_converse(i as int + 1, n as int, 1, 0);
        }
    }
    if i + 1 < n {
        i + 1
    } else {
        0
    }
}

/// Wrap a cell index one step down with periodic boundary conditions.
pub fn wrap_dec(i: usize, n: usize) -> (r: usize)
    requires
        i < n,
    ensures
        r == (i as int - 1) % (n as int),
        r < n,
{
    proof {
        if i == 0 {
            lemma_fundamental_div_mod_converse(-1, n as int, -1, n as int - 1);
        } else {
            lemma_fundamental_div_mod_converse(i as int - 1, n as int, 0, i as int - 1);
        }
    }
    if i == 0 {
        n - 1
    } else {
        i - 1
    }
}

/// Signed frequency that a transform index stands for on an axis of n
/// samples: indices above n/2 are the negative frequencies.
pub open spec fn freq_spec(i: int, n: int) -> int {
    if i > n / 2 {
        i - n
    } else {
        i
    }
}

/// Signed frequency of one axis index.
pub fn freq_of(i: usize, n: usize) -> (r: i64)
    requires
        i < n,
        n <= MAX_RES,
    ensures
        r == freq_spec(i as int, n as int),
        -(n as int) / 2 < r <= (n as int) / 2,
{
    if i > n / 2 {
        (i as i64) - (n as i64)
    } else {
        i as i64
    }
}

/// Squared magnitude of the integer frequency vector of a linear mesh
/// index: decompose the index into its three axis indices, map each to a
/// signed frequency, and sum the squares.
pub open spec fn mode_squared_spec(idx: int, n: int) -> int {
    let iz = idx % n;
    let iy = (idx / n) % n;
    let ix = (idx / n) / n;
    freq_spec(ix, n) * freq_spec(ix, n) + freq_spec(iy, n) * freq_spec(iy, n) + freq_spec(
        iz,
        n,
    ) * freq_spec(iz, n)
}

/// Squared magnitude of the frequency vector of one linear mesh index.
pub fn mode_squared(idx: usize, n: usize) -> (r: u64)
    requires
        n > 0,
        n <= MAX_RES,
        idx < n * n * n,
    ensures
        r == mode_squared_spec(idx as int, n as int),
        r == 0 <==> idx == 0,
        r <= 3145728,
{
    let iz: usize = idx % n;
    let iyx: usize = idx / n;
    proof {
        lemma_fundamental_div_mod(idx as int, n as int);
        assert(iyx < n * n) by (nonlinear_arith)
            requires
                n > 0,
                idx < n * n * n,
                idx as int == (n as int) * (iyx as int) + (iz as int),
                0 <= iz < n,
        ;
    }
    let iy: usize = iyx % n;
    let ix: usize = iyx / n;
    proof {
        lemma_fundamental_div_mod(iyx as int, n as int);
        assert(ix < n) by (nonlinear_arith)
            requires
                n > 0,
                iyx < n * n,
                iyx as int == (n as int) * (ix as int) + (iy as int),
                0 <= iy < n,
        ;
        if ix == 0 && iy == 0 && iz == 0 {
            assert(iyx == 0) by (nonlinear_arith)
                requires
                    iyx as int == (n as int) * (ix as int) + (iy as int),
                    ix == 0,
                    iy == 0,
            ;
            assert(idx == 0) by (nonlinear_arith)
                requires
                    idx as int == (n as int) * (iyx as int) + (iz as int),
                    iyx == 0,
                    iz == 0,
            ;
        }
    }
    let fx: i64 = freq_of(ix, n);
    let fy: i64 = freq_of(iy, n);
    let fz: i64 = freq_of(iz, n);
    proof {
        assert(0 <= fx * fx <= 0x10_0000 && 0 <= fy * fy <= 0x10_0000 && 0 <= fz * fz
            <= 0x10_0000) by (nonlinear_arith)
            requires
                -1024 <= fx <= 1024,
                -1024 <= fy <= 1024,
                -1024 <= fz <= 1024,
        ;
        assert((fx * fx + fy * fy + fz * fz == 0) <==> (fx == 0 && fy == 0 && fz == 0))
            by (nonlinear_arith);
    }
    let r: u64 = ((fx * fx) + (fy * fy) + (fz * fz)) as u64;
    r
}

} // verus!
