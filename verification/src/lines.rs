use vstd::prelude::*;
use crate::geom::{lin3, lin3_spec, MAX_RES};
use vstd::arithmetic::div_mod::lemma_fundamental_div_mod_converse;

verus! {

/// A row-major linear index determines its three axis indices.
pub proof fn lemma_lin3_decompose(i: int, j: int, k: int, n: int)
    requires
        0 <= i < n,
        0 <= j < n,
        0 <= k < n,
    ensures
        lin3_spec(i, j, k, n) % n == k,
        (lin3_spec(i, j, k, n) / n) % n == j,
        (lin3_spec(i, j, k, n) / n) / n == i,
{
    let idx = lin3_spec(i, j, k, n);
    lemma_fundamental_div_mod_converse(idx, n, i * n + j, k);
    lemma_fundamental_div_mod_converse(i * n + j, n, i, j);
}

/// Two different in-range cell addresses never share a linear index.
pub proof fn lemma_lin3_injective(
    i1: int,
    j1: int,
    k1: int,
    i2: int,
    j2: int,
    k2: int,
    n: int,
)
    requires
        0 <= i1 < n,
        0 <= j1 < n,
        0 <= k1 < n,
        0 <= i2 < n,
        0 <= j2 < n,
        0 <= k2 < n,
        lin3_spec(i1, j1, k1, n) == lin3_spec(i2, j2, k2, n),
    ensures
        i1 == i2,
        j1 == j2,
        k1 == k2,
{
    lemma_lin3_decompose(i1, j1, k1, n);
    lemma_lin3_decompose(i2, j2, k2, n);
}

/// Copy one z-line (fixed ix, iy; t runs over z) out of a flattened mesh.
pub fn extract_line_z<T: Copy>(data: &Vec<T>, n: usize, ix: usize, iy: usize) -> (line: Vec<
    T>)
    requires
        0 < n <= MAX_RES,
        data@.len() == n * n * n,
        ix < n,
        iy < n,
    ensures
        line@.len() == n,
        forall|t: int|
            0 <= t < n ==> line@[t] == data@[lin3_spec(ix as int, iy as int, t, n as int)],
{
    let mut line: Vec<T> = Vec::new();
    let mut t: usize = 0;
    while t < n
        invariant
            0 < n <= MAX_RES,
            data@.len() == n * n * n,
            ix < n,
            iy < n,
            line@.len() == t <= n,
            forall|tt: int|
                0 <= tt < t ==> line@[tt] == data@[lin3_spec(
                    ix as int,
                    iy as int,
                    tt,
                    n as int,
                )],
        decreases n - t,
    {
        let idx = lin3(ix, iy, t, n);
        line.push(data[idx]);
        t = t + 1;
    }
    line
}

/// Copy one y-line (fixed ix, iz; t runs over y) out of a flattened mesh.
pub fn extract_line_y<T: Copy>(data: &Vec<T>, n: usize, ix: usize, iz: usize) -> (line: Vec<
    T>)
    requires
        0 < n <= MAX_RES,
        data@.len() == n * n * n,
        ix < n,
        iz < n,
    ensures
        line@.len() == n,
        forall|t: int|
            0 <= t < n ==> line@[t] == data@[lin3_spec(ix as int, t, iz as int, n as int)],
{
    let mut line: Vec<T> = Vec::new();
    let mut t: usize = 0;
    while t < n
        invariant
            0 < n <= MAX_RES,
            data@.len() == n * n * n,
            ix < n,
            iz < n,
            line@.len() == t <= n,
            forall|tt: int|
                0 <= tt < t ==> line@[tt] == data@[lin3_spec(
                    ix as int,
                    tt,
                    iz as int,
                    n as int,
                )],
        decreases n - t,
    {
        let idx = lin3(ix, t, iz, n);
        line.push(data[idx]);
        t = t + 1;
    }
    line
}

/// Copy one x-line (fixed iy, iz; t runs over x) out of a flattened mesh.
pub fn extract_line_x<T: Copy>(data: &Vec<T>, n: usize, iy: usize, iz: usize) -> (line: Vec<
    T>)
    requires
        0 < n <= MAX_RES,
        data@.len() == n * n * n,
        iy < n,
        iz < n,
    ensures
        line@.len() == n,
        forall|t: int|
            0 <= t < n ==> line@[t] == data@[lin3_spec(t, iy as int, iz as int, n as int)],
{
    let mut line: Vec<T> = Vec::new();
    let mut t: usize = 0;
    while t < n
        invariant
            0 < n <= MAX_RES,
            data@.len() == n * n * n,
            iy < n,
            iz < n,
            line@.len() == t <= n,
            forall|tt: int|
                0 <= tt < t ==> line@[tt] == data@[lin3_spec(
                    tt,
                    iy as int,
                    iz as int,
                    n as int,
                )],
        decreases n - t,
    {
        let idx = lin3(t, iy, iz, n);
        line.push(data[idx]);
        t = t + 1;
    }
    line
}

/// Write one z-line (fixed ix, iy) back into a flattened mesh, leaving
/// every other cell alone.
pub fn write_line_z<T: Copy>(data: &mut Vec<T>, line: &Vec<T>, n: usize, ix: usize, iy: usize)
    requires
        0 < n <= MAX_RES,
        old(data)@.len() == n * n * n,
        line@.len() == n,
        ix < n,
        iy < n,
    ensures
        final(data)@.len() == old(data)@.len(),
        forall|jx: int, jy: int, t: int|
            0 <= jx < n && 0 <= jy < n && 0 <= t < n ==> final(data)@[lin3_spec(
                jx,
                jy,
                t,
                n as int,
            )] == if jx == ix && jy == iy {
                line@[t]
            } else {
                old(data)@[lin3_spec(jx, jy, t, n as int)]
            },
{
    let mut t: usize = 0;
    let ghost g0 = data@;
    while t < n
        invariant
            0 < n <= MAX_RES,
            data@.len() == g0.len() == n * n * n,
            line@.len() == n,
            ix < n,
            iy < n,
            t <= n,
            forall|jx: int, jy: int, tt: int|
                0 <= jx < n && 0 <= jy < n && 0 <= tt < n ==> data@[lin3_spec(
                    jx,
                    jy,
                    tt,
                    n as int,
                )] == if jx == ix && jy == iy && tt < t {
                    line@[tt]
                } else {
                    g0[lin3_spec(jx, jy, tt, n as int)]
                },
        decreases n - t,
    {
        let idx = lin3(ix, iy, t, n);
        let v: T = line[t];
        let ghost before = data@;
        data.set(idx, v);
        proof {
            assert forall|jx: int, jy: int, tt: int|
                0 <= jx < n && 0 <= jy < n && 0 <= tt < n implies data@[lin3_spec(
                jx,
                jy,
                tt,
                n as int,
            )] == if jx == ix && jy == iy && tt < t + 1 {
                line@[tt]
            } else {
                g0[lin3_spec(jx, jy, tt, n as int)]
            } by {
                crate::geom::lemma_lin3_bound(jx, jy, tt, n as int);
                if lin3_spec(jx, jy, tt, n as int) == idx {
                    lemma_lin3_injective(
                        jx,
                        jy,
                        tt,
                        ix as int,
                        iy as int,
                        t as int,
                        n as int,
                    );
                }
            }
        }
        t = t + 1;
    }
}

/// Write one y-line (fixed ix, iz) back into a flattened mesh, leaving
/// every other cell alone.
pub fn write_line_y<T: Copy>(data: &mut Vec<T>, line: &Vec<T>, n: usize, ix: usize, iz: usize)
    requires
        0 < n <= MAX_RES,
        old(data)@.len() == n * n * n,
        line@.len() == n,
        ix < n,
        iz < n,
    ensures
        final(data)@.len() == old(data)@.len(),
        forall|jx: int, t: int, jz: int|
            0 <= jx < n && 0 <= t < n && 0 <= jz < n ==> final(data)@[lin3_spec(
                jx,
                t,
                jz,
                n as int,
            )] == if jx == ix && jz == iz {
                line@[t]
            } else {
                old(data)@[lin3_spec(jx, t, jz, n as int)]
            },
{
    let mut t: usize = 0;
    let ghost g0 = data@;
    while t < n
        invariant
            0 < n <= MAX_RES,
            data@.len() == g0.len() == n * n * n,
            line@.len() == n,
            ix < n,
            iz < n,
            t <= n,
            forall|jx: int, tt: int, jz: int|
                0 <= jx < n && 0 <= tt < n && 0 <= jz < n ==> data@[lin3_spec(
                    jx,
                    tt,
                    jz,
                    n as int,
                )] == if jx == ix && jz == iz && tt < t {
                    line@[tt]
                } else {
                    g0[lin3_spec(jx, tt, jz, n as int)]
                },
        decreases n - t,
    {
        let idx = lin3(ix, t, iz, n);
        let v: T = line[t];
        data.set(idx, v);
        proof {
            assert forall|jx: int, tt: int, jz: int|
                0 <= jx < n && 0 <= tt < n && 0 <= jz < n implies data@[lin3_spec(
                jx,
                tt,
                jz,
                n as int,
            )] == if jx == ix && jz == iz && tt < t + 1 {
                line@[tt]
            } else {
                g0[lin3_spec(jx, tt, jz, n as int)]
            } by {
                crate::geom::lemma_lin3_bound(jx, tt, jz, n as int);
                if lin3_spec(jx, tt, jz, n as int) == idx {
                    lemma_lin3_injective(
                        jx,
                        tt,
                        jz,
                        ix as int,
                        t as int,
                        iz as int,
                        n as int,
                    );
                }
            }
        }
        t = t + 1;
    }
}

/// Write one x-line (fixed iy, iz) back into a flattened mesh, leaving
/// every other cell alone.
pub fn write_line_x<T: Copy>(data: &mut Vec<T>, line: &Vec<T>, n: usize, iy: usize, iz: usize)
    requires
        0 < n <= MAX_RES,
        old(data)@.len() == n * n * n,
        line@.len() == n,
        iy < n,
        iz < n,
    ensures
        final(data)@.len() == old(data)@.len(),
        forall|t: int, jy: int, jz: int|
            0 <= t < n && 0 <= jy < n && 0 <= jz < n ==> final(data)@[lin3_spec(
                t,
                jy,
                jz,
                n as int,
            )] == if jy == iy && jz == iz {
                line@[t]
            } else {
                old(data)@[lin3_spec(t, jy, jz, n as int)]
            },
{
    let mut t: usize = 0;
    let ghost g0 = data@;
    while t < n
        invariant
            0 < n <= MAX_RES,
            data@.len() == g0.len() == n * n * n,
            line@.len() == n,
            iy < n,
            iz < n,
            t <= n,
            forall|tt: int, jy: int, jz: int|
                0 <= tt < n && 0 <= jy < n && 0 <= jz < n ==> data@[lin3_spec(
                    tt,
                    jy,
                    jz,
                    n as int,
                )] == if jy == iy && jz == iz && tt < t {
                    line@[tt]
                } else {
                    g0[lin3_spec(tt, jy, jz, n as int)]
                },
        decreases n - t,
    {
        let idx = lin3(t, iy, iz, n);
        let v: T = line[t];
        data.set(idx, v);
        proof {
            assert forall|tt: int, jy: int, jz: int|
                0 <= tt < n && 0 <= jy < n && 0 <= jz < n implies data@[lin3_spec(
                tt,
                jy,
                jz,
                n as int,
            )] == if jy == iy && jz == iz && tt < t + 1 {
                line@[tt]
            } else {
                g0[lin3_spec(tt, jy, jz, n as int)]
            } by {
                crate::geom::lemma_lin3_bound(tt, jy, jz, n as int);
                if lin3_spec(tt, jy, jz, n as int) == idx {
                    lemma_lin3_injective(
                        tt,
                        jy,
                        jz,
                        t as int,
                        iy as int,
                        iz as int,
                        n as int,
                    );
                }
            }
        }
        t = t + 1;
    }
}

} // verus!
