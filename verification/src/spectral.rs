use vstd::prelude::*;
use crate::fixed::{div_trunc, sat64, sat_i64, tdiv, BOX_MAX};
use crate::geom::{mode_squared, mode_squared_spec, MAX_RES};

verus! {

/// Fixed-point value of pi squared.
pub const PI2_FX: i64 = 646859;

/// Fourier multiplier of the gravity Green's function for one mesh mode:
/// minus one over k squared, where k is the frequency vector scaled by
/// the fundamental wavenumber two pi over the box side.  The
/// zero-frequency mode has no defined multiplier and is forced to zero.
pub open spec fn greens_factor_spec(idx: int, n: int, b: int) -> int {
    let m2 = mode_squared_spec(idx, n);
    if m2 == 0 {
        0
    } else {
        sat_i64(-tdiv(b * b, 4 * PI2_FX * m2))
    }
}

/// The Green's function multiplier of one linear mesh index, fixed-point
/// at scale FX.  Exactly zero on the zero-frequency mode.
pub fn greens_factor(idx: usize, n: usize, b: i64) -> (r: i64)
    requires
        0 < n <= MAX_RES,
        idx < n * n * n,
        1 <= b <= BOX_MAX,
    ensures
        r == greens_factor_spec(idx as int, n as int, b as int),
        idx == 0 ==> r == 0,
{
    let m2: u64 = mode_squared(idx, n);
    if m2 == 0 {
        0
    } else {
        proof {
            assert(0 < 4 * (PI2_FX as int) * (m2 as int) < 0x1_0000_0000_0000)
                by (nonlinear_arith)
                requires
                    0 < m2 <= 3145728,
                    PI2_FX == 646859,
            ;
            assert(0 <= (b as int) * (b as int) <= BOX_MAX * BOX_MAX) by (nonlinear_arith)
                requires
                    1 <= b <= BOX_MAX,
            ;
        }
        let denom: i128 = 4 * (PI2_FX as i128) * (m2 as i128);
        let num: i128 = (b as i128) * (b as i128);
        let q: i128 = div_trunc(num, denom);
        proof {
            crate::fixed::lemma_tdiv_le(num as int, denom as int);
        }
        sat64(-q)
    }
}

} // verus!
