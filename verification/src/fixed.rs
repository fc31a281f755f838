use vstd::prelude::*;
use vstd::arithmetic::div_mod::{
    lemma_fundamental_div_mod, lemma_fundamental_div_mod_converse, lemma_mod_self_0,
};

verus! {

/// Number of fixed-point units that make up the real value 1.0.
///
/// Every physical quantity in this crate (length, mass, velocity, force,
/// potential, time) is an integer count of units of 1/FX, so that all
/// arithmetic is exact integer arithmetic.
pub const FX: i64 = 65536;

/// FX squared, the scale of a product of two fixed-point values.
pub const FX2: i64 = 4294967296;

/// FX cubed, the scale of a product of three fixed-point values
/// (in particular of a trilinear interpolation weight).
pub const FX3: i64 = 281474976710656;

/// Largest box side length the crate accepts, in fixed-point units
/// (2^40 units, a real side length of 2^24).
pub const BOX_MAX: i64 = 1099511627776;

/// Largest mass of a single particle, in fixed-point units
/// (2^24 units, a real mass of 256).
pub const MASS_MAX: i64 = 16777216;

/// Largest number of particles in one set.  Together with MASS_MAX this
/// keeps every mass sum inside the wide integer range.
pub const MAX_PARTICLES: usize = 4194304;

/// Truncated division (rounding toward zero), defined for b > 0.
/// This is the semantics of machine division on signed integers.
pub open spec fn tdiv(a: int, b: int) -> int {
    if a >= 0 {
        a / b
    } else {
        -((-a) / b)
    }
}

/// Saturation of an arbitrary integer into the range of i64.
pub open spec fn sat_i64(x: int) -> int {
    if x > i64::MAX {
        i64::MAX as int
    } else if x < i64::MIN {
        i64::MIN as int
    } else {
        x
    }
}

/// Saturating conversion of a wide intermediate value into i64.
pub fn sat64(x: i128) -> (r: i64)
    ensures
        r == sat_i64(x as int),
{
    if x > i64::MAX as i128 {
        i64::MAX
    } else if x < i64::MIN as i128 {
        i64::MIN
    } else {
        x as i64
    }
}

/// A quotient is below n as soon as the dividend is below b * n.
pub proof fn lemma_div_below(a: int, b: int, n: int)
    requires
        b > 0,
        0 <= a < b * n,
    ensures
        0 <= a / b < n,
{
    lemma_fundamental_div_mod(a, b);
    assert(a / b >= 0) by (nonlinear_arith)
        requires
            b > 0,
            a >= 0,
            a == b * (a / b) + a % b,
            0 <= a % b < b,
    ;
    assert(a / b < n) by (nonlinear_arith)
        requires
            b > 0,
            a < b * n,
            a == b * (a / b) + a % b,
            0 <= a % b < b,
    ;
}

/// Truncated division of a wide value by a positive divisor.
pub fn div_trunc(a: i128, b: i128) -> (r: i128)
    requires
        b > 0,
        a > i128::MIN,
    ensures
        r == tdiv(a as int, b as int),
{
    if a >= 0 {
        let q: u128 = (a as u128) / (b as u128);
        proof {
            lemma_div_below(a as int, b as int, i128::MAX as int + 1);
        }
        q as i128
    } else {
        let m: u128 = (-a) as u128;
        let q: u128 = m / (b as u128);
        proof {
            lemma_div_below(m as int, b as int, i128::MAX as int + 1);
        }
        -(q as i128)
    }
}

/// Euclidean remainder of a wide value by a positive divisor: the result
/// is always in [0, b), which is what periodic wrapping needs.
pub fn rem_euclid_fx(x: i128, b: i64) -> (r: i64)
    requires
        b > 0,
        x > i128::MIN,
    ensures
        r == (x as int) % (b as int),
        0 <= r < b,
{
    if x >= 0 {
        let r: u128 = (x as u128) % (b as u128);
        r as i64
    } else {
        let m: u128 = ((-x) as u128) % (b as u128);
        proof {
            let q = (-x as int) / (b as int);
            lemma_fundamental_div_mod(-x as int, b as int);
            if m == 0 {
                assert(x as int == (b as int) * (-q) + 0) by (nonlinear_arith)
                    requires
                        -x as int == (b as int) * q + (m as int),
                        m == 0,
                ;
                lemma_fundamental_div_mod_converse(x as int, b as int, -q, 0);
            } else {
                assert(x as int == (b as int) * (-q - 1) + ((b - m) as int)) by (nonlinear_arith)
                    requires
                        -x as int == (b as int) * q + (m as int),
                ;
                lemma_fundamental_div_mod_converse(
                    x as int,
                    b as int,
                    -q - 1,
                    (b - m) as int,
                );
            }
        }
        if m == 0 {
            0
        } else {
            b - (m as i64)
        }
    }
}

/// Exact product of two machine integers in the wide type.
pub fn mul_i64(a: i64, b: i64) -> (r: i128)
    ensures
        r == a as int * b as int,
        -0x4000_0000_0000_0000_0000_0000_0000_0000 < r
            <= 0x4000_0000_0000_0000_0000_0000_0000_0000,
{
    proof {
        assert(-0x4000_0000_0000_0000_0000_0000_0000_0000 < (a as int) * (b as int)
            <= 0x4000_0000_0000_0000_0000_0000_0000_0000) by (nonlinear_arith)
            requires
                i64::MIN <= a <= i64::MAX,
                i64::MIN <= b <= i64::MAX,
        ;
    }
    (a as i128) * (b as i128)
}

/// A truncated quotient never exceeds the dividend in magnitude when the
/// divisor is at least one.
pub proof fn lemma_tdiv_le(a: int, b: int)
    requires
        b >= 1,
    ensures
        a >= 0 ==> 0 <= tdiv(a, b) <= a,
        a < 0 ==> a <= tdiv(a, b) <= 0,
{
    if a >= 0 {
        assert(a < b * (a + 1)) by (nonlinear_arith)
            requires
                b >= 1,
                a >= 0,
        ;
        lemma_div_below(a, b, a + 1);
    } else {
        assert(-a < b * (-a + 1)) by (nonlinear_arith)
            requires
                b >= 1,
                a < 0,
        ;
        lemma_div_below(-a, b, -a + 1);
    }
}

/// Fixed-point multiplication: the real product of a and b, truncated
/// toward zero to the fixed-point lattice and saturated into i64.
pub fn fx_mul(a: i64, b: i64) -> (r: i64)
    ensures
        r == sat_i64(tdiv(a as int * b as int, FX as int)),
{
    proof {
        assert(-0x4000_0000_0000_0000_0000_0000_0000_0000 < (a as int) * (b as int)
            <= 0x4000_0000_0000_0000_0000_0000_0000_0000) by (nonlinear_arith)
            requires
                i64::MIN <= a <= i64::MAX,
                i64::MIN <= b <= i64::MAX,
        ;
    }
    let wide: i128 = (a as i128) * (b as i128);
    let q: i128 = div_trunc(wide, FX as i128);
    sat64(q)
}

/// Integer square root: the largest r with r * r <= x.
pub fn isqrt(x: u64) -> (r: u64)
    ensures
        r * r <= x,
        (r + 1) * (r + 1) > x,
{
    let mut lo: u64 = 0;
    let mut hi: u64 = 4294967296;
    // Invariant: lo * lo <= x < hi * hi; answer lies in [lo, hi).
    while lo + 1 < hi
        invariant
            lo < hi,
            hi <= 4294967296,
            lo * lo <= x,
            (hi as int) * (hi as int) > x,
        decreases hi - lo,
    {
        let mid: u64 = lo + (hi - lo) / 2;
        if mid <= 4294967295 {
            proof {
                assert((mid as int) * (mid as int) <= u64::MAX) by (nonlinear_arith)
                    requires
                        mid <= 4294967295,
                ;
            }
            if mid * mid <= x {
                lo = mid;
            } else {
                hi = mid;
            }
        } else {
            proof {
                assert((mid as int) * (mid as int) > x) by (nonlinear_arith)
                    requires
                        mid > 4294967295,
                        x <= u64::MAX,
                ;
            }
            hi = mid;
        }
    }
    lo
}

} // verus!
