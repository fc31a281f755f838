use vstd::prelude::*;
use crate::fixed::{lemma_div_below, BOX_MAX, FX, FX2, FX3};
use crate::geom::MAX_RES;

verus! {

/// Base cell index of a position along one axis: the whole part of
/// position / cell_size, where cell_size = box / n.
pub open spec fn axis_coord(pos: int, b: int, n: int) -> int {
    (pos * n) / b
}

/// Fractional offset of a position inside its base cell, at scale FX:
/// the fractional part of position / cell_size, truncated to the
/// fixed-point lattice.  Always in [0, FX).
pub open spec fn axis_frac(pos: int, b: int, n: int) -> int {
    (((pos * n) % b) * FX) / b
}

/// Base cell index and fractional offset of one position component.
pub fn cell_coord(pos: i64, b: i64, n: usize) -> (r: (usize, i64))
    requires
        0 <= pos < b,
        1 <= b <= BOX_MAX,
        0 < n <= MAX_RES,
    ensures
        r.0 == axis_coord(pos as int, b as int, n as int),
        r.1 == axis_frac(pos as int, b as int, n as int),
        r.0 < n,
        0 <= r.1 < FX,
{
    proof {
        assert(0 <= (pos as int) * (n as int) < (b as int) * (n as int) <= BOX_MAX * MAX_RES)
            by (nonlinear_arith)
            requires
                0 <= pos < b <= BOX_MAX,
                0 < n <= MAX_RES,
        ;
    }
    let t: u128 = (pos as u128) * (n as u128);
    let q: u128 = t / (b as u128);
    let rem: u128 = t % (b as u128);
    proof {
        lemma_div_below(t as int, b as int, n as int);
        assert((rem as int) * (FX as int) < (b as int) * (FX as int)) by (nonlinear_arith)
            requires
                0 <= rem < b,
                FX > 0,
        ;
    }
    let dx: u128 = (rem * (FX as u128)) / (b as u128);
    proof {
        lemma_div_below(rem as int * FX as int, b as int, FX as int);
    }
    (q as usize, dx as i64)
}

/// The eight trilinear corner weights of fractional offsets (dx, dy, dz),
/// at scale FX^3, in the corner order
/// (0,0,0), (1,0,0), (0,1,0), (0,0,1), (1,1,0), (1,0,1), (0,1,1), (1,1,1).
pub open spec fn corner_weight(dx: int, dy: int, dz: int, j: int) -> int {
    if j == 0 {
        (FX - dx) * (FX - dy) * (FX - dz)
    } else if j == 1 {
        dx * (FX - dy) * (FX - dz)
    } else if j == 2 {
        (FX - dx) * dy * (FX - dz)
    } else if j == 3 {
        (FX - dx) * (FX - dy) * dz
    } else if j == 4 {
        dx * dy * (FX - dz)
    } else if j == 5 {
        dx * (FX - dy) * dz
    } else if j == 6 {
        (FX - dx) * dy * dz
    } else {
        dx * dy * dz
    }
}

/// However a point splits among the corners of its cell, the eight
/// trilinear weights always sum to exactly one cell's worth of weight.
/// This is an algebraic identity: it holds for all offsets.
pub proof fn lemma_cic_weights_sum(dx: int, dy: int, dz: int)
    ensures
        corner_weight(dx, dy, dz, 0) + corner_weight(dx, dy, dz, 1) + corner_weight(
            dx,
            dy,
            dz,
            2,
        ) + corner_weight(dx, dy, dz, 3) + corner_weight(dx, dy, dz, 4) + corner_weight(
            dx,
            dy,
            dz,
            5,
        ) + corner_weight(dx, dy, dz, 6) + corner_weight(dx, dy, dz, 7) == FX3,
{
    assert((FX - dx) * (FX - dy) * (FX - dz) + dx * (FX - dy) * (FX - dz) + (FX - dx) * dy * (FX
        - dz) + (FX - dx) * (FX - dy) * dz + dx * dy * (FX - dz) + dx * (FX - dy) * dz + (FX
        - dx) * dy * dz + dx * dy * dz == FX * FX * FX) by (nonlinear_arith);
}

/// The four bilinear corner weights of fractional offsets (dx, dy), at
/// scale FX^2, in the corner order (0,0), (1,0), (0,1), (1,1).
pub open spec fn corner_weight2(dx: int, dy: int, j: int) -> int {
    if j == 0 {
        (FX - dx) * (FX - dy)
    } else if j == 1 {
        dx * (FX - dy)
    } else if j == 2 {
        (FX - dx) * dy
    } else {
        dx * dy
    }
}

/// The four bilinear corner weights always sum to exactly one cell's
/// worth of weight, for all offsets.
pub proof fn lemma_cic_weights2_sum(dx: int, dy: int)
    ensures
        corner_weight2(dx, dy, 0) + corner_weight2(dx, dy, 1) + corner_weight2(dx, dy, 2)
            + corner_weight2(dx, dy, 3) == FX2,
{
    assert((FX - dx) * (FX - dy) + dx * (FX - dy) + (FX - dx) * dy + dx * dy == FX * FX)
        by (nonlinear_arith);
}

/// The four bilinear corner weights of (dx, dy), at scale FX^2.
pub fn cic_weights4(dx: i64, dy: i64) -> (w: [i64; 4])
    requires
        0 <= dx < FX,
        0 <= dy < FX,
    ensures
        forall|j: int| 0 <= j < 4 ==> w[j] == corner_weight2(dx as int, dy as int, j),
        forall|j: int| 0 <= j < 4 ==> 0 <= #[trigger] w[j] <= FX2,
        w[0] + w[1] + w[2] + w[3] == FX2,
{
    let cx: i64 = FX - dx;
    let cy: i64 = FX - dy;
    proof {
        assert(forall|a: int, u: int| 0 <= a <= FX && 0 <= u <= FX ==> 0 <= #[trigger] (a * u)
            <= FX * FX) by (nonlinear_arith);
        lemma_cic_weights2_sum(dx as int, dy as int);
    }
    let w: [i64; 4] = [cx * cy, dx * cy, cx * dy, dx * dy];
    w
}

/// The eight trilinear corner weights of (dx, dy, dz), at scale FX^3.
pub fn cic_weights8(dx: i64, dy: i64, dz: i64) -> (w: [i64; 8])
    requires
        0 <= dx < FX,
        0 <= dy < FX,
        0 <= dz < FX,
    ensures
        forall|j: int| 0 <= j < 8 ==> w[j] == corner_weight(dx as int, dy as int, dz as int, j),
        forall|j: int| 0 <= j < 8 ==> 0 <= #[trigger] w[j] <= FX3,
        w[0] + w[1] + w[2] + w[3] + w[4] + w[5] + w[6] + w[7] == FX3,
{
    let cx: i64 = FX - dx;
    let cy: i64 = FX - dy;
    let cz: i64 = FX - dz;
    proof {
        assert(forall|a: int, u: int, c: int|
            0 <= a <= FX && 0 <= u <= FX && 0 <= c <= FX ==> 0 <= #[trigger] (a * u * c) <= FX
                * FX * FX) by (nonlinear_arith);
        assert(forall|a: int, u: int| 0 <= a <= FX && 0 <= u <= FX ==> 0 <= #[trigger] (a * u)
            <= FX * FX) by (nonlinear_arith);
        lemma_cic_weights_sum(dx as int, dy as int, dz as int);
    }
    let w: [i64; 8] = [
        cx * cy * cz,
        dx * cy * cz,
        cx * dy * cz,
        cx * cy * dz,
        dx * dy * cz,
        dx * cy * dz,
        cx * dy * dz,
        dx * dy * dz,
    ];
    w
}

} // verus!
