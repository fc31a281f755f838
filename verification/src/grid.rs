use vstd::prelude::*;
use crate::fixed::{BOX_MAX, FX};
use crate::geom::MAX_RES;

verus! {

/// A vector of a given length holding only zeros.
pub fn zero_vec_i64(len: usize) -> (out: Vec<i64>)
    ensures
        out@.len() == len,
        forall|c: int| 0 <= c < len ==> out@[c] == 0,
{
    let mut out: Vec<i64> = Vec::new();
    let mut z: usize = 0;
    while z < len
        invariant
            out@.len() == z <= len,
            forall|c: int| 0 <= c < z ==> out@[c] == 0,
        decreases len - z,
    {
        out.push(0);
        z = z + 1;
    }
    out
}

/// The mesh of the Particle-Mesh gravity solve: an n-per-axis cube of
/// cells with a density contrast field and a potential field, both
/// row-major flattened, both fixed-point at scale FX.
pub struct Grid {
    /// Number of grid cells along one axis.
    pub resolution: usize,
    /// Side length of the simulation box, fixed-point at scale FX.
    pub box_size: i64,
    /// Density contrast (density over mean density, minus one) per cell.
    pub density_contrast: Vec<i64>,
    /// Gravitational potential per cell.
    pub potential: Vec<i64>,
}

impl Grid {
    /// A grid is well formed when its resolution and box side are in
    /// range and both fields cover exactly the n^3 cells.
    pub open spec fn wf(&self) -> bool {
        &&& 0 < self.resolution <= MAX_RES
        &&& 1 <= self.box_size <= BOX_MAX
        &&& self.density_contrast@.len() == self.resolution * self.resolution
            * self.resolution
        &&& self.potential@.len() == self.resolution * self.resolution * self.resolution
    }

    /// Number of cells of the grid.
    pub open spec fn cells(&self) -> int {
        self.resolution * self.resolution * self.resolution
    }

    /// A fresh grid with both fields zeroed.
    pub fn new(resolution: usize, box_size: i64) -> (r: Grid)
        requires
            0 < resolution <= MAX_RES,
            1 <= box_size <= BOX_MAX,
        ensures
            r.wf(),
            r.resolution == resolution,
            r.box_size == box_size,
            forall|c: int| 0 <= c < r.cells() ==> r.density_contrast@[c] == 0,
            forall|c: int| 0 <= c < r.cells() ==> r.potential@[c] == 0,
    {
        proof {
            assert(resolution * (resolution * resolution) == resolution * resolution
                * resolution && resolution * resolution * resolution <= 0x4000_0000
                && resolution * resolution <= 0x10_0000)
                by (nonlinear_arith)
                requires
                    0 < resolution <= MAX_RES,
            ;
        }
        let cells: usize = resolution * (resolution * resolution);
        Grid {
            resolution,
            box_size,
            density_contrast: zero_vec_i64(cells),
            potential: zero_vec_i64(cells),
        }
    }

    /// Zero the density contrast field; done at the start of each step.
    pub fn clear_density(&mut self)
        requires
            old(self).wf(),
        ensures
            final(self).wf(),
            final(self).resolution == old(self).resolution,
            final(self).box_size == old(self).box_size,
            final(self).potential@ == old(self).potential@,
            final(self).density_contrast@.len() == old(self).density_contrast@.len(),
            forall|c: int|
                0 <= c < final(self).density_contrast@.len() ==> final(self).density_contrast@[c] == 0,
    {
        let len = self.density_contrast.len();
        self.density_contrast = zero_vec_i64(len);
    }

    /// Install a solved potential field.
    pub fn set_potential(&mut self, pot: Vec<i64>)
        requires
            old(self).wf(),
            pot@.len() == old(self).potential@.len(),
        ensures
            final(self).wf(),
            final(self).resolution == old(self).resolution,
            final(self).box_size == old(self).box_size,
            final(self).density_contrast@ == old(self).density_contrast@,
            final(self).potential@ == pot@,
    {
        self.potential = pot;
    }
}

} // verus!
