//! Dense three-dimensional grids of scalar samples in row-major order, and
//! two-dimensional cross-sections taken from them.

use crate::DIM_LIMIT;
use vstd::arithmetic::div_mod::lemma_fundamental_div_mod_converse;
use vstd::prelude::*;

verus! {

/// Row-major flat position of grid coordinate `(i, j, k)` in a grid of
/// dimensions `dims`.
pub open spec fn flat_index(dims: [usize; 3], i: int, j: int, k: int) -> int {
    (i * dims[1] + j) * dims[2] + k
}

/// The flat position of an in-range coordinate lies within the grid.
pub proof fn lemma_flat_index_range(dims: [usize; 3], i: int, j: int, k: int)
    requires
        0 <= i < dims[0],
        0 <= j < dims[1],
        0 <= k < dims[2],
    ensures
        0 <= flat_index(dims, i, j, k) < (dims[0] as int) * (dims[1] as int) * (dims[2] as int),
{
    assert(0 <= (i * dims[1] + j) * dims[2] + k < (dims[0] as int) * (dims[1] as int) * (
    dims[2] as int)) by (nonlinear_arith)
        requires
            0 <= i < dims[0],
            0 <= j < dims[1],
            0 <= k < dims[2],
    ;
}

/// Distinct in-range coordinates occupy distinct flat positions.
pub proof fn lemma_flat_index_injective(dims: [usize; 3], i1: int, j1: int, k1: int, i2: int, j2: int, k2: int)
    requires
        0 <= i1 < dims[0],
        0 <= j1 < dims[1],
        0 <= k1 < dims[2],
        0 <= i2 < dims[0],
        0 <= j2 < dims[1],
        0 <= k2 < dims[2],
        flat_index(dims, i1, j1, k1) == flat_index(dims, i2, j2, k2),
    ensures
        i1 == i2 && j1 == j2 && k1 == k2,
{
    let d1 = dims[1] as int;
    let d2 = dims[2] as int;
    let f = flat_index(dims, i1, j1, k1);
    lemma_fundamental_div_mod_converse(f, d2, i1 * d1 + j1, k1);
    lemma_fundamental_div_mod_converse(f, d2, i2 * d1 + j2, k2);
    assert(i1 * d1 + j1 == i2 * d1 + j2);
    lemma_fundamental_div_mod_converse(i1 * d1 + j1, d1, i1, j1);
    lemma_fundamental_div_mod_converse(i1 * d1 + j1, d1, i2, j2);
}

/// A dense three-dimensional grid of samples, stored row-major: the last
/// axis varies fastest.
pub struct Volume<T> {
    pub dims: [usize; 3],
    pub data: Vec<T>,
}

impl<T> Volume<T> {
    /// Well-formedness: positive dimensions within `DIM_LIMIT`, and exactly
    /// one stored sample per grid cell.
    pub open spec fn wf(self) -> bool {
        &&& 1 <= self.dims[0] <= DIM_LIMIT
        &&& 1 <= self.dims[1] <= DIM_LIMIT
        &&& 1 <= self.dims[2] <= DIM_LIMIT
        &&& self.data@.len() == (self.dims[0] as int) * (self.dims[1] as int) * (
        self.dims[2] as int)
    }

    /// The sample at grid coordinate `(i, j, k)`.
    pub open spec fn at(self, i: int, j: int, k: int) -> T {
        self.data@[flat_index(self.dims, i, j, k)]
    }

    /// Wraps a row-major sample vector as a grid of the given dimensions.
    /// Returns nothing when a dimension is zero or above `DIM_LIMIT`, or
    /// when the sample count does not match the dimensions.
    pub fn new(dims: [usize; 3], data: Vec<T>) -> (r: Option<Volume<T>>)
        ensures
            r is Some <==> {
                &&& 1 <= dims[0] <= DIM_LIMIT
                &&& 1 <= dims[1] <= DIM_LIMIT
                &&& 1 <= dims[2] <= DIM_LIMIT
                &&& data@.len() == (dims[0] as int) * (dims[1] as int) * (dims[2] as int)
            },
            r matches Some(v) ==> v.dims == dims && v.data@ == data@ && v.wf(),
    {
        if !(1 <= dims[0] && dims[0] <= DIM_LIMIT && 1 <= dims[1] && dims[1] <= DIM_LIMIT && 1
            <= dims[2] && dims[2] <= DIM_LIMIT) {
            return None;
        }
        let n = data.len();
        let d01 = match dims[0].checked_mul(dims[1]) {
            Some(p) => p,
            None => {
                proof {
                    assert(n < (dims[0] as int) * (dims[1] as int) * (dims[2] as int))
                        by (nonlinear_arith)
                        requires
                            n <= usize::MAX,
                            (dims[0] as int) * (dims[1] as int) > usize::MAX,
                            dims[2] >= 1,
                    ;
                }
                return None;
            },
        };
        let d012 = match d01.checked_mul(dims[2]) {
            Some(p) => p,
            None => {
                proof {
                    assert((dims[0] as int) * (dims[1] as int) * (dims[2] as int) == (
                    d01 as int) * (dims[2] as int));
                }
                return None;
            },
        };
        if n != d012 {
            proof {
                assert((dims[0] as int) * (dims[1] as int) * (dims[2] as int) == d012 as int);
            }
            return None;
        }
        Some(Volume { dims, data })
    }

    /// The voxel count along the given axis.
    pub fn dim(&self, axis: usize) -> (n: usize)
        requires
            axis < 3,
        ensures
            n == self.dims[axis as int],
    {
        self.dims[axis]
    }
}

impl<T: Copy> Volume<T> {
    /// Reads the sample at grid coordinate `(i, j, k)`.
    pub fn get(&self, i: usize, j: usize, k: usize) -> (v: T)
        requires
            self.wf(),
            i < self.dims[0],
            j < self.dims[1],
            k < self.dims[2],
        ensures
            v == self.at(i as int, j as int, k as int),
    {
        let n = self.data.len();
        proof {
            lemma_flat_index_range(self.dims, i as int, j as int, k as int);
            assert((i as int) * (self.dims[1] as int) + (j as int) < (self.dims[0] as int) * (
            self.dims[1] as int)) by (nonlinear_arith)
                requires
                    i < self.dims[0],
                    j < self.dims[1],
            ;
            assert((self.dims[0] as int) * (self.dims[1] as int) <= (self.dims[0] as int) * (
            self.dims[1] as int) * (self.dims[2] as int)) by (nonlinear_arith)
                requires
                    1 <= self.dims[2],
                    0 <= (self.dims[0] as int) * (self.dims[1] as int),
            ;
        }
        let f: usize = (i * self.dims[1] + j) * self.dims[2] + k;
        self.data[f]
    }
}

/// A dense two-dimensional cross-section, stored row-major.
pub struct Slice2<T> {
    pub rows: usize,
    pub cols: usize,
    pub data: Vec<T>,
}

impl<T> Slice2<T> {
    /// Well-formedness: one stored sample per cell.
    pub open spec fn wf(self) -> bool {
        self.data@.len() == (self.rows as int) * (self.cols as int)
    }

    /// The sample at row `r`, column `c`.
    pub open spec fn at(self, r: int, c: int) -> T {
        self.data@[r * self.cols + c]
    }
}

/// The flat position of an in-range cell lies within the section, and
/// distinct cells occupy distinct positions.
pub proof fn lemma_slice2_index(cols: int, r1: int, c1: int, r2: int, c2: int)
    requires
        0 <= c1 < cols,
        0 <= c2 < cols,
        0 <= r1,
        0 <= r2,
        r1 * cols + c1 == r2 * cols + c2,
    ensures
        r1 == r2 && c1 == c2,
{
    lemma_fundamental_div_mod_converse(r1 * cols + c1, cols, r1, c1);
    lemma_fundamental_div_mod_converse(r1 * cols + c1, cols, r2, c2);
}

} // verus!
