//! Orthogonal two-dimensional cross-sections of a canonical grid, and the
//! presentation transform that readies one for on-screen display.

use crate::volume::lemma_slice2_index;
use crate::volume::Slice2;
use crate::volume::Volume;
use vstd::prelude::*;

verus! {

/// The grid sample that cell `(r, c)` of the cross-section fixing `axis` at
/// `fixed` reads: the fixed coordinate is inserted at `axis`, the remaining
/// coordinates keep their grid order.
pub open spec fn section_cell<T>(vol: Volume<T>, axis: int, fixed: int, r: int, c: int) -> T {
    if axis == 0 {
        vol.at(fixed, r, c)
    } else if axis == 1 {
        vol.at(r, fixed, c)
    } else {
        vol.at(r, c, fixed)
    }
}

/// The row count of the cross-section fixing `axis`: the first remaining
/// grid dimension.
pub open spec fn section_rows<T>(vol: Volume<T>, axis: int) -> int {
    if axis == 0 {
        vol.dims[1] as int
    } else {
        vol.dims[0] as int
    }
}

/// The column count of the cross-section fixing `axis`: the second remaining
/// grid dimension.
pub open spec fn section_cols<T>(vol: Volume<T>, axis: int) -> int {
    if axis == 2 {
        vol.dims[1] as int
    } else {
        vol.dims[2] as int
    }
}

/// Copies the two-dimensional cross-section of the grid that holds `axis`
/// fixed at `fixed`.
pub fn slice_at<T: Copy>(vol: &Volume<T>, axis: usize, fixed: usize) -> (s: Slice2<T>)
    requires
        vol.wf(),
        axis < 3,
        fixed < vol.dims[axis as int],
    ensures
        s.wf(),
        s.rows as int == section_rows(*vol, axis as int),
        s.cols as int == section_cols(*vol, axis as int),
        forall|r: int, c: int|
            0 <= r < s.rows && 0 <= c < s.cols ==> #[trigger] s.at(r, c) == section_cell(
                *vol,
                axis as int,
                fixed as int,
                r,
                c,
            ),
{
    let rows: usize = if axis == 0 {
        vol.dims[1]
    } else {
        vol.dims[0]
    };
    let cols: usize = if axis == 2 {
        vol.dims[1]
    } else {
        vol.dims[2]
    };
    let mut data: Vec<T> = Vec::new();
    let mut r: usize = 0;
    proof {
        assert((r as int) * (cols as int) == 0) by (nonlinear_arith)
            requires
                r == 0,
        ;
    }
    while r < rows
        invariant
            vol.wf(),
            axis < 3,
            fixed < vol.dims[axis as int],
            rows as int == section_rows(*vol, axis as int),
            cols as int == section_cols(*vol, axis as int),
            r <= rows,
            data@.len() == (r as int) * (cols as int),
            forall|r2: int, c2: int|
                0 <= r2 < rows && 0 <= c2 < cols && r2 * cols + c2 < data@.len()
                    ==> #[trigger] data@[r2 * cols + c2] == section_cell(
                    *vol,
                    axis as int,
                    fixed as int,
                    r2,
                    c2,
                ),
        decreases rows - r,
    {
        let mut c: usize = 0;
        while c < cols
            invariant
                vol.wf(),
                axis < 3,
                fixed < vol.dims[axis as int],
                rows as int == section_rows(*vol, axis as int),
                cols as int == section_cols(*vol, axis as int),
                r < rows,
                c <= cols,
                data@.len() == (r as int) * (cols as int) + c,
                forall|r2: int, c2: int|
                    0 <= r2 < rows && 0 <= c2 < cols && r2 * cols + c2 < data@.len()
                        ==> #[trigger] data@[r2 * cols + c2] == section_cell(
                        *vol,
                        axis as int,
                        fixed as int,
                        r2,
                        c2,
                    ),
            decreases cols - c,
        {
            let val = if axis == 0 {
                vol.get(fixed, r, c)
            } else if axis == 1 {
                vol.get(r, fixed, c)
            } else {
                vol.get(r, c, fixed)
            };
            data.push(val);
            proof {
                assert forall|r2: int, c2: int|
                    0 <= r2 < rows && 0 <= c2 < cols && r2 * cols + c2 < data@.len()
                    implies #[trigger] data@[r2 * cols + c2] == section_cell(
                    *vol,
                    axis as int,
                    fixed as int,
                    r2,
                    c2,
                ) by {
                    if r2 * cols + c2 == data@.len() - 1 {
                        lemma_slice2_index(cols as int, r2, c2, r as int, c as int);
                    }
                }
            }
            c += 1;
        }
        proof {
            assert((r as int) * (cols as int) + cols == ((r as int) + 1) * (cols as int))
                by (nonlinear_arith);
        }
        r += 1;
    }
    let s = Slice2 { rows, cols, data };
    proof {
        assert forall|r2: int, c2: int| 0 <= r2 < s.rows && 0 <= c2 < s.cols implies #[trigger] s.at(
            r2,
            c2,
        ) == section_cell(*vol, axis as int, fixed as int, r2, c2) by {
            assert(r2 * cols + c2 < (rows as int) * (cols as int)) by (nonlinear_arith)
                requires
                    0 <= r2 < rows,
                    0 <= c2 < cols,
            ;
        }
    }
    s
}

impl<T: Copy> Slice2<T> {
    /// Reads the sample at row `r`, column `c`.
    pub fn get(&self, r: usize, c: usize) -> (v: T)
        requires
            self.wf(),
            r < self.rows,
            c < self.cols,
        ensures
            v == self.at(r as int, c as int),
    {
        let n = self.data.len();
        proof {
            assert((r as int) * (self.cols as int) + c < (self.rows as int) * (
            self.cols as int)) by (nonlinear_arith)
                requires
                    r < self.rows,
                    c < self.cols,
            ;
        }
        let f: usize = r * self.cols + c;
        self.data[f]
    }

    /// The cross-section readied for display: transposed, then both axes
    /// reversed, putting the far end of each original axis at the top left.
    pub fn presented(&self) -> (p: Slice2<T>)
        requires
            self.wf(),
        ensures
            p.wf(),
            p.rows == self.cols,
            p.cols == self.rows,
            forall|r: int, c: int|
                0 <= r < p.rows && 0 <= c < p.cols ==> #[trigger] p.at(r, c) == self.at(
                    self.rows - 1 - c,
                    self.cols - 1 - r,
                ),
    {
        let rows = self.cols;
        let cols = self.rows;
        let mut data: Vec<T> = Vec::new();
        let mut r: usize = 0;
        proof {
            assert((r as int) * (cols as int) == 0) by (nonlinear_arith)
                requires
                    r == 0,
            ;
        }
        while r < rows
            invariant
                self.wf(),
                rows == self.cols,
                cols == self.rows,
                r <= rows,
                data@.len() == (r as int) * (cols as int),
                forall|r2: int, c2: int|
                    0 <= r2 < rows && 0 <= c2 < cols && r2 * cols + c2 < data@.len()
                        ==> #[trigger] data@[r2 * cols + c2] == self.at(
                        self.rows - 1 - c2,
                        self.cols - 1 - r2,
                    ),
            decreases rows - r,
        {
            let mut c: usize = 0;
            while c < cols
                invariant
                    self.wf(),
                    rows == self.cols,
                    cols == self.rows,
                    r < rows,
                    c <= cols,
                    data@.len() == (r as int) * (cols as int) + c,
                    forall|r2: int, c2: int|
                        0 <= r2 < rows && 0 <= c2 < cols && r2 * cols + c2 < data@.len()
                            ==> #[trigger] data@[r2 * cols + c2] == self.at(
                            self.rows - 1 - c2,
                            self.cols - 1 - r2,
                        ),
                decreases cols - c,
            {
                let val = self.get(self.rows - 1 - c, self.cols - 1 - r);
                data.push(val);
                proof {
                    assert forall|r2: int, c2: int|
                        0 <= r2 < rows && 0 <= c2 < cols && r2 * cols + c2 < data@.len()
                        implies #[trigger] data@[r2 * cols + c2] == self.at(
                        self.rows - 1 - c2,
                        self.cols - 1 - r2,
                    ) by {
                        if r2 * cols + c2 == data@.len() - 1 {
                            lemma_slice2_index(cols as int, r2, c2, r as int, c as int);
                        }
                    }
                }
                c += 1;
            }
            proof {
                assert((r as int) * (cols as int) + cols == ((r as int) + 1) * (cols as int))
                    by (nonlinear_arith);
            }
            r += 1;
        }
        let p = Slice2 { rows, cols, data };
        proof {
            assert forall|r2: int, c2: int|
                0 <= r2 < p.rows && 0 <= c2 < p.cols implies #[trigger] p.at(r2, c2) == self.at(
                self.rows - 1 - c2,
                self.cols - 1 - r2,
            ) by {
                assert(r2 * cols + c2 < (rows as int) * (cols as int)) by (nonlinear_arith)
                    requires
                        0 <= r2 < rows,
                        0 <= c2 < cols,
                ;
            }
        }
        p
    }
}

} // verus!
