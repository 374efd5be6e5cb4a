//! The header record of a volumetric scan, reduced to the fields that govern
//! orientation, with all physical quantities in fixed-point units.

use crate::fixed::abs_val;
use crate::COORD_LIMIT;
use crate::QUAT_LIMIT;
use crate::SPACING_LIMIT;
use vstd::prelude::*;

verus! {

/// Orientation-bearing fields of a scan header.
///
/// `srow_x/y/z` are the rows of the full voxel-to-world affine (fourth entry
/// the translation); `quatern_b/c/d` the imaginary quaternion components and
/// `quatern_x/y/z` the translation under the quaternion encoding; `pixdim[0]`
/// carries the handedness sign flag (negative means a flipped third axis)
/// and `pixdim[1..=3]` the per-axis voxel spacings.
#[derive(Clone, Copy, Debug)]
pub struct Header {
    pub sform_code: i16,
    pub qform_code: i16,
    pub srow_x: [i64; 4],
    pub srow_y: [i64; 4],
    pub srow_z: [i64; 4],
    pub quatern_b: i64,
    pub quatern_c: i64,
    pub quatern_d: i64,
    pub quatern_x: i64,
    pub quatern_y: i64,
    pub quatern_z: i64,
    pub pixdim: [i64; 4],
}

/// Tests whether a value lies within a symmetric magnitude limit.
fn within(v: i64, lim: i64) -> (r: bool)
    requires
        0 <= lim,
    ensures
        r == (abs_val(v as int) <= lim),
{
    -lim <= v && v <= lim
}

/// Tests whether every entry of an affine row lies within `COORD_LIMIT`.
fn row_within_limit(row: &[i64; 4]) -> (r: bool)
    ensures
        r == forall|j: int| 0 <= j < 4 ==> abs_val(#[trigger] row[j] as int) <= COORD_LIMIT,
{
    let r = within(row[0], COORD_LIMIT) && within(row[1], COORD_LIMIT) && within(
        row[2],
        COORD_LIMIT,
    ) && within(row[3], COORD_LIMIT);
    assert(r == forall|j: int| 0 <= j < 4 ==> abs_val(#[trigger] row[j] as int) <= COORD_LIMIT)
        by {
        if r {
            assert forall|j: int| 0 <= j < 4 implies abs_val(#[trigger] row[j] as int)
                <= COORD_LIMIT by {
                if j == 0 {
                } else if j == 1 {
                } else if j == 2 {
                } else {
                    assert(j == 3);
                }
            }
        }
    }
    r
}

impl Header {
    /// Well-formedness: every field within the magnitude limits that keep the
    /// fixed-point pipeline free of overflow, and strictly positive spacings.
    pub open spec fn wf(self) -> bool {
        &&& forall|j: int|
            0 <= j < 4 ==> abs_val(#[trigger] self.srow_x[j] as int) <= COORD_LIMIT
        &&& forall|j: int|
            0 <= j < 4 ==> abs_val(#[trigger] self.srow_y[j] as int) <= COORD_LIMIT
        &&& forall|j: int|
            0 <= j < 4 ==> abs_val(#[trigger] self.srow_z[j] as int) <= COORD_LIMIT
        &&& abs_val(self.quatern_b as int) <= QUAT_LIMIT
        &&& abs_val(self.quatern_c as int) <= QUAT_LIMIT
        &&& abs_val(self.quatern_d as int) <= QUAT_LIMIT
        &&& abs_val(self.quatern_x as int) <= COORD_LIMIT
        &&& abs_val(self.quatern_y as int) <= COORD_LIMIT
        &&& abs_val(self.quatern_z as int) <= COORD_LIMIT
        &&& abs_val(self.pixdim[0] as int) <= COORD_LIMIT
        &&& 1 <= self.pixdim[1] <= SPACING_LIMIT
        &&& 1 <= self.pixdim[2] <= SPACING_LIMIT
        &&& 1 <= self.pixdim[3] <= SPACING_LIMIT
    }

    /// Checks the well-formedness bounds on concrete field values.
    pub fn check_wf(&self) -> (ok: bool)
        ensures
            ok == self.wf(),
    {
        let rows_ok = row_within_limit(&self.srow_x) && row_within_limit(&self.srow_y)
            && row_within_limit(&self.srow_z);
        rows_ok && within(self.quatern_b, QUAT_LIMIT) && within(self.quatern_c, QUAT_LIMIT)
            && within(self.quatern_d, QUAT_LIMIT) && within(self.quatern_x, COORD_LIMIT)
            && within(self.quatern_y, COORD_LIMIT) && within(self.quatern_z, COORD_LIMIT)
            && within(self.pixdim[0], COORD_LIMIT) && 1 <= self.pixdim[1]
            && self.pixdim[1] <= SPACING_LIMIT && 1 <= self.pixdim[2]
            && self.pixdim[2] <= SPACING_LIMIT && 1 <= self.pixdim[3]
            && self.pixdim[3] <= SPACING_LIMIT
    }
}

/// Which of the three mutually exclusive encodings governs orientation.
#[derive(Clone, Copy, Debug, PartialEq, Eq, Structural)]
pub enum OrientationSource {
    Sform,
    Qform,
    SpacingOnly,
}

/// The encoding that governs a header: the full affine when its code is
/// positive, else the quaternion when its code is positive, else spacing
/// alone.
pub open spec fn source_of(h: Header) -> OrientationSource {
    if h.sform_code > 0 {
        OrientationSource::Sform
    } else if h.qform_code > 0 {
        OrientationSource::Qform
    } else {
        OrientationSource::SpacingOnly
    }
}

/// Selects the governing orientation encoding of a header.
pub fn orientation_source(h: &Header) -> (s: OrientationSource)
    ensures
        s == source_of(*h),
{
    if h.sform_code > 0 {
        OrientationSource::Sform
    } else if h.qform_code > 0 {
        OrientationSource::Qform
    } else {
        OrientationSource::SpacingOnly
    }
}

} // verus!
