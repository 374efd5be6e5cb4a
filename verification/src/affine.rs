//! Extraction of the 3×3 direction matrix and the translation vector from a
//! header, under whichever of the three encodings governs it.

use crate::fixed::abs_val;
use crate::fixed::is_sqrt_floor;
use crate::fixed::isqrt64;
use crate::fixed::lemma_mul_abs_bound;
use crate::fixed::lemma_sqrt_floor_unique;
use crate::fixed::lemma_tdiv_bound;
use crate::fixed::sqrt_floor;
use crate::fixed::tdiv;
use crate::fixed::tdiv64;
use crate::header::Header;
use crate::AFFINE_LIMIT;
use crate::COORD_LIMIT;
use crate::QUAT_LIMIT;
use crate::SCALE;
use crate::SPACING_LIMIT;
use vstd::prelude::*;

verus! {

/// Handedness sign of the quaternion encoding: `-1` when `pixdim[0]` is
/// negative, else `+1`.
pub open spec fn qfac_of(h: Header) -> int {
    if h.pixdim[0] < 0 {
        -1
    } else {
        1
    }
}

/// The radicand for the real quaternion component, clamped at zero: in
/// fixed-point units of scale `SCALE * SCALE`, `max(0, 1 - b^2 - c^2 - d^2)`.
pub open spec fn quat_radicand(qb: int, qc: int, qd: int) -> int {
    let t = (SCALE as int) * (SCALE as int) - qb * qb - qc * qc - qd * qd;
    if t < 0 {
        0
    } else {
        t
    }
}

/// The real quaternion component `a`, at scale `SCALE`.
pub open spec fn quat_a(qb: int, qc: int, qd: int) -> int {
    sqrt_floor(quat_radicand(qb, qc, qd))
}

/// Entry `(row, col)` of the quaternion rotation matrix at scale
/// `SCALE * SCALE`: the standard conversion of a unit quaternion
/// `(a, b, c, d)` to its 3×3 rotation matrix, before any rescaling.
pub open spec fn quat_rot_s2(qb: int, qc: int, qd: int, row: int, col: int) -> int {
    let qa = quat_a(qb, qc, qd);
    if row == 0 && col == 0 {
        qa * qa + qb * qb - qc * qc - qd * qd
    } else if row == 0 && col == 1 {
        2 * (qb * qc - qa * qd)
    } else if row == 0 && col == 2 {
        2 * (qb * qd + qa * qc)
    } else if row == 1 && col == 0 {
        2 * (qb * qc + qa * qd)
    } else if row == 1 && col == 1 {
        qa * qa + qc * qc - qb * qb - qd * qd
    } else if row == 1 && col == 2 {
        2 * (qc * qd - qa * qb)
    } else if row == 2 && col == 0 {
        2 * (qb * qd - qa * qc)
    } else if row == 2 && col == 1 {
        2 * (qc * qd + qa * qb)
    } else {
        qa * qa + qd * qd - qb * qb - qc * qc
    }
}

/// Entry `(row, col)` of the quaternion rotation matrix at scale `SCALE`.
pub open spec fn quat_rot(qb: int, qc: int, qd: int, row: int, col: int) -> int {
    tdiv(quat_rot_s2(qb, qc, qd, row, col), SCALE as int)
}

/// The spacing factor applied to column `col` under the quaternion encoding:
/// the voxel spacing of that axis, with the handedness sign on the third.
pub open spec fn qform_col_spacing(h: Header, col: int) -> int {
    if col == 0 {
        h.pixdim[1] as int
    } else if col == 1 {
        h.pixdim[2] as int
    } else {
        (h.pixdim[3] as int) * qfac_of(h)
    }
}

/// Entry `(row, col)` of the direction matrix of a header: column `col` is
/// the world-space displacement per unit step along voxel axis `col`.
pub open spec fn affine_entry(h: Header, row: int, col: int) -> int {
    if h.sform_code > 0 {
        if row == 0 {
            h.srow_x[col] as int
        } else if row == 1 {
            h.srow_y[col] as int
        } else {
            h.srow_z[col] as int
        }
    } else if h.qform_code > 0 {
        tdiv(
            quat_rot(h.quatern_b as int, h.quatern_c as int, h.quatern_d as int, row, col)
                * qform_col_spacing(h, col),
            SCALE as int,
        )
    } else {
        if row == col {
            h.pixdim[col + 1] as int
        } else {
            0
        }
    }
}

/// Component `k` of the translation of a header: the world coordinates of
/// voxel `(0, 0, 0)` under the original voxel ordering.
pub open spec fn translation_entry(h: Header, k: int) -> int {
    if h.sform_code > 0 {
        if k == 0 {
            h.srow_x[3] as int
        } else if k == 1 {
            h.srow_y[3] as int
        } else {
            h.srow_z[3] as int
        }
    } else if h.qform_code > 0 {
        if k == 0 {
            h.quatern_x as int
        } else if k == 1 {
            h.quatern_y as int
        } else {
            h.quatern_z as int
        }
    } else {
        0
    }
}

/// Rescales one rotation entry from scale `SCALE * SCALE` down to `SCALE`
/// and applies the column spacing factor, staying within `AFFINE_LIMIT`.
fn scale_rot_entry(r_s2: i64, p: i64) -> (e: i64)
    requires
        abs_val(r_s2 as int) <= 16_000_000_000_000,
        abs_val(p as int) <= SPACING_LIMIT,
    ensures
        e as int == tdiv(tdiv(r_s2 as int, SCALE as int) * (p as int), SCALE as int),
        abs_val(e as int) <= AFFINE_LIMIT,
{
    proof {
        lemma_tdiv_bound(r_s2 as int, SCALE as int, 16_000_000_000_000);
    }
    let r: i64 = tdiv64(r_s2, SCALE);
    proof {
        lemma_mul_abs_bound(r as int, p as int, 16_000_000, SPACING_LIMIT as int);
        lemma_tdiv_bound(
            (r as int) * (p as int),
            SCALE as int,
            16_000_000 * (SPACING_LIMIT as int),
        );
    }
    let prod: i64 = r * p;
    tdiv64(prod, SCALE)
}

/// Builds the 3×3 direction part of the affine from the governing encoding:
/// the stored affine rows, the quaternion rotation scaled by the spacings,
/// or the diagonal of the spacings.
pub fn get_affine_3x3(hdr: &Header) -> (m: [[i64; 3]; 3])
    requires
        hdr.wf(),
    ensures
        forall|row: int, col: int|
            0 <= row < 3 && 0 <= col < 3 ==> #[trigger] m[row][col] as int == affine_entry(
                *hdr,
                row,
                col,
            ),
        forall|row: int, col: int|
            0 <= row < 3 && 0 <= col < 3 ==> abs_val(#[trigger] m[row][col] as int)
                <= AFFINE_LIMIT,
{
    if hdr.sform_code > 0 {
        [
            [hdr.srow_x[0], hdr.srow_x[1], hdr.srow_x[2]],
            [hdr.srow_y[0], hdr.srow_y[1], hdr.srow_y[2]],
            [hdr.srow_z[0], hdr.srow_z[1], hdr.srow_z[2]],
        ]
    } else if hdr.qform_code > 0 {
        let qb = hdr.quatern_b;
        let qc = hdr.quatern_c;
        let qd = hdr.quatern_d;
        proof {
            lemma_mul_abs_bound(qb as int, qb as int, QUAT_LIMIT as int, QUAT_LIMIT as int);
            lemma_mul_abs_bound(qc as int, qc as int, QUAT_LIMIT as int, QUAT_LIMIT as int);
            lemma_mul_abs_bound(qd as int, qd as int, QUAT_LIMIT as int, QUAT_LIMIT as int);
            assert((qb as int) * (qb as int) >= 0 && (qc as int) * (qc as int) >= 0 && (qd as int)
                * (qd as int) >= 0) by (nonlinear_arith);
        }
        let mut rad: i64 = SCALE * SCALE - qb * qb - qc * qc - qd * qd;
        if rad < 0 {
            rad = 0;
        }
        let qa: i64 = isqrt64(rad);
        proof {
            assert(qa <= 1_000_000 && 0 <= qa) by (nonlinear_arith)
                requires
                    is_sqrt_floor(rad as int, qa as int),
                    rad <= 1_000_000_000_000,
            ;
            lemma_mul_abs_bound(qa as int, qa as int, 1_000_000, 1_000_000);
            lemma_mul_abs_bound(qa as int, qb as int, 1_000_000, QUAT_LIMIT as int);
            lemma_mul_abs_bound(qa as int, qc as int, 1_000_000, QUAT_LIMIT as int);
            lemma_mul_abs_bound(qa as int, qd as int, 1_000_000, QUAT_LIMIT as int);
            lemma_mul_abs_bound(qb as int, qc as int, QUAT_LIMIT as int, QUAT_LIMIT as int);
            lemma_mul_abs_bound(qb as int, qd as int, QUAT_LIMIT as int, QUAT_LIMIT as int);
            lemma_mul_abs_bound(qc as int, qd as int, QUAT_LIMIT as int, QUAT_LIMIT as int);
        }
        let r00: i64 = qa * qa + qb * qb - qc * qc - qd * qd;
        let r01: i64 = 2 * (qb * qc - qa * qd);
        let r02: i64 = 2 * (qb * qd + qa * qc);
        let r10: i64 = 2 * (qb * qc + qa * qd);
        let r11: i64 = qa * qa + qc * qc - qb * qb - qd * qd;
        let r12: i64 = 2 * (qc * qd - qa * qb);
        let r20: i64 = 2 * (qb * qd - qa * qc);
        let r21: i64 = 2 * (qc * qd + qa * qb);
        let r22: i64 = qa * qa + qd * qd - qb * qb - qc * qc;
        let px: i64 = hdr.pixdim[1];
        let py: i64 = hdr.pixdim[2];
        let pz: i64 = if hdr.pixdim[0] < 0 {
            -hdr.pixdim[3]
        } else {
            hdr.pixdim[3]
        };
        assert(pz as int == qform_col_spacing(*hdr, 2));
        [
            [scale_rot_entry(r00, px), scale_rot_entry(r01, py), scale_rot_entry(r02, pz)],
            [scale_rot_entry(r10, px), scale_rot_entry(r11, py), scale_rot_entry(r12, pz)],
            [scale_rot_entry(r20, px), scale_rot_entry(r21, py), scale_rot_entry(r22, pz)],
        ]
    } else {
        [
            [hdr.pixdim[1], 0, 0],
            [0, hdr.pixdim[2], 0],
            [0, 0, hdr.pixdim[3]],
        ]
    }
}

/// Extracts the translation: the world coordinates of voxel `(0, 0, 0)`
/// under the governing encoding.
pub fn get_translation(hdr: &Header) -> (t: [i64; 3])
    requires
        hdr.wf(),
    ensures
        forall|k: int|
            0 <= k < 3 ==> #[trigger] t[k] as int == translation_entry(*hdr, k),
        forall|k: int| 0 <= k < 3 ==> abs_val(#[trigger] t[k] as int) <= COORD_LIMIT,
{
    if hdr.sform_code > 0 {
        [hdr.srow_x[3], hdr.srow_y[3], hdr.srow_z[3]]
    } else if hdr.qform_code > 0 {
        [hdr.quatern_x, hdr.quatern_y, hdr.quatern_z]
    } else {
        [0, 0, 0]
    }
}

/// A quaternion with no imaginary part rotates nothing: its rotation matrix
/// is the identity (at scale `SCALE`, before any spacing is applied).
pub proof fn lemma_quaternion_identity_rotation()
    ensures
        forall|row: int, col: int|
            0 <= row < 3 && 0 <= col < 3 ==> #[trigger] quat_rot(0, 0, 0, row, col) == (
            if row == col {
                SCALE as int
            } else {
                0
            }),
{
    assert(quat_radicand(0, 0, 0) == 1_000_000_000_000);
    assert(is_sqrt_floor(1_000_000_000_000, 1_000_000)) by (nonlinear_arith);
    lemma_sqrt_floor_unique(1_000_000_000_000, 1_000_000);
    let qa = quat_a(0, 0, 0);
    assert(qa == 1_000_000);
    assert(qa * qa == 1_000_000_000_000) by (nonlinear_arith)
        requires
            qa == 1_000_000,
    ;
    assert forall|row: int, col: int| 0 <= row < 3 && 0 <= col < 3 implies #[trigger] quat_rot(
        0,
        0,
        0,
        row,
        col,
    ) == (if row == col {
        SCALE as int
    } else {
        0
    }) by {
        if row == col {
            assert(quat_rot_s2(0, 0, 0, row, col) == 1_000_000_000_000);
            assert(tdiv(1_000_000_000_000, 1_000_000) == 1_000_000);
        } else {
            assert(quat_rot_s2(0, 0, 0, row, col) == 0);
            assert(tdiv(0, 1_000_000) == 0);
        }
    }
}

} // verus!
