//! Conversion between voxel indices along one world axis and physical
//! display coordinates, given the spacing and origin of the loaded grid.
//!
//! Display coordinates follow the convention that increasing values mean
//! more Left / more Posterior / more Superior, so the first two world axes
//! are negated.

use crate::fixed::abs_val;
use crate::fixed::lemma_mul_abs_bound;
use crate::fixed::lemma_round_div_exact;
use crate::fixed::round_div;
use crate::fixed::round_div64;
use crate::DIM_LIMIT;
use crate::MM_LIMIT;
use crate::ORIGIN_LIMIT;
use crate::SPACING_LIMIT;
use vstd::arithmetic::div_mod::lemma_div_is_ordered;
use vstd::arithmetic::div_mod::lemma_div_pos_is_pos;
use vstd::arithmetic::div_mod::lemma_fundamental_div_mod_converse;
use vstd::prelude::*;

verus! {

/// The display coordinate of voxel index `idx` along world axis `axis`:
/// origin plus index times spacing, negated on the first two axes.
pub open spec fn voxel_to_mm_spec(origin: int, spacing: int, axis: int, idx: int) -> int {
    let ras = origin + idx * spacing;
    if axis < 2 {
        -ras
    } else {
        ras
    }
}

/// The voxel index nearest to display coordinate `mm` along world axis
/// `axis`, clamped to the grid: the display negation is undone, the offset
/// from the origin is divided by the spacing and rounded to the nearest
/// index, and the result is clamped to `[0, n - 1]`.
pub open spec fn mm_to_voxel_spec(origin: int, spacing: int, n: int, axis: int, mm: int) -> int {
    let ras = if axis < 2 {
        -mm
    } else {
        mm
    };
    let idx = round_div(ras - origin, spacing);
    if idx < 0 {
        0
    } else if idx > n - 1 {
        n - 1
    } else {
        idx
    }
}

/// Converts a voxel index to its display coordinate.
pub fn voxel_to_mm(origin: i64, spacing: i64, axis: usize, idx: usize) -> (mm: i64)
    requires
        axis < 3,
        abs_val(origin as int) <= ORIGIN_LIMIT,
        1 <= spacing <= SPACING_LIMIT,
        idx < DIM_LIMIT,
    ensures
        mm as int == voxel_to_mm_spec(origin as int, spacing as int, axis as int, idx as int),
        abs_val(mm as int) <= MM_LIMIT,
{
    proof {
        lemma_mul_abs_bound(idx as int, spacing as int, DIM_LIMIT as int - 1, SPACING_LIMIT as int);
    }
    let ras = origin + (idx as i64) * spacing;
    if axis < 2 {
        -ras
    } else {
        ras
    }
}

/// Converts a display coordinate to the nearest in-range voxel index.
pub fn mm_to_voxel(origin: i64, spacing: i64, n: usize, axis: usize, mm: i64) -> (idx: usize)
    requires
        axis < 3,
        abs_val(origin as int) <= ORIGIN_LIMIT,
        1 <= spacing <= SPACING_LIMIT,
        1 <= n <= DIM_LIMIT,
        abs_val(mm as int) <= MM_LIMIT,
    ensures
        idx as int == mm_to_voxel_spec(origin as int, spacing as int, n as int, axis as int, mm as int),
        idx < n,
{
    let ras = if axis < 2 {
        -mm
    } else {
        mm
    };
    let p = ras - origin;
    let i = round_div64(p, spacing);
    if i < 0 {
        0
    } else if i > (n as i64) - 1 {
        n - 1
    } else {
        i as usize
    }
}

/// Round-trip law: for any axis and any in-range index, converting the index
/// to a display coordinate and back returns the same index.
pub proof fn lemma_mm_voxel_round_trip(origin: int, spacing: int, n: int, axis: int, idx: int)
    requires
        0 <= axis < 3,
        1 <= spacing,
        1 <= n,
        0 <= idx < n,
    ensures
        mm_to_voxel_spec(
            origin,
            spacing,
            n,
            axis,
            voxel_to_mm_spec(origin, spacing, axis, idx),
        ) == idx,
{
    lemma_round_div_exact(idx, spacing);
}

/// Clamping law: a display coordinate at or before the first voxel's
/// position maps to index `0`, one at or past the last voxel's position maps
/// to `n - 1`, and every result lies in `[0, n - 1]`.
pub proof fn lemma_mm_to_voxel_clamps(origin: int, spacing: int, n: int, axis: int, mm: int)
    requires
        0 <= axis < 3,
        1 <= spacing,
        1 <= n,
    ensures
        0 <= mm_to_voxel_spec(origin, spacing, n, axis, mm) <= n - 1,
        ({
            let ras = if axis < 2 {
                -mm
            } else {
                mm
            };
            ras <= origin
        }) ==> mm_to_voxel_spec(origin, spacing, n, axis, mm) == 0,
        ({
            let ras = if axis < 2 {
                -mm
            } else {
                mm
            };
            ras >= origin + (n - 1) * spacing
        }) ==> mm_to_voxel_spec(origin, spacing, n, axis, mm) == n - 1,
{
    let ras = if axis < 2 {
        -mm
    } else {
        mm
    };
    let p = ras - origin;
    if p <= 0 {
        if p == 0 {
            vstd::arithmetic::div_mod::lemma_basic_div(spacing, 2 * spacing);
            assert(round_div(p, spacing) == 0);
        } else {
            lemma_div_pos_is_pos(2 * -p + spacing, 2 * spacing);
            assert(round_div(p, spacing) <= 0);
        }
    }
    if p >= (n - 1) * spacing {
        assert((n - 1) * spacing >= 0) by (nonlinear_arith)
            requires
                n >= 1,
                spacing >= 1,
        ;
        assert(p >= 0);
        assert(2 * p + spacing >= (n - 1) * (2 * spacing) + spacing) by (nonlinear_arith)
            requires
                p >= (n - 1) * spacing,
        ;
        lemma_fundamental_div_mod_converse(
            (n - 1) * (2 * spacing) + spacing,
            2 * spacing,
            n - 1,
            spacing,
        );
        lemma_div_is_ordered((n - 1) * (2 * spacing) + spacing, 2 * p + spacing, 2 * spacing);
        assert(round_div(p, spacing) >= n - 1);
    }
}

} // verus!
