//! Properties that span several components.

use crate::affine::affine_entry;
use crate::affine::translation_entry;
use crate::fixed::abs_val;
use crate::header::Header;
use crate::mapping::degenerate_h;
use crate::mapping::dominant_row_h;
use crate::mapping::flip_h;
use crate::mapping::world_to_voxel_h;
use crate::reorient::origin_entry_h;
use crate::reorient::ras_spacing_h;
use crate::reorient::src_index_h;
use crate::reorient::start_index_h;
use crate::SCALE;
use vstd::prelude::*;

verus! {

/// Identity case: a header with neither affine nor quaternion encoding and
/// unit spacings permutes nothing, flips nothing, and yields unit spacing
/// and a zero origin, so reorientation reads every voxel from its own
/// position.
pub proof fn lemma_identity_header(h: Header, dims: [usize; 3])
    requires
        h.wf(),
        h.sform_code <= 0,
        h.qform_code <= 0,
        h.pixdim[1] == SCALE,
        h.pixdim[2] == SCALE,
        h.pixdim[3] == SCALE,
    ensures
        !degenerate_h(h),
        forall|c: int| 0 <= c < 3 ==> #[trigger] dominant_row_h(h, c) == c,
        forall|c: int| 0 <= c < 3 ==> !#[trigger] flip_h(h, c),
        forall|a: int| 0 <= a < 3 ==> #[trigger] world_to_voxel_h(h, a) == a,
        forall|a: int| 0 <= a < 3 ==> #[trigger] ras_spacing_h(h, a) == SCALE,
        forall|k: int| 0 <= k < 3 ==> #[trigger] origin_entry_h(h, dims, k) == 0,
        forall|v: int, x: int, y: int, z: int|
            0 <= v < 3 ==> #[trigger] src_index_h(h, dims, v, x, y, z) == (if v == 0 {
                x
            } else if v == 1 {
                y
            } else {
                z
            }),
{
    assert forall|r: int, c: int| 0 <= r < 3 && 0 <= c < 3 implies #[trigger] affine_entry(h, r, c)
        == (if r == c {
        SCALE as int
    } else {
        0
    }) by {}
    assert(abs_val(affine_entry(h, 0, 0)) == SCALE && abs_val(affine_entry(h, 1, 0)) == 0
        && abs_val(affine_entry(h, 2, 0)) == 0);
    assert(abs_val(affine_entry(h, 0, 1)) == 0 && abs_val(affine_entry(h, 1, 1)) == SCALE
        && abs_val(affine_entry(h, 2, 1)) == 0);
    assert(abs_val(affine_entry(h, 0, 2)) == 0 && abs_val(affine_entry(h, 1, 2)) == 0 && abs_val(
        affine_entry(h, 2, 2),
    ) == SCALE);
    assert(dominant_row_h(h, 0) == 0 && dominant_row_h(h, 1) == 1 && dominant_row_h(h, 2) == 2);
    assert(!flip_h(h, 0) && !flip_h(h, 1) && !flip_h(h, 2));
    assert(world_to_voxel_h(h, 0) == 0 && world_to_voxel_h(h, 1) == 1 && world_to_voxel_h(h, 2)
        == 2);
    assert forall|k: int| 0 <= k < 3 implies #[trigger] origin_entry_h(h, dims, k) == 0 by {
        assert(start_index_h(h, dims, 0) == 0 && start_index_h(h, dims, 1) == 0 && start_index_h(
            h,
            dims,
            2,
        ) == 0);
        assert(translation_entry(h, k) == 0);
        assert(affine_entry(h, k, 0) * 0 == 0 && affine_entry(h, k, 1) * 0 == 0 && affine_entry(
            h,
            k,
            2,
        ) * 0 == 0);
    }
}

} // verus!
