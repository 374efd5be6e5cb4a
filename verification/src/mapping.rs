//! Assignment of each voxel axis to the world axis it is most aligned with,
//! the per-axis flip flags, and the inverse permutation.

use crate::affine::affine_entry;
use crate::fixed::abs_val;
use crate::header::Header;
use crate::AFFINE_LIMIT;
use vstd::prelude::*;

verus! {

/// The least index among three values that attains their maximum.
pub open spec fn least_argmax3(a0: int, a1: int, a2: int) -> int {
    if a0 >= a1 && a0 >= a2 {
        0
    } else if a1 >= a2 {
        1
    } else {
        2
    }
}

/// The maximum of three values.
pub open spec fn max3(a0: int, a1: int, a2: int) -> int {
    if a0 >= a1 && a0 >= a2 {
        a0
    } else if a1 >= a2 {
        a1
    } else {
        a2
    }
}

/// The world axis (row) most aligned with voxel axis `c` (column) of the
/// matrix: the first row with the largest absolute entry in that column.
pub open spec fn dominant_row_m(m: [[i64; 3]; 3], c: int) -> int {
    least_argmax3(
        abs_val(m[0][c] as int),
        abs_val(m[1][c] as int),
        abs_val(m[2][c] as int),
    )
}

/// Whether stepping along voxel axis `c` moves against its dominant world
/// axis.
pub open spec fn flip_m(m: [[i64; 3]; 3], c: int) -> bool {
    m[dominant_row_m(m, c)][c] < 0
}

/// A matrix is degenerate for reorientation when some column has no nonzero
/// dominant entry, or two voxel axes claim the same world axis.
pub open spec fn degenerate_m(m: [[i64; 3]; 3]) -> bool {
    ||| max3(abs_val(m[0][0] as int), abs_val(m[1][0] as int), abs_val(m[2][0] as int)) == 0
    ||| max3(abs_val(m[0][1] as int), abs_val(m[1][1] as int), abs_val(m[2][1] as int)) == 0
    ||| max3(abs_val(m[0][2] as int), abs_val(m[1][2] as int), abs_val(m[2][2] as int)) == 0
    ||| dominant_row_m(m, 0) == dominant_row_m(m, 1)
    ||| dominant_row_m(m, 0) == dominant_row_m(m, 2)
    ||| dominant_row_m(m, 1) == dominant_row_m(m, 2)
}

/// The world axis most aligned with voxel axis `c` of a header's direction
/// matrix.
pub open spec fn dominant_row_h(h: Header, c: int) -> int {
    least_argmax3(
        abs_val(affine_entry(h, 0, c)),
        abs_val(affine_entry(h, 1, c)),
        abs_val(affine_entry(h, 2, c)),
    )
}

/// Whether voxel axis `c` of a header's direction matrix runs against its
/// dominant world axis.
pub open spec fn flip_h(h: Header, c: int) -> bool {
    affine_entry(h, dominant_row_h(h, c), c) < 0
}

/// Degeneracy of a header's direction matrix.
pub open spec fn degenerate_h(h: Header) -> bool {
    ||| max3(
        abs_val(affine_entry(h, 0, 0)),
        abs_val(affine_entry(h, 1, 0)),
        abs_val(affine_entry(h, 2, 0)),
    ) == 0
    ||| max3(
        abs_val(affine_entry(h, 0, 1)),
        abs_val(affine_entry(h, 1, 1)),
        abs_val(affine_entry(h, 2, 1)),
    ) == 0
    ||| max3(
        abs_val(affine_entry(h, 0, 2)),
        abs_val(affine_entry(h, 1, 2)),
        abs_val(affine_entry(h, 2, 2)),
    ) == 0
    ||| dominant_row_h(h, 0) == dominant_row_h(h, 1)
    ||| dominant_row_h(h, 0) == dominant_row_h(h, 2)
    ||| dominant_row_h(h, 1) == dominant_row_h(h, 2)
}

/// The voxel axis whose dominant world axis is `a`, for a non-degenerate
/// header matrix.
pub open spec fn world_to_voxel_h(h: Header, a: int) -> int {
    if dominant_row_h(h, 0) == a {
        0
    } else if dominant_row_h(h, 1) == a {
        1
    } else {
        2
    }
}

/// Bijection invariant: on every non-degenerate direction matrix the
/// assignment of voxel axes to world axes is a permutation of `{0, 1, 2}`,
/// and `world_to_voxel_h` is its two-sided inverse.
pub proof fn lemma_axis_bijection(h: Header)
    requires
        !degenerate_h(h),
    ensures
        forall|a: int| 0 <= a < 3 ==> 0 <= #[trigger] world_to_voxel_h(h, a) < 3,
        forall|a: int| 0 <= a < 3 ==> dominant_row_h(h, #[trigger] world_to_voxel_h(h, a)) == a,
        forall|c: int| 0 <= c < 3 ==> world_to_voxel_h(h, #[trigger] dominant_row_h(h, c)) == c,
{
    let r0 = dominant_row_h(h, 0);
    let r1 = dominant_row_h(h, 1);
    let r2 = dominant_row_h(h, 2);
    assert(0 <= r0 < 3 && 0 <= r1 < 3 && 0 <= r2 < 3);
    assert(r0 != r1 && r0 != r2 && r1 != r2);
    assert forall|a: int| 0 <= a < 3 implies 0 <= #[trigger] world_to_voxel_h(h, a) < 3
        && dominant_row_h(h, world_to_voxel_h(h, a)) == a by {
        assert(r0 == a || r1 == a || r2 == a);
    }
}

/// The matrix-level and header-level mapping specifications agree whenever
/// the matrix holds the header's direction entries.
pub proof fn lemma_mapping_specs_from_header(h: Header, m: [[i64; 3]; 3])
    requires
        forall|r: int, c: int|
            0 <= r < 3 && 0 <= c < 3 ==> #[trigger] m[r][c] as int == affine_entry(h, r, c),
    ensures
        forall|c: int| 0 <= c < 3 ==> dominant_row_m(m, c) == dominant_row_h(h, c),
        forall|c: int| 0 <= c < 3 ==> flip_m(m, c) == flip_h(h, c),
        degenerate_m(m) == degenerate_h(h),
{
    assert forall|c: int| 0 <= c < 3 implies dominant_row_m(m, c) == dominant_row_h(h, c)
        && flip_m(m, c) == flip_h(h, c) by {
        assert(m[0][c] as int == affine_entry(h, 0, c));
        assert(m[1][c] as int == affine_entry(h, 1, c));
        assert(m[2][c] as int == affine_entry(h, 2, c));
        let r = dominant_row_m(m, c);
        assert(0 <= r < 3);
        assert(m[r][c] as int == affine_entry(h, r, c));
    }
    assert(m[0][0] as int == affine_entry(h, 0, 0));
    assert(m[1][0] as int == affine_entry(h, 1, 0));
    assert(m[2][0] as int == affine_entry(h, 2, 0));
    assert(m[0][1] as int == affine_entry(h, 0, 1));
    assert(m[1][1] as int == affine_entry(h, 1, 1));
    assert(m[2][1] as int == affine_entry(h, 2, 1));
    assert(m[0][2] as int == affine_entry(h, 0, 2));
    assert(m[1][2] as int == affine_entry(h, 1, 2));
    assert(m[2][2] as int == affine_entry(h, 2, 2));
}

/// For each voxel axis, its dominant world axis and flip flag, and the
/// inverse permutation from world axes back to voxel axes.
#[derive(Clone, Copy, Debug)]
pub struct AxisMapping {
    pub voxel_to_world: [usize; 3],
    pub world_to_voxel: [usize; 3],
    pub flip: [bool; 3],
}

/// Absolute value of a matrix entry bounded by `AFFINE_LIMIT`.
fn abs_entry(x: i64) -> (r: i64)
    requires
        abs_val(x as int) <= AFFINE_LIMIT,
    ensures
        r as int == abs_val(x as int),
{
    if x < 0 {
        -x
    } else {
        x
    }
}

impl AxisMapping {
    /// Derives the axis mapping from a direction matrix: for each voxel axis
    /// the first world axis with the largest absolute coefficient and the
    /// sign of that coefficient, then the inverse permutation. Fails exactly
    /// on degenerate matrices, whose assignment would corrupt the
    /// permutation.
    pub fn compute(m: &[[i64; 3]; 3]) -> (r: Option<AxisMapping>)
        requires
            forall|row: int, col: int|
                0 <= row < 3 && 0 <= col < 3 ==> abs_val(#[trigger] m[row][col] as int)
                    <= AFFINE_LIMIT,
        ensures
            r is Some <==> !degenerate_m(*m),
            r matches Some(am) ==> {
                &&& forall|c: int|
                    0 <= c < 3 ==> #[trigger] am.voxel_to_world[c] as int == dominant_row_m(*m, c)
                &&& forall|c: int| 0 <= c < 3 ==> #[trigger] am.flip[c] == flip_m(*m, c)
                &&& forall|c: int| 0 <= c < 3 ==> #[trigger] am.voxel_to_world[c] < 3
                &&& forall|a: int| 0 <= a < 3 ==> #[trigger] am.world_to_voxel[a] < 3
                &&& forall|c: int|
                    0 <= c < 3 ==> #[trigger] am.world_to_voxel[am.voxel_to_world[c] as int] == c
                &&& forall|a: int|
                    0 <= a < 3 ==> #[trigger] am.voxel_to_world[am.world_to_voxel[a] as int] == a
            },
    {
        let mut voxel_to_world = [0usize; 3];
        let mut flip = [false; 3];
        let mut degenerate_col = false;
        let mut col: usize = 0;
        while col < 3
            invariant
                col <= 3,
                forall|row: int, c: int|
                    0 <= row < 3 && 0 <= c < 3 ==> abs_val(#[trigger] m[row][c] as int)
                        <= AFFINE_LIMIT,
                forall|c: int|
                    0 <= c < col ==> #[trigger] voxel_to_world[c] as int == dominant_row_m(*m, c),
                forall|c: int| 0 <= c < col ==> #[trigger] flip[c] == flip_m(*m, c),
                forall|c: int| 0 <= c < 3 ==> #[trigger] voxel_to_world[c] < 3,
                degenerate_col == exists|c: int|
                    0 <= c < col && max3(
                        abs_val(#[trigger] m[0][c] as int),
                        abs_val(m[1][c] as int),
                        abs_val(m[2][c] as int),
                    ) == 0,
            decreases 3 - col,
        {
            let a0 = abs_entry(m[0][col]);
            let a1 = abs_entry(m[1][col]);
            let a2 = abs_entry(m[2][col]);
            let best: usize = if a0 >= a1 && a0 >= a2 {
                0
            } else if a1 >= a2 {
                1
            } else {
                2
            };
            let best_val: i64 = if a0 >= a1 && a0 >= a2 {
                a0
            } else if a1 >= a2 {
                a1
            } else {
                a2
            };
            voxel_to_world[col] = best;
            flip[col] = m[best][col] < 0;
            if best_val == 0 {
                degenerate_col = true;
            }
            col += 1;
        }
        if degenerate_col {
            return None;
        }
        let v0 = voxel_to_world[0];
        let v1 = voxel_to_world[1];
        let v2 = voxel_to_world[2];
        if v0 == v1 || v0 == v2 || v1 == v2 {
            return None;
        }
        let mut world_to_voxel = [0usize; 3];
        world_to_voxel[v0] = 0;
        world_to_voxel[v1] = 1;
        world_to_voxel[v2] = 2;
        Some(AxisMapping { voxel_to_world, world_to_voxel, flip })
    }
}

} // verus!
