//! Reorientation of a grid into the canonical RAS frame: permutation and
//! selective reversal of the voxel axes, the spacing in RAS order, and the
//! physical origin of the reoriented grid's first voxel.

use crate::affine::affine_entry;
use crate::affine::get_affine_3x3;
use crate::affine::get_translation;
use crate::affine::translation_entry;
use crate::fixed::abs_val;
use crate::fixed::lemma_mul_abs_bound;
use crate::header::Header;
use crate::mapping::degenerate_h;
use crate::mapping::degenerate_m;
use crate::mapping::dominant_row_h;
use crate::mapping::flip_h;
use crate::mapping::lemma_axis_bijection;
use crate::mapping::lemma_mapping_specs_from_header;
use crate::mapping::world_to_voxel_h;
use crate::mapping::AxisMapping;
use crate::volume::flat_index;
use crate::volume::lemma_flat_index_injective;
use crate::volume::lemma_flat_index_range;
use crate::volume::Volume;
use crate::AFFINE_LIMIT;
use crate::COORD_LIMIT;
use crate::DIM_LIMIT;
use crate::ORIGIN_LIMIT;
use vstd::prelude::*;

verus! {

/// A load-time failure of reorientation.
#[derive(Clone, Copy, Debug, PartialEq, Eq, Structural)]
pub enum ReorientError {
    /// The direction matrix has a column with no dominant coefficient, or
    /// two voxel axes claim the same world axis, so no permutation and flip
    /// can align the grid with the world axes.
    DegenerateOrientation,
}

impl ReorientError {
    /// A short description for display.
    pub fn describe(&self) -> &'static str {
        "degenerate orientation: direction matrix is not axis-dominant"
    }
}

/// The voxel spacing along world axis `a` after reorientation: the original
/// spacing of the voxel axis that now occupies position `a`.
pub open spec fn ras_spacing_h(h: Header, a: int) -> int {
    h.pixdim[world_to_voxel_h(h, a) + 1] as int
}

/// The original grid index, along voxel axis `v`, of the voxel that becomes
/// the reoriented grid's first voxel: the far end when the axis is flipped,
/// else zero.
pub open spec fn start_index_h(h: Header, dims: [usize; 3], v: int) -> int {
    if flip_h(h, v) {
        dims[v] - 1
    } else {
        0
    }
}

/// World coordinate `k` of the reoriented grid's first voxel: the original
/// direction matrix and translation applied to the start indices.
pub open spec fn origin_entry_h(h: Header, dims: [usize; 3], k: int) -> int {
    affine_entry(h, k, 0) * start_index_h(h, dims, 0) + affine_entry(h, k, 1) * start_index_h(
        h,
        dims,
        1,
    ) + affine_entry(h, k, 2) * start_index_h(h, dims, 2) + translation_entry(h, k)
}

/// The original grid index along voxel axis `v` that the reoriented grid
/// reads at output position `(x, y, z)`: the output coordinate of the world
/// axis that `v` maps to, reversed when `v` is flipped.
pub open spec fn src_index_h(h: Header, dims: [usize; 3], v: int, x: int, y: int, z: int) -> int {
    let a = dominant_row_h(h, v);
    let o = if a == 0 {
        x
    } else if a == 1 {
        y
    } else {
        z
    };
    if flip_h(h, v) {
        dims[v] - 1 - o
    } else {
        o
    }
}

/// Applies one row of the direction matrix to the start indices and adds the
/// translation component.
fn apply_affine_row(r0: i64, r1: i64, r2: i64, s0: i64, s1: i64, s2: i64, t: i64) -> (o: i64)
    requires
        abs_val(r0 as int) <= AFFINE_LIMIT,
        abs_val(r1 as int) <= AFFINE_LIMIT,
        abs_val(r2 as int) <= AFFINE_LIMIT,
        0 <= s0 < DIM_LIMIT,
        0 <= s1 < DIM_LIMIT,
        0 <= s2 < DIM_LIMIT,
        abs_val(t as int) <= COORD_LIMIT,
    ensures
        o as int == (r0 as int) * (s0 as int) + (r1 as int) * (s1 as int) + (r2 as int) * (
        s2 as int) + (t as int),
        abs_val(o as int) <= ORIGIN_LIMIT,
{
    proof {
        lemma_mul_abs_bound(r0 as int, s0 as int, AFFINE_LIMIT as int, DIM_LIMIT as int - 1);
        lemma_mul_abs_bound(r1 as int, s1 as int, AFFINE_LIMIT as int, DIM_LIMIT as int - 1);
        lemma_mul_abs_bound(r2 as int, s2 as int, AFFINE_LIMIT as int, DIM_LIMIT as int - 1);
    }
    r0 * s0 + r1 * s1 + r2 * s2 + t
}

/// Reorients a grid to the canonical RAS frame using the header's direction
/// matrix: permutes the axes so that output axis `a` is the voxel axis most
/// aligned with world axis `a`, reverses the axes that ran against their
/// world axis, and returns the RAS-ordered spacing and the world position of
/// the new first voxel. Fails exactly on degenerate direction matrices,
/// leaving nothing half-done.
#[verifier::rlimit(100)]
pub fn reorient_to_ras<T: Copy>(volume: Volume<T>, hdr: &Header) -> (r: Result<
    (Volume<T>, [i64; 3], [i64; 3]),
    ReorientError,
>)
    requires
        hdr.wf(),
        volume.wf(),
    ensures
        r is Ok <==> !degenerate_h(*hdr),
        r matches Ok(out) ==> {
            &&& out.0.wf()
            &&& forall|a: int|
                0 <= a < 3 ==> #[trigger] out.0.dims[a] as int == volume.dims[world_to_voxel_h(
                    *hdr,
                    a,
                )] as int
            &&& forall|a: int| 0 <= a < 3 ==> #[trigger] out.1[a] as int == ras_spacing_h(*hdr, a)
            &&& forall|k: int|
                0 <= k < 3 ==> #[trigger] out.2[k] as int == origin_entry_h(*hdr, volume.dims, k)
            &&& forall|k: int| 0 <= k < 3 ==> abs_val(#[trigger] out.2[k] as int) <= ORIGIN_LIMIT
            &&& forall|x: int, y: int, z: int|
                0 <= x < out.0.dims[0] && 0 <= y < out.0.dims[1] && 0 <= z < out.0.dims[2]
                    ==> #[trigger] out.0.at(x, y, z) == volume.at(
                    src_index_h(*hdr, volume.dims, 0, x, y, z),
                    src_index_h(*hdr, volume.dims, 1, x, y, z),
                    src_index_h(*hdr, volume.dims, 2, x, y, z),
                )
        },
{
    let h = *hdr;
    let m = get_affine_3x3(hdr);
    let t = get_translation(hdr);
    proof {
        lemma_mapping_specs_from_header(h, m);
    }
    let am = match AxisMapping::compute(&m) {
        Some(am) => am,
        None => {
            return Err(ReorientError::DegenerateOrientation);
        },
    };
    proof {
        assert(!degenerate_m(m));
        lemma_axis_bijection(h);
    }
    let w0 = am.world_to_voxel[0];
    let w1 = am.world_to_voxel[1];
    let w2 = am.world_to_voxel[2];
    proof {
        assert(am.voxel_to_world[w0 as int] == 0 && am.voxel_to_world[w1 as int] == 1
            && am.voxel_to_world[w2 as int] == 2);
        assert(dominant_row_h(h, w0 as int) == 0 && dominant_row_h(h, w1 as int) == 1
            && dominant_row_h(h, w2 as int) == 2);
        assert(w0 as int == world_to_voxel_h(h, 0) && w1 as int == world_to_voxel_h(h, 1)
            && w2 as int == world_to_voxel_h(h, 2));
        assert(w0 != w1 && w0 != w2 && w1 != w2);
    }
    let d = volume.dims;
    let sp: [i64; 3] = [hdr.pixdim[w0 + 1], hdr.pixdim[w1 + 1], hdr.pixdim[w2 + 1]];
    let nd: [usize; 3] = [d[w0], d[w1], d[w2]];
    let nd0 = nd[0];
    let nd1 = nd[1];
    let nd2 = nd[2];

    let mut data: Vec<T> = Vec::new();
    let mut x: usize = 0;
    proof {
        assert((x as int) * (nd1 as int) * (nd2 as int) == 0) by (nonlinear_arith)
            requires
                x == 0,
        ;
    }
    while x < nd0
        invariant
            hdr.wf(),
            volume.wf(),
            h == *hdr,
            d == volume.dims,
            nd[0] == nd0 && nd[1] == nd1 && nd[2] == nd2,
            nd0 == d[w0 as int] && nd1 == d[w1 as int] && nd2 == d[w2 as int],
            w0 < 3 && w1 < 3 && w2 < 3,
            w0 != w1 && w0 != w2 && w1 != w2,
            dominant_row_h(h, w0 as int) == 0 && dominant_row_h(h, w1 as int) == 1
                && dominant_row_h(h, w2 as int) == 2,
            forall|c: int| 0 <= c < 3 ==> #[trigger] am.flip[c] == flip_h(h, c),
            x <= nd0,
            data@.len() == (x as int) * (nd1 as int) * (nd2 as int),
            forall|x2: int, y2: int, z2: int|
                0 <= x2 < nd0 && 0 <= y2 < nd1 && 0 <= z2 < nd2 && flat_index(nd, x2, y2, z2)
                    < data@.len() ==> #[trigger] data@[flat_index(nd, x2, y2, z2)] == volume.at(
                    src_index_h(h, d, 0, x2, y2, z2),
                    src_index_h(h, d, 1, x2, y2, z2),
                    src_index_h(h, d, 2, x2, y2, z2),
                ),
        decreases nd0 - x,
    {
        let mut y: usize = 0;
        while y < nd1
            invariant
                hdr.wf(),
                volume.wf(),
                h == *hdr,
                d == volume.dims,
                nd[0] == nd0 && nd[1] == nd1 && nd[2] == nd2,
                nd0 == d[w0 as int] && nd1 == d[w1 as int] && nd2 == d[w2 as int],
                w0 < 3 && w1 < 3 && w2 < 3,
                w0 != w1 && w0 != w2 && w1 != w2,
                dominant_row_h(h, w0 as int) == 0 && dominant_row_h(h, w1 as int) == 1
                    && dominant_row_h(h, w2 as int) == 2,
                forall|c: int| 0 <= c < 3 ==> #[trigger] am.flip[c] == flip_h(h, c),
                x < nd0,
                y <= nd1,
                data@.len() == (x as int) * (nd1 as int) * (nd2 as int) + (y as int) * (
                nd2 as int),
                forall|x2: int, y2: int, z2: int|
                    0 <= x2 < nd0 && 0 <= y2 < nd1 && 0 <= z2 < nd2 && flat_index(nd, x2, y2, z2)
                        < data@.len() ==> #[trigger] data@[flat_index(nd, x2, y2, z2)]
                        == volume.at(
                        src_index_h(h, d, 0, x2, y2, z2),
                        src_index_h(h, d, 1, x2, y2, z2),
                        src_index_h(h, d, 2, x2, y2, z2),
                    ),
            decreases nd1 - y,
        {
            let mut z: usize = 0;
            while z < nd2
                invariant
                    hdr.wf(),
                    volume.wf(),
                    h == *hdr,
                    d == volume.dims,
                    nd[0] == nd0 && nd[1] == nd1 && nd[2] == nd2,
                    nd0 == d[w0 as int] && nd1 == d[w1 as int] && nd2 == d[w2 as int],
                    w0 < 3 && w1 < 3 && w2 < 3,
                    w0 != w1 && w0 != w2 && w1 != w2,
                    dominant_row_h(h, w0 as int) == 0 && dominant_row_h(h, w1 as int) == 1
                        && dominant_row_h(h, w2 as int) == 2,
                    forall|c: int| 0 <= c < 3 ==> #[trigger] am.flip[c] == flip_h(h, c),
                    x < nd0,
                    y < nd1,
                    z <= nd2,
                    data@.len() == (x as int) * (nd1 as int) * (nd2 as int) + (y as int) * (
                    nd2 as int) + z,
                    forall|x2: int, y2: int, z2: int|
                        0 <= x2 < nd0 && 0 <= y2 < nd1 && 0 <= z2 < nd2 && flat_index(
                            nd,
                            x2,
                            y2,
                            z2,
                        ) < data@.len() ==> #[trigger] data@[flat_index(nd, x2, y2, z2)]
                        == volume.at(
                        src_index_h(h, d, 0, x2, y2, z2),
                        src_index_h(h, d, 1, x2, y2, z2),
                        src_index_h(h, d, 2, x2, y2, z2),
                    ),
                decreases nd2 - z,
            {
                let mut si = [0usize; 3];
                let o0 = if am.flip[w0] {
                    d[w0] - 1 - x
                } else {
                    x
                };
                si[w0] = o0;
                let o1 = if am.flip[w1] {
                    d[w1] - 1 - y
                } else {
                    y
                };
                si[w1] = o1;
                let o2 = if am.flip[w2] {
                    d[w2] - 1 - z
                } else {
                    z
                };
                si[w2] = o2;
                proof {
                    assert(si[w0 as int] == o0 && si[w1 as int] == o1 && si[w2 as int] == o2);
                    assert(si[0] == src_index_h(h, d, 0, x as int, y as int, z as int)
                        && si[1] == src_index_h(h, d, 1, x as int, y as int, z as int)
                        && si[2] == src_index_h(h, d, 2, x as int, y as int, z as int)) by {
                        assert(w0 as int == 0 || w1 as int == 0 || w2 as int == 0);
                        assert(w0 as int == 1 || w1 as int == 1 || w2 as int == 1);
                        assert(w0 as int == 2 || w1 as int == 2 || w2 as int == 2);
                    }
                    assert(si[0] < d[0] && si[1] < d[1] && si[2] < d[2]);
                }
                let val = volume.get(si[0], si[1], si[2]);
                proof {
                    assert(flat_index(nd, x as int, y as int, z as int) == data@.len()) by (nonlinear_arith)
                        requires
                            data@.len() == (x as int) * (nd1 as int) * (nd2 as int) + (y as int)
                                * (nd2 as int) + z,
                            nd[1] == nd1 && nd[2] == nd2,
                            flat_index(nd, x as int, y as int, z as int) == ((x as int) * (
                            nd[1] as int) + y) * (nd[2] as int) + z,
                    ;
                }
                data.push(val);
                proof {
                    assert forall|x2: int, y2: int, z2: int|
                        0 <= x2 < nd0 && 0 <= y2 < nd1 && 0 <= z2 < nd2 && flat_index(
                            nd,
                            x2,
                            y2,
                            z2,
                        ) < data@.len() implies #[trigger] data@[flat_index(nd, x2, y2, z2)]
                        == volume.at(
                        src_index_h(h, d, 0, x2, y2, z2),
                        src_index_h(h, d, 1, x2, y2, z2),
                        src_index_h(h, d, 2, x2, y2, z2),
                    ) by {
                        let f = flat_index(nd, x2, y2, z2);
                        if f == data@.len() - 1 {
                            lemma_flat_index_injective(
                                nd,
                                x2,
                                y2,
                                z2,
                                x as int,
                                y as int,
                                z as int,
                            );
                        }
                    }
                }
                z += 1;
            }
            proof {
                assert((x as int) * (nd1 as int) * (nd2 as int) + (y as int) * (nd2 as int) + nd2
                    == (x as int) * (nd1 as int) * (nd2 as int) + ((y as int) + 1) * (nd2 as int))
                    by (nonlinear_arith);
            }
            y += 1;
        }
        proof {
            assert((x as int) * (nd1 as int) * (nd2 as int) + (nd1 as int) * (nd2 as int) == ((
            x as int) + 1) * (nd1 as int) * (nd2 as int)) by (nonlinear_arith);
        }
        x += 1;
    }

    let out = Volume { dims: nd, data };
    proof {
        assert(out.wf());
        assert forall|x2: int, y2: int, z2: int|
            0 <= x2 < out.dims[0] && 0 <= y2 < out.dims[1] && 0 <= z2 < out.dims[2]
            implies #[trigger] out.at(x2, y2, z2) == volume.at(
            src_index_h(h, d, 0, x2, y2, z2),
            src_index_h(h, d, 1, x2, y2, z2),
            src_index_h(h, d, 2, x2, y2, z2),
        ) by {
            lemma_flat_index_range(nd, x2, y2, z2);
        }
    }

    let s0: i64 = if am.flip[0] {
        (d[0] - 1) as i64
    } else {
        0
    };
    let s1: i64 = if am.flip[1] {
        (d[1] - 1) as i64
    } else {
        0
    };
    let s2: i64 = if am.flip[2] {
        (d[2] - 1) as i64
    } else {
        0
    };
    let org: [i64; 3] = [
        apply_affine_row(m[0][0], m[0][1], m[0][2], s0, s1, s2, t[0]),
        apply_affine_row(m[1][0], m[1][1], m[1][2], s0, s1, s2, t[1]),
        apply_affine_row(m[2][0], m[2][1], m[2][2], s0, s1, s2, t[2]),
    ];

    Ok((out, sp, org))
}

} // verus!
