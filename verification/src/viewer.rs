//! Viewer state for one loaded scan: the canonical grid, its spacing and
//! origin, the three current slice indices, and a mailbox for file bytes
//! handed in by an asynchronous file picker.

use crate::fixed::abs_val;
use crate::header::Header;
use crate::mapper;
use crate::mapper::mm_to_voxel_spec;
use crate::mapper::voxel_to_mm_spec;
use crate::mapping::degenerate_h;
use crate::mapping::world_to_voxel_h;
use crate::reorient::origin_entry_h;
use crate::reorient::ras_spacing_h;
use crate::reorient::reorient_to_ras;
use crate::reorient::src_index_h;
use crate::reorient::ReorientError;
use crate::slices::section_cell;
use crate::slices::section_cols;
use crate::slices::section_rows;
use crate::slices::slice_at;
use crate::volume::Slice2;
use crate::volume::Volume;
use crate::DIM_LIMIT;
use crate::MM_LIMIT;
use crate::ORIGIN_LIMIT;
use crate::SCALE;
use crate::SPACING_LIMIT;
use vstd::prelude::*;

verus! {

/// Whether a byte stream begins with the two-byte gzip signature, so the
/// surrounding reader knows to decompress it before decoding.
pub fn is_gzip(bytes: &[u8]) -> (r: bool)
    ensures
        r == (bytes@.len() >= 2 && bytes@[0] == 0x1f && bytes@[1] == 0x8b),
{
    bytes.len() >= 2 && bytes[0] == 0x1f && bytes[1] == 0x8b
}

/// State of the viewer: at most one loaded canonical grid with its spacing,
/// origin and current slice indices, and pending raw bytes from a file
/// picker awaiting decode.
pub struct NiftiViewer<T> {
    pub volume: Option<Volume<T>>,
    pub voxdim: [i64; 3],
    pub ras_origin: [i64; 3],
    pub slice_x: usize,
    pub slice_y: usize,
    pub slice_z: usize,
    pub pending_bytes: Option<Vec<u8>>,
}

impl<T> NiftiViewer<T> {
    /// Well-formedness: spacing and origin within the fixed-point limits,
    /// and, when a grid is loaded, a well-formed grid with in-range slice
    /// indices.
    pub open spec fn wf(self) -> bool {
        &&& forall|a: int| 0 <= a < 3 ==> 1 <= #[trigger] self.voxdim[a] <= SPACING_LIMIT
        &&& forall|a: int|
            0 <= a < 3 ==> abs_val(#[trigger] self.ras_origin[a] as int) <= ORIGIN_LIMIT
        &&& match self.volume {
            Some(v) => v.wf() && self.slice_x < v.dims[0] && self.slice_y < v.dims[1]
                && self.slice_z < v.dims[2],
            None => true,
        }
    }

    /// An empty viewer: no grid, unit spacing, zero origin.
    pub fn new() -> (r: NiftiViewer<T>)
        ensures
            r.wf(),
            r.volume is None,
            r.pending_bytes is None,
            forall|a: int| 0 <= a < 3 ==> #[trigger] r.voxdim[a] == SCALE,
            forall|a: int| 0 <= a < 3 ==> #[trigger] r.ras_origin[a] == 0,
            r.slice_x == 0 && r.slice_y == 0 && r.slice_z == 0,
    {
        NiftiViewer {
            volume: None,
            voxdim: [SCALE, SCALE, SCALE],
            ras_origin: [0, 0, 0],
            slice_x: 0,
            slice_y: 0,
            slice_z: 0,
            pending_bytes: None,
        }
    }

    /// Stores raw file bytes for the next update cycle to decode.
    pub fn set_pending_bytes(&mut self, bytes: Vec<u8>)
        ensures
            final (self).pending_bytes == Some(bytes),
            final (self).volume == old(self).volume,
            final (self).voxdim == old(self).voxdim,
            final (self).ras_origin == old(self).ras_origin,
            final (self).slice_x == old(self).slice_x,
            final (self).slice_y == old(self).slice_y,
            final (self).slice_z == old(self).slice_z,
            old(self).wf() ==> final (self).wf(),
    {
        self.pending_bytes = Some(bytes);
    }

    /// Takes the stored file bytes, leaving the mailbox empty.
    pub fn take_pending_bytes(&mut self) -> (r: Option<Vec<u8>>)
        ensures
            r == old(self).pending_bytes,
            final (self).pending_bytes is None,
            final (self).volume == old(self).volume,
            final (self).voxdim == old(self).voxdim,
            final (self).ras_origin == old(self).ras_origin,
            final (self).slice_x == old(self).slice_x,
            final (self).slice_y == old(self).slice_y,
            final (self).slice_z == old(self).slice_z,
            old(self).wf() ==> final (self).wf(),
    {
        self.pending_bytes.take()
    }
}

impl<T: Copy> NiftiViewer<T> {
    /// Installs a freshly decoded grid: reorients it to the canonical frame,
    /// stores spacing and origin, and centers the slice indices. On failure
    /// the previous state is left untouched and the error is returned.
    pub fn load_volume(&mut self, volume: Volume<T>, hdr: &Header) -> (r: Result<
        (),
        ReorientError,
    >)
        requires
            old(self).wf(),
            hdr.wf(),
            volume.wf(),
        ensures
            final (self).wf(),
            r is Ok <==> !degenerate_h(*hdr),
            r is Err ==> *final (self) == *old(self),
            r is Ok ==> {
                &&& final (self).volume matches Some(v) && {
                    &&& forall|a: int|
                        0 <= a < 3 ==> #[trigger] v.dims[a] as int == volume.dims[world_to_voxel_h(
                            *hdr,
                            a,
                        )] as int
                    &&& forall|x: int, y: int, z: int|
                        0 <= x < v.dims[0] && 0 <= y < v.dims[1] && 0 <= z < v.dims[2]
                            ==> #[trigger] v.at(x, y, z) == volume.at(
                            src_index_h(*hdr, volume.dims, 0, x, y, z),
                            src_index_h(*hdr, volume.dims, 1, x, y, z),
                            src_index_h(*hdr, volume.dims, 2, x, y, z),
                        )
                    &&& final (self).slice_x == v.dims[0] / 2
                    &&& final (self).slice_y == v.dims[1] / 2
                    &&& final (self).slice_z == v.dims[2] / 2
                }
                &&& forall|a: int|
                    0 <= a < 3 ==> #[trigger] final (self).voxdim[a] as int == ras_spacing_h(
                        *hdr,
                        a,
                    )
                &&& forall|k: int|
                    0 <= k < 3 ==> #[trigger] final (self).ras_origin[k] as int == origin_entry_h(
                        *hdr,
                        volume.dims,
                        k,
                    )
                &&& final (self).pending_bytes == old(self).pending_bytes
            },
    {
        match reorient_to_ras(volume, hdr) {
            Ok((vol, sp, org)) => {
                self.slice_x = vol.dims[0] / 2;
                self.slice_y = vol.dims[1] / 2;
                self.slice_z = vol.dims[2] / 2;
                proof {
                    assert(vol.dims[0] / 2 < vol.dims[0] && vol.dims[1] / 2 < vol.dims[1]
                        && vol.dims[2] / 2 < vol.dims[2]);
                }
                self.volume = Some(vol);
                self.voxdim = sp;
                self.ras_origin = org;
                Ok(())
            },
            Err(e) => Err(e),
        }
    }

    /// Converts a slice index along one world axis to its display
    /// coordinate, using the loaded grid's origin and spacing.
    pub fn voxel_to_mm(&self, axis: usize, idx: usize) -> (mm: i64)
        requires
            self.wf(),
            axis < 3,
            idx < DIM_LIMIT,
        ensures
            mm as int == voxel_to_mm_spec(
                self.ras_origin[axis as int] as int,
                self.voxdim[axis as int] as int,
                axis as int,
                idx as int,
            ),
            abs_val(mm as int) <= MM_LIMIT,
    {
        mapper::voxel_to_mm(self.ras_origin[axis], self.voxdim[axis], axis, idx)
    }

    /// Converts a display coordinate back to the nearest in-range slice
    /// index of the loaded grid.
    pub fn mm_to_voxel(&self, axis: usize, mm: i64) -> (idx: usize)
        requires
            self.wf(),
            self.volume is Some,
            axis < 3,
            -MM_LIMIT <= mm <= MM_LIMIT,
        ensures
            idx as int == mm_to_voxel_spec(
                self.ras_origin[axis as int] as int,
                self.voxdim[axis as int] as int,
                self.volume->Some_0.dims[axis as int] as int,
                axis as int,
                mm as int,
            ),
            idx < self.volume->Some_0.dims[axis as int],
    {
        let n = match &self.volume {
            Some(v) => v.dim(axis),
            None => 1,
        };
        mapper::mm_to_voxel(self.ras_origin[axis], self.voxdim[axis], n, axis, mm)
    }

    /// Returns the three orthogonal cross-sections at the current slice
    /// indices, or nothing when no grid is loaded.
    pub fn get_slices(&self) -> (r: Option<(Slice2<T>, Slice2<T>, Slice2<T>)>)
        requires
            self.wf(),
        ensures
            r is Some <==> self.volume is Some,
            r matches Some(s) ==> {
                let v = self.volume->Some_0;
                &&& s.0.wf() && s.1.wf() && s.2.wf()
                &&& s.0.rows as int == section_rows(v, 0) && s.0.cols as int == section_cols(v, 0)
                &&& s.1.rows as int == section_rows(v, 1) && s.1.cols as int == section_cols(v, 1)
                &&& s.2.rows as int == section_rows(v, 2) && s.2.cols as int == section_cols(v, 2)
                &&& forall|a: int, b: int|
                    0 <= a < s.0.rows && 0 <= b < s.0.cols ==> #[trigger] s.0.at(a, b)
                        == section_cell(v, 0, self.slice_x as int, a, b)
                &&& forall|a: int, b: int|
                    0 <= a < s.1.rows && 0 <= b < s.1.cols ==> #[trigger] s.1.at(a, b)
                        == section_cell(v, 1, self.slice_y as int, a, b)
                &&& forall|a: int, b: int|
                    0 <= a < s.2.rows && 0 <= b < s.2.cols ==> #[trigger] s.2.at(a, b)
                        == section_cell(v, 2, self.slice_z as int, a, b)
            },
    {
        match &self.volume {
            Some(v) => {
                let sagittal = slice_at(v, 0, self.slice_x);
                let coronal = slice_at(v, 1, self.slice_y);
                let axial = slice_at(v, 2, self.slice_z);
                Some((sagittal, coronal, axial))
            },
            None => None,
        }
    }

    /// Sets the slice index of one world axis to an in-range value.
    pub fn set_slice(&mut self, axis: usize, idx: usize)
        requires
            old(self).wf(),
            old(self).volume is Some,
            axis < 3,
            idx < old(self).volume->Some_0.dims[axis as int],
        ensures
            final (self).wf(),
            final (self).volume == old(self).volume,
            final (self).voxdim == old(self).voxdim,
            final (self).ras_origin == old(self).ras_origin,
            final (self).pending_bytes == old(self).pending_bytes,
            final (self).slice_x == (if axis == 0 {
                idx
            } else {
                old(self).slice_x
            }),
            final (self).slice_y == (if axis == 1 {
                idx
            } else {
                old(self).slice_y
            }),
            final (self).slice_z == (if axis == 2 {
                idx
            } else {
                old(self).slice_z
            }),
    {
        if axis == 0 {
            self.slice_x = idx;
        } else if axis == 1 {
            self.slice_y = idx;
        } else {
            self.slice_z = idx;
        }
    }

    /// Moves the slice index of one world axis a step toward the far end,
    /// stopping at the last slice.
    pub fn increment_slice(&mut self, axis: usize)
        requires
            old(self).wf(),
            old(self).volume is Some,
            axis < 3,
        ensures
            final (self).wf(),
            final (self).volume == old(self).volume,
            final (self).voxdim == old(self).voxdim,
            final (self).ras_origin == old(self).ras_origin,
            final (self).pending_bytes == old(self).pending_bytes,
            ({
                let dims = old(self).volume->Some_0.dims;
                &&& final (self).slice_x as int == (if axis == 0 && old(self).slice_x < dims[0]
                    - 1 {
                    old(self).slice_x + 1
                } else {
                    old(self).slice_x as int
                })
                &&& final (self).slice_y as int == (if axis == 1 && old(self).slice_y < dims[1]
                    - 1 {
                    old(self).slice_y + 1
                } else {
                    old(self).slice_y as int
                })
                &&& final (self).slice_z as int == (if axis == 2 && old(self).slice_z < dims[2]
                    - 1 {
                    old(self).slice_z + 1
                } else {
                    old(self).slice_z as int
                })
            }),
    {
        let dims = match &self.volume {
            Some(v) => v.dims,
            None => [1, 1, 1],
        };
        if axis == 0 {
            if self.slice_x < dims[0] - 1 {
                self.slice_x = self.slice_x + 1;
            }
        } else if axis == 1 {
            if self.slice_y < dims[1] - 1 {
                self.slice_y = self.slice_y + 1;
            }
        } else {
            if self.slice_z < dims[2] - 1 {
                self.slice_z = self.slice_z + 1;
            }
        }
    }

    /// Moves the slice index of one world axis a step toward the near end,
    /// stopping at the first slice.
    pub fn decrement_slice(&mut self, axis: usize)
        requires
            old(self).wf(),
            axis < 3,
        ensures
            final (self).wf(),
            final (self).volume == old(self).volume,
            final (self).voxdim == old(self).voxdim,
            final (self).ras_origin == old(self).ras_origin,
            final (self).pending_bytes == old(self).pending_bytes,
            final (self).slice_x == (if axis == 0 && old(self).slice_x > 0 {
                (old(self).slice_x - 1) as usize
            } else {
                old(self).slice_x
            }),
            final (self).slice_y == (if axis == 1 && old(self).slice_y > 0 {
                (old(self).slice_y - 1) as usize
            } else {
                old(self).slice_y
            }),
            final (self).slice_z == (if axis == 2 && old(self).slice_z > 0 {
                (old(self).slice_z - 1) as usize
            } else {
                old(self).slice_z
            }),
    {
        if axis == 0 {
            if self.slice_x > 0 {
                self.slice_x = self.slice_x - 1;
            }
        } else if axis == 1 {
            if self.slice_y > 0 {
                self.slice_y = self.slice_y - 1;
            }
        } else {
            if self.slice_z > 0 {
                self.slice_z = self.slice_z - 1;
            }
        }
    }
}

} // verus!
