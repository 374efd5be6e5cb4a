//! Reorientation of volumetric scans into the canonical RAS frame, with a
//! bidirectional mapping between voxel indices and physical millimeter
//! coordinates.
//!
//! All physical quantities (matrix entries, spacings, origins, millimeter
//! positions) are carried as fixed-point integers: an `i64` counting units of
//! `1 / SCALE` millimeters. This keeps every computation exact and checkable;
//! the surrounding application converts to and from its own scalar types at
//! the boundary.

pub mod affine;
pub mod fixed;
pub mod header;
pub mod laws;
pub mod mapper;
pub mod mapping;
pub mod reorient;
pub mod slices;
pub mod viewer;
pub mod volume;

use vstd::prelude::*;

verus! {

/// Fixed-point units per millimeter.
pub const SCALE: i64 = 1_000_000;

/// Largest magnitude accepted for an affine row entry or a translation
/// component (one million millimeters in fixed-point units), so that every
/// intermediate product below stays within `i64`.
pub const COORD_LIMIT: i64 = 1_000_000_000_000;

/// Largest voxel spacing accepted, in fixed-point units (one hundred meters).
pub const SPACING_LIMIT: i64 = 100_000_000_000;

/// Largest magnitude accepted for a quaternion component, in fixed-point
/// units. Unit quaternions stay within `SCALE`; the slack tolerates mildly
/// malformed headers, whose excess norm is clamped away.
pub const QUAT_LIMIT: i64 = 2_000_000;

/// Largest voxel count accepted along one grid axis.
pub const DIM_LIMIT: usize = 65_535;

/// Bound on the magnitude of every direction-matrix entry produced by
/// extraction from a well-formed header.
pub const AFFINE_LIMIT: i64 = 2_000_000_000_000;

/// Bound on the magnitude of a physical origin coordinate of any grid whose
/// header is well-formed and whose axes are within `DIM_LIMIT`.
pub const ORIGIN_LIMIT: i64 = 400_000_000_000_000_000;

/// Largest magnitude accepted for a caller-supplied millimeter position, in
/// fixed-point units.
pub const MM_LIMIT: i64 = 1_000_000_000_000_000_000;

} // verus!
