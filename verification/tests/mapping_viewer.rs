use ras_viewer::header::Header;
use ras_viewer::mapper::mm_to_voxel;
use ras_viewer::mapper::voxel_to_mm;
use ras_viewer::viewer::is_gzip;
use ras_viewer::viewer::NiftiViewer;
use ras_viewer::volume::Volume;
use ras_viewer::SCALE;

fn plain_header() -> Header {
    Header {
        sform_code: 0,
        qform_code: 0,
        srow_x: [0, 0, 0, 0],
        srow_y: [0, 0, 0, 0],
        srow_z: [0, 0, 0, 0],
        quatern_b: 0,
        quatern_c: 0,
        quatern_d: 0,
        quatern_x: 0,
        quatern_y: 0,
        quatern_z: 0,
        pixdim: [0, SCALE, SCALE, SCALE],
    }
}

fn volume_with_index_values(dims: [usize; 3]) -> Volume<u32> {
    let n = dims[0] * dims[1] * dims[2];
    let mut data = Vec::with_capacity(n);
    for i in 0..n {
        data.push(i as u32);
    }
    Volume::new(dims, data).expect("volume must build")
}

#[test]
fn volume_construction_rejects_bad_shapes() {
    assert!(Volume::new([2, 3, 4], vec![0u8; 24]).is_some());
    assert!(Volume::new([2, 3, 4], vec![0u8; 23]).is_none());
    assert!(Volume::new([0, 3, 4], vec![0u8; 0]).is_none());
    assert!(Volume::new([70_000, 1, 1], vec![0u8; 70_000]).is_none());
}

#[test]
fn voxel_to_mm_exact_values() {
    // Axis 2 (Superior) is not negated.
    assert_eq!(voxel_to_mm(-72 * SCALE, SCALE, 2, 22), -50 * SCALE);
    // Axes 0 and 1 are negated for the display convention.
    assert_eq!(voxel_to_mm(-90 * SCALE, 2 * SCALE, 0, 5), 80 * SCALE);
    assert_eq!(voxel_to_mm(-126 * SCALE, SCALE, 1, 0), 126 * SCALE);
}

#[test]
fn mm_to_voxel_exact_values() {
    assert_eq!(mm_to_voxel(-72 * SCALE, SCALE, 181, 2, -50 * SCALE), 22);
    assert_eq!(mm_to_voxel(-90 * SCALE, 2 * SCALE, 181, 0, 80 * SCALE), 5);
}

#[test]
fn mm_to_voxel_rounds_half_away_from_zero() {
    // Offset of 2.5 spacings rounds up to 3.
    assert_eq!(mm_to_voxel(0, 2, 100, 2, 5), 3);
    // Offset of 1.5 spacings rounds up to 2.
    assert_eq!(mm_to_voxel(0, 2, 100, 2, 3), 2);
    // An exact multiple stays put.
    assert_eq!(mm_to_voxel(0, 2, 100, 2, 4), 2);
}

#[test]
fn mm_to_voxel_clamps_out_of_range() {
    // Far past the last voxel on the unnegated axis.
    assert_eq!(mm_to_voxel(0, SCALE, 10, 2, 1_000 * SCALE), 9);
    // Far before the first voxel.
    assert_eq!(mm_to_voxel(0, SCALE, 10, 2, -1_000 * SCALE), 0);
    // On a negated axis large positive display values map to index 0.
    assert_eq!(mm_to_voxel(0, SCALE, 10, 0, 1_000 * SCALE), 0);
    assert_eq!(mm_to_voxel(0, SCALE, 10, 0, -1_000 * SCALE), 9);
}

#[test]
fn mm_voxel_round_trip_on_every_axis() {
    let origins: [i64; 3] = [-90 * SCALE, -126 * SCALE, -72 * SCALE];
    let spacings: [i64; 3] = [SCALE, 2 * SCALE, 3 * SCALE];
    let n = 181;
    for axis in 0..3 {
        for idx in [0usize, 1, 90, 179, 180] {
            let mm = voxel_to_mm(origins[axis], spacings[axis], axis, idx);
            assert_eq!(mm_to_voxel(origins[axis], spacings[axis], n, axis, mm), idx);
        }
    }
}

#[test]
fn viewer_load_centers_slices() {
    let mut viewer: NiftiViewer<u32> = NiftiViewer::new();
    assert!(viewer.volume.is_none());
    let vol = volume_with_index_values([4, 6, 8]);
    viewer.load_volume(vol, &plain_header()).expect("loads");
    assert_eq!(viewer.slice_x, 2);
    assert_eq!(viewer.slice_y, 3);
    assert_eq!(viewer.slice_z, 4);
    assert_eq!(viewer.voxdim, [SCALE, SCALE, SCALE]);
    assert_eq!(viewer.ras_origin, [0, 0, 0]);
}

#[test]
fn failed_load_preserves_previous_state() {
    let mut viewer: NiftiViewer<u32> = NiftiViewer::new();
    viewer
        .load_volume(volume_with_index_values([4, 6, 8]), &plain_header())
        .expect("first load succeeds");
    let mut bad = plain_header();
    bad.sform_code = 1;
    bad.srow_x = [SCALE, SCALE, 0, 0];
    bad.srow_y = [0, 0, SCALE, 0];
    bad.srow_z = [0, 0, 0, 0];
    let r = viewer.load_volume(volume_with_index_values([2, 2, 2]), &bad);
    assert!(r.is_err());
    let v = viewer.volume.as_ref().expect("previous volume kept");
    assert_eq!(v.dims, [4, 6, 8]);
    assert_eq!(viewer.slice_x, 2);
    assert_eq!(viewer.slice_y, 3);
    assert_eq!(viewer.slice_z, 4);
}

#[test]
fn viewer_slices_match_volume() {
    let mut viewer: NiftiViewer<u32> = NiftiViewer::new();
    assert!(viewer.get_slices().is_none());
    let vol = volume_with_index_values([3, 4, 5]);
    viewer.load_volume(vol, &plain_header()).expect("loads");
    let (sagittal, coronal, axial) = viewer.get_slices().expect("slices exist");
    let v = viewer.volume.as_ref().unwrap();
    assert_eq!((sagittal.rows, sagittal.cols), (4, 5));
    assert_eq!((coronal.rows, coronal.cols), (3, 5));
    assert_eq!((axial.rows, axial.cols), (3, 4));
    for r in 0..4 {
        for c in 0..5 {
            assert_eq!(sagittal.get(r, c), v.get(1, r, c));
        }
    }
    for r in 0..3 {
        for c in 0..5 {
            assert_eq!(coronal.get(r, c), v.get(r, 2, c));
        }
    }
    for r in 0..3 {
        for c in 0..4 {
            assert_eq!(axial.get(r, c), v.get(r, c, 2));
        }
    }
}

#[test]
fn presented_transposes_and_reverses() {
    let vol = volume_with_index_values([3, 4, 5]);
    let slice = {
        let mut viewer: NiftiViewer<u32> = NiftiViewer::new();
        viewer.load_volume(vol, &plain_header()).expect("loads");
        let (_, _, axial) = viewer.get_slices().expect("slices exist");
        axial
    };
    // axial: rows = 3, cols = 4.
    let p = slice.presented();
    assert_eq!((p.rows, p.cols), (4, 3));
    for r in 0..4 {
        for c in 0..3 {
            assert_eq!(p.get(r, c), slice.get(2 - c, 3 - r));
        }
    }
}

#[test]
fn slice_stepping_stays_in_range() {
    let mut viewer: NiftiViewer<u32> = NiftiViewer::new();
    viewer
        .load_volume(volume_with_index_values([2, 3, 4]), &plain_header())
        .expect("loads");
    assert_eq!(viewer.slice_x, 1);
    viewer.increment_slice(0);
    assert_eq!(viewer.slice_x, 1);
    viewer.decrement_slice(0);
    assert_eq!(viewer.slice_x, 0);
    viewer.decrement_slice(0);
    assert_eq!(viewer.slice_x, 0);
    viewer.increment_slice(2);
    assert_eq!(viewer.slice_z, 3);
    viewer.increment_slice(2);
    assert_eq!(viewer.slice_z, 3);
}

#[test]
fn pending_bytes_mailbox() {
    let mut viewer: NiftiViewer<u32> = NiftiViewer::new();
    assert_eq!(viewer.take_pending_bytes(), None);
    viewer.set_pending_bytes(vec![1, 2, 3]);
    assert_eq!(viewer.take_pending_bytes(), Some(vec![1, 2, 3]));
    assert_eq!(viewer.take_pending_bytes(), None);
}

#[test]
fn gzip_signature_detection() {
    assert!(is_gzip(&[0x1f, 0x8b, 0x08]));
    assert!(is_gzip(&[0x1f, 0x8b]));
    assert!(!is_gzip(&[0x1f]));
    assert!(!is_gzip(&[]));
    assert!(!is_gzip(&[0x50, 0x4b, 0x03, 0x04]));
}
