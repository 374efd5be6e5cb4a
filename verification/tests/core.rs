use ras_viewer::affine::get_affine_3x3;
use ras_viewer::affine::get_translation;
use ras_viewer::header::Header;
use ras_viewer::header::OrientationSource;
use ras_viewer::header::orientation_source;
use ras_viewer::mapping::AxisMapping;
use ras_viewer::reorient::reorient_to_ras;
use ras_viewer::reorient::ReorientError;
use ras_viewer::volume::Volume;
use ras_viewer::SCALE;

fn plain_header() -> Header {
    Header {
        sform_code: 0,
        qform_code: 0,
        srow_x: [0, 0, 0, 0],
        srow_y: [0, 0, 0, 0],
        srow_z: [0, 0, 0, 0],
        quatern_b: 0,
        quatern_c: 0,
        quatern_d: 0,
        quatern_x: 0,
        quatern_y: 0,
        quatern_z: 0,
        pixdim: [0, SCALE, SCALE, SCALE],
    }
}

fn volume_with_index_values(dims: [usize; 3]) -> Volume<u32> {
    let n = dims[0] * dims[1] * dims[2];
    let mut data = Vec::with_capacity(n);
    for i in 0..n {
        data.push(i as u32);
    }
    Volume::new(dims, data).expect("volume must build")
}

#[test]
fn orientation_source_precedence() {
    let mut h = plain_header();
    assert_eq!(orientation_source(&h), OrientationSource::SpacingOnly);
    h.qform_code = 2;
    assert_eq!(orientation_source(&h), OrientationSource::Qform);
    h.sform_code = 1;
    assert_eq!(orientation_source(&h), OrientationSource::Sform);
}

#[test]
fn header_well_formedness_bounds() {
    let mut h = plain_header();
    assert!(h.check_wf());
    h.quatern_b = 3_000_000;
    assert!(!h.check_wf());
    let mut h = plain_header();
    h.pixdim[1] = 0;
    assert!(!h.check_wf());
}

#[test]
fn identity_case_leaves_volume_untouched() {
    let h = plain_header();
    let vol = volume_with_index_values([2, 3, 4]);
    let (out, spacing, origin) = reorient_to_ras(vol, &h).expect("identity header reorients");
    assert_eq!(out.dims, [2, 3, 4]);
    assert_eq!(spacing, [SCALE, SCALE, SCALE]);
    assert_eq!(origin, [0, 0, 0]);
    for i in 0..2 {
        for j in 0..3 {
            for k in 0..4 {
                let expected = ((i * 3 + j) * 4 + k) as u32;
                assert_eq!(out.get(i, j, k), expected);
            }
        }
    }
}

#[test]
fn sform_affine_rows_and_translation() {
    let mut h = plain_header();
    h.sform_code = 1;
    h.srow_x = [-SCALE, 0, 0, 90 * SCALE];
    h.srow_y = [0, SCALE, 0, -126 * SCALE];
    h.srow_z = [0, 0, SCALE, -72 * SCALE];
    let m = get_affine_3x3(&h);
    assert_eq!(m[0], [-SCALE, 0, 0]);
    assert_eq!(m[1], [0, SCALE, 0]);
    assert_eq!(m[2], [0, 0, SCALE]);
    let t = get_translation(&h);
    assert_eq!(t, [90 * SCALE, -126 * SCALE, -72 * SCALE]);
}

#[test]
fn quaternion_identity_rotation() {
    let mut h = plain_header();
    h.qform_code = 1;
    let m = get_affine_3x3(&h);
    assert_eq!(m[0], [SCALE, 0, 0]);
    assert_eq!(m[1], [0, SCALE, 0]);
    assert_eq!(m[2], [0, 0, SCALE]);
}

#[test]
fn quaternion_identity_scales_columns_by_spacing() {
    let mut h = plain_header();
    h.qform_code = 1;
    h.pixdim = [0, 2 * SCALE, 3 * SCALE, 4 * SCALE];
    h.quatern_x = 7 * SCALE;
    h.quatern_y = -8 * SCALE;
    h.quatern_z = 9 * SCALE;
    let m = get_affine_3x3(&h);
    assert_eq!(m[0], [2 * SCALE, 0, 0]);
    assert_eq!(m[1], [0, 3 * SCALE, 0]);
    assert_eq!(m[2], [0, 0, 4 * SCALE]);
    let t = get_translation(&h);
    assert_eq!(t, [7 * SCALE, -8 * SCALE, 9 * SCALE]);
}

#[test]
fn quaternion_negative_qfac_flips_third_column() {
    let mut h = plain_header();
    h.qform_code = 1;
    h.pixdim = [-SCALE, SCALE, SCALE, SCALE];
    let m = get_affine_3x3(&h);
    assert_eq!(m[0], [SCALE, 0, 0]);
    assert_eq!(m[1], [0, SCALE, 0]);
    assert_eq!(m[2], [0, 0, -SCALE]);
}

#[test]
fn quaternion_half_turn_about_z() {
    // b = c = 0, d = 1: rotation by half a turn about the third axis.
    let mut h = plain_header();
    h.qform_code = 1;
    h.quatern_d = SCALE;
    let m = get_affine_3x3(&h);
    assert_eq!(m[0], [-SCALE, 0, 0]);
    assert_eq!(m[1], [0, -SCALE, 0]);
    assert_eq!(m[2], [0, 0, SCALE]);
}

#[test]
fn axis_mapping_bijection_on_permuted_affine() {
    // Voxel axes stored as (A, S, R): column 0 dominates row 1, column 1
    // dominates row 2, column 2 dominates row 0.
    let mut h = plain_header();
    h.sform_code = 1;
    h.srow_x = [0, 0, SCALE, 0];
    h.srow_y = [SCALE, 0, 0, 0];
    h.srow_z = [0, SCALE, 0, 0];
    let m = get_affine_3x3(&h);
    let am = AxisMapping::compute(&m).expect("permutation matrix is not degenerate");
    assert_eq!(am.voxel_to_world, [1, 2, 0]);
    assert_eq!(am.world_to_voxel, [2, 0, 1]);
    assert_eq!(am.flip, [false, false, false]);
    for c in 0..3 {
        assert_eq!(am.world_to_voxel[am.voxel_to_world[c]], c);
        assert_eq!(am.voxel_to_world[am.world_to_voxel[c]], c);
    }
}

#[test]
fn degenerate_same_dominant_row_is_rejected() {
    let mut h = plain_header();
    h.sform_code = 1;
    // Both of the first two columns dominate row 0.
    h.srow_x = [SCALE, SCALE, 0, 0];
    h.srow_y = [0, 0, SCALE, 0];
    h.srow_z = [0, 0, 0, 0];
    let m = get_affine_3x3(&h);
    assert!(AxisMapping::compute(&m).is_none());
    let vol = volume_with_index_values([2, 2, 2]);
    match reorient_to_ras(vol, &h) {
        Err(e) => assert_eq!(e, ReorientError::DegenerateOrientation),
        Ok(_) => panic!("expected a degenerate-orientation error"),
    }
}

#[test]
fn degenerate_zero_column_is_rejected() {
    let mut h = plain_header();
    h.sform_code = 1;
    h.srow_x = [SCALE, 0, 0, 0];
    h.srow_y = [0, SCALE, 0, 0];
    h.srow_z = [0, 0, 0, 0];
    let m = get_affine_3x3(&h);
    assert!(AxisMapping::compute(&m).is_none());
}

#[test]
fn sform_scenario_flips_first_axis() {
    let mut h = plain_header();
    h.sform_code = 1;
    h.srow_x = [-SCALE, 0, 0, 90 * SCALE];
    h.srow_y = [0, SCALE, 0, -126 * SCALE];
    h.srow_z = [0, 0, SCALE, -72 * SCALE];
    let m = get_affine_3x3(&h);
    let am = AxisMapping::compute(&m).expect("scenario affine is not degenerate");
    assert_eq!(am.voxel_to_world, [0, 1, 2]);
    assert_eq!(am.flip, [true, false, false]);

    let dims = [181, 217, 181];
    let n = dims[0] * dims[1] * dims[2];
    let mut data = vec![0u8; n];
    // Mark original voxel (0, 5, 7); the first axis reverses, so it lands
    // at (180, 5, 7).
    data[(0 * 217 + 5) * 181 + 7] = 42;
    let vol = Volume::new(dims, data).expect("volume must build");
    let (out, spacing, origin) = reorient_to_ras(vol, &h).expect("scenario reorients");
    assert_eq!(out.dims, [181, 217, 181]);
    assert_eq!(spacing, [SCALE, SCALE, SCALE]);
    assert_eq!(origin, [-90 * SCALE, -126 * SCALE, -72 * SCALE]);
    assert_eq!(out.get(180, 5, 7), 42);
    assert_eq!(out.get(0, 5, 7), 0);
}

#[test]
fn reorient_permutes_and_flips_axes() {
    // Voxel axes stored as (A, S, R) with the second voxel axis reversed.
    let mut h = plain_header();
    h.sform_code = 1;
    h.srow_x = [0, 0, SCALE, 0];
    h.srow_y = [SCALE, 0, 0, 0];
    h.srow_z = [0, -SCALE, 0, 0];
    h.pixdim = [0, SCALE, 2 * SCALE, 3 * SCALE];
    let vol = volume_with_index_values([2, 3, 4]);
    let (out, spacing, origin) = reorient_to_ras(vol, &h).expect("reorients");
    // World axis 0 reads voxel axis 2, axis 1 reads voxel axis 0, axis 2
    // reads voxel axis 1 (reversed).
    assert_eq!(out.dims, [4, 2, 3]);
    assert_eq!(spacing, [3 * SCALE, SCALE, 2 * SCALE]);
    // Start voxel: axis 1 of the grid is flipped, so it starts at index 2;
    // world position = column 1 of the affine times 2 = (0, 0, -2 mm)... at
    // spacing scale the entry is -SCALE, so origin = [0, 0, -2 * SCALE].
    assert_eq!(origin, [0, 0, -2 * SCALE]);
    for x in 0..4 {
        for y in 0..2 {
            for z in 0..3 {
                let expected = ((y * 3 + (2 - z)) * 4 + x) as u32;
                assert_eq!(out.get(x, y, z), expected);
            }
        }
    }
}
