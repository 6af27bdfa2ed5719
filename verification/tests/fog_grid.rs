use elfentier_core::fog_grid::{dense_density, fog_resolution, FogVoxel};

fn v(x: i32, y: i32, z: i32, value: f32) -> FogVoxel {
    FogVoxel { coord: [x, y, z], value: value.to_bits() }
}

#[test]
fn voxels_land_x_fastest_and_the_rest_stays_zero() {
    let d = dense_density([2, 3, 2], &[v(1, 0, 0, 0.5), v(0, 2, 1, 0.25)]);
    assert_eq!(d.len(), 12);
    assert_eq!(f32::from_bits(d[1]), 0.5);
    assert_eq!(f32::from_bits(d[0 + 2 * (2 + 3 * 1)]), 0.25);
    assert_eq!(d.iter().filter(|&&b| b != 0).count(), 2);
}

#[test]
fn voxels_outside_the_grid_are_skipped_and_later_ones_win() {
    let d = dense_density([2, 2, 2], &[v(-1, 0, 0, 1.0), v(2, 0, 0, 1.0), v(0, 0, 5, 1.0), v(1, 1, 1, 0.1), v(1, 1, 1, 0.7)]);
    assert_eq!(f32::from_bits(d[7]), 0.7);
    assert_eq!(d.iter().filter(|&&b| b != 0).count(), 1);
}

#[test]
fn an_empty_grid_has_no_voxels() {
    assert!(dense_density([0, 4, 4], &[v(0, 0, 0, 1.0)]).is_empty());
}

#[test]
fn recorded_resolution_wins_over_the_box() {
    let r = fog_resolution([Some(12), Some(11), Some(10)], Some(([0, 0, 0], [3, 3, 3])));
    assert_eq!(r, [12, 11, 10]);
}

#[test]
fn box_extent_sizes_the_grid_without_metadata() {
    assert_eq!(fog_resolution([Some(12), None, Some(10)], Some(([0, 2, -1], [7, 4, -3]))), [8, 3, 1]);
    assert_eq!(fog_resolution([None, None, None], None), [1, 1, 1]);
}
