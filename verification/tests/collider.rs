use elfentier_core::collider::{sphere_indices, torus_indices, ColliderMeshKind};

#[test]
fn sphere_layout_skips_the_pole_triangles() {
    let v = sphere_indices(16, 12);
    assert_eq!(v.len(), 6 * 16 * 11);
    assert!(v.iter().all(|&i| i < 13 * 16));
    assert_eq!(&v[..3], &[1, 16, 17]);
    assert_eq!(&v[v.len() - 3..], &[191, 207, 176]);
}

#[test]
fn sphere_layout_clamps_tiny_counts() {
    let v = sphere_indices(1, 0);
    assert_eq!(v.len(), 18);
    assert_eq!(v, vec![1, 3, 4, 2, 4, 5, 0, 5, 3, 3, 6, 4, 4, 7, 5, 5, 8, 3]);
}

#[test]
fn torus_layout_wraps_both_ways() {
    let v = torus_indices(24, 12);
    assert_eq!(v.len(), 6 * 24 * 12);
    assert!(v.iter().all(|&i| i < 24 * 12));
    assert_eq!(&v[..6], &[0, 12, 1, 1, 12, 13]);
    assert_eq!(&v[v.len() - 6..], &[287, 11, 276, 276, 11, 0]);
}

#[test]
fn collider_meshes_default_to_a_box() {
    assert_eq!(ColliderMeshKind::default(), ColliderMeshKind::Box);
}
