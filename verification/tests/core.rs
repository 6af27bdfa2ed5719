use elfentier_core::mesh::{create_unit_box_mesh, Mesh};
use elfentier_core::{core_version, create_box_mesh, MeshStats};

#[test]
fn core_version_is_alpha_one() {
    assert!(core_version().contains("alpha.1"));
}

#[test]
fn create_box_mesh_returns_expected_counts() {
    let stats = create_box_mesh();
    assert_eq!(stats.vertex_count, 8);
    assert_eq!(stats.index_count, 36);
    assert_eq!(stats.triangle_count, 12);
}

#[test]
fn unit_box_has_eight_corners_and_twelve_triangles() {
    let mesh = create_unit_box_mesh();
    assert_eq!(mesh.positions.len(), 8);
    assert_eq!(mesh.indices.len(), 36);
    assert!(mesh.indices.iter().all(|&i| (i as usize) < mesh.positions.len()));
    let half = 0.5f32.to_bits();
    let neg_half = (-0.5f32).to_bits();
    assert_eq!(mesh.positions[0], [neg_half, neg_half, neg_half]);
    assert_eq!(mesh.positions[6], [half, half, half]);
}

#[test]
fn merge_offsets_indices_of_the_second_mesh() {
    let mut a = create_unit_box_mesh();
    let b = create_unit_box_mesh();
    a.merge(&b);
    assert_eq!(a.positions.len(), 16);
    assert_eq!(a.indices.len(), 72);
    assert_eq!(a.indices[36], b.indices[0] + 8);
    assert!(a.indices.iter().all(|&i| (i as usize) < a.positions.len()));
}

#[test]
fn quad_adds_two_triangles() {
    let mut m = Mesh::unnamed();
    let z = 0u32;
    let one = 1.0f32.to_bits();
    m.add_quad([z, z, z], [one, z, z], [one, one, z], [z, one, z]);
    assert_eq!(m.indices, vec![0, 1, 2, 0, 2, 3]);
    let stats = MeshStats::from(&m);
    assert_eq!(stats.vertex_count, 4);
    assert_eq!(stats.triangle_count, 2);
}
