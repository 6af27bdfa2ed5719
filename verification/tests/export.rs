use elfentier_core::export::gltf_json;
use elfentier_core::export::{
    encode_glb, escape_json, glb_export_result, graph_mode_label, mesh_binary_payload, sanitize_dir_name,
    GraphMode,
};
use elfentier_core::mesh::create_unit_box_mesh;

#[test]
fn escapes_quotes_and_backslashes() {
    assert_eq!(escape_json(r#"a"b\c"#), r#"a\"b\\c"#);
    assert_eq!(escape_json("plain"), "plain");
}

#[test]
fn sanitizes_directory_names() {
    assert_eq!(sanitize_dir_name("Shop Street"), "shop_street");
    assert_eq!(sanitize_dir_name("__Smoke  Puff!!"), "smoke__puff");
    assert_eq!(sanitize_dir_name("***"), "cook");
    assert_eq!(sanitize_dir_name(""), "cook");
    assert_eq!(sanitize_dir_name("煙A"), "a");
    let long = "x".repeat(60);
    assert_eq!(sanitize_dir_name(&long), "x".repeat(48));
}

#[test]
fn graph_mode_labels() {
    assert_eq!(graph_mode_label(GraphMode::City), "city");
    assert_eq!(graph_mode_label(GraphMode::Smoke), "smoke");
    assert_eq!(graph_mode_label(GraphMode::Liquid), "liquid");
}

#[test]
fn glb_container_layout() {
    let json = br#"{"a":1}"#;
    let bin = [1u8, 2, 3, 4, 5];
    let out = encode_glb(json, &bin);
    assert_eq!(&out[0..4], b"glTF");
    assert_eq!(u32::from_le_bytes([out[4], out[5], out[6], out[7]]), 2);
    let total = u32::from_le_bytes([out[8], out[9], out[10], out[11]]) as usize;
    assert_eq!(total, out.len());
    assert_eq!(out.len(), 12 + 8 + 8 + 8 + 8);
    assert_eq!(u32::from_le_bytes([out[12], out[13], out[14], out[15]]), 8);
    assert_eq!(&out[16..20], b"JSON");
    assert_eq!(&out[20..27], json);
    assert_eq!(out[27], b' ');
    assert_eq!(u32::from_le_bytes([out[28], out[29], out[30], out[31]]), 8);
    assert_eq!(&out[32..36], b"BIN\0");
    assert_eq!(&out[36..41], &bin);
    assert_eq!(&out[41..44], &[0, 0, 0]);
}

#[test]
fn box_mesh_payload_and_result() {
    let mesh = create_unit_box_mesh();
    let bin = mesh_binary_payload(&mesh);
    assert_eq!(bin.len(), 8 * 12 + 36 * 4);
    assert_eq!(f32::from_le_bytes([bin[0], bin[1], bin[2], bin[3]]), -0.5);
    let r = glb_export_result(&mesh, "out.glb", 99);
    assert_eq!(r.vertex_count, 8);
    assert_eq!(r.triangle_count, 12);
    assert_eq!(r.byte_len, 99);
    assert_eq!(r.path, "out.glb");
}

use elfentier_core::export::{encode_density_atlas, encode_particle_cache, ParticleFrame, LIQUID_CACHE_FORMAT, SMOKE_ATLAS_FORMAT};

#[test]
fn density_atlas_payload() {
    let atlas = vec![0.5f32.to_bits(), 0.25f32.to_bits()];
    let (bytes, r) = encode_density_atlas("a.raw", 2, [1, 1, 4], &atlas);
    let header = "# elfentier smoke density atlas v1\n# frames=2 res=1x1\n# data=f32 little-endian row-major XY per slice, frame-major\n";
    assert_eq!(&bytes[..header.len()], header.as_bytes());
    assert_eq!(&bytes[header.len()..], &[0, 0, 0, 0x3f, 0, 0, 0x80, 0x3e]);
    assert_eq!(r.byte_len, 8 + 128);
    assert_eq!(r.frame_count, 2);
    assert_eq!(r.format, SMOKE_ATLAS_FORMAT);
    let (none, empty) = encode_density_atlas("a.raw", 0, [1, 1, 1], &atlas);
    assert!(none.is_empty());
    assert_eq!((empty.frame_count, empty.byte_len), (0, 0));
}

#[test]
fn particle_cache_payload() {
    let frames = vec![
        ParticleFrame {
            particle_count: 2,
            positions: vec![1.0f32.to_bits(), 2.0f32.to_bits(), 3.0f32.to_bits(), 4.0f32.to_bits()],
            radii: vec![0.5f32.to_bits()],
        },
        ParticleFrame { particle_count: 0, positions: vec![], radii: vec![] },
    ];
    let (bytes, r) = encode_particle_cache("c.raw", &frames);
    let header = "# elfentier liquid particle cache v1\n# frames=2 particles_per_frame=2\n# layout=frame-major [x,y,z,radius] f32 little-endian\n";
    assert_eq!(&bytes[..header.len()], header.as_bytes());
    let words: Vec<f32> = bytes[header.len()..]
        .chunks_exact(4)
        .map(|c| f32::from_le_bytes([c[0], c[1], c[2], c[3]]))
        .collect();
    assert_eq!(words, vec![1.0, 2.0, 3.0, 0.5, 4.0, 0.0, 0.0, 0.1]);
    assert_eq!(r.byte_len, 32);
    assert_eq!(r.frame_count, 2);
    assert_eq!(r.format, LIQUID_CACHE_FORMAT);
}

#[test]
fn atlas_header_prints_multi_digit_counts() {
    let atlas = vec![0u32; 2];
    let (bytes, result) = encode_density_atlas("a.raw", 10, [1024, 907, 3], &atlas);
    let header = "# elfentier smoke density atlas v1\n# frames=10 res=1024x907\n# data=f32 little-endian row-major XY per slice, frame-major\n";
    assert_eq!(&bytes[..header.len()], header.as_bytes());
    assert_eq!(bytes.len(), header.len() + 8);
    assert_eq!(result.frame_count, 10);
}

#[test]
fn gltf_document_counts_views_and_buffer() {
    let j = gltf_json("Box \"A\"", 8, 36, "-0.5, 0, -0.5", "0.5, 1, 0.5");
    assert!(j.contains(r#""name": "Box \"A\"""#));
    assert!(j.contains(r#""count": 8, "type": "VEC3", "min": [-0.5, 0, -0.5], "max": [0.5, 1, 0.5]"#));
    assert!(j.contains(r#""count": 36, "type": "SCALAR""#));
    assert!(j.contains(r#""byteOffset": 96, "byteLength": 144"#));
    assert!(j.contains(r#""buffers": [{"byteLength": 240}]"#));
    assert!(j.starts_with("{\n  \"asset\""));
    assert!(j.ends_with("}]\n}"));
}
