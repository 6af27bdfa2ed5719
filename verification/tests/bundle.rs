use elfentier_core::bundle::{
    bundle_manifest, bundle_payloads, graph_mode, CookedPayload, ExportBundleResult, EXPORT_FRAME_RATE_BITS,
    GRAPH_SNAPSHOT_FORMAT,
};
use elfentier_core::export::{
    ExportResult, GraphMode, LiquidExportResult, SmokeExportResult, EXPORT_MANIFEST_FORMAT, EXPORT_UNITS, EXPORT_UP_AXIS,
};
use elfentier_core::graph::Graph;
use elfentier_core::openvdb::{OpenVdbExportResult, OPENVDB_FOG_FORMAT};
use elfentier_core::volume_texture::{VolumeTextureExportResult, VOLUME_TEXTURE_FORMAT};

fn smoke_cooked() -> CookedPayload {
    CookedPayload::Smoke {
        atlas: SmokeExportResult {
            path: "/tmp/b/smoke_density.raw".to_string(),
            frame_count: 13,
            byte_len: 900,
            format: "elfentier_smoke_atlas_v1".to_string(),
        },
        texture: VolumeTextureExportResult {
            path: "/tmp/b/volume_texture.evol".to_string(),
            frame_count: 13,
            byte_len: 1000,
            format: VOLUME_TEXTURE_FORMAT.to_string(),
            resolution: [24, 24, 24],
        },
        fog: OpenVdbExportResult {
            path: "/tmp/b/smoke_density.vdb".to_string(),
            grid_name: "density".to_string(),
            frame_index: 12,
            byte_len: 5000,
            format: OPENVDB_FOG_FORMAT.to_string(),
            active_voxels: 300,
            resolution: [24, 24, 24],
        },
        bounds_min: [(-4.0f32).to_bits(), 0, (-4.0f32).to_bits()],
        bounds_max: [4.0f32.to_bits(), 8.0f32.to_bits(), 4.0f32.to_bits()],
        resolution: [24, 24, 24],
    }
}

#[test]
fn graph_modes_follow_the_presets() {
    assert_eq!(graph_mode(&Graph::shop_street_preset()), GraphMode::City);
    assert_eq!(graph_mode(&Graph::grid_block_preset()), GraphMode::City);
    assert_eq!(graph_mode(&Graph::smoke_puff_preset()), GraphMode::Smoke);
    assert_eq!(graph_mode(&Graph::ocean_patch_preset()), GraphMode::Liquid);
}

#[test]
fn city_bundle_writes_manifest_and_glb() {
    let mesh = ExportResult { path: "/tmp/b/city_mesh.glb".to_string(), vertex_count: 8, triangle_count: 12, byte_len: 700 };
    let payloads = bundle_payloads(2048, &CookedPayload::City { mesh });
    assert_eq!(payloads.len(), 2);
    assert_eq!(payloads[0].format, GRAPH_SNAPSHOT_FORMAT);
    assert_eq!(payloads[0].path, "graph.json");
    assert_eq!(payloads[0].byte_len, Some(2048));
    assert_eq!(payloads[1].format, "gltf_glb");
    assert_eq!(payloads[1].path, "city_mesh.glb");
    assert_eq!(payloads[1].vertex_count, Some(8));
    assert_eq!(payloads[1].triangle_count, Some(12));
    let manifest = bundle_manifest("Shop Street", GraphMode::City, "1726217280", payloads.clone());
    assert_eq!(manifest.format, EXPORT_MANIFEST_FORMAT);
    assert_eq!(manifest.units, EXPORT_UNITS);
    assert_eq!(manifest.up_axis, EXPORT_UP_AXIS);
    assert_eq!(f32::from_bits(manifest.frame_rate), 12.0);
    assert_eq!(manifest.frame_rate, EXPORT_FRAME_RATE_BITS);
    assert_eq!(manifest.graph_mode, "city");
    assert_eq!(manifest.version, 1);
    assert_eq!(manifest.created_at, "1726217280");
    assert_eq!(manifest.payloads, payloads);
}

#[test]
fn smoke_bundle_writes_smoke_atlas_and_volume_texture_payloads() {
    let payloads = bundle_payloads(100, &smoke_cooked());
    assert_eq!(payloads.len(), 4);
    assert_eq!(payloads[3].format, OPENVDB_FOG_FORMAT);
    assert_eq!(payloads[3].path, "smoke_density.vdb");
    assert_eq!(payloads[3].frame_count, Some(1));
    assert_eq!(payloads[3].byte_len, Some(5000));
    assert!(payloads.iter().any(|p| p.format == "elfentier_smoke_atlas_v1" && p.path == "smoke_density.raw"));
    assert!(payloads.iter().any(|p| p.format == VOLUME_TEXTURE_FORMAT && p.path == "volume_texture.evol"));
    assert_eq!(payloads[1].frame_count, Some(13));
    assert_eq!(payloads[2].resolution, Some([24, 24, 24]));
    assert_eq!(payloads[2].bounds_max.map(|b| f32::from_bits(b[1])), Some(8.0));
    let manifest = bundle_manifest("Smoke Puff", GraphMode::Smoke, "0", payloads);
    assert_eq!(manifest.graph_mode, "smoke");
}

#[test]
fn liquid_bundle_writes_liquid_cache_payload() {
    let cache = LiquidExportResult {
        path: "/tmp/b/liquid_cache.raw".to_string(),
        frame_count: 20,
        byte_len: 384000,
        format: "elfentier_liquid_cache_v1".to_string(),
    };
    let bounds_min = [(-6.0f32).to_bits(), 0, (-6.0f32).to_bits()];
    let bounds_max = [6.0f32.to_bits(), 3.0f32.to_bits(), 6.0f32.to_bits()];
    let payloads =
        bundle_payloads(10, &CookedPayload::Liquid { cache, bounds_min, bounds_max, resolution: [20, 20, 20] });
    assert_eq!(payloads.len(), 2);
    assert_eq!(payloads[1].format, "elfentier_liquid_cache_v1");
    assert_eq!(payloads[1].path, "liquid_cache.raw");
    assert_eq!(payloads[1].frame_count, Some(20));
    assert_eq!(payloads[1].bounds_min, Some(bounds_min));
    let manifest = bundle_manifest("Ocean Patch", GraphMode::Liquid, "0", payloads);
    assert_eq!(manifest.graph_mode, "liquid");
    assert_eq!(manifest.graph_name, "Ocean Patch");
}

#[test]
fn bundle_result_counts_its_payloads() {
    let payloads = bundle_payloads(1, &smoke_cooked());
    let r = ExportBundleResult::new("/tmp/b".to_string(), "/tmp/b/index".to_string(), payloads);
    assert_eq!(r.payload_count, 4);
}
