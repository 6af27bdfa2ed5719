//! Export bundles: the payload list and the manifest of a cooked graph's bundle directory.
//!
//! A bundle holds the graph snapshot and what the graph cooks to: a city mesh, a smoke
//! density atlas with a volume texture, or a liquid particle cache. The manifest names the
//! format, conventions and payloads. Writing the files is the caller's part; what each
//! payload entry and the manifest say is decided here.

use crate::export::{
    graph_mode_label, graph_mode_text, ExportResult, GraphMode, LiquidExportResult, SmokeExportResult, EXPORT_MANIFEST_FORMAT,
    EXPORT_UNITS, EXPORT_UP_AXIS,
};
use crate::openvdb::{OpenVdbExportResult, OPENVDB_FOG_FORMAT};
use crate::graph::{node_views, Graph, NodeKind, NodeModel};
use crate::plan::{find_first, first_node};
use crate::volume_texture::{VolumeTextureExportResult, VOLUME_TEXTURE_FORMAT};
use crate::{core_version, CORE_VERSION};
use vstd::prelude::*;

verus! {

/// Format of the graph snapshot payload.
pub const GRAPH_SNAPSHOT_FORMAT: &'static str = "elfentier_graph_v1";
/// Format of the city mesh payload.
pub const GLB_PAYLOAD_FORMAT: &'static str = "gltf_glb";
/// Manifest schema version.
pub const MANIFEST_VERSION: u32 = 1;
/// Playback frame rate of fluid payloads, 12 frames per second (`f32` bits), as in the
/// viewport preview.
pub const EXPORT_FRAME_RATE_BITS: u32 = 0x4140_0000;
/// The stem of the manifest's file name in a bundle; its extension is `json`.
pub const MANIFEST_STEM: &'static str = "manifest";
/// The extension of the manifest's file name.
pub const MANIFEST_EXTENSION: &'static str = "json";
/// The graph snapshot's file name in a bundle.
pub const GRAPH_FILE: &'static str = "graph.json";
/// The city mesh's file name in a bundle.
pub const CITY_MESH_FILE: &'static str = "city_mesh.glb";
/// The smoke density atlas's file name in a bundle.
pub const SMOKE_ATLAS_FILE: &'static str = "smoke_density.raw";
/// The volume texture's file name in a bundle.
pub const VOLUME_TEXTURE_FILE: &'static str = "volume_texture.evol";
/// The OpenVDB fog grid's file name in a bundle.
pub const SMOKE_VDB_FILE: &'static str = "smoke_density.vdb";
/// The liquid particle cache's file name in a bundle.
pub const LIQUID_CACHE_FILE: &'static str = "liquid_cache.raw";

/// What a graph cooks to, decided by its nodes: a smoke graph has a smoke root, a liquid
/// graph (without one) has a liquid solver, and every other graph is a city.
pub open spec fn mode_of(nodes: Seq<NodeModel>) -> GraphMode {
    if first_node(nodes, NodeKind::SmokeRoot) is Some {
        GraphMode::Smoke
    } else if first_node(nodes, NodeKind::LiquidSolver) is Some {
        GraphMode::Liquid
    } else {
        GraphMode::City
    }
}

/// What `graph` cooks to.
pub fn graph_mode(graph: &Graph) -> (m: GraphMode)
    ensures
        m == mode_of(node_views(graph.nodes@)),
{
    if find_first(&graph.nodes, NodeKind::SmokeRoot).is_some() {
        GraphMode::Smoke
    } else if find_first(&graph.nodes, NodeKind::LiquidSolver).is_some() {
        GraphMode::Liquid
    } else {
        GraphMode::City
    }
}

/// One payload entry of a bundle manifest; bounds are `f32` bit patterns.
#[derive(Debug, Clone, PartialEq, Eq)]
pub struct ExportPayloadEntry {
    pub format: String,
    pub path: String,
    pub frame_count: Option<u32>,
    pub byte_len: Option<usize>,
    pub vertex_count: Option<u32>,
    pub triangle_count: Option<u32>,
    pub bounds_min: Option<[u32; 3]>,
    pub bounds_max: Option<[u32; 3]>,
    pub resolution: Option<[u32; 3]>,
}

/// A payload entry with its strings as character sequences.
pub struct PayloadModel {
    pub format: Seq<char>,
    pub path: Seq<char>,
    pub frame_count: Option<u32>,
    pub byte_len: Option<usize>,
    pub vertex_count: Option<u32>,
    pub triangle_count: Option<u32>,
    pub bounds_min: Option<[u32; 3]>,
    pub bounds_max: Option<[u32; 3]>,
    pub resolution: Option<[u32; 3]>,
}

impl View for ExportPayloadEntry {
    type V = PayloadModel;

    open spec fn view(&self) -> PayloadModel {
        PayloadModel {
            format: self.format@,
            path: self.path@,
            frame_count: self.frame_count,
            byte_len: self.byte_len,
            vertex_count: self.vertex_count,
            triangle_count: self.triangle_count,
            bounds_min: self.bounds_min,
            bounds_max: self.bounds_max,
            resolution: self.resolution,
        }
    }
}

/// The views of a sequence of payload entries.
pub open spec fn payload_views(s: Seq<ExportPayloadEntry>) -> Seq<PayloadModel> {
    s.map_values(|e: ExportPayloadEntry| e@)
}

/// What a graph was cooked and exported to, with the volume's bounds (`f32` bits) and
/// resolution for fluids.
#[derive(Debug, Clone)]
pub enum CookedPayload {
    City { mesh: ExportResult },
    Smoke {
        atlas: SmokeExportResult,
        texture: VolumeTextureExportResult,
        /// The last density frame as an OpenVDB fog grid.
        fog: OpenVdbExportResult,
        bounds_min: [u32; 3],
        bounds_max: [u32; 3],
        resolution: [u32; 3],
    },
    Liquid { cache: LiquidExportResult, bounds_min: [u32; 3], bounds_max: [u32; 3], resolution: [u32; 3] },
}

/// The mode a cooked payload belongs to.
pub open spec fn cooked_mode(c: CookedPayload) -> GraphMode {
    match c {
        CookedPayload::City { .. } => GraphMode::City,
        CookedPayload::Smoke { .. } => GraphMode::Smoke,
        CookedPayload::Liquid { .. } => GraphMode::Liquid,
    }
}

/// A payload entry with only a format, a path and a byte length.
pub open spec fn plain_entry(format: Seq<char>, path: Seq<char>, byte_len: usize) -> PayloadModel {
    PayloadModel {
        format,
        path,
        frame_count: None,
        byte_len: Some(byte_len),
        vertex_count: None,
        triangle_count: None,
        bounds_min: None,
        bounds_max: None,
        resolution: None,
    }
}

/// A fluid payload entry: frames, byte length, bounds and resolution.
pub open spec fn fluid_entry(
    format: Seq<char>,
    path: Seq<char>,
    frame_count: u32,
    byte_len: usize,
    bounds_min: [u32; 3],
    bounds_max: [u32; 3],
    resolution: [u32; 3],
) -> PayloadModel {
    PayloadModel {
        frame_count: Some(frame_count),
        bounds_min: Some(bounds_min),
        bounds_max: Some(bounds_max),
        resolution: Some(resolution),
        ..plain_entry(format, path, byte_len)
    }
}

/// The entries a cooked payload adds after the graph snapshot: the city mesh with its
/// counts; the smoke atlas, the volume texture and the one-frame OpenVDB fog grid, all with
/// the volume's bounds; or the liquid cache with its bounds.
pub open spec fn cooked_entries(c: CookedPayload) -> Seq<PayloadModel> {
    match c {
        CookedPayload::City { mesh } => seq![
            PayloadModel {
                vertex_count: Some(mesh.vertex_count),
                triangle_count: Some(mesh.triangle_count),
                ..plain_entry(GLB_PAYLOAD_FORMAT@, CITY_MESH_FILE@, mesh.byte_len)
            },
        ],
        CookedPayload::Smoke { atlas, texture, fog, bounds_min, bounds_max, resolution } => seq![
            fluid_entry(atlas.format@, SMOKE_ATLAS_FILE@, atlas.frame_count, atlas.byte_len, bounds_min, bounds_max, resolution),
            fluid_entry(
                VOLUME_TEXTURE_FORMAT@,
                VOLUME_TEXTURE_FILE@,
                texture.frame_count,
                texture.byte_len,
                bounds_min,
                bounds_max,
                texture.resolution,
            ),
            fluid_entry(OPENVDB_FOG_FORMAT@, SMOKE_VDB_FILE@, 1, fog.byte_len, bounds_min, bounds_max, fog.resolution),
        ],
        CookedPayload::Liquid { cache, bounds_min, bounds_max, resolution } => seq![
            fluid_entry(cache.format@, LIQUID_CACHE_FILE@, cache.frame_count, cache.byte_len, bounds_min, bounds_max, resolution),
        ],
    }
}

/// All payload entries of a bundle: the graph snapshot of `graph_json_len` bytes, then the
/// cooked entries.
pub open spec fn payloads_of(graph_json_len: usize, c: CookedPayload) -> Seq<PayloadModel> {
    seq![plain_entry(GRAPH_SNAPSHOT_FORMAT@, GRAPH_FILE@, graph_json_len)] + cooked_entries(c)
}

/// A payload entry with only a format, a path and a byte length.
fn plain(format: &str, path: &str, byte_len: usize) -> (e: ExportPayloadEntry)
    ensures
        e@ == plain_entry(format@, path@, byte_len),
{
    ExportPayloadEntry {
        format: format.to_string(),
        path: path.to_string(),
        frame_count: None,
        byte_len: Some(byte_len),
        vertex_count: None,
        triangle_count: None,
        bounds_min: None,
        bounds_max: None,
        resolution: None,
    }
}

/// A fluid payload entry.
fn fluid(
    format: &str,
    path: &str,
    frame_count: u32,
    byte_len: usize,
    bounds_min: [u32; 3],
    bounds_max: [u32; 3],
    resolution: [u32; 3],
) -> (e: ExportPayloadEntry)
    ensures
        e@ == fluid_entry(format@, path@, frame_count, byte_len, bounds_min, bounds_max, resolution),
{
    ExportPayloadEntry {
        frame_count: Some(frame_count),
        bounds_min: Some(bounds_min),
        bounds_max: Some(bounds_max),
        resolution: Some(resolution),
        ..plain(format, path, byte_len)
    }
}

/// The payload entries of a bundle whose graph snapshot is `graph_json_len` bytes long.
pub fn bundle_payloads(graph_json_len: usize, cooked: &CookedPayload) -> (p: Vec<ExportPayloadEntry>)
    ensures
        payload_views(p@) == payloads_of(graph_json_len, *cooked),
{
    let mut p: Vec<ExportPayloadEntry> = Vec::new();
    p.push(plain(GRAPH_SNAPSHOT_FORMAT, GRAPH_FILE, graph_json_len));
    match cooked {
        CookedPayload::City { mesh } => {
            p.push(ExportPayloadEntry {
                vertex_count: Some(mesh.vertex_count),
                triangle_count: Some(mesh.triangle_count),
                ..plain(GLB_PAYLOAD_FORMAT, CITY_MESH_FILE, mesh.byte_len)
            });
        },
        CookedPayload::Smoke { atlas, texture, fog, bounds_min, bounds_max, resolution } => {
            p.push(fluid(atlas.format.as_str(), SMOKE_ATLAS_FILE, atlas.frame_count, atlas.byte_len, *bounds_min, *bounds_max, *resolution));
            p.push(fluid(
                VOLUME_TEXTURE_FORMAT,
                VOLUME_TEXTURE_FILE,
                texture.frame_count,
                texture.byte_len,
                *bounds_min,
                *bounds_max,
                texture.resolution,
            ));
            p.push(fluid(OPENVDB_FOG_FORMAT, SMOKE_VDB_FILE, 1, fog.byte_len, *bounds_min, *bounds_max, fog.resolution));
        },
        CookedPayload::Liquid { cache, bounds_min, bounds_max, resolution } => {
            p.push(fluid(cache.format.as_str(), LIQUID_CACHE_FILE, cache.frame_count, cache.byte_len, *bounds_min, *bounds_max, *resolution));
        },
    }
    assert(payload_views(p@) =~= payloads_of(graph_json_len, *cooked));
    p
}

/// Every bundle opens with the graph snapshot, and then holds one payload for a city or a
/// liquid graph and three (atlas, volume texture and fog grid) for a smoke graph.
pub proof fn lemma_bundle_layout(graph_json_len: usize, c: CookedPayload)
    ensures
        payloads_of(graph_json_len, c)[0] == plain_entry(GRAPH_SNAPSHOT_FORMAT@, GRAPH_FILE@, graph_json_len),
        payloads_of(graph_json_len, c).len() == if cooked_mode(c) == GraphMode::Smoke { 4nat } else { 2nat },
{
}

/// The manifest of an export bundle; the frame rate is `f32` bits.
#[derive(Debug, Clone, PartialEq, Eq)]
pub struct ExportManifest {
    pub format: String,
    pub version: u32,
    pub core_version: String,
    pub created_at: String,
    pub graph_name: String,
    pub graph_mode: String,
    pub units: String,
    pub up_axis: String,
    pub frame_rate: u32,
    pub payloads: Vec<ExportPayloadEntry>,
}

/// The manifest of a bundle of the graph `graph_name`, of `mode`, made at `created_at`.
pub fn bundle_manifest(graph_name: &str, mode: GraphMode, created_at: &str, payloads: Vec<ExportPayloadEntry>) -> (m: ExportManifest)
    ensures
        m.format@ == EXPORT_MANIFEST_FORMAT@,
        m.version == MANIFEST_VERSION,
        m.core_version@ == CORE_VERSION@,
        m.created_at@ == created_at@,
        m.graph_name@ == graph_name@,
        m.graph_mode@ == graph_mode_text(mode),
        m.units@ == EXPORT_UNITS@,
        m.up_axis@ == EXPORT_UP_AXIS@,
        m.frame_rate == EXPORT_FRAME_RATE_BITS,
        m.payloads@ == payloads@,
{
    ExportManifest {
        format: EXPORT_MANIFEST_FORMAT.to_string(),
        version: MANIFEST_VERSION,
        core_version: core_version().to_string(),
        created_at: created_at.to_string(),
        graph_name: graph_name.to_string(),
        graph_mode: graph_mode_label(mode).to_string(),
        units: EXPORT_UNITS.to_string(),
        up_axis: EXPORT_UP_AXIS.to_string(),
        frame_rate: EXPORT_FRAME_RATE_BITS,
        payloads,
    }
}

/// Result of writing a cook export bundle directory.
#[derive(Debug, Clone, PartialEq, Eq)]
pub struct ExportBundleResult {
    pub directory: String,
    pub manifest_path: String,
    pub payload_count: usize,
    pub payloads: Vec<ExportPayloadEntry>,
}

impl ExportBundleResult {
    /// The result of a bundle written to `directory` with its manifest at `manifest_path`.
    pub fn new(directory: String, manifest_path: String, payloads: Vec<ExportPayloadEntry>) -> (r: Self)
        ensures
            r.directory@ == directory@,
            r.manifest_path@ == manifest_path@,
            r.payload_count == payloads@.len(),
            r.payloads@ == payloads@,
    {
        let payload_count = payloads.len();
        ExportBundleResult { directory, manifest_path, payload_count, payloads }
    }
}

} // verus!
