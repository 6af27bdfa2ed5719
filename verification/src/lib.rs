//! elfentierFX core library: procedural graph primitives, mesh bookkeeping,
//! volume interchange encoders and preview quality checks.

use vstd::prelude::*;

pub mod agent;
pub mod buffer;
pub mod bundle;
pub mod cook;
pub mod edits;
pub mod collider;
pub mod environment;
pub mod explain;
pub mod fog_grid;
pub mod export;
pub mod graph;
pub mod le_bytes;
pub mod mesh;
pub mod plan;
pub mod openvdb;
pub mod preview;
pub mod prompt;
pub mod regions;
pub mod rng;
pub mod text;
pub mod volume_texture;

use crate::mesh::{box_indices, create_unit_box_mesh, Mesh};

verus! {

/// Semantic version of the core library.
pub const CORE_VERSION: &'static str = "0.1.0-alpha.1";

/// Returns the core library version string.
pub fn core_version() -> (v: &'static str)
    ensures
        v@ == CORE_VERSION@,
{
    CORE_VERSION
}

/// Summary statistics for a generated mesh.
#[derive(Debug, Clone, Copy, PartialEq, Eq, Structural)]
pub struct MeshStats {
    pub vertex_count: u32,
    pub index_count: u32,
    pub triangle_count: u32,
}

impl MeshStats {
    /// Statistics of `mesh`: its vertex, index and whole-triangle counts.
    pub open spec fn of_mesh(mesh: &Mesh) -> MeshStats {
        MeshStats {
            vertex_count: mesh.positions.len() as u32,
            index_count: mesh.indices.len() as u32,
            triangle_count: (mesh.indices.len() / 3) as u32,
        }
    }
}

impl<'a> From<&'a Mesh> for MeshStats {
    fn from(mesh: &'a Mesh) -> (s: MeshStats) {
        MeshStats {
            vertex_count: mesh.vertex_count(),
            index_count: mesh.index_count(),
            triangle_count: mesh.triangle_count(),
        }
    }
}

impl<'a> vstd::std_specs::convert::FromSpecImpl<&'a Mesh> for MeshStats {
    open spec fn obeys_from_spec() -> bool {
        true
    }

    open spec fn from_spec(mesh: &'a Mesh) -> MeshStats {
        MeshStats::of_mesh(mesh)
    }
}

/// Creates a unit cube mesh (centered at origin, edge length 1) and returns its counts.
pub fn create_box_mesh() -> (stats: MeshStats)
    ensures
        stats.vertex_count == 8,
        stats.index_count == 36,
        stats.triangle_count == 12,
{
    let mesh = create_unit_box_mesh();
    MeshStats::from(&mesh)
}

} // verus!
