//! Procedural node graph vocabulary: node identifiers, kinds, edges and cook statistics.

use vstd::prelude::*;

verus! {

/// Unique identifier for a node in the procedural graph.
#[derive(Debug, Clone, PartialEq, Eq, Hash)]
pub struct NodeId(pub String);

/// Supported procedural node kinds: the city chain, the smoke chain and the liquid chain.
#[derive(Debug, Clone, Copy, PartialEq, Eq, Structural)]
pub enum NodeKind {
    BuildingParams,
    BuildingMesh,
    PlaceAlongPath,
    FillGrid,
    MergeInstances,
    CityRoot,
    SmokeDomain,
    SmokeSource,
    SmokeSolver,
    SmokeRoot,
    LiquidDomain,
    LiquidSource,
    LiquidSolver,
}

/// Edge connecting an output port to an input port.
#[derive(Debug, Clone)]
pub struct Edge {
    pub from: NodeId,
    pub to: NodeId,
}

/// Cooked city output with mesh stats and instance metadata.
#[derive(Debug, Clone, PartialEq, Eq)]
pub struct CookResult {
    pub vertex_count: u32,
    pub index_count: u32,
    pub triangle_count: u32,
    pub instance_count: u32,
    pub graph_name: String,
}


/// IEEE-754 bit patterns of an `(x, y, z)` vector of `f32`.
pub type Vec3Bits = [u32; 3];

/// Building generator parameters (`f32` values as bit patterns).
#[derive(Debug, Clone, Copy, PartialEq, Eq)]
pub struct BuildingParams {
    pub floors: u32,
    pub width: u32,
    pub depth: u32,
    /// Window coverage along each facade row, 0.0 to 1.0.
    pub window_density: u32,
    pub seed: u64,
    /// Height per floor in world units.
    pub floor_height: u32,
}

/// The default `BuildingParams`.
pub open spec fn default_building_params() -> BuildingParams {
    BuildingParams { floors: 3, width: 0x4100_0000, depth: 0x40c0_0000, window_density: 0x3f0c_cccd, seed: 1, floor_height: 0x4040_0000 }
}

impl Default for BuildingParams {
    fn default() -> (p: Self)
        ensures
            p == default_building_params(),
    {
        BuildingParams {
            floors: 3,
            width: 0x4100_0000,
            depth: 0x40c0_0000,
            window_density: 0x3f0c_cccd,
            seed: 1,
            floor_height: 0x4040_0000,
        }
    }
}

impl BuildingParams {
    /// The shop street building: two floors of 3.2, a 6 by 5 footprint, windows at 0.65, seed 42.
    pub fn shop_preset() -> (p: Self)
        ensures
            p == (BuildingParams {
                floors: 2,
                width: 0x40c0_0000,
                depth: 0x40a0_0000,
                window_density: 0x3f26_6666,
                seed: 42,
                floor_height: 0x404c_cccd,
            }),
    {
        BuildingParams {
            floors: 2,
            width: 0x40c0_0000,
            depth: 0x40a0_0000,
            window_density: 0x3f26_6666,
            seed: 42,
            floor_height: 0x404c_cccd,
        }
    }
}

/// Straight street path input of `place_along_path`.
#[derive(Debug, Clone, Copy, PartialEq, Eq)]
pub struct PathInput {
    pub start: Vec3Bits,
    pub end: Vec3Bits,
    pub spacing: u32,
    /// Lateral offset from the path centerline (positive = left when facing the end).
    pub offset_from_path: u32,
}

/// The default `PathInput`.
pub open spec fn default_path_input() -> PathInput {
    PathInput { start: [0u32, 0u32, 0u32], end: [0x4220_0000u32, 0u32, 0u32], spacing: 0x4100_0000, offset_from_path: 0 }
}

impl Default for PathInput {
    /// A street from the origin to 40 along x, buildings every 8, on the centerline.
    fn default() -> (d: Self)
        ensures
            d == default_path_input(),
    {
        PathInput { start: [0u32, 0u32, 0u32], end: [0x4220_0000u32, 0u32, 0u32], spacing: 0x4100_0000, offset_from_path: 0 }
    }
}

/// Grid lot input of `fill_grid`.
#[derive(Debug, Clone, Copy, PartialEq, Eq)]
pub struct GridInput {
    pub origin: Vec3Bits,
    pub cols: u32,
    pub rows: u32,
    pub lot_width: u32,
    pub lot_depth: u32,
    pub spacing: u32,
}

/// The default `GridInput`.
pub open spec fn default_grid_input() -> GridInput {
    GridInput { origin: [0u32, 0u32, 0u32], cols: 3, rows: 2, lot_width: 0x4100_0000, lot_depth: 0x4100_0000, spacing: 0x3fc0_0000 }
}

impl Default for GridInput {
    /// Three columns and two rows of 8 by 8 lots, 1.5 apart, at the origin.
    fn default() -> (g: Self)
        ensures
            g == default_grid_input(),
    {
        GridInput { origin: [0, 0, 0], cols: 3, rows: 2, lot_width: 0x4100_0000, lot_depth: 0x4100_0000, spacing: 0x3fc0_0000 }
    }
}

/// Simulation domain of a smoke graph.
#[derive(Debug, Clone, Copy, PartialEq, Eq)]
pub struct SmokeDomainInput {
    pub resolution: u32,
    pub bounds_min: Vec3Bits,
    pub bounds_max: Vec3Bits,
    pub seed: u64,
}

/// The default `SmokeDomainInput`.
pub open spec fn default_smoke_domain() -> SmokeDomainInput {
    SmokeDomainInput { resolution: 24, bounds_min: [0xc080_0000u32, 0u32, 0xc080_0000u32], bounds_max: [0x4080_0000u32, 0x4100_0000u32, 0x4080_0000u32], seed: 7 }
}

impl Default for SmokeDomainInput {
    /// A 24-cell domain from (-4, 0, -4) to (4, 8, 4), seed 7.
    fn default() -> (d: Self)
        ensures
            d == default_smoke_domain(),
    {
        SmokeDomainInput { resolution: 24, bounds_min: [0xc080_0000u32, 0u32, 0xc080_0000u32], bounds_max: [0x4080_0000u32, 0x4100_0000u32, 0x4080_0000u32], seed: 7 }
    }
}

/// Point emitter feeding density and temperature into the smoke grid.
#[derive(Debug, Clone, Copy, PartialEq, Eq)]
pub struct SmokeSourceInput {
    pub position: Vec3Bits,
    pub radius: u32,
    pub emission_rate: u32,
    pub temperature: u32,
    pub upward_velocity: u32,
}

/// The default `SmokeSourceInput`.
pub open spec fn default_smoke_source() -> SmokeSourceInput {
    SmokeSourceInput { position: [0u32, 0x3f99_999au32, 0u32], radius: 0x3f66_6666, emission_rate: 0x4020_0000, temperature: 0x3fb3_3333, upward_velocity: 0x4033_3333 }
}

impl Default for SmokeSourceInput {
    /// An emitter at (0, 1.2, 0) of radius 0.9, rate 2.5, temperature 1.4, rising at 2.8.
    fn default() -> (d: Self)
        ensures
            d == default_smoke_source(),
    {
        SmokeSourceInput { position: [0u32, 0x3f99_999au32, 0u32], radius: 0x3f66_6666, emission_rate: 0x4020_0000, temperature: 0x3fb3_3333, upward_velocity: 0x4033_3333 }
    }
}

/// Smoke solver parameters for one cook pass.
#[derive(Debug, Clone, Copy, PartialEq, Eq)]
pub struct SmokeSolverInput {
    pub steps: u32,
    pub frame_stride: u32,
    pub dissipation: u32,
    pub buoyancy: u32,
    pub diffusion: u32,
    /// Velocity diffusion / drag (0 = inviscid).
    pub viscosity: u32,
    pub pressure_iterations: u32,
    pub ground_collision: bool,
    pub max_particles_per_frame: u32,
}

/// The default `SmokeSolverInput`.
pub open spec fn default_smoke_solver() -> SmokeSolverInput {
    SmokeSolverInput { steps: 48, frame_stride: 4, dissipation: 0x3f7c_28f6, buoyancy: 0x3fcc_cccd, diffusion: 0x3df5_c28f, viscosity: 0x3d75_c28f, pressure_iterations: 18, ground_collision: true, max_particles_per_frame: 1800 }
}

impl Default for SmokeSolverInput {
    /// 48 steps, a frame every 4, dissipation 0.985, buoyancy 1.6, diffusion 0.12, viscosity 0.06, 18 pressure iterations, ground collision, 1800 particles per frame.
    fn default() -> (d: Self)
        ensures
            d == default_smoke_solver(),
    {
        SmokeSolverInput { steps: 48, frame_stride: 4, dissipation: 0x3f7c_28f6, buoyancy: 0x3fcc_cccd, diffusion: 0x3df5_c28f, viscosity: 0x3d75_c28f, pressure_iterations: 18, ground_collision: true, max_particles_per_frame: 1800 }
    }
}

/// Simulation domain of a liquid graph.
#[derive(Debug, Clone, Copy, PartialEq, Eq)]
pub struct LiquidDomainInput {
    pub resolution: u32,
    pub bounds_min: Vec3Bits,
    pub bounds_max: Vec3Bits,
    pub seed: u64,
    pub initial_particles: u32,
    pub particle_radius: u32,
}

/// The default `LiquidDomainInput`.
pub open spec fn default_liquid_domain() -> LiquidDomainInput {
    LiquidDomainInput { resolution: 20, bounds_min: [0xc080_0000u32, 0u32, 0xc080_0000u32], bounds_max: [0x4080_0000u32, 0x40c0_0000u32, 0x4080_0000u32], seed: 11, initial_particles: 1200, particle_radius: 0x3df5_c28f }
}

impl Default for LiquidDomainInput {
    /// A 20-cell domain from (-4, 0, -4) to (4, 6, 4), seed 11, 1200 particles of radius 0.12.
    fn default() -> (d: Self)
        ensures
            d == default_liquid_domain(),
    {
        LiquidDomainInput { resolution: 20, bounds_min: [0xc080_0000u32, 0u32, 0xc080_0000u32], bounds_max: [0x4080_0000u32, 0x40c0_0000u32, 0x4080_0000u32], seed: 11, initial_particles: 1200, particle_radius: 0x3df5_c28f }
    }
}

/// Point emitter feeding particles into the liquid domain.
#[derive(Debug, Clone, Copy, PartialEq, Eq)]
pub struct LiquidSourceInput {
    pub position: Vec3Bits,
    pub radius: u32,
    pub emission_rate: u32,
    pub velocity: Vec3Bits,
    /// Stop emitting after this step (0 = unlimited).
    pub active_until_step: u32,
}

/// The default `LiquidSourceInput`.
pub open spec fn default_liquid_source() -> LiquidSourceInput {
    LiquidSourceInput { position: [0u32, 0x40a0_0000u32, 0u32], radius: 0x3f19_999a, emission_rate: 0x4100_0000, velocity: [0u32, 0xc020_0000u32, 0u32], active_until_step: 0 }
}

impl Default for LiquidSourceInput {
    /// An emitter at (0, 5, 0) of radius 0.6, rate 8, pouring down at 2.5, never stopping.
    fn default() -> (d: Self)
        ensures
            d == default_liquid_source(),
    {
        LiquidSourceInput { position: [0u32, 0x40a0_0000u32, 0u32], radius: 0x3f19_999a, emission_rate: 0x4100_0000, velocity: [0u32, 0xc020_0000u32, 0u32], active_until_step: 0 }
    }
}

/// Liquid solver parameters for one cook pass.
#[derive(Debug, Clone, Copy, PartialEq, Eq)]
pub struct LiquidSolverInput {
    pub steps: u32,
    pub frame_stride: u32,
    pub gravity: u32,
    /// 0 = PIC, 1 = FLIP.
    pub flip_ratio: u32,
    pub viscosity: u32,
    pub pressure_iterations: u32,
    /// Ocean surface wave forcing amplitude.
    pub wave_amplitude: u32,
    pub wave_frequency: u32,
    /// Flat terrain collider height.
    pub terrain_height: u32,
    pub max_particles: u32,
}

/// The default `LiquidSolverInput`.
pub open spec fn default_liquid_solver() -> LiquidSolverInput {
    LiquidSolverInput { steps: 60, frame_stride: 3, gravity: 0x411c_cccd, flip_ratio: 0x3f75_c28f, viscosity: 0x3ca3_d70a, pressure_iterations: 20, wave_amplitude: 0, wave_frequency: 0x3f99_999a, terrain_height: 0, max_particles: 16000 }
}

impl Default for LiquidSolverInput {
    /// 60 steps, a frame every 3, gravity 9.8, FLIP ratio 0.96, viscosity 0.02, 20 pressure iterations, no waves (frequency 1.2), terrain at 0, at most 16000 particles.
    fn default() -> (d: Self)
        ensures
            d == default_liquid_solver(),
    {
        LiquidSolverInput { steps: 60, frame_stride: 3, gravity: 0x411c_cccd, flip_ratio: 0x3f75_c28f, viscosity: 0x3ca3_d70a, pressure_iterations: 20, wave_amplitude: 0, wave_frequency: 0x3f99_999a, terrain_height: 0, max_particles: 16000 }
    }
}

/// A node in the procedural graph, with the parameters its kind uses.
#[derive(Debug, Clone)]
pub struct Node {
    pub id: NodeId,
    pub kind: NodeKind,
    pub label: String,
    pub building_params: Option<BuildingParams>,
    pub path_input: Option<PathInput>,
    pub grid_input: Option<GridInput>,
    pub smoke_domain: Option<SmokeDomainInput>,
    pub smoke_source: Option<SmokeSourceInput>,
    pub smoke_solver: Option<SmokeSolverInput>,
    pub liquid_domain: Option<LiquidDomainInput>,
    pub liquid_source: Option<LiquidSourceInput>,
    pub liquid_solver: Option<LiquidSolverInput>,
}

/// Graph document exchanged with the UI host.
#[derive(Debug, Clone)]
pub struct Graph {
    pub name: String,
    pub nodes: Vec<Node>,
    pub edges: Vec<Edge>,
}

/// A node with its strings as character sequences.
pub struct NodeModel {
    pub id: Seq<char>,
    pub kind: NodeKind,
    pub label: Seq<char>,
    pub building_params: Option<BuildingParams>,
    pub path_input: Option<PathInput>,
    pub grid_input: Option<GridInput>,
    pub smoke_domain: Option<SmokeDomainInput>,
    pub smoke_source: Option<SmokeSourceInput>,
    pub smoke_solver: Option<SmokeSolverInput>,
    pub liquid_domain: Option<LiquidDomainInput>,
    pub liquid_source: Option<LiquidSourceInput>,
    pub liquid_solver: Option<LiquidSolverInput>,
}

/// A graph with its strings as character sequences; an edge is `(from, to)`.
pub struct GraphModel {
    pub name: Seq<char>,
    pub nodes: Seq<NodeModel>,
    pub edges: Seq<(Seq<char>, Seq<char>)>,
}

impl View for Node {
    type V = NodeModel;

    open spec fn view(&self) -> NodeModel {
        NodeModel {
            id: self.id.0@,
            kind: self.kind,
            label: self.label@,
            building_params: self.building_params,
            path_input: self.path_input,
            grid_input: self.grid_input,
            smoke_domain: self.smoke_domain,
            smoke_source: self.smoke_source,
            smoke_solver: self.smoke_solver,
            liquid_domain: self.liquid_domain,
            liquid_source: self.liquid_source,
            liquid_solver: self.liquid_solver,
        }
    }
}

impl View for Edge {
    type V = (Seq<char>, Seq<char>);

    open spec fn view(&self) -> (Seq<char>, Seq<char>) {
        (self.from.0@, self.to.0@)
    }
}

impl View for Graph {
    type V = GraphModel;

    open spec fn view(&self) -> GraphModel {
        GraphModel {
            name: self.name@,
            nodes: node_views(self.nodes@),
            edges: edge_views(self.edges@),
        }
    }
}

/// The views of a sequence of nodes.
pub open spec fn node_views(s: Seq<Node>) -> Seq<NodeModel> {
    s.map_values(|n: Node| n@)
}

/// The views of a sequence of edges.
pub open spec fn edge_views(s: Seq<Edge>) -> Seq<(Seq<char>, Seq<char>)> {
    s.map_values(|e: Edge| e@)
}

/// A node of the given id, kind and label with no parameters.
pub open spec fn bare_node(id: Seq<char>, kind: NodeKind, label: Seq<char>) -> NodeModel {
    NodeModel {
        id,
        kind,
        label,
        building_params: None,
        path_input: None,
        grid_input: None,
        smoke_domain: None,
        smoke_source: None,
        smoke_solver: None,
        liquid_domain: None,
        liquid_source: None,
        liquid_solver: None,
    }
}

/// A node of the given id, kind and label with no parameters.
pub fn new_node(id: &str, kind: NodeKind, label: &str) -> (n: Node)
    ensures
        n@ == bare_node(id@, kind, label@),
{
    Node {
        id: NodeId(id.to_string()),
        kind,
        label: label.to_string(),
        building_params: None,
        path_input: None,
        grid_input: None,
        smoke_domain: None,
        smoke_source: None,
        smoke_solver: None,
        liquid_domain: None,
        liquid_source: None,
        liquid_solver: None,
    }
}

/// An edge from `from` to `to`.
pub fn new_edge(from: &str, to: &str) -> (e: Edge)
    ensures
        e@ == (from@, to@),
{
    Edge { from: NodeId(from.to_string()), to: NodeId(to.to_string()) }
}

/// A copy of `id`.
pub fn copy_id(id: &NodeId) -> (c: NodeId)
    ensures
        c.0@ == id.0@,
{
    NodeId(id.0.clone())
}

/// A copy of `n`.
pub fn copy_node(n: &Node) -> (c: Node)
    ensures
        c@ == n@,
{
    Node {
        id: copy_id(&n.id),
        kind: n.kind,
        label: n.label.clone(),
        building_params: n.building_params,
        path_input: n.path_input,
        grid_input: n.grid_input,
        smoke_domain: n.smoke_domain,
        smoke_source: n.smoke_source,
        smoke_solver: n.smoke_solver,
        liquid_domain: n.liquid_domain,
        liquid_source: n.liquid_source,
        liquid_solver: n.liquid_solver,
    }
}

/// A copy of `e`.
pub fn copy_edge(e: &Edge) -> (c: Edge)
    ensures
        c@ == e@,
{
    Edge { from: copy_id(&e.from), to: copy_id(&e.to) }
}

/// The id of the first node of `kind`, if any.
pub open spec fn first_of_kind(nodes: Seq<NodeModel>, kind: NodeKind) -> Option<Seq<char>>
    decreases nodes.len(),
{
    if nodes.len() == 0 {
        None
    } else if nodes[0].kind == kind {
        Some(nodes[0].id)
    } else {
        first_of_kind(nodes.drop_first(), kind)
    }
}

/// The id of the first node of `kind` in `nodes`, if any.
pub fn find_kind(nodes: &Vec<Node>, kind: NodeKind) -> (r: Option<NodeId>)
    ensures
        match (r, first_of_kind(node_views(nodes@), kind)) {
            (Some(id), Some(s)) => id.0@ == s,
            (None, None) => true,
            _ => false,
        },
{
    let ghost all = node_views(nodes@);
    let mut k: usize = 0;
    assert(all.skip(0) =~= all);
    while k < nodes.len()
        invariant
            k <= nodes@.len(),
            all == node_views(nodes@),
            first_of_kind(all, kind) == first_of_kind(all.skip(k as int), kind),
        decreases nodes.len() - k,
    {
        assert(all.skip(k as int)[0] == nodes@[k as int]@);
        assert(all.skip(k as int).drop_first() =~= all.skip(k + 1));
        if nodes[k].kind == kind {
            return Some(copy_id(&nodes[k].id));
        }
        k += 1;
    }
    None
}

impl Graph {
    /// An empty graph named `name`.
    pub fn new(name: &str) -> (g: Self)
        ensures
            g@.name == name@,
            g@.nodes.len() == 0,
            g@.edges.len() == 0,
    {
        let g = Graph { name: name.to_string(), nodes: Vec::new(), edges: Vec::new() };
        assert(g@.nodes =~= Seq::<NodeModel>::empty());
        assert(g@.edges =~= Seq::<(Seq<char>, Seq<char>)>::empty());
        g
    }
}


/// The street path of the shop street preset: from `(0, 0, -4)` to `(48, 0, -4)`, spacing 9.
pub open spec fn street_path() -> PathInput {
    PathInput {
        start: [0u32, 0u32, 0xc080_0000u32],
        end: [0x4240_0000u32, 0u32, 0xc080_0000u32],
        spacing: 0x4110_0000,
        offset_from_path: 0,
    }
}

/// The street path of the shop street preset.
pub fn street_path_input() -> (p: PathInput)
    ensures
        p == street_path(),
{
    PathInput { start: [0, 0, 0xc080_0000], end: [0x4240_0000, 0, 0xc080_0000], spacing: 0x4110_0000, offset_from_path: 0 }
}

/// The shop street preset: building params, building mesh, street placement and city root,
/// chained in that order.
pub open spec fn shop_street_model() -> GraphModel {
    GraphModel {
        name: "Shop Street"@,
        nodes: seq![
            NodeModel {
                building_params: Some(BuildingParams {
                    floors: 2,
                    width: 0x40c0_0000,
                    depth: 0x40a0_0000,
                    window_density: 0x3f26_6666,
                    seed: 42,
                    floor_height: 0x404c_cccd,
                }),
                ..bare_node("building_params"@, NodeKind::BuildingParams, "Shop Params"@)
            },
            bare_node("building_mesh"@, NodeKind::BuildingMesh, "Building Mesh"@),
            NodeModel {
                path_input: Some(street_path()),
                ..bare_node("place_along_path"@, NodeKind::PlaceAlongPath, "Street Placement"@)
            },
            bare_node("city_root"@, NodeKind::CityRoot, "City Root"@),
        ],
        edges: seq![
            ("building_params"@, "building_mesh"@),
            ("building_mesh"@, "place_along_path"@),
            ("place_along_path"@, "city_root"@),
        ],
    }
}

impl Graph {
    /// The shop street starter graph.
    pub fn shop_street_preset() -> (g: Self)
        ensures
            g@ == shop_street_model(),
    {
        let mut params = new_node("building_params", NodeKind::BuildingParams, "Shop Params");
        params.building_params = Some(BuildingParams::shop_preset());
        let mesh = new_node("building_mesh", NodeKind::BuildingMesh, "Building Mesh");
        let mut place = new_node("place_along_path", NodeKind::PlaceAlongPath, "Street Placement");
        place.path_input = Some(street_path_input());
        let root = new_node("city_root", NodeKind::CityRoot, "City Root");
        let mut nodes: Vec<Node> = Vec::new();
        nodes.push(params);
        nodes.push(mesh);
        nodes.push(place);
        nodes.push(root);
        let mut edges: Vec<Edge> = Vec::new();
        edges.push(new_edge("building_params", "building_mesh"));
        edges.push(new_edge("building_mesh", "place_along_path"));
        edges.push(new_edge("place_along_path", "city_root"));
        let g = Graph { name: "Shop Street".to_string(), nodes, edges };
        assert(g@.nodes =~= shop_street_model().nodes);
        assert(g@.edges =~= shop_street_model().edges);
        g
    }
}

/// A copy of `g`.
pub fn copy_graph(g: &Graph) -> (c: Graph)
    ensures
        c@ == g@,
{
    let mut nodes: Vec<Node> = Vec::new();
    let mut k: usize = 0;
    while k < g.nodes.len()
        invariant
            k <= g.nodes@.len(),
            nodes@.len() == k,
            node_views(nodes@) == node_views(g.nodes@).take(k as int),
        decreases g.nodes.len() - k,
    {
        let ghost before = nodes@;
        let c = copy_node(&g.nodes[k]);
        nodes.push(c);
        assert(nodes@ == before.push(c));
        assert forall|i: int| 0 <= i < k + 1 implies node_views(nodes@)[i] == node_views(g.nodes@)[i] by {
            if i < k {
                assert(nodes@[i] == before[i]);
                assert(node_views(before)[i] == node_views(g.nodes@).take(k as int)[i]);
            } else {
                assert(nodes@[i] == c);
            }
        }
        assert(node_views(nodes@) =~= node_views(g.nodes@).take(k + 1));
        k += 1;
    }
    let mut edges: Vec<Edge> = Vec::new();
    let mut k: usize = 0;
    while k < g.edges.len()
        invariant
            k <= g.edges@.len(),
            node_views(nodes@) == node_views(g.nodes@),
            edges@.len() == k,
            edge_views(edges@) == edge_views(g.edges@).take(k as int),
        decreases g.edges.len() - k,
    {
        let ghost before = edges@;
        let c = copy_edge(&g.edges[k]);
        edges.push(c);
        assert forall|i: int| 0 <= i < k + 1 implies edge_views(edges@)[i] == edge_views(g.edges@)[i] by {
            if i < k {
                assert(edges@[i] == before[i]);
                assert(edge_views(before)[i] == edge_views(g.edges@).take(k as int)[i]);
            } else {
                assert(edges@[i] == c);
            }
        }
        assert(edge_views(edges@) =~= edge_views(g.edges@).take(k + 1));
        k += 1;
    }
    let c = Graph { name: g.name.clone(), nodes, edges };
    assert(c@.nodes =~= g@.nodes);
    assert(c@.edges =~= g@.edges);
    c
}


/// Edges that chain `nodes` in order, each node feeding the next.
pub open spec fn chain_edges(nodes: Seq<NodeModel>) -> Seq<(Seq<char>, Seq<char>)> {
    Seq::new((if nodes.len() == 0 { 0 } else { nodes.len() - 1 }) as nat, |i: int| (nodes[i].id, nodes[i + 1].id))
}

/// The graph named `name` with `nodes` chained in order.
pub open spec fn chain_model(name: Seq<char>, nodes: Seq<NodeModel>) -> GraphModel {
    GraphModel { name, nodes, edges: chain_edges(nodes) }
}

/// A graph named `name` whose nodes are chained in the order given.
pub fn chained_graph(name: &str, nodes: Vec<Node>) -> (g: Graph)
    ensures
        g@ == chain_model(name@, node_views(nodes@)),
{
    let ghost views = node_views(nodes@);
    let mut edges: Vec<Edge> = Vec::new();
    let mut i: usize = 1;
    while i < nodes.len()
        invariant
            1 <= i,
            i <= nodes@.len() || (nodes@.len() == 0 && i == 1),
            views == node_views(nodes@),
            edges@.len() == i - 1,
            forall|k: int| 0 <= k < i - 1 ==> #[trigger] edge_views(edges@)[k] == (views[k].id, views[k + 1].id),
        decreases nodes.len() - i,
    {
        let ghost before = edges@;
        let e = Edge { from: copy_id(&nodes[i - 1].id), to: copy_id(&nodes[i].id) };
        edges.push(e);
        assert forall|k: int| 0 <= k < i implies #[trigger] edge_views(edges@)[k] == (views[k].id, views[k + 1].id) by {
            if k < i - 1 {
                assert(edges@[k] == before[k]);
                assert(edge_views(before)[k] == (views[k].id, views[k + 1].id));
            } else {
                assert(edges@[k] == e);
                assert(views[k] == nodes@[k]@ && views[k + 1] == nodes@[k + 1]@);
            }
        }
        i += 1;
    }
    let g = Graph { name: name.to_string(), nodes, edges };
    assert forall|k: int| 0 <= k < g@.edges.len() implies g@.edges[k] == chain_edges(views)[k] by {
        assert(edge_views(g.edges@)[k] == (views[k].id, views[k + 1].id));
    }
    assert(g@.edges =~= chain_edges(views));
    g
}

/// The grid block preset: default building params, building mesh, a default lot grid and
/// the city root, chained in that order.
pub open spec fn grid_block_model() -> GraphModel {
    chain_model(
        "Grid Block"@,
        seq![
            NodeModel {
                building_params: Some(default_building_params()),
                ..bare_node("building_params"@, NodeKind::BuildingParams, "Block Params"@)
            },
            bare_node("building_mesh"@, NodeKind::BuildingMesh, "Building Mesh"@),
            NodeModel { grid_input: Some(default_grid_input()), ..bare_node("fill_grid"@, NodeKind::FillGrid, "Grid Fill"@) },
            bare_node("city_root"@, NodeKind::CityRoot, "City Root"@),
        ],
    )
}

/// The smoke puff preset: default domain, source and solver feeding the smoke root.
pub open spec fn smoke_puff_model() -> GraphModel {
    chain_model(
        "Smoke Puff"@,
        seq![
            NodeModel {
                smoke_domain: Some(default_smoke_domain()),
                ..bare_node("smoke_domain"@, NodeKind::SmokeDomain, "Smoke Domain"@)
            },
            NodeModel {
                smoke_source: Some(default_smoke_source()),
                ..bare_node("smoke_source"@, NodeKind::SmokeSource, "Smoke Source"@)
            },
            NodeModel {
                smoke_solver: Some(default_smoke_solver()),
                ..bare_node("smoke_solver"@, NodeKind::SmokeSolver, "Smoke Solver"@)
            },
            bare_node("smoke_root"@, NodeKind::SmokeRoot, "Smoke Root"@),
        ],
    )
}

/// A liquid preset named `name`: the given domain, source and solver, chained in that order.
pub open spec fn liquid_model(
    name: Seq<char>,
    domain: LiquidDomainInput,
    source: LiquidSourceInput,
    solver: LiquidSolverInput,
) -> GraphModel {
    chain_model(
        name,
        seq![
            NodeModel { liquid_domain: Some(domain), ..bare_node("liquid_domain"@, NodeKind::LiquidDomain, "Liquid Domain"@) },
            NodeModel { liquid_source: Some(source), ..bare_node("liquid_source"@, NodeKind::LiquidSource, "Liquid Source"@) },
            NodeModel { liquid_solver: Some(solver), ..bare_node("liquid_solver"@, NodeKind::LiquidSolver, "Liquid Solver"@) },
        ],
    )
}

/// The ocean patch domain: 20 cells over (-6, 0, -6) to (6, 3, 6).
pub open spec fn ocean_domain() -> LiquidDomainInput {
    LiquidDomainInput {
        bounds_min: [0xc0c0_0000u32, 0u32, 0xc0c0_0000u32],
        bounds_max: [0x40c0_0000u32, 0x4040_0000u32, 0x40c0_0000u32],
        ..default_liquid_domain()
    }
}

/// The ocean patch solver: the default solver with waves of amplitude 0.4.
pub open spec fn ocean_solver() -> LiquidSolverInput {
    LiquidSolverInput { wave_amplitude: 0x3ecc_cccd, ..default_liquid_solver() }
}

/// The ocean patch preset: a wide, shallow domain with surface waves.
pub open spec fn ocean_patch_model() -> GraphModel {
    liquid_model("Ocean Patch"@, ocean_domain(), default_liquid_source(), ocean_solver())
}

/// The waterfall preset: the default domain with the default emitter pouring down from above.
pub open spec fn waterfall_model() -> GraphModel {
    liquid_model("Waterfall"@, default_liquid_domain(), default_liquid_source(), default_liquid_solver())
}

/// The flood basin preset: the default liquid chain under its own name.
pub open spec fn flood_basin_model() -> GraphModel {
    liquid_model("Flood Basin"@, default_liquid_domain(), default_liquid_source(), default_liquid_solver())
}

/// The liquid chain of the given domain, source and solver under `name`.
fn liquid_chain(name: &str, domain: LiquidDomainInput, source: LiquidSourceInput, solver: LiquidSolverInput) -> (g: Graph)
    ensures
        g@ == liquid_model(name@, domain, source, solver),
{
    let mut d = new_node("liquid_domain", NodeKind::LiquidDomain, "Liquid Domain");
    d.liquid_domain = Some(domain);
    let mut s = new_node("liquid_source", NodeKind::LiquidSource, "Liquid Source");
    s.liquid_source = Some(source);
    let mut v = new_node("liquid_solver", NodeKind::LiquidSolver, "Liquid Solver");
    v.liquid_solver = Some(solver);
    let mut nodes: Vec<Node> = Vec::new();
    nodes.push(d);
    nodes.push(s);
    nodes.push(v);
    let ghost want = liquid_model(name@, domain, source, solver).nodes;
    assert(node_views(nodes@) =~= want);
    chained_graph(name, nodes)
}

impl Graph {
    /// The grid block starter graph.
    pub fn grid_block_preset() -> (g: Self)
        ensures
            g@ == grid_block_model(),
    {
        let mut params = new_node("building_params", NodeKind::BuildingParams, "Block Params");
        params.building_params = Some(BuildingParams::default());
        let mesh = new_node("building_mesh", NodeKind::BuildingMesh, "Building Mesh");
        let mut grid = new_node("fill_grid", NodeKind::FillGrid, "Grid Fill");
        grid.grid_input = Some(GridInput::default());
        let root = new_node("city_root", NodeKind::CityRoot, "City Root");
        let mut nodes: Vec<Node> = Vec::new();
        nodes.push(params);
        nodes.push(mesh);
        nodes.push(grid);
        nodes.push(root);
        assert(node_views(nodes@) =~= grid_block_model().nodes);
        chained_graph("Grid Block", nodes)
    }

    /// The smoke puff starter graph.
    pub fn smoke_puff_preset() -> (g: Self)
        ensures
            g@ == smoke_puff_model(),
    {
        let mut domain = new_node("smoke_domain", NodeKind::SmokeDomain, "Smoke Domain");
        domain.smoke_domain = Some(SmokeDomainInput::default());
        let mut source = new_node("smoke_source", NodeKind::SmokeSource, "Smoke Source");
        source.smoke_source = Some(SmokeSourceInput::default());
        let mut solver = new_node("smoke_solver", NodeKind::SmokeSolver, "Smoke Solver");
        solver.smoke_solver = Some(SmokeSolverInput::default());
        let root = new_node("smoke_root", NodeKind::SmokeRoot, "Smoke Root");
        let mut nodes: Vec<Node> = Vec::new();
        nodes.push(domain);
        nodes.push(source);
        nodes.push(solver);
        nodes.push(root);
        assert(node_views(nodes@) =~= smoke_puff_model().nodes);
        chained_graph("Smoke Puff", nodes)
    }

    /// The ocean patch starter graph.
    pub fn ocean_patch_preset() -> (g: Self)
        ensures
            g@ == ocean_patch_model(),
    {
        let domain = LiquidDomainInput {
            bounds_min: [0xc0c0_0000, 0, 0xc0c0_0000],
            bounds_max: [0x40c0_0000, 0x4040_0000, 0x40c0_0000],
            ..LiquidDomainInput::default()
        };
        let solver = LiquidSolverInput { wave_amplitude: 0x3ecc_cccd, ..LiquidSolverInput::default() };
        liquid_chain("Ocean Patch", domain, LiquidSourceInput::default(), solver)
    }

    /// The waterfall starter graph.
    pub fn waterfall_preset() -> (g: Self)
        ensures
            g@ == waterfall_model(),
    {
        liquid_chain("Waterfall", LiquidDomainInput::default(), LiquidSourceInput::default(), LiquidSolverInput::default())
    }

    /// The flood basin starter graph.
    pub fn flood_basin_preset() -> (g: Self)
        ensures
            g@ == flood_basin_model(),
    {
        liquid_chain("Flood Basin", LiquidDomainInput::default(), LiquidSourceInput::default(), LiquidSolverInput::default())
    }
}

/// The starter graph a preset id names: `shop_street`, `grid_block`, `smoke_puff`,
/// `ocean_patch`, `waterfall` or `flood_basin`.
pub open spec fn preset_model(id: Seq<char>) -> Option<GraphModel> {
    if id == "shop_street"@ {
        Some(shop_street_model())
    } else if id == "grid_block"@ {
        Some(grid_block_model())
    } else if id == "smoke_puff"@ {
        Some(smoke_puff_model())
    } else if id == "ocean_patch"@ {
        Some(ocean_patch_model())
    } else if id == "waterfall"@ {
        Some(waterfall_model())
    } else if id == "flood_basin"@ {
        Some(flood_basin_model())
    } else {
        None
    }
}

/// The starter graph of a preset id, or `None` for an id that names no preset.
pub fn preset_graph(id: &str) -> (g: Option<Graph>)
    ensures
        match (g, preset_model(id@)) {
            (Some(graph), Some(m)) => graph@ == m,
            (None, None) => true,
            _ => false,
        },
{
    let id = id.to_string();
    if id == "shop_street".to_string() {
        Some(Graph::shop_street_preset())
    } else if id == "grid_block".to_string() {
        Some(Graph::grid_block_preset())
    } else if id == "smoke_puff".to_string() {
        Some(Graph::smoke_puff_preset())
    } else if id == "ocean_patch".to_string() {
        Some(Graph::ocean_patch_preset())
    } else if id == "waterfall".to_string() {
        Some(Graph::waterfall_preset())
    } else if id == "flood_basin".to_string() {
        Some(Graph::flood_basin_preset())
    } else {
        None
    }
}

} // verus!
