//! What a template summary of a graph says, line by line.
//!
//! The summary names the graph, describes the smoke chain of a smoke graph (or the building
//! of any other graph), then the placement, then counts nodes and edges. The lines carry the
//! parameters they show; printing them with their decimals is left to the caller.

use crate::graph::{
    default_grid_input, default_path_input, BuildingParams, Graph, GraphModel, GridInput, Node, NodeKind, NodeModel,
    PathInput, SmokeDomainInput, SmokeSolverInput, SmokeSourceInput, node_views,
};
use crate::plan::{find_first, first_node};
use crate::text::{decimal_chars, push_chars, push_decimal_chars, string_from_chars};
use vstd::prelude::*;

verus! {

/// One line of a graph summary.
#[derive(Debug, Clone)]
pub enum ExplainLine {
    /// `Graph: <name>`.
    Name { name: String },
    /// The smoke domain's resolution and bounds.
    SmokeDomain { domain: SmokeDomainInput },
    /// The smoke source's emission, position and radius.
    SmokeSource { source: SmokeSourceInput },
    /// The smoke solver's steps and buoyancy.
    SmokeSolver { solver: SmokeSolverInput },
    /// The building's floors, height, footprint, window density and seed.
    Building { params: BuildingParams },
    /// Placement along a path.
    AlongPath { path: PathInput },
    /// Placement on a grid of lots.
    Grid { grid: GridInput },
    /// No instancing node: the mesh is used as it is.
    DirectMesh,
    /// How many nodes and edges the graph has.
    Counts { nodes: usize, edges: usize },
}

/// The mathematical form of a summary line.
pub enum LineModel {
    Name(Seq<char>),
    SmokeDomain(SmokeDomainInput),
    SmokeSource(SmokeSourceInput),
    SmokeSolver(SmokeSolverInput),
    Building(BuildingParams),
    AlongPath(PathInput),
    Grid(GridInput),
    DirectMesh,
    Counts(nat, nat),
}

impl View for ExplainLine {
    type V = LineModel;

    open spec fn view(&self) -> LineModel {
        match self {
            ExplainLine::Name { name } => LineModel::Name(name@),
            ExplainLine::SmokeDomain { domain } => LineModel::SmokeDomain(*domain),
            ExplainLine::SmokeSource { source } => LineModel::SmokeSource(*source),
            ExplainLine::SmokeSolver { solver } => LineModel::SmokeSolver(*solver),
            ExplainLine::Building { params } => LineModel::Building(*params),
            ExplainLine::AlongPath { path } => LineModel::AlongPath(*path),
            ExplainLine::Grid { grid } => LineModel::Grid(*grid),
            ExplainLine::DirectMesh => LineModel::DirectMesh,
            ExplainLine::Counts { nodes, edges } => LineModel::Counts(*nodes as nat, *edges as nat),
        }
    }
}

/// The views of a sequence of summary lines.
pub open spec fn line_views(s: Seq<ExplainLine>) -> Seq<LineModel> {
    s.map_values(|l: ExplainLine| l@)
}

/// Whether a graph is a smoke graph: it has a smoke root.
pub open spec fn is_smoke_graph(nodes: Seq<NodeModel>) -> bool {
    first_node(nodes, NodeKind::SmokeRoot) is Some
}

/// The lines describing the smoke chain: the first domain, source and solver nodes, each
/// when it holds its parameters.
pub open spec fn smoke_lines(nodes: Seq<NodeModel>) -> Seq<LineModel> {
    let domain = match first_node(nodes, NodeKind::SmokeDomain) {
        Some(n) => match n.smoke_domain {
            Some(d) => seq![LineModel::SmokeDomain(d)],
            None => Seq::empty(),
        },
        None => Seq::empty(),
    };
    let source = match first_node(nodes, NodeKind::SmokeSource) {
        Some(n) => match n.smoke_source {
            Some(s) => seq![LineModel::SmokeSource(s)],
            None => Seq::empty(),
        },
        None => Seq::empty(),
    };
    let solver = match first_node(nodes, NodeKind::SmokeSolver) {
        Some(n) => match n.smoke_solver {
            Some(s) => seq![LineModel::SmokeSolver(s)],
            None => Seq::empty(),
        },
        None => Seq::empty(),
    };
    domain + source + solver
}

/// The line describing the building: the first building params node, when it holds them.
pub open spec fn building_lines(nodes: Seq<NodeModel>) -> Seq<LineModel> {
    match first_node(nodes, NodeKind::BuildingParams) {
        Some(n) => match n.building_params {
            Some(p) => seq![LineModel::Building(p)],
            None => Seq::empty(),
        },
        None => Seq::empty(),
    }
}

/// Whether a node places instances: along a path or on a grid.
pub open spec fn is_placement(n: NodeModel) -> bool {
    n.kind == NodeKind::PlaceAlongPath || n.kind == NodeKind::FillGrid
}

/// The first placement node, if any.
pub open spec fn first_placement(nodes: Seq<NodeModel>) -> Option<NodeModel>
    decreases nodes.len(),
{
    if nodes.len() == 0 {
        None
    } else if is_placement(nodes[0]) {
        Some(nodes[0])
    } else {
        first_placement(nodes.drop_first())
    }
}

/// The placement line: the first placement node with its input (or the default one), or
/// direct use of the mesh when there is none and the graph is not a smoke graph.
pub open spec fn placement_lines(nodes: Seq<NodeModel>) -> Seq<LineModel> {
    match first_placement(nodes) {
        Some(n) => if n.kind == NodeKind::PlaceAlongPath {
            seq![LineModel::AlongPath(match n.path_input { Some(p) => p, None => default_path_input() })]
        } else {
            seq![LineModel::Grid(match n.grid_input { Some(g) => g, None => default_grid_input() })]
        },
        None => if is_smoke_graph(nodes) { Seq::empty() } else { seq![LineModel::DirectMesh] },
    }
}

/// The whole summary of `g`, in order.
pub open spec fn explain_model(g: GraphModel) -> Seq<LineModel> {
    seq![LineModel::Name(g.name)]
        + (if is_smoke_graph(g.nodes) { smoke_lines(g.nodes) } else { building_lines(g.nodes) })
        + placement_lines(g.nodes)
        + seq![LineModel::Counts(g.nodes.len(), g.edges.len())]
}

/// The index of the first placement node in `nodes`, if any.
fn find_placement(nodes: &Vec<Node>) -> (r: Option<usize>)
    ensures
        match r {
            Some(i) => i < nodes@.len() && first_placement(node_views(nodes@)) == Some(nodes@[i as int]@),
            None => first_placement(node_views(nodes@)) is None,
        },
{
    let ghost all = node_views(nodes@);
    let mut k: usize = 0;
    assert(all.skip(0) =~= all);
    while k < nodes.len()
        invariant
            k <= nodes@.len(),
            all == node_views(nodes@),
            first_placement(all) == first_placement(all.skip(k as int)),
        decreases nodes.len() - k,
    {
        assert(all.skip(k as int)[0] == nodes@[k as int]@);
        assert(all.skip(k as int).drop_first() =~= all.skip(k + 1));
        if nodes[k].kind == NodeKind::PlaceAlongPath || nodes[k].kind == NodeKind::FillGrid {
            return Some(k);
        }
        k += 1;
    }
    None
}

/// The smoke chain lines of `nodes`.
fn smoke_chain(nodes: &Vec<Node>) -> (lines: Vec<ExplainLine>)
    ensures
        line_views(lines@) == smoke_lines(node_views(nodes@)),
{
    let ghost all = node_views(nodes@);
    let mut lines: Vec<ExplainLine> = Vec::new();
    let mut domain: Vec<ExplainLine> = Vec::new();
    if let Some(i) = find_first(nodes, NodeKind::SmokeDomain) {
        if let Some(d) = nodes[i].smoke_domain {
            domain.push(ExplainLine::SmokeDomain { domain: d });
        }
    }
    let mut source: Vec<ExplainLine> = Vec::new();
    if let Some(i) = find_first(nodes, NodeKind::SmokeSource) {
        if let Some(s) = nodes[i].smoke_source {
            source.push(ExplainLine::SmokeSource { source: s });
        }
    }
    let mut solver: Vec<ExplainLine> = Vec::new();
    if let Some(i) = find_first(nodes, NodeKind::SmokeSolver) {
        if let Some(s) = nodes[i].smoke_solver {
            solver.push(ExplainLine::SmokeSolver { solver: s });
        }
    }
    let ghost (a, b, c) = (line_views(domain@), line_views(source@), line_views(solver@));
    lines.append(&mut domain);
    lines.append(&mut source);
    lines.append(&mut solver);
    assert(line_views(lines@) =~= a + b + c);
    assert(smoke_lines(all) =~= a + b + c);
    lines
}

/// The template summary of `graph`, line by line.
pub fn explain_lines(graph: &Graph) -> (lines: Vec<ExplainLine>)
    ensures
        line_views(lines@) == explain_model(graph@),
{
    let nodes = &graph.nodes;
    let ghost all = node_views(nodes@);
    let mut lines: Vec<ExplainLine> = Vec::new();
    lines.push(ExplainLine::Name { name: graph.name.clone() });
    let smoke = find_first(nodes, NodeKind::SmokeRoot).is_some();
    let mut body: Vec<ExplainLine> = Vec::new();
    if smoke {
        body = smoke_chain(nodes);
    } else if let Some(i) = find_first(nodes, NodeKind::BuildingParams) {
        if let Some(p) = nodes[i].building_params {
            body.push(ExplainLine::Building { params: p });
        }
    }
    let mut place: Vec<ExplainLine> = Vec::new();
    match find_placement(nodes) {
        Some(i) => {
            let n = &nodes[i];
            if n.kind == NodeKind::PlaceAlongPath {
                let path = match n.path_input { Some(p) => p, None => PathInput::default() };
                place.push(ExplainLine::AlongPath { path });
            } else {
                let grid = match n.grid_input { Some(g) => g, None => GridInput::default() };
                place.push(ExplainLine::Grid { grid });
            }
        },
        None => {
            if !smoke {
                place.push(ExplainLine::DirectMesh);
            }
        },
    }
    let ghost (head, b, p) = (line_views(lines@), line_views(body@), line_views(place@));
    assert(b == (if is_smoke_graph(all) { smoke_lines(all) } else { building_lines(all) }));
    assert(p =~= placement_lines(all));
    lines.append(&mut body);
    lines.append(&mut place);
    lines.push(ExplainLine::Counts { nodes: graph.nodes.len(), edges: graph.edges.len() });
    assert(line_views(lines@) =~= head + b + p + seq![LineModel::Counts(graph@.nodes.len(), graph@.edges.len())]);
    lines
}

/// The text of a summary line that shows no `f32` value: the graph's name, the direct mesh
/// placement, or the node and edge counts; `None` for the lines with decimals.
pub open spec fn plain_line_text(line: LineModel) -> Option<Seq<char>> {
    match line {
        LineModel::Name(name) => Some("Graph: "@ + name),
        LineModel::DirectMesh => Some("Placement — direct mesh (no instancing node)"@),
        LineModel::Counts(nodes, edges) => Some(
            "Nodes — "@ + decimal_chars(nodes) + " nodes, "@ + decimal_chars(edges) + " edges"@,
        ),
        _ => None,
    }
}

/// Renders a summary line that shows no `f32` value; the others are left to the caller.
pub fn render_plain_line(line: &ExplainLine) -> (r: Option<String>)
    ensures
        match (r, plain_line_text(line@)) {
            (Some(t), Some(m)) => t@ == m,
            (None, None) => true,
            _ => false,
        },
{
    let mut v: Vec<char> = Vec::new();
    match line {
        ExplainLine::Name { name } => {
            push_chars(&mut v, "Graph: ");
            push_chars(&mut v, name.as_str());
        },
        ExplainLine::DirectMesh => {
            push_chars(&mut v, "Placement — direct mesh (no instancing node)");
        },
        ExplainLine::Counts { nodes, edges } => {
            push_chars(&mut v, "Nodes — ");
            push_decimal_chars(&mut v, *nodes as u64);
            push_chars(&mut v, " nodes, ");
            push_decimal_chars(&mut v, *edges as u64);
            push_chars(&mut v, " edges");
        },
        _ => {
            return None;
        },
    }
    Some(string_from_chars(v.as_slice()))
}

} // verus!
