//! Graph edits: the concrete mutations that prompts and agents apply to a graph.
//!
//! Each edit has a meaning over the graph's model (`edit_applied`), and a list of edits is
//! applied left to right (`edits_applied`).

use crate::graph::{
    copy_graph, copy_node, node_views, preset_graph, preset_model, BuildingParams, Graph, GraphModel, LiquidSolverInput,
    LiquidSourceInput, Node, NodeModel, SmokeSolverInput, SmokeSourceInput,
};
use crate::prompt::{switch_placement, switched, PlacementMode};
use vstd::prelude::*;

verus! {

/// A concrete mutation to apply to the graph.
#[derive(Debug, Clone, PartialEq)]
pub enum GraphEdit {
    LoadPreset { preset_id: String },
    SetBuildingParams { node_id: String, params: BuildingParams },
    SwitchPlacement { mode: PlacementMode },
    SetGraphName { name: String },
    SetSmokeParams {
        source_node_id: String,
        source: SmokeSourceInput,
        solver_node_id: String,
        solver: SmokeSolverInput,
    },
    SetLiquidParams {
        source_node_id: String,
        source: LiquidSourceInput,
        solver_node_id: String,
        solver: LiquidSolverInput,
    },
}

/// The mathematical form of an edit: strings become character sequences.
pub enum EditModel {
    LoadPreset(Seq<char>),
    SetBuildingParams(Seq<char>, BuildingParams),
    SwitchPlacement(PlacementMode),
    SetGraphName(Seq<char>),
    SetSmokeParams(Seq<char>, SmokeSourceInput, Seq<char>, SmokeSolverInput),
    SetLiquidParams(Seq<char>, LiquidSourceInput, Seq<char>, LiquidSolverInput),
}

impl View for GraphEdit {
    type V = EditModel;

    open spec fn view(&self) -> EditModel {
        match self {
            GraphEdit::LoadPreset { preset_id } => EditModel::LoadPreset(preset_id@),
            GraphEdit::SetBuildingParams { node_id, params } => EditModel::SetBuildingParams(node_id@, *params),
            GraphEdit::SwitchPlacement { mode } => EditModel::SwitchPlacement(*mode),
            GraphEdit::SetGraphName { name } => EditModel::SetGraphName(name@),
            GraphEdit::SetSmokeParams { source_node_id, source, solver_node_id, solver } =>
                EditModel::SetSmokeParams(source_node_id@, *source, solver_node_id@, *solver),
            GraphEdit::SetLiquidParams { source_node_id, source, solver_node_id, solver } =>
                EditModel::SetLiquidParams(source_node_id@, *source, solver_node_id@, *solver),
        }
    }
}

/// The views of a sequence of edits.
pub open spec fn edit_views(s: Seq<GraphEdit>) -> Seq<EditModel> {
    s.map_values(|e: GraphEdit| e@)
}

/// `n` with `params` as its building parameters when its id is `id`.
pub open spec fn with_building_params(n: NodeModel, id: Seq<char>, params: BuildingParams) -> NodeModel {
    if n.id == id {
        NodeModel { building_params: Some(params), ..n }
    } else {
        n
    }
}

/// `n` with the smoke source set when its id is `source_id`, then the smoke solver set when
/// its id is `solver_id`.
pub open spec fn with_smoke_params(
    n: NodeModel,
    source_id: Seq<char>,
    source: SmokeSourceInput,
    solver_id: Seq<char>,
    solver: SmokeSolverInput,
) -> NodeModel {
    let m = if n.id == source_id { NodeModel { smoke_source: Some(source), ..n } } else { n };
    if m.id == solver_id {
        NodeModel { smoke_solver: Some(solver), ..m }
    } else {
        m
    }
}

/// `n` with the liquid source set when its id is `source_id`, then the liquid solver set
/// when its id is `solver_id`.
pub open spec fn with_liquid_params(
    n: NodeModel,
    source_id: Seq<char>,
    source: LiquidSourceInput,
    solver_id: Seq<char>,
    solver: LiquidSolverInput,
) -> NodeModel {
    let m = if n.id == source_id { NodeModel { liquid_source: Some(source), ..n } } else { n };
    if m.id == solver_id {
        NodeModel { liquid_solver: Some(solver), ..m }
    } else {
        m
    }
}

/// The graph after one edit.
///
/// Loading a preset replaces the graph with that preset's starter graph; an id that names no
/// preset leaves the graph as it is. Parameter edits set the parameters on
/// every node whose id matches; a placement switch rewires the graph as `switch_placement`
/// does; a rename changes only the name.
pub open spec fn edit_applied(g: GraphModel, e: EditModel) -> GraphModel {
    match e {
        EditModel::LoadPreset(id) => match preset_model(id) {
            Some(m) => m,
            None => g,
        },
        EditModel::SetBuildingParams(id, params) => GraphModel {
            nodes: g.nodes.map_values(|n: NodeModel| with_building_params(n, id, params)),
            ..g
        },
        EditModel::SwitchPlacement(mode) => switched(g, mode),
        EditModel::SetGraphName(name) => GraphModel { name, ..g },
        EditModel::SetSmokeParams(source_id, source, solver_id, solver) => GraphModel {
            nodes: g.nodes.map_values(|n: NodeModel| with_smoke_params(n, source_id, source, solver_id, solver)),
            ..g
        },
        EditModel::SetLiquidParams(source_id, source, solver_id, solver) => GraphModel {
            nodes: g.nodes.map_values(|n: NodeModel| with_liquid_params(n, source_id, source, solver_id, solver)),
            ..g
        },
    }
}

/// The graph after applying `edits` in order.
pub open spec fn edits_applied(g: GraphModel, edits: Seq<EditModel>) -> GraphModel
    decreases edits.len(),
{
    if edits.len() == 0 {
        g
    } else {
        edit_applied(edits_applied(g, edits.drop_last()), edits.last())
    }
}

/// Sets `params` as the building parameters of every node whose id is `id`.
fn set_building_params_on(nodes: &mut Vec<Node>, id: &String, params: BuildingParams)
    ensures
        node_views(final(nodes)@) == node_views(old(nodes)@).map_values(
            |n: NodeModel| with_building_params(n, id@, params),
        ),
{
    let ghost start = node_views(nodes@);
    let mut i: usize = 0;
    while i < nodes.len()
        invariant
            i <= nodes@.len(),
            nodes@.len() == start.len(),
            start == node_views(old(nodes)@),
            forall|j: int| 0 <= j < i ==> nodes@[j]@ == with_building_params(#[trigger] start[j], id@, params),
            forall|j: int| i <= j < nodes@.len() ==> nodes@[j]@ == #[trigger] start[j],
        decreases nodes.len() - i,
    {
        if nodes[i].id.0 == *id {
            let mut n = copy_node(&nodes[i]);
            n.building_params = Some(params);
            nodes.set(i, n);
        }
        i += 1;
    }
    assert(node_views(nodes@) =~= start.map_values(|n: NodeModel| with_building_params(n, id@, params)));
}

/// Sets the smoke source on nodes whose id is `source_id` and the smoke solver on nodes
/// whose id is `solver_id`.
fn set_smoke_params_on(
    nodes: &mut Vec<Node>,
    source_id: &String,
    source: SmokeSourceInput,
    solver_id: &String,
    solver: SmokeSolverInput,
)
    ensures
        node_views(final(nodes)@) == node_views(old(nodes)@).map_values(
            |n: NodeModel| with_smoke_params(n, source_id@, source, solver_id@, solver),
        ),
{
    let ghost start = node_views(nodes@);
    let mut i: usize = 0;
    while i < nodes.len()
        invariant
            i <= nodes@.len(),
            nodes@.len() == start.len(),
            start == node_views(old(nodes)@),
            forall|j: int|
                0 <= j < i ==> nodes@[j]@ == with_smoke_params(#[trigger] start[j], source_id@, source, solver_id@, solver),
            forall|j: int| i <= j < nodes@.len() ==> nodes@[j]@ == #[trigger] start[j],
        decreases nodes.len() - i,
    {
        let mut n = copy_node(&nodes[i]);
        if n.id.0 == *source_id {
            n.smoke_source = Some(source);
        }
        if n.id.0 == *solver_id {
            n.smoke_solver = Some(solver);
        }
        nodes.set(i, n);
        i += 1;
    }
    assert(node_views(nodes@) =~= start.map_values(
        |n: NodeModel| with_smoke_params(n, source_id@, source, solver_id@, solver),
    ));
}

/// Sets the liquid source on nodes whose id is `source_id` and the liquid solver on nodes
/// whose id is `solver_id`.
fn set_liquid_params_on(
    nodes: &mut Vec<Node>,
    source_id: &String,
    source: LiquidSourceInput,
    solver_id: &String,
    solver: LiquidSolverInput,
)
    ensures
        node_views(final(nodes)@) == node_views(old(nodes)@).map_values(
            |n: NodeModel| with_liquid_params(n, source_id@, source, solver_id@, solver),
        ),
{
    let ghost start = node_views(nodes@);
    let mut i: usize = 0;
    while i < nodes.len()
        invariant
            i <= nodes@.len(),
            nodes@.len() == start.len(),
            start == node_views(old(nodes)@),
            forall|j: int|
                0 <= j < i ==> nodes@[j]@ == with_liquid_params(#[trigger] start[j], source_id@, source, solver_id@, solver),
            forall|j: int| i <= j < nodes@.len() ==> nodes@[j]@ == #[trigger] start[j],
        decreases nodes.len() - i,
    {
        let mut n = copy_node(&nodes[i]);
        if n.id.0 == *source_id {
            n.liquid_source = Some(source);
        }
        if n.id.0 == *solver_id {
            n.liquid_solver = Some(solver);
        }
        nodes.set(i, n);
        i += 1;
    }
    assert(node_views(nodes@) =~= start.map_values(
        |n: NodeModel| with_liquid_params(n, source_id@, source, solver_id@, solver),
    ));
}

/// Applies one edit to `graph` in place.
pub fn apply_edit(graph: &mut Graph, edit: &GraphEdit)
    ensures
        final(graph)@ == edit_applied(old(graph)@, edit@),
{
    match edit {
        GraphEdit::LoadPreset { preset_id } => {
            if let Some(preset) = preset_graph(preset_id.as_str()) {
                *graph = preset;
            }
        },
        GraphEdit::SetBuildingParams { node_id, params } => {
            set_building_params_on(&mut graph.nodes, node_id, *params);
        },
        GraphEdit::SwitchPlacement { mode } => {
            let switched_graph = switch_placement(&*graph, *mode);
            *graph = switched_graph;
        },
        GraphEdit::SetGraphName { name } => {
            graph.name = name.clone();
        },
        GraphEdit::SetSmokeParams { source_node_id, source, solver_node_id, solver } => {
            set_smoke_params_on(&mut graph.nodes, source_node_id, *source, solver_node_id, *solver);
        },
        GraphEdit::SetLiquidParams { source_node_id, source, solver_node_id, solver } => {
            set_liquid_params_on(&mut graph.nodes, source_node_id, *source, solver_node_id, *solver);
        },
    }
}

/// Applies graph edits in order and returns the updated graph.
pub fn apply_edits(graph: &Graph, edits: &[GraphEdit]) -> (g: Graph)
    ensures
        g@ == edits_applied(graph@, edit_views(edits@)),
{
    let mut result = copy_graph(graph);
    let ghost all = edit_views(edits@);
    let mut k: usize = 0;
    while k < edits.len()
        invariant
            k <= edits@.len(),
            all == edit_views(edits@),
            result@ == edits_applied(graph@, all.take(k as int)),
        decreases edits.len() - k,
    {
        apply_edit(&mut result, &edits[k]);
        assert(all.take(k + 1).drop_last() =~= all.take(k as int));
        k += 1;
    }
    assert(all.take(edits@.len() as int) =~= all);
    result
}

/// Applying two lists of edits one after the other is applying their concatenation.
pub proof fn lemma_edits_compose(g: GraphModel, first: Seq<EditModel>, second: Seq<EditModel>)
    ensures
        edits_applied(g, first + second) == edits_applied(edits_applied(g, first), second),
    decreases second.len(),
{
    if second.len() == 0 {
        assert(first + second =~= first);
    } else {
        assert((first + second).drop_last() =~= first + second.drop_last());
        assert((first + second).last() == second.last());
        lemma_edits_compose(g, first, second.drop_last());
    }
}

/// Whether `e` only sets parameters on nodes (building, smoke or liquid).
pub open spec fn is_parameter_edit(e: EditModel) -> bool {
    e is SetBuildingParams || e is SetSmokeParams || e is SetLiquidParams
}

/// A parameter edit keeps the graph's structure: the name, the edges, and the number, ids,
/// kinds and labels of the nodes stay as they were.
pub proof fn lemma_parameter_edit_keeps_structure(g: GraphModel, e: EditModel)
    requires
        is_parameter_edit(e),
    ensures
        edit_applied(g, e).name == g.name,
        edit_applied(g, e).edges == g.edges,
        edit_applied(g, e).nodes.len() == g.nodes.len(),
        forall|i: int|
            0 <= i < g.nodes.len() ==> {
                let n = #[trigger] edit_applied(g, e).nodes[i];
                n.id == g.nodes[i].id && n.kind == g.nodes[i].kind && n.label == g.nodes[i].label
            },
{
}

/// Applying the same edit twice is applying it once, for every edit but a placement switch.
pub proof fn lemma_edit_idempotent(g: GraphModel, e: EditModel)
    requires
        !(e is SwitchPlacement),
    ensures
        edit_applied(edit_applied(g, e), e) == edit_applied(g, e),
{
    let once = edit_applied(g, e);
    let twice = edit_applied(once, e);
    match e {
        EditModel::SetBuildingParams(..) | EditModel::SetSmokeParams(..) | EditModel::SetLiquidParams(..) => {
            assert(twice.nodes =~= once.nodes);
        },
        _ => {},
    }
}

} // verus!
