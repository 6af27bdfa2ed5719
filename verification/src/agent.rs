//! Agent-oriented preset catalogue.

use crate::graph::{
    copy_graph, copy_node, node_views, preset_graph, preset_model, smoke_puff_model, BuildingParams, Graph, GraphModel, NodeKind, NodeModel,
};
use vstd::prelude::*;

verus! {

/// Metadata for a built-in graph preset.
#[derive(Debug, Clone, PartialEq, Eq)]
pub struct PresetInfo {
    pub id: String,
    pub name: String,
    pub description: String,
}

/// Whether `p` carries exactly the given id, name and description.
pub open spec fn preset_is(p: PresetInfo, id: &str, name: &str, description: &str) -> bool {
    p.id@ == id@ && p.name@ == name@ && p.description@ == description@
}

/// Lists available graph presets for agents and UI: shop street, grid block and smoke puff,
/// in that order.
pub fn list_presets() -> (presets: Vec<PresetInfo>)
    ensures
        presets.len() == 3,
        preset_is(presets[0], "shop_street", "Shop Street", "Building mesh placed along a straight street path"),
        preset_is(presets[1], "grid_block", "Grid Block", "Building mesh filling a rectangular grid of lots"),
        preset_is(presets[2], "smoke_puff", "Smoke Puff", "Eulerian smoke domain, source, and solver chain"),
{
    let mut presets: Vec<PresetInfo> = Vec::new();
    presets.push(PresetInfo {
        id: "shop_street".to_string(),
        name: "Shop Street".to_string(),
        description: "Building mesh placed along a straight street path".to_string(),
    });
    presets.push(PresetInfo {
        id: "grid_block".to_string(),
        name: "Grid Block".to_string(),
        description: "Building mesh filling a rectangular grid of lots".to_string(),
    });
    presets.push(PresetInfo {
        id: "smoke_puff".to_string(),
        name: "Smoke Puff".to_string(),
        description: "Eulerian smoke domain, source, and solver chain".to_string(),
    });
    presets
}

/// The graph the preset catalogue serves for `id`: the shop street, grid block and smoke
/// puff presets, with `smoke_plume` as another name for the smoke puff.
pub open spec fn catalogue_model(id: Seq<char>) -> Option<GraphModel> {
    if id == "shop_street"@ || id == "grid_block"@ || id == "smoke_puff"@ {
        preset_model(id)
    } else if id == "smoke_plume"@ {
        Some(smoke_puff_model())
    } else {
        None
    }
}

/// Every preset the catalogue lists loads: each listed id has a starter graph, and loading
/// it as an edit gives the same graph as the catalogue.
pub proof fn lemma_listed_presets_load()
    ensures
        catalogue_model("shop_street"@) is Some,
        catalogue_model("grid_block"@) is Some,
        catalogue_model("smoke_puff"@) is Some,
        catalogue_model("shop_street"@) == preset_model("shop_street"@),
        catalogue_model("grid_block"@) == preset_model("grid_block"@),
        catalogue_model("smoke_puff"@) == preset_model("smoke_puff"@),
{
}

/// Returns a catalogue preset graph by id, or `None` if the id is unknown.
pub fn get_preset(id: &str) -> (g: Option<Graph>)
    ensures
        match (g, catalogue_model(id@)) {
            (Some(graph), Some(m)) => graph@ == m,
            (None, None) => true,
            _ => false,
        },
{
    let key = id.to_string();
    if key == "shop_street".to_string() || key == "grid_block".to_string() || key == "smoke_puff".to_string() {
        preset_graph(id)
    } else if key == "smoke_plume".to_string() {
        Some(Graph::smoke_puff_preset())
    } else {
        None
    }
}

} // verus!

verus! {

/// Whether node `n` is the target of a parameter update for `node_id`: a building params
/// node, with that id when one is given.
pub open spec fn is_params_target(n: NodeModel, node_id: Option<Seq<char>>) -> bool {
    n.kind == NodeKind::BuildingParams && (node_id matches Some(id) ==> n.id == id)
}

/// Index of the first target node, if any.
pub open spec fn first_target(nodes: Seq<NodeModel>, node_id: Option<Seq<char>>) -> Option<int>
    decreases nodes.len(),
{
    if nodes.len() == 0 {
        None
    } else if is_params_target(nodes[0], node_id) {
        Some(0)
    } else {
        match first_target(nodes.drop_first(), node_id) {
            Some(i) => Some(i + 1),
            None => None,
        }
    }
}

/// The graph with `params` set on its first target node (unchanged when there is none).
pub open spec fn with_params(g: GraphModel, node_id: Option<Seq<char>>, params: BuildingParams) -> GraphModel {
    match first_target(g.nodes, node_id) {
        Some(i) => GraphModel {
            nodes: g.nodes.update(i, NodeModel { building_params: Some(params), ..g.nodes[i] }),
            ..g
        },
        None => g,
    }
}

proof fn lemma_first_target_bounds(nodes: Seq<NodeModel>, node_id: Option<Seq<char>>)
    ensures
        first_target(nodes, node_id) matches Some(i) ==> 0 <= i < nodes.len() && is_params_target(nodes[i], node_id)
            && forall|j: int| 0 <= j < i ==> !is_params_target(#[trigger] nodes[j], node_id),
        first_target(nodes, node_id) is None ==> forall|j: int| 0 <= j < nodes.len() ==> !is_params_target(#[trigger] nodes[j], node_id),
    decreases nodes.len(),
{
    if nodes.len() > 0 {
        let t = nodes.drop_first();
        lemma_first_target_bounds(t, node_id);
        assert forall|j: int| 1 <= j < nodes.len() implies nodes[j] == t[j - 1] by {}
    }
}

/// Updates building params on the node `node_id` (or, without an id, on the first building
/// params node).
pub fn set_params(graph: &Graph, node_id: Option<&str>, params: BuildingParams) -> (g: Graph)
    ensures
        g@ == with_params(graph@, match node_id { Some(s) => Some(s@), None => None }, params),
{
    let ghost want = match node_id { Some(s) => Some(s@), None => None::<Seq<char>> };
    let mut g = copy_graph(graph);
    let wanted: Option<String> = match node_id {
        Some(id) => Some(id.to_string()),
        None => None,
    };
    let mut i: usize = 0;
    while i < g.nodes.len()
        invariant
            i <= g.nodes@.len(),
            g@ == graph@,
            want == match node_id { Some(s) => Some(s@), None => None::<Seq<char>> },
            want == match wanted { Some(s) => Some(s@), None => None::<Seq<char>> },
            forall|j: int| 0 <= j < i ==> !is_params_target(#[trigger] graph@.nodes[j], want),
        decreases g.nodes.len() - i,
    {
        assert(node_views(g.nodes@)[i as int] == g.nodes@[i as int]@);
        let target = g.nodes[i].kind == NodeKind::BuildingParams && match &wanted {
            Some(id) => g.nodes[i].id.0 == *id,
            None => true,
        };
        if target {
            let mut n = copy_node(&g.nodes[i]);
            n.building_params = Some(params);
            let ghost before = g@;
            g.nodes.set(i, n);
            proof {
                lemma_first_target_bounds(graph@.nodes, want);
                assert(is_params_target(graph@.nodes[i as int], want));
                if first_target(graph@.nodes, want) is Some {
                    let t = first_target(graph@.nodes, want)->0;
                    if t < i {
                        assert(!is_params_target(graph@.nodes[t], want));
                    }
                    if i < t {
                        assert(!is_params_target(graph@.nodes[i as int], want));
                    }
                }
                assert(g@.nodes =~= with_params(graph@, want, params).nodes);
            }
            return g;
        }
        i += 1;
    }
    proof {
        lemma_first_target_bounds(graph@.nodes, want);
        if first_target(graph@.nodes, want) is Some {
            let t = first_target(graph@.nodes, want)->0;
            assert(!is_params_target(graph@.nodes[t], want));
        }
    }
    g
}

/// Setting the same parameters twice is setting them once: the node a first update targets
/// is still the first target, and it already holds the parameters.
pub proof fn lemma_set_params_idempotent(g: GraphModel, node_id: Option<Seq<char>>, params: BuildingParams)
    ensures
        with_params(with_params(g, node_id, params), node_id, params) == with_params(g, node_id, params),
{
    lemma_first_target_bounds(g.nodes, node_id);
    let once = with_params(g, node_id, params);
    lemma_first_target_bounds(once.nodes, node_id);
    if let Some(i) = first_target(g.nodes, node_id) {
        assert(is_params_target(once.nodes[i], node_id));
        assert forall|j: int| 0 <= j < i implies once.nodes[j] == g.nodes[j] by {}
        if let Some(k) = first_target(once.nodes, node_id) {
            if k < i {
                assert(!is_params_target(g.nodes[k], node_id));
            }
            if i < k {
                assert(!is_params_target(once.nodes[i], node_id));
            }
        }
        assert(with_params(once, node_id, params).nodes =~= once.nodes);
    } else {
        assert(once == g);
    }
}

} // verus!
