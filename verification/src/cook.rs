//! City cook planning.
//!
//! Cooking a city graph evaluates its nodes in order. Each node looks up its inputs (the
//! sources of the edges into it, in edge order) among the nodes evaluated before it, by id,
//! the latest evaluation of an id winning. What the graph decides (which operation a node
//! runs, on which earlier results, or which error stops the cook) is computed here as a
//! plan; the geometry the operations produce is computed on `f32` coordinates by the host.

use crate::graph::{
    edge_views, find_kind, first_of_kind, node_views, BuildingParams, Edge, Graph, GraphModel, GridInput, Node, NodeKind,
    NodeModel, PathInput, default_building_params, default_grid_input, default_path_input, grid_block_model, shop_street_model, street_path,
};
use crate::text::{chars_of, string_from_chars};
use vstd::prelude::*;

verus! {

/// The operation one node of a city graph runs when the graph is cooked.
#[derive(Debug, Clone, PartialEq, Eq)]
pub enum CookStep {
    /// The node's own building parameters.
    Params(BuildingParams),
    /// A building mesh generated from these parameters.
    Building(BuildingParams),
    /// Instances placed along `path` (jittered by `seed`) over the building of step `mesh`.
    AlongPath { mesh: usize, path: PathInput, seed: u64 },
    /// Instances filling `grid` (jittered by `seed`) over the building of step `mesh`.
    FillGrid { mesh: usize, grid: GridInput, seed: u64 },
    /// The instances of the city steps `cities`, concatenated, over the mesh of step `base`
    /// (an empty mesh when there is none).
    Merge { base: Option<usize>, cities: Vec<usize> },
    /// The city of an earlier step, passed through.
    City(usize),
    /// The building of an earlier step as a city of one untransformed instance.
    MeshCity(usize),
    /// A simulation node: it contributes nothing to the city.
    Skipped,
}

/// The mathematical form of a cook step.
pub enum StepModel {
    Params(BuildingParams),
    Building(BuildingParams),
    AlongPath(usize, PathInput, u64),
    FillGrid(usize, GridInput, u64),
    Merge(Option<usize>, Seq<usize>),
    City(usize),
    MeshCity(usize),
    Skipped,
}

impl View for CookStep {
    type V = StepModel;

    open spec fn view(&self) -> StepModel {
        match self {
            CookStep::Params(p) => StepModel::Params(*p),
            CookStep::Building(p) => StepModel::Building(*p),
            CookStep::AlongPath { mesh, path, seed } => StepModel::AlongPath(*mesh, *path, *seed),
            CookStep::FillGrid { mesh, grid, seed } => StepModel::FillGrid(*mesh, *grid, *seed),
            CookStep::Merge { base, cities } => StepModel::Merge(*base, cities@),
            CookStep::City(j) => StepModel::City(*j),
            CookStep::MeshCity(j) => StepModel::MeshCity(*j),
            CookStep::Skipped => StepModel::Skipped,
        }
    }
}

/// The plan of a city cook: one step per node, in node order, and the step whose city is the
/// output.
#[derive(Debug, Clone, PartialEq, Eq)]
pub struct CookPlan {
    pub steps: Vec<CookStep>,
    pub root: usize,
}

/// The mathematical form of a cook plan.
pub struct PlanModel {
    pub steps: Seq<StepModel>,
    pub root: usize,
}

/// The views of a sequence of steps.
pub open spec fn step_views(s: Seq<CookStep>) -> Seq<StepModel> {
    s.map_values(|c: CookStep| c@)
}

impl View for CookPlan {
    type V = PlanModel;

    open spec fn view(&self) -> PlanModel {
        PlanModel { steps: step_views(self.steps@), root: self.root }
    }
}

/// Whether a step's result is a building mesh.
pub open spec fn produces_mesh(s: StepModel) -> bool {
    s is Building
}

/// Whether a step's result is a city (a merged mesh with its instances).
pub open spec fn produces_city(s: StepModel) -> bool {
    s is AlongPath || s is FillGrid || s is Merge || s is City || s is MeshCity
}

/// The index of the last of the first `k` nodes whose id is `id`: the node whose result a
/// lookup of `id` finds once those nodes are evaluated.
pub open spec fn latest(nodes: Seq<NodeModel>, k: int, id: Seq<char>) -> Option<usize>
    decreases k,
{
    if k <= 0 {
        None
    } else if nodes[k - 1].id == id {
        Some((k - 1) as usize)
    } else {
        latest(nodes, k - 1, id)
    }
}

/// The ids feeding node `id`: the source of every edge into it, in edge order.
pub open spec fn inputs_of(edges: Seq<(Seq<char>, Seq<char>)>, id: Seq<char>) -> Seq<Seq<char>>
    decreases edges.len(),
{
    if edges.len() == 0 {
        Seq::empty()
    } else {
        let rest = inputs_of(edges.drop_last(), id);
        if edges.last().1 == id {
            rest.push(edges.last().0)
        } else {
            rest
        }
    }
}

/// The parameters of the first input whose result is a set of building parameters.
pub open spec fn first_params(inputs: Seq<Seq<char>>, nodes: Seq<NodeModel>, steps: Seq<StepModel>) -> Option<
    BuildingParams,
>
    decreases inputs.len(),
{
    if inputs.len() == 0 {
        None
    } else {
        match latest(nodes, steps.len() as int, inputs[0]) {
            Some(j) => match steps[j as int] {
                StepModel::Params(p) => Some(p),
                _ => first_params(inputs.drop_first(), nodes, steps),
            },
            None => first_params(inputs.drop_first(), nodes, steps),
        }
    }
}

/// The step of the first input whose result is a building mesh.
pub open spec fn first_mesh(inputs: Seq<Seq<char>>, nodes: Seq<NodeModel>, steps: Seq<StepModel>) -> Option<usize>
    decreases inputs.len(),
{
    if inputs.len() == 0 {
        None
    } else {
        match latest(nodes, steps.len() as int, inputs[0]) {
            Some(j) => if produces_mesh(steps[j as int]) {
                Some(j)
            } else {
                first_mesh(inputs.drop_first(), nodes, steps)
            },
            None => first_mesh(inputs.drop_first(), nodes, steps),
        }
    }
}

/// What a merge gathers from its inputs: the first mesh or city as its base, and every city
/// whose instances it concatenates, in input order.
pub open spec fn merge_sources(inputs: Seq<Seq<char>>, nodes: Seq<NodeModel>, steps: Seq<StepModel>) -> (
    Option<usize>,
    Seq<usize>,
)
    decreases inputs.len(),
{
    if inputs.len() == 0 {
        (None, Seq::empty())
    } else {
        let before = merge_sources(inputs.drop_last(), nodes, steps);
        match latest(nodes, steps.len() as int, inputs.last()) {
            Some(j) => if produces_city(steps[j as int]) {
                (if before.0 is None { Some(j) } else { before.0 }, before.1.push(j))
            } else if produces_mesh(steps[j as int]) {
                (if before.0 is None { Some(j) } else { before.0 }, before.1)
            } else {
                before
            },
            None => before,
        }
    }
}

/// The error of a city root whose input has no city or mesh result.
pub open spec fn unsupported_input_message(id: Seq<char>) -> Seq<char> {
    "CityRoot input "@ + id + " has unsupported type"@
}

/// The step of a city root: its first input's city, or its first input's mesh as a city.
pub open spec fn root_step(inputs: Seq<Seq<char>>, nodes: Seq<NodeModel>, steps: Seq<StepModel>) -> Result<
    StepModel,
    Seq<char>,
> {
    if inputs.len() == 0 {
        Err("CityRoot requires an input edge"@)
    } else {
        match latest(nodes, steps.len() as int, inputs[0]) {
            Some(j) => if produces_city(steps[j as int]) {
                Ok(StepModel::City(j))
            } else if produces_mesh(steps[j as int]) {
                Ok(StepModel::MeshCity(j))
            } else {
                Err(unsupported_input_message(inputs[0]))
            },
            None => Err(unsupported_input_message(inputs[0])),
        }
    }
}

/// The seed a placement node jitters with: its building parameters' seed, else 1.
pub open spec fn placement_seed(n: NodeModel) -> u64 {
    match n.building_params {
        Some(p) => p.seed,
        None => 1,
    }
}

/// The step of the node after those that `steps` describe, or the error that stops the cook.
pub open spec fn node_step(g: GraphModel, steps: Seq<StepModel>) -> Result<StepModel, Seq<char>> {
    let n = g.nodes[steps.len() as int];
    let inputs = inputs_of(g.edges, n.id);
    match n.kind {
        NodeKind::BuildingParams => match n.building_params {
            Some(p) => Ok(StepModel::Params(p)),
            None => Err(n.id + " missing building_params"@),
        },
        NodeKind::BuildingMesh => match first_params(inputs, g.nodes, steps) {
            Some(p) => Ok(StepModel::Building(p)),
            None => Err("BuildingMesh missing BuildingParams input"@),
        },
        NodeKind::PlaceAlongPath => match first_mesh(inputs, g.nodes, steps) {
            Some(j) => Ok(StepModel::AlongPath(
                j,
                match n.path_input { Some(p) => p, None => default_path_input() },
                placement_seed(n),
            )),
            None => Err("placement node missing BuildingMesh input"@),
        },
        NodeKind::FillGrid => match first_mesh(inputs, g.nodes, steps) {
            Some(j) => Ok(StepModel::FillGrid(
                j,
                match n.grid_input { Some(gi) => gi, None => default_grid_input() },
                placement_seed(n),
            )),
            None => Err("placement node missing BuildingMesh input"@),
        },
        NodeKind::MergeInstances => {
            let m = merge_sources(inputs, g.nodes, steps);
            Ok(StepModel::Merge(m.0, m.1))
        },
        NodeKind::CityRoot => root_step(inputs, g.nodes, steps),
        _ => Ok(StepModel::Skipped),
    }
}

/// The steps of the first `k` nodes, or the first error among them.
pub open spec fn steps_upto(g: GraphModel, k: nat) -> Result<Seq<StepModel>, Seq<char>>
    decreases k,
{
    if k == 0 {
        Ok(Seq::empty())
    } else {
        match steps_upto(g, (k - 1) as nat) {
            Ok(s) => match node_step(g, s) {
                Ok(st) => Ok(s.push(st)),
                Err(e) => Err(e),
            },
            Err(e) => Err(e),
        }
    }
}

/// The cook plan of a graph: it needs a city root; every node is evaluated in order, the
/// first failing one stopping the cook; the output is the result found under the (first)
/// root's id, which must be a city.
pub open spec fn cook_plan_of(g: GraphModel) -> Result<PlanModel, Seq<char>> {
    match first_of_kind(g.nodes, NodeKind::CityRoot) {
        None => Err("graph missing CityRoot node"@),
        Some(root_id) => match steps_upto(g, g.nodes.len()) {
            Err(e) => Err(e),
            Ok(s) => match latest(g.nodes, g.nodes.len() as int, root_id) {
                Some(r) => if produces_city(s[r as int]) {
                    Ok(PlanModel { steps: s, root: r })
                } else {
                    Err("CityRoot did not receive city output"@)
                },
                None => Err("CityRoot was not evaluated"@),
            },
        },
    }
}

/// The views of a sequence of strings.
pub open spec fn text_views(s: Seq<String>) -> Seq<Seq<char>> {
    s.map_values(|t: String| t@)
}

/// The text `a` followed by the text `b`.
fn joined(a: &str, b: &str) -> (r: String)
    ensures
        r@ == a@ + b@,
{
    let mut v = chars_of(a);
    let w = chars_of(b);
    let ghost start = v@;
    let mut i: usize = 0;
    while i < w.len()
        invariant
            i <= w@.len(),
            v@ == start + w@.take(i as int),
        decreases w.len() - i,
    {
        v.push(w[i]);
        i += 1;
        assert(v@ =~= start + w@.take(i as int));
    }
    assert(w@.take(w@.len() as int) =~= w@);
    string_from_chars(v.as_slice())
}

/// The index of the last of the first `k` nodes whose id is `id`.
fn latest_index(nodes: &Vec<Node>, k: usize, id: &String) -> (r: Option<usize>)
    requires
        k <= nodes@.len(),
    ensures
        r == latest(node_views(nodes@), k as int, id@),
{
    let ghost all = node_views(nodes@);
    let mut j: usize = k;
    while j > 0
        invariant
            j <= k <= nodes@.len(),
            all == node_views(nodes@),
            latest(all, k as int, id@) == latest(all, j as int, id@),
        decreases j,
    {
        assert(all[j - 1] == nodes@[j - 1]@);
        if nodes[j - 1].id.0 == *id {
            return Some(j - 1);
        }
        j -= 1;
    }
    None
}

/// The sources of the edges into `id`, in edge order.
fn inputs_for(edges: &Vec<Edge>, id: &String) -> (r: Vec<String>)
    ensures
        text_views(r@) == inputs_of(edge_views(edges@), id@),
{
    let ghost all = edge_views(edges@);
    let mut r: Vec<String> = Vec::new();
    let mut i: usize = 0;
    while i < edges.len()
        invariant
            i <= edges@.len(),
            all == edge_views(edges@),
            text_views(r@) == inputs_of(all.take(i as int), id@),
        decreases edges.len() - i,
    {
        assert(all.take(i + 1).drop_last() =~= all.take(i as int));
        assert(all.take(i + 1).last() == edges@[i as int]@);
        if edges[i].to.0 == *id {
            let ghost before = r@;
            r.push(edges[i].from.0.clone());
            assert(text_views(r@) =~= text_views(before).push(edges@[i as int].from.0@));
        }
        i += 1;
    }
    assert(all.take(edges@.len() as int) =~= all);
    r
}

proof fn lemma_latest_bounds(nodes: Seq<NodeModel>, k: int, id: Seq<char>)
    requires
        0 <= k <= nodes.len(),
        k <= usize::MAX,
    ensures
        latest(nodes, k, id) matches Some(j) ==> j < k && nodes[j as int].id == id,
    decreases k,
{
    if k > 0 && nodes[k - 1].id != id {
        lemma_latest_bounds(nodes, k - 1, id);
    }
}

/// The parameters of the first input whose result is a set of building parameters.
fn find_params(inputs: &Vec<String>, nodes: &Vec<Node>, steps: &Vec<CookStep>) -> (r: Option<BuildingParams>)
    requires
        steps@.len() <= nodes@.len(),
    ensures
        r == first_params(text_views(inputs@), node_views(nodes@), step_views(steps@)),
{
    let ghost all = text_views(inputs@);
    let ghost ns = node_views(nodes@);
    let ghost ss = step_views(steps@);
    let mut i: usize = 0;
    assert(all.skip(0) =~= all);
    while i < inputs.len()
        invariant
            i <= inputs@.len(),
            steps@.len() <= nodes@.len(),
            all == text_views(inputs@),
            ns == node_views(nodes@),
            ss == step_views(steps@),
            first_params(all, ns, ss) == first_params(all.skip(i as int), ns, ss),
        decreases inputs.len() - i,
    {
        assert(all.skip(i as int)[0] == inputs@[i as int]@);
        assert(all.skip(i as int).drop_first() =~= all.skip(i + 1));
        let found = latest_index(nodes, steps.len(), &inputs[i]);
        proof {
            lemma_latest_bounds(ns, ss.len() as int, all.skip(i as int)[0]);
        }
        if let Some(j) = found {
            assert(ss[j as int] == steps@[j as int]@);
            if let CookStep::Params(p) = &steps[j] {
                return Some(*p);
            }
        }
        i += 1;
    }
    None
}

/// The step of the first input whose result is a building mesh.
fn find_mesh(inputs: &Vec<String>, nodes: &Vec<Node>, steps: &Vec<CookStep>) -> (r: Option<usize>)
    requires
        steps@.len() <= nodes@.len(),
    ensures
        r == first_mesh(text_views(inputs@), node_views(nodes@), step_views(steps@)),
        r matches Some(j) ==> j < steps@.len(),
{
    let ghost all = text_views(inputs@);
    let ghost ns = node_views(nodes@);
    let ghost ss = step_views(steps@);
    let mut i: usize = 0;
    assert(all.skip(0) =~= all);
    while i < inputs.len()
        invariant
            i <= inputs@.len(),
            steps@.len() <= nodes@.len(),
            all == text_views(inputs@),
            ns == node_views(nodes@),
            ss == step_views(steps@),
            first_mesh(all, ns, ss) == first_mesh(all.skip(i as int), ns, ss),
        decreases inputs.len() - i,
    {
        assert(all.skip(i as int)[0] == inputs@[i as int]@);
        assert(all.skip(i as int).drop_first() =~= all.skip(i + 1));
        let found = latest_index(nodes, steps.len(), &inputs[i]);
        proof {
            lemma_latest_bounds(ns, ss.len() as int, all.skip(i as int)[0]);
        }
        if let Some(j) = found {
            assert(ss[j as int] == steps@[j as int]@);
            if let CookStep::Building(_) = &steps[j] {
                return Some(j);
            }
        }
        i += 1;
    }
    None
}

/// What a merge gathers from its inputs: its base step and the city steps it concatenates.
fn gather_merge(inputs: &Vec<String>, nodes: &Vec<Node>, steps: &Vec<CookStep>) -> (r: (Option<usize>, Vec<usize>))
    requires
        steps@.len() <= nodes@.len(),
    ensures
        (r.0, r.1@) == merge_sources(text_views(inputs@), node_views(nodes@), step_views(steps@)),
{
    let ghost all = text_views(inputs@);
    let ghost ns = node_views(nodes@);
    let ghost ss = step_views(steps@);
    let mut base: Option<usize> = None;
    let mut cities: Vec<usize> = Vec::new();
    let mut i: usize = 0;
    assert(all.take(0) =~= Seq::<Seq<char>>::empty());
    while i < inputs.len()
        invariant
            i <= inputs@.len(),
            steps@.len() <= nodes@.len(),
            all == text_views(inputs@),
            ns == node_views(nodes@),
            ss == step_views(steps@),
            (base, cities@) == merge_sources(all.take(i as int), ns, ss),
        decreases inputs.len() - i,
    {
        assert(all.take(i + 1).drop_last() =~= all.take(i as int));
        assert(all.take(i + 1).last() == inputs@[i as int]@);
        let found = latest_index(nodes, steps.len(), &inputs[i]);
        proof {
            lemma_latest_bounds(ns, ss.len() as int, inputs@[i as int]@);
        }
        if let Some(j) = found {
            assert(ss[j as int] == steps@[j as int]@);
            let is_city = match &steps[j] {
                CookStep::AlongPath { .. } | CookStep::FillGrid { .. } | CookStep::Merge { .. } | CookStep::City(_)
                | CookStep::MeshCity(_) => true,
                _ => false,
            };
            let is_mesh = match &steps[j] {
                CookStep::Building(_) => true,
                _ => false,
            };
            if is_city || is_mesh {
                if base.is_none() {
                    base = Some(j);
                }
            }
            if is_city {
                cities.push(j);
            }
        }
        i += 1;
    }
    assert(all.take(inputs@.len() as int) =~= all);
    (base, cities)
}

/// The step of a city root, or the error that stops the cook there.
fn city_root_step(inputs: &Vec<String>, nodes: &Vec<Node>, steps: &Vec<CookStep>) -> (r: Result<CookStep, String>)
    requires
        steps@.len() <= nodes@.len(),
    ensures
        match (r, root_step(text_views(inputs@), node_views(nodes@), step_views(steps@))) {
            (Ok(s), Ok(m)) => s@ == m,
            (Err(e), Err(m)) => e@ == m,
            _ => false,
        },
{
    if inputs.len() == 0 {
        return Err("CityRoot requires an input edge".to_string());
    }
    let ghost ns = node_views(nodes@);
    let ghost ss = step_views(steps@);
    assert(text_views(inputs@)[0] == inputs@[0]@);
    let found = latest_index(nodes, steps.len(), &inputs[0]);
    proof {
        lemma_latest_bounds(ns, ss.len() as int, inputs@[0]@);
    }
    if let Some(j) = found {
        assert(ss[j as int] == steps@[j as int]@);
        match &steps[j] {
            CookStep::AlongPath { .. } | CookStep::FillGrid { .. } | CookStep::Merge { .. } | CookStep::City(_)
            | CookStep::MeshCity(_) => {
                return Ok(CookStep::City(j));
            },
            CookStep::Building(_) => {
                return Ok(CookStep::MeshCity(j));
            },
            _ => {},
        }
    }
    let head = joined("CityRoot input ", inputs[0].as_str());
    Err(joined(head.as_str(), " has unsupported type"))
}

/// The step of node `steps.len()`, or the error that stops the cook there.
fn cook_node(graph: &Graph, steps: &Vec<CookStep>) -> (r: Result<CookStep, String>)
    requires
        steps@.len() < graph.nodes@.len(),
    ensures
        match (r, node_step(graph@, step_views(steps@))) {
            (Ok(s), Ok(m)) => s@ == m,
            (Err(e), Err(m)) => e@ == m,
            _ => false,
        },
{
    let k = steps.len();
    let node = &graph.nodes[k];
    assert(graph@.nodes[k as int] == node@);
    let inputs = inputs_for(&graph.edges, &node.id.0);
    let seed: u64 = match node.building_params {
        Some(p) => p.seed,
        None => 1,
    };
    match node.kind {
        NodeKind::BuildingParams => match node.building_params {
            Some(p) => Ok(CookStep::Params(p)),
            None => Err(joined(node.id.0.as_str(), " missing building_params")),
        },
        NodeKind::BuildingMesh => match find_params(&inputs, &graph.nodes, steps) {
            Some(p) => Ok(CookStep::Building(p)),
            None => Err("BuildingMesh missing BuildingParams input".to_string()),
        },
        NodeKind::PlaceAlongPath => match find_mesh(&inputs, &graph.nodes, steps) {
            Some(j) => {
                let path = match node.path_input {
                    Some(p) => p,
                    None => PathInput::default(),
                };
                Ok(CookStep::AlongPath { mesh: j, path, seed })
            },
            None => Err("placement node missing BuildingMesh input".to_string()),
        },
        NodeKind::FillGrid => match find_mesh(&inputs, &graph.nodes, steps) {
            Some(j) => {
                let grid = match node.grid_input {
                    Some(gi) => gi,
                    None => GridInput::default(),
                };
                Ok(CookStep::FillGrid { mesh: j, grid, seed })
            },
            None => Err("placement node missing BuildingMesh input".to_string()),
        },
        NodeKind::MergeInstances => {
            let (base, cities) = gather_merge(&inputs, &graph.nodes, steps);
            Ok(CookStep::Merge { base, cities })
        },
        NodeKind::CityRoot => city_root_step(&inputs, &graph.nodes, steps),
        _ => Ok(CookStep::Skipped),
    }
}

proof fn lemma_error_persists(g: GraphModel, k: nat, m: nat)
    requires
        k <= m,
        steps_upto(g, k) is Err,
    ensures
        steps_upto(g, m) == steps_upto(g, k),
    decreases m,
{
    if m > k {
        lemma_error_persists(g, k, (m - 1) as nat);
    }
}

/// Plans the cook of a city graph: the operation of every node, in node order, and the step
/// whose city is the output; or the error that stops the cook.
pub fn cook_plan(graph: &Graph) -> (r: Result<CookPlan, String>)
    ensures
        match (r, cook_plan_of(graph@)) {
            (Ok(p), Ok(m)) => p@ == m,
            (Err(e), Err(m)) => e@ == m,
            _ => false,
        },
{
    let root_id = match find_kind(&graph.nodes, NodeKind::CityRoot) {
        Some(id) => id,
        None => {
            return Err("graph missing CityRoot node".to_string());
        },
    };
    let mut steps: Vec<CookStep> = Vec::new();
    let mut k: usize = 0;
    assert(step_views(steps@) =~= Seq::<StepModel>::empty());
    while k < graph.nodes.len()
        invariant
            k == steps@.len(),
            k <= graph.nodes@.len(),
            first_of_kind(graph@.nodes, NodeKind::CityRoot) == Some(root_id.0@),
            steps_upto(graph@, k as nat) == Ok::<Seq<StepModel>, Seq<char>>(step_views(steps@)),
        decreases graph.nodes.len() - k,
    {
        match cook_node(graph, &steps) {
            Ok(st) => {
                let ghost before = steps@;
                steps.push(st);
                assert(step_views(steps@) =~= step_views(before).push(st@));
            },
            Err(e) => {
                proof {
                    assert(steps_upto(graph@, (k + 1) as nat) == Err::<Seq<StepModel>, Seq<char>>(e@));
                    lemma_error_persists(graph@, (k + 1) as nat, graph@.nodes.len());
                    assert(steps_upto(graph@, graph@.nodes.len()) == Err::<Seq<StepModel>, Seq<char>>(e@));
                }
                return Err(e);
            },
        }
        k += 1;
    }
    let found = latest_index(&graph.nodes, graph.nodes.len(), &root_id.0);
    proof {
        lemma_latest_bounds(graph@.nodes, graph@.nodes.len() as int, root_id.0@);
    }
    match found {
        Some(r) => {
            assert(step_views(steps@)[r as int] == steps@[r as int]@);
            let is_city = match &steps[r] {
                CookStep::AlongPath { .. } | CookStep::FillGrid { .. } | CookStep::Merge { .. } | CookStep::City(_)
                | CookStep::MeshCity(_) => true,
                _ => false,
            };
            if is_city {
                Ok(CookPlan { steps, root: r })
            } else {
                Err("CityRoot did not receive city output".to_string())
            }
        },
        None => Err("CityRoot was not evaluated".to_string()),
    }
}

/// Whether step `i` refers only to earlier steps, and to results of the kind it uses.
pub open spec fn refers_back(steps: Seq<StepModel>, i: int) -> bool {
    match steps[i] {
        StepModel::AlongPath(j, _, _) => j < i && produces_mesh(steps[j as int]),
        StepModel::FillGrid(j, _, _) => j < i && produces_mesh(steps[j as int]),
        StepModel::MeshCity(j) => j < i && produces_mesh(steps[j as int]),
        StepModel::City(j) => j < i && produces_city(steps[j as int]),
        StepModel::Merge(base, cities) => {
            &&& (base matches Some(j) ==> j < i && (produces_mesh(steps[j as int]) || produces_city(steps[j as int])))
            &&& forall|c: int| 0 <= c < cities.len() ==> #[trigger] cities[c] < i && produces_city(steps[cities[c] as int])
        },
        _ => true,
    }
}

/// Whether a plan can be run in order: every step uses only earlier results of the right
/// kind, and the output step is a city.
pub open spec fn runnable(p: PlanModel) -> bool {
    &&& forall|i: int| 0 <= i < p.steps.len() ==> #[trigger] refers_back(p.steps, i)
    &&& p.root < p.steps.len()
    &&& produces_city(p.steps[p.root as int])
}

proof fn lemma_first_mesh_refers_back(inputs: Seq<Seq<char>>, nodes: Seq<NodeModel>, steps: Seq<StepModel>)
    requires
        steps.len() <= nodes.len(),
        steps.len() <= usize::MAX,
    ensures
        first_mesh(inputs, nodes, steps) matches Some(j) ==> j < steps.len() && produces_mesh(steps[j as int]),
    decreases inputs.len(),
{
    if inputs.len() > 0 {
        lemma_latest_bounds(nodes, steps.len() as int, inputs[0]);
        lemma_first_mesh_refers_back(inputs.drop_first(), nodes, steps);
    }
}

proof fn lemma_merge_sources_refer_back(inputs: Seq<Seq<char>>, nodes: Seq<NodeModel>, steps: Seq<StepModel>)
    requires
        steps.len() <= nodes.len(),
        steps.len() <= usize::MAX,
    ensures
        ({
            let m = merge_sources(inputs, nodes, steps);
            &&& (m.0 matches Some(j) ==> j < steps.len() && (produces_mesh(steps[j as int])
                || produces_city(steps[j as int])))
            &&& forall|c: int| 0 <= c < m.1.len() ==> #[trigger] m.1[c] < steps.len() && produces_city(
                steps[m.1[c] as int],
            )
        }),
    decreases inputs.len(),
{
    if inputs.len() > 0 {
        lemma_latest_bounds(nodes, steps.len() as int, inputs.last());
        lemma_merge_sources_refer_back(inputs.drop_last(), nodes, steps);
    }
}

proof fn lemma_steps_refer_back(g: GraphModel, k: nat)
    requires
        k <= g.nodes.len(),
        g.nodes.len() <= usize::MAX,
    ensures
        steps_upto(g, k) matches Ok(s) ==> s.len() == k && forall|i: int| 0 <= i < k ==> #[trigger] refers_back(s, i),
    decreases k,
{
    if k > 0 {
        let k1 = (k - 1) as nat;
        lemma_steps_refer_back(g, k1);
        if let Ok(s) = steps_upto(g, k1) {
            if let Ok(st) = node_step(g, s) {
                let t = s.push(st);
                let n = g.nodes[k1 as int];
                let inputs = inputs_of(g.edges, n.id);
                lemma_first_mesh_refers_back(inputs, g.nodes, s);
                lemma_merge_sources_refer_back(inputs, g.nodes, s);
                if inputs.len() > 0 {
                    lemma_latest_bounds(g.nodes, s.len() as int, inputs[0]);
                }
                assert forall|i: int| 0 <= i < k implies #[trigger] refers_back(t, i) by {
                    if i < k1 {
                        assert(refers_back(s, i));
                        assert(t[i] == s[i]);
                        assert forall|j: int| 0 <= j < i implies t[j] == s[j] by {}
                    }
                }
            }
        }
    }
}

/// Every plan the cook produces is runnable in order: each step uses only results of
/// earlier steps, of the kind it needs, and the output is a city.
pub proof fn lemma_plan_runnable(g: GraphModel)
    requires
        g.nodes.len() <= usize::MAX,
    ensures
        cook_plan_of(g) matches Ok(p) ==> runnable(p),
{
    lemma_steps_refer_back(g, g.nodes.len());
    if let Some(root_id) = first_of_kind(g.nodes, NodeKind::CityRoot) {
        lemma_latest_bounds(g.nodes, g.nodes.len() as int, root_id);
    }
}

} // verus!

verus! {

/// The grid block preset cooks: its building parameters feed the building mesh, the mesh
/// fills the default lot grid, and the grid is the city the root outputs.
pub proof fn lemma_grid_block_cooks()
    ensures
        cook_plan_of(grid_block_model()) == Ok::<PlanModel, Seq<char>>(PlanModel {
            steps: seq![
                StepModel::Params(default_building_params()),
                StepModel::Building(default_building_params()),
                StepModel::FillGrid(1, default_grid_input(), 1),
                StepModel::City(2),
            ],
            root: 3,
        }),
{
    let g = grid_block_model();
    let (p, m, f, r) = ("building_params"@, "building_mesh"@, "fill_grid"@, "city_root"@);
    reveal_strlit("building_params");
    reveal_strlit("building_mesh");
    reveal_strlit("fill_grid");
    reveal_strlit("city_root");
    assert(p.len() == 15 && m.len() == 13 && f.len() == 9 && r.len() == 9);
    assert(f[0] != r[0]);
    assert(p != m && p != f && p != r && m != f && m != r && f != r);
    let nodes = g.nodes;
    assert(nodes[0].id == p && nodes[1].id == m && nodes[2].id == f && nodes[3].id == r);
    assert(g.edges =~= seq![(p, m), (m, f), (f, r)]);
    reveal_with_fuel(inputs_of, 4);
    reveal_with_fuel(latest, 5);
    reveal_with_fuel(steps_upto, 5);
    reveal_with_fuel(first_of_kind, 5);
    reveal_with_fuel(first_params, 2);
    reveal_with_fuel(first_mesh, 2);
    let e = g.edges;
    assert(e.drop_last() =~= seq![(p, m), (m, f)]);
    assert(e.drop_last().drop_last() =~= seq![(p, m)]);
    assert(e.drop_last().drop_last().drop_last() =~= Seq::<(Seq<char>, Seq<char>)>::empty());
    assert(inputs_of(e, p) =~= Seq::<Seq<char>>::empty());
    assert(inputs_of(e, m) =~= seq![p]);
    assert(inputs_of(e, f) =~= seq![m]);
    assert(inputs_of(e, r) =~= seq![f]);
    let s0 = Seq::<StepModel>::empty();
    let s1 = s0.push(StepModel::Params(default_building_params()));
    let s2 = s1.push(StepModel::Building(default_building_params()));
    let s3 = s2.push(StepModel::FillGrid(1, default_grid_input(), 1));
    let s4 = s3.push(StepModel::City(2));
    assert(node_step(g, s0) == Ok::<StepModel, Seq<char>>(StepModel::Params(default_building_params())));
    assert(latest(nodes, 1, p) == Some(0usize));
    assert(seq![p].drop_first() =~= Seq::<Seq<char>>::empty());
    assert(node_step(g, s1) == Ok::<StepModel, Seq<char>>(StepModel::Building(default_building_params())));
    assert(latest(nodes, 2, m) == Some(1usize));
    assert(seq![m].drop_first() =~= Seq::<Seq<char>>::empty());
    assert(node_step(g, s2) == Ok::<StepModel, Seq<char>>(StepModel::FillGrid(1, default_grid_input(), 1)));
    assert(latest(nodes, 3, f) == Some(2usize));
    assert(node_step(g, s3) == Ok::<StepModel, Seq<char>>(StepModel::City(2)));
    assert(steps_upto(g, 4) == Ok::<Seq<StepModel>, Seq<char>>(s4));
    assert(nodes.drop_first().drop_first().drop_first()[0] == nodes[3]);
    assert(first_of_kind(nodes, NodeKind::CityRoot) == Some(r));
    assert(latest(nodes, 4, r) == Some(3usize));
    assert(s4 =~= seq![
        StepModel::Params(default_building_params()),
        StepModel::Building(default_building_params()),
        StepModel::FillGrid(1, default_grid_input(), 1),
        StepModel::City(2),
    ]);
}

/// The shop street preset cooks: its building parameters feed the building mesh, the mesh
/// is placed along the street, and the street is the city the root outputs.
pub proof fn lemma_shop_street_cooks()
    ensures
        cook_plan_of(shop_street_model()) == Ok::<PlanModel, Seq<char>>(PlanModel {
            steps: seq![
                StepModel::Params(shop_street_model().nodes[0].building_params->0),
                StepModel::Building(shop_street_model().nodes[0].building_params->0),
                StepModel::AlongPath(1, street_path(), 1),
                StepModel::City(2),
            ],
            root: 3,
        }),
{
    let g = shop_street_model();
    let bp = g.nodes[0].building_params->0;
    let (p, m, a, r) = ("building_params"@, "building_mesh"@, "place_along_path"@, "city_root"@);
    reveal_strlit("building_params");
    reveal_strlit("building_mesh");
    reveal_strlit("place_along_path");
    reveal_strlit("city_root");
    assert(p.len() == 15 && m.len() == 13 && a.len() == 16 && r.len() == 9);
    assert(p != m && p != a && p != r && m != a && m != r && a != r);
    let nodes = g.nodes;
    let e = g.edges;
    assert(e =~= seq![(p, m), (m, a), (a, r)]);
    reveal_with_fuel(inputs_of, 4);
    reveal_with_fuel(latest, 5);
    reveal_with_fuel(steps_upto, 5);
    reveal_with_fuel(first_of_kind, 5);
    reveal_with_fuel(first_params, 2);
    reveal_with_fuel(first_mesh, 2);
    assert(e.drop_last() =~= seq![(p, m), (m, a)]);
    assert(e.drop_last().drop_last() =~= seq![(p, m)]);
    assert(e.drop_last().drop_last().drop_last() =~= Seq::<(Seq<char>, Seq<char>)>::empty());
    assert(inputs_of(e, m) =~= seq![p]);
    assert(inputs_of(e, a) =~= seq![m]);
    assert(inputs_of(e, r) =~= seq![a]);
    let s0 = Seq::<StepModel>::empty();
    let s1 = s0.push(StepModel::Params(bp));
    let s2 = s1.push(StepModel::Building(bp));
    let s3 = s2.push(StepModel::AlongPath(1, street_path(), 1));
    let s4 = s3.push(StepModel::City(2));
    assert(node_step(g, s0) == Ok::<StepModel, Seq<char>>(StepModel::Params(bp)));
    assert(latest(nodes, 1, p) == Some(0usize));
    assert(seq![p].drop_first() =~= Seq::<Seq<char>>::empty());
    assert(node_step(g, s1) == Ok::<StepModel, Seq<char>>(StepModel::Building(bp)));
    assert(latest(nodes, 2, m) == Some(1usize));
    assert(seq![m].drop_first() =~= Seq::<Seq<char>>::empty());
    assert(node_step(g, s2) == Ok::<StepModel, Seq<char>>(StepModel::AlongPath(1, street_path(), 1)));
    assert(latest(nodes, 3, a) == Some(2usize));
    assert(node_step(g, s3) == Ok::<StepModel, Seq<char>>(StepModel::City(2)));
    assert(steps_upto(g, 4) == Ok::<Seq<StepModel>, Seq<char>>(s4));
    assert(nodes.drop_first().drop_first().drop_first()[0] == nodes[3]);
    assert(first_of_kind(nodes, NodeKind::CityRoot) == Some(r));
    assert(latest(nodes, 4, r) == Some(3usize));
    assert(s4 =~= seq![StepModel::Params(bp), StepModel::Building(bp), StepModel::AlongPath(1, street_path(), 1), StepModel::City(2)]);
}

} // verus!

verus! {

/// A merge's base is its first input whose result is a shape: when the first input (in edge
/// order) resolves to step `j` and that step yields a building mesh or a city, the merge is
/// based on `j`, whatever the later inputs are.
pub proof fn lemma_merge_base_is_first_shape_input(inputs: Seq<Seq<char>>, nodes: Seq<NodeModel>, steps: Seq<StepModel>, j: usize)
    requires
        inputs.len() > 0,
        latest(nodes, steps.len() as int, inputs[0]) == Some(j),
        steps[j as int] is Building || steps[j as int] is AlongPath || steps[j as int] is FillGrid
            || steps[j as int] is Merge || steps[j as int] is City || steps[j as int] is MeshCity,
    ensures
        merge_sources(inputs, nodes, steps).0 == Some(j),
    decreases inputs.len(),
{
    if inputs.len() > 1 {
        assert(inputs.drop_last()[0] == inputs[0]);
        lemma_merge_base_is_first_shape_input(inputs.drop_last(), nodes, steps, j);
    } else {
        assert(inputs.drop_last() =~= Seq::<Seq<char>>::empty());
        assert(inputs.last() == inputs[0]);
        assert(merge_sources(inputs.drop_last(), nodes, steps).0 is None);
        assert(produces_city(steps[j as int]) || produces_mesh(steps[j as int]));
    }
}

/// A merge node fed first by a step that yields a building mesh or a city cooks to a merge
/// based on that step; in particular a merge fed by one building mesh is that building.
pub proof fn lemma_merge_node_keeps_its_base(g: GraphModel, steps: Seq<StepModel>, j: usize)
    requires
        steps.len() < g.nodes.len(),
        g.nodes[steps.len() as int].kind == NodeKind::MergeInstances,
        inputs_of(g.edges, g.nodes[steps.len() as int].id).len() > 0,
        latest(g.nodes, steps.len() as int, inputs_of(g.edges, g.nodes[steps.len() as int].id)[0]) == Some(j),
        steps[j as int] is Building || steps[j as int] is AlongPath || steps[j as int] is FillGrid
            || steps[j as int] is Merge || steps[j as int] is City || steps[j as int] is MeshCity,
    ensures
        node_step(g, steps) matches Ok(StepModel::Merge(base, _)) && base == Some(j),
{
    lemma_merge_base_is_first_shape_input(inputs_of(g.edges, g.nodes[steps.len() as int].id), g.nodes, steps, j);
}

} // verus!
