//! Planning graph edits from prompt intents.
//!
//! Each intent is matched to the graph: which node it targets and what that node holds now
//! (or the defaults when it holds nothing). What needs floating-point arithmetic, adding an
//! emission or window delta to an `f32` parameter, is left in the plan as the value and the
//! delta; everything else, including added solver steps, is settled here.

use crate::edits::{EditModel, GraphEdit};
use crate::graph::{
    default_building_params, default_liquid_solver, default_liquid_source, default_smoke_solver, default_smoke_source,
    node_views, BuildingParams, Graph, GraphModel, LiquidSolverInput, LiquidSourceInput, Node, NodeKind, NodeModel,
    SmokeSolverInput, SmokeSourceInput,
};
use crate::prompt::{intent_views, IntentModel, PromptIntent};
use vstd::prelude::*;

verus! {

/// One planned edit: either complete, or waiting for an `f32` delta to be added.
#[derive(Debug, Clone)]
pub enum EditPlan {
    /// An edit that needs nothing more.
    Ready { edit: GraphEdit },
    /// Add `delta` (`f32` bits) to the window density of `params`, clamp it to 0.05..=0.95,
    /// and set the result on `node_id`.
    AdjustWindows { node_id: String, params: BuildingParams, delta: u32 },
    /// Add `emission_delta` (`f32` bits) to the emission rate of `source`; set that source and
    /// `solver` (whose steps already include the added steps).
    IncreaseSmoke {
        source_node_id: String,
        source: SmokeSourceInput,
        emission_delta: u32,
        solver_node_id: String,
        solver: SmokeSolverInput,
    },
    /// Add `emission_delta` to the emission rate of `source`, `wave_delta` to the wave
    /// amplitude of `solver` and twice `wave_delta` to its gravity (all `f32` bits); set both
    /// (the solver's steps already include the added steps).
    IncreaseLiquid {
        source_node_id: String,
        source: LiquidSourceInput,
        emission_delta: u32,
        wave_delta: u32,
        solver_node_id: String,
        solver: LiquidSolverInput,
    },
}

/// The mathematical form of a planned edit.
pub enum EditPlanModel {
    Ready(EditModel),
    AdjustWindows(Seq<char>, BuildingParams, u32),
    IncreaseSmoke(Seq<char>, SmokeSourceInput, u32, Seq<char>, SmokeSolverInput),
    IncreaseLiquid(Seq<char>, LiquidSourceInput, u32, u32, Seq<char>, LiquidSolverInput),
}

impl View for EditPlan {
    type V = EditPlanModel;

    open spec fn view(&self) -> EditPlanModel {
        match self {
            EditPlan::Ready { edit } => EditPlanModel::Ready(edit@),
            EditPlan::AdjustWindows { node_id, params, delta } => EditPlanModel::AdjustWindows(node_id@, *params, *delta),
            EditPlan::IncreaseSmoke { source_node_id, source, emission_delta, solver_node_id, solver } =>
                EditPlanModel::IncreaseSmoke(source_node_id@, *source, *emission_delta, solver_node_id@, *solver),
            EditPlan::IncreaseLiquid { source_node_id, source, emission_delta, wave_delta, solver_node_id, solver } =>
                EditPlanModel::IncreaseLiquid(source_node_id@, *source, *emission_delta, *wave_delta, solver_node_id@, *solver),
        }
    }
}

/// The views of a sequence of planned edits.
pub open spec fn plan_views(s: Seq<EditPlan>) -> Seq<EditPlanModel> {
    s.map_values(|p: EditPlan| p@)
}

/// The first node of `kind`, if any.
pub open spec fn first_node(nodes: Seq<NodeModel>, kind: NodeKind) -> Option<NodeModel>
    decreases nodes.len(),
{
    if nodes.len() == 0 {
        None
    } else if nodes[0].kind == kind {
        Some(nodes[0])
    } else {
        first_node(nodes.drop_first(), kind)
    }
}

/// The building parameters a node holds, or the defaults.
pub open spec fn building_or_default(n: NodeModel) -> BuildingParams {
    match n.building_params {
        Some(p) => p,
        None => default_building_params(),
    }
}

/// The smoke source a node holds, or the default.
pub open spec fn smoke_source_or_default(n: NodeModel) -> SmokeSourceInput {
    match n.smoke_source {
        Some(p) => p,
        None => default_smoke_source(),
    }
}

/// The smoke solver a node holds, or the default.
pub open spec fn smoke_solver_or_default(n: NodeModel) -> SmokeSolverInput {
    match n.smoke_solver {
        Some(p) => p,
        None => default_smoke_solver(),
    }
}

/// The liquid source a node holds, or the default.
pub open spec fn liquid_source_or_default(n: NodeModel) -> LiquidSourceInput {
    match n.liquid_source {
        Some(p) => p,
        None => default_liquid_source(),
    }
}

/// The liquid solver a node holds, or the default.
pub open spec fn liquid_solver_or_default(n: NodeModel) -> LiquidSolverInput {
    match n.liquid_solver {
        Some(p) => p,
        None => default_liquid_solver(),
    }
}

/// Whether the solver steps an intent adds stay within `u32` on `g`.
pub open spec fn steps_fit(g: GraphModel, intent: IntentModel) -> bool {
    match intent {
        IntentModel::IncreaseSmoke(_, added) => match (
            first_node(g.nodes, NodeKind::SmokeSource),
            first_node(g.nodes, NodeKind::SmokeSolver),
        ) {
            (Some(_), Some(v)) => smoke_solver_or_default(v).steps + added <= u32::MAX,
            _ => true,
        },
        IntentModel::IncreaseLiquid(_, _, added) => match (
            first_node(g.nodes, NodeKind::LiquidSource),
            first_node(g.nodes, NodeKind::LiquidSolver),
        ) {
            (Some(_), Some(v)) => liquid_solver_or_default(v).steps + added <= u32::MAX,
            _ => true,
        },
        _ => true,
    }
}

/// The plan for one intent on `g`, or `None` when it changes nothing.
///
/// Presets, placement switches and renames pass through. Floors, seed and window changes
/// target the first building params node, starting from its parameters (or the defaults);
/// smoke and liquid increases target the first source and the first solver of their kind
/// and need both. Unknown intents, and intents whose nodes are missing, plan nothing.
pub open spec fn planned(g: GraphModel, intent: IntentModel) -> Option<EditPlanModel> {
    let params = first_node(g.nodes, NodeKind::BuildingParams);
    match intent {
        IntentModel::LoadPreset(id) => Some(EditPlanModel::Ready(EditModel::LoadPreset(id))),
        IntentModel::SetFloors(floors) => match params {
            Some(n) => Some(EditPlanModel::Ready(
                EditModel::SetBuildingParams(n.id, BuildingParams { floors, ..building_or_default(n) }),
            )),
            None => None,
        },
        IntentModel::SetSeed(seed) => match params {
            Some(n) => Some(EditPlanModel::Ready(
                EditModel::SetBuildingParams(n.id, BuildingParams { seed, ..building_or_default(n) }),
            )),
            None => None,
        },
        IntentModel::AdjustWindows(delta) => match params {
            Some(n) => Some(EditPlanModel::AdjustWindows(n.id, building_or_default(n), delta)),
            None => None,
        },
        IntentModel::SwitchPlacement(mode) => Some(EditPlanModel::Ready(EditModel::SwitchPlacement(mode))),
        IntentModel::SetGraphName(name) => Some(EditPlanModel::Ready(EditModel::SetGraphName(name))),
        IntentModel::IncreaseSmoke(emission, added) => match (
            first_node(g.nodes, NodeKind::SmokeSource),
            first_node(g.nodes, NodeKind::SmokeSolver),
        ) {
            (Some(s), Some(v)) => {
                let solver = smoke_solver_or_default(v);
                Some(EditPlanModel::IncreaseSmoke(
                    s.id,
                    smoke_source_or_default(s),
                    emission,
                    v.id,
                    SmokeSolverInput { steps: (solver.steps + added) as u32, ..solver },
                ))
            },
            _ => None,
        },
        IntentModel::IncreaseLiquid(emission, wave, added) => match (
            first_node(g.nodes, NodeKind::LiquidSource),
            first_node(g.nodes, NodeKind::LiquidSolver),
        ) {
            (Some(s), Some(v)) => {
                let solver = liquid_solver_or_default(v);
                Some(EditPlanModel::IncreaseLiquid(
                    s.id,
                    liquid_source_or_default(s),
                    emission,
                    wave,
                    v.id,
                    LiquidSolverInput { steps: (solver.steps + added) as u32, ..solver },
                ))
            },
            _ => None,
        },
        IntentModel::Unknown(_) => None,
    }
}

/// The plans for `intents` in order, skipping those that plan nothing.
pub open spec fn plan_of(g: GraphModel, intents: Seq<IntentModel>) -> Seq<EditPlanModel>
    decreases intents.len(),
{
    if intents.len() == 0 {
        Seq::empty()
    } else {
        let rest = plan_of(g, intents.drop_last());
        match planned(g, intents.last()) {
            Some(p) => rest.push(p),
            None => rest,
        }
    }
}

/// The index of the first node of `kind` in `nodes`, if any.
pub fn find_first(nodes: &Vec<Node>, kind: NodeKind) -> (r: Option<usize>)
    ensures
        match r {
            Some(i) => i < nodes@.len() && first_node(node_views(nodes@), kind) == Some(nodes@[i as int]@),
            None => first_node(node_views(nodes@), kind) is None,
        },
{
    let ghost all = node_views(nodes@);
    let mut k: usize = 0;
    assert(all.skip(0) =~= all);
    while k < nodes.len()
        invariant
            k <= nodes@.len(),
            all == node_views(nodes@),
            first_node(all, kind) == first_node(all.skip(k as int), kind),
        decreases nodes.len() - k,
    {
        assert(all.skip(k as int)[0] == nodes@[k as int]@);
        assert(all.skip(k as int).drop_first() =~= all.skip(k + 1));
        if nodes[k].kind == kind {
            return Some(k);
        }
        k += 1;
    }
    None
}

/// The plan for one intent on `graph`.
fn plan_one(graph: &Graph, intent: &PromptIntent) -> (r: Option<EditPlan>)
    requires
        steps_fit(graph@, intent@),
    ensures
        match (r, planned(graph@, intent@)) {
            (Some(p), Some(m)) => p@ == m,
            (None, None) => true,
            _ => false,
        },
{
    let nodes = &graph.nodes;
    match intent {
        PromptIntent::LoadPreset { preset_id } => Some(
            EditPlan::Ready { edit: GraphEdit::LoadPreset { preset_id: preset_id.clone() } },
        ),
        PromptIntent::SetFloors { floors } => match find_first(nodes, NodeKind::BuildingParams) {
            Some(i) => {
                let n = &nodes[i];
                let params = match n.building_params { Some(p) => p, None => BuildingParams::default() };
                Some(EditPlan::Ready {
                    edit: GraphEdit::SetBuildingParams {
                        node_id: n.id.0.clone(),
                        params: BuildingParams { floors: *floors, ..params },
                    },
                })
            },
            None => None,
        },
        PromptIntent::SetSeed { seed } => match find_first(nodes, NodeKind::BuildingParams) {
            Some(i) => {
                let n = &nodes[i];
                let params = match n.building_params { Some(p) => p, None => BuildingParams::default() };
                Some(EditPlan::Ready {
                    edit: GraphEdit::SetBuildingParams { node_id: n.id.0.clone(), params: BuildingParams { seed: *seed, ..params } },
                })
            },
            None => None,
        },
        PromptIntent::AdjustWindows { delta } => match find_first(nodes, NodeKind::BuildingParams) {
            Some(i) => {
                let n = &nodes[i];
                let params = match n.building_params { Some(p) => p, None => BuildingParams::default() };
                Some(EditPlan::AdjustWindows { node_id: n.id.0.clone(), params, delta: *delta })
            },
            None => None,
        },
        PromptIntent::SwitchPlacement { mode } => Some(EditPlan::Ready { edit: GraphEdit::SwitchPlacement { mode: *mode } }),
        PromptIntent::SetGraphName { name } => Some(EditPlan::Ready { edit: GraphEdit::SetGraphName { name: name.clone() } }),
        PromptIntent::IncreaseSmoke { emission_delta, step_delta } => {
            match (find_first(nodes, NodeKind::SmokeSource), find_first(nodes, NodeKind::SmokeSolver)) {
                (Some(s), Some(v)) => {
                    let src = &nodes[s];
                    let slv = &nodes[v];
                    let source = match src.smoke_source { Some(p) => p, None => SmokeSourceInput::default() };
                    let solver = match slv.smoke_solver { Some(p) => p, None => SmokeSolverInput::default() };
                    Some(EditPlan::IncreaseSmoke {
                        source_node_id: src.id.0.clone(),
                        source,
                        emission_delta: *emission_delta,
                        solver_node_id: slv.id.0.clone(),
                        solver: SmokeSolverInput { steps: solver.steps + *step_delta, ..solver },
                    })
                },
                _ => None,
            }
        },
        PromptIntent::IncreaseLiquid { emission_delta, wave_delta, step_delta } => {
            match (find_first(nodes, NodeKind::LiquidSource), find_first(nodes, NodeKind::LiquidSolver)) {
                (Some(s), Some(v)) => {
                    let src = &nodes[s];
                    let slv = &nodes[v];
                    let source = match src.liquid_source { Some(p) => p, None => LiquidSourceInput::default() };
                    let solver = match slv.liquid_solver { Some(p) => p, None => LiquidSolverInput::default() };
                    Some(EditPlan::IncreaseLiquid {
                        source_node_id: src.id.0.clone(),
                        source,
                        emission_delta: *emission_delta,
                        wave_delta: *wave_delta,
                        solver_node_id: slv.id.0.clone(),
                        solver: LiquidSolverInput { steps: solver.steps + *step_delta, ..solver },
                    })
                },
                _ => None,
            }
        },
        PromptIntent::Unknown { .. } => None,
    }
}

/// Plans the edits that `intents` make to `graph`, in order.
///
/// Adding steps past `u32::MAX` is an overflow, so the solver steps must leave room for
/// what each increase adds.
pub fn plan_edits(graph: &Graph, intents: &[PromptIntent]) -> (p: Vec<EditPlan>)
    requires
        forall|i: int| 0 <= i < intents@.len() ==> steps_fit(graph@, #[trigger] intents@[i]@),
    ensures
        plan_views(p@) == plan_of(graph@, intent_views(intents@)),
{
    let ghost all = intent_views(intents@);
    let mut plans: Vec<EditPlan> = Vec::new();
    let mut k: usize = 0;
    while k < intents.len()
        invariant
            k <= intents@.len(),
            all == intent_views(intents@),
            forall|i: int| 0 <= i < intents@.len() ==> steps_fit(graph@, #[trigger] intents@[i]@),
            plan_views(plans@) == plan_of(graph@, all.take(k as int)),
        decreases intents.len() - k,
    {
        let ghost before = plans@;
        assert(all.take(k + 1).drop_last() =~= all.take(k as int));
        assert(all.take(k + 1).last() == intents@[k as int]@);
        match plan_one(graph, &intents[k]) {
            Some(p) => {
                plans.push(p);
                assert(plan_views(plans@) =~= plan_views(before).push(p@));
            },
            None => {},
        }
        k += 1;
    }
    assert(all.take(intents@.len() as int) =~= all);
    plans
}

} // verus!

verus! {

/// The first node of `kind` is node `i` when node `i` has that kind and none before it does.
proof fn lemma_first_node_at(nodes: Seq<NodeModel>, kind: NodeKind, i: int)
    requires
        0 <= i < nodes.len(),
        nodes[i].kind == kind,
        forall|j: int| 0 <= j < i ==> (#[trigger] nodes[j]).kind != kind,
    ensures
        first_node(nodes, kind) == Some(nodes[i]),
    decreases i,
{
    if i > 0 {
        let rest = nodes.drop_first();
        assert forall|j: int| 0 <= j < i - 1 implies (#[trigger] rest[j]).kind != kind by {
            assert(rest[j] == nodes[j + 1]);
        }
        assert(nodes[0].kind != kind);
        lemma_first_node_at(rest, kind, i - 1);
    }
}

/// A node of `kind` exists exactly when `first_node` finds one.
proof fn lemma_first_node_none(nodes: Seq<NodeModel>, kind: NodeKind)
    requires
        forall|j: int| 0 <= j < nodes.len() ==> (#[trigger] nodes[j]).kind != kind,
    ensures
        first_node(nodes, kind) is None,
    decreases nodes.len(),
{
    if nodes.len() > 0 {
        let rest = nodes.drop_first();
        assert forall|j: int| 0 <= j < rest.len() implies (#[trigger] rest[j]).kind != kind by {
            assert(rest[j] == nodes[j + 1]);
        }
        assert(nodes[0].kind != kind);
        lemma_first_node_none(rest, kind);
    }
}

/// Floors and seed changes edit the first building params node, and only the field they
/// name: a `SetSeed(s)` plan sets that node's parameters with seed `s` and every other field
/// as the node holds it (the defaults when it holds none), and likewise `SetFloors(f)` with
/// floors `f`. A window change plans the change `delta` against that node's parameters.
pub proof fn lemma_building_param_plans(g: GraphModel, i: int, seed: u64, floors: u32)
    requires
        0 <= i < g.nodes.len(),
        g.nodes[i].kind == NodeKind::BuildingParams,
        forall|j: int| 0 <= j < i ==> (#[trigger] g.nodes[j]).kind != NodeKind::BuildingParams,
    ensures
        ({
            let old = match g.nodes[i].building_params { Some(p) => p, None => default_building_params() };
            &&& planned(g, IntentModel::SetSeed(seed)) matches Some(EditPlanModel::Ready(EditModel::SetBuildingParams(id, p)))
                && id == g.nodes[i].id && p.seed == seed && p.floors == old.floors && p.width == old.width
                && p.depth == old.depth && p.window_density == old.window_density && p.floor_height == old.floor_height
            &&& planned(g, IntentModel::SetFloors(floors)) matches Some(EditPlanModel::Ready(EditModel::SetBuildingParams(id, p)))
                && id == g.nodes[i].id && p.floors == floors && p.seed == old.seed && p.width == old.width
                && p.depth == old.depth && p.window_density == old.window_density && p.floor_height == old.floor_height
            &&& planned(g, IntentModel::AdjustWindows(floors)) == Some(EditPlanModel::AdjustWindows(g.nodes[i].id, old, floors))
        }),
{
    lemma_first_node_at(g.nodes, NodeKind::BuildingParams, i);
}

/// Without a building params node, floors and seed changes plan nothing.
pub proof fn lemma_seed_and_floors_need_params(g: GraphModel, seed: u64, floors: u32)
    requires
        forall|j: int| 0 <= j < g.nodes.len() ==> (#[trigger] g.nodes[j]).kind != NodeKind::BuildingParams,
    ensures
        planned(g, IntentModel::SetSeed(seed)) is None,
        planned(g, IntentModel::SetFloors(floors)) is None,
{
    lemma_first_node_none(g.nodes, NodeKind::BuildingParams);
}

} // verus!
