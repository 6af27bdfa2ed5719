use elfentier_core::edits::{apply_edits, GraphEdit};
use elfentier_core::graph::{BuildingParams, Graph, LiquidSolverInput, LiquidSourceInput, NodeKind, SmokeSourceInput};
use elfentier_core::plan::{plan_edits, EditPlan};
use elfentier_core::prompt::{interpret_prompt, PromptIntent};

fn add(a: u32, b: u32) -> u32 {
    (f32::from_bits(a) + f32::from_bits(b)).to_bits()
}

fn finish(plan: EditPlan) -> GraphEdit {
    match plan {
        EditPlan::Ready { edit } => edit,
        EditPlan::AdjustWindows { node_id, params, delta } => {
            let density = (f32::from_bits(params.window_density) + f32::from_bits(delta)).clamp(0.05, 0.95);
            GraphEdit::SetBuildingParams { node_id, params: BuildingParams { window_density: density.to_bits(), ..params } }
        }
        EditPlan::IncreaseSmoke { source_node_id, source, emission_delta, solver_node_id, solver } => GraphEdit::SetSmokeParams {
            source_node_id,
            source: SmokeSourceInput { emission_rate: add(source.emission_rate, emission_delta), ..source },
            solver_node_id,
            solver,
        },
        EditPlan::IncreaseLiquid { source_node_id, source, emission_delta, wave_delta, solver_node_id, solver } => {
            GraphEdit::SetLiquidParams {
                source_node_id,
                source: LiquidSourceInput { emission_rate: add(source.emission_rate, emission_delta), ..source },
                solver_node_id,
                solver: LiquidSolverInput {
                    wave_amplitude: add(solver.wave_amplitude, wave_delta),
                    gravity: (f32::from_bits(solver.gravity) + f32::from_bits(wave_delta) * 2.0).to_bits(),
                    ..solver
                },
            }
        }
    }
}

fn apply_prompt(graph: &Graph, text: &str) -> Graph {
    let intents = interpret_prompt(text);
    let edits: Vec<GraphEdit> = plan_edits(graph, &intents).into_iter().map(finish).collect();
    apply_edits(graph, &edits)
}

#[test]
fn applies_more_liquid_intensity() {
    let graph = Graph::waterfall_preset();
    let result = apply_prompt(&graph, "もっと激しく");
    let solver = result.nodes.iter().find(|n| n.kind == NodeKind::LiquidSolver).and_then(|n| n.liquid_solver).expect("solver");
    let orig = graph.nodes.iter().find(|n| n.kind == NodeKind::LiquidSolver).and_then(|n| n.liquid_solver).expect("orig");
    assert!(solver.steps > orig.steps || f32::from_bits(solver.gravity) > f32::from_bits(orig.gravity));
}

#[test]
fn applies_more_smoke() {
    let graph = Graph::smoke_puff_preset();
    let result = apply_prompt(&graph, "もっと煙");
    let solver = result.nodes.iter().find(|n| n.kind == NodeKind::SmokeSolver).and_then(|n| n.smoke_solver).expect("solver");
    let orig = graph.nodes.iter().find(|n| n.kind == NodeKind::SmokeSolver).and_then(|n| n.smoke_solver).expect("orig");
    assert!(solver.steps > orig.steps);
}

#[test]
fn smoke_plan_adds_twelve_steps_and_keeps_the_emission_delta() {
    let graph = Graph::smoke_puff_preset();
    let plans = plan_edits(&graph, &[PromptIntent::IncreaseSmoke { emission_delta: 0x3f99_999a, step_delta: 12 }]);
    assert_eq!(plans.len(), 1);
    match &plans[0] {
        EditPlan::IncreaseSmoke { source_node_id, source, emission_delta, solver_node_id, solver } => {
            assert_eq!(source_node_id, "smoke_source");
            assert_eq!(solver_node_id, "smoke_solver");
            assert_eq!(*emission_delta, 0x3f99_999a);
            assert_eq!(source.emission_rate, 0x4020_0000);
            assert_eq!(solver.steps, 60);
        }
        other => panic!("unexpected plan {:?}", other),
    }
}

#[test]
fn floors_plan_targets_the_first_params_node() {
    let graph = Graph::shop_street_preset();
    let plans = plan_edits(&graph, &[PromptIntent::SetFloors { floors: 7 }]);
    match &plans[..] {
        [EditPlan::Ready { edit: GraphEdit::SetBuildingParams { node_id, params } }] => {
            assert_eq!(node_id, "building_params");
            assert_eq!(params.floors, 7);
            assert_eq!(params.seed, 42);
        }
        other => panic!("unexpected plans {:?}", other),
    }
}

#[test]
fn intents_without_their_nodes_plan_nothing() {
    let graph = Graph::smoke_puff_preset();
    let intents = [
        PromptIntent::SetSeed { seed: 5 },
        PromptIntent::IncreaseLiquid { emission_delta: 0, wave_delta: 0, step_delta: 1 },
        PromptIntent::Unknown { raw: "hello".to_string() },
    ];
    assert!(plan_edits(&graph, &intents).is_empty());
}

#[test]
fn presets_and_renames_pass_through() {
    let graph = Graph::new("Scratch");
    let plans = plan_edits(
        &graph,
        &[PromptIntent::LoadPreset { preset_id: "grid_block".to_string() }, PromptIntent::SetGraphName { name: "X".to_string() }],
    );
    assert_eq!(plans.len(), 2);
    assert!(matches!(&plans[0], EditPlan::Ready { edit: GraphEdit::LoadPreset { preset_id } } if preset_id == "grid_block"));
    assert!(matches!(&plans[1], EditPlan::Ready { edit: GraphEdit::SetGraphName { name } } if name == "X"));
}
