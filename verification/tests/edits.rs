use elfentier_core::agent::get_preset;
use elfentier_core::edits::{apply_edit, apply_edits, GraphEdit};
use elfentier_core::graph::{
    BuildingParams, Graph, LiquidSolverInput, LiquidSourceInput, NodeKind, SmokeSolverInput, SmokeSourceInput,
};
use elfentier_core::prompt::PlacementMode;

fn node_ids(g: &Graph) -> Vec<String> {
    g.nodes.iter().map(|n| n.id.0.clone()).collect()
}

fn params_of(g: &Graph, id: &str) -> Option<BuildingParams> {
    g.nodes.iter().find(|n| n.id.0 == id).and_then(|n| n.building_params)
}

#[test]
fn no_edits_leave_the_graph_unchanged() {
    let g = Graph::shop_street_preset();
    let r = apply_edits(&g, &[]);
    assert_eq!(r.name, g.name);
    assert_eq!(node_ids(&r), node_ids(&g));
    assert_eq!(r.edges.len(), g.edges.len());
    assert_eq!(params_of(&r, "building_params"), params_of(&g, "building_params"));
}

#[test]
fn building_params_edit_sets_the_named_node() {
    let g = Graph::shop_street_preset();
    let params = BuildingParams { floors: 9, seed: 5, ..BuildingParams::shop_preset() };
    let edit = GraphEdit::SetBuildingParams { node_id: "building_params".to_string(), params };
    let r = apply_edits(&g, &[edit]);
    assert_eq!(params_of(&r, "building_params"), Some(params));
    assert_eq!(node_ids(&r), node_ids(&g));
    assert_eq!(r.edges.len(), 3);
}

#[test]
fn building_params_edit_for_a_missing_node_changes_nothing() {
    let g = Graph::shop_street_preset();
    let params = BuildingParams { floors: 9, ..BuildingParams::default() };
    let edit = GraphEdit::SetBuildingParams { node_id: "nowhere".to_string(), params };
    let r = apply_edits(&g, &[edit]);
    assert_eq!(params_of(&r, "building_params"), Some(BuildingParams::shop_preset()));
    assert!(r.nodes.iter().filter(|n| n.id.0 != "building_params").all(|n| n.building_params.is_none()));
}

#[test]
fn rename_changes_only_the_name() {
    let g = Graph::shop_street_preset();
    let r = apply_edits(&g, &[GraphEdit::SetGraphName { name: "Harbor Row".to_string() }]);
    assert_eq!(r.name, "Harbor Row");
    assert_eq!(node_ids(&r), node_ids(&g));
}

#[test]
fn loading_shop_street_replaces_the_graph() {
    let g = Graph::new("Scratch");
    let r = apply_edits(&g, &[GraphEdit::LoadPreset { preset_id: "shop_street".to_string() }]);
    assert_eq!(r.name, "Shop Street");
    assert_eq!(node_ids(&r), vec!["building_params", "building_mesh", "place_along_path", "city_root"]);
}

#[test]
fn loading_an_undefined_preset_leaves_the_graph() {
    let g = Graph::new("Scratch");
    let r = apply_edits(&g, &[GraphEdit::LoadPreset { preset_id: "no_such_preset".to_string() }]);
    assert_eq!(r.name, "Scratch");
    assert!(r.nodes.is_empty());
}

#[test]
fn switch_edit_rewires_to_a_grid() {
    let g = Graph::shop_street_preset();
    let r = apply_edits(&g, &[GraphEdit::SwitchPlacement { mode: PlacementMode::Grid }]);
    let kinds: Vec<NodeKind> = r.nodes.iter().map(|n| n.kind).collect();
    assert!(kinds.contains(&NodeKind::FillGrid));
    assert!(!kinds.contains(&NodeKind::PlaceAlongPath));
}

#[test]
fn smoke_and_liquid_edits_touch_only_matching_ids() {
    let mut g = Graph::shop_street_preset();
    let source = SmokeSourceInput { radius: 2.0f32.to_bits(), ..SmokeSourceInput::default() };
    let solver = SmokeSolverInput { steps: 60, ..SmokeSolverInput::default() };
    apply_edit(
        &mut g,
        &GraphEdit::SetSmokeParams {
            source_node_id: "building_mesh".to_string(),
            source,
            solver_node_id: "city_root".to_string(),
            solver,
        },
    );
    let mesh = g.nodes.iter().find(|n| n.id.0 == "building_mesh").unwrap();
    let root = g.nodes.iter().find(|n| n.id.0 == "city_root").unwrap();
    assert_eq!(mesh.smoke_source, Some(source));
    assert_eq!(mesh.smoke_solver, None);
    assert_eq!(root.smoke_solver, Some(solver));
    assert_eq!(root.smoke_source, None);

    let lsource = LiquidSourceInput::default();
    let lsolver = LiquidSolverInput { steps: 72, ..LiquidSolverInput::default() };
    apply_edit(
        &mut g,
        &GraphEdit::SetLiquidParams {
            source_node_id: "city_root".to_string(),
            source: lsource,
            solver_node_id: "city_root".to_string(),
            solver: lsolver,
        },
    );
    let root = g.nodes.iter().find(|n| n.id.0 == "city_root").unwrap();
    assert_eq!(root.liquid_source, Some(lsource));
    assert_eq!(root.liquid_solver, Some(lsolver));
    assert!(g.nodes.iter().filter(|n| n.id.0 != "city_root").all(|n| n.liquid_solver.is_none()));
}

#[test]
fn edits_apply_in_order_and_compose() {
    let g = Graph::shop_street_preset();
    let a = vec![GraphEdit::SetGraphName { name: "One".to_string() }];
    let b = vec![GraphEdit::SetGraphName { name: "Two".to_string() }];
    let both: Vec<GraphEdit> = a.iter().chain(b.iter()).cloned().collect();
    let at_once = apply_edits(&g, &both);
    let in_steps = apply_edits(&apply_edits(&g, &a), &b);
    assert_eq!(at_once.name, "Two");
    assert_eq!(in_steps.name, at_once.name);
    assert_eq!(node_ids(&in_steps), node_ids(&at_once));
}

#[test]
fn parameter_edit_twice_equals_once() {
    let g = Graph::shop_street_preset();
    let params = BuildingParams { floors: 4, ..BuildingParams::shop_preset() };
    let edit = GraphEdit::SetBuildingParams { node_id: "building_params".to_string(), params };
    let once = apply_edits(&g, &[edit.clone()]);
    let twice = apply_edits(&g, &[edit.clone(), edit]);
    assert_eq!(params_of(&once, "building_params"), params_of(&twice, "building_params"));
    assert_eq!(node_ids(&once), node_ids(&twice));
}

#[test]
fn get_preset_knows_shop_street() {
    let g = get_preset("shop_street").unwrap();
    assert_eq!(g.name, "Shop Street");
    assert_eq!(g.nodes.len(), 4);
    assert!(get_preset("nonexistent").is_none());
}

#[test]
fn get_preset_serves_the_catalogue() {
    let grid = get_preset("grid_block").unwrap();
    assert_eq!(grid.name, "Grid Block");
    assert_eq!(node_ids(&grid), vec!["building_params", "building_mesh", "fill_grid", "city_root"]);
    let smoke = get_preset("smoke_puff").unwrap();
    assert_eq!(smoke.name, "Smoke Puff");
    assert_eq!(node_ids(&smoke), vec!["smoke_domain", "smoke_source", "smoke_solver", "smoke_root"]);
    let plume = get_preset("smoke_plume").unwrap();
    assert_eq!(node_ids(&plume), node_ids(&smoke));
    assert!(get_preset("ocean_patch").is_none());
}

#[test]
fn loading_each_preset_replaces_the_graph() {
    let g = Graph::new("Scratch");
    let cases = [
        ("grid_block", "Grid Block"),
        ("smoke_puff", "Smoke Puff"),
        ("ocean_patch", "Ocean Patch"),
        ("waterfall", "Waterfall"),
        ("flood_basin", "Flood Basin"),
    ];
    for (id, name) in cases {
        let r = apply_edits(&g, &[GraphEdit::LoadPreset { preset_id: id.to_string() }]);
        assert_eq!(r.name, name);
        assert!(!r.nodes.is_empty());
        assert_eq!(r.edges.len(), r.nodes.len() - 1);
    }
}

#[test]
fn preset_chains_feed_each_node_into_the_next() {
    let g = Graph::ocean_patch_preset();
    assert_eq!(node_ids(&g), vec!["liquid_domain", "liquid_source", "liquid_solver"]);
    let pairs: Vec<(String, String)> = g.edges.iter().map(|e| (e.from.0.clone(), e.to.0.clone())).collect();
    assert_eq!(
        pairs,
        vec![
            ("liquid_domain".to_string(), "liquid_source".to_string()),
            ("liquid_source".to_string(), "liquid_solver".to_string()),
        ]
    );
    let domain = g.nodes[0].liquid_domain.unwrap();
    assert_eq!(f32::from_bits(domain.bounds_min[0]), -6.0);
    assert_eq!(f32::from_bits(domain.bounds_max[1]), 3.0);
    assert_eq!(domain.resolution, 20);
}
