use elfentier_core::cook::{cook_plan, CookStep};
use elfentier_core::graph::{
    new_edge, new_node, street_path_input, BuildingParams, Graph, GridInput, Node, NodeKind, PathInput,
};
use elfentier_core::prompt::{switch_placement, PlacementMode};

fn params_node(id: &str, params: Option<BuildingParams>) -> Node {
    let mut n = new_node(id, NodeKind::BuildingParams, "Params");
    n.building_params = params;
    n
}

fn graph(nodes: Vec<Node>, edges: &[(&str, &str)]) -> Graph {
    Graph { name: "Test".to_string(), nodes, edges: edges.iter().map(|(a, b)| new_edge(a, b)).collect() }
}

fn error_of(g: &Graph) -> String {
    match cook_plan(g) {
        Ok(plan) => panic!("expected an error, got {:?}", plan),
        Err(e) => e,
    }
}

#[test]
fn shop_street_plan_places_the_building_along_the_street() {
    let plan = cook_plan(&Graph::shop_street_preset()).unwrap();
    let shop = BuildingParams::shop_preset();
    assert_eq!(
        plan.steps,
        vec![
            CookStep::Params(shop),
            CookStep::Building(shop),
            CookStep::AlongPath { mesh: 1, path: street_path_input(), seed: 1 },
            CookStep::City(2),
        ]
    );
    assert_eq!(plan.root, 3);
}

#[test]
fn grid_plan_fills_the_lot_grid() {
    let mut grid = new_node("grid", NodeKind::FillGrid, "Grid");
    grid.grid_input = Some(GridInput { cols: 4, ..GridInput::default() });
    let g = graph(
        vec![
            params_node("params", Some(BuildingParams::default())),
            new_node("mesh", NodeKind::BuildingMesh, "Mesh"),
            grid,
            new_node("root", NodeKind::CityRoot, "Root"),
        ],
        &[("params", "mesh"), ("mesh", "grid"), ("grid", "root")],
    );
    let plan = cook_plan(&g).unwrap();
    assert_eq!(plan.steps[2], CookStep::FillGrid { mesh: 1, grid: GridInput { cols: 4, ..GridInput::default() }, seed: 1 });
    assert_eq!(plan.steps[3], CookStep::City(2));
}

#[test]
fn a_switched_graph_evaluates_its_new_placement_after_the_root() {
    let g = switch_placement(&Graph::shop_street_preset(), PlacementMode::Grid);
    assert_eq!(error_of(&g), "CityRoot input fill_grid has unsupported type");
}

#[test]
fn a_graph_without_a_root_does_not_cook() {
    let g = graph(vec![params_node("p", Some(BuildingParams::default()))], &[]);
    assert_eq!(error_of(&g), "graph missing CityRoot node");
}

#[test]
fn a_params_node_without_params_stops_the_cook() {
    let g = graph(
        vec![params_node("lonely", None), new_node("root", NodeKind::CityRoot, "Root")],
        &[("lonely", "root")],
    );
    assert_eq!(error_of(&g), "lonely missing building_params");
}

#[test]
fn a_mesh_without_params_input_stops_the_cook() {
    let g = graph(
        vec![new_node("mesh", NodeKind::BuildingMesh, "Mesh"), new_node("root", NodeKind::CityRoot, "Root")],
        &[("mesh", "root")],
    );
    assert_eq!(error_of(&g), "BuildingMesh missing BuildingParams input");
}

#[test]
fn a_placement_without_mesh_input_stops_the_cook() {
    let g = graph(
        vec![
            params_node("p", Some(BuildingParams::default())),
            new_node("place", NodeKind::PlaceAlongPath, "Place"),
            new_node("root", NodeKind::CityRoot, "Root"),
        ],
        &[("p", "place"), ("place", "root")],
    );
    assert_eq!(error_of(&g), "placement node missing BuildingMesh input");
}

#[test]
fn a_root_without_input_stops_the_cook() {
    let g = graph(vec![new_node("root", NodeKind::CityRoot, "Root")], &[]);
    assert_eq!(error_of(&g), "CityRoot requires an input edge");
}

#[test]
fn a_root_fed_by_params_names_its_input() {
    let g = graph(
        vec![params_node("p", Some(BuildingParams::default())), new_node("root", NodeKind::CityRoot, "Root")],
        &[("p", "root")],
    );
    assert_eq!(error_of(&g), "CityRoot input p has unsupported type");
}

#[test]
fn a_root_fed_by_a_later_node_finds_nothing() {
    let g = graph(
        vec![new_node("root", NodeKind::CityRoot, "Root"), new_node("mesh", NodeKind::BuildingMesh, "Mesh")],
        &[("mesh", "root")],
    );
    assert_eq!(error_of(&g), "CityRoot input mesh has unsupported type");
}

#[test]
fn a_root_fed_by_a_mesh_makes_a_one_instance_city() {
    let g = graph(
        vec![
            params_node("p", Some(BuildingParams::default())),
            new_node("mesh", NodeKind::BuildingMesh, "Mesh"),
            new_node("root", NodeKind::CityRoot, "Root"),
        ],
        &[("p", "mesh"), ("mesh", "root")],
    );
    let plan = cook_plan(&g).unwrap();
    assert_eq!(plan.steps[1], CookStep::Building(BuildingParams::default()));
    assert_eq!(plan.steps[2], CookStep::MeshCity(1));
    assert_eq!(plan.root, 2);
}

#[test]
fn a_merge_gathers_cities_in_edge_order() {
    let mut place = new_node("place", NodeKind::PlaceAlongPath, "Place");
    place.building_params = Some(BuildingParams { seed: 77, ..BuildingParams::default() });
    let g = graph(
        vec![
            params_node("p", Some(BuildingParams::default())),
            new_node("mesh", NodeKind::BuildingMesh, "Mesh"),
            place,
            new_node("grid", NodeKind::FillGrid, "Grid"),
            new_node("merge", NodeKind::MergeInstances, "Merge"),
            new_node("root", NodeKind::CityRoot, "Root"),
        ],
        &[
            ("p", "mesh"),
            ("mesh", "place"),
            ("mesh", "grid"),
            ("grid", "merge"),
            ("p", "merge"),
            ("place", "merge"),
            ("merge", "root"),
        ],
    );
    let plan = cook_plan(&g).unwrap();
    assert_eq!(plan.steps[2], CookStep::AlongPath { mesh: 1, path: PathInput::default(), seed: 77 });
    assert_eq!(plan.steps[3], CookStep::FillGrid { mesh: 1, grid: GridInput::default(), seed: 1 });
    assert_eq!(plan.steps[4], CookStep::Merge { base: Some(3), cities: vec![3, 2] });
    assert_eq!(plan.steps[5], CookStep::City(4));
    assert_eq!(plan.root, 5);
}

#[test]
fn a_merge_without_inputs_has_no_base() {
    let g = graph(
        vec![new_node("merge", NodeKind::MergeInstances, "Merge"), new_node("root", NodeKind::CityRoot, "Root")],
        &[("merge", "root")],
    );
    let plan = cook_plan(&g).unwrap();
    assert_eq!(plan.steps[0], CookStep::Merge { base: None, cities: vec![] });
    assert_eq!(plan.steps[1], CookStep::City(0));
}

#[test]
fn the_output_is_the_latest_node_under_the_root_id() {
    let g = graph(
        vec![
            params_node("p", Some(BuildingParams::default())),
            new_node("mesh", NodeKind::BuildingMesh, "Mesh"),
            new_node("root", NodeKind::CityRoot, "Root"),
            params_node("root", Some(BuildingParams::default())),
        ],
        &[("p", "mesh"), ("mesh", "root")],
    );
    assert_eq!(error_of(&g), "CityRoot did not receive city output");
}

#[test]
fn simulation_nodes_are_skipped() {
    let g = graph(
        vec![
            new_node("smoke", NodeKind::SmokeDomain, "Smoke"),
            params_node("p", Some(BuildingParams::default())),
            new_node("mesh", NodeKind::BuildingMesh, "Mesh"),
            new_node("root", NodeKind::CityRoot, "Root"),
        ],
        &[("p", "mesh"), ("smoke", "root"), ("mesh", "root")],
    );
    let err = error_of(&g);
    assert_eq!(err, "CityRoot input smoke has unsupported type");
    let g2 = graph(
        vec![
            new_node("smoke", NodeKind::SmokeDomain, "Smoke"),
            params_node("p", Some(BuildingParams::default())),
            new_node("mesh", NodeKind::BuildingMesh, "Mesh"),
            new_node("root", NodeKind::CityRoot, "Root"),
        ],
        &[("p", "mesh"), ("mesh", "root")],
    );
    let plan = cook_plan(&g2).unwrap();
    assert_eq!(plan.steps[0], CookStep::Skipped);
    assert_eq!(plan.steps[3], CookStep::MeshCity(2));
}

#[test]
fn grid_block_preset_plan_fills_the_default_grid() {
    let plan = cook_plan(&Graph::grid_block_preset()).unwrap();
    assert_eq!(
        plan.steps,
        vec![
            CookStep::Params(BuildingParams::default()),
            CookStep::Building(BuildingParams::default()),
            CookStep::FillGrid { mesh: 1, grid: GridInput::default(), seed: 1 },
            CookStep::City(2),
        ]
    );
    assert_eq!(plan.root, 3);
}

#[test]
fn smoke_preset_has_no_city_to_cook() {
    assert_eq!(error_of(&Graph::smoke_puff_preset()), "graph missing CityRoot node");
}
