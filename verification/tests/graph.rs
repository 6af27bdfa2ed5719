use elfentier_core::agent::set_params;
use elfentier_core::graph::{
    BuildingParams, Graph, LiquidDomainInput, LiquidSolverInput, LiquidSourceInput, NodeKind, PathInput,
    SmokeDomainInput, SmokeSolverInput, SmokeSourceInput,
};
use elfentier_core::prompt::{switch_placement, PlacementMode};

fn edge_pairs(g: &Graph) -> Vec<(String, String)> {
    g.edges.iter().map(|e| (e.from.0.clone(), e.to.0.clone())).collect()
}

fn pair(a: &str, b: &str) -> (String, String) {
    (a.to_string(), b.to_string())
}

#[test]
fn shop_street_preset_shape() {
    let g = Graph::shop_street_preset();
    assert_eq!(g.name, "Shop Street");
    let kinds: Vec<NodeKind> = g.nodes.iter().map(|n| n.kind).collect();
    assert_eq!(
        kinds,
        vec![NodeKind::BuildingParams, NodeKind::BuildingMesh, NodeKind::PlaceAlongPath, NodeKind::CityRoot]
    );
    let params = g.nodes[0].building_params.expect("params");
    assert_eq!(params, BuildingParams::shop_preset());
    assert_eq!(params.floors, 2);
    assert_eq!(f32::from_bits(params.window_density), 0.65);
    let path = g.nodes[2].path_input.expect("path");
    assert_eq!(f32::from_bits(path.end[0]), 48.0);
    assert_eq!(f32::from_bits(path.start[2]), -4.0);
    assert_eq!(
        edge_pairs(&g),
        vec![
            pair("building_params", "building_mesh"),
            pair("building_mesh", "place_along_path"),
            pair("place_along_path", "city_root"),
        ]
    );
}

#[test]
fn switching_to_grid_rewires_the_root() {
    let g = switch_placement(&Graph::shop_street_preset(), PlacementMode::Grid);
    let kinds: Vec<NodeKind> = g.nodes.iter().map(|n| n.kind).collect();
    assert_eq!(
        kinds,
        vec![NodeKind::BuildingParams, NodeKind::BuildingMesh, NodeKind::CityRoot, NodeKind::FillGrid]
    );
    let grid = g.nodes[3].grid_input.expect("grid");
    assert_eq!((grid.cols, grid.rows), (3, 2));
    assert_eq!(f32::from_bits(grid.spacing), 1.5);
    assert_eq!(
        edge_pairs(&g),
        vec![
            pair("building_mesh", "place_along_path"),
            pair("building_mesh", "fill_grid"),
            pair("fill_grid", "city_root"),
            pair("building_params", "building_mesh"),
        ]
    );
}

#[test]
fn switching_back_to_path_keeps_one_placement_node() {
    let grid = switch_placement(&Graph::shop_street_preset(), PlacementMode::Grid);
    let path = switch_placement(&grid, PlacementMode::AlongPath);
    let placements = path
        .nodes
        .iter()
        .filter(|n| n.kind == NodeKind::PlaceAlongPath || n.kind == NodeKind::FillGrid)
        .count();
    assert_eq!(placements, 1);
    assert_eq!(path.nodes.last().unwrap().kind, NodeKind::PlaceAlongPath);
    assert!(edge_pairs(&path).contains(&pair("place_along_path", "city_root")));
}

#[test]
fn switching_without_a_root_changes_nothing() {
    let mut g = Graph::shop_street_preset();
    g.nodes.retain(|n| n.kind != NodeKind::CityRoot);
    let s = switch_placement(&g, PlacementMode::Grid);
    assert_eq!(s.nodes.len(), 3);
    assert_eq!(edge_pairs(&s), edge_pairs(&g));
}

#[test]
fn set_params_updates_the_params_node() {
    let g = Graph::shop_street_preset();
    let mut p = BuildingParams::default();
    p.floors = 9;
    let by_first = set_params(&g, None, p);
    assert_eq!(by_first.nodes[0].building_params.unwrap().floors, 9);
    let by_id = set_params(&g, Some("building_params"), p);
    assert_eq!(by_id.nodes[0].building_params.unwrap().floors, 9);
    let missing = set_params(&g, Some("nope"), p);
    assert_eq!(missing.nodes[0].building_params.unwrap().floors, 2);
    assert!(missing.nodes[1].building_params.is_none());
}

#[test]
fn new_graph_is_empty() {
    let g = Graph::new("Empty");
    assert_eq!(g.name, "Empty");
    assert!(g.nodes.is_empty() && g.edges.is_empty());
}

#[test]
fn simulation_inputs_have_documented_defaults() {
    let f = f32::from_bits;
    let domain = SmokeDomainInput::default();
    assert_eq!(domain.resolution, 24);
    assert_eq!(domain.bounds_min.map(f), [-4.0, 0.0, -4.0]);
    assert_eq!(domain.bounds_max.map(f), [4.0, 8.0, 4.0]);
    assert_eq!(domain.seed, 7);
    let source = SmokeSourceInput::default();
    assert_eq!(source.position.map(f), [0.0, 1.2, 0.0]);
    assert_eq!((f(source.radius), f(source.emission_rate)), (0.9, 2.5));
    assert_eq!((f(source.temperature), f(source.upward_velocity)), (1.4, 2.8));
    let solver = SmokeSolverInput::default();
    assert_eq!((solver.steps, solver.frame_stride, solver.pressure_iterations), (48, 4, 18));
    assert_eq!((f(solver.dissipation), f(solver.buoyancy)), (0.985, 1.6));
    assert_eq!((f(solver.diffusion), f(solver.viscosity)), (0.12, 0.06));
    assert!(solver.ground_collision);
    assert_eq!(solver.max_particles_per_frame, 1800);
    let ldomain = LiquidDomainInput::default();
    assert_eq!((ldomain.resolution, ldomain.seed, ldomain.initial_particles), (20, 11, 1200));
    assert_eq!(ldomain.bounds_max.map(f), [4.0, 6.0, 4.0]);
    assert_eq!(f(ldomain.particle_radius), 0.12);
    let lsource = LiquidSourceInput::default();
    assert_eq!(lsource.position.map(f), [0.0, 5.0, 0.0]);
    assert_eq!(lsource.velocity.map(f), [0.0, -2.5, 0.0]);
    assert_eq!((f(lsource.radius), f(lsource.emission_rate), lsource.active_until_step), (0.6, 8.0, 0));
    let lsolver = LiquidSolverInput::default();
    assert_eq!((lsolver.steps, lsolver.frame_stride, lsolver.pressure_iterations), (60, 3, 20));
    assert_eq!((f(lsolver.gravity), f(lsolver.flip_ratio), f(lsolver.viscosity)), (9.8, 0.96, 0.02));
    assert_eq!((f(lsolver.wave_amplitude), f(lsolver.wave_frequency), f(lsolver.terrain_height)), (0.0, 1.2, 0.0));
    assert_eq!(lsolver.max_particles, 16000);
    let path = PathInput::default();
    assert_eq!(path.end.map(f), [40.0, 0.0, 0.0]);
    assert_eq!((f(path.spacing), f(path.offset_from_path)), (8.0, 0.0));
}

#[test]
fn set_params_twice_is_set_params_once() {
    let g = Graph::shop_street_preset();
    let params = BuildingParams { floors: 7, ..BuildingParams::default() };
    let once = set_params(&g, None, params);
    let twice = set_params(&once, None, params);
    let first = |g: &Graph| g.nodes.iter().map(|n| n.building_params).collect::<Vec<_>>();
    assert_eq!(first(&once), first(&twice));
    assert_eq!(once.nodes.len(), twice.nodes.len());
}
