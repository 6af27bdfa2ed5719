use elfentier_core::explain::render_plain_line;
use elfentier_core::explain::{explain_lines, ExplainLine};
use elfentier_core::graph::Graph;

#[test]
fn explains_shop_preset() {
    let lines = explain_lines(&Graph::shop_street_preset());
    assert!(matches!(&lines[0], ExplainLine::Name { name } if name == "Shop Street"));
    assert!(lines.iter().any(|l| matches!(l, ExplainLine::Building { params } if params.floors == 2)));
}

#[test]
fn explains_smoke_preset() {
    let lines = explain_lines(&Graph::smoke_puff_preset());
    assert!(lines.iter().any(|l| matches!(l, ExplainLine::SmokeDomain { domain } if domain.resolution == 24)));
    assert!(lines.iter().any(|l| matches!(l, ExplainLine::SmokeSolver { solver } if solver.steps == 48)));
}

#[test]
fn shop_summary_lists_every_line_in_order() {
    let lines = explain_lines(&Graph::shop_street_preset());
    assert_eq!(lines.len(), 4);
    assert!(matches!(&lines[2], ExplainLine::AlongPath { path } if path.spacing == 0x4110_0000));
    assert!(matches!(&lines[3], ExplainLine::Counts { nodes: 4, edges: 3 }));
}

#[test]
fn smoke_summary_has_no_placement_line() {
    let lines = explain_lines(&Graph::smoke_puff_preset());
    assert_eq!(lines.len(), 5);
    assert!(!lines.iter().any(|l| matches!(l, ExplainLine::DirectMesh | ExplainLine::Building { .. })));
}

#[test]
fn liquid_summary_uses_the_mesh_directly() {
    let lines = explain_lines(&Graph::waterfall_preset());
    assert_eq!(lines.len(), 3);
    assert!(matches!(&lines[1], ExplainLine::DirectMesh));
    assert!(matches!(&lines[2], ExplainLine::Counts { nodes: 3, edges: 2 }));
}

#[test]
fn grid_summary_reports_the_grid() {
    let lines = explain_lines(&Graph::grid_block_preset());
    assert!(matches!(&lines[2], ExplainLine::Grid { grid } if grid.cols == 3 && grid.rows == 2));
}

#[test]
fn plain_lines_render_in_the_library() {
    let lines = explain_lines(&Graph::shop_street_preset());
    assert_eq!(render_plain_line(&lines[0]).as_deref(), Some("Graph: Shop Street"));
    assert_eq!(render_plain_line(&lines[3]).as_deref(), Some("Nodes — 4 nodes, 3 edges"));
    assert_eq!(render_plain_line(&lines[1]), None);
    let liquid = explain_lines(&Graph::waterfall_preset());
    assert_eq!(render_plain_line(&liquid[1]).as_deref(), Some("Placement — direct mesh (no instancing node)"));
}
