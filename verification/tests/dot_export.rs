use petgraph::graph::DiGraph;
use rust_visualizer::analysis::{AnalysisResult, BorrowKind, OwnershipStatus};
use rust_visualizer::graph::dot_export::{ColorMap, DotConfig, DotExporter, DotStyle};
use rust_visualizer::graph::variable_graph::{VarGraph, VarNode};

fn node(name: &str, level: usize, mutable: bool, used: bool) -> VarNode {
    VarNode { name: name.to_string(), is_mutable: mutable, scope_level: level, defined: true, used }
}

#[test]
fn test_dot_export_basic() {
    let graph: VarGraph = DiGraph::new();
    let exporter = DotExporter::new();
    let results: Vec<AnalysisResult> = Vec::new();

    let export = exporter.export(&graph, &results, None);

    assert!(export.content.contains("digraph"));
    assert_eq!(export.node_count, 0);
    assert_eq!(export.edge_count, 0);
}

#[test]
fn test_dot_config_defaults() {
    let config = DotConfig::default();

    assert_eq!(config.title, "Rust Ownership Graph");
    assert!(config.show_ownership);
    assert!(config.show_borrows);
    assert!(config.show_scopes);
    assert!(!config.horizontal);
}

#[test]
fn test_dot_style_defaults() {
    let style = DotStyle::default();

    assert_eq!(style.node_shape, "box");
    assert_eq!(style.ownership_colors.len(), 4);
    assert_eq!(style.borrow_colors.len(), 2);
}

#[test]
fn test_sanitize_id() {
    let exporter = DotExporter::new();

    assert_eq!(exporter.sanitize_id("test-graph"), "test_graph");
    assert_eq!(exporter.sanitize_id("test graph"), "test_graph");
    assert_eq!(exporter.sanitize_id("test-graph_123"), "test_graph_123");
}

#[test]
fn sanitize_keeps_unicode_letters_and_is_idempotent() {
    let exporter = DotExporter::new();
    let once = exporter.sanitize_id("größe-1 €");
    assert_eq!(once, "größe_1__");
    assert_eq!(exporter.sanitize_id(&once), once);
    assert_eq!(exporter.sanitize_id(""), "");
}

#[test]
fn node_id_joins_name_and_scope() {
    let exporter = DotExporter::new();
    assert_eq!(exporter.node_id(&node("x", 3, false, true)), "x_3");
    assert_eq!(exporter.node_id(&node("long_name", 12, true, false)), "long_name_12");
}

#[test]
fn color_map_gives_back_what_was_stored() {
    let mut m: ColorMap<OwnershipStatus> = ColorMap::new();
    assert_eq!(m.len(), 0);
    assert_eq!(m.insert(OwnershipStatus::Owned, "#111111".to_string()), None);
    assert_eq!(m.insert(OwnershipStatus::Moved, "#222222".to_string()), None);
    assert_eq!(m.get(&OwnershipStatus::Owned), Some(&"#111111".to_string()));
    assert_eq!(m.insert(OwnershipStatus::Owned, "#333333".to_string()), Some("#111111".to_string()));
    assert_eq!(m.get(&OwnershipStatus::Owned), Some(&"#333333".to_string()));
    assert_eq!(m.get(&OwnershipStatus::Moved), Some(&"#222222".to_string()));
    assert_eq!(m.get(&OwnershipStatus::Dropped), None);
    assert_eq!(m.len(), 2);
}

#[test]
fn export_colours_nodes_by_first_change_and_lists_edges() {
    let mut graph: VarGraph = DiGraph::new();
    let a = graph.add_node(node("a", 0, false, true));
    let b = graph.add_node(node("b", 1, true, false));
    graph.add_edge(a, b, ());
    let results = vec![
        AnalysisResult::OwnershipChange {
            name: "a".to_string(),
            new_status: OwnershipStatus::Borrowed(BorrowKind::Immutable),
            span: proc_macro2::Span::call_site(),
        },
        AnalysisResult::OwnershipChange {
            name: "a".to_string(),
            new_status: OwnershipStatus::Moved,
            span: proc_macro2::Span::call_site(),
        },
    ];
    let export = DotExporter::new().export(&graph, &results, Some("my file.rs"));
    assert!(export.content.starts_with("digraph my_file_rs {"));
    assert!(export.content.contains("\"a_0\" -> \"b_1\""));
    assert!(export.content.contains("\"a_0\" [label=\"a\", shape=box, fillcolor=\"#2196F3\", style=filled];"));
    assert!(export.content.contains("fontcolor=#D32F2F"));
    assert!(export.content.contains("label=\"my file.rs\";"));
    assert!(export.content.contains("cluster_scope_0"));
    assert!(export.content.contains("cluster_scope_1"));
    assert_eq!(export.node_count, 2);
    assert_eq!(export.edge_count, 1);
}

#[test]
fn cloned_config_exports_like_the_default_style() {
    let mut graph: VarGraph = DiGraph::new();
    graph.add_node(node("b", 1, false, true));
    graph.add_node(node("a", 0, true, false));
    let config = DotConfig { title: "T".to_string(), horizontal: true, ..DotConfig::default() };
    let one = DotExporter::with_config(config.clone()).export(&graph, &[], None);
    let two = DotExporter::with_style(config, DotStyle::default()).export(&graph, &[], None);
    assert_eq!(one.content, two.content);
    assert_eq!(one.node_count, two.node_count);
    assert_eq!(one.edge_count, two.edge_count);
}
