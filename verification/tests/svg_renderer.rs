use petgraph::graph::DiGraph;
use rust_visualizer::analysis::{AnalysisResult, BorrowKind, OwnershipStatus};
use rust_visualizer::graph::svg_renderer::{node_color_of, SvgConfig, SvgRenderer};
use rust_visualizer::graph::interactive_svg::InteractiveSvgRenderer;
use rust_visualizer::graph::variable_graph::{GraphBuilder, VarGraph, VarNode};
use rust_visualizer::parser::events::{AnalysisEvent, EventKind, Variable};

fn node(name: &str, level: usize, mutable: bool, used: bool) -> VarNode {
    VarNode { name: name.to_string(), is_mutable: mutable, scope_level: level, defined: true, used }
}

fn change(name: &str, status: OwnershipStatus) -> AnalysisResult {
    AnalysisResult::OwnershipChange { name: name.to_string(), new_status: status, span: proc_macro2::Span::call_site() }
}

#[test]
fn svg_renderer_test_svg_config_defaults() {
    let config = SvgConfig::default();

    assert_eq!(config.width, 1200);
    assert_eq!(config.height, 800);
    assert_eq!(config.font_size, 12);
}

#[test]
fn test_render_simple() {
    let graph: VarGraph = DiGraph::new();
    let renderer = SvgRenderer::new();
    let results: Vec<AnalysisResult> = Vec::new();

    let svg = renderer.render_simple(&graph, &results, None);

    assert!(svg.content.contains("<svg"));
    assert!(svg.content.contains("</svg>"));
    assert!(!svg.external_tool);
}

#[test]
fn test_render_to_dot() {
    let graph: VarGraph = DiGraph::new();
    let renderer = SvgRenderer::new();
    let results: Vec<AnalysisResult> = Vec::new();

    let dot = renderer.render_to_dot(&graph, &results);

    assert!(dot.contains("digraph"));
    assert!(dot.contains("}"));
}

#[test]
fn render_simple_titles_by_the_file_name_without_its_directory() {
    let graph: VarGraph = DiGraph::new();
    let svg = SvgRenderer::new().render_simple(&graph, &[], Some("some/dir/example.rs"));
    assert!(svg.content.contains("\n    example.rs\n"));
    assert!(!svg.content.contains("some/dir"));
    let untitled = SvgRenderer::new().render_simple(&graph, &[], None);
    assert!(untitled.content.contains("\n    Rust Ownership Graph\n"));
    let config = SvgConfig { title: Some("Fixed".to_string()), ..SvgConfig::default() };
    let fixed = SvgRenderer::with_config(config).render_simple(&graph, &[], Some("x.rs"));
    assert!(fixed.content.contains("\n    Fixed\n"));
}

#[test]
fn render_simple_draws_scopes_in_ascending_order() {
    let mut graph: VarGraph = DiGraph::new();
    graph.add_node(node("inner", 2, true, true));
    graph.add_node(node("outer", 0, false, true));
    graph.add_node(node("second", 0, false, false));
    let renderer = SvgRenderer::new();
    assert!(renderer.can_render(&graph));
    let svg = renderer.render_simple(&graph, &[], None).content;
    let s0 = svg.find(">Scope 0<").unwrap();
    let s2 = svg.find(">Scope 2<").unwrap();
    assert!(s0 < s2);
    // two variables in scope 0: a box of 240 pixels centred in 1200
    assert!(svg.contains("<rect x=\"480\" y=\"80\" width=\"240\" height=\"110\""));
    // one variable in scope 2, the second box 140 pixels lower
    assert!(svg.contains("<rect x=\"540\" y=\"220\" width=\"120\" height=\"110\""));
    assert!(svg.contains("Nodes: 3</text>"));
    assert!(svg.contains("Edges: 0</text>"));
    assert!(svg.contains(">mut</text>"));
}

#[test]
fn can_render_refuses_what_does_not_fit() {
    let mut graph: VarGraph = DiGraph::new();
    for i in 0..10 {
        graph.add_node(node(&format!("v{}", i), 0, false, true));
    }
    let narrow = SvgRenderer::with_config(SvgConfig { width: 1000, ..SvgConfig::default() });
    assert!(!narrow.can_render(&graph));
    let wide = SvgRenderer::with_config(SvgConfig { width: 1240, ..SvgConfig::default() });
    assert!(wide.can_render(&graph));
    let tiny = SvgRenderer::with_config(SvgConfig { width: 149, ..SvgConfig::default() });
    assert!(!tiny.can_render(&DiGraph::new()));
}

#[test]
fn node_colour_follows_the_last_status_that_is_not_a_drop() {
    let used = node("x", 0, false, true);
    let unused = node("x", 0, false, false);
    assert_eq!(node_color_of(&unused, &[change("x", OwnershipStatus::Moved)]), "#EEEEEE");
    assert_eq!(node_color_of(&used, &[]), "#4CAF50");
    let results = vec![
        change("x", OwnershipStatus::Owned),
        change("x", OwnershipStatus::Borrowed(BorrowKind::Mutable)),
        change("y", OwnershipStatus::Moved),
        change("x", OwnershipStatus::Dropped),
    ];
    assert_eq!(node_color_of(&used, &results), "#F44336");
    assert_eq!(node_color_of(&used, &results[..1]), "#4CAF50");
}

#[test]
fn renderers_agree_on_colours_and_default_pictures() {
    let mut graph: VarGraph = DiGraph::new();
    graph.add_node(node("a", 0, false, true));
    graph.add_node(node("b", 1, true, false));
    let results = vec![change("a", OwnershipStatus::Moved)];
    let simple = SvgRenderer::with_config(SvgConfig { width: 500, ..SvgConfig::default() });
    let interactive = InteractiveSvgRenderer::new(SvgConfig::default());
    for n in graph.node_weights() {
        assert_eq!(simple.get_node_color(n, &results), interactive.get_node_color(n, &results));
    }
    assert_eq!(simple.get_node_color(&node("a", 0, false, true), &results), "#FF9800");
    let a = SvgRenderer::new().render_simple(&graph, &results, Some("x.rs")).content;
    let b = SvgRenderer::with_config(SvgConfig::default()).render_simple(&graph, &results, Some("x.rs")).content;
    let c = SvgRenderer::default().render_simple(&graph, &results, Some("x.rs")).content;
    assert_eq!(a, b);
    assert_eq!(a, c);
}

#[test]
fn summary_counts_add_up() {
    let def = |n: &str| AnalysisEvent {
        kind: EventKind::VarDefined(Variable { name: n.to_string(), span: proc_macro2::Span::call_site(), is_mutable: false, scope_level: 0 }),
        span: proc_macro2::Span::call_site(),
    };
    let events = vec![def("p"), def("q"), def("r"), AnalysisEvent { kind: EventKind::VarUsed { name: "q".to_string(), scope_level: 0 }, span: proc_macro2::Span::call_site() }];
    let b = GraphBuilder::build_from_events(&events);
    assert_eq!(b.find_unused_variables().len(), 2);
    assert!(b.summary_report().contains("Total variables: 3\nUsed variables: 1\nUnused variables: 2\n"));
}

#[test]
fn simple_title_is_the_last_path_component() {
    let graph: VarGraph = DiGraph::new();
    let r = SvgRenderer::new();
    assert!(r.render_simple(&graph, &[], Some("examples/test_scope.rs")).content.contains("\n    test_scope.rs\n"));
    assert!(r.render_simple(&graph, &[], Some("dir//sub/./")).content.contains("\n    sub\n"));
    assert!(r.render_simple(&graph, &[], Some("dir/..")).content.contains("\n    dir/..\n"));
}
