use petgraph::graph::DiGraph;
use proc_macro2::Span;
use rust_visualizer::analysis::{AnalysisResult, BorrowKind, OwnershipStatus};
use rust_visualizer::graph::interactive_svg::InteractiveSvgRenderer;
use rust_visualizer::graph::svg_renderer::SvgConfig;
use rust_visualizer::graph::variable_graph::{VarGraph, VarNode};

fn node(name: &str, level: usize, mutable: bool, used: bool) -> VarNode {
    VarNode { name: name.to_string(), is_mutable: mutable, scope_level: level, defined: true, used }
}

fn change(name: &str, status: OwnershipStatus) -> AnalysisResult {
    AnalysisResult::OwnershipChange { name: name.to_string(), new_status: status, span: Span::call_site() }
}

#[test]
fn interactive_picture_has_tooltips_labels_and_legend() {
    let mut graph: VarGraph = DiGraph::new();
    graph.add_node(node("x", 1, true, true));
    graph.add_node(node("y", 1, false, false));
    let results = vec![change("x", OwnershipStatus::Borrowed(BorrowKind::Mutable)), change("x", OwnershipStatus::Dropped)];
    let renderer = InteractiveSvgRenderer::new(SvgConfig::default());
    assert!(renderer.can_render(&graph));
    let svg = renderer.render_interactive(&graph, &results, "demo");
    assert!(svg.starts_with("<svg xmlns=\"http://www.w3.org/2000/svg\" width=\"1200\" height=\"800\" viewBox=\"0 0 1200 800\">"));
    assert!(svg.contains("<text x=\"550\" y=\"25\" class=\"title\" text-anchor=\"middle\">demo</text>\n"));
    assert!(svg.contains("<rect x=\"430\" y=\"60\" width=\"240\" height=\"110\" class=\"scope-box\"/>\n"));
    assert!(svg.contains(">Scope 1</text>"));
    assert!(svg.contains("showTooltip(evt, 'Name: x&#10;Mutable: true&#10;Used: true&#10;Scope: 1')"));
    assert!(svg.contains("fill=\"#F44336\" stroke=\"#333\""));
    assert!(svg.contains(">MUT BORROW</text>"));
    assert!(svg.contains(">UNUSED</text>"));
    assert!(svg.contains("<rect x=\"1020\" y=\"60\" width=\"160\" height=\"140\" class=\"legend-box\"/>"));
    assert!(svg.contains(">Mut Borrow</text>"));
    assert!(svg.ends_with("<text id='tooltip' class='tooltip' x='0' y='0'/></g></svg>"));
}

#[test]
fn interactive_label_colour_is_dark_on_light_and_red_boxes() {
    let mut graph: VarGraph = DiGraph::new();
    graph.add_node(node("a", 0, false, true));
    graph.add_node(node("b", 0, false, false));
    let svg = InteractiveSvgRenderer::new(SvgConfig::default()).render_interactive(&graph, &[], "t");
    assert!(svg.contains("fill=\"#FFFFFF\" text-anchor=\"middle\">a</text>"));
    assert!(svg.contains("fill=\"#333\" text-anchor=\"middle\">b</text>"));
    assert!(svg.contains(">OWNED</text>"));
}

#[test]
fn interactive_can_render_checks_the_width() {
    let mut graph: VarGraph = DiGraph::new();
    for i in 0..5 {
        graph.add_node(node(&format!("v{}", i), 0, false, true));
    }
    let narrow = InteractiveSvgRenderer::new(SvgConfig { width: 699, ..SvgConfig::default() });
    assert!(!narrow.can_render(&graph));
    let exact = InteractiveSvgRenderer::new(SvgConfig { width: 700, ..SvgConfig::default() });
    assert!(exact.can_render(&graph));
    let tiny = InteractiveSvgRenderer::new(SvgConfig { width: 179, ..SvgConfig::default() });
    assert!(!tiny.can_render(&DiGraph::new()));
}

#[test]
fn legend_sits_180_pixels_left_of_the_right_edge() {
    let legend = InteractiveSvgRenderer::new(SvgConfig { width: 400, ..SvgConfig::default() }).render_legend();
    assert!(legend.starts_with("<rect x=\"220\" y=\"60\" width=\"160\" height=\"140\" class=\"legend-box\"/>\n"));
    assert!(legend.contains("<text x=\"300\" y=\"80\""));
    assert!(legend.contains("<rect x=\"235\" y=\"188\" width=\"20\" height=\"15\" rx=\"3\" fill=\"#EEEEEE\"/>\n"));
    assert!(legend.ends_with("<text x=\"265\" y=\"200\" font-family=\"Arial\" font-size=\"12\" fill=\"#333\">Unused</text>\n"));
}
