use petgraph::graph::DiGraph;
use proc_macro2::Span;
use rust_visualizer::analysis::{AnalysisResult, BorrowEvent, BorrowKind, OwnershipStatus};
use rust_visualizer::graph::timeline_animator::TimelineAnimator;
use rust_visualizer::graph::variable_graph::{VarGraph, VarNode};

fn node(name: &str, level: usize) -> VarNode {
    VarNode { name: name.to_string(), is_mutable: false, scope_level: level, defined: true, used: true }
}

fn change(name: &str, status: OwnershipStatus) -> AnalysisResult {
    AnalysisResult::OwnershipChange { name: name.to_string(), new_status: status, span: Span::call_site() }
}

fn sample() -> TimelineAnimator {
    let mut graph: VarGraph = DiGraph::new();
    graph.add_node(node("x", 0));
    graph.add_node(node("y", 1));
    graph.add_node(node("x", 1));
    let results = vec![
        change("x", OwnershipStatus::Owned),
        AnalysisResult::BorrowCreated(BorrowEvent { kind: BorrowKind::Mutable, name: "y".to_string(), span: Span::call_site() }),
        change("y", OwnershipStatus::Moved),
    ];
    TimelineAnimator::new(graph, results)
}

#[test]
fn frames_follow_the_results() {
    let t = sample();
    assert_eq!(t.get_frame_count(), 3);
    let f0 = t.generate_frame(0);
    assert_eq!(f0.frame_index, 0);
    assert_eq!(f0.total_frames, 3);
    assert_eq!(f0.node_states, vec![("x".to_string(), OwnershipStatus::Owned), ("y".to_string(), OwnershipStatus::Owned)]);
    assert_eq!(f0.event_description, "Variable declared: x");
    let f1 = t.generate_frame(1);
    assert_eq!(f1.event_description, "Unknown event");
    let f2 = t.generate_frame(2);
    assert_eq!(f2.node_states[1], ("y".to_string(), OwnershipStatus::Moved));
    assert_eq!(f2.event_description, "Ownership moved: y");
    let past = t.generate_frame(9);
    assert_eq!(past.node_states, f2.node_states);
    assert_eq!(past.event_description, "Analysis complete");
}

#[test]
fn animation_has_one_group_per_result() {
    let t = sample();
    assert!(t.can_animate());
    let svg = t.generate_animated_svg("demo");
    assert!(svg.starts_with("<svg xmlns=\"http://www.w3.org/2000/svg\" width=\"900\" height=\"250\" viewBox=\"0 0 900 250\">"));
    assert!(svg.contains("<text x=\"450\" y=\"30\" class=\"title\" text-anchor=\"middle\">demo - Timeline Animation</text>\n"));
    assert!(svg.contains("<g id=\"frame-0\" class=\"frame-content\" style=\"display: block;\">\n"));
    assert!(svg.contains("<g id=\"frame-2\" class=\"frame-content\" style=\"display: none;\">\n"));
    assert!(!svg.contains("frame-3"));
    assert!(svg.contains("<rect x=\"390\" y=\"60\" width=\"120\" height=\"110\" class=\"scope-box\"/>\n"));
    assert!(svg.contains("fill=\"#FF9800\""));
    assert!(svg.ends_with("</g>\n</svg>"));
}

#[test]
fn animation_page_holds_the_frames_and_events() {
    let t = sample();
    let html = t.generate_animated_html("demo");
    assert!(html.starts_with("<!DOCTYPE html>"));
    assert!(html.contains("<title>Rust Ownership Timeline Animation - demo</title>"));
    assert!(html.contains("File: demo</p>"));
    assert!(html.contains("Frame 1 / 3</span>"));
    assert!(html.contains("var totalFrames = 3;"));
    assert!(html.contains("var events = [\"Variable declared: x\", \"Unknown event\", \"Ownership moved: y\"];"));
    assert!(html.ends_with("</html>"));
}

#[test]
fn animation_without_results_has_one_frame_and_no_groups() {
    let mut graph: VarGraph = DiGraph::new();
    for i in 0..9 {
        graph.add_node(node(&format!("v{}", i), 0));
    }
    let t = TimelineAnimator::new(graph.clone(), Vec::new());
    assert_eq!(t.get_frame_count(), 1);
    assert!(t.can_animate());
    assert!(!t.generate_animated_svg("e").contains("frame-0"));
    assert!(t.generate_animated_html("e").contains("var events = [];"));
    let crowded = TimelineAnimator::new(graph, vec![change("v0", OwnershipStatus::Owned)]);
    assert!(!crowded.can_animate());
}
