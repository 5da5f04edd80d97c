use petgraph::graph::DiGraph;
use proc_macro2::Span;
use rust_visualizer::graph::variable_graph::{GraphBuilder, VarGraph, VarNode};
use rust_visualizer::parser::events::{AnalysisEvent, EventKind, Variable};
use rust_visualizer::report::{analysis_name, batch_name, unused_variable_list, used_variable_count};

fn ev(kind: EventKind) -> AnalysisEvent {
    AnalysisEvent { kind, span: Span::call_site() }
}

fn define(name: &str, level: usize, mutable: bool) -> AnalysisEvent {
    ev(EventKind::VarDefined(Variable { name: name.to_string(), span: Span::call_site(), is_mutable: mutable, scope_level: level }))
}

fn use_of(name: &str, level: usize) -> AnalysisEvent {
    ev(EventKind::VarUsed { name: name.to_string(), scope_level: level })
}

fn sample_events() -> Vec<AnalysisEvent> {
    vec![
        define("a", 0, false),
        define("b", 1, true),
        define("a", 0, true),
        define("c", 1, false),
        use_of("a", 1),
        use_of("b", 1),
        use_of("zzz", 3),
    ]
}

#[test]
fn builder_adds_each_variable_once_and_marks_uses() {
    let events = sample_events();
    assert!(GraphBuilder::events_buildable(&events));
    let builder = GraphBuilder::build_from_events(&events);
    let unused: Vec<String> = builder.find_unused_variables().iter().map(|n| n.name.clone()).collect();
    assert_eq!(unused, vec!["c".to_string()]);
    let graph = builder.into_graph();
    assert_eq!(graph.node_count(), 3);
    assert_eq!(graph.edge_count(), 0);
    let nodes: Vec<VarNode> = graph.node_weights().cloned().collect();
    assert_eq!(nodes[0], VarNode { name: "a".to_string(), is_mutable: false, scope_level: 0, defined: true, used: true });
    assert_eq!(nodes[1], VarNode { name: "b".to_string(), is_mutable: true, scope_level: 1, defined: true, used: true });
    assert_eq!(nodes[2].name, "c");
    assert!(!nodes[2].used);
}

#[test]
fn builder_refuses_uses_below_the_outermost_scope() {
    let events = vec![define("a", 1, false), use_of("a", 0)];
    assert!(!GraphBuilder::events_buildable(&events));
    assert!(GraphBuilder::events_buildable(&[define("a", 0, false), use_of("a", 0)]));
    assert!(GraphBuilder::events_buildable(&[]));
}

#[test]
fn summary_report_lists_the_unused() {
    let builder = GraphBuilder::build_from_events(&sample_events());
    assert_eq!(
        builder.summary_report(),
        "=== Variable Analysis Summary ===\nTotal variables: 3\nUsed variables: 2\nUnused variables: 1\n\nUnused variables:\n  - c (scope: 1)\n"
    );
    let empty = GraphBuilder::new();
    assert_eq!(
        empty.summary_report(),
        "=== Variable Analysis Summary ===\nTotal variables: 0\nUsed variables: 0\nUnused variables: 0\n\n"
    );
}

#[test]
fn report_counts_and_lists_the_never_used() {
    let mut graph: VarGraph = DiGraph::new();
    graph.add_node(VarNode { name: "u".to_string(), is_mutable: false, scope_level: 0, defined: true, used: true });
    graph.add_node(VarNode { name: "n".to_string(), is_mutable: false, scope_level: 2, defined: true, used: false });
    graph.add_node(VarNode { name: "m".to_string(), is_mutable: true, scope_level: 1, defined: false, used: false });
    assert_eq!(used_variable_count(&graph), 1);
    assert_eq!(unused_variable_list(&graph), vec![("n".to_string(), 2), ("m".to_string(), 1)]);
}

#[test]
fn output_names_are_file_stems() {
    assert_eq!(analysis_name("example.rs"), "example");
    assert_eq!(analysis_name("archive.tar.gz"), "archive.tar");
    assert_eq!(analysis_name(".hidden"), ".hidden");
    assert_eq!(analysis_name("noext"), "noext");
    assert_eq!(analysis_name("dir/sub/main.rs"), "main");
    assert_eq!(analysis_name(""), "analysis");
    assert_eq!(batch_name("src/lib.rs", 4), "lib");
    assert_eq!(batch_name("..", 7), "file7");
}

#[test]
fn output_names_of_paths() {
    assert_eq!(analysis_name("examples/test_scope.rs"), "test_scope");
    assert_eq!(analysis_name("a//b.rs/"), "b");
    assert_eq!(analysis_name("dir/./x.tar.gz/."), "x.tar");
    assert_eq!(analysis_name("dir/.."), "analysis");
    assert_eq!(analysis_name("/"), "analysis");
    assert_eq!(batch_name("src/..", 2), "file2");
}
