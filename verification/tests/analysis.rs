use petgraph::graph::DiGraph;
use proc_macro2::Span;
use rust_visualizer::analysis::{
    analyze, AnalysisResult, BorrowAnalyzer, BorrowEvent, BorrowKind, LifetimeAnalyzer, OwnershipAnalyzer,
    OwnershipStatus,
};
use rust_visualizer::parser::events::{AnalysisEvent, EventKind, Function, Variable};
use rust_visualizer::graph::variable_graph::{VarGraph, VarNode};

fn var(name: &str, level: usize, mutable: bool) -> Variable {
    Variable { name: name.to_string(), span: Span::call_site(), is_mutable: mutable, scope_level: level }
}

fn ev(kind: EventKind) -> AnalysisEvent {
    AnalysisEvent { kind, span: Span::call_site() }
}

fn define(name: &str, level: usize) -> AnalysisEvent {
    ev(EventKind::VarDefined(var(name, level, false)))
}

fn borrow(name: &str, kind: BorrowKind, level: usize) -> AnalysisEvent {
    ev(EventKind::BorrowCreated { name: name.to_string(), kind, scope_level: level })
}

fn use_of(name: &str, level: usize) -> AnalysisEvent {
    ev(EventKind::VarUsed { name: name.to_string(), scope_level: level })
}

fn changes(results: &[AnalysisResult]) -> Vec<(String, OwnershipStatus)> {
    results
        .iter()
        .map(|r| match r {
            AnalysisResult::OwnershipChange { name, new_status, .. } => (name.clone(), *new_status),
            AnalysisResult::BorrowCreated(e) => (format!("borrow {}", e.name), OwnershipStatus::Owned),
        })
        .collect()
}

fn pair(name: &str, status: OwnershipStatus) -> (String, OwnershipStatus) {
    (name.to_string(), status)
}

fn node(name: &str, level: usize, mutable: bool) -> VarNode {
    VarNode { name: name.to_string(), is_mutable: mutable, scope_level: level, defined: true, used: true }
}

#[test]
fn ownership_reports_definitions_and_drops_the_unmoved_at_scope_exit() {
    let mut a = OwnershipAnalyzer::new();
    let events = vec![
        define("x", 0),
        ev(EventKind::ScopeEnter { level: 1 }),
        define("y", 1),
        borrow("y", BorrowKind::Mutable, 1),
        define("z", 1),
        ev(EventKind::ScopeExit { level: 1 }),
    ];
    let results = changes(a.analyze(&events));
    assert_eq!(
        results,
        vec![
            pair("x", OwnershipStatus::Owned),
            pair("y", OwnershipStatus::Owned),
            pair("z", OwnershipStatus::Owned),
            pair("y", OwnershipStatus::Dropped),
            pair("z", OwnershipStatus::Dropped),
        ]
    );
}

#[test]
fn ownership_in_two_batches_matches_one_batch() {
    let events = vec![define("a", 0), define("b", 2), ev(EventKind::ScopeExit { level: 2 }), define("c", 0)];
    let mut once = OwnershipAnalyzer::new();
    let all = changes(once.analyze(&events));
    let mut twice = OwnershipAnalyzer::new();
    let first = changes(twice.analyze(&events[..2]));
    let both = changes(twice.analyze(&events[2..]));
    assert_eq!(both, all);
    assert_eq!(&all[..first.len()], &first[..]);
    assert_eq!(all.len(), 4);
}

#[test]
fn ownership_binds_function_parameters_without_reporting_them() {
    let mut a = OwnershipAnalyzer::new();
    let f = Function { name: "f".to_string(), span: Span::call_site(), parameters: vec![var("p", 1, false)], scope_level: 0 };
    let results = changes(a.analyze(&[ev(EventKind::FuncDefined(f)), ev(EventKind::ScopeExit { level: 1 })]));
    assert_eq!(results, vec![pair("p", OwnershipStatus::Dropped)]);
}

#[test]
fn borrow_analyzer_reports_each_borrow_and_counts_uses() {
    let mut b = BorrowAnalyzer::new();
    let events = vec![
        define("v", 0),
        borrow("v", BorrowKind::Immutable, 1),
        use_of("v", 1),
        use_of("v", 1),
        use_of("w", 1),
        ev(EventKind::ScopeExit { level: 1 }),
        use_of("v", 0),
    ];
    let results = b.analyze(&events).to_vec();
    assert_eq!(results.len(), 1);
    match &results[0] {
        AnalysisResult::BorrowCreated(BorrowEvent { kind, name, .. }) => {
            assert_eq!(*kind, BorrowKind::Immutable);
            assert_eq!(name, "v");
        },
        _ => panic!("expected a borrow"),
    }
    assert_eq!(b.find_long_borrow_chains(2), vec![("v".to_string(), 2)]);
    assert_eq!(b.find_long_borrow_chains(3), Vec::<(String, usize)>::new());
}

#[test]
fn borrow_tracking_by_hand_is_reported() {
    let mut b = BorrowAnalyzer::new();
    b.track_borrow("q", BorrowKind::Mutable, Span::call_site(), 4);
    assert_eq!(b.find_long_borrow_chains(0), vec![("q".to_string(), 0)]);
}

#[test]
fn lifetimes_end_at_scope_exit_and_count_uses() {
    let mut l = LifetimeAnalyzer::new();
    let events = vec![define("a", 0), define("b", 1), use_of("b", 1), use_of("b", 1), ev(EventKind::ScopeExit { level: 1 })];
    let results = changes(&l.analyze(&events));
    assert_eq!(results, vec![pair("b", OwnershipStatus::Dropped)]);
    assert_eq!(l.get_lifetime_summary(), vec![("a".to_string(), 0), ("b".to_string(), 2)]);
}

#[test]
fn whole_graph_analysis_follows_name_order() {
    let mut graph: VarGraph = DiGraph::new();
    for (name, mutable) in [("d", false), ("b", true), ("a", false), ("c", false), ("e", false)] {
        graph.add_node(node(name, 0, mutable));
    }
    let results = changes(&analyze(&graph));
    assert_eq!(
        results,
        vec![
            pair("a", OwnershipStatus::Owned),
            pair("b", OwnershipStatus::Owned),
            pair("c", OwnershipStatus::Owned),
            pair("d", OwnershipStatus::Owned),
            pair("e", OwnershipStatus::Owned),
            pair("c", OwnershipStatus::Moved),
        ]
    );
}

#[test]
fn whole_graph_analysis_orders_names_by_code_point() {
    let mut graph: VarGraph = DiGraph::new();
    for name in ["b", "a", "B", "ab", "é"] {
        graph.add_node(node(name, 1, false));
    }
    let names: Vec<String> = changes(&analyze(&graph)).into_iter().map(|(n, _)| n).collect();
    assert_eq!(names, vec!["B", "a", "ab", "b", "é", "ab"]);
    assert!(analyze(&DiGraph::new()).is_empty());
}

#[test]
fn status_and_result_texts() {
    assert_eq!(OwnershipStatus::Borrowed(BorrowKind::Mutable).to_string(), "borrowed (&mut)");
    assert_eq!(OwnershipStatus::Dropped.to_string(), "dropped");
    assert_eq!(BorrowKind::Immutable.to_string(), "&");
    let r = AnalysisResult::OwnershipChange { name: "x".to_string(), new_status: OwnershipStatus::Moved, span: Span::call_site() };
    assert!(r.to_string().starts_with("[OWNERSHIP] x -> moved at "));
    let b = AnalysisResult::BorrowCreated(BorrowEvent { kind: BorrowKind::Mutable, name: "y".to_string(), span: Span::call_site() });
    assert!(b.to_string().starts_with("[BORROW] &mut y at "));
}

#[test]
fn event_texts() {
    assert_eq!(var("x", 2, true).to_string(), "x: mut (scope: 2)");
    assert_eq!(define("y", 0).to_string(), "DEFINE: y: immut (scope: 0)");
    assert_eq!(use_of("z", 3).to_string(), "USE: z");
    assert_eq!(ev(EventKind::ScopeExit { level: 7 }).to_string(), "EXIT_SCOPE: level 7");
    assert_eq!(borrow("w", BorrowKind::Mutable, 0).to_string(), "BORROW: &mut w");
    let moved = ev(EventKind::OwnershipMoved { name: "m".to_string(), target: None, is_function_call: true });
    assert_eq!(moved.to_string(), "MOVE_CALL: m -> unknown");
}

#[test]
fn borrow_and_lifetime_batches_match_one_batch() {
    let events = vec![
        define("v", 0),
        borrow("v", BorrowKind::Mutable, 1),
        use_of("v", 1),
        ev(EventKind::ScopeExit { level: 1 }),
        define("w", 1),
        use_of("w", 1),
        ev(EventKind::ScopeExit { level: 1 }),
    ];
    let mut b_once = BorrowAnalyzer::new();
    let b_all = b_once.analyze(&events).len();
    let mut b_twice = BorrowAnalyzer::new();
    b_twice.analyze(&events[..3]);
    let b_both = b_twice.analyze(&events[3..]).len();
    assert_eq!(b_all, b_both);
    assert_eq!(b_once.find_long_borrow_chains(1), b_twice.find_long_borrow_chains(1));

    let mut l_once = LifetimeAnalyzer::new();
    let l_all = changes(&l_once.analyze(&events));
    let mut l_twice = LifetimeAnalyzer::new();
    l_twice.analyze(&events[..4]);
    let l_both = changes(&l_twice.analyze(&events[4..]));
    assert_eq!(l_all, l_both);
    assert_eq!(l_all, vec![pair("w", OwnershipStatus::Dropped)]);
    assert_eq!(l_once.get_lifetime_summary(), l_twice.get_lifetime_summary());
}

#[test]
fn result_text_at_a_given_location() {
    let r = AnalysisResult::OwnershipChange { name: "x".to_string(), new_status: OwnershipStatus::Moved, span: Span::call_site() };
    assert_eq!(r.to_string_at("line 3"), "[OWNERSHIP] x -> moved at line 3");
    let b = AnalysisResult::BorrowCreated(BorrowEvent { kind: BorrowKind::Immutable, name: "y".to_string(), span: Span::call_site() });
    assert_eq!(b.to_string_at(""), "[BORROW] & y at ");
}

#[test]
fn analyzable_checks_scope_levels() {
    let mut graph: VarGraph = DiGraph::new();
    graph.add_node(node("a", 3, false));
    assert!(rust_visualizer::analysis::analyzable(&graph));
    graph.add_node(node("b", usize::MAX, false));
    assert!(!rust_visualizer::analysis::analyzable(&graph));
}
