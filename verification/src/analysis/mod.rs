//! Ownership, borrow and lifetime analysis over the events that the parser
//! records, and the results that the renderers colour nodes by.

use vstd::prelude::*;
use vstd::string::*;
use proc_macro2::Span;
use crate::span::span_text;
use crate::analysis::order::{sort_by_name, sort_nodes_by_name, node_list_view, insert_by_name};
use crate::analysis::ownership::{OwnershipState, ownership_run, ownership_step, ownership_events_ok};
use crate::graph::variable_graph::{VarGraph, VarNode, VarNodeView, graph_nodes, node_views, graph_node,
    graph_node_count};
use crate::parser::events::{AnalysisEvent, EventKind, Variable};

pub mod ownership;
pub mod borrow;
pub mod lifetime;
pub mod order;

pub use ownership::OwnershipAnalyzer;
pub use borrow::BorrowAnalyzer;
pub use lifetime::LifetimeAnalyzer;

verus! {

/// Shared (`&`) or exclusive (`&mut`) borrow.
#[derive(Debug, Clone, Copy, PartialEq, Eq, Hash, Structural)]
pub enum BorrowKind {
    Immutable,
    Mutable,
}

/// Where a variable stands with respect to ownership.
#[derive(Debug, Clone, Copy, PartialEq, Eq, Hash, Structural)]
pub enum OwnershipStatus {
    Owned,
    Borrowed(BorrowKind),
    Moved,
    Dropped,
}

impl BorrowKind {
    /// The display text of the kind.
    pub open spec fn text(self) -> Seq<char> {
        match self {
            BorrowKind::Immutable => "&"@,
            BorrowKind::Mutable => "&mut"@,
        }
    }

    /// Display text: `&` or `&mut`.
    pub fn to_string(&self) -> (r: String)
        ensures
            r@ == self.text(),
    {
        match self {
            BorrowKind::Immutable => crate::text::string_of("&"),
            BorrowKind::Mutable => crate::text::string_of("&mut"),
        }
    }
}

impl OwnershipStatus {
    /// The display text of the status.
    pub open spec fn text(self) -> Seq<char> {
        match self {
            OwnershipStatus::Owned => "owned"@,
            OwnershipStatus::Borrowed(kind) => "borrowed ("@ + kind.text() + ")"@,
            OwnershipStatus::Moved => "moved"@,
            OwnershipStatus::Dropped => "dropped"@,
        }
    }

    /// Display text: `owned`, `borrowed (&)`, `borrowed (&mut)`, `moved` or `dropped`.
    pub fn to_string(&self) -> (r: String)
        ensures
            r@ == self.text(),
    {
        match self {
            OwnershipStatus::Owned => crate::text::string_of("owned"),
            OwnershipStatus::Borrowed(kind) => {
                let mut s = crate::text::string_of("borrowed (");
                let k = kind.to_string();
                s.append(k.as_str());
                s.append(")");
                s
            },
            OwnershipStatus::Moved => crate::text::string_of("moved"),
            OwnershipStatus::Dropped => crate::text::string_of("dropped"),
        }
    }
}

/// A borrow that the analysis saw being created.
#[derive(Debug)]
pub struct BorrowEvent {
    pub kind: BorrowKind,
    pub name: String,
    pub span: Span,
}

impl Clone for BorrowEvent {
    fn clone(&self) -> (r: Self)
        ensures
            r == *self,
    {
        BorrowEvent { kind: self.kind, name: self.name.clone(), span: self.span }
    }
}

/// One finding of an analysis.
#[derive(Debug)]
pub enum AnalysisResult {
    OwnershipChange { name: String, new_status: OwnershipStatus, span: Span },
    BorrowCreated(BorrowEvent),
}

impl Clone for AnalysisResult {
    fn clone(&self) -> (r: Self)
        ensures
            r == *self,
    {
        match self {
            AnalysisResult::OwnershipChange { name, new_status, span } => AnalysisResult::OwnershipChange {
                name: name.clone(),
                new_status: *new_status,
                span: *span,
            },
            AnalysisResult::BorrowCreated(event) => AnalysisResult::BorrowCreated(event.clone()),
        }
    }
}

/// An analysis result with its name as a character sequence.
pub enum ResultView {
    OwnershipChange { name: Seq<char>, new_status: OwnershipStatus, span: Span },
    BorrowCreated { kind: BorrowKind, name: Seq<char>, span: Span },
}

impl View for AnalysisResult {
    type V = ResultView;

    open spec fn view(&self) -> ResultView {
        match self {
            AnalysisResult::OwnershipChange { name, new_status, span } => ResultView::OwnershipChange {
                name: name@,
                new_status: *new_status,
                span: *span,
            },
            AnalysisResult::BorrowCreated(e) => ResultView::BorrowCreated {
                kind: e.kind,
                name: e.name@,
                span: e.span,
            },
        }
    }
}

/// The views of a list of results.
pub open spec fn results_view(rs: Seq<AnalysisResult>) -> Seq<ResultView> {
    rs.map_values(|r: AnalysisResult| r@)
}

/// Copies of all the results of a list.
pub fn clone_results(rs: &Vec<AnalysisResult>) -> (r: Vec<AnalysisResult>)
    ensures
        r@ == rs@,
{
    let mut r: Vec<AnalysisResult> = Vec::new();
    let mut i: usize = 0;
    while i < rs.len()
        invariant
            i <= rs@.len(),
            r@ == rs@.take(i as int),
        decreases rs@.len() - i,
    {
        r.push(rs[i].clone());
        i = i + 1;
    }
    assert(rs@.take(rs@.len() as int) =~= rs@);
    r
}

/// Display text of a result whose span formats as `location`.
pub open spec fn result_text(r: ResultView, location: Seq<char>) -> Seq<char> {
    match r {
        ResultView::OwnershipChange { name, new_status, .. } =>
            "[OWNERSHIP] "@ + name + " -> "@ + new_status.text() + " at "@ + location,
        ResultView::BorrowCreated { kind, name, .. } =>
            "[BORROW] "@ + kind.text() + " "@ + name + " at "@ + location,
    }
}

impl AnalysisResult {
    /// Display text with `location` as the place:
    /// `[OWNERSHIP] name -> status at location` or
    /// `[BORROW] kind name at location`.
    pub fn to_string_at(&self, location: &str) -> (r: String)
        ensures
            r@ == result_text(self@, location@),
    {
        match self {
            AnalysisResult::OwnershipChange { name, new_status, .. } => {
                let mut s = crate::text::string_of("[OWNERSHIP] ");
                s.append(name.as_str());
                s.append(" -> ");
                let st = new_status.to_string();
                s.append(st.as_str());
                s.append(" at ");
                s.append(location);
                assert(s@ =~= result_text(self@, location@));
                s
            },
            AnalysisResult::BorrowCreated(event) => {
                let mut s = crate::text::string_of("[BORROW] ");
                let k = event.kind.to_string();
                s.append(k.as_str());
                s.append(" ");
                s.append(event.name.as_str());
                s.append(" at ");
                s.append(location);
                assert(s@ =~= result_text(self@, location@));
                s
            },
        }
    }

    /// Display text: `[OWNERSHIP] name -> status at span` or
    /// `[BORROW] kind name at span`, the span in its `Debug` form.
    pub fn to_string(&self) -> (r: String)
        ensures
            exists|location: Seq<char>| r@ == result_text(self@, location),
    {
        let span = match self {
            AnalysisResult::OwnershipChange { span, .. } => span,
            AnalysisResult::BorrowCreated(event) => &event.span,
        };
        let location = span_text(span);
        self.to_string_at(location.as_str())
    }
}


/// `r` reports that `name` changed to `status`, whatever its span.
pub open spec fn is_change(r: ResultView, name: Seq<char>, status: OwnershipStatus) -> bool {
    match r {
        ResultView::OwnershipChange { name: n, new_status, .. } => n == name && new_status == status,
        _ => false,
    }
}

/// The results are ownership changes, one for each pair, with its name and
/// status, in order.
pub open spec fn changes_match(rs: Seq<ResultView>, cs: Seq<(Seq<char>, OwnershipStatus)>) -> bool {
    &&& rs.len() == cs.len()
    &&& forall|i: int| 0 <= i < rs.len() ==> is_change(#[trigger] rs[i], cs[i].0, cs[i].1)
}

/// Each name, in order, becoming owned.
pub open spec fn owned_changes(names: Seq<Seq<char>>) -> Seq<(Seq<char>, OwnershipStatus)> {
    names.map_values(|n: Seq<char>| (n, OwnershipStatus::Owned))
}

/// For each position `i` below `k` that is positive and divisible by 3, the
/// variable just before it moving away.
pub open spec fn moved_changes(s: Seq<VarNodeView>, k: nat) -> Seq<(Seq<char>, OwnershipStatus)>
    decreases k,
{
    if k == 0 {
        Seq::empty()
    } else {
        let i = (k - 1) as nat;
        let prev = moved_changes(s, i);
        if i > 0 && i % 3 == 0 {
            prev.push((s[i - 1].name, OwnershipStatus::Moved))
        } else {
            prev
        }
    }
}

/// What the whole-graph analysis reports for the variables in name order:
/// each becomes owned, in order, then each one whose successor's position is
/// positive and divisible by 3 moves away.
pub open spec fn sample_changes(s: Seq<VarNodeView>) -> Seq<(Seq<char>, OwnershipStatus)> {
    owned_changes(s.map_values(|n: VarNodeView| n.name)) + moved_changes(s, s.len())
}

/// The moves among the first `k` positions: one for each positive position
/// below `k` divisible by 3, the `j`-th naming the variable at `3 * j + 2`.
proof fn lemma_moved_changes(s: Seq<VarNodeView>, k: nat)
    requires
        k <= s.len(),
    ensures
        moved_changes(s, k).len() == (if k == 0 { 0 } else { (k - 1) as nat / 3 }),
        forall|j: int| 0 <= j < moved_changes(s, k).len()
            ==> #[trigger] moved_changes(s, k)[j] == (s[3 * j + 2].name, OwnershipStatus::Moved),
    decreases k,
{
    if k > 0 {
        let i = (k - 1) as nat;
        lemma_moved_changes(s, i);
        let prev = moved_changes(s, i);
        if i > 0 && i % 3 == 0 {
            assert(prev.len() + 1 == i / 3);
            assert(3 * (i / 3 - 1) + 2 == i - 1);
            assert forall|j: int| 0 <= j < moved_changes(s, k).len()
                implies #[trigger] moved_changes(s, k)[j] == (s[3 * j + 2].name, OwnershipStatus::Moved) by {
                if j < prev.len() {
                    assert(moved_changes(s, k)[j] == prev[j]);
                }
            }
        } else {
            assert(i == 0 || (i - 1) as nat / 3 == i / 3);
        }
    }
}

/// The whole-graph analysis of `n` variables in name order reports first each
/// variable becoming owned, in that order, and then `(n - 1) / 3` moves (none
/// when `n` is 0): for every position `i` with `0 < i < n`, the last one
/// included, and `i` divisible by 3, the variable at `i - 1` moves, and the
/// moves come in the order of those positions.
pub proof fn lemma_sample_changes(s: Seq<VarNodeView>)
    ensures
        sample_changes(s).len() == s.len() + (if s.len() == 0 { 0 } else { (s.len() - 1) as nat / 3 }),
        forall|i: int| 0 <= i < s.len() ==> sample_changes(s)[i] == ((#[trigger] s[i]).name, OwnershipStatus::Owned),
        forall|i: int| 0 <= i && i + 1 < s.len() && (i + 1) % 3 == 0
            ==> sample_changes(s)[s.len() + (i + 1) / 3 - 1] == ((#[trigger] s[i]).name, OwnershipStatus::Moved),
        forall|k: int| s.len() <= k < sample_changes(s).len() ==> (#[trigger] sample_changes(s)[k]).1 == OwnershipStatus::Moved,
{
    let n = s.len();
    lemma_moved_changes(s, n);
    let owned = owned_changes(s.map_values(|v: VarNodeView| v.name));
    let moved = moved_changes(s, n);
    assert(sample_changes(s) == owned + moved);
    assert forall|i: int| 0 <= i && i + 1 < s.len() && (i + 1) % 3 == 0
        implies sample_changes(s)[s.len() + (i + 1) / 3 - 1] == ((#[trigger] s[i]).name, OwnershipStatus::Moved) by {
        let j = (i + 1) / 3 - 1;
        assert(3 * j + 2 == i);
        assert(moved[j] == (s[3 * j + 2].name, OwnershipStatus::Moved));
    }
    assert forall|k: int| s.len() <= k < sample_changes(s).len() implies (#[trigger] sample_changes(s)[k]).1 == OwnershipStatus::Moved by {
        assert(moved[k - n] == (s[3 * (k - n) + 2].name, OwnershipStatus::Moved));
    }
}

/// The names defined by the events, in order.
spec fn defined_names(events: Seq<AnalysisEvent>) -> Seq<Seq<char>>
    decreases events.len(),
{
    if events.len() == 0 {
        Seq::empty()
    } else {
        match events.last().kind {
            EventKind::VarDefined(v) => defined_names(events.drop_last()).push(v.name@),
            _ => defined_names(events.drop_last()),
        }
    }
}

/// Every event defines a variable or creates a borrow.
spec fn defs_and_borrows(events: Seq<AnalysisEvent>) -> bool {
    forall|i: int| 0 <= i < events.len() ==> (#[trigger] events[i]).kind is VarDefined
        || events[i].kind is BorrowCreated
}

/// From no results, definitions and borrows report each defined name
/// becoming owned, in order, and nothing else.
proof fn lemma_run_defs(s: OwnershipState, events: Seq<AnalysisEvent>)
    requires
        s.results.len() == 0,
        defs_and_borrows(events),
    ensures
        changes_match(ownership_run(s, events).results, owned_changes(defined_names(events))),
    decreases events.len(),
{
    if events.len() > 0 {
        let prefix = events.drop_last();
        assert forall|i: int| 0 <= i < prefix.len() implies (#[trigger] prefix[i]).kind is VarDefined
            || prefix[i].kind is BorrowCreated by {
            assert(prefix[i] == events[i]);
        }
        lemma_run_defs(s, prefix);
        assert(events.last() == events[events.len() - 1]);
        let before = ownership_run(s, prefix);
        match events.last().kind {
            EventKind::VarDefined(v) => {
                assert(owned_changes(defined_names(events)) =~= owned_changes(defined_names(prefix)).push(
                    (v.name@, OwnershipStatus::Owned)));
            },
            _ => {},
        }
    }
}

/// The names of a list of variables.
spec fn names_of_nodes(s: Seq<VarNodeView>) -> Seq<Seq<char>> {
    s.map_values(|n: VarNodeView| n.name)
}

/// Every variable placed by name is one of the list's.
proof fn lemma_insert_members(s: Seq<VarNodeView>, x: VarNodeView)
    ensures
        insert_by_name(s, x).len() == s.len() + 1,
        forall|i: int| 0 <= i < insert_by_name(s, x).len() ==> #[trigger] insert_by_name(s, x)[i] == x
            || s.contains(insert_by_name(s, x)[i]),
    decreases s.len(),
{
    if s.len() > 0 {
        lemma_insert_members(s.drop_last(), x);
        let r = insert_by_name(s, x);
        assert forall|i: int| 0 <= i < r.len() implies #[trigger] r[i] == x || s.contains(r[i]) by {
            if i < r.len() - 1 && crate::analysis::order::name_less(x.name, s.last().name) {
                let t = insert_by_name(s.drop_last(), x);
                assert(r[i] == t[i]);
                if t[i] != x {
                    let j = choose|j: int| 0 <= j < s.drop_last().len() && s.drop_last()[j] == t[i];
                    assert(s[j] == t[i]);
                }
            } else if i < r.len() - 1 {
                assert(r[i] == s[i]);
            } else if crate::analysis::order::name_less(x.name, s.last().name) {
                assert(r[i] == s[s.len() - 1]);
            }
        }
    }
}

/// Sorting by name keeps the length and takes every variable from the list.
pub proof fn lemma_sort_members(s: Seq<VarNodeView>)
    ensures
        sort_by_name(s).len() == s.len(),
        forall|i: int| 0 <= i < s.len() ==> s.contains(#[trigger] sort_by_name(s)[i]),
    decreases s.len(),
{
    if s.len() > 0 {
        let prev = sort_by_name(s.drop_last());
        lemma_sort_members(s.drop_last());
        lemma_insert_members(prev, s.last());
        assert forall|i: int| 0 <= i < s.len() implies s.contains(#[trigger] sort_by_name(s)[i]) by {
            let y = sort_by_name(s)[i];
            if y == s.last() {
                assert(s[s.len() - 1] == y);
            } else {
                let j = choose|j: int| 0 <= j < prev.len() && prev[j] == y;
                assert(s.drop_last().contains(prev[j]));
                let k = choose|k: int| 0 <= k < s.drop_last().len() && s.drop_last()[k] == y;
                assert(s[k] == y);
            }
        }
    }
}

/// Analyses the whole graph as a sample: the variables in name order each
/// become owned, every second one from the third on is borrowed after its
/// predecessor's definition, each mutable one is borrowed mutably after its
/// own, and then each one whose successor's position is positive and
/// divisible by 3 moves away. The results' spans are those of the call site.
pub fn analyze(graph: &VarGraph) -> (r: Vec<AnalysisResult>)
    requires
        forall|i: int| 0 <= i < graph_nodes(*graph).len() ==> (#[trigger] graph_nodes(*graph)[i]).scope_level < usize::MAX,
    ensures
        changes_match(results_view(r@), sample_changes(sort_by_name(node_views(*graph)))),
{
    let ghost gv = node_views(*graph);
    let n = graph_node_count(graph);
    let mut all: Vec<VarNode> = Vec::new();
    let mut i: usize = 0;
    while i < n
        invariant
            gv == node_views(*graph),
            n == gv.len(),
            i <= n,
            node_list_view(all@) == gv.take(i as int),
        decreases n - i,
    {
        let node = graph_node(graph, i);
        assert(gv[i as int] == node@);
        let c = node.clone();
        let ghost before = all@;
        all.push(c);
        assert(node_list_view(all@) =~= node_list_view(before).push(c@));
        assert(gv.take(i + 1) =~= gv.take(i as int).push(gv[i as int]));
        i = i + 1;
    }
    assert(gv.take(n as int) =~= gv);
    let nodes = sort_nodes_by_name(all);
    let ghost sv = sort_by_name(gv);
    proof {
        lemma_sort_members(gv);
        assert forall|k: int| 0 <= k < sv.len() implies (#[trigger] sv[k]).scope_level < usize::MAX by {
            let j = choose|j: int| 0 <= j < gv.len() && gv[j] == sv[k];
            assert(graph_nodes(*graph)[j]@ == gv[j]);
        }
    }

    let mut events: Vec<AnalysisEvent> = Vec::new();
    let mut i: usize = 0;
    while i < nodes.len()
        invariant
            node_list_view(nodes@) == sv,
            forall|k: int| 0 <= k < sv.len() ==> (#[trigger] sv[k]).scope_level < usize::MAX,
            i <= nodes@.len(),
            defs_and_borrows(events@),
            ownership_events_ok(events@),
            defined_names(events@) == names_of_nodes(sv.take(i as int)),
        decreases nodes@.len() - i,
    {
        let ghost e0 = events@;
        assert(sv[i as int] == nodes@[i as int]@);
        let node = &nodes[i];
        events.push(AnalysisEvent {
            span: proc_macro2::Span::call_site(),
            kind: EventKind::VarDefined(Variable {
                name: node.name.clone(),
                span: proc_macro2::Span::call_site(),
                is_mutable: node.is_mutable,
                scope_level: node.scope_level,
            }),
        });
        assert(events@.drop_last() == e0);
        assert(defined_names(events@) == defined_names(e0).push(node.name@));
        if i > 0 && i % 2 == 0 {
            let ghost e1 = events@;
            events.push(AnalysisEvent {
                span: proc_macro2::Span::call_site(),
                kind: EventKind::BorrowCreated {
                    name: nodes[i - 1].name.clone(),
                    kind: BorrowKind::Immutable,
                    scope_level: nodes[i - 1].scope_level,
                },
            });
            assert(events@.drop_last() == e1);
            assert(defined_names(events@) == defined_names(e1));
        }
        if node.is_mutable {
            let ghost e2 = events@;
            events.push(AnalysisEvent {
                span: proc_macro2::Span::call_site(),
                kind: EventKind::BorrowCreated {
                    name: node.name.clone(),
                    kind: BorrowKind::Mutable,
                    scope_level: node.scope_level,
                },
            });
            assert(events@.drop_last() == e2);
            assert(defined_names(events@) == defined_names(e2));
        }
        assert(names_of_nodes(sv.take(i + 1)) =~= names_of_nodes(sv.take(i as int)).push(node.name@));
        i = i + 1;
    }
    assert(sv.take(sv.len() as int) =~= sv);

    let mut analyzer = OwnershipAnalyzer::new();
    let ghost s0 = analyzer@;
    let ownership_results = analyzer.analyze(events.as_slice());
    proof {
        lemma_run_defs(s0, events@);
    }
    let mut results: Vec<AnalysisResult> = Vec::new();
    let mut j: usize = 0;
    while j < ownership_results.len()
        invariant
            j <= ownership_results@.len(),
            results@ == ownership_results@.take(j as int),
        decreases ownership_results@.len() - j,
    {
        results.push(ownership_results[j].clone());
        assert(results@ =~= ownership_results@.take(j + 1));
        j = j + 1;
    }
    assert(ownership_results@.take(ownership_results@.len() as int) =~= ownership_results@);
    let ghost owned = owned_changes(names_of_nodes(sv));
    assert(changes_match(results_view(results@), owned + moved_changes(sv, 0))) by {
        assert(owned + moved_changes(sv, 0) =~= owned);
    }

    let mut i: usize = 0;
    while i < nodes.len()
        invariant
            node_list_view(nodes@) == sv,
            i <= nodes@.len(),
            changes_match(results_view(results@), owned + moved_changes(sv, i as nat)),
        decreases nodes@.len() - i,
    {
        if i > 0 && i % 3 == 0 {
            assert(sv[i - 1] == nodes@[i - 1]@);
            let ghost before = results_view(results@);
            results.push(AnalysisResult::OwnershipChange {
                name: nodes[i - 1].name.clone(),
                new_status: OwnershipStatus::Moved,
                span: proc_macro2::Span::call_site(),
            });
            assert(results_view(results@) =~= before.push(results@.last()@));
            assert(owned + moved_changes(sv, (i + 1) as nat) =~= (owned + moved_changes(sv, i as nat)).push(
                (sv[i - 1].name, OwnershipStatus::Moved)));
        }
        i = i + 1;
    }
    assert(owned + moved_changes(sv, sv.len()) =~= sample_changes(sv));
    results
}


/// Whether the whole-graph analysis can take the graph: every scope level
/// leaves room for one more scope.
pub fn analyzable(graph: &VarGraph) -> (r: bool)
    ensures
        r == (forall|i: int| 0 <= i < graph_nodes(*graph).len() ==> (#[trigger] graph_nodes(*graph)[i]).scope_level < usize::MAX),
{
    let n = graph_node_count(graph);
    let mut i: usize = 0;
    while i < n
        invariant
            n == graph_nodes(*graph).len(),
            i <= n,
            forall|j: int| 0 <= j < i ==> (#[trigger] graph_nodes(*graph)[j]).scope_level < usize::MAX,
        decreases n - i,
    {
        if graph_node(graph, i).scope_level == usize::MAX {
            return false;
        }
        i = i + 1;
    }
    true
}

} // verus!
