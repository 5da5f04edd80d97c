//! The variable graph: one node per variable (a name in a scope), built from
//! the parser's events, held in a `petgraph` directed graph.

use vstd::prelude::*;
use vstd::string::*;
use crate::parser::events::{AnalysisEvent, EventKind, Variable};
use crate::text::{push_usize, decimal};

verus! {

/// A variable of the graph.
#[derive(Debug, PartialEq)]
pub struct VarNode {
    pub name: String,
    pub is_mutable: bool,
    pub scope_level: usize,
    pub defined: bool,
    pub used: bool,
}

impl Clone for VarNode {
    fn clone(&self) -> (r: Self)
        ensures
            r == *self,
    {
        VarNode {
            name: self.name.clone(),
            is_mutable: self.is_mutable,
            scope_level: self.scope_level,
            defined: self.defined,
            used: self.used,
        }
    }
}

/// A variable of the graph, its name as characters.
pub struct VarNodeView {
    pub name: Seq<char>,
    pub is_mutable: bool,
    pub scope_level: usize,
    pub defined: bool,
    pub used: bool,
}

impl View for VarNode {
    type V = VarNodeView;

    open spec fn view(&self) -> VarNodeView {
        VarNodeView {
            name: self.name@,
            is_mutable: self.is_mutable,
            scope_level: self.scope_level,
            defined: self.defined,
            used: self.used,
        }
    }
}

/// `petgraph::graph::Graph`, opaque to the library: its nodes and edges are
/// read through `graph_nodes` and `graph_edges`.
#[verifier::external_type_specification]
#[verifier::external_body]
#[verifier::reject_recursive_types(N)]
#[verifier::reject_recursive_types(E)]
#[verifier::reject_recursive_types(Ty)]
#[verifier::reject_recursive_types(Ix)]
pub struct ExGraph<N, E, Ty, Ix>(petgraph::graph::Graph<N, E, Ty, Ix>);

/// `petgraph::Directed`, the edge type of directed graphs.
#[verifier::external_type_specification]
#[verifier::external_body]
pub struct ExDirected(petgraph::Directed);

/// The variable graph: a directed graph of variables.
pub type VarGraph = petgraph::graph::Graph<VarNode, (), petgraph::Directed, u32>;

/// The node weights of a variable graph, in node-index order.
pub uninterp spec fn graph_nodes(g: VarGraph) -> Seq<VarNode>;

/// The edges of a variable graph, in edge-index order, each as the indices
/// of its source and target nodes.
pub uninterp spec fn graph_edges(g: VarGraph) -> Seq<(nat, nat)>;

/// The views of the nodes of a graph.
pub open spec fn node_views(g: VarGraph) -> Seq<VarNodeView> {
    graph_nodes(g).map_values(|n: VarNode| n@)
}

/// `petgraph::graph::Graph::new`: a graph with no nodes and no edges.
#[verifier::external_body]
pub(crate) fn graph_new() -> (g: VarGraph)
    ensures
        graph_nodes(g) == Seq::<VarNode>::empty(),
        graph_edges(g) == Seq::<(nat, nat)>::empty(),
{
    petgraph::graph::Graph::new()
}

/// `Graph::node_count`: the number of nodes. `Graph::add_node` refuses to go
/// past `u32::MAX` nodes with `u32` indices, so the count never exceeds it.
#[verifier::external_body]
pub(crate) fn graph_node_count(g: &VarGraph) -> (r: usize)
    ensures
        r == graph_nodes(*g).len(),
        r <= u32::MAX,
{
    g.node_count()
}

/// `Graph::edge_count`: the number of edges. As for nodes, `u32` indices cap
/// it at `u32::MAX`.
#[verifier::external_body]
pub(crate) fn graph_edge_count(g: &VarGraph) -> (r: usize)
    ensures
        r == graph_edges(*g).len(),
        r <= u32::MAX,
{
    g.edge_count()
}

/// `Graph`'s `Index<NodeIndex>`: the weight of node `i`.
#[verifier::external_body]
pub(crate) fn graph_node(g: &VarGraph, i: usize) -> (r: &VarNode)
    requires
        i < graph_nodes(*g).len(),
    ensures
        *r == graph_nodes(*g)[i as int],
{
    &g[petgraph::graph::NodeIndex::new(i)]
}

/// `Graph::edge_endpoints`: the source and target of edge `i`. `add_edge`
/// refuses endpoints that are not nodes of the graph, so both are node indices.
#[verifier::external_body]
pub(crate) fn graph_edge_endpoints(g: &VarGraph, i: usize) -> (r: (usize, usize))
    requires
        i < graph_edges(*g).len(),
    ensures
        (r.0 as nat, r.1 as nat) == graph_edges(*g)[i as int],
        r.0 < graph_nodes(*g).len(),
        r.1 < graph_nodes(*g).len(),
{
    let (a, b) = g.edge_endpoints(petgraph::graph::EdgeIndex::new(i)).unwrap();
    (a.index(), b.index())
}

/// `Graph::add_node`: adds a node after the others and returns its index.
/// It panics when the graph already holds `u32::MAX` nodes.
#[verifier::external_body]
pub(crate) fn graph_add_node(g: &mut VarGraph, w: VarNode) -> (r: usize)
    requires
        graph_nodes(*old(g)).len() < u32::MAX,
    ensures
        graph_nodes(*final(g)) == graph_nodes(*old(g)).push(w),
        graph_edges(*final(g)) == graph_edges(*old(g)),
        r == graph_nodes(*old(g)).len(),
{
    g.add_node(w).index()
}

/// `Graph`'s `IndexMut<NodeIndex>`: replaces the weight of node `i`.
#[verifier::external_body]
pub(crate) fn graph_set_node(g: &mut VarGraph, i: usize, w: VarNode)
    requires
        i < graph_nodes(*old(g)).len(),
    ensures
        graph_nodes(*final(g)) == graph_nodes(*old(g)).update(i as int, w),
        graph_edges(*final(g)) == graph_edges(*old(g)),
{
    g[petgraph::graph::NodeIndex::new(i)] = w;
}

/// Position of the variable `name` of scope `level` among the nodes, or -1.
pub open spec fn node_pos(nodes: Seq<VarNodeView>, name: Seq<char>, level: int) -> int
    decreases nodes.len(),
{
    if nodes.len() == 0 {
        -1
    } else {
        let p = node_pos(nodes.drop_last(), name, level);
        if p >= 0 {
            p
        } else if nodes.last().name == name && nodes.last().scope_level == level {
            nodes.len() - 1
        } else {
            -1
        }
    }
}

/// What `node_pos` says: -1 exactly when no variable has the name and
/// level, else the position of one that has.
pub proof fn lemma_node_pos(nodes: Seq<VarNodeView>, name: Seq<char>, level: int)
    ensures
        -1 <= node_pos(nodes, name, level) < nodes.len(),
        node_pos(nodes, name, level) == -1 <==> (forall|i: int|
            0 <= i < nodes.len() ==> !(nodes[i].name == name && nodes[i].scope_level == level)),
        node_pos(nodes, name, level) >= 0 ==> nodes[node_pos(nodes, name, level)].name == name
            && nodes[node_pos(nodes, name, level)].scope_level == level,
    decreases nodes.len(),
{
    if nodes.len() > 0 {
        lemma_node_pos(nodes.drop_last(), name, level);
        assert forall|i: int| 0 <= i < nodes.len() - 1 implies nodes.drop_last()[i] == nodes[i] by {}
    }
}

/// The nodes after a definition: a variable not yet in the graph is added,
/// defined and unused.
pub open spec fn add_variable_spec(nodes: Seq<VarNodeView>, v: Variable) -> Seq<VarNodeView> {
    if node_pos(nodes, v.name@, v.scope_level as int) >= 0 {
        nodes
    } else {
        nodes.push(VarNodeView {
            name: v.name@,
            is_mutable: v.is_mutable,
            scope_level: v.scope_level,
            defined: true,
            used: false,
        })
    }
}

/// The node marked used.
pub open spec fn mark_used(n: VarNodeView) -> VarNodeView {
    VarNodeView { used: true, ..n }
}

/// The nodes after a use of `name` at `level`: the variable of that scope,
/// or else of the scope just outside it, is marked used.
pub open spec fn record_use_spec(nodes: Seq<VarNodeView>, name: Seq<char>, level: int) -> Seq<VarNodeView> {
    let p = node_pos(nodes, name, level);
    if p >= 0 {
        nodes.update(p, mark_used(nodes[p]))
    } else {
        let q = node_pos(nodes, name, level - 1);
        if q >= 0 {
            nodes.update(q, mark_used(nodes[q]))
        } else {
            nodes
        }
    }
}

/// The effect of one event on the nodes.
pub open spec fn build_step(nodes: Seq<VarNodeView>, e: AnalysisEvent) -> Seq<VarNodeView> {
    match e.kind {
        EventKind::VarDefined(v) => add_variable_spec(nodes, v),
        EventKind::VarUsed { name, scope_level } => record_use_spec(nodes, name@, scope_level as int),
        _ => nodes,
    }
}

/// The nodes built from a sequence of events.
pub open spec fn build_run(nodes: Seq<VarNodeView>, events: Seq<AnalysisEvent>) -> Seq<VarNodeView>
    decreases events.len(),
{
    if events.len() == 0 {
        nodes
    } else {
        build_step(build_run(nodes, events.drop_last()), events.last())
    }
}

/// A use at the outermost scope of a variable that is not defined there:
/// the builder would look one scope further out, below zero.
pub open spec fn use_below_zero(nodes: Seq<VarNodeView>, e: AnalysisEvent) -> bool {
    match e.kind {
        EventKind::VarUsed { name, scope_level } => scope_level == 0 && node_pos(nodes, name@, 0) < 0,
        _ => false,
    }
}

/// No event is a use below the outermost scope, given the events before it.
pub open spec fn buildable(events: Seq<AnalysisEvent>) -> bool {
    forall|i: int| 0 <= i < events.len() ==> !use_below_zero(build_run(Seq::empty(), events.take(i)), #[trigger] events[i])
}

/// The defined variables that were never used, in node order.
pub open spec fn unused_nodes(nodes: Seq<VarNodeView>) -> Seq<VarNodeView>
    decreases nodes.len(),
{
    if nodes.len() == 0 {
        Seq::empty()
    } else {
        let rest = unused_nodes(nodes.drop_last());
        if nodes.last().defined && !nodes.last().used { rest.push(nodes.last()) } else { rest }
    }
}

/// The number of used variables.
pub open spec fn used_count(nodes: Seq<VarNodeView>) -> nat
    decreases nodes.len(),
{
    if nodes.len() == 0 {
        0
    } else {
        used_count(nodes.drop_last()) + if nodes.last().used { 1nat } else { 0nat }
    }
}

/// One line per unused variable: `  - name (scope: n)`.
pub open spec fn unused_lines(nodes: Seq<VarNodeView>) -> Seq<char>
    decreases nodes.len(),
{
    if nodes.len() == 0 {
        Seq::empty()
    } else {
        unused_lines(nodes.drop_last()) + "  - "@ + nodes.last().name + " (scope: "@
            + decimal(nodes.last().scope_level as nat) + ")\n"@
    }
}

/// The summary report: totals, then the unused variables if there are any.
pub open spec fn summary_text(nodes: Seq<VarNodeView>) -> Seq<char> {
    let unused = unused_nodes(nodes);
    "=== Variable Analysis Summary ===\n"@
        + "Total variables: "@ + decimal(nodes.len()) + "\n"@
        + "Used variables: "@ + decimal(used_count(nodes)) + "\n"@
        + "Unused variables: "@ + decimal(unused.len()) + "\n"@
        + "\n"@
        + (if unused.len() > 0 { "Unused variables:\n"@ + unused_lines(unused) } else { Seq::empty() })
}

/// Every variable is one that a definition added.
pub open spec fn all_defined(nodes: Seq<VarNodeView>) -> bool {
    forall|i: int| 0 <= i < nodes.len() ==> (#[trigger] nodes[i]).defined
}

/// Of variables that were all defined, the used and the unused ones are
/// all of them.
pub proof fn lemma_defined_counts(nodes: Seq<VarNodeView>)
    requires
        all_defined(nodes),
    ensures
        used_count(nodes) + unused_nodes(nodes).len() == nodes.len(),
    decreases nodes.len(),
{
    if nodes.len() > 0 {
        assert(nodes[nodes.len() - 1].defined);
        assert forall|i: int| 0 <= i < nodes.drop_last().len() implies (#[trigger] nodes.drop_last()[i]).defined by {
            assert(nodes.drop_last()[i] == nodes[i]);
        }
        lemma_defined_counts(nodes.drop_last());
    }
}

/// Builds the variable graph from the parser's events.
pub struct GraphBuilder {
    graph: VarGraph,
}

impl GraphBuilder {
    /// Every node of the graph was added by a definition.
    #[verifier::type_invariant]
    spec fn nodes_defined(&self) -> bool {
        all_defined(node_views(self.graph))
    }

    /// The nodes of the graph being built.
    pub closed spec fn nodes(&self) -> Seq<VarNodeView> {
        node_views(self.graph)
    }

    /// The edges of the graph being built.
    pub closed spec fn edges(&self) -> Seq<(nat, nat)> {
        graph_edges(self.graph)
    }

    /// A builder with an empty graph.
    pub fn new() -> (r: Self)
        ensures
            r.nodes() == Seq::<VarNodeView>::empty(),
            r.edges() == Seq::<(nat, nat)>::empty(),
    {
        let g = graph_new();
        let r = GraphBuilder { graph: g };
        assert(r.nodes() =~= Seq::<VarNodeView>::empty());
        r
    }

    /// The graph built from the events: a node for each variable defined
    /// (a name in a scope, first definition wins), marked used when the
    /// variable is used in its scope or in the scope just inside it.
    pub fn build_from_events(events: &[AnalysisEvent]) -> (r: Self)
        requires
            buildable(events@),
            events@.len() < u32::MAX,
        ensures
            r.nodes() == build_run(Seq::empty(), events@),
            r.edges() == Seq::<(nat, nat)>::empty(),
            all_defined(r.nodes()),
    {
        let mut builder = Self::new();
        let mut i: usize = 0;
        while i < events.len()
            invariant
                i <= events@.len(),
                events@.len() < u32::MAX,
                buildable(events@),
                builder.nodes() == build_run(Seq::empty(), events@.take(i as int)),
                builder.nodes().len() <= i,
                builder.edges() == Seq::<(nat, nat)>::empty(),
            decreases events@.len() - i,
        {
            assert(events@.take(i + 1).drop_last() =~= events@.take(i as int));
            assert(!use_below_zero(build_run(Seq::empty(), events@.take(i as int)), events@[i as int]));
            builder.step(&events[i]);
            i = i + 1;
        }
        assert(events@.take(events@.len() as int) =~= events@);
        proof {
            use_type_invariant(&builder);
        }
        builder
    }

    /// Applies one event; `false` when the event is a use below the
    /// outermost scope, which the builder does not take.
    fn step(&mut self, event: &AnalysisEvent)
        requires
            !use_below_zero(old(self).nodes(), *event),
            old(self).nodes().len() < u32::MAX,
        ensures
            final(self).nodes() == build_step(old(self).nodes(), *event),
            final(self).nodes().len() <= old(self).nodes().len() + 1,
            final(self).edges() == old(self).edges(),
    {
        match &event.kind {
            EventKind::VarDefined(var) => {
                self.add_variable(var);
            },
            EventKind::VarUsed { name, scope_level } => {
                proof {
                    lemma_node_pos(self.nodes(), name@, *scope_level as int);
                    lemma_node_pos(self.nodes(), name@, *scope_level as int - 1);
                }
                self.record_use(name, *scope_level);
            },
            _ => {},
        }
    }

    /// Whether every event can be taken: no use at the outermost scope of a
    /// variable that is not defined there.
    #[verifier::rlimit(30)]
    pub fn events_buildable(events: &[AnalysisEvent]) -> (r: bool)
        requires
            events@.len() < u32::MAX,
        ensures
            r == buildable(events@),
    {
        let mut builder = Self::new();
        let mut i: usize = 0;
        while i < events.len()
            invariant
                i <= events@.len(),
                events@.len() < u32::MAX,
                builder.nodes() == build_run(Seq::empty(), events@.take(i as int)),
                builder.nodes().len() <= i,
                forall|j: int| 0 <= j < i ==> !use_below_zero(build_run(Seq::empty(), events@.take(j)), #[trigger] events@[j]),
            decreases events@.len() - i,
        {
            assert(events@.take(i + 1).drop_last() =~= events@.take(i as int));
            let below = match &events[i].kind {
                EventKind::VarUsed { name, scope_level } => *scope_level == 0 && builder.find(name, 0).is_none(),
                _ => false,
            };
            assert(below == use_below_zero(builder.nodes(), events@[i as int]));
            if below {
                proof {
                    assert(!buildable(events@)) by {
                        assert(use_below_zero(build_run(Seq::empty(), events@.take(i as int)), events@[i as int]));
                    }
                }
                return false;
            }
            builder.step(&events[i]);
            i = i + 1;
        }
        true
    }

    /// Position of the node of `name` in scope `level`.
    fn find(&self, name: &String, level: usize) -> (r: Option<usize>)
        ensures
            match r {
                Some(p) => p as int == node_pos(self.nodes(), name@, level as int),
                None => node_pos(self.nodes(), name@, level as int) == -1,
            },
    {
        let ghost nodes = self.nodes();
        proof {
            lemma_node_pos(nodes, name@, level as int);
        }
        let n = graph_node_count(&self.graph);
        let mut i: usize = 0;
        while i < n
            invariant
                nodes == self.nodes(),
                n == nodes.len(),
                i <= n,
                forall|j: int| 0 <= j < i ==> !(nodes[j].name == name@ && nodes[j].scope_level == level),
                -1 <= node_pos(nodes, name@, level as int) < nodes.len(),
                node_pos(nodes, name@, level as int) == -1 <==> (forall|j: int|
                    0 <= j < nodes.len() ==> !(nodes[j].name == name@ && nodes[j].scope_level == level)),
                node_pos(nodes, name@, level as int) >= 0 ==> nodes[node_pos(nodes, name@, level as int)].name == name@
                    && nodes[node_pos(nodes, name@, level as int)].scope_level == level,
            decreases n - i,
        {
            let node = graph_node(&self.graph, i);
            if node.name == *name && node.scope_level == level {
                proof {
                    assert(nodes[i as int] == node@);
                    if node_pos(nodes, name@, level as int) != i as int {
                        assert(node_pos(nodes, name@, level as int) >= 0);
                        first_match(nodes, name@, level as int, i as int);
                    }
                }
                return Some(i);
            }
            assert(nodes[i as int] == node@);
            i = i + 1;
        }
        None
    }

    fn add_variable(&mut self, var: &Variable)
        requires
            old(self).nodes().len() < u32::MAX,
        ensures
            final(self).nodes() == add_variable_spec(old(self).nodes(), *var),
            final(self).edges() == old(self).edges(),
    {
        if self.find(&var.name, var.scope_level).is_some() {
            return;
        }
        let node = VarNode {
            name: var.name.clone(),
            is_mutable: var.is_mutable,
            scope_level: var.scope_level,
            defined: true,
            used: false,
        };
        proof {
            use_type_invariant(&*self);
        }
        let ghost before = self.nodes();
        let mut graph = graph_new();
        std::mem::swap(&mut graph, &mut self.graph);
        let _idx = graph_add_node(&mut graph, node);
        assert(node_views(graph) =~= before.push(node@));
        self.graph = graph;
    }

    fn record_use(&mut self, name: &String, scope_level: usize)
        requires
            !(scope_level == 0 && node_pos(old(self).nodes(), name@, 0) < 0),
        ensures
            final(self).nodes() == record_use_spec(old(self).nodes(), name@, scope_level as int),
            final(self).edges() == old(self).edges(),
    {
        proof {
            lemma_node_pos(self.nodes(), name@, scope_level as int);
            lemma_node_pos(self.nodes(), name@, scope_level as int - 1);
        }
        match self.find(name, scope_level) {
            Some(idx) => {
                self.mark(idx);
            },
            None => {
                let parent_scope = scope_level - 1;
                match self.find(name, parent_scope) {
                    Some(idx) => {
                        self.mark(idx);
                    },
                    None => {},
                }
            },
        }
    }

    fn mark(&mut self, idx: usize)
        requires
            idx < old(self).nodes().len(),
        ensures
            final(self).nodes() == old(self).nodes().update(idx as int, mark_used(old(self).nodes()[idx as int])),
            final(self).edges() == old(self).edges(),
    {
        proof {
            use_type_invariant(&*self);
        }
        let ghost before = self.nodes();
        let node = graph_node(&self.graph, idx);
        assert(before[idx as int] == node@);
        let updated = VarNode {
            name: node.name.clone(),
            is_mutable: node.is_mutable,
            scope_level: node.scope_level,
            defined: node.defined,
            used: true,
        };
        let mut graph = graph_new();
        std::mem::swap(&mut graph, &mut self.graph);
        graph_set_node(&mut graph, idx, updated);
        assert(node_views(graph) =~= before.update(idx as int, mark_used(before[idx as int])));
        self.graph = graph;
    }

    /// The defined variables that were never used, in node order.
    pub fn find_unused_variables(&self) -> (r: Vec<&VarNode>)
        ensures
            r@.map_values(|n: &VarNode| n@) == unused_nodes(self.nodes()),
            all_defined(self.nodes()),
            r@.len() + used_count(self.nodes()) == self.nodes().len(),
    {
        proof {
            use_type_invariant(self);
            lemma_defined_counts(self.nodes());
        }
        let ghost nodes = self.nodes();
        let mut r: Vec<&VarNode> = Vec::new();
        let n = graph_node_count(&self.graph);
        let mut i: usize = 0;
        while i < n
            invariant
                nodes == self.nodes(),
                n == nodes.len(),
                i <= n,
                r@.map_values(|n: &VarNode| n@) == unused_nodes(nodes.take(i as int)),
            decreases n - i,
        {
            assert(nodes.take(i + 1).drop_last() =~= nodes.take(i as int));
            let node = graph_node(&self.graph, i);
            assert(nodes.take(i + 1).last() == node@);
            if node.defined && !node.used {
                let ghost before = r@;
                r.push(node);
                assert(r@.map_values(|n: &VarNode| n@) =~= before.map_values(|n: &VarNode| n@).push(node@));
            }
            i = i + 1;
        }
        assert(nodes.take(n as int) =~= nodes);
        r
    }

    /// The number of used variables.
    fn count_used(&self) -> (r: usize)
        ensures
            r as nat == used_count(self.nodes()),
    {
        let ghost nodes = self.nodes();
        let n = graph_node_count(&self.graph);
        let mut c: usize = 0;
        let mut i: usize = 0;
        while i < n
            invariant
                nodes == self.nodes(),
                n == nodes.len(),
                i <= n,
                c <= i,
                c as nat == used_count(nodes.take(i as int)),
            decreases n - i,
        {
            assert(nodes.take(i + 1).drop_last() =~= nodes.take(i as int));
            let node = graph_node(&self.graph, i);
            assert(nodes.take(i + 1).last() == node@);
            if node.used {
                c = c + 1;
            }
            i = i + 1;
        }
        assert(nodes.take(n as int) =~= nodes);
        c
    }

    /// The summary that `print_summary` prints: the number of variables, of
    /// used ones and of unused ones, then the unused ones with their scopes.
    pub fn summary_report(&self) -> (r: String)
        ensures
            r@ == summary_text(self.nodes()),
            used_count(self.nodes()) + unused_nodes(self.nodes()).len() == self.nodes().len(),
    {
        proof {
            use_type_invariant(self);
            lemma_defined_counts(self.nodes());
        }
        let total = graph_node_count(&self.graph);
        let used = self.count_used();
        let unused = self.find_unused_variables();
        let ghost uv = unused@.map_values(|n: &VarNode| n@);
        let mut s = crate::text::string_of("=== Variable Analysis Summary ===\n");
        s.append("Total variables: ");
        push_usize(&mut s, total);
        s.append("\n");
        s.append("Used variables: ");
        push_usize(&mut s, used);
        s.append("\n");
        s.append("Unused variables: ");
        push_usize(&mut s, unused.len());
        s.append("\n");
        s.append("\n");
        let ghost head = s@;
        if unused.len() > 0 {
            s.append("Unused variables:\n");
            let mut i: usize = 0;
            while i < unused.len()
                invariant
                    uv == unused@.map_values(|n: &VarNode| n@),
                    i <= unused@.len(),
                    s@ == head + "Unused variables:\n"@ + unused_lines(uv.take(i as int)),
                decreases unused@.len() - i,
            {
                assert(uv.take(i + 1).drop_last() =~= uv.take(i as int));
                s.append("  - ");
                s.append(unused[i].name.as_str());
                s.append(" (scope: ");
                push_usize(&mut s, unused[i].scope_level);
                s.append(")\n");
                i = i + 1;
            }
            assert(uv.take(unused@.len() as int) =~= uv);
        }
        assert(s@ =~= summary_text(self.nodes()));
        s
    }

    /// The graph that was built.
    pub fn into_graph(self) -> (r: VarGraph)
        ensures
            node_views(r) == self.nodes(),
            graph_edges(r) == self.edges(),
    {
        self.graph
    }
}

proof fn first_match(nodes: Seq<VarNodeView>, name: Seq<char>, level: int, i: int)
    requires
        0 <= i < nodes.len(),
        nodes[i].name == name,
        nodes[i].scope_level == level,
        forall|j: int| 0 <= j < i ==> !(nodes[j].name == name && nodes[j].scope_level == level),
    ensures
        node_pos(nodes, name, level) == i,
    decreases nodes.len(),
{
    if i < nodes.len() - 1 {
        first_match(nodes.drop_last(), name, level, i);
    } else {
        lemma_node_pos(nodes.drop_last(), name, level);
    }
}


/// No two variables share a name and a scope level.
pub open spec fn nodes_distinct(nodes: Seq<VarNodeView>) -> bool {
    forall|i: int, j: int| 0 <= i < j < nodes.len() ==> !(#[trigger] nodes[i].name == #[trigger] nodes[j].name
        && nodes[i].scope_level == nodes[j].scope_level)
}

/// One event keeps variables distinct by name and level, and never
/// removes a variable or changes its name, mutability or level.
proof fn lemma_build_step(nodes: Seq<VarNodeView>, e: AnalysisEvent)
    requires
        nodes_distinct(nodes),
    ensures
        nodes_distinct(build_step(nodes, e)),
        build_step(nodes, e).len() >= nodes.len(),
        forall|i: int| 0 <= i < nodes.len() ==> (#[trigger] build_step(nodes, e)[i]).name == nodes[i].name
            && build_step(nodes, e)[i].scope_level == nodes[i].scope_level
            && build_step(nodes, e)[i].is_mutable == nodes[i].is_mutable
            && build_step(nodes, e)[i].defined == nodes[i].defined,
{
    match e.kind {
        EventKind::VarDefined(v) => {
            lemma_node_pos(nodes, v.name@, v.scope_level as int);
        },
        EventKind::VarUsed { name, scope_level } => {
            lemma_node_pos(nodes, name@, scope_level as int);
            lemma_node_pos(nodes, name@, scope_level - 1);
        },
        _ => {},
    }
}

/// Building from events never gives two variables the same name and scope
/// level, never removes a variable, and never changes a variable's name,
/// mutability or level: uses only mark variables used.
pub proof fn lemma_build_distinct(nodes: Seq<VarNodeView>, events: Seq<AnalysisEvent>)
    requires
        nodes_distinct(nodes),
    ensures
        nodes_distinct(build_run(nodes, events)),
        build_run(nodes, events).len() >= nodes.len(),
        forall|i: int| 0 <= i < nodes.len() ==> (#[trigger] build_run(nodes, events)[i]).name == nodes[i].name
            && build_run(nodes, events)[i].scope_level == nodes[i].scope_level
            && build_run(nodes, events)[i].is_mutable == nodes[i].is_mutable
            && build_run(nodes, events)[i].defined == nodes[i].defined,
    decreases events.len(),
{
    if events.len() > 0 {
        lemma_build_distinct(nodes, events.drop_last());
        let mid = build_run(nodes, events.drop_last());
        lemma_build_step(mid, events.last());
        assert forall|i: int| 0 <= i < nodes.len() implies (#[trigger] build_run(nodes, events)[i]).name == nodes[i].name
            && build_run(nodes, events)[i].scope_level == nodes[i].scope_level
            && build_run(nodes, events)[i].is_mutable == nodes[i].is_mutable
            && build_run(nodes, events)[i].defined == nodes[i].defined by {
            assert(mid[i].name == nodes[i].name);
        }
    }
}

/// The used and the unused variables together are no more than all of them.
pub proof fn lemma_summary_counts(nodes: Seq<VarNodeView>)
    ensures
        used_count(nodes) + unused_nodes(nodes).len() <= nodes.len(),
    decreases nodes.len(),
{
    if nodes.len() > 0 {
        lemma_summary_counts(nodes.drop_last());
    }
}


/// A variable of the given name and level is in the nodes.
pub open spec fn has_node(nodes: Seq<VarNodeView>, name: Seq<char>, level: usize) -> bool {
    exists|i: int| 0 <= i < nodes.len() && (#[trigger] nodes[i]).name == name && nodes[i].scope_level == level
}

/// Every variable that the events define is a node of the graph built from
/// them.
pub proof fn lemma_build_has_definitions(events: Seq<AnalysisEvent>)
    ensures
        forall|i: int| 0 <= i < events.len() ==> ((#[trigger] events[i]).kind matches EventKind::VarDefined(v)
            ==> has_node(build_run(Seq::empty(), events), v.name@, v.scope_level)),
    decreases events.len(),
{
    if events.len() > 0 {
        let prefix = events.drop_last();
        lemma_build_has_definitions(prefix);
        let mid = build_run(Seq::empty(), prefix);
        let last = build_run(Seq::empty(), events);
        assert(nodes_distinct(Seq::<VarNodeView>::empty()));
        lemma_build_distinct(Seq::empty(), prefix);
        lemma_build_step(mid, events.last());
        assert forall|i: int| 0 <= i < events.len() implies ((#[trigger] events[i]).kind matches EventKind::VarDefined(v)
            ==> has_node(last, v.name@, v.scope_level)) by {
            if let EventKind::VarDefined(v) = events[i].kind {
                if i < events.len() - 1 {
                    assert(prefix[i] == events[i]);
                    let j = choose|j: int| 0 <= j < mid.len() && (#[trigger] mid[j]).name == v.name@
                        && mid[j].scope_level == v.scope_level;
                    assert(last[j].name == v.name@ && last[j].scope_level == v.scope_level);
                } else {
                    lemma_node_pos(mid, v.name@, v.scope_level as int);
                    let p = node_pos(mid, v.name@, v.scope_level as int);
                    if p >= 0 {
                        assert(last[p].name == v.name@);
                    } else {
                        assert(last[mid.len() as int].name == v.name@);
                    }
                }
            }
        }
    }
}

} // verus!
