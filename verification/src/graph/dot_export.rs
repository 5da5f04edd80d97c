//! Graphviz DOT export of the variable graph: one cluster per scope, one
//! node per variable coloured by its ownership status, and the graph's edges.

use vstd::prelude::*;
use vstd::string::*;
use crate::analysis::{AnalysisResult, BorrowKind, OwnershipStatus, ResultView, results_view};
use crate::graph::variable_graph::{VarGraph, VarNode, VarNodeView, graph_nodes, graph_edges, node_views,
    graph_node, graph_node_count, graph_edge_count, graph_edge_endpoints};
use crate::graph::scopes::{scope_groups, group_nodes_by_scope, groups_view};
use crate::text::{push_char, push_usize, decimal, chars_of, is_alphanumeric, char_is_alphanumeric, string_of};

verus! {

/// What the DOT export shows.
#[derive(Debug)]
pub struct DotConfig {
    /// Graph title.
    pub title: String,
    /// Colour nodes by ownership status.
    pub show_ownership: bool,
    /// Show borrow relationships.
    pub show_borrows: bool,
    /// Group nodes into one cluster per scope.
    pub show_scopes: bool,
    /// Lay the graph out left to right (`rankdir=LR`) rather than top to bottom.
    pub horizontal: bool,
    /// Include variables that are never used.
    pub show_unused: bool,
}

impl Clone for DotConfig {
    fn clone(&self) -> (r: Self)
        ensures
            r == *self,
    {
        DotConfig {
            title: self.title.clone(),
            show_ownership: self.show_ownership,
            show_borrows: self.show_borrows,
            show_scopes: self.show_scopes,
            horizontal: self.horizontal,
            show_unused: self.show_unused,
        }
    }
}

/// A DOT configuration, its title as characters.
pub struct DotConfigView {
    pub title: Seq<char>,
    pub show_ownership: bool,
    pub show_borrows: bool,
    pub show_scopes: bool,
    pub horizontal: bool,
    pub show_unused: bool,
}

impl View for DotConfig {
    type V = DotConfigView;

    open spec fn view(&self) -> DotConfigView {
        DotConfigView {
            title: self.title@,
            show_ownership: self.show_ownership,
            show_borrows: self.show_borrows,
            show_scopes: self.show_scopes,
            horizontal: self.horizontal,
            show_unused: self.show_unused,
        }
    }
}

/// The default configuration: title `Rust Ownership Graph`, everything
/// shown, top to bottom.
pub open spec fn default_dot_config() -> DotConfigView {
    DotConfigView {
        title: "Rust Ownership Graph"@,
        show_ownership: true,
        show_borrows: true,
        show_scopes: true,
        horizontal: false,
        show_unused: true,
    }
}

impl Default for DotConfig {
    /// Title `Rust Ownership Graph`, everything shown, top to bottom.
    fn default() -> (r: Self)
        ensures
            r@ == default_dot_config(),
    {
        DotConfig {
            title: string_of("Rust Ownership Graph"),
            show_ownership: true,
            show_borrows: true,
            show_scopes: true,
            horizontal: false,
            show_unused: true,
        }
    }
}

/// A key of a colour table.
pub trait ColorKey: Copy + Sized {
    /// Whether the two keys are the same.
    fn same_key(&self, other: &Self) -> (r: bool)
        ensures
            r == (*self == *other);
}

impl ColorKey for OwnershipStatus {
    fn same_key(&self, other: &Self) -> (r: bool) {
        match (*self, *other) {
            (OwnershipStatus::Owned, OwnershipStatus::Owned) => true,
            (OwnershipStatus::Borrowed(BorrowKind::Immutable), OwnershipStatus::Borrowed(BorrowKind::Immutable)) => true,
            (OwnershipStatus::Borrowed(BorrowKind::Mutable), OwnershipStatus::Borrowed(BorrowKind::Mutable)) => true,
            (OwnershipStatus::Moved, OwnershipStatus::Moved) => true,
            (OwnershipStatus::Dropped, OwnershipStatus::Dropped) => true,
            _ => false,
        }
    }
}

impl ColorKey for BorrowKind {
    fn same_key(&self, other: &Self) -> (r: bool) {
        match (*self, *other) {
            (BorrowKind::Immutable, BorrowKind::Immutable) => true,
            (BorrowKind::Mutable, BorrowKind::Mutable) => true,
            _ => false,
        }
    }
}

/// A colour table: at most one colour per key, keys in the order they were
/// first inserted.
#[derive(Debug, Clone)]
pub struct ColorMap<K> {
    entries: Vec<(K, String)>,
}

/// Position of the first entry for `k`, or -1.
pub open spec fn color_pos<K>(m: Seq<(K, Seq<char>)>, k: K) -> int
    decreases m.len(),
{
    if m.len() == 0 {
        -1
    } else {
        let p = color_pos(m.drop_last(), k);
        if p >= 0 {
            p
        } else if m.last().0 == k {
            m.len() - 1
        } else {
            -1
        }
    }
}

/// The colour stored for `k`, if any.
pub open spec fn color_get<K>(m: Seq<(K, Seq<char>)>, k: K) -> Option<Seq<char>> {
    let p = color_pos(m, k);
    if p >= 0 { Some(m[p].1) } else { None }
}

/// The table after `k` gets colour `c`: an existing key keeps its place.
pub open spec fn color_put<K>(m: Seq<(K, Seq<char>)>, k: K, c: Seq<char>) -> Seq<(K, Seq<char>)> {
    let p = color_pos(m, k);
    if p >= 0 { m.update(p, (k, c)) } else { m.push((k, c)) }
}

/// What `color_pos` says: -1 exactly when the key is absent, else the
/// first position holding it.
pub proof fn lemma_color_pos<K>(m: Seq<(K, Seq<char>)>, k: K)
    ensures
        -1 <= color_pos(m, k) < m.len(),
        color_pos(m, k) == -1 <==> (forall|i: int| 0 <= i < m.len() ==> m[i].0 != k),
        color_pos(m, k) >= 0 ==> m[color_pos(m, k)].0 == k,
        color_pos(m, k) >= 0 ==> (forall|i: int| 0 <= i < color_pos(m, k) ==> m[i].0 != k),
    decreases m.len(),
{
    if m.len() > 0 {
        lemma_color_pos(m.drop_last(), k);
        assert forall|i: int| 0 <= i < m.len() - 1 implies m.drop_last()[i] == m[i] by {}
    }
}

impl<K> View for ColorMap<K> {
    type V = Seq<(K, Seq<char>)>;

    closed spec fn view(&self) -> Seq<(K, Seq<char>)> {
        self.entries@.map_values(|e: (K, String)| (e.0, e.1@))
    }
}

impl<K: ColorKey> ColorMap<K> {
    /// An empty table.
    pub fn new() -> (r: Self)
        ensures
            r@ == Seq::<(K, Seq<char>)>::empty(),
    {
        let r = ColorMap { entries: Vec::new() };
        assert(r@ =~= Seq::<(K, Seq<char>)>::empty());
        r
    }

    fn find(&self, key: &K) -> (r: Option<usize>)
        ensures
            match r {
                Some(i) => i as int == color_pos(self@, *key) && i < self@.len(),
                None => color_pos(self@, *key) == -1,
            },
    {
        proof {
            lemma_color_pos(self@, *key);
        }
        let mut i: usize = 0;
        while i < self.entries.len()
            invariant
                i <= self@.len(),
                self@.len() == self.entries@.len(),
                forall|j: int| 0 <= j < i ==> self@[j].0 != *key,
                -1 <= color_pos(self@, *key) < self@.len(),
                color_pos(self@, *key) == -1 <==> (forall|j: int| 0 <= j < self@.len() ==> self@[j].0 != *key),
                color_pos(self@, *key) >= 0 ==> self@[color_pos(self@, *key)].0 == *key,
                color_pos(self@, *key) >= 0 ==> (forall|j: int| 0 <= j < color_pos(self@, *key) ==> self@[j].0 != *key),
            decreases self@.len() - i,
        {
            if self.entries[i].0.same_key(key) {
                assert(self@[i as int].0 == *key);
                return Some(i);
            }
            assert(self@[i as int].0 != *key);
            i = i + 1;
        }
        None
    }

    /// Stores `value` for `key`, returning the colour it replaces, if any.
    pub fn insert(&mut self, key: K, value: String) -> (r: Option<String>)
        ensures
            final(self)@ == color_put(old(self)@, key, value@),
            match r {
                Some(v) => color_get(old(self)@, key) == Some(v@),
                None => color_get(old(self)@, key) is None,
            },
    {
        let ghost before = self@;
        proof {
            lemma_color_pos(before, key);
        }
        match self.find(&key) {
            Some(i) => {
                let ghost v = value@;
                let mut previous = value;
                std::mem::swap(&mut self.entries[i].1, &mut previous);
                assert(self@[i as int] == (key, v));
                assert(self@ =~= color_put(before, key, v));
                Some(previous)
            },
            None => {
                self.entries.push((key, value));
                assert(self@ =~= color_put(before, key, value@));
                None
            },
        }
    }

    /// The colour stored for `key`, if any.
    pub fn get(&self, key: &K) -> (r: Option<&String>)
        ensures
            match r {
                Some(v) => color_get(self@, *key) == Some(v@),
                None => color_get(self@, *key) is None,
            },
    {
        match self.find(key) {
            Some(i) => Some(&self.entries[i].1),
            None => None,
        }
    }

    /// The number of keys.
    pub fn len(&self) -> (r: usize)
        ensures
            r == self@.len(),
    {
        self.entries.len()
    }
}

/// How DOT elements look.
#[derive(Debug, Clone)]
pub struct DotStyle {
    /// Node shape.
    pub node_shape: String,
    /// Fill colour for each ownership status.
    pub ownership_colors: ColorMap<OwnershipStatus>,
    /// Colour for each borrow kind.
    pub borrow_colors: ColorMap<BorrowKind>,
    /// Attributes added to unused variables.
    pub unused_style: String,
    /// Attributes of the scope clusters.
    pub scope_style: String,
}

/// A DOT style, its texts as characters.
pub struct DotStyleView {
    pub node_shape: Seq<char>,
    pub ownership_colors: Seq<(OwnershipStatus, Seq<char>)>,
    pub borrow_colors: Seq<(BorrowKind, Seq<char>)>,
    pub unused_style: Seq<char>,
    pub scope_style: Seq<char>,
}

impl View for DotStyle {
    type V = DotStyleView;

    open spec fn view(&self) -> DotStyleView {
        DotStyleView {
            node_shape: self.node_shape@,
            ownership_colors: self.ownership_colors@,
            borrow_colors: self.borrow_colors@,
            unused_style: self.unused_style@,
            scope_style: self.scope_style@,
        }
    }
}

/// The default style: boxes; owned green, moved orange, shared borrow blue,
/// dropped grey; shared borrows blue and exclusive ones red; unused
/// variables greyed; scope clusters light blue.
pub open spec fn default_dot_style() -> DotStyleView {
    DotStyleView {
        node_shape: "box"@,
        ownership_colors: seq![
            (OwnershipStatus::Owned, "#4CAF50"@),
            (OwnershipStatus::Moved, "#FF9800"@),
            (OwnershipStatus::Borrowed(BorrowKind::Immutable), "#2196F3"@),
            (OwnershipStatus::Dropped, "#9E9E9E"@),
        ],
        borrow_colors: seq![(BorrowKind::Immutable, "#2196F3"@), (BorrowKind::Mutable, "#F44336"@)],
        unused_style: "style=filled,fillcolor=#EEEEEE,fontcolor=#9E9E9E"@,
        scope_style: "style=filled,fillcolor=#E3F2FD,color=#1976D2"@,
    }
}

impl Default for DotStyle {
    /// Boxes; owned green, moved orange, shared borrow blue, dropped grey;
    /// shared borrows blue and exclusive ones red; unused variables greyed;
    /// scope clusters light blue.
    fn default() -> (r: Self)
        ensures
            r@ == default_dot_style(),
    {
        proof {
            reveal_with_fuel(color_pos, 5);
        }
        let mut ownership_colors = ColorMap::new();
        ownership_colors.insert(OwnershipStatus::Owned, string_of("#4CAF50"));
        ownership_colors.insert(OwnershipStatus::Moved, string_of("#FF9800"));
        ownership_colors.insert(OwnershipStatus::Borrowed(BorrowKind::Immutable), string_of("#2196F3"));
        ownership_colors.insert(OwnershipStatus::Dropped, string_of("#9E9E9E"));
        assert(ownership_colors@ =~= seq![
            (OwnershipStatus::Owned, "#4CAF50"@),
            (OwnershipStatus::Moved, "#FF9800"@),
            (OwnershipStatus::Borrowed(BorrowKind::Immutable), "#2196F3"@),
            (OwnershipStatus::Dropped, "#9E9E9E"@),
        ]);
        let mut borrow_colors = ColorMap::new();
        borrow_colors.insert(BorrowKind::Immutable, string_of("#2196F3"));
        borrow_colors.insert(BorrowKind::Mutable, string_of("#F44336"));
        assert(borrow_colors@ =~= seq![(BorrowKind::Immutable, "#2196F3"@), (BorrowKind::Mutable, "#F44336"@)]);
        DotStyle {
            node_shape: string_of("box"),
            ownership_colors,
            borrow_colors,
            unused_style: string_of("style=filled,fillcolor=#EEEEEE,fontcolor=#9E9E9E"),
            scope_style: string_of("style=filled,fillcolor=#E3F2FD,color=#1976D2"),
        }
    }
}

/// A DOT export.
#[derive(Debug)]
pub struct DotExport {
    /// The DOT text.
    pub content: String,
    /// Number of nodes of the graph.
    pub node_count: usize,
    /// Number of edges of the graph.
    pub edge_count: usize,
}

/// Exports variable graphs to DOT.
pub struct DotExporter {
    config: DotConfig,
    style: DotStyle,
}

/// `s` with every character that is neither alphanumeric nor `_` replaced by `_`.
pub open spec fn sanitize(s: Seq<char>) -> Seq<char> {
    Seq::new(s.len(), |i: int| if char_is_alphanumeric(s[i]) || s[i] == '_' { s[i] } else { '_' })
}

/// The DOT identifier of a variable: `name_scope`.
pub open spec fn dot_node_id(n: VarNodeView) -> Seq<char> {
    n.name + "_"@ + decimal(n.scope_level as nat)
}

/// Whether a variable appears in the export.
pub open spec fn node_shown(show_unused: bool, n: VarNodeView) -> bool {
    show_unused || n.used || !n.defined
}

/// The status of the first ownership change reported for `name`, if any.
pub open spec fn first_change(results: Seq<ResultView>, name: Seq<char>) -> Option<OwnershipStatus>
    decreases results.len(),
{
    if results.len() == 0 {
        None
    } else {
        match first_change(results.drop_last(), name) {
            Some(st) => Some(st),
            None => match results.last() {
                ResultView::OwnershipChange { name: n, new_status, .. } => if n == name { Some(new_status) } else { None },
                _ => None,
            },
        }
    }
}

/// The status the DOT export shows for a variable: that of the first
/// ownership change reported for its name, else owned.
pub open spec fn dot_status(results: Seq<ResultView>, name: Seq<char>) -> OwnershipStatus {
    match first_change(results, name) {
        Some(st) => st,
        None => OwnershipStatus::Owned,
    }
}

/// The attributes of a variable's node.
pub open spec fn dot_node_attrs(n: VarNodeView, results: Seq<ResultView>, config: DotConfigView, style: DotStyleView) -> Seq<char> {
    "label=\""@ + n.name + "\", shape="@ + style.node_shape
        + (if config.show_ownership {
            match color_get(style.ownership_colors, dot_status(results, n.name)) {
                Some(c) => ", fillcolor=\""@ + c + "\", style=filled"@,
                None => Seq::empty(),
            }
        } else {
            Seq::empty()
        })
        + (if n.defined && !n.used { ", "@ + style.unused_style } else { Seq::empty() })
        + (if n.is_mutable { ", fontcolor=#D32F2F"@ } else { Seq::empty() })
}

/// The node statements, one per shown variable, in node order.
pub open spec fn dot_node_lines(nodes: Seq<VarNodeView>, results: Seq<ResultView>, config: DotConfigView, style: DotStyleView) -> Seq<char>
    decreases nodes.len(),
{
    if nodes.len() == 0 {
        Seq::empty()
    } else {
        let n = nodes.last();
        dot_node_lines(nodes.drop_last(), results, config, style) + if node_shown(config.show_unused, n) {
            "  \""@ + dot_node_id(n) + "\" ["@ + dot_node_attrs(n, results, config, style) + "];\n"@
        } else {
            Seq::empty()
        }
    }
}

/// The member lines of a scope cluster, one per shown variable.
pub open spec fn dot_members(idxs: Seq<usize>, nodes: Seq<VarNodeView>, show_unused: bool) -> Seq<char>
    decreases idxs.len(),
{
    if idxs.len() == 0 {
        Seq::empty()
    } else {
        let n = nodes[idxs.last() as int];
        dot_members(idxs.drop_last(), nodes, show_unused) + if node_shown(show_unused, n) {
            "    \""@ + dot_node_id(n) + "\";\n"@
        } else {
            Seq::empty()
        }
    }
}

/// The cluster of one scope.
pub open spec fn dot_scope_block(level: usize, idxs: Seq<usize>, nodes: Seq<VarNodeView>, config: DotConfigView, style: DotStyleView) -> Seq<char> {
    "  subgraph cluster_scope_"@ + decimal(level as nat) + " {\n"@
        + "    label=\"Scope "@ + decimal(level as nat) + "\";\n"@
        + "    "@ + style.scope_style + ";\n"@
        + dot_members(idxs, nodes, config.show_unused)
        + "  }\n"@
}

/// The clusters of the scopes, in the order of the groups.
pub open spec fn dot_scope_blocks(groups: Seq<(usize, Seq<usize>)>, nodes: Seq<VarNodeView>, config: DotConfigView, style: DotStyleView) -> Seq<char>
    decreases groups.len(),
{
    if groups.len() == 0 {
        Seq::empty()
    } else {
        dot_scope_blocks(groups.drop_last(), nodes, config, style)
            + dot_scope_block(groups.last().0, groups.last().1, nodes, config, style)
    }
}

/// The edge statements, in edge order.
pub open spec fn dot_edge_lines(edges: Seq<(nat, nat)>, nodes: Seq<VarNodeView>) -> Seq<char>
    decreases edges.len(),
{
    if edges.len() == 0 {
        Seq::empty()
    } else {
        let e = edges.last();
        dot_edge_lines(edges.drop_last(), nodes) + "  \""@ + dot_node_id(nodes[e.0 as int]) + "\" -> \""@
            + dot_node_id(nodes[e.1 as int]) + "\" [arrowhead=vee, color=\"#757575\"];\n"@
    }
}

/// The graph header: identifier, label and layout.
pub open spec fn dot_header(title: Seq<char>, horizontal: bool) -> Seq<char> {
    "digraph "@ + sanitize(title) + " {\n"@
        + "  // Graph attributes\n"@
        + "  label=\""@ + title + "\";\n"@
        + "  labelloc=t;\n"@
        + "  fontsize=16;\n"@
        + "  fontname=\"Arial\";\n"@
        + (if horizontal { "  rankdir=LR;\n"@ } else { "  rankdir=TB;\n"@ })
        + "  compound=true;\n"@
        + "  splines=ortho;\n"@
        + "  nodesep=0.5;\n"@
        + "  ranksep=0.8;\n\n"@
}

/// The title of an export: the file name when one is given, else the
/// configured title.
pub open spec fn dot_title(config: DotConfigView, filename: Option<Seq<char>>) -> Seq<char> {
    match filename {
        Some(f) => f,
        None => config.title,
    }
}

/// The whole DOT text of a graph.
pub open spec fn dot_text(
    config: DotConfigView,
    style: DotStyleView,
    nodes: Seq<VarNodeView>,
    edges: Seq<(nat, nat)>,
    results: Seq<ResultView>,
    filename: Option<Seq<char>>,
) -> Seq<char> {
    dot_header(dot_title(config, filename), config.horizontal)
        + (if config.show_scopes {
            "  // Scope subgraphs\n"@ + dot_scope_blocks(scope_groups(nodes), nodes, config, style) + "\n"@
        } else {
            Seq::empty()
        })
        + "  // Variable nodes\n"@
        + dot_node_lines(nodes, results, config, style)
        + "\n"@
        + "  // Variable relationships\n"@
        + dot_edge_lines(edges, nodes)
        + "\n"@
        + "}\n"@
}

/// The view of an optional file name.
pub open spec fn opt_view(f: Option<&str>) -> Option<Seq<char>> {
    match f {
        Some(s) => Some(s@),
        None => None,
    }
}

impl DotExporter {
    /// The configuration.
    pub closed spec fn config(&self) -> DotConfigView {
        self.config@
    }

    /// The style.
    pub closed spec fn style(&self) -> DotStyleView {
        self.style@
    }

    /// An exporter with the default configuration and style.
    pub fn new() -> (r: Self)
        ensures
            r.config() == default_dot_config(),
            r.style() == default_dot_style(),
    {
        DotExporter { config: DotConfig::default(), style: DotStyle::default() }
    }

    /// An exporter with the given configuration and the default style.
    pub fn with_config(config: DotConfig) -> (r: Self)
        ensures
            r.config() == config@,
            r.style() == default_dot_style(),
    {
        DotExporter { config, style: DotStyle::default() }
    }

    /// An exporter with the given configuration and style.
    pub fn with_style(config: DotConfig, style: DotStyle) -> (r: Self)
        ensures
            r.config() == config@,
            r.style() == style@,
    {
        DotExporter { config, style }
    }

    /// The DOT text of the graph, with its node and edge counts. When a file
    /// name is given it is the graph's title (label and identifier);
    /// otherwise the configured title is.
    pub fn export(&self, graph: &VarGraph, analysis_results: &[AnalysisResult], filename: Option<&str>) -> (r: DotExport)
        ensures
            r.content@ == dot_text(self.config(), self.style(), node_views(*graph), graph_edges(*graph),
                results_view(analysis_results@), opt_view(filename)),
            r.node_count == graph_nodes(*graph).len(),
            r.edge_count == graph_edges(*graph).len(),
    {
        let ghost nodes = node_views(*graph);
        let ghost results = results_view(analysis_results@);
        let title: &str = match filename {
            Some(f) => f,
            None => self.config.title.as_str(),
        };
        let mut content = String::new();
        content.append("digraph ");
        let id = self.sanitize_id(title);
        content.append(id.as_str());
        content.append(" {\n");
        content.append("  // Graph attributes\n");
        content.append("  label=\"");
        content.append(title);
        content.append("\";\n");
        content.append("  labelloc=t;\n");
        content.append("  fontsize=16;\n");
        content.append("  fontname=\"Arial\";\n");
        if self.config.horizontal {
            content.append("  rankdir=LR;\n");
        } else {
            content.append("  rankdir=TB;\n");
        }
        content.append("  compound=true;\n");
        content.append("  splines=ortho;\n");
        content.append("  nodesep=0.5;\n");
        content.append("  ranksep=0.8;\n\n");
        assert(content@ =~= dot_header(dot_title(self.config(), opt_view(filename)), self.config().horizontal));
        let ghost after_header = content@;

        if self.config.show_scopes {
            content.append("  // Scope subgraphs\n");
            let scopes = self.group_by_scope(graph);
            let ghost gv = groups_view(scopes@);
            let ghost mid = content@;
            let mut k: usize = 0;
            while k < scopes.len()
                invariant
                    gv == groups_view(scopes@),
                    gv == scope_groups(nodes),
                    nodes == node_views(*graph),
                    k <= scopes@.len(),
                    forall|a: int, b: int| 0 <= a < gv.len() && 0 <= b < gv[a].1.len() ==> #[trigger] gv[a].1[b] < nodes.len(),
                    content@ == mid + dot_scope_blocks(gv.take(k as int), nodes, self.config(), self.style()),
                decreases scopes@.len() - k,
            {
                assert(gv.take(k + 1).drop_last() =~= gv.take(k as int));
                let level = scopes[k].0;
                let ghost before_block = content@;
                content.append("  subgraph cluster_scope_");
                push_usize(&mut content, level);
                content.append(" {\n");
                content.append("    label=\"Scope ");
                push_usize(&mut content, level);
                content.append("\";\n");
                content.append("    ");
                content.append(self.style.scope_style.as_str());
                content.append(";\n");
                let ghost idxs = gv[k as int].1;
                let ghost head = content@;
                let mut j: usize = 0;
                while j < scopes[k].1.len()
                    invariant
                        gv == groups_view(scopes@),
                        nodes == node_views(*graph),
                        k < scopes@.len(),
                        idxs == gv[k as int].1,
                        j <= idxs.len(),
                        forall|b: int| 0 <= b < idxs.len() ==> #[trigger] idxs[b] < nodes.len(),
                        content@ == head + dot_members(idxs.take(j as int), nodes, self.config().show_unused),
                    decreases idxs.len() - j,
                {
                    assert(idxs.take(j + 1).drop_last() =~= idxs.take(j as int));
                    let idx = scopes[k].1[j];
                    assert(idx < nodes.len());
                    let node = graph_node(graph, idx);
                    assert(nodes[idx as int] == node@);
                    if !self.config.show_unused && !node.used && node.defined {
                    } else {
                        content.append("    \"");
                        self.push_node_id(&mut content, node);
                        content.append("\";\n");
                    }
                    j = j + 1;
                }
                assert(idxs.take(idxs.len() as int) =~= idxs);
                content.append("  }\n");
                assert(content@ =~= before_block + dot_scope_block(level, idxs, nodes, self.config(), self.style()));
                k = k + 1;
            }
            assert(gv.take(gv.len() as int) =~= gv);
            content.append("\n");
        }
        let ghost after_scopes = content@;
        assert(after_scopes =~= after_header + (if self.config().show_scopes {
            "  // Scope subgraphs\n"@ + dot_scope_blocks(scope_groups(nodes), nodes, self.config(), self.style()) + "\n"@
        } else {
            Seq::empty()
        }));

        content.append("  // Variable nodes\n");
        let ghost before_nodes = content@;
        let n = graph_node_count(graph);
        let mut i: usize = 0;
        while i < n
            invariant
                nodes == node_views(*graph),
                results == results_view(analysis_results@),
                n == nodes.len(),
                i <= n,
                content@ == before_nodes + dot_node_lines(nodes.take(i as int), results, self.config(), self.style()),
            decreases n - i,
        {
            assert(nodes.take(i + 1).drop_last() =~= nodes.take(i as int));
            let node = graph_node(graph, i);
            assert(nodes.take(i + 1).last() == node@);
            let ghost before_line = content@;
            if !self.config.show_unused && !node.used && node.defined {
                assert(!node_shown(self.config().show_unused, node@));
            } else {
                content.append("  \"");
                self.push_node_id(&mut content, node);
                content.append("\" [");
                self.push_node_attrs(&mut content, node, analysis_results);
                content.append("];\n");
                assert(content@ =~= before_line + ("  \""@ + dot_node_id(node@) + "\" ["@
                    + dot_node_attrs(node@, results, self.config(), self.style()) + "];\n"@));
            }
            assert(content@ =~= before_nodes + dot_node_lines(nodes.take(i + 1), results, self.config(), self.style()));
            i = i + 1;
        }
        assert(nodes.take(n as int) =~= nodes);
        content.append("\n");

        content.append("  // Variable relationships\n");
        let ghost edges = graph_edges(*graph);
        let ghost before_edges = content@;
        let m = graph_edge_count(graph);
        let mut edge_count: usize = 0;
        while edge_count < m
            invariant
                nodes == node_views(*graph),
                edges == graph_edges(*graph),
                m == edges.len(),
                edge_count <= m,
                content@ == before_edges + dot_edge_lines(edges.take(edge_count as int), nodes),
            decreases m - edge_count,
        {
            assert(edges.take(edge_count + 1).drop_last() =~= edges.take(edge_count as int));
            let (source, target) = graph_edge_endpoints(graph, edge_count);
            content.append("  \"");
            self.node_id_from_index(&mut content, graph, source);
            content.append("\" -> \"");
            self.node_id_from_index(&mut content, graph, target);
            content.append("\" [arrowhead=vee, color=\"#757575\"];\n");
            assert(edges[edge_count as int] == (source as nat, target as nat));
            assert(edges.take(edge_count + 1).last() == edges[edge_count as int]);
            assert(content@ =~= before_edges + dot_edge_lines(edges.take(edge_count + 1), nodes));
            edge_count = edge_count + 1;
        }
        assert(edges.take(m as int) =~= edges);
        content.append("\n");
        content.append("}\n");
        assert(content@ =~= dot_text(self.config(), self.style(), nodes, edges, results, opt_view(filename)));
        DotExport { content, node_count: graph_node_count(graph), edge_count }
    }

    /// Appends the attributes of a variable's node.
    fn push_node_attrs(&self, s: &mut String, node: &VarNode, results: &[AnalysisResult])
        ensures
            final(s)@ == old(s)@ + dot_node_attrs(node@, results_view(results@), self.config(), self.style()),
    {
        s.append("label=\"");
        s.append(node.name.as_str());
        s.append("\", shape=");
        s.append(self.style.node_shape.as_str());
        let ghost mid = s@;
        if self.config.show_ownership {
            let status = self.get_ownership_status(node, results);
            match self.style.ownership_colors.get(&status) {
                Some(color) => {
                    s.append(", fillcolor=\"");
                    s.append(color.as_str());
                    s.append("\", style=filled");
                },
                None => {},
            }
        }
        if node.defined && !node.used {
            s.append(", ");
            s.append(self.style.unused_style.as_str());
        }
        if node.is_mutable {
            s.append(", fontcolor=#D32F2F");
        }
        assert(s@ =~= old(s)@ + dot_node_attrs(node@, results_view(results@), self.config(), self.style()));
    }

    /// The status the export shows for a variable: that of the first
    /// ownership change reported for its name, else owned.
    fn get_ownership_status(&self, node: &VarNode, results: &[AnalysisResult]) -> (r: OwnershipStatus)
        ensures
            r == dot_status(results_view(results@), node.name@),
    {
        let ghost rv = results_view(results@);
        let mut i: usize = 0;
        while i < results.len()
            invariant
                rv == results_view(results@),
                i <= results@.len(),
                first_change(rv.take(i as int), node.name@) is None,
            decreases results@.len() - i,
        {
            assert(rv.take(i + 1).drop_last() =~= rv.take(i as int));
            assert(rv.take(i + 1).last() == results@[i as int]@);
            if let AnalysisResult::OwnershipChange { name, new_status, .. } = &results[i] {
                if node.name == *name {
                    proof {
                        lemma_first_change_prefix(rv, node.name@, i + 1);
                    }
                    return *new_status;
                }
            }
            i = i + 1;
        }
        assert(rv.take(results@.len() as int) =~= rv);
        OwnershipStatus::Owned
    }

    /// The scope groups of the graph: levels ascending, each with its
    /// nodes' indices in node order.
    fn group_by_scope(&self, graph: &VarGraph) -> (r: Vec<(usize, Vec<usize>)>)
        ensures
            groups_view(r@) == scope_groups(node_views(*graph)),
            forall|a: int, b: int| 0 <= a < r@.len() && 0 <= b < r@[a].1@.len() ==>
                #[trigger] r@[a].1@[b] < graph_nodes(*graph).len(),
    {
        let r = group_nodes_by_scope(graph);
        proof {
            crate::graph::scopes::lemma_groups_in_range(node_views(*graph));
            assert forall|a: int, b: int| 0 <= a < r@.len() && 0 <= b < r@[a].1@.len() implies
                #[trigger] r@[a].1@[b] < graph_nodes(*graph).len() by {
                assert(groups_view(r@)[a].1[b] == r@[a].1@[b]);
            }
        }
        r
    }

    /// Appends the DOT identifier of a variable: `name_scope`.
    fn push_node_id(&self, s: &mut String, node: &VarNode)
        ensures
            final(s)@ == old(s)@ + dot_node_id(node@),
    {
        s.append(node.name.as_str());
        s.append("_");
        push_usize(s, node.scope_level);
        assert(final(s)@ =~= old(s)@ + dot_node_id(node@));
    }

    /// The DOT identifier of a variable: `name_scope`.
    pub fn node_id(&self, node: &VarNode) -> (r: String)
        ensures
            r@ == dot_node_id(node@),
    {
        let mut s = String::new();
        self.push_node_id(&mut s, node);
        assert(s@ =~= dot_node_id(node@));
        s
    }

    /// Appends the DOT identifier of the node at `idx`.
    fn node_id_from_index(&self, s: &mut String, graph: &VarGraph, idx: usize)
        requires
            idx < graph_nodes(*graph).len(),
        ensures
            final(s)@ == old(s)@ + dot_node_id(node_views(*graph)[idx as int]),
    {
        let node = graph_node(graph, idx);
        self.push_node_id(s, node);
    }

    /// `s` with every character that is neither alphanumeric nor `_`
    /// replaced by `_`.
    pub fn sanitize_id(&self, s: &str) -> (r: String)
        ensures
            r@ == sanitize(s@),
    {
        let cs = chars_of(s);
        let mut r = String::new();
        let mut i: usize = 0;
        while i < cs.len()
            invariant
                cs@ == s@,
                i <= cs@.len(),
                r@ == sanitize(s@).take(i as int),
            decreases cs@.len() - i,
        {
            let c = cs[i];
            if is_alphanumeric(c) || c == '_' {
                push_char(&mut r, c);
            } else {
                push_char(&mut r, '_');
            }
            assert(r@ =~= sanitize(s@).take(i + 1));
            i = i + 1;
        }
        assert(sanitize(s@).take(cs@.len() as int) =~= sanitize(s@));
        r
    }
}

proof fn lemma_first_change_prefix(rv: Seq<ResultView>, name: Seq<char>, k: int)
    requires
        0 < k <= rv.len(),
        first_change(rv.take(k), name) is Some,
    ensures
        first_change(rv, name) == first_change(rv.take(k), name),
    decreases rv.len() - k,
{
    if k < rv.len() {
        assert(rv.take(k + 1).drop_last() =~= rv.take(k));
        lemma_first_change_prefix(rv, name, k + 1);
    } else {
        assert(rv.take(k) =~= rv);
    }
}

impl Default for DotExporter {
    fn default() -> (r: Self)
        ensures
            r.config() == default_dot_config(),
            r.style() == default_dot_style(),
    {
        Self::new()
    }
}


/// Sanitizing keeps the length, and leaves only alphanumeric characters and
/// `_`; the characters that were already such stay where they were.
pub proof fn lemma_sanitize_charset(s: Seq<char>)
    ensures
        sanitize(s).len() == s.len(),
        forall|i: int| 0 <= i < s.len() ==> char_is_alphanumeric(#[trigger] sanitize(s)[i]) || sanitize(s)[i] == '_',
        forall|i: int| 0 <= i < s.len() && (char_is_alphanumeric(s[i]) || s[i] == '_') ==> #[trigger] sanitize(s)[i] == s[i],
{
}

/// Sanitizing a sanitized text changes nothing.
pub proof fn lemma_sanitize_idempotent(s: Seq<char>)
    ensures
        sanitize(sanitize(s)) == sanitize(s),
{
    assert(sanitize(sanitize(s)) =~= sanitize(s));
}


/// A colour table gives back the colour last stored for a key, and storing
/// a colour for one key leaves every other key's colour as it was; a new
/// key adds one entry and a known key none.
pub proof fn lemma_color_get_put<K>(m: Seq<(K, Seq<char>)>, k: K, c: Seq<char>, other: K)
    ensures
        color_get(color_put(m, k, c), k) == Some(c),
        other != k ==> color_get(color_put(m, k, c), other) == color_get(m, other),
        color_put(m, k, c).len() == if color_get(m, k) is Some { m.len() } else { m.len() + 1 },
{
    let r = color_put(m, k, c);
    lemma_color_pos(m, k);
    lemma_color_pos(m, other);
    lemma_color_pos(r, k);
    lemma_color_pos(r, other);
    let p = color_pos(m, k);
    if p >= 0 {
        assert(r[p] == (k, c));
        assert forall|i: int| 0 <= i < r.len() && i != p implies r[i] == m[i] by {}
    } else {
        assert(r[m.len() as int] == (k, c));
        assert forall|i: int| 0 <= i < m.len() implies r[i] == m[i] by {}
    }
}


} // verus!
