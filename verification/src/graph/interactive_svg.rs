//! An SVG picture of the variable graph for the browser: the scope boxes
//! with their variables, tooltips and highlighting by script, and a legend.

use vstd::prelude::*;
use crate::analysis::{AnalysisResult, BorrowKind, OwnershipStatus, ResultView, results_view};
use crate::graph::svg_renderer::{SvgConfig, SvgConfigView, scope_box_width, node_color, last_live_status,
    node_color_of, last_live_status_of};
use crate::graph::variable_graph::{VarGraph, VarNode, VarNodeView, graph_nodes, node_views, graph_node};
use crate::graph::scopes::{scope_groups, group_nodes_by_scope, groups_view, lemma_groups_in_range,
    lemma_groups_nonempty};
use crate::text::{push_u32, push_usize, push_bool, decimal, bool_text, string_of, str_equal};

verus! {

/// The opening of the interactive picture after its size: the style sheet,
/// the tooltip and highlighting script, and the group that shifts the
/// picture 50 pixels right and down.
pub const INTERACTIVE_PREAMBLE: &'static str = "\">\n                <style>\n                    .node { cursor: pointer; transition: all 0.3s ease; }\n                    .node:hover { filter: drop-shadow(0 0 8px rgba(33, 150, 243, 0.8)); transform: scale(1.05); }\n                    .scope-box { fill: #E3F2FD; stroke: #1976D2; stroke-width: 2; rx: 10; }\n                    .tooltip { visibility: hidden; position: absolute; background: #333; color: white; padding: 8px; border-radius: 4px; font-size: 12px; pointer-events: none; }\n                    .title { font-family: Arial, sans-serif; font-size: 20px; font-weight: bold; fill: #1976D2; }\n                    .legend-box { fill: #F5F5F5; stroke: #E0E0E0; stroke-width: 1; rx: 5; }\n                </style>\n                <script type=\"text/javascript\"><![CDATA[\n                    function showTooltip(evt, text) {\n                        var tooltip = document.getElementById('tooltip');\n                        tooltip.textContent = text;\n                        tooltip.setAttribute('visibility', 'visible');\n                        tooltip.setAttribute('x', (evt.clientX - window.scrollX + 10) + 'px');\n                        tooltip.setAttribute('y', (evt.clientY - window.scrollY - 10) + 'px');\n                    }\n                    function hideTooltip() {\n                        var tooltip = document.getElementById('tooltip');\n                        tooltip.setAttribute('visibility', 'hidden');\n                    }\n                    function highlightNode(nodeId) {\n                        document.querySelectorAll('.node').forEach(n => n.style.opacity = '0.3');\n                        document.getElementById(nodeId).style.opacity = '1';\n                    }\n                    function resetHighlight() {\n                        document.querySelectorAll('.node').forEach(n => n.style.opacity = '1');\n                    }\n                ]]></script>\n                <g transform=\"translate(50, 50)\">\n            ";

/// Renders variable graphs as interactive SVG.
pub struct InteractiveSvgRenderer {
    config: SvgConfig,
}

/// The width of a scope box with `count` variables (200 for an empty one).
pub open spec fn panel_width(count: nat) -> nat {
    if count == 0 {
        200
    } else {
        scope_box_width(count)
    }
}

/// The label under a variable: `UNUSED` if unused, else the name of its
/// last status that is not a drop, `OWNED` if there is none.
pub open spec fn status_label(n: VarNodeView, results: Seq<ResultView>) -> Seq<char> {
    if !n.used {
        "UNUSED"@
    } else {
        match last_live_status(results, n.name) {
            Some(OwnershipStatus::Owned) => "OWNED"@,
            Some(OwnershipStatus::Moved) => "MOVED"@,
            Some(OwnershipStatus::Borrowed(BorrowKind::Immutable)) => "BORROWED"@,
            Some(OwnershipStatus::Borrowed(BorrowKind::Mutable)) => "MUT BORROW"@,
            Some(OwnershipStatus::Dropped) => "DROPPED"@,
            None => "OWNED"@,
        }
    }
}

/// The colour of a name written on a box of colour `color`: dark on the
/// light grey and the red boxes, white on the others.
pub open spec fn label_color(color: Seq<char>) -> Seq<char> {
    if color == "#EEEEEE"@ || color == "#F44336"@ {
        "#333"@
    } else {
        "#FFFFFF"@
    }
}

/// The opening of the picture.
pub open spec fn interactive_head(c: SvgConfigView) -> Seq<char> {
    "<svg xmlns=\"http://www.w3.org/2000/svg\" width=\""@ + decimal(c.width as nat) + "\" height=\""@
        + decimal(c.height as nat) + "\" viewBox=\"0 0 "@ + decimal(c.width as nat) + " "@
        + decimal(c.height as nat) + INTERACTIVE_PREAMBLE@
}

/// The title line.
pub open spec fn interactive_title(c: SvgConfigView, title: Seq<char>) -> Seq<char> {
    "<text x=\""@ + decimal((c.width / 2 - 50) as nat) + "\" y=\"25\" class=\"title\" text-anchor=\"middle\">"@
        + title + "</text>\n"@
}

/// The opening of a variable's group, with its tooltip giving name,
/// mutability, use and scope.
pub open spec fn node_open(n: VarNodeView, level: usize) -> Seq<char> {
    "<g id=\"node_"@ + n.name + "\" class=\"node\" onmouseenter=\"showTooltip(evt, 'Name: "@ + n.name
        + "&#10;Mutable: "@ + bool_text(n.is_mutable) + "&#10;Used: "@ + bool_text(n.used) + "&#10;Scope: "@
        + decimal(level as nat) + "')\" onmouseleave=\"hideTooltip()\" onclick=\"highlightNode('node_"@ + n.name
        + "')\">\n"@
}

/// A variable's box and name, the box's left edge at `x` and its centre
/// line at `y`.
pub open spec fn node_box(name: Seq<char>, x: nat, y: nat, color: Seq<char>) -> Seq<char> {
    "                        <rect x=\""@ + decimal(x) + "\" y=\""@ + decimal((y - 20) as nat)
        + "\" width=\"80\" height=\"40\" rx=\"8\" fill=\""@ + color + "\" stroke=\"#333\" stroke-width=\"2\"/>\n"@
        + "                        <text x=\""@ + decimal(x + 40) + "\" y=\""@ + decimal((y - 5) as nat)
        + "\" font-family=\"Arial\" font-size=\"12\" font-weight=\"bold\" fill=\""@ + label_color(color)
        + "\" text-anchor=\"middle\">"@ + name + "</text>\n"@
}

/// A variable's status label under its name, and the group's end.
pub open spec fn node_close(x: nat, y: nat, label: Seq<char>) -> Seq<char> {
    "                        <text x=\""@ + decimal(x + 40) + "\" y=\""@ + decimal(y + 12)
        + "\" font-family=\"Arial\" font-size=\"10\" fill=\"#666\" text-anchor=\"middle\">"@ + label + "</text>\n"@
        + "                    </g>\n"@
}

/// The group of one variable, its box's left edge at `x` and its centre
/// line at `y`: the box, the name and the status label, with a tooltip
/// giving name, mutability, use and scope.
pub open spec fn interactive_node(n: VarNodeView, level: usize, x: nat, y: nat, color: Seq<char>, label: Seq<char>) -> Seq<char> {
    node_open(n, level) + node_box(n.name, x, y, color) + node_close(x, y, label)
}

/// The variables of a scope box, the `k`-th one 120 pixels right of the one before.
pub open spec fn interactive_scope_nodes(idxs: Seq<usize>, nodes: Seq<VarNodeView>, results: Seq<ResultView>, level: usize,
    x0: nat, y: nat) -> Seq<char>
    decreases idxs.len(),
{
    if idxs.len() == 0 {
        Seq::empty()
    } else {
        let k = (idxs.len() - 1) as nat;
        let n = nodes[idxs.last() as int];
        interactive_scope_nodes(idxs.drop_last(), nodes, results, level, x0, y)
            + interactive_node(n, level, x0 + k * 120, y, node_color(n, results), status_label(n, results))
    }
}

/// The box of one scope, its top at `y`, centred in the width less 100.
pub open spec fn interactive_scope(level: usize, idxs: Seq<usize>, nodes: Seq<VarNodeView>, results: Seq<ResultView>,
    width: nat, y: nat) -> Seq<char> {
    let w = panel_width(idxs.len());
    let x = ((width - 100 - w) / 2) as nat;
    "<rect x=\""@ + decimal(x) + "\" y=\""@ + decimal(y) + "\" width=\""@ + decimal(w)
        + "\" height=\"110\" class=\"scope-box\"/>\n"@
        + "                    <text x=\""@ + decimal(x + w / 2) + "\" y=\""@ + decimal(y + 25)
        + "\" font-family=\"Arial\" font-size=\"14\" font-weight=\"bold\" fill=\"#1976D2\" text-anchor=\"middle\">Scope "@
        + decimal(level as nat) + "</text>\n"@
        + interactive_scope_nodes(idxs, nodes, results, level, x + 20, y + 55)
}

/// The scope boxes, the first with its top at 60 and each 140 pixels below
/// the one before.
pub open spec fn interactive_scopes(groups: Seq<(usize, Seq<usize>)>, nodes: Seq<VarNodeView>, results: Seq<ResultView>,
    width: nat) -> Seq<char>
    decreases groups.len(),
{
    if groups.len() == 0 {
        Seq::empty()
    } else {
        let y = (60 + (groups.len() - 1) * 140) as nat;
        interactive_scopes(groups.drop_last(), nodes, results, width)
            + interactive_scope(groups.last().0, groups.last().1, nodes, results, width, y)
    }
}

/// One entry of the legend, `i` places down, for a legend box whose left
/// edge is at `x`.
pub open spec fn interactive_legend_item(x: nat, i: nat, color: Seq<char>, label: Seq<char>) -> Seq<char> {
    "<rect x=\""@ + decimal(x + 15) + "\" y=\""@ + decimal(100 + i * 22)
        + "\" width=\"20\" height=\"15\" rx=\"3\" fill=\""@ + color + "\"/>\n"@
        + "<text x=\""@ + decimal(x + 45) + "\" y=\""@ + decimal(112 + i * 22)
        + "\" font-family=\"Arial\" font-size=\"12\" fill=\"#333\">"@ + label + "</text>\n"@
}

/// The legend, 180 pixels left of the right edge: owned, moved, borrowed,
/// mutably borrowed, unused.
pub open spec fn interactive_legend(width: nat) -> Seq<char> {
    let x = (width - 180) as nat;
    "<rect x=\""@ + decimal(x) + "\" y=\"60\" width=\"160\" height=\"140\" class=\"legend-box\"/>\n"@
        + "<text x=\""@ + decimal(x + 80)
        + "\" y=\"80\" font-family=\"Arial\" font-size=\"14\" font-weight=\"bold\" fill=\"#333\">Legend</text>\n"@
        + interactive_legend_item(x, 0, "#4CAF50"@, "Owned"@)
        + interactive_legend_item(x, 1, "#FF9800"@, "Moved"@)
        + interactive_legend_item(x, 2, "#2196F3"@, "Borrowed"@)
        + interactive_legend_item(x, 3, "#F44336"@, "Mut Borrow"@)
        + interactive_legend_item(x, 4, "#EEEEEE"@, "Unused"@)
}

/// The whole interactive picture.
pub open spec fn interactive_text(c: SvgConfigView, title: Seq<char>, nodes: Seq<VarNodeView>, results: Seq<ResultView>) -> Seq<char> {
    interactive_head(c) + interactive_title(c, title)
        + interactive_scopes(scope_groups(nodes), nodes, results, c.width as nat)
        + interactive_legend(c.width as nat) + "<text id='tooltip' class='tooltip' x='0' y='0'/>"@ + "</g></svg>"@
}

/// The picture can be drawn at the configured width without the pixel
/// arithmetic leaving `u32`: room for the legend, every scope box no wider
/// than the width less 100, and every box's top within range.
pub open spec fn interactive_fits(c: SvgConfigView, nodes: Seq<VarNodeView>) -> bool {
    let groups = scope_groups(nodes);
    &&& c.width >= 180
    &&& forall|k: int| 0 <= k < groups.len() ==> (#[trigger] groups[k]).1.len() * 120 + 100 <= c.width
    &&& 60 + groups.len() * 140 <= u32::MAX
}

impl InteractiveSvgRenderer {
    /// The configuration.
    pub closed spec fn config(&self) -> SvgConfigView {
        self.config@
    }

    /// A renderer with the given configuration.
    pub fn new(config: SvgConfig) -> (r: Self)
        ensures
            r.config() == config@,
    {
        InteractiveSvgRenderer { config }
    }

    /// Whether `render_interactive` can draw the graph at the configured width.
    pub fn can_render(&self, graph: &VarGraph) -> (r: bool)
        ensures
            r == interactive_fits(self.config(), node_views(*graph)),
    {
        let ghost nodes = node_views(*graph);
        let ghost groups = scope_groups(nodes);
        if self.config.width < 180 {
            return false;
        }
        let scopes = group_nodes_by_scope(graph);
        if scopes.len() > 30678337 {
            assert(60 + groups.len() * 140 > u32::MAX);
            return false;
        }
        let mut k: usize = 0;
        while k < scopes.len()
            invariant
                nodes == node_views(*graph),
                groups == scope_groups(nodes),
                groups_view(scopes@) == groups,
                self.config().width >= 180,
                60 + groups.len() * 140 <= u32::MAX,
                k <= scopes@.len(),
                forall|j: int| 0 <= j < k ==> (#[trigger] groups[j]).1.len() * 120 + 100 <= self.config().width,
            decreases scopes@.len() - k,
        {
            assert(groups[k as int].1.len() == scopes@[k as int].1@.len());
            if scopes[k].1.len() > 35791393 || (scopes[k].1.len() as u32) * 120 + 100 > self.config.width {
                assert(groups[k as int].1.len() * 120 + 100 > self.config().width);
                return false;
            }
            k = k + 1;
        }
        true
    }

    /// The interactive SVG picture of the graph under the given title.
    pub fn render_interactive(&self, graph: &VarGraph, analysis_results: &[AnalysisResult], title: &str) -> (r: String)
        requires
            interactive_fits(self.config(), node_views(*graph)),
        ensures
            r@ == interactive_text(self.config(), title@, node_views(*graph), results_view(analysis_results@)),
    {
        let ghost c = self.config();
        let ghost nodes = node_views(*graph);
        let ghost results = results_view(analysis_results@);
        let mut svg = String::new();
        svg.append("<svg xmlns=\"http://www.w3.org/2000/svg\" width=\"");
        push_u32(&mut svg, self.config.width);
        svg.append("\" height=\"");
        push_u32(&mut svg, self.config.height);
        svg.append("\" viewBox=\"0 0 ");
        push_u32(&mut svg, self.config.width);
        svg.append(" ");
        push_u32(&mut svg, self.config.height);
        svg.append(INTERACTIVE_PREAMBLE);
        assert(svg@ =~= interactive_head(c));
        let ghost p1 = svg@;

        svg.append("<text x=\"");
        push_u32(&mut svg, self.config.width / 2 - 50);
        svg.append("\" y=\"25\" class=\"title\" text-anchor=\"middle\">");
        svg.append(title);
        svg.append("</text>\n");
        assert(svg@ =~= p1 + interactive_title(c, title@));

        let scopes = self.group_by_scope(graph);
        self.push_scopes(&mut svg, graph, analysis_results, &scopes);
        let ghost p3 = svg@;

        let legend = self.render_legend();
        svg.append(legend.as_str());
        svg.append("<text id='tooltip' class='tooltip' x='0' y='0'/>");
        svg.append("</g></svg>");
        assert(svg@ =~= p3 + interactive_legend(c.width as nat) + "<text id='tooltip' class='tooltip' x='0' y='0'/>"@
            + "</g></svg>"@);
        svg
    }

    /// Appends the scope boxes, the first with its top at 60 and each 140
    /// pixels below the one before.
    fn push_scopes(&self, svg: &mut String, graph: &VarGraph, analysis_results: &[AnalysisResult],
        scopes: &Vec<(usize, Vec<usize>)>)
        requires
            groups_view(scopes@) == scope_groups(node_views(*graph)),
            interactive_fits(self.config(), node_views(*graph)),
        ensures
            final(svg)@ == old(svg)@ + interactive_scopes(scope_groups(node_views(*graph)), node_views(*graph),
                results_view(analysis_results@), self.config().width as nat),
    {
        let ghost c = self.config();
        let ghost nodes = node_views(*graph);
        let ghost results = results_view(analysis_results@);
        let ghost gv = groups_view(scopes@);
        let ghost start = svg@;
        proof {
            lemma_groups_in_range(nodes);
        }
        let mut y_offset: u32 = 60;
        let mut k: usize = 0;
        while k < scopes.len()
            invariant
                gv == groups_view(scopes@),
                gv == scope_groups(nodes),
                nodes == node_views(*graph),
                results == results_view(analysis_results@),
                c == self.config(),
                interactive_fits(c, nodes),
                k <= scopes@.len(),
                y_offset == 60 + k * 140,
                forall|a: int, b: int| 0 <= a < gv.len() && 0 <= b < gv[a].1.len() ==> #[trigger] gv[a].1[b] < nodes.len(),
                svg@ == start + interactive_scopes(gv.take(k as int), nodes, results, c.width as nat),
            decreases scopes@.len() - k,
        {
            assert(gv.take(k + 1).drop_last() =~= gv.take(k as int));
            assert(gv[k as int].1.len() * 120 + 100 <= c.width);
            proof {
                lemma_groups_nonempty(nodes, k as int);
                let len = gv.len();
                assert(60 + (k + 1) * 140 <= 60 + len * 140) by (nonlinear_arith)
                    requires k < len;
            }
            let ghost before = svg@;
            let level = scopes[k].0;
            self.push_scope(svg, graph, analysis_results, level, &scopes[k].1, y_offset);
            assert(svg@ == before + interactive_scope(level, gv[k as int].1, nodes, results, c.width as nat, y_offset as nat));
            y_offset = y_offset + 110 + 30;
            k = k + 1;
        }
        assert(gv.take(gv.len() as int) =~= gv);
    }

    /// Appends the box of one scope, its top at `y`.
    fn push_scope(&self, svg: &mut String, graph: &VarGraph, analysis_results: &[AnalysisResult], level: usize,
        idxs: &Vec<usize>, y: u32)
        requires
            idxs@.len() > 0,
            idxs@.len() * 120 + 100 <= self.config().width,
            y + 140 <= u32::MAX,
            forall|b: int| 0 <= b < idxs@.len() ==> #[trigger] idxs@[b] < graph_nodes(*graph).len(),
        ensures
            final(svg)@ == old(svg)@ + interactive_scope(level, idxs@, node_views(*graph), results_view(analysis_results@),
                self.config().width as nat, y as nat),
    {
        let ghost nodes = node_views(*graph);
        let ghost results = results_view(analysis_results@);
        let ghost w = self.config().width as nat;
        let node_width: u32 = 80;
        let padding: u32 = 20;
        let count = idxs.len();
        let scope_width: u32 = if count == 0 { 200 } else { (count as u32 - 1) * 120 + node_width + padding * 2 };
        let scope_x: u32 = (self.config.width - 100 - scope_width) / 2;
        assert(scope_width == panel_width(idxs@.len()));
        svg.append("<rect x=\"");
        push_u32(svg, scope_x);
        svg.append("\" y=\"");
        push_u32(svg, y);
        svg.append("\" width=\"");
        push_u32(svg, scope_width);
        svg.append("\" height=\"110\" class=\"scope-box\"/>\n");
        svg.append("                    <text x=\"");
        push_u32(svg, scope_x + scope_width / 2);
        svg.append("\" y=\"");
        push_u32(svg, y + 25);
        svg.append("\" font-family=\"Arial\" font-size=\"14\" font-weight=\"bold\" fill=\"#1976D2\" text-anchor=\"middle\">Scope ");
        push_usize(svg, level);
        svg.append("</text>\n");
        let ghost head = svg@;
        let node_y: u32 = y + 55;
        let mut i: usize = 0;
        while i < count
            invariant
                nodes == node_views(*graph),
                results == results_view(analysis_results@),
                count == idxs@.len(),
                count > 0,
                count * 120 + 100 <= w,
                w == self.config().width as nat,
                scope_width == panel_width(count as nat),
                scope_x == ((w - 100 - scope_width) / 2) as nat,
                padding == 20,
                node_y == y + 55,
                y + 140 <= u32::MAX,
                i <= count,
                forall|b: int| 0 <= b < idxs@.len() ==> #[trigger] idxs@[b] < graph_nodes(*graph).len(),
                svg@ == head + interactive_scope_nodes(idxs@.take(i as int), nodes, results, level,
                    (scope_x + 20) as nat, node_y as nat),
            decreases count - i,
        {
            assert(idxs@.take(i + 1).drop_last() =~= idxs@.take(i as int));
            let node = graph_node(graph, idxs[i]);
            assert(nodes[idxs@[i as int] as int] == node@);
            proof {
                let cnt = count as int;
                let ii = i as int;
                assert(ii * 120 + 120 <= cnt * 120) by (nonlinear_arith)
                    requires ii < cnt;
            }
            let node_x: u32 = scope_x + padding + (i as u32) * 120;
            let color = self.get_node_color(node, analysis_results);
            let label = self.get_status_label(node, analysis_results);
            push_interactive_node(svg, node, level, node_x, node_y, color.as_str(), label.as_str());
            i = i + 1;
        }
        assert(idxs@.take(count as int) =~= idxs@);
        assert(svg@ =~= old(svg)@ + interactive_scope(level, idxs@, nodes, results, w, y as nat));
    }

    /// The scope groups of the graph: levels ascending, each with its
    /// nodes' indices in node order.
    fn group_by_scope(&self, graph: &VarGraph) -> (r: Vec<(usize, Vec<usize>)>)
        ensures
            groups_view(r@) == scope_groups(node_views(*graph)),
    {
        group_nodes_by_scope(graph)
    }

    /// The colour of a variable's box: `node_color`, whatever the
    /// configuration, the same colour the simple picture gives it.
    pub fn get_node_color(&self, node: &VarNode, results: &[AnalysisResult]) -> (r: String)
        ensures
            r@ == node_color(node@, results_view(results@)),
    {
        node_color_of(node, results)
    }

    /// The label under a variable's name.
    fn get_status_label(&self, node: &VarNode, results: &[AnalysisResult]) -> (r: String)
        ensures
            r@ == status_label(node@, results_view(results@)),
    {
        if !node.used {
            return string_of("UNUSED");
        }
        match last_live_status_of(node, results) {
            Some(OwnershipStatus::Owned) => string_of("OWNED"),
            Some(OwnershipStatus::Moved) => string_of("MOVED"),
            Some(OwnershipStatus::Borrowed(BorrowKind::Immutable)) => string_of("BORROWED"),
            Some(OwnershipStatus::Borrowed(BorrowKind::Mutable)) => string_of("MUT BORROW"),
            Some(OwnershipStatus::Dropped) => string_of("DROPPED"),
            None => string_of("OWNED"),
        }
    }

    /// The legend, 180 pixels left of the right edge.
    pub fn render_legend(&self) -> (r: String)
        requires
            self.config().width >= 180,
        ensures
            r@ == interactive_legend(self.config().width as nat),
    {
        let mut legend = String::new();
        let legend_x: u32 = self.config.width - 180;
        legend.append("<rect x=\"");
        push_u32(&mut legend, legend_x);
        legend.append("\" y=\"60\" width=\"160\" height=\"140\" class=\"legend-box\"/>\n");
        legend.append("<text x=\"");
        push_u32(&mut legend, legend_x + 80);
        legend.append("\" y=\"80\" font-family=\"Arial\" font-size=\"14\" font-weight=\"bold\" fill=\"#333\">Legend</text>\n");
        push_legend_entry(&mut legend, legend_x, 0, "#4CAF50", "Owned");
        push_legend_entry(&mut legend, legend_x, 1, "#FF9800", "Moved");
        push_legend_entry(&mut legend, legend_x, 2, "#2196F3", "Borrowed");
        push_legend_entry(&mut legend, legend_x, 3, "#F44336", "Mut Borrow");
        push_legend_entry(&mut legend, legend_x, 4, "#EEEEEE", "Unused");
        assert(legend@ =~= interactive_legend(self.config().width as nat));
        legend
    }
}

/// Appends legend entry `i` of a legend box whose left edge is at `x`.
fn push_legend_entry(s: &mut String, x: u32, i: u32, color: &str, label: &str)
    requires
        i < 5,
        x + 45 <= u32::MAX,
    ensures
        final(s)@ == old(s)@ + interactive_legend_item(x as nat, i as nat, color@, label@),
{
    s.append("<rect x=\"");
    push_u32(s, x + 15);
    s.append("\" y=\"");
    push_u32(s, 100 + i * 22);
    s.append("\" width=\"20\" height=\"15\" rx=\"3\" fill=\"");
    s.append(color);
    s.append("\"/>\n");
    s.append("<text x=\"");
    push_u32(s, x + 45);
    s.append("\" y=\"");
    push_u32(s, 112 + i * 22);
    s.append("\" font-family=\"Arial\" font-size=\"12\" fill=\"#333\">");
    s.append(label);
    s.append("</text>\n");
    assert(final(s)@ =~= old(s)@ + interactive_legend_item(x as nat, i as nat, color@, label@));
}

/// The colour of a name written on a box of colour `color`.
pub fn label_color_of(color: &str) -> (r: &'static str)
    ensures
        r@ == label_color(color@),
{
    if str_equal(color, "#EEEEEE") || str_equal(color, "#F44336") {
        "#333"
    } else {
        "#FFFFFF"
    }
}

/// Appends the opening of a variable's group.
fn push_node_open(svg: &mut String, node: &VarNode, level: usize)
    ensures
        final(svg)@ == old(svg)@ + node_open(node@, level),
{
    svg.append("<g id=\"node_");
    svg.append(node.name.as_str());
    svg.append("\" class=\"node\" onmouseenter=\"showTooltip(evt, 'Name: ");
    svg.append(node.name.as_str());
    svg.append("&#10;Mutable: ");
    push_bool(svg, node.is_mutable);
    svg.append("&#10;Used: ");
    push_bool(svg, node.used);
    svg.append("&#10;Scope: ");
    push_usize(svg, level);
    svg.append("')\" onmouseleave=\"hideTooltip()\" onclick=\"highlightNode('node_");
    svg.append(node.name.as_str());
    svg.append("')\">\n");
    assert(final(svg)@ =~= old(svg)@ + node_open(node@, level));
}

/// Appends a variable's box and name.
fn push_node_box(svg: &mut String, name: &str, x: u32, y: u32, color: &str)
    requires
        20 <= y,
        x + 40 <= u32::MAX,
    ensures
        final(svg)@ == old(svg)@ + node_box(name@, x as nat, y as nat, color@),
{
    let font_color = label_color_of(color);
    svg.append("                        <rect x=\"");
    push_u32(svg, x);
    svg.append("\" y=\"");
    push_u32(svg, y - 20);
    svg.append("\" width=\"80\" height=\"40\" rx=\"8\" fill=\"");
    svg.append(color);
    svg.append("\" stroke=\"#333\" stroke-width=\"2\"/>\n");
    svg.append("                        <text x=\"");
    push_u32(svg, x + 40);
    svg.append("\" y=\"");
    push_u32(svg, y - 5);
    svg.append("\" font-family=\"Arial\" font-size=\"12\" font-weight=\"bold\" fill=\"");
    svg.append(font_color);
    svg.append("\" text-anchor=\"middle\">");
    svg.append(name);
    svg.append("</text>\n");
    assert(final(svg)@ =~= old(svg)@ + node_box(name@, x as nat, y as nat, color@));
}

/// Appends the group of one variable, its box's left edge at `x` and its
/// centre line at `y`.
fn push_interactive_node(svg: &mut String, node: &VarNode, level: usize, x: u32, y: u32, color: &str, label: &str)
    requires
        20 <= y,
        x + 40 <= u32::MAX,
        y + 12 <= u32::MAX,
    ensures
        final(svg)@ == old(svg)@ + interactive_node(node@, level, x as nat, y as nat, color@, label@),
{
    push_node_open(svg, node, level);
    push_node_box(svg, node.name.as_str(), x, y, color);
    let ghost mid = svg@;
    svg.append("                        <text x=\"");
    push_u32(svg, x + 40);
    svg.append("\" y=\"");
    push_u32(svg, y + 12);
    svg.append("\" font-family=\"Arial\" font-size=\"10\" fill=\"#666\" text-anchor=\"middle\">");
    svg.append(label);
    svg.append("</text>\n");
    svg.append("                    </g>\n");
    assert(svg@ =~= mid + node_close(x as nat, y as nat, label@));
    assert(final(svg)@ =~= old(svg)@ + interactive_node(node@, level, x as nat, y as nat, color@, label@));
}

} // verus!
