//! A self-contained SVG picture of the variable graph: title, legend,
//! statistics, and one box per scope holding its variables, coloured by
//! ownership status.

use vstd::prelude::*;
use vstd::string::*;
use crate::analysis::{AnalysisResult, BorrowKind, OwnershipStatus, ResultView, results_view};
use crate::graph::dot_export::{DotConfig, DotExporter, dot_text, default_dot_config, default_dot_style};
use crate::graph::variable_graph::{VarGraph, VarNode, VarNodeView, graph_nodes, graph_edges, node_views, graph_node};
use crate::graph::scopes::{scope_groups, group_nodes_by_scope, groups_view, lemma_groups_in_range, lemma_groups_nonempty};
use crate::path::{portable_path, path_file_name};
use crate::text::{push_u32, push_usize, decimal, string_of};

verus! {

/// How the SVG picture looks.
#[derive(Debug, Clone)]
pub struct SvgConfig {
    /// Width in pixels.
    pub width: u32,
    /// Height in pixels.
    pub height: u32,
    /// Background colour (transparent if `None`).
    pub background: Option<String>,
    /// Font family of the title.
    pub font_family: String,
    /// Font size of node labels.
    pub font_size: u32,
    /// Title (the file name, or a default, if `None`).
    pub title: Option<String>,
}

/// An SVG configuration, its texts as characters.
pub struct SvgConfigView {
    pub width: u32,
    pub height: u32,
    pub background: Option<Seq<char>>,
    pub font_family: Seq<char>,
    pub font_size: u32,
    pub title: Option<Seq<char>>,
}

impl View for SvgConfig {
    type V = SvgConfigView;

    open spec fn view(&self) -> SvgConfigView {
        SvgConfigView {
            width: self.width,
            height: self.height,
            background: match self.background {
                Some(b) => Some(b@),
                None => None,
            },
            font_family: self.font_family@,
            font_size: self.font_size,
            title: match self.title {
                Some(t) => Some(t@),
                None => None,
            },
        }
    }
}

/// The default configuration: 1200 by 800 pixels on white, Arial, 12 point
/// labels, no fixed title.
pub open spec fn default_svg_config() -> SvgConfigView {
    SvgConfigView {
        width: 1200,
        height: 800,
        background: Some("#FFFFFF"@),
        font_family: "Arial, sans-serif"@,
        font_size: 12,
        title: None,
    }
}

impl Default for SvgConfig {
    fn default() -> (r: Self)
        ensures
            r@ == default_svg_config(),
    {
        SvgConfig {
            width: 1200,
            height: 800,
            background: Some(string_of("#FFFFFF")),
            font_family: string_of("Arial, sans-serif"),
            font_size: 12,
            title: None,
        }
    }
}

/// A rendered SVG picture.
#[derive(Debug)]
pub struct SvgRender {
    /// The SVG text.
    pub content: String,
    /// Whether an external tool made it.
    pub external_tool: bool,
}

/// Renders variable graphs as SVG.
pub struct SvgRenderer {
    config: SvgConfig,
}

/// The fill colour of an ownership status.
pub open spec fn status_color(st: OwnershipStatus) -> Seq<char> {
    match st {
        OwnershipStatus::Owned => "#4CAF50"@,
        OwnershipStatus::Moved => "#FF9800"@,
        OwnershipStatus::Borrowed(BorrowKind::Immutable) => "#2196F3"@,
        OwnershipStatus::Borrowed(BorrowKind::Mutable) => "#F44336"@,
        OwnershipStatus::Dropped => "#9E9E9E"@,
    }
}

/// The status of the last ownership change reported for `name` that is not
/// a drop, if any (every variable ends up dropped, so drops say nothing).
pub open spec fn last_live_status(results: Seq<ResultView>, name: Seq<char>) -> Option<OwnershipStatus>
    decreases results.len(),
{
    if results.len() == 0 {
        None
    } else {
        match results.last() {
            ResultView::OwnershipChange { name: n, new_status, .. } =>
                if n == name && new_status != OwnershipStatus::Dropped {
                    Some(new_status)
                } else {
                    last_live_status(results.drop_last(), name)
                },
            _ => last_live_status(results.drop_last(), name),
        }
    }
}

/// The colour of a variable: light grey if unused, else the colour of its
/// last status that is not a drop, green if there is none.
pub open spec fn node_color(n: VarNodeView, results: Seq<ResultView>) -> Seq<char> {
    if !n.used {
        "#EEEEEE"@
    } else {
        match last_live_status(results, n.name) {
            Some(st) => status_color(st),
            None => "#4CAF50"@,
        }
    }
}

/// The SVG header.
pub open spec fn svg_header(c: SvgConfigView) -> Seq<char> {
    "<?xml version=\"1.0\" encoding=\"UTF-8\"?>\n<svg xmlns=\"http://www.w3.org/2000/svg\"\n     width=\""@
        + decimal(c.width as nat) + "\" height=\""@ + decimal(c.height as nat) + "\" viewBox=\"0 0 "@
        + decimal(c.width as nat) + " "@ + decimal(c.height as nat) + "\">\n"@
}

/// The background rectangle, if there is a background colour.
pub open spec fn svg_background(c: SvgConfigView) -> Seq<char> {
    match c.background {
        Some(bg) => "  <rect width=\"100%\" height=\"100%\" fill=\""@ + bg + "\"/>\n"@,
        None => Seq::empty(),
    }
}

/// The title line.
pub open spec fn svg_title(c: SvgConfigView, title: Seq<char>) -> Seq<char> {
    "  <text x=\"50%\" y=\"30\" text-anchor=\"middle\"\n       font-family=\""@ + c.font_family
        + "\" font-size=\"18\" font-weight=\"bold\">\n    "@ + title + "\n  </text>\n"@
}

/// One entry of the legend: a swatch and its label, `i` places down.
pub open spec fn legend_item(i: nat, label: Seq<char>, color: Seq<char>) -> Seq<char> {
    "    <rect x=\"0\" y=\""@ + decimal(20 + i * 25) + "\" width=\"20\" height=\"20\" fill=\""@ + color
        + "\" stroke=\"#333\"/>\n    <text x=\"30\" y=\""@ + decimal(35 + i * 25)
        + "\" font-family=\"Arial\" font-size=\"12\">"@ + label + "</text>\n"@
}

/// The legend: owned, moved, borrowed, dropped.
pub open spec fn svg_legend() -> Seq<char> {
    "  <g id=\"legend\" transform=\"translate(20, 50)\">\n    <text font-family=\"Arial\" font-size=\"14\" font-weight=\"bold\">Legend</text>\n"@
        + legend_item(0, "Owned"@, "#4CAF50"@)
        + legend_item(1, "Moved"@, "#FF9800"@)
        + legend_item(2, "Borrowed"@, "#2196F3"@)
        + legend_item(3, "Dropped"@, "#9E9E9E"@)
        + "  </g>\n"@
}

/// The statistics: node and edge counts.
pub open spec fn svg_stats(c: SvgConfigView, node_count: nat, edge_count: nat) -> Seq<char> {
    "  <g id=\"stats\" transform=\"translate("@ + decimal((c.width - 150) as nat)
        + ", 50)\">\n    <text font-family=\"Arial\" font-size=\"14\" font-weight=\"bold\">Statistics</text>\n    <text x=\"0\" y=\"20\" font-family=\"Arial\" font-size=\"12\">Nodes: "@
        + decimal(node_count) + "</text>\n    <text x=\"0\" y=\"40\" font-family=\"Arial\" font-size=\"12\">Edges: "@
        + decimal(edge_count) + "</text>\n  </g>\n"@
}

/// A variable's box, centred at (`x`, `y`).
pub open spec fn svg_node(n: VarNodeView, x: nat, y: nat, color: Seq<char>) -> Seq<char> {
    let text_color = if !n.used { "#999"@ } else if n.is_mutable { "#D32F2F"@ } else { "#333"@ };
    "  <g transform=\"translate("@ + decimal(x) + ", "@ + decimal(y)
        + ")\">\n    <rect x=\"-40\" y=\"-20\" width=\"80\" height=\"40\" rx=\"5\" fill=\""@ + color
        + "\" stroke=\"#333\" stroke-width=\"2\"/>\n    <text x=\"0\" y=\"5\" text-anchor=\"middle\" font-family=\"Arial\" font-size=\"14\" font-weight=\"bold\" fill=\""@
        + text_color + "\">"@ + n.name + "</text>\n"@
        + (if n.is_mutable {
            "    <text x=\"0\" y=\"18\" text-anchor=\"middle\" font-family=\"Arial\" font-size=\"10\" fill=\"#D32F2F\">mut</text>\n"@
        } else {
            Seq::empty()
        })
        + "  </g>\n"@
}

/// The width of the box of a scope with `count` variables.
pub open spec fn scope_box_width(count: nat) -> nat {
    ((count - 1) * 120 + 80 + 2 * 20) as nat
}

/// The left edge of the box of a scope with `count` variables.
pub open spec fn scope_box_x(width: nat, count: nat) -> nat {
    ((width - scope_box_width(count)) / 2) as nat
}

/// The variables of a scope box, the `k`-th one 120 pixels right of the one before.
pub open spec fn svg_scope_nodes(idxs: Seq<usize>, nodes: Seq<VarNodeView>, results: Seq<ResultView>, x0: nat, y: nat) -> Seq<char>
    decreases idxs.len(),
{
    if idxs.len() == 0 {
        Seq::empty()
    } else {
        let k = (idxs.len() - 1) as nat;
        let n = nodes[idxs.last() as int];
        svg_scope_nodes(idxs.drop_last(), nodes, results, x0, y) + svg_node(n, x0 + k * 120, y, node_color(n, results))
    }
}

/// The box of one scope, its top at `y`.
pub open spec fn svg_scope(level: usize, idxs: Seq<usize>, nodes: Seq<VarNodeView>, results: Seq<ResultView>, width: nat, y: nat) -> Seq<char> {
    let w = scope_box_width(idxs.len());
    let x = scope_box_x(width, idxs.len());
    "<rect x=\""@ + decimal(x) + "\" y=\""@ + decimal(y) + "\" width=\""@ + decimal(w)
        + "\" height=\"110\" rx=\"10\" fill=\"#E3F2FD\" stroke=\"#1976D2\" stroke-width=\"2\"/>\n"@
        + "<text x=\""@ + decimal(x + w / 2) + "\" y=\""@ + decimal(y + 25)
        + "\" text-anchor=\"middle\" font-family=\"Arial\" font-size=\"14\" font-weight=\"bold\" fill=\"#1976D2\">Scope "@
        + decimal(level as nat) + "</text>\n"@
        + svg_scope_nodes(idxs, nodes, results, x + 20 + 40, y + 55)
}

/// The scope boxes, the first with its top at 80 and each 140 pixels below
/// the one before.
pub open spec fn svg_scopes(groups: Seq<(usize, Seq<usize>)>, nodes: Seq<VarNodeView>, results: Seq<ResultView>, width: nat) -> Seq<char>
    decreases groups.len(),
{
    if groups.len() == 0 {
        Seq::empty()
    } else {
        let y = (80 + (groups.len() - 1) * 140) as nat;
        svg_scopes(groups.drop_last(), nodes, results, width)
            + svg_scope(groups.last().0, groups.last().1, nodes, results, width, y)
    }
}

/// The footer line.
pub open spec fn svg_footer(c: SvgConfigView) -> Seq<char> {
    "  <text x=\"50%\" y=\""@ + decimal((c.height - 20) as nat)
        + "\" text-anchor=\"middle\"\n       font-family=\"Arial\" font-size=\"12\" fill=\"#666\">\n    Generated by RustVisualizer v2.0\n  </text>\n"@
}

/// The whole SVG picture.
pub open spec fn svg_text(c: SvgConfigView, title: Seq<char>, nodes: Seq<VarNodeView>, edge_count: nat, results: Seq<ResultView>) -> Seq<char> {
    svg_header(c) + svg_background(c) + svg_title(c, title) + svg_legend() + svg_stats(c, nodes.len(), edge_count)
        + svg_scopes(scope_groups(nodes), nodes, results, c.width as nat) + svg_footer(c) + "</svg>\n"@
}

/// The picture fits the configured size without the pixel arithmetic
/// leaving `u32`: room for the statistics and the footer, every scope box
/// (with the margin the layout keeps) no wider than the picture, and every
/// box's top within range.
pub open spec fn svg_fits(c: SvgConfigView, nodes: Seq<VarNodeView>) -> bool {
    let groups = scope_groups(nodes);
    &&& c.width >= 150
    &&& c.height >= 20
    &&& forall|k: int| 0 <= k < groups.len() ==> (#[trigger] groups[k]).1.len() * 120 + 40 <= c.width
    &&& 80 + groups.len() * 140 <= u32::MAX
}

/// The title of a picture: the configured one, else the file name's last
/// component (the whole file name if it has none), else
/// `Rust Ownership Graph`. Of a file name that platforms read differently
/// (with `\`, `:` or a leading `//`) the title is only known to be what
/// `Path::file_name` gives.
pub open spec fn title_fits(c: SvgConfigView, filename: Option<Seq<char>>, title: Seq<char>) -> bool {
    match c.title {
        Some(t) => title == t,
        None => match filename {
            None => title == "Rust Ownership Graph"@,
            Some(f) => portable_path(f) ==> title == match path_file_name(f) {
                Some(n) => n,
                None => f,
            },
        },
    }
}

/// `std::path::Path::file_name` of `f`, as a `String` (`to_string_lossy`,
/// which keeps text that came in as `&str`). The contract states what std's
/// documentation gives for a path that all platforms read alike: the last
/// component, repeated separators, `.` components and a trailing separator
/// skipped, and none when that component is `..` or there is none. For
/// paths with `\`, `:` or a leading `//` the result depends on the platform
/// and is not stated.
#[verifier::external_body]
fn file_name_of(f: &str) -> (r: Option<String>)
    ensures
        portable_path(f@) ==> (r is Some <==> path_file_name(f@) is Some),
        portable_path(f@) && r is Some ==> r->0@ == path_file_name(f@)->0,
{
    match std::path::Path::new(f).file_name() {
        Some(n) => Some(n.to_string_lossy().to_string()),
        None => None,
    }
}

/// The view of an optional file name.
pub open spec fn opt_str(f: Option<&str>) -> Option<Seq<char>> {
    match f {
        Some(s) => Some(s@),
        None => None,
    }
}

impl SvgRenderer {
    /// The configuration.
    pub closed spec fn config(&self) -> SvgConfigView {
        self.config@
    }

    /// A renderer with the default configuration.
    pub fn new() -> (r: Self)
        ensures
            r.config() == default_svg_config(),
    {
        SvgRenderer { config: SvgConfig::default() }
    }

    /// A renderer with the given configuration.
    pub fn with_config(config: SvgConfig) -> (r: Self)
        ensures
            r.config() == config@,
    {
        SvgRenderer { config }
    }

    /// The DOT text of the graph, with the default DOT configuration and
    /// style, for conversion by other tools.
    pub fn render_to_dot(&self, graph: &VarGraph, analysis_results: &[AnalysisResult]) -> (r: String)
        ensures
            r@ == dot_text(default_dot_config(), default_dot_style(), node_views(*graph), graph_edges(*graph),
                results_view(analysis_results@), None),
    {
        let exporter = DotExporter::with_config(DotConfig::default());
        let dot_export = exporter.export(graph, analysis_results, None);
        dot_export.content
    }

    /// Whether `render_simple` can draw the graph at the configured size.
    pub fn can_render(&self, graph: &VarGraph) -> (r: bool)
        ensures
            r == svg_fits(self.config(), node_views(*graph)),
    {
        let ghost nodes = node_views(*graph);
        let ghost groups = scope_groups(nodes);
        if self.config.width < 150 || self.config.height < 20 {
            return false;
        }
        let scopes = group_nodes_by_scope(graph);
        if scopes.len() > 30678337 {
            assert(80 + groups.len() * 140 > u32::MAX);
            return false;
        }
        let mut k: usize = 0;
        while k < scopes.len()
            invariant
                nodes == node_views(*graph),
                groups == scope_groups(nodes),
                groups_view(scopes@) == groups,
                self.config().width >= 150,
                self.config().height >= 20,
                80 + groups.len() * 140 <= u32::MAX,
                k <= scopes@.len(),
                forall|j: int| 0 <= j < k ==> (#[trigger] groups[j]).1.len() * 120 + 40 <= self.config().width,
            decreases scopes@.len() - k,
        {
            assert(groups[k as int].1.len() == scopes@[k as int].1@.len());
            if scopes[k].1.len() > 35791393 || (scopes[k].1.len() as u32) * 120 + 40 > self.config.width {
                assert(groups[k as int].1.len() * 120 + 40 > self.config().width);
                return false;
            }
            k = k + 1;
        }
        true
    }

    /// The SVG picture of the graph, drawn without external tools. The
    /// title is the configured one, else the file name's last component,
    /// else `Rust Ownership Graph`.
    pub fn render_simple(&self, graph: &VarGraph, analysis_results: &[AnalysisResult], filename: Option<&str>) -> (r: SvgRender)
        requires
            svg_fits(self.config(), node_views(*graph)),
        ensures
            exists|title: Seq<char>| title_fits(self.config(), opt_str(filename), title)
                && r.content@ == svg_text(self.config(), title, node_views(*graph), graph_edges(*graph).len(),
                    results_view(analysis_results@)),
            !r.external_tool,
    {
        let title = match &self.config.title {
            Some(t) => t.clone(),
            None => match filename {
                Some(f) => match file_name_of(f) {
                    Some(n) => n,
                    None => string_of(f),
                },
                None => string_of("Rust Ownership Graph"),
            },
        };
        assert(title_fits(self.config(), opt_str(filename), title@));
        self.render_titled(graph, analysis_results, filename, title.as_str())
    }

    /// The SVG picture of the graph under the given title.
    pub fn render_titled(&self, graph: &VarGraph, analysis_results: &[AnalysisResult], filename: Option<&str>, title: &str) -> (r: SvgRender)
        requires
            svg_fits(self.config(), node_views(*graph)),
        ensures
            r.content@ == svg_text(self.config(), title@, node_views(*graph), graph_edges(*graph).len(),
                results_view(analysis_results@)),
            !r.external_tool,
    {
        let ghost c = self.config();
        let ghost nodes = node_views(*graph);
        let ghost results = results_view(analysis_results@);
        let exporter = DotExporter::with_config(DotConfig::default());
        let dot_export = exporter.export(graph, analysis_results, filename);

        let mut svg = String::new();
        self.push_head(&mut svg, title, dot_export.node_count, dot_export.edge_count);
        assert(svg@ =~= svg_header(c) + svg_background(c) + svg_title(c, title@) + svg_legend()
            + svg_stats(c, nodes.len(), graph_edges(*graph).len()));
        let ghost p5 = svg@;

        let scopes = self.group_by_scope(graph);
        let ghost gv = groups_view(scopes@);
        assert forall|k: int| 0 <= k < scopes@.len() implies (#[trigger] scopes@[k]).1@.len() * 120 + 40 <= c.width by {
            assert(gv[k].1.len() * 120 + 40 <= c.width);
        }
        let _scope_positions = self.calculate_scope_positions(&scopes);
        self.push_scopes(&mut svg, graph, analysis_results, &scopes);
        let ghost p6 = svg@;

        svg.append("  <text x=\"50%\" y=\"");
        push_u32(&mut svg, self.config.height - 20);
        svg.append("\" text-anchor=\"middle\"\n       font-family=\"Arial\" font-size=\"12\" fill=\"#666\">\n    Generated by RustVisualizer v2.0\n  </text>\n");
        svg.append("</svg>\n");
        assert(svg@ =~= p6 + svg_footer(c) + "</svg>\n"@);
        assert(svg@ =~= svg_text(c, title@, nodes, graph_edges(*graph).len(), results));
        SvgRender { content: svg, external_tool: false }
    }

    /// Appends the header, background, title, legend and statistics.
    #[verifier::rlimit(40)]
    fn push_head(&self, svg: &mut String, title: &str, node_count: usize, edge_count: usize)
        requires
            self.config().width >= 150,
        ensures
            final(svg)@ == old(svg)@ + svg_header(self.config()) + svg_background(self.config())
                + svg_title(self.config(), title@) + svg_legend() + svg_stats(self.config(), node_count as nat, edge_count as nat),
    {
        let ghost c = self.config();
        svg.append("<?xml version=\"1.0\" encoding=\"UTF-8\"?>\n<svg xmlns=\"http://www.w3.org/2000/svg\"\n     width=\"");
        push_u32(svg, self.config.width);
        svg.append("\" height=\"");
        push_u32(svg, self.config.height);
        svg.append("\" viewBox=\"0 0 ");
        push_u32(svg, self.config.width);
        svg.append(" ");
        push_u32(svg, self.config.height);
        svg.append("\">\n");
        assert(svg@ =~= old(svg)@ + svg_header(c));
        let ghost p1 = svg@;

        if let Some(bg) = &self.config.background {
            svg.append("  <rect width=\"100%\" height=\"100%\" fill=\"");
            svg.append(bg.as_str());
            svg.append("\"/>\n");
        }
        assert(svg@ =~= p1 + svg_background(c));
        let ghost p2 = svg@;

        svg.append("  <text x=\"50%\" y=\"30\" text-anchor=\"middle\"\n       font-family=\"");
        svg.append(self.config.font_family.as_str());
        svg.append("\" font-size=\"18\" font-weight=\"bold\">\n    ");
        svg.append(title);
        svg.append("\n  </text>\n");
        assert(svg@ =~= p2 + svg_title(c, title@));
        let ghost p3 = svg@;

        svg.append("  <g id=\"legend\" transform=\"translate(20, 50)\">\n    <text font-family=\"Arial\" font-size=\"14\" font-weight=\"bold\">Legend</text>\n");
        push_legend_item(svg, 0, "Owned", "#4CAF50");
        push_legend_item(svg, 1, "Moved", "#FF9800");
        push_legend_item(svg, 2, "Borrowed", "#2196F3");
        push_legend_item(svg, 3, "Dropped", "#9E9E9E");
        svg.append("  </g>\n");
        assert(svg@ =~= p3 + svg_legend());
        let ghost p4 = svg@;

        svg.append("  <g id=\"stats\" transform=\"translate(");
        push_u32(svg, self.config.width - 150);
        svg.append(", 50)\">\n    <text font-family=\"Arial\" font-size=\"14\" font-weight=\"bold\">Statistics</text>\n    <text x=\"0\" y=\"20\" font-family=\"Arial\" font-size=\"12\">Nodes: ");
        push_usize(svg, node_count);
        svg.append("</text>\n    <text x=\"0\" y=\"40\" font-family=\"Arial\" font-size=\"12\">Edges: ");
        push_usize(svg, edge_count);
        svg.append("</text>\n  </g>\n");
        assert(svg@ =~= p4 + svg_stats(c, node_count as nat, edge_count as nat));
    }

    /// Appends the scope boxes, the first with its top at 80 and each 140
    /// pixels below the one before.
    fn push_scopes(&self, svg: &mut String, graph: &VarGraph, analysis_results: &[AnalysisResult],
        scopes: &Vec<(usize, Vec<usize>)>)
        requires
            groups_view(scopes@) == scope_groups(node_views(*graph)),
            svg_fits(self.config(), node_views(*graph)),
        ensures
            final(svg)@ == old(svg)@ + svg_scopes(scope_groups(node_views(*graph)), node_views(*graph),
                results_view(analysis_results@), self.config().width as nat),
    {
        let ghost c = self.config();
        let ghost nodes = node_views(*graph);
        let ghost results = results_view(analysis_results@);
        let ghost gv = groups_view(scopes@);
        let ghost start = svg@;
        proof {
            lemma_groups_in_range(nodes);
        }
        let mut y_offset: u32 = 80;
        let mut k: usize = 0;
        while k < scopes.len()
            invariant
                gv == groups_view(scopes@),
                gv == scope_groups(nodes),
                nodes == node_views(*graph),
                results == results_view(analysis_results@),
                c == self.config(),
                svg_fits(c, nodes),
                k <= scopes@.len(),
                y_offset == 80 + k * 140,
                forall|a: int, b: int| 0 <= a < gv.len() && 0 <= b < gv[a].1.len() ==> #[trigger] gv[a].1[b] < nodes.len(),
                svg@ == start + svg_scopes(gv.take(k as int), nodes, results, c.width as nat),
            decreases scopes@.len() - k,
        {
            assert(gv.take(k + 1).drop_last() =~= gv.take(k as int));
            assert(gv[k as int].1.len() * 120 + 40 <= c.width);
            proof {
                lemma_groups_nonempty(nodes, k as int);
                let len = gv.len();
                assert(80 + (k + 1) * 140 <= 80 + len * 140) by (nonlinear_arith)
                    requires k < len;
            }
            let ghost before = svg@;
            let level = scopes[k].0;
            self.push_scope(svg, graph, analysis_results, level, &scopes[k].1, y_offset);
            assert(svg@ == before + svg_scope(level, gv[k as int].1, nodes, results, c.width as nat, y_offset as nat));
            y_offset = y_offset + 110 + 30;
            k = k + 1;
        }
        assert(gv.take(gv.len() as int) =~= gv);
    }

    /// Appends the box of one scope, its top at `y`.
    fn push_scope(&self, svg: &mut String, graph: &VarGraph, analysis_results: &[AnalysisResult], level: usize,
        idxs: &Vec<usize>, y: u32)
        requires
            idxs@.len() > 0,
            idxs@.len() * 120 + 40 <= self.config().width,
            y + 140 <= u32::MAX,
            forall|b: int| 0 <= b < idxs@.len() ==> #[trigger] idxs@[b] < graph_nodes(*graph).len(),
        ensures
            final(svg)@ == old(svg)@ + svg_scope(level, idxs@, node_views(*graph), results_view(analysis_results@),
                self.config().width as nat, y as nat),
    {
        let ghost nodes = node_views(*graph);
        let ghost results = results_view(analysis_results@);
        let ghost w = self.config().width as nat;
        let scope_height: u32 = 110;
        let node_width: u32 = 80;
        let padding: u32 = 20;
        let count = idxs.len();
        let scope_width: u32 = (count as u32 - 1) * 120 + node_width + padding * 2;
        let scope_x: u32 = (self.config.width - scope_width) / 2;
        assert(scope_width == scope_box_width(idxs@.len()));
        assert(scope_x == scope_box_x(w, idxs@.len()));
        svg.append("<rect x=\"");
        push_u32(svg, scope_x);
        svg.append("\" y=\"");
        push_u32(svg, y);
        svg.append("\" width=\"");
        push_u32(svg, scope_width);
        svg.append("\" height=\"110\" rx=\"10\" fill=\"#E3F2FD\" stroke=\"#1976D2\" stroke-width=\"2\"/>\n");
        svg.append("<text x=\"");
        push_u32(svg, scope_x + scope_width / 2);
        svg.append("\" y=\"");
        push_u32(svg, y + 25);
        svg.append("\" text-anchor=\"middle\" font-family=\"Arial\" font-size=\"14\" font-weight=\"bold\" fill=\"#1976D2\">Scope ");
        push_usize(svg, level);
        svg.append("</text>\n");
        let ghost head = svg@;
        assert(scope_height == 110);
        let node_y: u32 = y + 55;
        let mut i: usize = 0;
        while i < count
            invariant
                nodes == node_views(*graph),
                results == results_view(analysis_results@),
                count == idxs@.len(),
                count * 120 + 40 <= w,
                w == self.config().width as nat,
                scope_x == scope_box_x(w, count as nat),
                padding == 20,
                node_width == 80,
                scope_width == scope_box_width(count as nat),
                node_y == y + 55,
                y + 140 <= u32::MAX,
                i <= count,
                forall|b: int| 0 <= b < idxs@.len() ==> #[trigger] idxs@[b] < graph_nodes(*graph).len(),
                svg@ == head + svg_scope_nodes(idxs@.take(i as int), nodes, results, (scope_x + 20 + 40) as nat, node_y as nat),
            decreases count - i,
        {
            assert(idxs@.take(i + 1).drop_last() =~= idxs@.take(i as int));
            let node = graph_node(graph, idxs[i]);
            assert(nodes[idxs@[i as int] as int] == node@);
            proof {
                let cnt = count as int;
                let ii = i as int;
                assert(ii * 120 + 120 <= cnt * 120) by (nonlinear_arith)
                    requires ii < cnt;
            }
            let node_x: u32 = scope_x + padding + node_width / 2 + (i as u32) * 120;
            let color = self.get_node_color(node, analysis_results);
            push_node_box(svg, node, node_x, node_y, color.as_str());
            i = i + 1;
        }
        assert(idxs@.take(count as int) =~= idxs@);
        assert(svg@ =~= old(svg)@ + svg_scope(level, idxs@, nodes, results, w, y as nat));
    }

    /// The colour of a variable: light grey if unused, else the colour of
    /// its last status that is not a drop, green if there is none. It is
    /// `node_color` whatever the configuration, as for the interactive
    /// renderer.
    pub fn get_node_color(&self, node: &VarNode, analysis_results: &[AnalysisResult]) -> (r: String)
        ensures
            r@ == node_color(node@, results_view(analysis_results@)),
    {
        node_color_of(node, analysis_results)
    }

    /// The scope groups of the graph: levels ascending, each with its
    /// nodes' indices in node order.
    fn group_by_scope(&self, graph: &VarGraph) -> (r: Vec<(usize, Vec<usize>)>)
        ensures
            groups_view(r@) == scope_groups(node_views(*graph)),
    {
        group_nodes_by_scope(graph)
    }

    /// Where each scope box would start: centred horizontally for a box of
    /// 120 pixels per variable plus 40, the first at 80 and each 130 below
    /// the one before.
    fn calculate_scope_positions(&self, scopes: &Vec<(usize, Vec<usize>)>) -> (r: Vec<(usize, (u32, u32))>)
        requires
            forall|k: int| 0 <= k < scopes@.len() ==> (#[trigger] scopes@[k]).1@.len() * 120 + 40 <= self.config().width,
            80 + scopes@.len() * 140 <= u32::MAX,
        ensures
            r@.len() == scopes@.len(),
            forall|k: int| 0 <= k < r@.len() ==> #[trigger] r@[k] == (scopes@[k].0, (
                ((self.config().width - (scopes@[k].1@.len() * 120 + 40)) / 2) as u32,
                (80 + k * 130) as u32,
            )),
    {
        let mut positions: Vec<(usize, (u32, u32))> = Vec::new();
        let mut y: u32 = 80;
        let mut k: usize = 0;
        while k < scopes.len()
            invariant
                k <= scopes@.len(),
                forall|j: int| 0 <= j < scopes@.len() ==> (#[trigger] scopes@[j]).1@.len() * 120 + 40 <= self.config().width,
                80 + scopes@.len() * 140 <= u32::MAX,
                y == 80 + k * 130,
                positions@.len() == k,
                forall|j: int| 0 <= j < k ==> #[trigger] positions@[j] == (scopes@[j].0, (
                    ((self.config().width - (scopes@[j].1@.len() * 120 + 40)) / 2) as u32,
                    (80 + j * 130) as u32,
                )),
            decreases scopes@.len() - k,
        {
            assert(scopes@[k as int].1@.len() * 120 + 40 <= self.config().width);
            let scope_width: u32 = (scopes[k].1.len() as u32) * 120 + 40;
            let x = (self.config.width - scope_width) / 2;
            positions.push((scopes[k].0, (x, y)));
            y = y + 130;
            k = k + 1;
        }
        positions
    }
}

impl Default for SvgRenderer {
    fn default() -> (r: Self)
        ensures
            r.config() == default_svg_config(),
    {
        Self::new()
    }
}

/// The colour of a variable: light grey if unused, else the colour of its
/// last status that is not a drop, green if there is none.
pub fn node_color_of(node: &VarNode, analysis_results: &[AnalysisResult]) -> (r: String)
    ensures
        r@ == node_color(node@, results_view(analysis_results@)),
{
    if !node.used {
        return string_of("#EEEEEE");
    }
    match last_live_status_of(node, analysis_results) {
        Some(OwnershipStatus::Owned) => string_of("#4CAF50"),
        Some(OwnershipStatus::Moved) => string_of("#FF9800"),
        Some(OwnershipStatus::Borrowed(BorrowKind::Immutable)) => string_of("#2196F3"),
        Some(OwnershipStatus::Borrowed(BorrowKind::Mutable)) => string_of("#F44336"),
        Some(OwnershipStatus::Dropped) => string_of("#9E9E9E"),
        None => string_of("#4CAF50"),
    }
}

/// The status of the last ownership change reported for the variable's
/// name that is not a drop, if any.
pub fn last_live_status_of(node: &VarNode, analysis_results: &[AnalysisResult]) -> (r: Option<OwnershipStatus>)
    ensures
        r == last_live_status(results_view(analysis_results@), node.name@),
{
    let ghost rv = results_view(analysis_results@);
    let mut last: Option<OwnershipStatus> = None;
    let mut i: usize = 0;
    while i < analysis_results.len()
        invariant
            rv == results_view(analysis_results@),
            i <= analysis_results@.len(),
            last == last_live_status(rv.take(i as int), node.name@),
        decreases analysis_results@.len() - i,
    {
        assert(rv.take(i + 1).drop_last() =~= rv.take(i as int));
        assert(rv.take(i + 1).last() == analysis_results@[i as int]@);
        if let AnalysisResult::OwnershipChange { name, new_status, .. } = &analysis_results[i] {
            if node.name == *name {
                match new_status {
                    OwnershipStatus::Dropped => {},
                    _ => {
                        last = Some(*new_status);
                    },
                }
            }
        }
        i = i + 1;
    }
    assert(rv.take(analysis_results@.len() as int) =~= rv);
    last
}

/// Appends the legend entry `i`.
fn push_legend_item(svg: &mut String, i: u32, label: &str, color: &str)
    requires
        i < 4,
    ensures
        final(svg)@ == old(svg)@ + legend_item(i as nat, label@, color@),
{
    svg.append("    <rect x=\"0\" y=\"");
    push_u32(svg, 20 + i * 25);
    svg.append("\" width=\"20\" height=\"20\" fill=\"");
    svg.append(color);
    svg.append("\" stroke=\"#333\"/>\n    <text x=\"30\" y=\"");
    push_u32(svg, 35 + i * 25);
    svg.append("\" font-family=\"Arial\" font-size=\"12\">");
    svg.append(label);
    svg.append("</text>\n");
    assert(final(svg)@ =~= old(svg)@ + legend_item(i as nat, label@, color@));
}

/// Appends a variable's box centred at (`x`, `y`).
fn push_node_box(svg: &mut String, node: &VarNode, x: u32, y: u32, color: &str)
    ensures
        final(svg)@ == old(svg)@ + svg_node(node@, x as nat, y as nat, color@),
{
    let is_mutable = node.is_mutable;
    let font_color = if is_mutable { "#D32F2F" } else { "#333" };
    let text_color = if !node.used { "#999" } else { font_color };
    svg.append("  <g transform=\"translate(");
    push_u32(svg, x);
    svg.append(", ");
    push_u32(svg, y);
    svg.append(")\">\n    <rect x=\"-40\" y=\"-20\" width=\"80\" height=\"40\" rx=\"5\" fill=\"");
    svg.append(color);
    svg.append("\" stroke=\"#333\" stroke-width=\"2\"/>\n    <text x=\"0\" y=\"5\" text-anchor=\"middle\" font-family=\"Arial\" font-size=\"14\" font-weight=\"bold\" fill=\"");
    svg.append(text_color);
    svg.append("\">");
    svg.append(node.name.as_str());
    svg.append("</text>\n");
    if is_mutable {
        svg.append("    <text x=\"0\" y=\"18\" text-anchor=\"middle\" font-family=\"Arial\" font-size=\"10\" fill=\"#D32F2F\">mut</text>\n");
    }
    svg.append("  </g>\n");
    assert(final(svg)@ =~= old(svg)@ + svg_node(node@, x as nat, y as nat, color@));
}


/// The colour coding of the pictures: an unused variable is light grey; a
/// used one takes the colour of its last status that is not a drop (owned
/// green, moved orange, shared borrow blue, exclusive borrow red), and green
/// when it has none.
pub proof fn lemma_colour_coding(n: VarNodeView, results: Seq<ResultView>)
    ensures
        !n.used ==> node_color(n, results) == "#EEEEEE"@,
        n.used && last_live_status(results, n.name) is None ==> node_color(n, results) == "#4CAF50"@,
        n.used && last_live_status(results, n.name) == Some(OwnershipStatus::Owned) ==> node_color(n, results) == "#4CAF50"@,
        n.used && last_live_status(results, n.name) == Some(OwnershipStatus::Moved) ==> node_color(n, results) == "#FF9800"@,
        n.used && last_live_status(results, n.name) == Some(OwnershipStatus::Borrowed(BorrowKind::Immutable))
            ==> node_color(n, results) == "#2196F3"@,
        n.used && last_live_status(results, n.name) == Some(OwnershipStatus::Borrowed(BorrowKind::Mutable))
            ==> node_color(n, results) == "#F44336"@,
        last_live_status(results, n.name) != Some(OwnershipStatus::Dropped),
    decreases results.len(),
{
    if results.len() > 0 {
        lemma_colour_coding(n, results.drop_last());
    }
}


/// The title of a picture is fixed by the configuration or the file name:
/// a configured title, no file name, or a file name that all platforms read
/// alike.
pub open spec fn title_fixed(c: SvgConfigView, filename: Option<Seq<char>>) -> bool {
    ||| c.title is Some
    ||| filename is None
    ||| portable_path(filename->0)
}

/// Equal configurations draw the same picture of the same graph and
/// results, when the configuration or the file name fixes the title; so the
/// renderers of `new`, `default` and `with_config(SvgConfig::default())`
/// draw alike.
pub proof fn lemma_equal_configs_draw_alike(
    c1: SvgConfigView,
    c2: SvgConfigView,
    filename: Option<Seq<char>>,
    t1: Seq<char>,
    t2: Seq<char>,
    nodes: Seq<VarNodeView>,
    edge_count: nat,
    results: Seq<ResultView>,
)
    requires
        c1 == c2,
        title_fixed(c1, filename),
        title_fits(c1, filename, t1),
        title_fits(c2, filename, t2),
    ensures
        t1 == t2,
        svg_text(c1, t1, nodes, edge_count, results) == svg_text(c2, t2, nodes, edge_count, results),
{
}


} // verus!
