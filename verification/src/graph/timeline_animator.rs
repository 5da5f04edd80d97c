//! A frame-by-frame animation of the analysis: one frame per result, each
//! showing every variable coloured by its status after that result, and an
//! HTML page that steps through the frames.

use vstd::prelude::*;
use crate::analysis::{AnalysisResult, BorrowKind, OwnershipStatus, ResultView, results_view, is_change};
use crate::assoc::{key_pos, keys_of, lemma_key_pos, find_key};
use crate::graph::svg_renderer::status_color;
use crate::graph::interactive_svg::{panel_width, label_color, label_color_of};
use crate::graph::variable_graph::{VarGraph, VarNode, VarNodeView, graph_nodes, node_views, graph_node,
    graph_node_count};
use crate::graph::scopes::{scope_groups, group_nodes_by_scope, groups_view, lemma_groups_in_range,
    lemma_groups_nonempty};
use crate::text::{push_u32, push_usize, decimal, string_of};

verus! {

/// The opening of the animated picture: 900 by 250 pixels, and its style sheet.
pub const TIMELINE_SVG_HEAD: &'static str = "<svg xmlns=\"http://www.w3.org/2000/svg\" width=\"900\" height=\"250\" viewBox=\"0 0 900 250\">\n                <style>\n                    .node { cursor: pointer; transition: fill 0.5s ease; }\n                    .scope-box { fill: #E3F2FD; stroke: #1976D2; stroke-width: 2; rx: 10; }\n                    .title { font-family: Arial, sans-serif; font-size: 20px; font-weight: bold; fill: #1976D2; }\n                </style>\n            ";

/// The page up to the title in the head.
pub const PAGE_HEAD: &'static str = "<!DOCTYPE html>\n<html lang=\"zh-CN\">\n<head>\n    <meta charset=\"UTF-8\">\n    <meta name=\"viewport\" content=\"width=device-width, initial-scale=1.0\">\n    <title>Rust Ownership Timeline Animation - ";

/// The page from the title in the head to the file name in the header: the
/// style sheet.
pub const PAGE_STYLE: &'static str = "</title>\n    <style>\n        * {\n            box-sizing: border-box;\n            margin: 0;\n            padding: 0;\n        }\n        body {\n            font-family: 'Segoe UI', Arial, sans-serif;\n            background: linear-gradient(135deg, #667eea 0%, #764ba2 100%);\n            min-height: 100vh;\n            display: flex;\n            justify-content: center;\n            align-items: center;\n            padding: 20px;\n        }\n        .container {\n            background: white;\n            border-radius: 16px;\n            box-shadow: 0 20px 60px rgba(0,0,0,0.2);\n            padding: 30px;\n            max-width: 1000px;\n            width: 100%;\n        }\n        .header {\n            text-align: center;\n            margin-bottom: 25px;\n        }\n        .header h1 {\n            color: #1976D2;\n            font-size: 28px;\n            font-weight: 700;\n            margin-bottom: 8px;\n        }\n        .header p {\n            color: #666;\n            font-size: 14px;\n        }\n        .legend {\n            display: flex;\n            justify-content: center;\n            gap: 25px;\n            margin-bottom: 25px;\n            flex-wrap: wrap;\n        }\n        .legend-item {\n            display: flex;\n            align-items: center;\n            gap: 8px;\n            font-size: 14px;\n            color: #333;\n        }\n        .legend-color {\n            width: 24px;\n            height: 24px;\n            border-radius: 6px;\n            box-shadow: 0 2px 4px rgba(0,0,0,0.1);\n        }\n        .legend-color.owned { background: #4CAF50; }\n        .legend-color.immutable { background: #2196F3; }\n        .legend-color.mutable { background: #F55050; }\n        .legend-color.moved { background: #FF9800; }\n        .legend-color.unused { background: #E0E0E0; }\n        .svg-container {\n            background: #FAFAFA;\n            border-radius: 12px;\n            padding: 20px;\n            margin-bottom: 20px;\n        }\n        svg {\n            display: block;\n            margin: 0 auto;\n        }\n        .controls {\n            background: #F8F9FA;\n            border-radius: 12px;\n            padding: 20px;\n            display: flex;\n            align-items: center;\n            justify-content: center;\n            gap: 20px;\n        }\n        .btn {\n            width: 48px;\n            height: 48px;\n            border: none;\n            border-radius: 50%;\n            background: linear-gradient(135deg, #64B5F6, #42A5F5);\n            color: white;\n            font-size: 20px;\n            cursor: pointer;\n            display: flex;\n            align-items: center;\n            justify-content: center;\n            transition: all 0.3s ease;\n            box-shadow: 0 4px 12px rgba(66, 165, 245, 0.4);\n        }\n        .btn:hover {\n            transform: translateY(-2px);\n            box-shadow: 0 6px 16px rgba(66, 165, 245, 0.5);\n        }\n        .btn:active {\n            transform: translateY(0);\n        }\n        .frame-info {\n            font-size: 16px;\n            font-weight: 600;\n            color: #333;\n            min-width: 100px;\n            text-align: center;\n        }\n        .progress-container {\n            flex: 1;\n            max-width: 300px;\n        }\n        .progress-bar {\n            height: 8px;\n            background: #E0E0E0;\n            border-radius: 4px;\n            overflow: hidden;\n        }\n        .progress-fill {\n            height: 100%;\n            background: linear-gradient(90deg, #4CAF50, #81C784);\n            border-radius: 4px;\n            transition: width 0.3s ease;\n        }\n        .event-info {\n            margin-top: 15px;\n            text-align: center;\n            padding: 12px;\n            background: #E3F2FD;\n            border-radius: 8px;\n            color: #1976D2;\n            font-weight: 500;\n            font-size: 14px;\n        }\n        .node {\n            cursor: pointer;\n            transition: all 0.3s ease;\n        }\n        .node:hover {\n            transform: scale(1.05);\n            filter: brightness(1.1);\n        }\n        .scope-box {\n            fill: rgba(227, 242, 253, 0.8);\n            stroke: #1976D2;\n            stroke-width: 2;\n            rx: 12;\n        }\n        .title {\n            font-family: 'Segoe UI', Arial, sans-serif;\n            font-size: 22px;\n            font-weight: 700;\n            fill: #1976D2;\n        }\n        .scope-label {\n            font-family: 'Segoe UI', Arial, sans-serif;\n            font-size: 16px;\n            font-weight: 600;\n            fill: #1976D2;\n        }\n        .var-label {\n            font-family: 'Segoe UI', Arial, sans-serif;\n            font-size: 14px;\n            font-weight: 600;\n            fill: white;\n            text-shadow: 0 1px 2px rgba(0,0,0,0.2);\n        }\n        .timeline-progress {\n            fill: #4CAF50;\n            transition: width 0.3s ease;\n        }\n    </style>\n</head>\n<body>\n    <div class=\"container\">\n        <div class=\"header\">\n            <h1>📊 Rust Ownership Timeline Animation</h1>\n            <p>Visualizing Rust's ownership system - File: ";

/// The page from the file name to the picture: the legend.
pub const PAGE_LEGEND: &'static str = "</p>\n        </div>\n        \n        <div class=\"legend\">\n            <div class=\"legend-item\">\n                <div class=\"legend-color owned\"></div>\n                <span>Owned (拥有所有权)</span>\n            </div>\n            <div class=\"legend-item\">\n                <div class=\"legend-color immutable\"></div>\n                <span>Immutable Borrow (不可变借用)</span>\n            </div>\n            <div class=\"legend-item\">\n                <div class=\"legend-color mutable\"></div>\n                <span>Mutable Borrow (可变借用)</span>\n            </div>\n            <div class=\"legend-item\">\n                <div class=\"legend-color moved\"></div>\n                <span>Moved (所有权已移动)</span>\n            </div>\n            <div class=\"legend-item\">\n                <div class=\"legend-color unused\"></div>\n                <span>Unused (未使用)</span>\n            </div>\n        </div>\n        \n        <div class=\"svg-container\">\n            ";

/// The page from the picture to the frame count: the controls.
pub const PAGE_CONTROLS: &'static str = "\n        </div>\n        \n        <div class=\"controls\">\n            <button class=\"btn\" onclick=\"prevFrame()\" title=\"上一帧\">\n                ⏮️\n            </button>\n            <div class=\"frame-info\">\n                <span id=\"frame-info\">Frame 1 / ";

/// The page from the frame count shown to the one the script holds.
pub const PAGE_PROGRESS: &'static str = "</span>\n            </div>\n            <div class=\"progress-container\">\n                <div class=\"progress-bar\">\n                    <div class=\"progress-fill\" id=\"progress\" style=\"width: 0%\"></div>\n                </div>\n            </div>\n            <button class=\"btn\" onclick=\"nextFrame()\" title=\"下一帧\">\n                ⏭️\n            </button>\n        </div>\n        \n        <div class=\"event-info\" id=\"event-info\">\n            Initial state\n        </div>\n    </div>\n    \n    <script>\n        var currentFrame = 0;\n        var totalFrames = ";

/// The page from the frame count the script holds to the event list.
pub const PAGE_EVENTS: &'static str = ";\n        var events = ";

/// The rest of the page: the script that steps through the frames.
pub const PAGE_SCRIPT: &'static str = ";\n        \n        function setFrame(frame) {\n            currentFrame = Math.max(0, Math.min(frame, totalFrames - 1));\n            updateDisplay();\n        }\n        \n        function nextFrame() {\n            setFrame(currentFrame + 1);\n        }\n        \n        function prevFrame() {\n            setFrame(currentFrame - 1);\n        }\n        \n        function updateDisplay() {\n            document.querySelectorAll('.frame-content').forEach(el => el.style.display = 'none');\n            document.getElementById('frame-' + currentFrame).style.display = 'block';\n            document.getElementById('progress').style.width = ((currentFrame / (totalFrames - 1)) * 100) + '%';\n            document.getElementById('frame-info').textContent = 'Frame ' + (currentFrame + 1) + ' / ' + totalFrames;\n            document.getElementById('event-info').textContent = events[currentFrame];\n        }\n    </script>\n</body>\n</html>";

/// One frame of the animation.
pub struct FrameData {
    /// The frame's number.
    pub frame_index: usize,
    /// The number of frames.
    pub total_frames: usize,
    /// Each variable name of the graph, once, in node order, with its status
    /// in this frame.
    pub node_states: Vec<(String, OwnershipStatus)>,
    /// What the frame's result says.
    pub event_description: String,
}

/// A frame, its texts as characters.
pub struct FrameView {
    pub frame_index: usize,
    pub total_frames: usize,
    pub node_states: Seq<(Seq<char>, OwnershipStatus)>,
    pub event_description: Seq<char>,
}

/// The view of a list of name and status pairs.
pub open spec fn states_view(v: Seq<(String, OwnershipStatus)>) -> Seq<(Seq<char>, OwnershipStatus)> {
    v.map_values(|e: (String, OwnershipStatus)| (e.0@, e.1))
}

impl View for FrameData {
    type V = FrameView;

    open spec fn view(&self) -> FrameView {
        FrameView {
            frame_index: self.frame_index,
            total_frames: self.total_frames,
            node_states: states_view(self.node_states@),
            event_description: self.event_description@,
        }
    }
}

/// Steps through the analysis results of a graph.
pub struct TimelineAnimator {
    graph: VarGraph,
    results: Vec<AnalysisResult>,
    frame_count: usize,
}

/// The number of frames of `n` results: one each, and one if there are none.
pub open spec fn frame_count_of(n: nat) -> nat {
    if n == 0 {
        1
    } else {
        n
    }
}

/// The status of `name` after `results`: that of the last ownership change
/// reported for it, `Owned` if there is none.
pub open spec fn status_at(results: Seq<ResultView>, name: Seq<char>) -> OwnershipStatus
    decreases results.len(),
{
    if results.len() == 0 {
        OwnershipStatus::Owned
    } else {
        match results.last() {
            ResultView::OwnershipChange { name: n, new_status, .. } =>
                if n == name {
                    new_status
                } else {
                    status_at(results.drop_last(), name)
                },
            _ => status_at(results.drop_last(), name),
        }
    }
}

/// The results shown in frame `i`: those up to it, or all if `i` is past
/// the last.
pub open spec fn frame_results(results: Seq<ResultView>, i: nat) -> Seq<ResultView> {
    if i < results.len() {
        results.take(i + 1 as int)
    } else {
        results
    }
}

/// The variable names of the nodes, each once, in the order of their first node.
pub open spec fn names_in(nodes: Seq<VarNodeView>) -> Seq<Seq<char>>
    decreases nodes.len(),
{
    if nodes.len() == 0 {
        Seq::empty()
    } else {
        let prev = names_in(nodes.drop_last());
        if key_pos(prev, nodes.last().name) >= 0 {
            prev
        } else {
            prev.push(nodes.last().name)
        }
    }
}

/// Each variable name of the nodes, once, with its status after `active`.
pub open spec fn frame_states(nodes: Seq<VarNodeView>, active: Seq<ResultView>) -> Seq<(Seq<char>, OwnershipStatus)> {
    names_in(nodes).map_values(|n: Seq<char>| (n, status_at(active, n)))
}

/// What a status change means.
pub open spec fn status_description(st: OwnershipStatus) -> Seq<char> {
    match st {
        OwnershipStatus::Owned => "Variable declared"@,
        OwnershipStatus::Moved => "Ownership moved"@,
        OwnershipStatus::Borrowed(BorrowKind::Immutable) => "Immutable borrow"@,
        OwnershipStatus::Borrowed(BorrowKind::Mutable) => "Mutable borrow"@,
        OwnershipStatus::Dropped => "Variable dropped"@,
    }
}

/// What result `i` says: the change and the variable's name, `Unknown event`
/// for a result of another kind, `Analysis complete` past the last.
pub open spec fn event_description(results: Seq<ResultView>, i: nat) -> Seq<char> {
    if i >= results.len() {
        "Analysis complete"@
    } else {
        match results[i as int] {
            ResultView::OwnershipChange { name, new_status, .. } => status_description(new_status) + ": "@ + name,
            _ => "Unknown event"@,
        }
    }
}

/// One entry of the script's event list: a quoted description.
pub open spec fn event_item(r: ResultView) -> Seq<char> {
    match r {
        ResultView::OwnershipChange { name, new_status, .. } => "\""@ + status_description(new_status) + ": "@ + name + "\""@,
        _ => "\"Unknown event\""@,
    }
}

/// The entries of the event list, separated by `, `.
pub open spec fn event_items(results: Seq<ResultView>) -> Seq<char>
    decreases results.len(),
{
    if results.len() == 0 {
        Seq::empty()
    } else if results.len() == 1 {
        event_item(results[0])
    } else {
        event_items(results.drop_last()) + ", "@ + event_item(results.last())
    }
}

/// The script's event list.
pub open spec fn events_js(results: Seq<ResultView>) -> Seq<char> {
    "["@ + event_items(results) + "]"@
}

/// A variable's box and name in a frame, the box's left edge at `x` and its
/// centre line at `y`.
pub open spec fn timeline_node(n: VarNodeView, x: nat, y: nat, color: Seq<char>) -> Seq<char> {
    "<rect x=\""@ + decimal(x) + "\" y=\""@ + decimal((y - 20) as nat) + "\" width=\"80\" height=\"40\" rx=\"8\" fill=\""@
        + color + "\" stroke=\"#333\" stroke-width=\"2\" class=\"node\"/>\n"@
        + "<text x=\""@ + decimal(x + 40) + "\" y=\""@ + decimal((y - 5) as nat)
        + "\" font-family=\"Arial\" font-size=\"12\" font-weight=\"bold\" fill=\""@ + label_color(color)
        + "\" text-anchor=\"middle\">"@ + n.name + "</text>\n"@
}

/// The variables of a scope box in a frame, the `k`-th one 120 pixels right
/// of the one before, each coloured by its status after `active`.
pub open spec fn timeline_scope_nodes(idxs: Seq<usize>, nodes: Seq<VarNodeView>, active: Seq<ResultView>, x0: nat, y: nat) -> Seq<char>
    decreases idxs.len(),
{
    if idxs.len() == 0 {
        Seq::empty()
    } else {
        let k = (idxs.len() - 1) as nat;
        let n = nodes[idxs.last() as int];
        timeline_scope_nodes(idxs.drop_last(), nodes, active, x0, y)
            + timeline_node(n, x0 + k * 120, y, status_color(status_at(active, n.name)))
    }
}

/// The box of one scope in a frame, its top at `y`, centred in 900 pixels.
pub open spec fn timeline_scope(level: usize, idxs: Seq<usize>, nodes: Seq<VarNodeView>, active: Seq<ResultView>, y: nat) -> Seq<char> {
    let w = panel_width(idxs.len());
    let x = ((900 - w) / 2) as nat;
    "<rect x=\""@ + decimal(x) + "\" y=\""@ + decimal(y) + "\" width=\""@ + decimal(w)
        + "\" height=\"110\" class=\"scope-box\"/>\n"@
        + "<text x=\""@ + decimal(x + w / 2) + "\" y=\""@ + decimal(y + 25)
        + "\" font-family=\"Arial\" font-size=\"14\" font-weight=\"bold\" fill=\"#1976D2\" text-anchor=\"middle\">Scope "@
        + decimal(level as nat) + "</text>\n"@
        + timeline_scope_nodes(idxs, nodes, active, x + 20, y + 55)
}

/// The scope boxes of a frame, the first with its top at 60 and each 140
/// pixels below the one before.
pub open spec fn timeline_scopes(groups: Seq<(usize, Seq<usize>)>, nodes: Seq<VarNodeView>, active: Seq<ResultView>) -> Seq<char>
    decreases groups.len(),
{
    if groups.len() == 0 {
        Seq::empty()
    } else {
        let y = (60 + (groups.len() - 1) * 140) as nat;
        timeline_scopes(groups.drop_last(), nodes, active) + timeline_scope(groups.last().0, groups.last().1, nodes, active, y)
    }
}

/// The picture of frame `i`.
pub open spec fn frame_content(nodes: Seq<VarNodeView>, results: Seq<ResultView>, i: nat) -> Seq<char> {
    timeline_scopes(scope_groups(nodes), nodes, frame_results(results, i))
}

/// The group of frame `i`, shown only for the first frame.
pub open spec fn frame_block(nodes: Seq<VarNodeView>, results: Seq<ResultView>, i: nat) -> Seq<char> {
    "<g id=\"frame-"@ + decimal(i) + "\" class=\"frame-content\" style=\"display: "@
        + (if i == 0 { "block"@ } else { "none"@ }) + ";\">\n"@ + frame_content(nodes, results, i) + "</g>\n"@
}

/// The groups of the first `k` frames.
pub open spec fn frame_blocks(nodes: Seq<VarNodeView>, results: Seq<ResultView>, k: nat) -> Seq<char>
    decreases k,
{
    if k == 0 {
        Seq::empty()
    } else {
        frame_blocks(nodes, results, (k - 1) as nat) + frame_block(nodes, results, (k - 1) as nat)
    }
}

/// The animated picture: the head, the title, and one group per result.
pub open spec fn animated_svg(nodes: Seq<VarNodeView>, results: Seq<ResultView>, title: Seq<char>) -> Seq<char> {
    TIMELINE_SVG_HEAD@ + "<text x=\""@ + decimal(450) + "\" y=\"30\" class=\"title\" text-anchor=\"middle\">"@ + title
        + " - Timeline Animation</text>\n"@ + frame_blocks(nodes, results, results.len()) + "</svg>"@
}

/// The page: the title twice, the picture, the frame count twice and the event list.
pub open spec fn animated_page(title: Seq<char>, svg: Seq<char>, frames: nat, events: Seq<char>) -> Seq<char> {
    PAGE_HEAD@ + title + PAGE_STYLE@ + title + PAGE_LEGEND@ + svg + PAGE_CONTROLS@ + decimal(frames)
        + PAGE_PROGRESS@ + decimal(frames) + PAGE_EVENTS@ + events + PAGE_SCRIPT@
}

/// Every scope box fits in 900 pixels, and every box's top is within range.
pub open spec fn timeline_fits(nodes: Seq<VarNodeView>) -> bool {
    let groups = scope_groups(nodes);
    &&& forall|k: int| 0 <= k < groups.len() ==> (#[trigger] groups[k]).1.len() * 120 <= 900
    &&& 60 + groups.len() * 140 <= u32::MAX
}

/// The name of node `i` is among the names of the nodes.
proof fn lemma_names_in(nodes: Seq<VarNodeView>, i: int)
    requires
        0 <= i < nodes.len(),
    ensures
        key_pos(names_in(nodes), nodes[i].name) >= 0,
    decreases nodes.len(),
{
    let prev = names_in(nodes.drop_last());
    let last = nodes.last().name;
    lemma_key_pos(prev, nodes[i].name);
    lemma_key_pos(prev.push(last), nodes[i].name);
    assert(prev.push(last).drop_last() =~= prev);
    if i < nodes.len() - 1 {
        lemma_names_in(nodes.drop_last(), i);
        assert(nodes.drop_last()[i] == nodes[i]);
        assert(prev.push(last)[key_pos(prev, nodes[i].name)] == nodes[i].name);
    } else {
        assert(prev.push(last)[prev.len() as int] == last);
    }
}

/// The status of a name in a frame's states is its status after the
/// frame's results.
proof fn lemma_state_of(nodes: Seq<VarNodeView>, active: Seq<ResultView>, name: Seq<char>)
    requires
        key_pos(names_in(nodes), name) >= 0,
    ensures
        frame_states(nodes, active)[key_pos(names_in(nodes), name)] == (name, status_at(active, name)),
{
    lemma_key_pos(names_in(nodes), name);
}

/// The keys of a frame's states are the variable names of the nodes.
proof fn lemma_state_keys(v: Seq<(String, OwnershipStatus)>, nodes: Seq<VarNodeView>, active: Seq<ResultView>)
    requires
        states_view(v) == frame_states(nodes, active),
    ensures
        keys_of(v) == names_in(nodes),
{
    assert(states_view(v).len() == v.len());
    assert(frame_states(nodes, active).len() == names_in(nodes).len());
    assert forall|j: int| 0 <= j < v.len() implies #[trigger] keys_of(v)[j] == names_in(nodes)[j] by {
        assert(states_view(v)[j] == frame_states(nodes, active)[j]);
        assert(states_view(v)[j] == (v[j].0@, v[j].1));
        assert(frame_states(nodes, active)[j] == (names_in(nodes)[j], status_at(active, names_in(nodes)[j])));
        assert(keys_of(v)[j] == v[j].0@);
    }
    assert(keys_of(v) =~= names_in(nodes));
}

impl TimelineAnimator {
    /// The graph.
    pub closed spec fn graph(&self) -> VarGraph {
        self.graph
    }

    /// The results, one per frame.
    pub closed spec fn results(&self) -> Seq<ResultView> {
        results_view(self.results@)
    }

    /// The number of frames matches the results.
    #[verifier::type_invariant]
    spec fn frames_match(&self) -> bool {
        self.frame_count == frame_count_of(self.results@.len())
    }

    /// An animator of the graph's results.
    pub fn new(graph: VarGraph, results: Vec<AnalysisResult>) -> (r: Self)
        ensures
            r.graph() == graph,
            r.results() == results_view(results@),
    {
        let frame_count = if results.len() > 1 { results.len() } else { 1 };
        TimelineAnimator { graph, results, frame_count }
    }

    /// The number of frames: one per result, and one if there are none.
    pub fn get_frame_count(&self) -> (r: usize)
        ensures
            r == frame_count_of(self.results().len()),
    {
        proof {
            use_type_invariant(self);
        }
        self.frame_count
    }

    /// Frame `frame_index`: every variable name with its status after the
    /// results up to the frame's (all of them past the last), and what the
    /// frame's result says.
    pub fn generate_frame(&self, frame_index: usize) -> (r: FrameData)
        requires
            self.results().len() > 0,
        ensures
            r@ == (FrameView {
                frame_index,
                total_frames: frame_count_of(self.results().len()) as usize,
                node_states: frame_states(node_views(self.graph()), frame_results(self.results(), frame_index as nat)),
                event_description: event_description(self.results(), frame_index as nat),
            }),
    {
        proof {
            use_type_invariant(self);
        }
        let ghost nodes = node_views(self.graph);
        let last = self.results.len() - 1;
        let upto = if frame_index < last { frame_index + 1 } else { last + 1 };
        let ghost active = self.results().take(upto as int);
        assert(active == frame_results(self.results(), frame_index as nat)) by {
            assert(self.results().take(self.results().len() as int) =~= self.results());
        }
        let mut node_states: Vec<(String, OwnershipStatus)> = Vec::new();
        let n = graph_node_count(&self.graph);
        let mut i: usize = 0;
        while i < n
            invariant
                nodes == node_views(self.graph),
                n == nodes.len(),
                upto <= self.results@.len(),
                active == self.results().take(upto as int),
                i <= n,
                states_view(node_states@) == frame_states(nodes.take(i as int), active),
            decreases n - i,
        {
            let node = graph_node(&self.graph, i);
            assert(nodes[i as int] == node@);
            let status = self.get_node_status_at_frame(&node.name, upto);
            let ghost prev = names_in(nodes.take(i as int));
            assert(nodes.take(i + 1).drop_last() =~= nodes.take(i as int));
            proof {
                lemma_state_keys(node_states@, nodes.take(i as int), active);
            }
            let ghost old_states = node_states@;
            match find_key(&node_states, &node.name) {
                Some(_) => {
                    assert(names_in(nodes.take(i + 1)) == prev);
                },
                None => {
                    node_states.push((node.name.clone(), status));
                    assert(names_in(nodes.take(i + 1)) == prev.push(node.name@));
                    assert(states_view(node_states@) =~= states_view(old_states).push((node.name@, status)));
                    assert(states_view(node_states@) =~= frame_states(nodes.take(i + 1), active));
                },
            }
            i = i + 1;
        }
        assert(nodes.take(n as int) =~= nodes);
        FrameData {
            frame_index,
            total_frames: self.frame_count,
            node_states,
            event_description: self.get_event_description(frame_index),
        }
    }

    /// The status of `node_name` after the first `upto` results: that of the
    /// last ownership change reported for it, `Owned` if there is none.
    fn get_node_status_at_frame(&self, node_name: &String, upto: usize) -> (r: OwnershipStatus)
        requires
            upto <= self.results().len(),
        ensures
            r == status_at(self.results().take(upto as int), node_name@),
    {
        let ghost rv = self.results();
        let mut status = OwnershipStatus::Owned;
        let mut i: usize = 0;
        while i < upto
            invariant
                rv == self.results(),
                upto <= rv.len(),
                i <= upto,
                status == status_at(rv.take(i as int), node_name@),
            decreases upto - i,
        {
            assert(rv.take(i + 1).drop_last() =~= rv.take(i as int));
            assert(rv.take(i + 1).last() == self.results@[i as int]@);
            if let AnalysisResult::OwnershipChange { name, new_status, .. } = &self.results[i] {
                if *name == *node_name {
                    status = *new_status;
                }
            }
            i = i + 1;
        }
        status
    }

    /// What result `frame_index` says.
    fn get_event_description(&self, frame_index: usize) -> (r: String)
        ensures
            r@ == event_description(self.results(), frame_index as nat),
    {
        if frame_index >= self.results.len() {
            return string_of("Analysis complete");
        }
        match &self.results[frame_index] {
            AnalysisResult::OwnershipChange { name, new_status, .. } => {
                let mut s = self.status_description(new_status);
                s.append(": ");
                s.append(name.as_str());
                s
            },
            _ => string_of("Unknown event"),
        }
    }

    /// What a status change means.
    fn status_description(&self, status: &OwnershipStatus) -> (r: String)
        ensures
            r@ == status_description(*status),
    {
        match status {
            OwnershipStatus::Owned => string_of("Variable declared"),
            OwnershipStatus::Moved => string_of("Ownership moved"),
            OwnershipStatus::Borrowed(BorrowKind::Immutable) => string_of("Immutable borrow"),
            OwnershipStatus::Borrowed(BorrowKind::Mutable) => string_of("Mutable borrow"),
            OwnershipStatus::Dropped => string_of("Variable dropped"),
        }
    }

    /// Whether the animation can be drawn: there are no frames to draw, or
    /// every scope box fits.
    pub fn can_animate(&self) -> (r: bool)
        ensures
            r == (self.results().len() == 0 || timeline_fits(node_views(self.graph()))),
    {
        if self.results.len() == 0 {
            return true;
        }
        let ghost nodes = node_views(self.graph);
        let ghost groups = scope_groups(nodes);
        let scopes = group_nodes_by_scope(&self.graph);
        if scopes.len() > 30678337 {
            assert(60 + groups.len() * 140 > u32::MAX);
            return false;
        }
        let mut k: usize = 0;
        while k < scopes.len()
            invariant
                nodes == node_views(self.graph),
                groups == scope_groups(nodes),
                groups_view(scopes@) == groups,
                self.results().len() > 0,
                60 + groups.len() * 140 <= u32::MAX,
                k <= scopes@.len(),
                forall|j: int| 0 <= j < k ==> (#[trigger] groups[j]).1.len() * 120 <= 900,
            decreases scopes@.len() - k,
        {
            assert(groups[k as int].1.len() == scopes@[k as int].1@.len());
            if scopes[k].1.len() > 7 {
                assert(groups[k as int].1.len() * 120 > 900);
                return false;
            }
            k = k + 1;
        }
        true
    }

    /// The animated picture under the given title: one group per result,
    /// only the first shown.
    pub fn generate_animated_svg(&self, title: &str) -> (r: String)
        requires
            self.results().len() == 0 || timeline_fits(node_views(self.graph())),
        ensures
            r@ == animated_svg(node_views(self.graph()), self.results(), title@),
    {
        let ghost nodes = node_views(self.graph);
        let ghost results = self.results();
        let width: u32 = 900;
        let mut svg = string_of(TIMELINE_SVG_HEAD);
        svg.append("<text x=\"");
        push_u32(&mut svg, width / 2);
        svg.append("\" y=\"30\" class=\"title\" text-anchor=\"middle\">");
        svg.append(title);
        svg.append(" - Timeline Animation</text>\n");
        let ghost start = svg@;
        let mut frame_idx: usize = 0;
        while frame_idx < self.results.len()
            invariant
                nodes == node_views(self.graph),
                results == self.results(),
                results.len() == 0 || timeline_fits(nodes),
                frame_idx <= results.len(),
                svg@ == start + frame_blocks(nodes, results, frame_idx as nat),
            decreases results.len() - frame_idx,
        {
            svg.append("<g id=\"frame-");
            push_usize(&mut svg, frame_idx);
            svg.append("\" class=\"frame-content\" style=\"display: ");
            if frame_idx == 0 {
                svg.append("block");
            } else {
                svg.append("none");
            }
            svg.append(";\">\n");
            let content = self.render_frame_content(frame_idx);
            svg.append(content.as_str());
            svg.append("</g>\n");
            assert(svg@ =~= start + frame_blocks(nodes, results, (frame_idx + 1) as nat));
            frame_idx = frame_idx + 1;
        }
        let controls = self.render_timeline_controls(width);
        svg.append(controls.as_str());
        svg.append("</svg>");
        assert(svg@ =~= animated_svg(nodes, results, title@));
        svg
    }

    /// The script's event list: each result quoted, separated by `, `.
    fn get_event_list_js(&self) -> (r: String)
        ensures
            r@ == events_js(self.results()),
    {
        let ghost rv = self.results();
        let mut items = String::new();
        let mut i: usize = 0;
        while i < self.results.len()
            invariant
                rv == self.results(),
                i <= rv.len(),
                items@ == event_items(rv.take(i as int)),
            decreases rv.len() - i,
        {
            assert(rv.take(i + 1).drop_last() =~= rv.take(i as int));
            assert(rv.take(i + 1).last() == self.results@[i as int]@);
            if i > 0 {
                items.append(", ");
            }
            match &self.results[i] {
                AnalysisResult::OwnershipChange { name, new_status, .. } => {
                    items.append("\"");
                    let d = self.status_description(new_status);
                    items.append(d.as_str());
                    items.append(": ");
                    items.append(name.as_str());
                    items.append("\"");
                },
                _ => {
                    items.append("\"Unknown event\"");
                },
            }
            assert(items@ =~= event_items(rv.take(i + 1)));
            i = i + 1;
        }
        assert(rv.take(rv.len() as int) =~= rv);
        let mut r = string_of("[");
        r.append(items.as_str());
        r.append("]");
        r
    }

    /// The picture of frame `frame_idx`: every scope box with its variables,
    /// each coloured by its status in the frame.
    fn render_frame_content(&self, frame_idx: usize) -> (r: String)
        requires
            self.results().len() > 0,
            timeline_fits(node_views(self.graph())),
        ensures
            r@ == frame_content(node_views(self.graph()), self.results(), frame_idx as nat),
    {
        let frame = self.generate_frame(frame_idx);
        let ghost nodes = node_views(self.graph);
        let ghost active = frame_results(self.results(), frame_idx as nat);
        let ghost gv;
        let mut content = String::new();
        let scopes = self.group_by_scope(&self.graph);
        proof {
            gv = groups_view(scopes@);
            lemma_groups_in_range(nodes);
        }
        let mut y_offset: u32 = 60;
        let mut k: usize = 0;
        while k < scopes.len()
            invariant
                gv == groups_view(scopes@),
                gv == scope_groups(nodes),
                nodes == node_views(self.graph),
                timeline_fits(nodes),
                states_view(frame.node_states@) == frame_states(nodes, active),
                k <= scopes@.len(),
                y_offset == 60 + k * 140,
                forall|a: int, b: int| 0 <= a < gv.len() && 0 <= b < gv[a].1.len() ==> #[trigger] gv[a].1[b] < nodes.len(),
                content@ == timeline_scopes(gv.take(k as int), nodes, active),
            decreases scopes@.len() - k,
        {
            assert(gv.take(k + 1).drop_last() =~= gv.take(k as int));
            assert(gv[k as int].1.len() * 120 <= 900);
            proof {
                lemma_groups_nonempty(nodes, k as int);
                let len = gv.len();
                assert(60 + (k + 1) * 140 <= 60 + len * 140) by (nonlinear_arith)
                    requires k < len;
            }
            let ghost before = content@;
            let level = scopes[k].0;
            self.push_frame_scope(&mut content, &frame, level, &scopes[k].1, y_offset, Ghost(active));
            assert(content@ == before + timeline_scope(level, gv[k as int].1, nodes, active, y_offset as nat));
            y_offset = y_offset + 110 + 30;
            k = k + 1;
        }
        assert(gv.take(gv.len() as int) =~= gv);
        content
    }

    /// Appends the box of one scope in a frame, its top at `y`.
    fn push_frame_scope(&self, content: &mut String, frame: &FrameData, level: usize, idxs: &Vec<usize>, y: u32,
        Ghost(active): Ghost<Seq<ResultView>>)
        requires
            idxs@.len() > 0,
            idxs@.len() * 120 <= 900,
            y + 140 <= u32::MAX,
            forall|b: int| 0 <= b < idxs@.len() ==> #[trigger] idxs@[b] < graph_nodes(self.graph()).len(),
            states_view(frame.node_states@) == frame_states(node_views(self.graph()), active),
        ensures
            final(content)@ == old(content)@ + timeline_scope(level, idxs@, node_views(self.graph()), active, y as nat),
    {
        let ghost nodes = node_views(self.graph);
        let node_width: u32 = 80;
        let padding: u32 = 20;
        let count = idxs.len();
        let scope_width: u32 = if count == 0 { 200 } else { (count as u32 - 1) * 120 + node_width + padding * 2 };
        let scope_x: u32 = (900 - scope_width) / 2;
        assert(scope_width == panel_width(idxs@.len()));
        content.append("<rect x=\"");
        push_u32(content, scope_x);
        content.append("\" y=\"");
        push_u32(content, y);
        content.append("\" width=\"");
        push_u32(content, scope_width);
        content.append("\" height=\"110\" class=\"scope-box\"/>\n");
        content.append("<text x=\"");
        push_u32(content, scope_x + scope_width / 2);
        content.append("\" y=\"");
        push_u32(content, y + 25);
        content.append("\" font-family=\"Arial\" font-size=\"14\" font-weight=\"bold\" fill=\"#1976D2\" text-anchor=\"middle\">Scope ");
        push_usize(content, level);
        content.append("</text>\n");
        let ghost head = content@;
        let node_y: u32 = y + 55;
        let mut i: usize = 0;
        while i < count
            invariant
                nodes == node_views(self.graph),
                states_view(frame.node_states@) == frame_states(nodes, active),
                count == idxs@.len(),
                count > 0,
                count * 120 <= 900,
                scope_width == panel_width(count as nat),
                scope_x == ((900 - scope_width) / 2) as nat,
                padding == 20,
                node_y == y + 55,
                y + 140 <= u32::MAX,
                i <= count,
                forall|b: int| 0 <= b < idxs@.len() ==> #[trigger] idxs@[b] < graph_nodes(self.graph()).len(),
                content@ == head + timeline_scope_nodes(idxs@.take(i as int), nodes, active, (scope_x + 20) as nat,
                    node_y as nat),
            decreases count - i,
        {
            assert(idxs@.take(i + 1).drop_last() =~= idxs@.take(i as int));
            let node = graph_node(&self.graph, idxs[i]);
            assert(nodes[idxs@[i as int] as int] == node@);
            proof {
                let cnt = count as int;
                let ii = i as int;
                assert(ii * 120 + 120 <= cnt * 120) by (nonlinear_arith)
                    requires ii < cnt;
                lemma_names_in(nodes, idxs@[i as int] as int);
                lemma_state_of(nodes, active, node.name@);
                lemma_state_keys(frame.node_states@, nodes, active);
            }
            let status = match find_key(&frame.node_states, &node.name) {
                Some(p) => {
                    assert(states_view(frame.node_states@)[p as int] == (frame.node_states@[p as int].0@, frame.node_states@[p as int].1));
                    frame.node_states[p].1
                },
                None => {
                    OwnershipStatus::Owned
                },
            };
            let node_x: u32 = scope_x + padding + (i as u32) * 120;
            let color = self.status_to_color(&status);
            push_timeline_node(content, node, node_x, node_y, color.as_str());
            i = i + 1;
        }
        assert(idxs@.take(count as int) =~= idxs@);
        assert(content@ =~= old(content)@ + timeline_scope(level, idxs@, nodes, active, y as nat));
    }

    /// The scope groups of the graph: levels ascending, each with its
    /// nodes' indices in node order.
    fn group_by_scope(&self, graph: &VarGraph) -> (r: Vec<(usize, Vec<usize>)>)
        ensures
            groups_view(r@) == scope_groups(node_views(*graph)),
    {
        group_nodes_by_scope(graph)
    }

    /// The fill colour of a status.
    fn status_to_color(&self, status: &OwnershipStatus) -> (r: String)
        ensures
            r@ == status_color(*status),
    {
        match status {
            OwnershipStatus::Owned => string_of("#4CAF50"),
            OwnershipStatus::Moved => string_of("#FF9800"),
            OwnershipStatus::Borrowed(BorrowKind::Immutable) => string_of("#2196F3"),
            OwnershipStatus::Borrowed(BorrowKind::Mutable) => string_of("#F44336"),
            OwnershipStatus::Dropped => string_of("#9E9E9E"),
        }
    }

    /// The picture draws no controls: the page holds them.
    fn render_timeline_controls(&self, _width: u32) -> (r: String)
        ensures
            r@ == Seq::<char>::empty(),
    {
        String::new()
    }

    /// The page that steps through the animated picture: title, legend,
    /// picture, controls, and the script with the frame count and the
    /// event list.
    pub fn generate_animated_html(&self, title: &str) -> (r: String)
        requires
            self.results().len() == 0 || timeline_fits(node_views(self.graph())),
        ensures
            r@ == animated_page(title@, animated_svg(node_views(self.graph()), self.results(), title@),
                frame_count_of(self.results().len()), events_js(self.results())),
    {
        proof {
            use_type_invariant(self);
        }
        let svg_content = self.generate_animated_svg(title);
        let frame_count = self.frame_count;
        let mut page = string_of(PAGE_HEAD);
        page.append(title);
        page.append(PAGE_STYLE);
        page.append(title);
        page.append(PAGE_LEGEND);
        page.append(svg_content.as_str());
        page.append(PAGE_CONTROLS);
        push_usize(&mut page, frame_count);
        page.append(PAGE_PROGRESS);
        push_usize(&mut page, frame_count);
        page.append(PAGE_EVENTS);
        let events = self.get_event_list_js();
        page.append(events.as_str());
        page.append(PAGE_SCRIPT);
        page
    }
}

/// Appends a variable's box and name in a frame.
fn push_timeline_node(content: &mut String, node: &VarNode, x: u32, y: u32, color: &str)
    requires
        20 <= y,
        x + 40 <= u32::MAX,
    ensures
        final(content)@ == old(content)@ + timeline_node(node@, x as nat, y as nat, color@),
{
    let font_color = label_color_of(color);
    content.append("<rect x=\"");
    push_u32(content, x);
    content.append("\" y=\"");
    push_u32(content, y - 20);
    content.append("\" width=\"80\" height=\"40\" rx=\"8\" fill=\"");
    content.append(color);
    content.append("\" stroke=\"#333\" stroke-width=\"2\" class=\"node\"/>\n");
    content.append("<text x=\"");
    push_u32(content, x + 40);
    content.append("\" y=\"");
    push_u32(content, y - 5);
    content.append("\" font-family=\"Arial\" font-size=\"12\" font-weight=\"bold\" fill=\"");
    content.append(font_color);
    content.append("\" text-anchor=\"middle\">");
    content.append(node.name.as_str());
    content.append("</text>\n");
    assert(final(content)@ =~= old(content)@ + timeline_node(node@, x as nat, y as nat, color@));
}


/// Every frame from the last result's on shows all the results: their
/// states are those of the last result's frame.
pub proof fn lemma_frames_past_end(nodes: Seq<VarNodeView>, results: Seq<ResultView>, i: nat)
    requires
        results.len() > 0,
        i + 1 >= results.len(),
    ensures
        frame_results(results, i) == results,
        frame_states(nodes, frame_results(results, i)) == frame_states(nodes, frame_results(results, (results.len() - 1) as nat)),
{
    assert(results.take(results.len() as int) =~= results);
}

/// Frame `i` shows the variables as they stand after the results up to and
/// including result `i`, and no later one: its picture is the scope boxes
/// drawn over `results.take(i + 1 as int)`, it is the same as the frame `i` of those
/// results alone, and a result added at the end leaves it unchanged.
pub proof fn lemma_frame_shows_prefix(nodes: Seq<VarNodeView>, results: Seq<ResultView>, i: nat, later: ResultView)
    requires
        i < results.len(),
    ensures
        frame_content(nodes, results, i) == timeline_scopes(scope_groups(nodes), nodes, results.take(i + 1 as int)),
        frame_content(nodes, results, i) == frame_content(nodes, results.take(i + 1 as int), i),
        frame_content(nodes, results.push(later), i) == frame_content(nodes, results, i),
{
    assert(results.take(i + 1 as int).take(i + 1 as int) =~= results.take(i + 1 as int));
    assert(results.push(later).take(i + 1 as int) =~= results.take(i + 1 as int));
}

/// The status of a variable after a list of results is set by the last
/// ownership change of that variable: a change of `name` to `st` at the end
/// leaves `name` with `st`, and a result at the end that is no change of
/// `name` leaves its status as it was.
pub proof fn lemma_status_after_change(results: Seq<ResultView>, r: ResultView, name: Seq<char>, st: OwnershipStatus)
    ensures
        is_change(r, name, st) ==> status_at(results.push(r), name) == st,
        (forall|s2: OwnershipStatus| !is_change(r, name, s2)) ==> status_at(results.push(r), name) == status_at(results, name),
{
    assert(results.push(r).drop_last() =~= results);
    if let ResultView::OwnershipChange { name: n, new_status, .. } = r {
        if n == name {
            assert(is_change(r, name, new_status));
        }
    }
}

} // verus!
