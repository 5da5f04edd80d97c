//! What the command line reports of an analysed file besides its pictures:
//! the name its outputs go by, and the counts of used and unused variables.

use vstd::prelude::*;
use crate::path::{portable_path, path_file_name};
use crate::graph::variable_graph::{VarGraph, VarNodeView, used_count, node_views, graph_node, graph_node_count};
use crate::text::{push_usize, decimal, string_of};

verus! {

/// The position of the last `.` of `f`, or -1 if there is none.
pub open spec fn last_dot(f: Seq<char>) -> int
    decreases f.len(),
{
    if f.len() == 0 {
        -1
    } else if f.last() == '.' {
        f.len() - 1
    } else {
        last_dot(f.drop_last())
    }
}

/// The stem of a file name: the part before its last `.`, or the whole name
/// if it has no `.` or only a leading one.
pub open spec fn stem_of(f: Seq<char>) -> Seq<char> {
    let d = last_dot(f);
    if d <= 0 {
        f
    } else {
        f.take(d)
    }
}

/// `std::path::Path::file_stem` of `f`, as a `String` (`to_string_lossy`,
/// which keeps text that came in as `&str`). The contract states what std's
/// documentation gives for a path that all platforms read alike: none when
/// the path has no file name, else the file name without its final
/// extension, or the whole file name when it has no `.` or only a leading
/// one. For paths with `\`, `:` or a leading `//` the result depends on the
/// platform and is not stated.
#[verifier::external_body]
fn file_stem_of(f: &str) -> (r: Option<String>)
    ensures
        portable_path(f@) ==> (r is Some <==> path_file_name(f@) is Some),
        portable_path(f@) && r is Some ==> r->0@ == stem_of(path_file_name(f@)->0),
{
    match std::path::Path::new(f).file_stem() {
        Some(s) => Some(s.to_string_lossy().to_string()),
        None => None,
    }
}

/// The name the outputs of `input_file` go by: its file stem, or `analysis`
/// if it has none.
pub fn analysis_name(input_file: &str) -> (r: String)
    ensures
        portable_path(input_file@) ==> r@ == match path_file_name(input_file@) {
            Some(n) => stem_of(n),
            None => "analysis"@,
        },
{
    match file_stem_of(input_file) {
        Some(s) => s,
        None => string_of("analysis"),
    }
}

/// The name the picture of the `count`-th file of a batch goes by: its file
/// stem, or `file` and the count if it has none.
pub fn batch_name(path: &str, count: usize) -> (r: String)
    ensures
        portable_path(path@) ==> r@ == match path_file_name(path@) {
            Some(n) => stem_of(n),
            None => "file"@ + decimal(count as nat),
        },
{
    match file_stem_of(path) {
        Some(s) => s,
        None => {
            let mut s = string_of("file");
            push_usize(&mut s, count);
            s
        },
    }
}

/// The variables never used, each with its scope level, in node order.
pub open spec fn never_used(nodes: Seq<VarNodeView>) -> Seq<(Seq<char>, usize)>
    decreases nodes.len(),
{
    if nodes.len() == 0 {
        Seq::empty()
    } else {
        let rest = never_used(nodes.drop_last());
        if !nodes.last().used { rest.push((nodes.last().name, nodes.last().scope_level)) } else { rest }
    }
}

/// The number of used variables of the graph.
pub fn used_variable_count(graph: &VarGraph) -> (r: usize)
    ensures
        r == used_count(node_views(*graph)),
{
    let ghost nodes = node_views(*graph);
    let n = graph_node_count(graph);
    let mut c: usize = 0;
    let mut i: usize = 0;
    while i < n
        invariant
            nodes == node_views(*graph),
            n == nodes.len(),
            i <= n,
            c <= i,
            c == used_count(nodes.take(i as int)),
        decreases n - i,
    {
        assert(nodes.take(i + 1).drop_last() =~= nodes.take(i as int));
        let node = graph_node(graph, i);
        assert(nodes.take(i + 1).last() == node@);
        if node.used {
            c = c + 1;
        }
        i = i + 1;
    }
    assert(nodes.take(n as int) =~= nodes);
    c
}

/// The variables of the graph never used, each with its scope level, in
/// node order.
pub fn unused_variable_list(graph: &VarGraph) -> (r: Vec<(String, usize)>)
    ensures
        r@.map_values(|e: (String, usize)| (e.0@, e.1)) == never_used(node_views(*graph)),
{
    let ghost nodes = node_views(*graph);
    let n = graph_node_count(graph);
    let mut r: Vec<(String, usize)> = Vec::new();
    let mut i: usize = 0;
    while i < n
        invariant
            nodes == node_views(*graph),
            n == nodes.len(),
            i <= n,
            r@.map_values(|e: (String, usize)| (e.0@, e.1)) == never_used(nodes.take(i as int)),
        decreases n - i,
    {
        assert(nodes.take(i + 1).drop_last() =~= nodes.take(i as int));
        let node = graph_node(graph, i);
        assert(nodes.take(i + 1).last() == node@);
        if !node.used {
            let ghost before = r@;
            r.push((node.name.clone(), node.scope_level));
            assert(r@.map_values(|e: (String, usize)| (e.0@, e.1)) =~= before.map_values(
                |e: (String, usize)| (e.0@, e.1),
            ).push((node.name@, node.scope_level)));
        }
        i = i + 1;
    }
    assert(nodes.take(n as int) =~= nodes);
    r
}

/// The used and the never-used variables together are all of them.
pub proof fn lemma_used_and_unused(nodes: Seq<VarNodeView>)
    ensures
        used_count(nodes) + never_used(nodes).len() == nodes.len(),
    decreases nodes.len(),
{
    if nodes.len() > 0 {
        lemma_used_and_unused(nodes.drop_last());
    }
}

} // verus!
