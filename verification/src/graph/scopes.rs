//! Grouping the nodes of a variable graph by scope level, levels ascending.

use vstd::prelude::*;
use crate::graph::variable_graph::{VarGraph, VarNodeView, node_views, graph_node, graph_node_count};

verus! {

/// `x` added to an ascending list of distinct levels, in its place.
pub open spec fn insert_level(levels: Seq<usize>, x: usize) -> Seq<usize>
    decreases levels.len(),
{
    if levels.len() == 0 {
        seq![x]
    } else if levels.last() < x {
        levels.push(x)
    } else if levels.last() == x {
        levels
    } else {
        insert_level(levels.drop_last(), x).push(levels.last())
    }
}

/// The scope levels of the nodes, each once, ascending.
pub open spec fn scope_levels(nodes: Seq<VarNodeView>) -> Seq<usize>
    decreases nodes.len(),
{
    if nodes.len() == 0 {
        Seq::empty()
    } else {
        insert_level(scope_levels(nodes.drop_last()), nodes.last().scope_level)
    }
}

/// The indices, ascending, of the nodes of scope `level`.
pub open spec fn indices_at(nodes: Seq<VarNodeView>, level: usize) -> Seq<usize>
    decreases nodes.len(),
{
    if nodes.len() == 0 {
        Seq::empty()
    } else {
        let rest = indices_at(nodes.drop_last(), level);
        if nodes.last().scope_level == level { rest.push((nodes.len() - 1) as usize) } else { rest }
    }
}

/// The scope groups of the nodes: each level present, ascending, with the
/// indices of its nodes in node order.
pub open spec fn scope_groups(nodes: Seq<VarNodeView>) -> Seq<(usize, Seq<usize>)> {
    scope_levels(nodes).map_values(|l: usize| (l, indices_at(nodes, l)))
}

/// The view of exec groups.
pub open spec fn groups_view(g: Seq<(usize, Vec<usize>)>) -> Seq<(usize, Seq<usize>)> {
    g.map_values(|e: (usize, Vec<usize>)| (e.0, e.1@))
}

/// Ascending and without repetition.
pub open spec fn strictly_ascending(s: Seq<usize>) -> bool {
    forall|i: int, j: int| 0 <= i < j < s.len() ==> s[i] < s[j]
}

proof fn lemma_push_contains(s: Seq<usize>, x: usize, y: usize)
    ensures
        s.push(x).contains(y) <==> (s.contains(y) || y == x),
{
    if s.contains(y) {
        let i = choose|i: int| 0 <= i < s.len() && s[i] == y;
        assert(s.push(x)[i] == y);
    }
    if y == x {
        assert(s.push(x)[s.len() as int] == y);
    }
    if s.push(x).contains(y) && y != x {
        let i = choose|i: int| 0 <= i < s.len() + 1 && s.push(x)[i] == y;
        assert(s[i] == y);
    }
}

proof fn lemma_insert_level(levels: Seq<usize>, x: usize)
    requires
        strictly_ascending(levels),
    ensures
        strictly_ascending(insert_level(levels, x)),
        forall|y: usize| insert_level(levels, x).contains(y) <==> (levels.contains(y) || y == x),
    decreases levels.len(),
{
    if levels.len() == 0 {
        assert forall|y: usize| insert_level(levels, x).contains(y) <==> (levels.contains(y) || y == x) by {
            lemma_push_contains(levels, x, y);
            assert(seq![x] =~= levels.push(x));
        }
    } else if levels.last() < x {
        assert forall|y: usize| insert_level(levels, x).contains(y) <==> (levels.contains(y) || y == x) by {
            lemma_push_contains(levels, x, y);
        }
    } else if levels.last() == x {
        assert(levels[levels.len() - 1] == x);
    } else {
        let d = levels.drop_last();
        let z = levels.last();
        lemma_insert_level(d, x);
        let r = insert_level(d, x);
        assert(levels =~= d.push(z));
        assert forall|y: usize| insert_level(levels, x).contains(y) <==> (levels.contains(y) || y == x) by {
            lemma_push_contains(r, z, y);
            lemma_push_contains(d, z, y);
        }
        assert forall|i: int| 0 <= i < r.len() implies r[i] < z by {
            assert(r.contains(r[i]));
            if r[i] != x {
                assert(d.contains(r[i]));
                let k = choose|k: int| 0 <= k < d.len() && d[k] == r[i];
                assert(levels[k] < levels[levels.len() - 1]);
            }
        }
    }
}

/// The levels are ascending, without repetition, and are exactly the levels
/// of the nodes.
pub proof fn lemma_scope_levels(nodes: Seq<VarNodeView>)
    ensures
        strictly_ascending(scope_levels(nodes)),
        forall|l: usize| #[trigger] scope_levels(nodes).contains(l) <==> exists|i: int|
            0 <= i < nodes.len() && nodes[i].scope_level == l,
    decreases nodes.len(),
{
    if nodes.len() > 0 {
        let d = nodes.drop_last();
        lemma_scope_levels(d);
        lemma_insert_level(scope_levels(d), nodes.last().scope_level);
        assert forall|l: usize| #[trigger] scope_levels(nodes).contains(l) <==> exists|i: int|
            0 <= i < nodes.len() && nodes[i].scope_level == l by {
            let r = scope_levels(nodes);
            let last = nodes.last().scope_level;
            assert(r.contains(l) <==> (scope_levels(d).contains(l) || l == last));
            if r.contains(l) {
                if l == last {
                    assert(nodes[nodes.len() - 1].scope_level == l);
                } else {
                    assert(scope_levels(d).contains(l));
                    let i = choose|i: int| 0 <= i < d.len() && d[i].scope_level == l;
                    assert(nodes[i].scope_level == l);
                }
            }
            if exists|i: int| 0 <= i < nodes.len() && nodes[i].scope_level == l {
                let i = choose|i: int| 0 <= i < nodes.len() && nodes[i].scope_level == l;
                if i < nodes.len() - 1 {
                    assert(d[i].scope_level == l);
                    assert(scope_levels(d).contains(l));
                } else {
                    assert(l == last);
                }
            }
        }
    } else {
        assert(scope_levels(nodes) =~= Seq::<usize>::empty());
    }
}

proof fn lemma_indices_at_range(nodes: Seq<VarNodeView>, level: usize)
    ensures
        forall|b: int| 0 <= b < indices_at(nodes, level).len() ==> #[trigger] indices_at(nodes, level)[b] < nodes.len(),
    decreases nodes.len(),
{
    if nodes.len() > 0 {
        let d = nodes.drop_last();
        lemma_indices_at_range(d, level);
        let rest = indices_at(d, level);
        assert forall|b: int| 0 <= b < indices_at(nodes, level).len() implies #[trigger] indices_at(nodes, level)[b] < nodes.len() by {
            if b < rest.len() {
                assert(indices_at(nodes, level)[b] == rest[b]);
            }
        }
    }
}

/// Every index of a scope group is a node index.
pub proof fn lemma_groups_in_range(nodes: Seq<VarNodeView>)
    ensures
        forall|a: int, b: int| 0 <= a < scope_groups(nodes).len() && 0 <= b < scope_groups(nodes)[a].1.len()
            ==> #[trigger] scope_groups(nodes)[a].1[b] < nodes.len(),
{
    assert forall|a: int, b: int| 0 <= a < scope_groups(nodes).len() && 0 <= b < scope_groups(nodes)[a].1.len()
        implies #[trigger] scope_groups(nodes)[a].1[b] < nodes.len() by {
        lemma_indices_at_range(nodes, scope_levels(nodes)[a]);
    }
}

proof fn lemma_indices_at_nonempty(nodes: Seq<VarNodeView>, i: int)
    requires
        0 <= i < nodes.len(),
    ensures
        indices_at(nodes, nodes[i].scope_level).len() > 0,
    decreases nodes.len(),
{
    if i < nodes.len() - 1 {
        lemma_indices_at_nonempty(nodes.drop_last(), i);
    }
}

/// Every scope group holds a node.
pub proof fn lemma_groups_nonempty(nodes: Seq<VarNodeView>, k: int)
    requires
        0 <= k < scope_groups(nodes).len(),
    ensures
        scope_groups(nodes)[k].1.len() > 0,
{
    lemma_scope_levels(nodes);
    let l = scope_levels(nodes)[k];
    assert(scope_levels(nodes).contains(l));
    let i = choose|i: int| 0 <= i < nodes.len() && nodes[i].scope_level == l;
    lemma_indices_at_nonempty(nodes, i);
}

/// Adds `x` to an ascending list of distinct levels.
fn insert_level_exec(levels: &mut Vec<usize>, x: usize)
    ensures
        final(levels)@ == insert_level(old(levels)@, x),
{
    let ghost l0 = levels@;
    let mut i = levels.len();
    assert(l0.take(i as int) =~= l0);
    assert(l0.skip(i as int) =~= Seq::<usize>::empty());
    assert(insert_level(l0, x) + Seq::<usize>::empty() =~= insert_level(l0, x));
    // find the place of `x`, from the end
    while i > 0 && levels[i - 1] > x
        invariant
            i <= levels@.len(),
            levels@ == l0,
            insert_level(l0, x) == insert_level(l0.take(i as int), x) + l0.skip(i as int),
        decreases i,
    {
        proof {
            let t = l0.take(i as int);
            assert(t.drop_last() =~= l0.take(i - 1));
            assert(t.last() == l0[i - 1]);
            assert(l0.skip(i - 1) =~= seq![l0[i - 1]] + l0.skip(i as int));
            assert(insert_level(t, x) == insert_level(l0.take(i - 1), x).push(l0[i - 1]));
            assert(insert_level(l0.take(i - 1), x).push(l0[i - 1]) + l0.skip(i as int)
                =~= insert_level(l0.take(i - 1), x) + l0.skip(i - 1));
        }
        i = i - 1;
    }
    proof {
        let t = l0.take(i as int);
        if i > 0 {
            assert(t.last() == l0[i - 1]);
            assert(t.drop_last() =~= l0.take(i - 1));
        }
    }
    if i > 0 && levels[i - 1] == x {
        assert(insert_level(l0.take(i as int), x) == l0.take(i as int));
        assert(l0.take(i as int) + l0.skip(i as int) =~= l0);
        return;
    }
    levels.insert(i, x);
    assert(insert_level(l0.take(i as int), x) == l0.take(i as int).push(x));
    assert(levels@ =~= l0.take(i as int).push(x) + l0.skip(i as int));
}

/// The nodes grouped by scope level: the levels ascending, each with the
/// indices of its nodes in node order.
pub fn group_nodes_by_scope(graph: &VarGraph) -> (r: Vec<(usize, Vec<usize>)>)
    ensures
        groups_view(r@) == scope_groups(node_views(*graph)),
{
    let ghost nodes = node_views(*graph);
    let n = graph_node_count(graph);
    let mut levels: Vec<usize> = Vec::new();
    let mut i: usize = 0;
    while i < n
        invariant
            nodes == node_views(*graph),
            n == nodes.len(),
            i <= n,
            levels@ == scope_levels(nodes.take(i as int)),
        decreases n - i,
    {
        assert(nodes.take(i + 1).drop_last() =~= nodes.take(i as int));
        let node = graph_node(graph, i);
        assert(nodes.take(i + 1).last() == node@);
        insert_level_exec(&mut levels, node.scope_level);
        i = i + 1;
    }
    assert(nodes.take(n as int) =~= nodes);
    let mut groups: Vec<(usize, Vec<usize>)> = Vec::new();
    let mut k: usize = 0;
    while k < levels.len()
        invariant
            nodes == node_views(*graph),
            n == nodes.len(),
            levels@ == scope_levels(nodes),
            k <= levels@.len(),
            groups_view(groups@) == scope_groups(nodes).take(k as int),
        decreases levels@.len() - k,
    {
        let level = levels[k];
        let mut idxs: Vec<usize> = Vec::new();
        let mut j: usize = 0;
        while j < n
            invariant
                nodes == node_views(*graph),
                n == nodes.len(),
                j <= n,
                idxs@ == indices_at(nodes.take(j as int), level),
            decreases n - j,
        {
            assert(nodes.take(j + 1).drop_last() =~= nodes.take(j as int));
            let node = graph_node(graph, j);
            assert(nodes.take(j + 1).last() == node@);
            if node.scope_level == level {
                idxs.push(j);
            }
            j = j + 1;
        }
        assert(nodes.take(n as int) =~= nodes);
        let ghost before = groups@;
        groups.push((level, idxs));
        assert(groups_view(groups@) =~= groups_view(before).push((level, indices_at(nodes, level))));
        assert(scope_groups(nodes).take(k + 1) =~= scope_groups(nodes).take(k as int).push((level, indices_at(nodes, level))));
        k = k + 1;
    }
    assert(scope_groups(nodes).take(levels@.len() as int) =~= scope_groups(nodes));
    groups
}


/// The indices at a level are exactly the nodes of that level.
proof fn lemma_indices_at_contains(nodes: Seq<VarNodeView>, level: usize, i: usize)
    requires
        nodes.len() <= usize::MAX,
    ensures
        indices_at(nodes, level).contains(i) <==> (i < nodes.len() && nodes[i as int].scope_level == level),
    decreases nodes.len(),
{
    if nodes.len() > 0 {
        let d = nodes.drop_last();
        lemma_indices_at_contains(d, level, i);
        let rest = indices_at(d, level);
        lemma_indices_at_range(d, level);
        if nodes.last().scope_level == level {
            lemma_push_contains(rest, (nodes.len() - 1) as usize, i);
        }
        if i < d.len() {
            assert(d[i as int] == nodes[i as int]);
        }
    }
}

/// Grouping by scope puts each node into the one group of its level: the
/// groups' levels ascend strictly, each node's index is in the group of
/// its level, and a group holds only indices of nodes of its level.
pub proof fn lemma_scope_partition(nodes: Seq<VarNodeView>)
    requires
        nodes.len() <= usize::MAX,
    ensures
        forall|a: int, b: int| 0 <= a < b < scope_groups(nodes).len() ==> (#[trigger] scope_groups(nodes)[a]).0
            < (#[trigger] scope_groups(nodes)[b]).0,
        forall|i: int| 0 <= i < nodes.len() ==> exists|k: int| 0 <= k < scope_groups(nodes).len()
            && (#[trigger] scope_groups(nodes)[k]).0 == (#[trigger] nodes[i]).scope_level
            && scope_groups(nodes)[k].1.contains(i as usize),
        forall|k: int, i: usize| 0 <= k < scope_groups(nodes).len() && (#[trigger] scope_groups(nodes)[k].1.contains(i))
            ==> i < nodes.len() && nodes[i as int].scope_level == scope_groups(nodes)[k].0,
{
    let g = scope_groups(nodes);
    let levels = scope_levels(nodes);
    lemma_scope_levels(nodes);
    assert forall|a: int, b: int| 0 <= a < b < g.len() implies (#[trigger] g[a]).0 < (#[trigger] g[b]).0 by {
        assert(g[a].0 == levels[a] && g[b].0 == levels[b]);
    }
    assert forall|i: int| 0 <= i < nodes.len() implies exists|k: int| 0 <= k < g.len()
        && (#[trigger] g[k]).0 == (#[trigger] nodes[i]).scope_level && g[k].1.contains(i as usize) by {
        let l = nodes[i].scope_level;
        assert(levels.contains(l));
        let k = choose|k: int| 0 <= k < levels.len() && levels[k] == l;
        lemma_indices_at_contains(nodes, l, i as usize);
        assert(g[k] == (l, indices_at(nodes, l)));
        assert(g[k].0 == nodes[i].scope_level && g[k].1.contains(i as usize));
    }
    assert forall|k: int, i: usize| 0 <= k < g.len() && (#[trigger] g[k].1.contains(i))
        implies i < nodes.len() && nodes[i as int].scope_level == g[k].0 by {
        lemma_indices_at_contains(nodes, levels[k], i);
    }
}

} // verus!
