//! Variables in the order of their names: the byte order of the names,
//! which for UTF-8 text is the order of their characters' code points, and a
//! stable sort by it.

use vstd::prelude::*;
use crate::graph::variable_graph::{VarNode, VarNodeView};
use crate::text::chars_of;

verus! {

/// `a` comes before `b`: at the first character where they differ, `a`'s
/// has the smaller code point, or `a` is a proper prefix of `b`.
pub open spec fn name_less(a: Seq<char>, b: Seq<char>) -> bool
    decreases a.len(),
{
    if a.len() == 0 {
        b.len() > 0
    } else if b.len() == 0 {
        false
    } else if a[0] != b[0] {
        (a[0] as int) < (b[0] as int)
    } else {
        name_less(a.drop_first(), b.drop_first())
    }
}

/// `x` placed into a list sorted by name: after every variable whose name
/// does not come after its own.
pub open spec fn insert_by_name(s: Seq<VarNodeView>, x: VarNodeView) -> Seq<VarNodeView>
    decreases s.len(),
{
    if s.len() == 0 {
        seq![x]
    } else if name_less(x.name, s.last().name) {
        insert_by_name(s.drop_last(), x).push(s.last())
    } else {
        s.push(x)
    }
}

/// The variables sorted by name; those with equal names keep their order.
pub open spec fn sort_by_name(s: Seq<VarNodeView>) -> Seq<VarNodeView>
    decreases s.len(),
{
    if s.len() == 0 {
        Seq::empty()
    } else {
        insert_by_name(sort_by_name(s.drop_last()), s.last())
    }
}

/// The views of a list of variables.
pub open spec fn node_list_view(s: Seq<VarNode>) -> Seq<VarNodeView> {
    s.map_values(|n: VarNode| n@)
}

/// Whether `a`'s name comes before `b`'s.
pub fn name_lt(a: &str, b: &str) -> (r: bool)
    ensures
        r == name_less(a@, b@),
{
    let ca = chars_of(a);
    let cb = chars_of(b);
    let mut i: usize = 0;
    assert(a@.skip(0) =~= a@);
    assert(b@.skip(0) =~= b@);
    while i < ca.len() && i < cb.len()
        invariant
            ca@ == a@,
            cb@ == b@,
            i <= ca@.len(),
            i <= cb@.len(),
            name_less(a@, b@) == name_less(a@.skip(i as int), b@.skip(i as int)),
        decreases ca@.len() - i,
    {
        let ghost sa = a@.skip(i as int);
        let ghost sb = b@.skip(i as int);
        assert(sa[0] == ca@[i as int]);
        assert(sb[0] == cb@[i as int]);
        if ca[i] != cb[i] {
            return ca[i] < cb[i];
        }
        assert(sa.drop_first() =~= a@.skip(i + 1));
        assert(sb.drop_first() =~= b@.skip(i + 1));
        i = i + 1;
    }
    proof {
        let sa = a@.skip(i as int);
        let sb = b@.skip(i as int);
        assert(sa.len() == 0 || sb.len() == 0);
    }
    i == ca.len() && i < cb.len()
}

/// Puts `x` into a list sorted by name, after every variable whose name does
/// not come after its own.
fn insert_node_by_name(s: &mut Vec<VarNode>, x: VarNode)
    ensures
        node_list_view(final(s)@) == insert_by_name(node_list_view(old(s)@), x@),
{
    let ghost l0 = node_list_view(s@);
    let mut i = s.len();
    assert(l0.take(i as int) =~= l0);
    assert(l0.skip(i as int) =~= Seq::<VarNodeView>::empty());
    assert(insert_by_name(l0, x@) + Seq::<VarNodeView>::empty() =~= insert_by_name(l0, x@));
    while i > 0 && name_lt(x.name.as_str(), s[i - 1].name.as_str())
        invariant
            i <= s@.len(),
            node_list_view(s@) == l0,
            insert_by_name(l0, x@) == insert_by_name(l0.take(i as int), x@) + l0.skip(i as int),
        decreases i,
    {
        proof {
            let t = l0.take(i as int);
            assert(l0[i - 1] == s@[i - 1]@);
            assert(t.drop_last() =~= l0.take(i - 1));
            assert(t.last() == l0[i - 1]);
            assert(l0.skip(i - 1) =~= seq![l0[i - 1]] + l0.skip(i as int));
            assert(insert_by_name(t, x@) == insert_by_name(l0.take(i - 1), x@).push(l0[i - 1]));
            assert(insert_by_name(l0.take(i - 1), x@).push(l0[i - 1]) + l0.skip(i as int)
                =~= insert_by_name(l0.take(i - 1), x@) + l0.skip(i - 1));
        }
        i = i - 1;
    }
    proof {
        let t = l0.take(i as int);
        if i > 0 {
            assert(l0[i - 1] == s@[i - 1]@);
            assert(t.last() == l0[i - 1]);
        }
        assert(insert_by_name(t, x@) == t.push(x@));
    }
    let ghost xv = x@;
    s.insert(i, x);
    assert(node_list_view(s@) =~= l0.take(i as int).push(xv) + l0.skip(i as int));
}

/// The variables sorted by name; those with equal names keep their order.
pub fn sort_nodes_by_name(nodes: Vec<VarNode>) -> (r: Vec<VarNode>)
    ensures
        node_list_view(r@) == sort_by_name(node_list_view(nodes@)),
{
    let ghost l0 = node_list_view(nodes@);
    let mut sorted: Vec<VarNode> = Vec::new();
    let mut i: usize = 0;
    while i < nodes.len()
        invariant
            l0 == node_list_view(nodes@),
            i <= nodes@.len(),
            node_list_view(sorted@) == sort_by_name(l0.take(i as int)),
        decreases nodes@.len() - i,
    {
        assert(l0.take(i + 1).drop_last() =~= l0.take(i as int));
        assert(l0.take(i + 1).last() == nodes@[i as int]@);
        insert_node_by_name(&mut sorted, nodes[i].clone());
        i = i + 1;
    }
    assert(l0.take(nodes@.len() as int) =~= l0);
    sorted
}


/// No name comes before itself.
pub proof fn lemma_name_less_irreflexive(a: Seq<char>)
    ensures
        !name_less(a, a),
    decreases a.len(),
{
    if a.len() > 0 {
        lemma_name_less_irreflexive(a.drop_first());
    }
}

/// Coming before is transitive.
pub proof fn lemma_name_less_transitive(a: Seq<char>, b: Seq<char>, c: Seq<char>)
    requires
        name_less(a, b),
        name_less(b, c),
    ensures
        name_less(a, c),
    decreases a.len(),
{
    if a.len() > 0 && b.len() > 0 && c.len() > 0 && a[0] == b[0] && b[0] == c[0] {
        lemma_name_less_transitive(a.drop_first(), b.drop_first(), c.drop_first());
    }
}

/// Of two different names, one comes before the other.
pub proof fn lemma_name_less_total(a: Seq<char>, b: Seq<char>)
    requires
        a != b,
    ensures
        name_less(a, b) || name_less(b, a),
    decreases a.len(),
{
    if a.len() > 0 && b.len() > 0 {
        if a[0] == b[0] {
            if a.drop_first() == b.drop_first() {
                assert(a =~= seq![a[0]] + a.drop_first());
                assert(b =~= seq![b[0]] + b.drop_first());
            }
            lemma_name_less_total(a.drop_first(), b.drop_first());
        } else {
            assert((a[0] as int) != (b[0] as int));
        }
    } else if a.len() == 0 && b.len() == 0 {
        assert(a =~= b);
    }
}

/// Every variable's name comes no earlier than the one before it.
pub open spec fn sorted_by_name(s: Seq<VarNodeView>) -> bool {
    forall|i: int, j: int| 0 <= i < j < s.len() ==> !name_less(#[trigger] s[j].name, #[trigger] s[i].name)
}

/// Placing a variable into a list sorted by name keeps it sorted and adds
/// exactly that variable.
proof fn lemma_insert_sorted(s: Seq<VarNodeView>, x: VarNodeView)
    requires
        sorted_by_name(s),
    ensures
        sorted_by_name(insert_by_name(s, x)),
        insert_by_name(s, x).to_multiset() == s.to_multiset().insert(x),
    decreases s.len(),
{
    broadcast use vstd::seq_lib::group_to_multiset_ensures;
    if s.len() == 0 {
        assert(seq![x] =~= Seq::<VarNodeView>::empty().push(x));
    } else {
        let last = s.last();
        let init = s.drop_last();
        assert(init.push(last) =~= s);
        if name_less(x.name, last.name) {
            assert(sorted_by_name(init));
            lemma_insert_sorted(init, x);
            let t = insert_by_name(init, x);
            assert forall|i: int| 0 <= i < t.len() implies !name_less(last.name, #[trigger] t[i].name) by {
                assert(t.to_multiset().count(t[i]) > 0);
                assert(t.to_multiset() == init.to_multiset().insert(x));
                if t[i] == x {
                    if name_less(last.name, x.name) {
                        lemma_name_less_transitive(x.name, last.name, x.name);
                        lemma_name_less_irreflexive(x.name);
                    }
                } else {
                    assert(init.to_multiset().count(t[i]) > 0);
                    assert(init.contains(t[i]));
                    let k = choose|k: int| 0 <= k < init.len() && init[k] == t[i];
                    assert(s[k] == t[i]);
                    assert(!name_less(s[s.len() - 1].name, s[k].name));
                }
            }
            let r = t.push(last);
            assert forall|i: int, j: int| 0 <= i < j < r.len() implies !name_less(#[trigger] r[j].name, #[trigger] r[i].name) by {
                if j < r.len() - 1 {
                    assert(r[i] == t[i] && r[j] == t[j]);
                } else {
                    assert(r[i] == t[i]);
                    if name_less(r[j].name, r[i].name) {
                        if r[i].name != last.name {
                            lemma_name_less_total(last.name, t[i].name);
                        }
                        lemma_name_less_irreflexive(last.name);
                    }
                }
            }
        } else {
            let r = s.push(x);
            assert forall|i: int, j: int| 0 <= i < j < r.len() implies !name_less(#[trigger] r[j].name, #[trigger] r[i].name) by {
                if j < r.len() - 1 {
                    assert(r[i] == s[i] && r[j] == s[j]);
                } else if i < s.len() - 1 {
                    assert(r[i] == s[i]);
                    assert(!name_less(s[s.len() - 1].name, s[i].name));
                    if name_less(x.name, s[i].name) {
                        if s[i].name != last.name {
                            lemma_name_less_total(s[i].name, last.name);
                            lemma_name_less_transitive(x.name, s[i].name, last.name);
                        }
                    }
                } else {
                    assert(r[i] == last);
                }
            }
        }
    }
}

/// Sorting by name gives a list sorted by name that holds the same variables
/// as the input, each as often.
pub proof fn lemma_sort_by_name(s: Seq<VarNodeView>)
    ensures
        sorted_by_name(sort_by_name(s)),
        sort_by_name(s).to_multiset() == s.to_multiset(),
    decreases s.len(),
{
    broadcast use vstd::seq_lib::group_to_multiset_ensures;
    if s.len() > 0 {
        lemma_sort_by_name(s.drop_last());
        lemma_insert_sorted(sort_by_name(s.drop_last()), s.last());
        assert(s.drop_last().push(s.last()) =~= s);
    }
}

} // verus!
