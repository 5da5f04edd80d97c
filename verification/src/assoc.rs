//! Association lists keyed by names: the tables the analyses keep per
//! variable. Entries keep the order in which keys were first inserted, and a
//! key occurs at most once.

use vstd::prelude::*;

verus! {

/// Position of the first occurrence of `k` in `keys`, or -1 when `k` is absent.
pub open spec fn key_pos(keys: Seq<Seq<char>>, k: Seq<char>) -> int
    decreases keys.len(),
{
    if keys.len() == 0 {
        -1
    } else {
        let p = key_pos(keys.drop_last(), k);
        if p >= 0 {
            p
        } else if keys.last() == k {
            keys.len() - 1
        } else {
            -1
        }
    }
}

/// No key occurs twice.
pub open spec fn keys_unique(keys: Seq<Seq<char>>) -> bool {
    forall|i: int, j: int| 0 <= i < keys.len() && 0 <= j < keys.len() && i != j ==> keys[i] != keys[j]
}

/// The keys of an entry list.
pub open spec fn keys_of<V>(entries: Seq<(String, V)>) -> Seq<Seq<char>> {
    entries.map_values(|e: (String, V)| e.0@)
}

/// What `key_pos` says: -1 exactly when the key is absent, else the first position holding it.
pub proof fn lemma_key_pos(keys: Seq<Seq<char>>, k: Seq<char>)
    ensures
        -1 <= key_pos(keys, k) < keys.len(),
        key_pos(keys, k) == -1 <==> (forall|i: int| 0 <= i < keys.len() ==> keys[i] != k),
        key_pos(keys, k) >= 0 ==> keys[key_pos(keys, k)] == k,
        key_pos(keys, k) >= 0 ==> (forall|i: int| 0 <= i < key_pos(keys, k) ==> keys[i] != k),
    decreases keys.len(),
{
    if keys.len() > 0 {
        lemma_key_pos(keys.drop_last(), k);
        assert forall|i: int| 0 <= i < keys.len() - 1 implies keys.drop_last()[i] == keys[i] by {}
    }
}

/// Keys of an abstract entry list.
pub open spec fn entry_keys<V>(m: Seq<(Seq<char>, V)>) -> Seq<Seq<char>> {
    m.map_values(|e: (Seq<char>, V)| e.0)
}

/// The value stored under `k`, if any.
pub open spec fn entry_get<V>(m: Seq<(Seq<char>, V)>, k: Seq<char>) -> Option<V> {
    let p = key_pos(entry_keys(m), k);
    if p >= 0 {
        Some(m[p].1)
    } else {
        None
    }
}

/// Stores `v` under `k`: an existing key keeps its place, a new key goes last.
pub open spec fn entry_put<V>(m: Seq<(Seq<char>, V)>, k: Seq<char>, v: V) -> Seq<(Seq<char>, V)> {
    let p = key_pos(entry_keys(m), k);
    if p >= 0 {
        m.update(p, (k, v))
    } else {
        m.push((k, v))
    }
}

/// Removes the entry of `k`, if any; the other entries keep their order.
pub open spec fn entry_remove<V>(m: Seq<(Seq<char>, V)>, k: Seq<char>) -> Seq<(Seq<char>, V)> {
    let p = key_pos(entry_keys(m), k);
    if p >= 0 {
        m.remove(p)
    } else {
        m
    }
}

/// Storing and removing keep keys unique.
pub proof fn lemma_put_remove_unique<V>(m: Seq<(Seq<char>, V)>, k: Seq<char>, v: V)
    requires
        keys_unique(entry_keys(m)),
    ensures
        keys_unique(entry_keys(entry_put(m, k, v))),
        keys_unique(entry_keys(entry_remove(m, k))),
{
    lemma_key_pos(entry_keys(m), k);
    let p = key_pos(entry_keys(m), k);
    if p >= 0 {
        assert(entry_keys(entry_put(m, k, v)) =~= entry_keys(m).update(p, k));
        assert(entry_keys(entry_remove(m, k)) =~= entry_keys(m).remove(p));
    } else {
        assert(entry_keys(entry_put(m, k, v)) =~= entry_keys(m).push(k));
    }
}

/// `k` added to a set of names kept in insertion order, unless present.
pub open spec fn name_insert(names: Seq<Seq<char>>, k: Seq<char>) -> Seq<Seq<char>> {
    if key_pos(names, k) >= 0 {
        names
    } else {
        names.push(k)
    }
}

/// `k` removed from a set of names kept in insertion order.
pub open spec fn name_remove(names: Seq<Seq<char>>, k: Seq<char>) -> Seq<Seq<char>> {
    let p = key_pos(names, k);
    if p >= 0 {
        names.remove(p)
    } else {
        names
    }
}

/// Adding and removing names keep them unique.
pub proof fn lemma_name_insert_remove_unique(names: Seq<Seq<char>>, k: Seq<char>)
    requires
        keys_unique(names),
    ensures
        keys_unique(name_insert(names, k)),
        keys_unique(name_remove(names, k)),
{
    lemma_key_pos(names, k);
}

/// The names of a list of strings.
pub open spec fn names_of(v: Seq<String>) -> Seq<Seq<char>> {
    v.map_values(|s: String| s@)
}

/// Position of `k` in a list of strings.
pub fn find_name(v: &Vec<String>, k: &String) -> (r: Option<usize>)
    ensures
        match r {
            Some(i) => {
                &&& i as int == key_pos(names_of(v@), k@)
                &&& i < v@.len()
                &&& v@[i as int]@ == k@
            },
            None => key_pos(names_of(v@), k@) == -1,
        },
{
    let ghost names = names_of(v@);
    proof {
        lemma_key_pos(names, k@);
    }
    let mut i: usize = 0;
    while i < v.len()
        invariant
            names == names_of(v@),
            i <= v@.len(),
            forall|j: int| 0 <= j < i ==> names[j] != k@,
            -1 <= key_pos(names, k@) < names.len(),
            key_pos(names, k@) == -1 <==> (forall|j: int| 0 <= j < names.len() ==> names[j] != k@),
            key_pos(names, k@) >= 0 ==> names[key_pos(names, k@)] == k@,
            key_pos(names, k@) >= 0 ==> (forall|j: int| 0 <= j < key_pos(names, k@) ==> names[j] != k@),
        decreases v@.len() - i,
    {
        if v[i] == *k {
            assert(names[i as int] == k@);
            return Some(i);
        }
        assert(names[i as int] != k@);
        i = i + 1;
    }
    None
}

/// Position of `k` among the keys of `entries`.
pub fn find_key<V>(entries: &Vec<(String, V)>, k: &String) -> (r: Option<usize>)
    ensures
        match r {
            Some(i) => {
                &&& i as int == key_pos(keys_of(entries@), k@)
                &&& i < entries@.len()
                &&& entries@[i as int].0@ == k@
            },
            None => {
                &&& key_pos(keys_of(entries@), k@) == -1
                &&& forall|j: int| 0 <= j < entries@.len() ==> entries@[j].0@ != k@
            },
        },
{
    let ghost keys = keys_of(entries@);
    proof {
        lemma_key_pos(keys, k@);
    }
    let mut i: usize = 0;
    while i < entries.len()
        invariant
            keys == keys_of(entries@),
            i <= entries@.len(),
            forall|j: int| 0 <= j < i ==> keys[j] != k@,
            -1 <= key_pos(keys, k@) < keys.len(),
            key_pos(keys, k@) == -1 <==> (forall|j: int| 0 <= j < keys.len() ==> keys[j] != k@),
            key_pos(keys, k@) >= 0 ==> keys[key_pos(keys, k@)] == k@,
            key_pos(keys, k@) >= 0 ==> (forall|j: int| 0 <= j < key_pos(keys, k@) ==> keys[j] != k@),
        decreases entries@.len() - i,
    {
        if entries[i].0 == *k {
            assert(keys[i as int] == k@);
            return Some(i);
        }
        assert(keys[i as int] != k@);
        i = i + 1;
    }
    assert forall|j: int| 0 <= j < entries@.len() implies entries@[j].0@ != k@ by {
        assert(keys[j] == entries@[j].0@);
    }
    None
}

} // verus!
