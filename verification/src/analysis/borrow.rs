//! Borrow tracking: which borrows of each variable exist, which are still
//! active, and how often the variable is used while they are.

use vstd::prelude::*;
use proc_macro2::Span;
use crate::analysis::{AnalysisResult, BorrowEvent, BorrowKind, ResultView, results_view};
use crate::assoc::{key_pos, keys_unique, keys_of, find_key, lemma_key_pos, entry_keys, entry_get, entry_put,
    entry_remove, lemma_put_remove_unique};
use crate::parser::events::{AnalysisEvent, EventKind, Variable};
use crate::span::span_text;
use crate::text::string_of;

verus! {

/// One borrow of a variable.
#[derive(Debug)]
pub struct BorrowInfo {
    pub kind: BorrowKind,
    pub scope_level: usize,
    pub is_active: bool,
    /// Where the variable was used while the borrow was active (span texts).
    pub references: Vec<String>,
}

/// A borrow, with the number of uses recorded for it.
pub struct BorrowInfoView {
    pub kind: BorrowKind,
    pub scope_level: usize,
    pub is_active: bool,
    pub reference_count: nat,
}

impl View for BorrowInfo {
    type V = BorrowInfoView;

    open spec fn view(&self) -> BorrowInfoView {
        BorrowInfoView {
            kind: self.kind,
            scope_level: self.scope_level,
            is_active: self.is_active,
            reference_count: self.references@.len(),
        }
    }
}

/// Tracks the borrows of each variable.
#[derive(Debug)]
pub struct BorrowAnalyzer {
    borrows: Vec<(String, Vec<BorrowInfo>)>,
    active_borrows: Vec<(String, BorrowKind)>,
    results: Vec<AnalysisResult>,
}

/// The abstract state of a [`BorrowAnalyzer`]: the borrows of each variable
/// (variables in the order they were first seen), the kind of the last
/// borrow of each variable that may still be active, and the results.
pub struct BorrowState {
    pub borrows: Seq<(Seq<char>, Seq<BorrowInfoView>)>,
    pub active: Seq<(Seq<char>, BorrowKind)>,
    pub results: Seq<ResultView>,
}

pub open spec fn borrow_list_view(l: Vec<BorrowInfo>) -> Seq<BorrowInfoView> {
    l@.map_values(|b: BorrowInfo| b@)
}

impl View for BorrowAnalyzer {
    type V = BorrowState;

    closed spec fn view(&self) -> BorrowState {
        BorrowState {
            borrows: self.borrows@.map_values(|e: (String, Vec<BorrowInfo>)| (e.0@, borrow_list_view(e.1))),
            active: self.active_borrows@.map_values(|e: (String, BorrowKind)| (e.0@, e.1)),
            results: results_view(self.results@),
        }
    }
}

/// A use of the variable counts once for each of its active borrows.
pub open spec fn note_use(list: Seq<BorrowInfoView>) -> Seq<BorrowInfoView> {
    Seq::new(list.len(), |i: int| if list[i].is_active {
        BorrowInfoView { reference_count: list[i].reference_count + 1, ..list[i] }
    } else {
        list[i]
    })
}

/// The active borrows made at `level` end.
pub open spec fn close_borrows(list: Seq<BorrowInfoView>, level: usize) -> Seq<BorrowInfoView> {
    Seq::new(list.len(), |i: int| if list[i].scope_level == level && list[i].is_active {
        BorrowInfoView { is_active: false, ..list[i] }
    } else {
        list[i]
    })
}

/// The kind of the last borrow that `close_borrows` ends, if it ends any.
pub open spec fn last_closed_kind(list: Seq<BorrowInfoView>, level: usize) -> Option<BorrowKind>
    decreases list.len(),
{
    if list.len() == 0 {
        None
    } else if list.last().scope_level == level && list.last().is_active {
        Some(list.last().kind)
    } else {
        last_closed_kind(list.drop_last(), level)
    }
}

/// The number of active borrows of the given kind.
pub open spec fn active_count(list: Seq<BorrowInfoView>, kind: BorrowKind) -> nat
    decreases list.len(),
{
    if list.len() == 0 {
        0
    } else {
        active_count(list.drop_last(), kind) + if list.last().is_active && list.last().kind == kind { 1nat } else { 0nat }
    }
}

/// After the borrows of `name` at `level` end: if the last one ended is of
/// the kind recorded as active for `name` and none of that kind remains
/// active, `name` no longer counts as borrowed.
pub open spec fn exit_active(
    active: Seq<(Seq<char>, BorrowKind)>,
    name: Seq<char>,
    list: Seq<BorrowInfoView>,
    level: usize,
) -> Seq<(Seq<char>, BorrowKind)> {
    match last_closed_kind(list, level) {
        Some(k) => if entry_get(active, name) == Some(k) && active_count(close_borrows(list, level), k) == 0 {
            entry_remove(active, name)
        } else {
            active
        },
        None => active,
    }
}

/// `exit_active` for each variable, in order.
pub open spec fn exit_all(
    active: Seq<(Seq<char>, BorrowKind)>,
    entries: Seq<(Seq<char>, Seq<BorrowInfoView>)>,
    level: usize,
) -> Seq<(Seq<char>, BorrowKind)>
    decreases entries.len(),
{
    if entries.len() == 0 {
        active
    } else {
        exit_active(exit_all(active, entries.drop_last(), level), entries.last().0, entries.last().1, level)
    }
}

/// The state after a borrow of `name` is made at `level`.
pub open spec fn track_step(s: BorrowState, name: Seq<char>, kind: BorrowKind, span: Span, level: usize) -> BorrowState {
    let list = match entry_get(s.borrows, name) {
        Some(l) => l,
        None => Seq::empty(),
    };
    BorrowState {
        borrows: entry_put(
            s.borrows,
            name,
            list.push(BorrowInfoView { kind, scope_level: level, is_active: true, reference_count: 0 }),
        ),
        active: entry_put(s.active, name, kind),
        results: s.results.push(ResultView::BorrowCreated { kind, name, span }),
    }
}

/// The effect of one event.
pub open spec fn borrow_step(s: BorrowState, e: AnalysisEvent) -> BorrowState {
    match e.kind {
        EventKind::VarDefined(v) => BorrowState { borrows: entry_put(s.borrows, v.name@, Seq::empty()), ..s },
        EventKind::VarUsed { name, .. } => {
            let p = key_pos(entry_keys(s.borrows), name@);
            if p >= 0 {
                BorrowState { borrows: s.borrows.update(p, (s.borrows[p].0, note_use(s.borrows[p].1))), ..s }
            } else {
                s
            }
        },
        EventKind::ScopeExit { level } => BorrowState {
            borrows: Seq::new(s.borrows.len(), |i: int| (s.borrows[i].0, close_borrows(s.borrows[i].1, level))),
            active: exit_all(s.active, s.borrows, level),
            results: s.results,
        },
        EventKind::BorrowCreated { name, kind, scope_level } => track_step(s, name@, kind, e.span, scope_level),
        _ => s,
    }
}

/// The effect of a sequence of events, first to last.
pub open spec fn borrow_run(s: BorrowState, events: Seq<AnalysisEvent>) -> BorrowState
    decreases events.len(),
{
    if events.len() == 0 {
        s
    } else {
        borrow_step(borrow_run(s, events.drop_last()), events.last())
    }
}

/// The first count, among the borrows in order, that reaches `threshold`.
pub open spec fn first_long(list: Seq<BorrowInfoView>, threshold: nat) -> Option<nat>
    decreases list.len(),
{
    if list.len() == 0 {
        None
    } else {
        match first_long(list.drop_last(), threshold) {
            Some(c) => Some(c),
            None => if list.last().reference_count >= threshold { Some(list.last().reference_count) } else { None },
        }
    }
}

/// The variables with a borrow used at least `threshold` times, each with
/// the use count of its first such borrow.
pub open spec fn long_chains(entries: Seq<(Seq<char>, Seq<BorrowInfoView>)>, threshold: nat) -> Seq<(Seq<char>, nat)>
    decreases entries.len(),
{
    if entries.len() == 0 {
        Seq::empty()
    } else {
        let rest = long_chains(entries.drop_last(), threshold);
        match first_long(entries.last().1, threshold) {
            Some(c) => rest.push((entries.last().0, c)),
            None => rest,
        }
    }
}

/// No variable has two entries, in the borrows or in the active kinds.
pub open spec fn borrow_state_wf(s: BorrowState) -> bool {
    &&& keys_unique(entry_keys(s.borrows))
    &&& keys_unique(entry_keys(s.active))
}

impl BorrowAnalyzer {
    /// The analyzer is well formed.
    pub open spec fn wf(&self) -> bool {
        borrow_state_wf(self@)
    }

    proof fn lemma_keys(&self)
        ensures
            entry_keys(self@.borrows) == keys_of(self.borrows@),
            entry_keys(self@.active) == keys_of(self.active_borrows@),
    {
        assert(entry_keys(self@.borrows) =~= keys_of(self.borrows@));
        assert(entry_keys(self@.active) =~= keys_of(self.active_borrows@));
    }

    /// An analyzer that has seen nothing.
    pub fn new() -> (r: Self)
        ensures
            r.wf(),
            r@.borrows == Seq::<(Seq<char>, Seq<BorrowInfoView>)>::empty(),
            r@.active == Seq::<(Seq<char>, BorrowKind)>::empty(),
            r@.results == Seq::<ResultView>::empty(),
    {
        let r = BorrowAnalyzer { borrows: Vec::new(), active_borrows: Vec::new(), results: Vec::new() };
        assert(r@.borrows =~= Seq::<(Seq<char>, Seq<BorrowInfoView>)>::empty());
        assert(r@.active =~= Seq::<(Seq<char>, BorrowKind)>::empty());
        assert(r@.results =~= Seq::<ResultView>::empty());
        assert(entry_keys(r@.borrows) =~= Seq::<Seq<char>>::empty());
        assert(entry_keys(r@.active) =~= Seq::<Seq<char>>::empty());
        r
    }

    /// Takes the events in order and returns all results reported so far.
    pub fn analyze(&mut self, events: &[AnalysisEvent]) -> (r: &[AnalysisResult])
        requires
            old(self).wf(),
        ensures
            final(self).wf(),
            final(self)@ == borrow_run(old(self)@, events@),
            results_view(r@) == final(self)@.results,
    {
        let mut i: usize = 0;
        while i < events.len()
            invariant
                i <= events@.len(),
                self.wf(),
                self@ == borrow_run(old(self)@, events@.take(i as int)),
            decreases events@.len() - i,
        {
            self.process_event(&events[i]);
            assert(events@.take(i + 1).drop_last() =~= events@.take(i as int));
            i = i + 1;
        }
        assert(events@.take(events@.len() as int) =~= events@);
        self.results.as_slice()
    }

    fn process_event(&mut self, event: &AnalysisEvent)
        requires
            old(self).wf(),
        ensures
            final(self).wf(),
            final(self)@ == borrow_step(old(self)@, *event),
    {
        match &event.kind {
            EventKind::VarDefined(var) => {
                self.handle_var_defined(var);
            },
            EventKind::VarUsed { name, .. } => {
                self.handle_var_used(name, event.span);
            },
            EventKind::ScopeEnter { .. } => {},
            EventKind::ScopeExit { level } => {
                self.handle_scope_exit(*level, event.span);
            },
            EventKind::BorrowCreated { name, kind, scope_level } => {
                self.track_borrow(name.as_str(), *kind, event.span, *scope_level);
            },
            _ => {},
        }
    }

    fn handle_var_defined(&mut self, var: &Variable)
        requires
            old(self).wf(),
        ensures
            final(self).wf(),
            final(self)@ == (BorrowState { borrows: entry_put(old(self)@.borrows, var.name@, Seq::empty()), ..old(self)@ }),
    {
        proof {
            self.lemma_keys();
            lemma_key_pos(keys_of(self.borrows@), var.name@);
            lemma_put_remove_unique(self@.borrows, var.name@, Seq::<BorrowInfoView>::empty());
        }
        let ghost before = self@;
        match find_key(&self.borrows, &var.name) {
            Some(i) => {
                self.borrows[i].1 = Vec::new();
                assert(borrow_list_view(self.borrows@[i as int].1) =~= Seq::<BorrowInfoView>::empty());
            },
            None => {
                let fresh: Vec<BorrowInfo> = Vec::new();
                self.borrows.push((var.name.clone(), fresh));
                assert(borrow_list_view(fresh) =~= Seq::<BorrowInfoView>::empty());
            },
        }
        assert(self@.borrows =~= entry_put(before.borrows, var.name@, Seq::empty()));
        assert(self@.active =~= before.active);
        assert(self@.results =~= before.results);
    }

    fn handle_var_used(&mut self, name: &String, span: Span)
        requires
            old(self).wf(),
        ensures
            final(self).wf(),
            final(self)@ == borrow_step(old(self)@, (AnalysisEvent { kind: EventKind::VarUsed { name: *name, scope_level: 0 }, span })),
    {
        proof {
            self.lemma_keys();
        }
        let ghost before = self@;
        if let Some(p) = find_key(&self.borrows, name) {
            let ghost list = before.borrows[p as int].1;
            assert(list == borrow_list_view(self.borrows@[p as int].1));
            note_use_in(&mut self.borrows[p].1, span);
            assert(self@.borrows =~= before.borrows.update(p as int, (before.borrows[p as int].0, note_use(list))));
        }
        assert(self@.active =~= before.active);
        assert(self@.results =~= before.results);
        proof {
            assert(entry_keys(self@.borrows) =~= entry_keys(before.borrows));
        }
    }

    fn handle_scope_exit(&mut self, level: usize, _span: Span)
        requires
            old(self).wf(),
        ensures
            final(self).wf(),
            final(self)@ == borrow_step(old(self)@, (AnalysisEvent { kind: EventKind::ScopeExit { level }, span: _span })),
    {
        let ghost before = self@;
        proof {
            self.lemma_keys();
        }
        let n = self.borrows.len();
        let mut j: usize = 0;
        while j < n
            invariant
                n == before.borrows.len(),
                self.borrows@.len() == n,
                j <= n,
                self.results == old(self).results,
                forall|i: int| 0 <= i < n ==> (#[trigger] self.borrows@[i]).0 == old(self).borrows@[i].0,
                forall|i: int| 0 <= i < n ==> borrow_list_view((#[trigger] self.borrows@[i]).1) == (if i < j {
                    close_borrows(before.borrows[i].1, level)
                } else {
                    before.borrows[i].1
                }),
                forall|i: int| 0 <= i < n ==> (#[trigger] before.borrows[i]).0 == old(self).borrows@[i].0@,
                self@.active == exit_all(before.active, before.borrows.take(j as int), level),
                keys_unique(entry_keys(self@.active)),
            decreases n - j,
        {
            let ghost list = before.borrows[j as int].1;
            let ghost act = self@.active;
            let ghost name = before.borrows[j as int].0;
            assert(borrow_list_view(self.borrows@[j as int].1) == list);
            let active_kind = close_in(&mut self.borrows[j].1, level);
            proof {
                assert(before.borrows.take(j + 1).drop_last() =~= before.borrows.take(j as int));
                assert(before.borrows.take(j + 1).last() == before.borrows[j as int]);
                assert(entry_keys(self@.active) =~= keys_of(self.active_borrows@));
                lemma_key_pos(keys_of(self.active_borrows@), name);
                lemma_put_remove_unique(act, name, BorrowKind::Immutable);
                assert(self.borrows@[j as int].0@ == name);
            }
            if let Some(kind) = active_kind {
                if let Some(a) = find_key(&self.active_borrows, &self.borrows[j].0) {
                    let same = match (self.active_borrows[a].1, kind) {
                        (BorrowKind::Immutable, BorrowKind::Immutable) => true,
                        (BorrowKind::Mutable, BorrowKind::Mutable) => true,
                        _ => false,
                    };
                    assert(entry_get(act, name) == Some(self.active_borrows@[a as int].1));
                    if same {
                        let remaining = count_active(&self.borrows[j].1, kind);
                        if remaining == 0 {
                            self.active_borrows.remove(a);
                            assert(self@.active =~= entry_remove(act, name));
                        }
                    }
                } else {
                    assert(entry_get(act, name) == None::<BorrowKind>);
                }
            }
            assert(self@.active == exit_active(act, name, list, level));
            j = j + 1;
        }
        assert(before.borrows.take(n as int) =~= before.borrows);
        assert(self@.borrows =~= Seq::new(before.borrows.len(), |i: int| (before.borrows[i].0, close_borrows(before.borrows[i].1, level))));
        assert(self@.results =~= before.results);
        assert(entry_keys(self@.borrows) =~= entry_keys(before.borrows));
    }

    /// Records a borrow of `name` made at `scope_level`: it is added, active,
    /// to the variable's borrows, becomes the variable's active kind, and is
    /// reported.
    pub fn track_borrow(&mut self, name: &str, kind: BorrowKind, span: Span, scope_level: usize)
        requires
            old(self).wf(),
        ensures
            final(self).wf(),
            final(self)@ == track_step(old(self)@, name@, kind, span, scope_level),
    {
        let key = string_of(name);
        let ghost before = self@;
        proof {
            self.lemma_keys();
            lemma_key_pos(keys_of(self.borrows@), key@);
            lemma_key_pos(keys_of(self.active_borrows@), key@);
        }
        let info = BorrowInfo { kind, scope_level, is_active: true, references: Vec::new() };
        let ghost info_view = BorrowInfoView { kind, scope_level, is_active: true, reference_count: 0 };
        assert(info@ == info_view);
        match find_key(&self.borrows, &key) {
            Some(i) => {
                let ghost l = before.borrows[i as int].1;
                self.borrows[i].1.push(info);
                assert(borrow_list_view(self.borrows@[i as int].1) =~= l.push(info_view));
            },
            None => {
                let mut l: Vec<BorrowInfo> = Vec::new();
                l.push(info);
                assert(borrow_list_view(l) =~= Seq::<BorrowInfoView>::empty().push(info_view));
                self.borrows.push((key.clone(), l));
            },
        }
        match find_key(&self.active_borrows, &key) {
            Some(i) => {
                self.active_borrows[i].1 = kind;
            },
            None => {
                self.active_borrows.push((key.clone(), kind));
            },
        }
        let res = AnalysisResult::BorrowCreated(BorrowEvent { kind, name: key, span });
        self.results.push(res);
        proof {
            let t = track_step(before, name@, kind, span, scope_level);
            assert(self@.borrows =~= t.borrows);
            assert(self@.active =~= t.active);
            assert(self@.results =~= t.results);
            let lst = match entry_get(before.borrows, name@) {
                Some(l) => l,
                None => Seq::empty(),
            };
            lemma_put_remove_unique(before.borrows, name@, lst.push(info_view));
            lemma_put_remove_unique(before.active, name@, kind);
        }
    }

    /// Each variable with a borrow that was used at least `threshold` times,
    /// with the use count of its first such borrow.
    pub fn find_long_borrow_chains(&self, threshold: usize) -> (r: Vec<(String, usize)>)
        ensures
            r@.map_values(|e: (String, usize)| (e.0@, e.1 as nat)) == long_chains(self@.borrows, threshold as nat),
    {
        let mut long: Vec<(String, usize)> = Vec::new();
        assert(long@.map_values(|e: (String, usize)| (e.0@, e.1 as nat)) =~= Seq::<(Seq<char>, nat)>::empty());
        let n = self.borrows.len();
        let mut j: usize = 0;
        while j < n
            invariant
                n == self.borrows@.len(),
                j <= n,
                long@.map_values(|e: (String, usize)| (e.0@, e.1 as nat)) == long_chains(self@.borrows.take(j as int), threshold as nat),
            decreases n - j,
        {
            let ghost list = self@.borrows[j as int].1;
            let m = self.borrows[j].1.len();
            let mut k: usize = 0;
            let mut found: Option<usize> = None;
            while k < m
                invariant
                    n == self.borrows@.len(),
                    j < n,
                    m == list.len(),
                    k <= m,
                    list == borrow_list_view(self.borrows@[j as int].1),
                    match found {
                        Some(c) => first_long(list.take(k as int), threshold as nat) == Some(c as nat),
                        None => first_long(list.take(k as int), threshold as nat) == None::<nat>,
                    },
                decreases m - k,
            {
                assert(list.take(k + 1).drop_last() =~= list.take(k as int));
                let c = self.borrows[j].1[k].references.len();
                if found.is_none() && c >= threshold {
                    found = Some(c);
                }
                k = k + 1;
            }
            assert(list.take(m as int) =~= list);
            assert(self@.borrows.take(j + 1).drop_last() =~= self@.borrows.take(j as int));
            if let Some(c) = found {
                let ghost before_long = long@;
                long.push((self.borrows[j].0.clone(), c));
                assert(long@.map_values(|e: (String, usize)| (e.0@, e.1 as nat)) =~=
                    before_long.map_values(|e: (String, usize)| (e.0@, e.1 as nat)).push((self@.borrows[j as int].0, c as nat)));
            }
            j = j + 1;
        }
        assert(self@.borrows.take(n as int) =~= self@.borrows);
        long
    }
}

/// Counts a use against each active borrow of the list.
fn note_use_in(list: &mut Vec<BorrowInfo>, span: Span)
    ensures
        borrow_list_view(*final(list)) == note_use(borrow_list_view(*old(list))),
{
    let ghost l = borrow_list_view(*list);
    let n = list.len();
    let mut k: usize = 0;
    while k < n
        invariant
            n == l.len(),
            list@.len() == n,
            k <= n,
            forall|i: int| 0 <= i < n ==> (#[trigger] list@[i])@ == (if i < k { note_use(l)[i] } else { l[i] }),
        decreases n - k,
    {
        if list[k].is_active {
            let t = span_text(&span);
            list[k].references.push(t);
        }
        k = k + 1;
    }
    assert(borrow_list_view(*list) =~= note_use(l));
}

/// Ends the active borrows of the list made at `level`, and returns the kind
/// of the last one ended.
fn close_in(list: &mut Vec<BorrowInfo>, level: usize) -> (r: Option<BorrowKind>)
    ensures
        borrow_list_view(*final(list)) == close_borrows(borrow_list_view(*old(list)), level),
        r == last_closed_kind(borrow_list_view(*old(list)), level),
{
    let ghost l = borrow_list_view(*list);
    let n = list.len();
    let mut active_kind: Option<BorrowKind> = None;
    let mut k: usize = 0;
    while k < n
        invariant
            n == l.len(),
            list@.len() == n,
            k <= n,
            forall|i: int| 0 <= i < n ==> (#[trigger] list@[i])@ == (if i < k { close_borrows(l, level)[i] } else { l[i] }),
            active_kind == last_closed_kind(l.take(k as int), level),
        decreases n - k,
    {
        assert(l.take(k + 1).drop_last() =~= l.take(k as int));
        assert(l.take(k + 1).last() == l[k as int]);
        if list[k].scope_level == level && list[k].is_active {
            list[k].is_active = false;
            active_kind = Some(list[k].kind);
        }
        k = k + 1;
    }
    assert(l.take(n as int) =~= l);
    assert(borrow_list_view(*list) =~= close_borrows(l, level));
    active_kind
}

/// The number of active borrows of the given kind.
fn count_active(list: &Vec<BorrowInfo>, kind: BorrowKind) -> (r: usize)
    ensures
        r as nat == active_count(borrow_list_view(*list), kind),
{
    let ghost l = borrow_list_view(*list);
    let mut c: usize = 0;
    let mut k: usize = 0;
    while k < list.len()
        invariant
            l == borrow_list_view(*list),
            k <= list@.len(),
            c as nat == active_count(l.take(k as int), kind),
            c <= k,
        decreases list@.len() - k,
    {
        assert(l.take(k + 1).drop_last() =~= l.take(k as int));
        let same = match (list[k].kind, kind) {
            (BorrowKind::Immutable, BorrowKind::Immutable) => true,
            (BorrowKind::Mutable, BorrowKind::Mutable) => true,
            _ => false,
        };
        if list[k].is_active && same {
            c = c + 1;
        }
        k = k + 1;
    }
    assert(l.take(list@.len() as int) =~= l);
    c
}


/// Analysing two batches of events one after the other leaves the analyzer
/// in the state that analysing them together does.
pub proof fn lemma_borrow_batches(s: BorrowState, first: Seq<AnalysisEvent>, second: Seq<AnalysisEvent>)
    ensures
        borrow_run(s, first + second) == borrow_run(borrow_run(s, first), second),
    decreases second.len(),
{
    if second.len() == 0 {
        assert(first + second =~= first);
    } else {
        assert((first + second).drop_last() =~= first + second.drop_last());
        assert((first + second).last() == second.last());
        lemma_borrow_batches(s, first, second.drop_last());
    }
}

/// Analysis never withdraws a result: the results before the events stay,
/// in order, at the front of the results after them.
pub proof fn lemma_borrow_results_kept(s: BorrowState, events: Seq<AnalysisEvent>)
    ensures
        borrow_run(s, events).results.len() >= s.results.len(),
        borrow_run(s, events).results.take(s.results.len() as int) == s.results,
    decreases events.len(),
{
    if events.len() > 0 {
        lemma_borrow_results_kept(s, events.drop_last());
        let before = borrow_run(s, events.drop_last());
        let after = borrow_run(s, events);
        assert(after.results.len() >= before.results.len());
        assert(after.results.take(before.results.len() as int) =~= before.results);
        assert(after.results.take(s.results.len() as int) =~= before.results.take(s.results.len() as int));
    }
}


/// Leaving a scope ends every borrow made in it and no other: a borrow made
/// at another level stays active or inactive as it was, no borrow changes
/// its kind, level or use count, no variable loses or gains a borrow, and
/// nothing is reported.
pub proof fn lemma_scope_exit_ends_borrows(s: BorrowState, e: AnalysisEvent, level: usize)
    requires
        e.kind == (EventKind::ScopeExit { level }),
    ensures
        borrow_step(s, e).borrows.len() == s.borrows.len(),
        forall|i: int, j: int| 0 <= i < s.borrows.len() && 0 <= j < s.borrows[i].1.len()
            ==> (#[trigger] borrow_step(s, e).borrows[i].1[j]).kind == s.borrows[i].1[j].kind
            && borrow_step(s, e).borrows[i].1[j].scope_level == s.borrows[i].1[j].scope_level
            && borrow_step(s, e).borrows[i].1[j].reference_count == s.borrows[i].1[j].reference_count
            && (s.borrows[i].1[j].scope_level == level ==> !borrow_step(s, e).borrows[i].1[j].is_active)
            && (s.borrows[i].1[j].scope_level != level
                ==> borrow_step(s, e).borrows[i].1[j].is_active == s.borrows[i].1[j].is_active),
        forall|i: int| 0 <= i < s.borrows.len() ==> (#[trigger] borrow_step(s, e).borrows[i]).0 == s.borrows[i].0
            && borrow_step(s, e).borrows[i].1.len() == s.borrows[i].1.len(),
        borrow_step(s, e).results == s.results,
{
}

} // verus!
