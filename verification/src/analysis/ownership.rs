//! Ownership tracking: every variable starts out owned, can be borrowed, and
//! is dropped when its scope ends (unless it was moved away).

use vstd::prelude::*;
use proc_macro2::Span;
use crate::analysis::{AnalysisResult, BorrowKind, OwnershipStatus, ResultView, results_view};
use crate::assoc::{key_pos, keys_unique, keys_of, find_key, lemma_key_pos};
use crate::parser::events::{AnalysisEvent, EventKind, Function, Variable};

verus! {

/// The status kept for one variable.
#[derive(Debug, Clone, Copy)]
pub struct OwnershipRecordInternal {
    pub status: OwnershipStatus,
}

/// Follows variables through nested scopes and reports when they become
/// owned and when they are dropped.
#[derive(Debug)]
pub struct OwnershipAnalyzer {
    scopes: Vec<Vec<(String, OwnershipRecordInternal)>>,
    results: Vec<AnalysisResult>,
}

/// The variables of one scope, with their status, in the order they were
/// first bound there.
pub type ScopeView = Seq<(Seq<char>, OwnershipStatus)>;

/// The abstract state of an [`OwnershipAnalyzer`]: its scopes, innermost
/// last, and the results reported so far.
pub struct OwnershipState {
    pub scopes: Seq<ScopeView>,
    pub results: Seq<ResultView>,
}

pub open spec fn scope_view(sc: Vec<(String, OwnershipRecordInternal)>) -> ScopeView {
    sc@.map_values(|e: (String, OwnershipRecordInternal)| (e.0@, e.1.status))
}

impl View for OwnershipAnalyzer {
    type V = OwnershipState;

    closed spec fn view(&self) -> OwnershipState {
        OwnershipState {
            scopes: self.scopes@.map_values(|sc: Vec<(String, OwnershipRecordInternal)>| scope_view(sc)),
            results: results_view(self.results@),
        }
    }
}

/// Names bound in a scope.
pub open spec fn scope_names(sc: ScopeView) -> Seq<Seq<char>> {
    sc.map_values(|e: (Seq<char>, OwnershipStatus)| e.0)
}

/// Binds `name` in a scope with status `st`: a name already bound there keeps
/// its place and takes the new status; a new name goes last.
pub open spec fn scope_insert(sc: ScopeView, name: Seq<char>, st: OwnershipStatus) -> ScopeView {
    let p = key_pos(scope_names(sc), name);
    if p >= 0 {
        sc.update(p, (name, st))
    } else {
        sc.push((name, st))
    }
}

/// The scopes, with empty ones added until `level` exists.
pub open spec fn grow_scopes(scopes: Seq<ScopeView>, level: nat) -> Seq<ScopeView> {
    if level < scopes.len() {
        scopes
    } else {
        scopes + Seq::new((level + 1 - scopes.len()) as nat, |i: int| Seq::<(Seq<char>, OwnershipStatus)>::empty())
    }
}

/// The scopes after `name` is bound as owned at `level`.
pub open spec fn bind_owned(scopes: Seq<ScopeView>, name: Seq<char>, level: nat) -> Seq<ScopeView> {
    let g = grow_scopes(scopes, level);
    g.update(level as int, scope_insert(g[level as int], name, OwnershipStatus::Owned))
}

/// The scopes after each parameter, in order, is bound as owned at its level.
pub open spec fn bind_params(scopes: Seq<ScopeView>, params: Seq<Variable>) -> Seq<ScopeView>
    decreases params.len(),
{
    if params.len() == 0 {
        scopes
    } else {
        bind_owned(bind_params(scopes, params.drop_last()), params.last().name@, params.last().scope_level as nat)
    }
}

/// A `Dropped` result, at `span`, for each variable of the scope that was
/// not moved, in the scope's order.
pub open spec fn dropped_results(sc: ScopeView, span: Span) -> Seq<ResultView>
    decreases sc.len(),
{
    if sc.len() == 0 {
        Seq::empty()
    } else {
        let rest = dropped_results(sc.drop_last(), span);
        if sc.last().1 == OwnershipStatus::Moved {
            rest
        } else {
            rest.push(ResultView::OwnershipChange { name: sc.last().0, new_status: OwnershipStatus::Dropped, span })
        }
    }
}

/// The innermost scope that binds `name`, or -1.
pub open spec fn innermost_scope(scopes: Seq<ScopeView>, name: Seq<char>) -> int
    decreases scopes.len(),
{
    if scopes.len() == 0 {
        -1
    } else if key_pos(scope_names(scopes.last()), name) >= 0 {
        scopes.len() - 1
    } else {
        innermost_scope(scopes.drop_last(), name)
    }
}

/// The scopes after a borrow of `name`: the innermost binding of `name`, if
/// it is owned, becomes borrowed; anything else stays as it is.
pub open spec fn borrow_scopes(scopes: Seq<ScopeView>, name: Seq<char>, kind: BorrowKind) -> Seq<ScopeView> {
    let l = innermost_scope(scopes, name);
    if l < 0 {
        scopes
    } else {
        let sc = scopes[l];
        let p = key_pos(scope_names(sc), name);
        if sc[p].1 == OwnershipStatus::Owned {
            scopes.update(l, sc.update(p, (name, OwnershipStatus::Borrowed(kind))))
        } else {
            scopes
        }
    }
}

/// The effect of one event.
pub open spec fn ownership_step(s: OwnershipState, e: AnalysisEvent) -> OwnershipState {
    match e.kind {
        EventKind::VarDefined(v) => OwnershipState {
            scopes: bind_owned(s.scopes, v.name@, v.scope_level as nat),
            results: s.results.push(
                ResultView::OwnershipChange { name: v.name@, new_status: OwnershipStatus::Owned, span: v.span },
            ),
        },
        EventKind::ScopeEnter { .. } => OwnershipState {
            scopes: s.scopes.push(Seq::empty()),
            results: s.results,
        },
        EventKind::ScopeExit { level } => OwnershipState {
            scopes: if s.scopes.len() > level + 1 { s.scopes.take(level + 1) } else { s.scopes },
            results: if level < s.scopes.len() {
                s.results + dropped_results(s.scopes[level as int], e.span)
            } else {
                s.results
            },
        },
        EventKind::FuncDefined(f) => OwnershipState {
            scopes: bind_params(s.scopes, f.parameters@),
            results: s.results,
        },
        EventKind::BorrowCreated { name, kind, .. } => OwnershipState {
            scopes: borrow_scopes(s.scopes, name@, kind),
            results: s.results,
        },
        _ => s,
    }
}

/// The effect of a sequence of events, first to last.
pub open spec fn ownership_run(s: OwnershipState, events: Seq<AnalysisEvent>) -> OwnershipState
    decreases events.len(),
{
    if events.len() == 0 {
        s
    } else {
        ownership_step(ownership_run(s, events.drop_last()), events.last())
    }
}

/// An event the analyzer can take: levels leave room for one more scope
/// (the analyzer counts scopes with `usize`).
pub open spec fn ownership_event_ok(e: AnalysisEvent) -> bool {
    match e.kind {
        EventKind::VarDefined(v) => v.scope_level < usize::MAX,
        EventKind::FuncDefined(f) => forall|i: int|
            0 <= i < f.parameters@.len() ==> #[trigger] f.parameters@[i].scope_level < usize::MAX,
        EventKind::ScopeExit { level } => level < usize::MAX,
        _ => true,
    }
}

/// Every event of the sequence can be taken.
pub open spec fn ownership_events_ok(events: Seq<AnalysisEvent>) -> bool {
    forall|i: int| 0 <= i < events.len() ==> ownership_event_ok(#[trigger] events[i])
}

/// The state is well formed: there is an outermost scope, and no scope binds
/// a name twice.
pub open spec fn ownership_state_wf(s: OwnershipState) -> bool {
    &&& s.scopes.len() >= 1
    &&& forall|l: int| 0 <= l < s.scopes.len() ==> keys_unique(scope_names(#[trigger] s.scopes[l]))
}

proof fn lemma_scope_names_view(sc: Vec<(String, OwnershipRecordInternal)>)
    ensures
        scope_names(scope_view(sc)) == keys_of(sc@),
{
    assert(scope_names(scope_view(sc)) =~= keys_of(sc@));
}

proof fn lemma_empty_scope(sc: Vec<(String, OwnershipRecordInternal)>)
    requires
        sc@.len() == 0,
    ensures
        scope_view(sc) == Seq::<(Seq<char>, OwnershipStatus)>::empty(),
        scope_names(scope_view(sc)) == Seq::<Seq<char>>::empty(),
{
    assert(scope_view(sc) =~= Seq::<(Seq<char>, OwnershipStatus)>::empty());
    assert(scope_names(scope_view(sc)) =~= Seq::<Seq<char>>::empty());
}

proof fn lemma_insert_unique(sc: ScopeView, name: Seq<char>, st: OwnershipStatus)
    requires
        keys_unique(scope_names(sc)),
    ensures
        keys_unique(scope_names(scope_insert(sc, name, st))),
{
    lemma_key_pos(scope_names(sc), name);
    let r = scope_insert(sc, name, st);
    let p = key_pos(scope_names(sc), name);
    if p >= 0 {
        assert(scope_names(r) =~= scope_names(sc).update(p, name));
    } else {
        assert(scope_names(r) =~= scope_names(sc).push(name));
    }
}

spec fn sc_take_all(s: Seq<ScopeView>) -> bool {
    s.take(s.len() as int) =~= s
}

impl OwnershipAnalyzer {
    /// The analyzer is well formed.
    pub open spec fn wf(&self) -> bool {
        ownership_state_wf(self@)
    }

    /// An analyzer with one empty outermost scope and no results.
    pub fn new() -> (r: Self)
        ensures
            r.wf(),
            r@.scopes == seq![Seq::<(Seq<char>, OwnershipStatus)>::empty()],
            r@.results == Seq::<ResultView>::empty(),
    {
        let mut scopes: Vec<Vec<(String, OwnershipRecordInternal)>> = Vec::new();
        let first: Vec<(String, OwnershipRecordInternal)> = Vec::new();
        proof {
            lemma_empty_scope(first);
        }
        scopes.push(first);
        let r = OwnershipAnalyzer { scopes, results: Vec::new() };
        assert(r@.scopes =~= seq![Seq::<(Seq<char>, OwnershipStatus)>::empty()]);
        assert(r@.results =~= Seq::<ResultView>::empty());
        r
    }

    /// Takes the events in order and returns all results reported so far.
    pub fn analyze(&mut self, events: &[AnalysisEvent]) -> (r: &[AnalysisResult])
        requires
            old(self).wf(),
            ownership_events_ok(events@),
        ensures
            final(self).wf(),
            final(self)@ == ownership_run(old(self)@, events@),
            results_view(r@) == final(self)@.results,
    {
        let mut i: usize = 0;
        while i < events.len()
            invariant
                i <= events@.len(),
                self.wf(),
                ownership_events_ok(events@),
                self@ == ownership_run(old(self)@, events@.take(i as int)),
            decreases events@.len() - i,
        {
            assert(ownership_event_ok(events@[i as int]));
            self.process_event(&events[i]);
            assert(events@.take(i + 1).drop_last() =~= events@.take(i as int));
            i = i + 1;
        }
        assert(events@.take(events@.len() as int) =~= events@);
        self.results.as_slice()
    }

    fn process_event(&mut self, event: &AnalysisEvent)
        requires
            old(self).wf(),
            ownership_event_ok(*event),
        ensures
            final(self).wf(),
            final(self)@ == ownership_step(old(self)@, *event),
    {
        match &event.kind {
            EventKind::VarDefined(var) => {
                self.handle_var_defined(var);
            },
            EventKind::VarUsed { name, .. } => {
                self.handle_var_used(name, event.span);
            },
            EventKind::ScopeEnter { .. } => {
                let fresh: Vec<(String, OwnershipRecordInternal)> = Vec::new();
                proof {
                    lemma_empty_scope(fresh);
                }
                self.scopes.push(fresh);
                proof {
                    assert(self@.scopes =~= old(self)@.scopes.push(Seq::empty()));
                }
            },
            EventKind::ScopeExit { level } => {
                self.handle_scope_exit(*level, event.span);
            },
            EventKind::FuncDefined(func) => {
                self.handle_func_defined(func);
            },
            EventKind::BorrowCreated { name, kind, .. } => {
                self.handle_borrow_created(name, kind, event.span);
            },
            _ => {},
        }
    }

    /// Adds empty scopes until `level` exists, then binds `name` there as owned.
    fn bind(&mut self, name: &String, level: usize)
        requires
            old(self).wf(),
            level < usize::MAX,
        ensures
            final(self).wf(),
            final(self)@.scopes == bind_owned(old(self)@.scopes, name@, level as nat),
            final(self).results == old(self).results,
    {
        let ghost old_scopes = self@.scopes;
        while self.scopes.len() <= level
            invariant
                self.wf(),
                level < usize::MAX,
                self.results == old(self).results,
                self@.scopes.len() >= old_scopes.len(),
                self@.scopes.len() <= level + 1 || self@.scopes == old_scopes,
                self@.scopes =~= old_scopes + Seq::new(
                    (self@.scopes.len() - old_scopes.len()) as nat,
                    |i: int| Seq::<(Seq<char>, OwnershipStatus)>::empty(),
                ),
            decreases level + 1 - self.scopes@.len(),
        {
            let fresh: Vec<(String, OwnershipRecordInternal)> = Vec::new();
            proof {
                lemma_empty_scope(fresh);
            }
            let ghost before = self@.scopes;
            self.scopes.push(fresh);
            assert(self@.scopes =~= before.push(Seq::empty()));
        }
        let ghost grown = self@.scopes;
        assert(grown =~= grow_scopes(old_scopes, level as nat));
        let ghost sc_before = self.scopes@[level as int];
        proof {
            lemma_scope_names_view(sc_before);
            lemma_key_pos(keys_of(sc_before@), name@);
            lemma_insert_unique(grown[level as int], name@, OwnershipStatus::Owned);
        }
        match find_key(&self.scopes[level], name) {
            Some(p) => {
                self.scopes[level][p].1 = OwnershipRecordInternal { status: OwnershipStatus::Owned };
                proof {
                    assert(scope_view(self.scopes@[level as int]) =~= scope_insert(grown[level as int], name@, OwnershipStatus::Owned));
                }
            },
            None => {
                self.scopes[level].push((name.clone(), OwnershipRecordInternal { status: OwnershipStatus::Owned }));
                proof {
                    assert(scope_view(self.scopes@[level as int]) =~= scope_insert(grown[level as int], name@, OwnershipStatus::Owned));
                }
            },
        }
        assert(self@.scopes =~= bind_owned(old_scopes, name@, level as nat));
    }

    fn handle_var_defined(&mut self, var: &Variable)
        requires
            old(self).wf(),
            var.scope_level < usize::MAX,
        ensures
            final(self).wf(),
            final(self)@.scopes == bind_owned(old(self)@.scopes, var.name@, var.scope_level as nat),
            final(self)@.results == old(self)@.results.push(
                ResultView::OwnershipChange { name: var.name@, new_status: OwnershipStatus::Owned, span: var.span },
            ),
    {
        self.bind(&var.name, var.scope_level);
        self.results.push(AnalysisResult::OwnershipChange {
            name: var.name.clone(),
            new_status: OwnershipStatus::Owned,
            span: var.span,
        });
        assert(self@.results =~= old(self)@.results.push(
            ResultView::OwnershipChange { name: var.name@, new_status: OwnershipStatus::Owned, span: var.span },
        ));
    }

    fn handle_var_used(&mut self, name: &String, _span: Span)
        requires
            old(self).wf(),
        ensures
            *final(self) == *old(self),
    {
        let last = self.scopes.len() - 1;
        if let Some(record) = self.find_variable(name, last) {
            match record.status {
                OwnershipStatus::Moved => {
                    // a use of a moved value; nothing is reported for it
                },
                _ => {},
            }
        }
    }

    fn handle_scope_exit(&mut self, level: usize, span: Span)
        requires
            old(self).wf(),
            level < usize::MAX,
        ensures
            final(self).wf(),
            final(self)@ == ownership_step(old(self)@, AnalysisEvent { kind: EventKind::ScopeExit { level }, span }),
    {
        let ghost old_results = self@.results;
        if level < self.scopes.len() {
            let ghost sc = self@.scopes[level as int];
            let n = self.scopes[level].len();
            let mut j: usize = 0;
            while j < n
                invariant
                    self.scopes == old(self).scopes,
                    level < self.scopes@.len(),
                    sc == self@.scopes[level as int],
                    n == sc.len(),
                    j <= n,
                    self@.results == old_results + dropped_results(sc.take(j as int), span),
                decreases n - j,
            {
                let moved = match self.scopes[level][j].1.status {
                    OwnershipStatus::Moved => true,
                    _ => false,
                };
                let ghost before = self@.results;
                assert(sc.take(j + 1).drop_last() =~= sc.take(j as int));
                assert(sc.take(j + 1).last() == sc[j as int]);
                assert(sc[j as int] == (self.scopes@[level as int]@[j as int].0@, self.scopes@[level as int]@[j as int].1.status));
                assert(moved == (sc[j as int].1 == OwnershipStatus::Moved));
                if !moved {
                    let name = self.scopes[level][j].0.clone();
                    let res = AnalysisResult::OwnershipChange {
                        name,
                        new_status: OwnershipStatus::Dropped,
                        span,
                    };
                    self.results.push(res);
                    assert(self@.results =~= before.push(res@));
                    assert(dropped_results(sc.take(j + 1), span) == dropped_results(sc.take(j as int), span).push(res@));
                } else {
                    assert(dropped_results(sc.take(j + 1), span) == dropped_results(sc.take(j as int), span));
                }
                assert(self@.results =~= old_results + dropped_results(sc.take(j + 1), span));
                j = j + 1;
            }
            assert(sc.take(n as int) =~= sc);
        }
        let ghost mid_scopes = self@.scopes;
        assert(sc_take_all(mid_scopes));
        while self.scopes.len() > level + 1
            invariant
                level < usize::MAX,
                self@.scopes.len() >= level + 1 || self@.scopes == mid_scopes,
                self@.scopes.len() <= mid_scopes.len(),
                self@.scopes == mid_scopes.take(self@.scopes.len() as int),
                self@.results == old(self)@.results + (if level < mid_scopes.len() {
                    dropped_results(mid_scopes[level as int], span)
                } else {
                    Seq::empty()
                }),
                mid_scopes == old(self)@.scopes,
            decreases self.scopes@.len(),
        {
            self.scopes.pop();
            assert(self@.scopes =~= mid_scopes.take(self@.scopes.len() as int));
        }
        proof {
            assert(mid_scopes.take(mid_scopes.len() as int) =~= mid_scopes);
            if level >= mid_scopes.len() {
                assert(self@.results =~= old(self)@.results);
            }
        }
    }

    fn handle_func_defined(&mut self, func: &Function)
        requires
            old(self).wf(),
            forall|i: int| 0 <= i < func.parameters@.len() ==> #[trigger] func.parameters@[i].scope_level < usize::MAX,
        ensures
            final(self).wf(),
            final(self)@.scopes == bind_params(old(self)@.scopes, func.parameters@),
            final(self).results == old(self).results,
    {
        let mut i: usize = 0;
        while i < func.parameters.len()
            invariant
                self.wf(),
                i <= func.parameters@.len(),
                forall|k: int| 0 <= k < func.parameters@.len() ==> #[trigger] func.parameters@[k].scope_level < usize::MAX,
                self@.scopes == bind_params(old(self)@.scopes, func.parameters@.take(i as int)),
                self.results == old(self).results,
            decreases func.parameters@.len() - i,
        {
            let param = &func.parameters[i];
            assert(func.parameters@[i as int].scope_level < usize::MAX);
            self.bind(&param.name, param.scope_level);
            assert(func.parameters@.take(i + 1).drop_last() =~= func.parameters@.take(i as int));
            i = i + 1;
        }
        assert(func.parameters@.take(func.parameters@.len() as int) =~= func.parameters@);
    }

    fn handle_borrow_created(&mut self, name: &String, kind: &BorrowKind, _span: Span)
        requires
            old(self).wf(),
        ensures
            final(self).wf(),
            final(self)@.scopes == borrow_scopes(old(self)@.scopes, name@, *kind),
            final(self).results == old(self).results,
    {
        let ghost scopes = self@.scopes;
        let scopes_len = self.scopes.len();
        let mut level = scopes_len;
        assert(scopes.take(scopes_len as int) =~= scopes);
        while level > 0
            invariant
                self.wf(),
                self.scopes == old(self).scopes,
                self.results == old(self).results,
                scopes == self@.scopes,
                scopes_len == scopes.len(),
                level <= scopes_len,
                innermost_scope(scopes, name@) == innermost_scope(scopes.take(level as int), name@),
            decreases level,
        {
            let l = level - 1;
            assert(scopes.take(level as int).drop_last() =~= scopes.take(l as int));
            assert(scopes.take(level as int).last() == scopes[l as int]);
            proof {
                lemma_scope_names_view(self.scopes@[l as int]);
            }
            match find_key(&self.scopes[l], name) {
                Some(p) => {
                    proof {
                        lemma_key_pos(scope_names(scopes[l as int]), name@);
                    }
                    let owned = match self.scopes[l][p].1.status {
                        OwnershipStatus::Owned => true,
                        _ => false,
                    };
                    if owned {
                        self.scopes[l][p].1 = OwnershipRecordInternal { status: OwnershipStatus::Borrowed(*kind) };
                        proof {
                            let sc = scopes[l as int];
                            assert(scope_view(self.scopes@[l as int]) =~= sc.update(p as int, (name@, OwnershipStatus::Borrowed(*kind))));
                            assert(self@.scopes =~= borrow_scopes(scopes, name@, *kind));
                            assert(scope_names(sc.update(p as int, (name@, OwnershipStatus::Borrowed(*kind)))) =~= scope_names(sc));
                        }
                    }
                    return;
                },
                None => {},
            }
            level = l;
        }
    }

    /// The record of `name` in the innermost scope up to `scope_level` that binds it.
    fn find_variable(&self, name: &String, scope_level: usize) -> (r: Option<&OwnershipRecordInternal>)
        requires
            self.wf(),
            scope_level < self.scopes.len(),
        ensures
            match r {
                Some(rec) => {
                    let l = innermost_scope(self@.scopes.take(scope_level + 1), name@);
                    &&& l >= 0
                    &&& rec.status == self@.scopes[l][key_pos(scope_names(self@.scopes[l]), name@)].1
                },
                None => innermost_scope(self@.scopes.take(scope_level + 1), name@) == -1,
            },
    {
        let ghost scopes = self@.scopes.take(scope_level + 1);
        let mut level = scope_level + 1;
        assert(scopes.take(level as int) =~= scopes);
        while level > 0
            invariant
                scopes == self@.scopes.take(scope_level + 1),
                scope_level < self@.scopes.len(),
                level <= scope_level + 1,
                innermost_scope(scopes, name@) == innermost_scope(scopes.take(level as int), name@),
            decreases level,
        {
            let l = level - 1;
            assert(scopes.take(level as int).drop_last() =~= scopes.take(l as int));
            assert(scopes.take(level as int).last() == self@.scopes[l as int]);
            proof {
                lemma_scope_names_view(self.scopes@[l as int]);
            }
            match find_key(&self.scopes[l], name) {
                Some(p) => {
                    proof {
                        lemma_key_pos(scope_names(self@.scopes[l as int]), name@);
                        assert(scopes[l as int] == self@.scopes[l as int]);
                    }
                    return Some(&self.scopes[l][p].1);
                },
                None => {},
            }
            level = l;
        }
        None
    }
}


/// Analysing two batches of events one after the other leaves the analyzer
/// in the state that analysing them together does.
pub proof fn lemma_ownership_batches(s: OwnershipState, first: Seq<AnalysisEvent>, second: Seq<AnalysisEvent>)
    ensures
        ownership_run(s, first + second) == ownership_run(ownership_run(s, first), second),
    decreases second.len(),
{
    if second.len() == 0 {
        assert(first + second =~= first);
    } else {
        assert((first + second).drop_last() =~= first + second.drop_last());
        assert((first + second).last() == second.last());
        lemma_ownership_batches(s, first, second.drop_last());
    }
}

/// Analysis never withdraws a result: the results before the events stay,
/// in order, at the front of the results after them.
pub proof fn lemma_ownership_results_kept(s: OwnershipState, events: Seq<AnalysisEvent>)
    ensures
        ownership_run(s, events).results.len() >= s.results.len(),
        ownership_run(s, events).results.take(s.results.len() as int) == s.results,
    decreases events.len(),
{
    if events.len() > 0 {
        lemma_ownership_results_kept(s, events.drop_last());
        let before = ownership_run(s, events.drop_last());
        let after = ownership_run(s, events);
        assert(after.results.len() >= before.results.len());
        assert(after.results.take(before.results.len() as int) =~= before.results);
        assert(after.results.take(s.results.len() as int) =~= before.results.take(s.results.len() as int));
    }
}


/// A `Dropped` change of `name` at `span`.
pub open spec fn is_drop_at(r: ResultView, name: Seq<char>, span: Span) -> bool {
    r == (ResultView::OwnershipChange { name, new_status: OwnershipStatus::Dropped, span })
}

proof fn lemma_dropped_results(sc: ScopeView, span: Span)
    requires
        keys_unique(scope_names(sc)),
    ensures
        forall|j: int| 0 <= j < sc.len() && (#[trigger] sc[j]).1 != OwnershipStatus::Moved
            ==> exists|k: int| 0 <= k < dropped_results(sc, span).len()
                && is_drop_at(#[trigger] dropped_results(sc, span)[k], sc[j].0, span),
        forall|k: int| 0 <= k < dropped_results(sc, span).len() ==> exists|j: int| 0 <= j < sc.len()
            && (#[trigger] sc[j]).1 != OwnershipStatus::Moved && is_drop_at(#[trigger] dropped_results(sc, span)[k], sc[j].0, span),
        forall|k1: int, k2: int| 0 <= k1 < k2 < dropped_results(sc, span).len()
            ==> #[trigger] dropped_results(sc, span)[k1] != #[trigger] dropped_results(sc, span)[k2],
    decreases sc.len(),
{
    if sc.len() > 0 {
        let init = sc.drop_last();
        let last = sc.last();
        assert(keys_unique(scope_names(init))) by {
            assert forall|a: int, b: int| 0 <= a < scope_names(init).len() && 0 <= b < scope_names(init).len() && a != b
                implies scope_names(init)[a] != scope_names(init)[b] by {
                assert(scope_names(init)[a] == scope_names(sc)[a]);
                assert(scope_names(init)[b] == scope_names(sc)[b]);
            }
        }
        lemma_dropped_results(init, span);
        let rest = dropped_results(init, span);
        let d = dropped_results(sc, span);
        // every earlier drop names an earlier variable, whose name differs from the last one
        assert forall|k: int| 0 <= k < rest.len() implies (#[trigger] rest[k]) != (ResultView::OwnershipChange {
            name: last.0, new_status: OwnershipStatus::Dropped, span }) by {
            let j = choose|j: int| 0 <= j < init.len() && (#[trigger] init[j]).1 != OwnershipStatus::Moved
                && is_drop_at(rest[k], init[j].0, span);
            assert(scope_names(sc)[j] == init[j].0);
            assert(scope_names(sc)[sc.len() - 1] == last.0);
        }
        assert forall|j: int| 0 <= j < sc.len() && (#[trigger] sc[j]).1 != OwnershipStatus::Moved
            implies exists|k: int| 0 <= k < d.len() && is_drop_at(#[trigger] d[k], sc[j].0, span) by {
            if j < sc.len() - 1 {
                assert(init[j] == sc[j]);
                let k = choose|k: int| 0 <= k < rest.len() && is_drop_at(#[trigger] rest[k], init[j].0, span);
                assert(d[k] == rest[k]);
            } else {
                assert(d[rest.len() as int] == ResultView::OwnershipChange { name: last.0, new_status: OwnershipStatus::Dropped, span });
            }
        }
        assert forall|k: int| 0 <= k < d.len() implies exists|j: int| 0 <= j < sc.len()
            && (#[trigger] sc[j]).1 != OwnershipStatus::Moved && is_drop_at(#[trigger] d[k], sc[j].0, span) by {
            if k < rest.len() {
                assert(d[k] == rest[k]);
                let j = choose|j: int| 0 <= j < init.len() && (#[trigger] init[j]).1 != OwnershipStatus::Moved
                    && is_drop_at(rest[k], init[j].0, span);
                assert(sc[j] == init[j]);
            } else {
                assert(sc[sc.len() - 1] == last);
            }
        }
    }
}

/// Leaving scope `level` reports, at the exit's span, exactly one `Dropped`
/// change for each variable bound in that scope whose status is not
/// `Moved` (owned or borrowed), and nothing else; the earlier results stay.
/// Leaving a scope that does not exist reports nothing.
pub proof fn lemma_scope_exit_drops(s: OwnershipState, e: AnalysisEvent, level: usize)
    requires
        ownership_state_wf(s),
        e.kind == (EventKind::ScopeExit { level }),
    ensures
        ownership_step(s, e).results.len() >= s.results.len(),
        ownership_step(s, e).results.take(s.results.len() as int) == s.results,
        level >= s.scopes.len() ==> ownership_step(s, e).results == s.results,
        level < s.scopes.len() ==> {
            let sc = s.scopes[level as int];
            let new = ownership_step(s, e).results.skip(s.results.len() as int);
            &&& forall|j: int| 0 <= j < sc.len() && (#[trigger] sc[j]).1 != OwnershipStatus::Moved
                ==> exists|k: int| 0 <= k < new.len() && is_drop_at(#[trigger] new[k], sc[j].0, e.span)
            &&& forall|k: int| 0 <= k < new.len() ==> exists|j: int| 0 <= j < sc.len()
                && (#[trigger] sc[j]).1 != OwnershipStatus::Moved && is_drop_at(#[trigger] new[k], sc[j].0, e.span)
            &&& forall|k1: int, k2: int| 0 <= k1 < k2 < new.len() ==> #[trigger] new[k1] != #[trigger] new[k2]
        },
{
    let after = ownership_step(s, e);
    if level < s.scopes.len() {
        let sc = s.scopes[level as int];
        assert(keys_unique(scope_names(s.scopes[level as int])));
        lemma_dropped_results(sc, e.span);
        let d = dropped_results(sc, e.span);
        assert(after.results == s.results + d);
        assert(after.results.skip(s.results.len() as int) =~= d);
        assert(after.results.take(s.results.len() as int) =~= s.results);
    } else {
        assert(after.results.take(s.results.len() as int) =~= s.results);
    }
}

} // verus!
