//! Lifetime tracking: where each variable was last used and when its scope
//! ended.

use vstd::prelude::*;
use proc_macro2::Span;
use crate::analysis::{AnalysisResult, OwnershipStatus, ResultView, results_view, clone_results};
use crate::assoc::{key_pos, keys_unique, keys_of, find_key, find_name, lemma_key_pos, entry_keys, entry_put,
    lemma_put_remove_unique, name_insert, name_remove, names_of, lemma_name_insert_remove_unique};
use crate::analysis::ownership::is_drop_at;
use crate::parser::events::{AnalysisEvent, EventKind, Function, Variable};
use crate::span::span_text;

verus! {

/// The lifetime of one variable.
#[derive(Debug)]
pub struct Lifetime {
    /// Where the variable was last seen: defined, used, or its scope ended.
    pub end_span: Span,
    pub scope_level: usize,
    /// Where the variable was used (span texts).
    pub references: Vec<String>,
}

/// A lifetime, with the number of uses recorded for it.
pub struct LifetimeView {
    pub end_span: Span,
    pub scope_level: usize,
    pub reference_count: nat,
}

impl View for Lifetime {
    type V = LifetimeView;

    open spec fn view(&self) -> LifetimeView {
        LifetimeView { end_span: self.end_span, scope_level: self.scope_level, reference_count: self.references@.len() }
    }
}

/// Tracks the lifetime of each variable.
#[derive(Debug)]
pub struct LifetimeAnalyzer {
    lifetimes: Vec<(String, Lifetime)>,
    active_lifetimes: Vec<String>,
    results: Vec<AnalysisResult>,
}

/// The abstract state of a [`LifetimeAnalyzer`]: the lifetime of each
/// variable (in the order they were first seen), the variables whose scope
/// has not ended, and the results.
pub struct LifetimeState {
    pub lifetimes: Seq<(Seq<char>, LifetimeView)>,
    pub active: Seq<Seq<char>>,
    pub results: Seq<ResultView>,
}

impl View for LifetimeAnalyzer {
    type V = LifetimeState;

    closed spec fn view(&self) -> LifetimeState {
        LifetimeState {
            lifetimes: self.lifetimes@.map_values(|e: (String, Lifetime)| (e.0@, e.1@)),
            active: names_of(self.active_lifetimes@),
            results: results_view(self.results@),
        }
    }
}

/// The state after `name` is bound at `level`, at `span`.
pub open spec fn lifetime_bind(s: LifetimeState, name: Seq<char>, level: usize, span: Span) -> LifetimeState {
    LifetimeState {
        lifetimes: entry_put(s.lifetimes, name, LifetimeView { end_span: span, scope_level: level, reference_count: 0 }),
        active: name_insert(s.active, name),
        results: s.results,
    }
}

/// The state after each parameter, in order, is bound.
pub open spec fn lifetime_bind_params(s: LifetimeState, params: Seq<Variable>) -> LifetimeState
    decreases params.len(),
{
    if params.len() == 0 {
        s
    } else {
        let v = params.last();
        lifetime_bind(lifetime_bind_params(s, params.drop_last()), v.name@, v.scope_level, v.span)
    }
}

/// The names, in order, of the variables bound at `level`.
pub open spec fn names_at_level(entries: Seq<(Seq<char>, LifetimeView)>, level: usize) -> Seq<Seq<char>>
    decreases entries.len(),
{
    if entries.len() == 0 {
        Seq::empty()
    } else {
        let rest = names_at_level(entries.drop_last(), level);
        if entries.last().1.scope_level == level { rest.push(entries.last().0) } else { rest }
    }
}

/// The names removed, in order, from the active set.
pub open spec fn remove_names(active: Seq<Seq<char>>, names: Seq<Seq<char>>) -> Seq<Seq<char>>
    decreases names.len(),
{
    if names.len() == 0 {
        active
    } else {
        name_remove(remove_names(active, names.drop_last()), names.last())
    }
}

/// A `Dropped` result at `span` for each of the names, in order.
pub open spec fn dropped_names(names: Seq<Seq<char>>, span: Span) -> Seq<ResultView> {
    Seq::new(names.len(), |i: int| ResultView::OwnershipChange {
        name: names[i],
        new_status: OwnershipStatus::Dropped,
        span,
    })
}

/// The effect of one event.
pub open spec fn lifetime_step(s: LifetimeState, e: AnalysisEvent) -> LifetimeState {
    match e.kind {
        EventKind::VarDefined(v) => lifetime_bind(s, v.name@, v.scope_level, v.span),
        EventKind::VarUsed { name, .. } => {
            let p = key_pos(entry_keys(s.lifetimes), name@);
            if p >= 0 {
                let l = s.lifetimes[p].1;
                LifetimeState {
                    lifetimes: s.lifetimes.update(
                        p,
                        (s.lifetimes[p].0, LifetimeView { end_span: e.span, reference_count: l.reference_count + 1, ..l }),
                    ),
                    ..s
                }
            } else {
                s
            }
        },
        EventKind::ScopeExit { level } => {
            let ended = names_at_level(s.lifetimes, level);
            LifetimeState {
                lifetimes: Seq::new(s.lifetimes.len(), |i: int| if s.lifetimes[i].1.scope_level == level {
                    (s.lifetimes[i].0, LifetimeView { end_span: e.span, ..s.lifetimes[i].1 })
                } else {
                    s.lifetimes[i]
                }),
                active: remove_names(s.active, ended),
                results: s.results + dropped_names(ended, e.span),
            }
        },
        EventKind::FuncDefined(f) => lifetime_bind_params(s, f.parameters@),
        _ => s,
    }
}

/// The effect of a sequence of events, first to last.
pub open spec fn lifetime_run(s: LifetimeState, events: Seq<AnalysisEvent>) -> LifetimeState
    decreases events.len(),
{
    if events.len() == 0 {
        s
    } else {
        lifetime_step(lifetime_run(s, events.drop_last()), events.last())
    }
}

/// No variable has two lifetimes, and no name is active twice.
pub open spec fn lifetime_state_wf(s: LifetimeState) -> bool {
    &&& keys_unique(entry_keys(s.lifetimes))
    &&& keys_unique(s.active)
}

impl LifetimeAnalyzer {
    /// The analyzer is well formed.
    pub open spec fn wf(&self) -> bool {
        lifetime_state_wf(self@)
    }

    proof fn lemma_keys(&self)
        ensures
            entry_keys(self@.lifetimes) == keys_of(self.lifetimes@),
    {
        assert(entry_keys(self@.lifetimes) =~= keys_of(self.lifetimes@));
    }

    /// An analyzer that has seen nothing.
    pub fn new() -> (r: Self)
        ensures
            r.wf(),
            r@.lifetimes == Seq::<(Seq<char>, LifetimeView)>::empty(),
            r@.active == Seq::<Seq<char>>::empty(),
            r@.results == Seq::<ResultView>::empty(),
    {
        let r = LifetimeAnalyzer { lifetimes: Vec::new(), active_lifetimes: Vec::new(), results: Vec::new() };
        assert(r@.lifetimes =~= Seq::<(Seq<char>, LifetimeView)>::empty());
        assert(r@.active =~= Seq::<Seq<char>>::empty());
        assert(r@.results =~= Seq::<ResultView>::empty());
        assert(entry_keys(r@.lifetimes) =~= Seq::<Seq<char>>::empty());
        r
    }

    /// Takes the events in order and returns a copy of all results reported so far.
    pub fn analyze(&mut self, events: &[AnalysisEvent]) -> (r: Vec<AnalysisResult>)
        requires
            old(self).wf(),
        ensures
            final(self).wf(),
            final(self)@ == lifetime_run(old(self)@, events@),
            results_view(r@) == final(self)@.results,
    {
        let mut i: usize = 0;
        while i < events.len()
            invariant
                i <= events@.len(),
                self.wf(),
                self@ == lifetime_run(old(self)@, events@.take(i as int)),
            decreases events@.len() - i,
        {
            self.process_event(&events[i]);
            assert(events@.take(i + 1).drop_last() =~= events@.take(i as int));
            i = i + 1;
        }
        assert(events@.take(events@.len() as int) =~= events@);
        clone_results(&self.results)
    }

    fn process_event(&mut self, event: &AnalysisEvent)
        requires
            old(self).wf(),
        ensures
            final(self).wf(),
            final(self)@ == lifetime_step(old(self)@, *event),
    {
        match &event.kind {
            EventKind::VarDefined(var) => {
                self.handle_var_defined(var);
            },
            EventKind::VarUsed { name, .. } => {
                self.handle_var_used(name, event.span);
            },
            EventKind::ScopeEnter { .. } => {},
            EventKind::ScopeExit { level } => {
                self.handle_scope_exit(*level, event.span);
            },
            EventKind::FuncDefined(func) => {
                self.handle_func_defined(func);
            },
            _ => {},
        }
    }

    /// Records a lifetime for `name`, starting at `span`, and marks it active.
    fn bind(&mut self, name: &String, scope_level: usize, span: Span)
        requires
            old(self).wf(),
        ensures
            final(self).wf(),
            final(self)@ == lifetime_bind(old(self)@, name@, scope_level, span),
    {
        let ghost before = self@;
        proof {
            self.lemma_keys();
            lemma_key_pos(keys_of(self.lifetimes@), name@);
            lemma_put_remove_unique(before.lifetimes, name@, LifetimeView { end_span: span, scope_level, reference_count: 0 });
            lemma_name_insert_remove_unique(before.active, name@);
        }
        let lt = Lifetime { end_span: span, scope_level, references: Vec::new() };
        match find_key(&self.lifetimes, name) {
            Some(i) => {
                self.lifetimes[i].1 = lt;
            },
            None => {
                self.lifetimes.push((name.clone(), lt));
            },
        }
        match find_name(&self.active_lifetimes, name) {
            Some(_) => {},
            None => {
                self.active_lifetimes.push(name.clone());
            },
        }
        let ghost t = lifetime_bind(before, name@, scope_level, span);
        assert(self@.lifetimes =~= t.lifetimes);
        assert(self@.active =~= t.active);
        assert(self@.results =~= t.results);
    }

    fn handle_var_defined(&mut self, var: &Variable)
        requires
            old(self).wf(),
        ensures
            final(self).wf(),
            final(self)@ == lifetime_bind(old(self)@, var.name@, var.scope_level, var.span),
    {
        self.bind(&var.name, var.scope_level, var.span);
    }

    fn handle_var_used(&mut self, name: &String, span: Span)
        requires
            old(self).wf(),
        ensures
            final(self).wf(),
            final(self)@ == lifetime_step(old(self)@, (AnalysisEvent { kind: EventKind::VarUsed { name: *name, scope_level: 0 }, span })),
    {
        let ghost before = self@;
        proof {
            self.lemma_keys();
        }
        if let Some(p) = find_key(&self.lifetimes, name) {
            let t = span_text(&span);
            self.lifetimes[p].1.references.push(t);
            self.lifetimes[p].1.end_span = span;
            let ghost l = before.lifetimes[p as int].1;
            assert(self@.lifetimes =~= before.lifetimes.update(
                p as int,
                (before.lifetimes[p as int].0, LifetimeView { end_span: span, reference_count: l.reference_count + 1, ..l }),
            ));
        }
        assert(self@.active =~= before.active);
        assert(self@.results =~= before.results);
        assert(entry_keys(self@.lifetimes) =~= entry_keys(before.lifetimes));
    }

    fn handle_scope_exit(&mut self, level: usize, span: Span)
        requires
            old(self).wf(),
        ensures
            final(self).wf(),
            final(self)@ == lifetime_step(old(self)@, (AnalysisEvent { kind: EventKind::ScopeExit { level }, span })),
    {
        let ghost before = self@;
        let n = self.lifetimes.len();
        let mut j: usize = 0;
        while j < n
            invariant
                n == before.lifetimes.len(),
                self.lifetimes@.len() == n,
                j <= n,
                forall|i: int| 0 <= i < n ==> (#[trigger] self.lifetimes@[i]).0 == old(self).lifetimes@[i].0,
                forall|i: int| 0 <= i < n ==> (#[trigger] self.lifetimes@[i]).1@ == (if i < j && before.lifetimes[i].1.scope_level == level {
                    LifetimeView { end_span: span, ..before.lifetimes[i].1 }
                } else {
                    before.lifetimes[i].1
                }),
                forall|i: int| 0 <= i < n ==> (#[trigger] before.lifetimes[i]).0 == old(self).lifetimes@[i].0@,
                self@.active == remove_names(before.active, names_at_level(before.lifetimes.take(j as int), level)),
                self@.results == before.results + dropped_names(names_at_level(before.lifetimes.take(j as int), level), span),
                keys_unique(self@.active),
            decreases n - j,
        {
            let ghost act = self@.active;
            let ghost res = self@.results;
            let ghost prior = names_at_level(before.lifetimes.take(j as int), level);
            proof {
                assert(before.lifetimes.take(j + 1).drop_last() =~= before.lifetimes.take(j as int));
                assert(before.lifetimes.take(j + 1).last() == before.lifetimes[j as int]);
                lemma_name_insert_remove_unique(act, before.lifetimes[j as int].0);
            }
            if self.lifetimes[j].1.scope_level == level {
                self.lifetimes[j].1.end_span = span;
                let name = self.lifetimes[j].0.clone();
                match find_name(&self.active_lifetimes, &name) {
                    Some(a) => {
                        self.active_lifetimes.remove(a);
                        assert(self@.active =~= name_remove(act, name@));
                    },
                    None => {},
                }
                proof {
                    assert(names_at_level(before.lifetimes.take(j + 1), level) == prior.push(name@));
                    assert(prior.push(name@).drop_last() =~= prior);
                    assert(remove_names(before.active, prior.push(name@)) == name_remove(act, name@));
                }
                let r = AnalysisResult::OwnershipChange { name, new_status: OwnershipStatus::Dropped, span };
                self.results.push(r);
                assert(self@.results =~= res.push(r@));
                assert(dropped_names(prior.push(before.lifetimes[j as int].0), span) =~= dropped_names(prior, span).push(r@));
            }
            else {
                assert(names_at_level(before.lifetimes.take(j + 1), level) == prior);
            }
            j = j + 1;
        }
        assert(before.lifetimes.take(n as int) =~= before.lifetimes);
        let ghost t = lifetime_step(before, AnalysisEvent { kind: EventKind::ScopeExit { level }, span });
        assert(self@.lifetimes =~= t.lifetimes);
        assert(entry_keys(self@.lifetimes) =~= entry_keys(before.lifetimes));
    }

    fn handle_func_defined(&mut self, func: &Function)
        requires
            old(self).wf(),
        ensures
            final(self).wf(),
            final(self)@ == lifetime_bind_params(old(self)@, func.parameters@),
    {
        let mut i: usize = 0;
        while i < func.parameters.len()
            invariant
                self.wf(),
                i <= func.parameters@.len(),
                self@ == lifetime_bind_params(old(self)@, func.parameters@.take(i as int)),
            decreases func.parameters@.len() - i,
        {
            let param = &func.parameters[i];
            self.bind(&param.name, param.scope_level, param.span);
            assert(func.parameters@.take(i + 1).drop_last() =~= func.parameters@.take(i as int));
            i = i + 1;
        }
        assert(func.parameters@.take(func.parameters@.len() as int) =~= func.parameters@);
    }

    /// Each variable with the number of uses recorded for it, in the order
    /// the variables were first seen.
    pub fn get_lifetime_summary(&self) -> (r: Vec<(String, usize)>)
        ensures
            r@.map_values(|e: (String, usize)| (e.0@, e.1 as nat))
                == self@.lifetimes.map_values(|e: (Seq<char>, LifetimeView)| (e.0, e.1.reference_count)),
    {
        let mut r: Vec<(String, usize)> = Vec::new();
        let mut j: usize = 0;
        while j < self.lifetimes.len()
            invariant
                j <= self.lifetimes@.len(),
                r@.len() == j,
                forall|i: int| 0 <= i < j ==> (#[trigger] r@[i]).0@ == self.lifetimes@[i].0@
                    && r@[i].1 as nat == self.lifetimes@[i].1.references@.len(),
            decreases self.lifetimes@.len() - j,
        {
            r.push((self.lifetimes[j].0.clone(), self.lifetimes[j].1.references.len()));
            j = j + 1;
        }
        assert(r@.map_values(|e: (String, usize)| (e.0@, e.1 as nat))
            =~= self@.lifetimes.map_values(|e: (Seq<char>, LifetimeView)| (e.0, e.1.reference_count)));
        r
    }
}


/// Analysing two batches of events one after the other leaves the analyzer
/// in the state that analysing them together does.
pub proof fn lemma_lifetime_batches(s: LifetimeState, first: Seq<AnalysisEvent>, second: Seq<AnalysisEvent>)
    ensures
        lifetime_run(s, first + second) == lifetime_run(lifetime_run(s, first), second),
    decreases second.len(),
{
    if second.len() == 0 {
        assert(first + second =~= first);
    } else {
        assert((first + second).drop_last() =~= first + second.drop_last());
        assert((first + second).last() == second.last());
        lemma_lifetime_batches(s, first, second.drop_last());
    }
}

/// Parameters bound together keep the results as they are.
proof fn lemma_bind_params_results(s: LifetimeState, params: Seq<Variable>)
    ensures
        lifetime_bind_params(s, params).results == s.results,
    decreases params.len(),
{
    if params.len() > 0 {
        lemma_bind_params_results(s, params.drop_last());
    }
}

/// Analysis never withdraws a result: the results before the events stay,
/// in order, at the front of the results after them.
pub proof fn lemma_lifetime_results_kept(s: LifetimeState, events: Seq<AnalysisEvent>)
    ensures
        lifetime_run(s, events).results.len() >= s.results.len(),
        lifetime_run(s, events).results.take(s.results.len() as int) == s.results,
    decreases events.len(),
{
    if events.len() > 0 {
        lemma_lifetime_results_kept(s, events.drop_last());
        let before = lifetime_run(s, events.drop_last());
        let after = lifetime_run(s, events);
        match events.last().kind {
            EventKind::FuncDefined(f) => lemma_bind_params_results(before, f.parameters@),
            _ => {},
        }
        assert(after.results.len() >= before.results.len());
        assert(after.results.take(before.results.len() as int) =~= before.results);
        assert(after.results.take(s.results.len() as int) =~= before.results.take(s.results.len() as int));
    }
}


/// Removing names from a list without repetition leaves none of them in it.
proof fn lemma_remove_names(active: Seq<Seq<char>>, names: Seq<Seq<char>>)
    requires
        keys_unique(active),
    ensures
        keys_unique(remove_names(active, names)),
        forall|k: int| 0 <= k < names.len() ==> !remove_names(active, names).contains(#[trigger] names[k]),
        forall|n: Seq<char>| #[trigger] remove_names(active, names).contains(n) ==> active.contains(n),
    decreases names.len(),
{
    if names.len() > 0 {
        let prior = remove_names(active, names.drop_last());
        lemma_remove_names(active, names.drop_last());
        lemma_name_insert_remove_unique(prior, names.last());
        lemma_key_pos(prior, names.last());
        let r = remove_names(active, names);
        let p = key_pos(prior, names.last());
        assert forall|k: int| 0 <= k < names.len() implies !r.contains(#[trigger] names[k]) by {
            if r.contains(names[k]) {
                let j = choose|j: int| 0 <= j < r.len() && r[j] == names[k];
                if p >= 0 {
                    let jj = if j < p { j } else { j + 1 };
                    assert(prior[jj] == names[k]);
                    if k == names.len() - 1 {
                        assert(prior[p] == names[k]);
                    } else {
                        assert(names.drop_last()[k] == names[k]);
                    }
                } else {
                    assert(prior[j] == names[k]);
                    if k < names.len() - 1 {
                        assert(names.drop_last()[k] == names[k]);
                    }
                }
            }
        }
        assert forall|n: Seq<char>| #[trigger] r.contains(n) implies active.contains(n) by {
            let j = choose|j: int| 0 <= j < r.len() && r[j] == n;
            if p >= 0 {
                let jj = if j < p { j } else { j + 1 };
                assert(prior[jj] == n);
            } else {
                assert(prior[j] == n);
            }
            assert(prior.contains(n));
        }
    }
}

/// Leaving a scope ends the lifetime of every variable bound in it: none of
/// them stays active, each is reported dropped in order, and no other
/// variable becomes active.
pub proof fn lemma_scope_exit_ends_lifetimes(s: LifetimeState, e: AnalysisEvent, level: usize)
    requires
        lifetime_state_wf(s),
        e.kind == (EventKind::ScopeExit { level }),
    ensures
        forall|k: int| 0 <= k < names_at_level(s.lifetimes, level).len()
            ==> !lifetime_step(s, e).active.contains(#[trigger] names_at_level(s.lifetimes, level)[k]),
        forall|n: Seq<char>| #[trigger] lifetime_step(s, e).active.contains(n) ==> s.active.contains(n),
        lifetime_step(s, e).results == s.results + dropped_names(names_at_level(s.lifetimes, level), e.span),
{
    lemma_remove_names(s.active, names_at_level(s.lifetimes, level));
}


/// Whether some entry at scope `level` is bound to `name`.
spec fn bound_at_level(entries: Seq<(Seq<char>, LifetimeView)>, level: usize, name: Seq<char>) -> bool {
    exists|i: int| 0 <= i < entries.len() && (#[trigger] entries[i]).1.scope_level == level && entries[i].0 == name
}

proof fn lemma_names_at_level(entries: Seq<(Seq<char>, LifetimeView)>, level: usize)
    requires
        keys_unique(entry_keys(entries)),
    ensures
        forall|i: int| 0 <= i < entries.len() && (#[trigger] entries[i]).1.scope_level == level
            ==> names_at_level(entries, level).contains(entries[i].0),
        forall|k: int| 0 <= k < names_at_level(entries, level).len()
            ==> bound_at_level(entries, level, #[trigger] names_at_level(entries, level)[k]),
        keys_unique(names_at_level(entries, level)),
    decreases entries.len(),
{
    if entries.len() > 0 {
        let init = entries.drop_last();
        let last = entries.last();
        assert(keys_unique(entry_keys(init))) by {
            assert forall|a: int, b: int| 0 <= a < entry_keys(init).len() && 0 <= b < entry_keys(init).len() && a != b
                implies entry_keys(init)[a] != entry_keys(init)[b] by {
                assert(entry_keys(init)[a] == entry_keys(entries)[a]);
                assert(entry_keys(init)[b] == entry_keys(entries)[b]);
            }
        }
        lemma_names_at_level(init, level);
        let rest = names_at_level(init, level);
        let r = names_at_level(entries, level);
        assert forall|k: int| 0 <= k < rest.len() implies rest[k] != last.0 by {
            assert(bound_at_level(init, level, rest[k]));
            let i = choose|i: int| 0 <= i < init.len() && (#[trigger] init[i]).1.scope_level == level && init[i].0 == rest[k];
            assert(entry_keys(entries)[i] == init[i].0);
            assert(entry_keys(entries)[entries.len() - 1] == last.0);
        }
        assert forall|i: int| 0 <= i < entries.len() && (#[trigger] entries[i]).1.scope_level == level
            implies r.contains(entries[i].0) by {
            if i < entries.len() - 1 {
                assert(init[i] == entries[i]);
                let k = choose|k: int| 0 <= k < rest.len() && rest[k] == init[i].0;
                assert(r[k] == rest[k]);
            } else {
                assert(r[rest.len() as int] == last.0);
            }
        }
        assert forall|k: int| 0 <= k < r.len() implies bound_at_level(entries, level, #[trigger] r[k]) by {
            if k < rest.len() {
                assert(r[k] == rest[k]);
                assert(bound_at_level(init, level, rest[k]));
                let i = choose|i: int| 0 <= i < init.len() && (#[trigger] init[i]).1.scope_level == level && init[i].0 == rest[k];
                assert(entries[i] == init[i]);
            } else {
                assert(entries[entries.len() - 1] == last);
            }
        }
    } else {
        assert(names_at_level(entries, level) =~= Seq::<Seq<char>>::empty());
    }
}

/// Leaving scope `level` ends exactly the lifetimes bound at that level: it
/// reports, at the exit's span, one `Dropped` change for each variable whose
/// lifetime is at that level and for no other, each variable once; the
/// earlier results stay; those variables' lifetimes now end at the exit's
/// span, and every other lifetime is left as it was.
pub proof fn lemma_scope_exit_lifetimes(s: LifetimeState, e: AnalysisEvent, level: usize)
    requires
        lifetime_state_wf(s),
        e.kind == (EventKind::ScopeExit { level }),
    ensures
        lifetime_step(s, e).results.len() >= s.results.len(),
        lifetime_step(s, e).results.take(s.results.len() as int) == s.results,
        lifetime_step(s, e).lifetimes.len() == s.lifetimes.len(),
        forall|i: int| 0 <= i < s.lifetimes.len() ==> if s.lifetimes[i].1.scope_level == level {
            #[trigger] lifetime_step(s, e).lifetimes[i] == (s.lifetimes[i].0, LifetimeView { end_span: e.span, ..s.lifetimes[i].1 })
        } else {
            lifetime_step(s, e).lifetimes[i] == s.lifetimes[i]
        },
        ({
            let new = lifetime_step(s, e).results.skip(s.results.len() as int);
            &&& forall|i: int| 0 <= i < s.lifetimes.len() && (#[trigger] s.lifetimes[i]).1.scope_level == level
                ==> exists|k: int| 0 <= k < new.len() && is_drop_at(#[trigger] new[k], s.lifetimes[i].0, e.span)
            &&& forall|k: int| #![trigger new[k]] 0 <= k < new.len() ==> exists|i: int| 0 <= i < s.lifetimes.len()
                && (#[trigger] s.lifetimes[i]).1.scope_level == level && is_drop_at(new[k], s.lifetimes[i].0, e.span)
            &&& forall|k1: int, k2: int| 0 <= k1 < k2 < new.len() ==> #[trigger] new[k1] != #[trigger] new[k2]
        }),
{
    let names = names_at_level(s.lifetimes, level);
    lemma_names_at_level(s.lifetimes, level);
    let t = lifetime_step(s, e);
    let d = dropped_names(names, e.span);
    assert(t.results == s.results + d);
    assert(t.results.take(s.results.len() as int) =~= s.results);
    let new = t.results.skip(s.results.len() as int);
    assert(new =~= d);
    assert forall|i: int| 0 <= i < s.lifetimes.len() && (#[trigger] s.lifetimes[i]).1.scope_level == level
        implies exists|k: int| 0 <= k < new.len() && is_drop_at(#[trigger] new[k], s.lifetimes[i].0, e.span) by {
        let k = choose|k: int| 0 <= k < names.len() && names[k] == s.lifetimes[i].0;
        assert(new[k] == d[k]);
    }
    assert forall|k: int| #![trigger new[k]] 0 <= k < new.len() implies exists|i: int| 0 <= i < s.lifetimes.len()
        && (#[trigger] s.lifetimes[i]).1.scope_level == level && is_drop_at(new[k], s.lifetimes[i].0, e.span) by {
        assert(new[k] == d[k]);
        assert(bound_at_level(s.lifetimes, level, names[k]));
        let i = choose|i: int| 0 <= i < s.lifetimes.len() && (#[trigger] s.lifetimes[i]).1.scope_level == level
            && s.lifetimes[i].0 == names[k];
    }
    assert forall|k1: int, k2: int| 0 <= k1 < k2 < new.len() implies #[trigger] new[k1] != #[trigger] new[k2] by {
        assert(names[k1] != names[k2]);
    }
}

} // verus!
