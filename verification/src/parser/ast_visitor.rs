//! The decisions of the walk over a parsed source: which events each piece
//! of syntax records, at which scope level, and which of its parts are
//! walked next. The walk itself goes over `syn`'s syntax tree and hands
//! each piece to these methods in the shape the decision reads.

use vstd::prelude::*;
use proc_macro2::Span;
use crate::analysis::BorrowKind;
use crate::parser::events::{AnalysisEvent, EventKind, Function, Variable};
use crate::text::string_of;

verus! {

/// A pattern, as far as bindings go.
pub enum PatShape {
    /// A binding: its name, whether it is `mut`, and the pattern's span.
    Ident { name: String, mutable: bool, span: Span },
    /// A struct pattern: the patterns of its fields.
    Struct(Vec<PatShape>),
    /// A tuple pattern: its elements.
    Tuple(Vec<PatShape>),
    /// A tuple struct pattern: its elements.
    TupleStruct(Vec<PatShape>),
    /// A pattern with a type annotation (`x: i32`): the pattern annotated.
    Typed(Box<PatShape>),
    /// `_`.
    Wild,
    /// Any other pattern: it binds nothing that the walk records.
    Other,
}

/// An expression, as far as the walk decides on it.
pub enum ExprHead {
    /// A path, with its identifier and span when it is a single identifier.
    Path { ident: Option<(String, Span)> },
    /// A call, with the callee's identifier and span when the callee is a
    /// single-identifier path.
    Call { func: Option<(String, Span)> },
    /// A method call: the method's name and span.
    MethodCall { method: String, span: Span },
    /// `&e` or `&mut e`: the identifier of `e` when it is one, and the span
    /// of the whole reference.
    Reference { mutable: bool, target: Option<String>, span: Span },
    /// An assignment, with the left side's identifier and span when it is one.
    Assign { left: Option<(String, Span)> },
    /// A closure.
    Closure,
    /// Any other expression.
    Other,
}

/// Which parts of an expression the walk goes on with.
#[derive(Debug, Clone, Copy, PartialEq, Eq, Structural)]
pub enum ExprWalk {
    /// None.
    Skip,
    /// The call's arguments, not its callee.
    CallArgs,
    /// The assignment's right side.
    AssignRight,
    /// All its parts, as `syn` walks them.
    Children,
}

/// A token of a macro's input, as far as names go.
pub enum TokenShape {
    /// An identifier and its span.
    Ident { name: String, span: Span },
    /// A delimited group: its tokens.
    Group(Vec<TokenShape>),
    /// Any other token.
    Other,
}

/// The variables a pattern binds, in order, at scope `level`.
pub open spec fn pat_vars(p: PatShape, level: usize) -> Seq<Variable>
    decreases p,
{
    match p {
        PatShape::Ident { name, mutable, span } => seq![Variable { name, span, is_mutable: mutable, scope_level: level }],
        PatShape::Struct(ps) => pats_vars(ps@, level),
        PatShape::Tuple(ps) => pats_vars(ps@, level),
        PatShape::TupleStruct(ps) => pats_vars(ps@, level),
        PatShape::Typed(p) => pat_vars(*p, level),
        _ => Seq::empty(),
    }
}

/// The variables a list of patterns binds, in order, at scope `level`.
pub open spec fn pats_vars(ps: Seq<PatShape>, level: usize) -> Seq<Variable>
    decreases ps,
{
    if ps.len() == 0 {
        Seq::empty()
    } else {
        pats_vars(ps.drop_last(), level) + pat_vars(ps.last(), level)
    }
}


/// The identifiers of a token list, groups opened in place, in order.
pub open spec fn token_idents(ts: Seq<TokenShape>) -> Seq<(Seq<char>, Span)>
    decreases ts,
{
    if ts.len() == 0 {
        Seq::empty()
    } else {
        token_idents(ts.drop_last()) + token_tree_idents(ts.last())
    }
}

/// The identifiers of a token, a group's opened in place, in order.
pub open spec fn token_tree_idents(t: TokenShape) -> Seq<(Seq<char>, Span)>
    decreases t,
{
    match t {
        TokenShape::Ident { name, span } => seq![(name@, span)],
        TokenShape::Group(ts) => token_idents(ts@),
        TokenShape::Other => Seq::empty(),
    }
}

/// `e` records a use of `name` at scope `level`, at `span`.
pub open spec fn is_use(e: AnalysisEvent, name: Seq<char>, level: usize, span: Span) -> bool {
    &&& e.span == span
    &&& e.kind matches EventKind::VarUsed { name: n, scope_level }
    &&& n@ == name
    &&& scope_level == level
}

/// `e` records a `kind` borrow of `name` at scope `level`, at `span`.
pub open spec fn is_borrow(e: AnalysisEvent, name: Seq<char>, kind: BorrowKind, level: usize, span: Span) -> bool {
    &&& e.span == span
    &&& e.kind matches EventKind::BorrowCreated { name: n, kind: k, scope_level }
    &&& n@ == name
    &&& k == kind
    &&& scope_level == level
}

/// `events` are `before` followed by one use of each name, in order, at
/// scope `level`.
pub open spec fn uses_appended(before: Seq<AnalysisEvent>, events: Seq<AnalysisEvent>, uses: Seq<(Seq<char>, Span)>,
    level: usize) -> bool {
    &&& events.len() == before.len() + uses.len()
    &&& events.take(before.len() as int) == before
    &&& forall|i: int| 0 <= i < uses.len() ==> is_use(#[trigger] events[before.len() + i], uses[i].0, level, uses[i].1)
}

/// One definition event, at `span`, for each variable.
pub open spec fn definitions(vars: Seq<Variable>, span: Span) -> Seq<AnalysisEvent> {
    vars.map_values(|v: Variable| AnalysisEvent { kind: EventKind::VarDefined(v), span })
}

/// One definition event for each variable, each at the variable's own span.
pub open spec fn own_definitions(vars: Seq<Variable>) -> Seq<AnalysisEvent> {
    vars.map_values(|v: Variable| AnalysisEvent { kind: EventKind::VarDefined(v), span: v.span })
}

/// The parameters of a function whose parameter patterns are `inputs`
/// (`None` for `self`), at scope `level`: the first variable each pattern
/// binds, for those that bind one.
pub open spec fn params_of(inputs: Seq<Option<PatShape>>, level: usize) -> Seq<Variable>
    decreases inputs.len(),
{
    if inputs.len() == 0 {
        Seq::empty()
    } else {
        let prev = params_of(inputs.drop_last(), level);
        match inputs.last() {
            Some(p) => if pat_vars(p, level).len() > 0 {
                prev.push(pat_vars(p, level)[0])
            } else {
                prev
            },
            None => prev,
        }
    }
}

/// Walks a parsed source and records what happens in it, in source order,
/// with the scope level at which it happens.
#[derive(Debug)]
pub struct AstVisitor {
    /// The events recorded so far.
    pub events: Vec<AnalysisEvent>,
    scope_level: usize,
}

impl Default for AstVisitor {
    fn default() -> (r: Self)
        ensures
            r.recorded() == Seq::<AnalysisEvent>::empty(),
            r.level() == 0,
    {
        Self::new()
    }
}

impl AstVisitor {
    /// The current scope level: how many functions and blocks enclose the
    /// walk's position.
    pub closed spec fn level(&self) -> usize {
        self.scope_level
    }

    /// The events recorded so far.
    pub closed spec fn recorded(&self) -> Seq<AnalysisEvent> {
        self.events@
    }

    /// A visitor at level 0 with no events.
    pub fn new() -> (r: Self)
        ensures
            r.recorded() == Seq::<AnalysisEvent>::empty(),
            r.level() == 0,
    {
        AstVisitor { events: Vec::new(), scope_level: 0 }
    }

    /// The current scope level.
    pub fn depth(&self) -> (r: usize)
        ensures
            r == self.level(),
    {
        self.scope_level
    }

    /// The variables a pattern binds, in order, at scope `scope_level`:
    /// each identifier, those of the fields and elements of struct, tuple
    /// and tuple struct patterns, and those of a pattern with a type
    /// annotation.
    pub fn extract_var_from_pat_with_scope(&self, pat: &PatShape, scope_level: usize) -> (r: Vec<Variable>)
        ensures
            r@ == pat_vars(*pat, scope_level),
        decreases pat,
    {
        let mut vars: Vec<Variable> = Vec::new();
        match pat {
            PatShape::Ident { name, mutable, span } => {
                vars.push(Variable { name: name.clone(), span: *span, is_mutable: *mutable, scope_level });
                assert(vars@ =~= pat_vars(*pat, scope_level));
            },
            PatShape::Struct(fields) => {
                vars = self.extract_vars_from_pats(fields, scope_level);
            },
            PatShape::Tuple(elems) => {
                vars = self.extract_vars_from_pats(elems, scope_level);
            },
            PatShape::TupleStruct(elems) => {
                vars = self.extract_vars_from_pats(elems, scope_level);
            },
            PatShape::Typed(inner) => {
                vars = self.extract_var_from_pat_with_scope(inner, scope_level);
            },
            PatShape::Wild => {},
            PatShape::Other => {},
        }
        vars
    }

    /// The variables a list of patterns binds, in order, at scope `scope_level`.
    fn extract_vars_from_pats(&self, pats: &Vec<PatShape>, scope_level: usize) -> (r: Vec<Variable>)
        ensures
            r@ == pats_vars(pats@, scope_level),
        decreases pats,
    {
        let mut vars: Vec<Variable> = Vec::new();
        let mut i: usize = 0;
        while i < pats.len()
            invariant
                i <= pats@.len(),
                vars@ == pats_vars(pats@.take(i as int), scope_level),
            decreases pats@.len() - i,
        {
            assert(pats@.take(i + 1).drop_last() =~= pats@.take(i as int));
            assert(pats@.take(i + 1).last() == pats@[i as int]);
            let mut more = self.extract_var_from_pat_with_scope(&pats[i], scope_level);
            vars.append(&mut more);
            i = i + 1;
        }
        assert(pats@.take(pats@.len() as int) =~= pats@);
        vars
    }

    /// The variables a pattern binds at the current scope level.
    pub fn extract_var_from_pat(&self, pat: &PatShape) -> (r: Vec<Variable>)
        ensures
            r@ == pat_vars(*pat, self.level()),
    {
        self.extract_var_from_pat_with_scope(pat, self.scope_level)
    }

    /// Records a use of `name` at the current level.
    pub fn record_var_use(&mut self, name: &str, span: Span)
        ensures
            final(self).level() == old(self).level(),
            final(self).recorded().len() == old(self).recorded().len() + 1,
            final(self).recorded().drop_last() == old(self).recorded(),
            is_use(final(self).recorded().last(), name@, old(self).level(), span),
    {
        self.events.push(AnalysisEvent {
            kind: EventKind::VarUsed { name: string_of(name), scope_level: self.scope_level },
            span,
        });
        assert(self.events@.drop_last() =~= old(self).recorded());
    }

    /// Records a `kind` borrow of `name` at the current level.
    pub fn record_borrow(&mut self, name: &str, kind: BorrowKind, span: Span)
        ensures
            final(self).level() == old(self).level(),
            final(self).recorded().len() == old(self).recorded().len() + 1,
            final(self).recorded().drop_last() == old(self).recorded(),
            is_borrow(final(self).recorded().last(), name@, kind, old(self).level(), span),
    {
        self.events.push(AnalysisEvent {
            kind: EventKind::BorrowCreated { name: string_of(name), kind, scope_level: self.scope_level },
            span,
        });
        assert(self.events@.drop_last() =~= old(self).recorded());
    }

    /// A `let`: records the definition of each variable its pattern binds,
    /// at the current level, all at the pattern's span. (Its initializer is
    /// walked next.)
    pub fn visit_local(&mut self, pat: &PatShape, pat_span: Span)
        ensures
            final(self).level() == old(self).level(),
            final(self).recorded() == old(self).recorded() + definitions(pat_vars(*pat, old(self).level()), pat_span),
    {
        let vars = self.extract_var_from_pat(pat);
        let ghost e0 = self.events@;
        let mut i: usize = 0;
        while i < vars.len()
            invariant
                self.level() == old(self).level(),
                e0 == old(self).recorded(),
                vars@ == pat_vars(*pat, self.level()),
                i <= vars@.len(),
                self.events@ == e0 + definitions(vars@.take(i as int), pat_span),
            decreases vars@.len() - i,
        {
            self.events.push(AnalysisEvent { kind: EventKind::VarDefined(vars[i].clone()), span: pat_span });
            assert(definitions(vars@.take(i + 1), pat_span) =~= definitions(vars@.take(i as int), pat_span).push(
                AnalysisEvent { kind: EventKind::VarDefined(vars@[i as int]), span: pat_span }));
            i = i + 1;
        }
        assert(vars@.take(vars@.len() as int) =~= vars@);
    }

    /// An expression: records what it shows at the current level and says
    /// which of its parts are walked next. A single identifier is used; a
    /// call uses its callee's identifier and goes on with its arguments; a
    /// method call uses the method's name; a reference to an identifier
    /// borrows it, mutably for `&mut`; an assignment uses its left side's
    /// identifier and goes on with its right side; the parts of anything
    /// else are walked as they are.
    pub fn visit_expr(&mut self, e: &ExprHead) -> (walk: ExprWalk)
        ensures
            final(self).level() == old(self).level(),
            match *e {
                ExprHead::Path { ident } => walk == ExprWalk::Skip && match ident {
                    Some((name, span)) => final(self).recorded().drop_last() == old(self).recorded()
                        && final(self).recorded().len() == old(self).recorded().len() + 1
                        && is_use(final(self).recorded().last(), name@, old(self).level(), span),
                    None => final(self).recorded() == old(self).recorded(),
                },
                ExprHead::Call { func } => walk == ExprWalk::CallArgs && match func {
                    Some((name, span)) => final(self).recorded().drop_last() == old(self).recorded()
                        && final(self).recorded().len() == old(self).recorded().len() + 1
                        && is_use(final(self).recorded().last(), name@, old(self).level(), span),
                    None => final(self).recorded() == old(self).recorded(),
                },
                ExprHead::MethodCall { method, span } => walk == ExprWalk::Children
                    && final(self).recorded().drop_last() == old(self).recorded()
                    && final(self).recorded().len() == old(self).recorded().len() + 1
                    && is_use(final(self).recorded().last(), method@, old(self).level(), span),
                ExprHead::Reference { mutable, target, span } => walk == ExprWalk::Children && match target {
                    Some(name) => final(self).recorded().drop_last() == old(self).recorded()
                        && final(self).recorded().len() == old(self).recorded().len() + 1
                        && is_borrow(final(self).recorded().last(), name@,
                            if mutable { BorrowKind::Mutable } else { BorrowKind::Immutable }, old(self).level(), span),
                    None => final(self).recorded() == old(self).recorded(),
                },
                ExprHead::Assign { left } => walk == ExprWalk::AssignRight && match left {
                    Some((name, span)) => final(self).recorded().drop_last() == old(self).recorded()
                        && final(self).recorded().len() == old(self).recorded().len() + 1
                        && is_use(final(self).recorded().last(), name@, old(self).level(), span),
                    None => final(self).recorded() == old(self).recorded(),
                },
                _ => walk == ExprWalk::Children && final(self).recorded() == old(self).recorded(),
            },
    {
        match e {
            ExprHead::Path { ident } => {
                if let Some((name, span)) = ident {
                    self.record_var_use(name.as_str(), *span);
                }
                ExprWalk::Skip
            },
            ExprHead::Call { func } => {
                if let Some((name, span)) = func {
                    self.record_var_use(name.as_str(), *span);
                }
                ExprWalk::CallArgs
            },
            ExprHead::MethodCall { method, span } => {
                self.record_var_use(method.as_str(), *span);
                ExprWalk::Children
            },
            ExprHead::Reference { mutable, target, span } => {
                let kind = if *mutable { BorrowKind::Mutable } else { BorrowKind::Immutable };
                if let Some(name) = target {
                    self.record_borrow(name.as_str(), kind, *span);
                }
                ExprWalk::Children
            },
            ExprHead::Assign { left } => {
                if let Some((name, span)) = left {
                    self.record_var_use(name.as_str(), *span);
                }
                ExprWalk::AssignRight
            },
            ExprHead::Closure => ExprWalk::Children,
            ExprHead::Other => ExprWalk::Children,
        }
    }

    /// A macro's input: records a use of each identifier in it, groups
    /// opened in place, in order, at the current level.
    pub fn visit_token_stream(&mut self, tokens: &Vec<TokenShape>)
        ensures
            final(self).level() == old(self).level(),
            uses_appended(old(self).recorded(), final(self).recorded(), token_idents(tokens@), old(self).level()),
        decreases tokens,
    {
        let ghost e0 = self.events@;
        let ghost level = self.level();
        let mut i: usize = 0;
        assert(self.events@.take(e0.len() as int) =~= e0);
        while i < tokens.len()
            invariant
                self.level() == level,
                level == old(self).level(),
                e0 == old(self).recorded(),
                i <= tokens@.len(),
                uses_appended(e0, self.events@, token_idents(tokens@.take(i as int)), level),
            decreases tokens@.len() - i,
        {
            assert(tokens@.take(i + 1).drop_last() =~= tokens@.take(i as int));
            assert(tokens@.take(i + 1).last() == tokens@[i as int]);
            let ghost e1 = self.events@;
            let ghost u1 = token_idents(tokens@.take(i as int));
            match &tokens[i] {
                TokenShape::Ident { name, span } => {
                    self.record_var_use(name.as_str(), *span);
                    let ghost u2 = u1 + seq![(name@, *span)];
                    assert(token_tree_idents(tokens@[i as int]) =~= seq![(name@, *span)]);
                    assert(u2 =~= token_idents(tokens@.take(i + 1)));
                    assert(self.events@.take(e0.len() as int) =~= e0) by {
                        assert(self.events@.drop_last() == e1);
                        assert(e1.take(e0.len() as int) == e0);
                    }
                    assert forall|k: int| 0 <= k < u2.len() implies is_use(#[trigger] self.events@[e0.len() + k], u2[k].0,
                        level, u2[k].1) by {
                        if k < u1.len() {
                            assert(self.events@[e0.len() + k] == e1[e0.len() + k]);
                        }
                    }
                },
                TokenShape::Group(inner) => {
                    self.visit_token_stream(inner);
                    let ghost u2 = u1 + token_idents(inner@);
                    assert(token_tree_idents(tokens@[i as int]) == token_idents(inner@));
                    assert(u2 =~= token_idents(tokens@.take(i + 1)));
                    let ghost e2 = self.events@;
                    assert(e2.take(e0.len() as int) =~= e0) by {
                        assert(e2.take(e1.len() as int) == e1);
                        assert(e1.take(e0.len() as int) == e0);
                    }
                    assert forall|k: int| 0 <= k < u2.len() implies is_use(#[trigger] e2[e0.len() + k], u2[k].0,
                        level, u2[k].1) by {
                        if k < u1.len() {
                            assert(e2.take(e1.len() as int)[e0.len() + k] == e2[e0.len() + k]);
                        } else {
                            let j = k - u1.len();
                            assert(is_use(e2[e1.len() + j], token_idents(inner@)[j].0, level, token_idents(inner@)[j].1));
                        }
                    }
                },
                TokenShape::Other => {
                    assert(token_tree_idents(tokens@[i as int]) =~= Seq::<(Seq<char>, Span)>::empty());
                    assert(token_idents(tokens@.take(i + 1)) =~= u1);
                },
            }
            i = i + 1;
        }
        assert(tokens@.take(tokens@.len() as int) =~= tokens@);
    }

    /// Entering a block: one level deeper, recorded at the block's span.
    pub fn enter_block(&mut self, span: Span)
        requires
            old(self).level() < usize::MAX,
        ensures
            final(self).level() == old(self).level() + 1,
            final(self).recorded() == old(self).recorded().push(
                AnalysisEvent { kind: EventKind::ScopeEnter { level: final(self).level() }, span },
            ),
    {
        self.scope_level = self.scope_level + 1;
        self.events.push(AnalysisEvent { kind: EventKind::ScopeEnter { level: self.scope_level }, span });
    }

    /// Leaving a block: recorded at the block's span, then one level up.
    pub fn exit_block(&mut self, span: Span)
        requires
            old(self).level() > 0,
        ensures
            final(self).level() == old(self).level() - 1,
            final(self).recorded() == old(self).recorded().push(
                AnalysisEvent { kind: EventKind::ScopeExit { level: old(self).level() }, span },
            ),
    {
        self.events.push(AnalysisEvent { kind: EventKind::ScopeExit { level: self.scope_level }, span });
        self.scope_level = self.scope_level - 1;
    }

    /// Entering a function: records the function, defined at the current
    /// level at its name's span, with its parameters one level deeper (the
    /// first variable each typed parameter's pattern binds); then each
    /// parameter's definition at its own span; then one level deeper,
    /// entered at the span of the body's first statement, or of the name
    /// if the body is empty.
    pub fn enter_item_fn(&mut self, name: &str, name_span: Span, inputs: &Vec<Option<PatShape>>,
        first_stmt_span: Option<Span>)
        requires
            old(self).level() < usize::MAX,
        ensures
            final(self).level() == old(self).level() + 1,
            final(self).recorded().len() == old(self).recorded().len() + params_of(inputs@, final(self).level()).len() + 2,
            final(self).recorded().take(old(self).recorded().len() as int) == old(self).recorded(),
            ({
                let f = final(self).recorded()[old(self).recorded().len() as int];
                &&& f.span == name_span
                &&& f.kind matches EventKind::FuncDefined(func)
                &&& func.name@ == name@
                &&& func.span == name_span
                &&& func.parameters@ == params_of(inputs@, final(self).level())
                &&& func.scope_level == old(self).level()
            }),
            final(self).recorded().subrange(old(self).recorded().len() + 1int, final(self).recorded().len() - 1)
                == own_definitions(params_of(inputs@, final(self).level())),
            final(self).recorded().last() == (AnalysisEvent {
                kind: EventKind::ScopeEnter { level: final(self).level() },
                span: match first_stmt_span {
                    Some(s) => s,
                    None => name_span,
                },
            }),
    {
        let ghost e0 = self.events@;
        let func_scope_level = self.scope_level + 1;
        let mut params: Vec<Variable> = Vec::new();
        let mut i: usize = 0;
        while i < inputs.len()
            invariant
                i <= inputs@.len(),
                params@ == params_of(inputs@.take(i as int), func_scope_level),
            decreases inputs@.len() - i,
        {
            assert(inputs@.take(i + 1).drop_last() =~= inputs@.take(i as int));
            assert(inputs@.take(i + 1).last() == inputs@[i as int]);
            if let Some(pat) = &inputs[i] {
                let vars = self.extract_var_from_pat_with_scope(pat, func_scope_level);
                if vars.len() > 0 {
                    params.push(vars[0].clone());
                }
            }
            i = i + 1;
        }
        assert(inputs@.take(inputs@.len() as int) =~= inputs@);
        let ghost ps = params@;
        let func = Function {
            name: string_of(name),
            span: name_span,
            parameters: crate::parser::events::clone_variables(&params),
            scope_level: self.scope_level,
        };
        self.events.push(AnalysisEvent { kind: EventKind::FuncDefined(func), span: name_span });
        let ghost e1 = self.events@;
        let mut j: usize = 0;
        while j < params.len()
            invariant
                params@ == ps,
                j <= ps.len(),
                self.events@ == e1 + own_definitions(ps.take(j as int)),
                self.scope_level == old(self).level(),
            decreases ps.len() - j,
        {
            let param = params[j].clone();
            let span = param.span;
            self.events.push(AnalysisEvent { kind: EventKind::VarDefined(param), span });
            assert(own_definitions(ps.take(j + 1)) =~= own_definitions(ps.take(j as int)).push(
                AnalysisEvent { kind: EventKind::VarDefined(ps[j as int]), span: ps[j as int].span }));
            j = j + 1;
        }
        assert(ps.take(ps.len() as int) =~= ps);
        self.scope_level = self.scope_level + 1;
        let body_span = match first_stmt_span {
            Some(s) => s,
            None => name_span,
        };
        let ghost e2 = self.events@;
        self.events.push(AnalysisEvent { kind: EventKind::ScopeEnter { level: self.scope_level }, span: body_span });
        assert(self.events@.take(e0.len() as int) =~= e0);
        assert(self.events@.subrange(e0.len() + 1int, self.events@.len() - 1) =~= own_definitions(ps));
    }

    /// Leaving a function: recorded at its name's span, then one level up.
    pub fn exit_item_fn(&mut self, name_span: Span)
        requires
            old(self).level() > 0,
        ensures
            final(self).level() == old(self).level() - 1,
            final(self).recorded() == old(self).recorded().push(
                AnalysisEvent { kind: EventKind::ScopeExit { level: old(self).level() }, span: name_span },
            ),
    {
        self.events.push(AnalysisEvent { kind: EventKind::ScopeExit { level: self.scope_level }, span: name_span });
        self.scope_level = self.scope_level - 1;
    }
}

} // verus!
