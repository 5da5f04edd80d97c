//! The events that a walk over a Rust source records, in source order.

use vstd::prelude::*;
use vstd::string::*;
use proc_macro2::Span;
use crate::analysis::BorrowKind;
use crate::text::{push_usize, decimal, string_of};

verus! {

/// A variable binding: a `let` pattern or a function parameter.
#[derive(Debug)]
pub struct Variable {
    pub name: String,
    pub span: Span,
    pub is_mutable: bool,
    pub scope_level: usize,
}

impl Clone for Variable {
    fn clone(&self) -> (r: Self)
        ensures
            r == *self,
    {
        Variable {
            name: self.name.clone(),
            span: self.span,
            is_mutable: self.is_mutable,
            scope_level: self.scope_level,
        }
    }
}

/// Copies of all the variables of a list.
pub fn clone_variables(vars: &Vec<Variable>) -> (r: Vec<Variable>)
    ensures
        r@ == vars@,
{
    let mut r: Vec<Variable> = Vec::new();
    let mut i: usize = 0;
    while i < vars.len()
        invariant
            i <= vars@.len(),
            r@ == vars@.take(i as int),
        decreases vars@.len() - i,
    {
        r.push(vars[i].clone());
        i = i + 1;
    }
    assert(vars@.take(vars@.len() as int) =~= vars@);
    r
}

/// A function definition and its parameters.
#[derive(Debug)]
pub struct Function {
    pub name: String,
    pub span: Span,
    pub parameters: Vec<Variable>,
    pub scope_level: usize,
}

impl Clone for Function {
    fn clone(&self) -> (r: Self)
        ensures
            r.name == self.name,
            r.span == self.span,
            r.parameters@ == self.parameters@,
            r.scope_level == self.scope_level,
    {
        Function {
            name: self.name.clone(),
            span: self.span,
            parameters: clone_variables(&self.parameters),
            scope_level: self.scope_level,
        }
    }
}

/// One event of the walk, with where it happened.
#[derive(Debug)]
pub struct AnalysisEvent {
    pub kind: EventKind,
    pub span: Span,
}

/// What happened.
#[derive(Debug)]
pub enum EventKind {
    VarDefined(Variable),
    VarUsed { name: String, scope_level: usize },
    VarDropped { name: String },
    FuncDefined(Function),
    ScopeEnter { level: usize },
    ScopeExit { level: usize },
    BorrowCreated { name: String, kind: BorrowKind, scope_level: usize },
    BorrowDropped { name: String, kind: BorrowKind },
    OwnershipMoved { name: String, target: Option<String>, is_function_call: bool },
    VariableCopied { name: String, target: String },
}

impl Clone for EventKind {
    fn clone(&self) -> (r: Self)
        ensures
            match (r, *self) {
                (EventKind::FuncDefined(a), EventKind::FuncDefined(b)) =>
                    a.name == b.name && a.span == b.span && a.parameters@ == b.parameters@
                        && a.scope_level == b.scope_level,
                _ => r == *self,
            },
    {
        match self {
            EventKind::VarDefined(v) => EventKind::VarDefined(v.clone()),
            EventKind::VarUsed { name, scope_level } =>
                EventKind::VarUsed { name: name.clone(), scope_level: *scope_level },
            EventKind::VarDropped { name } => EventKind::VarDropped { name: name.clone() },
            EventKind::FuncDefined(f) => EventKind::FuncDefined(f.clone()),
            EventKind::ScopeEnter { level } => EventKind::ScopeEnter { level: *level },
            EventKind::ScopeExit { level } => EventKind::ScopeExit { level: *level },
            EventKind::BorrowCreated { name, kind, scope_level } =>
                EventKind::BorrowCreated { name: name.clone(), kind: *kind, scope_level: *scope_level },
            EventKind::BorrowDropped { name, kind } =>
                EventKind::BorrowDropped { name: name.clone(), kind: *kind },
            EventKind::OwnershipMoved { name, target, is_function_call } => {
                let t = match target {
                    Some(t) => Some(t.clone()),
                    None => None,
                };
                EventKind::OwnershipMoved { name: name.clone(), target: t, is_function_call: *is_function_call }
            },
            EventKind::VariableCopied { name, target } =>
                EventKind::VariableCopied { name: name.clone(), target: target.clone() },
        }
    }
}

impl Clone for AnalysisEvent {
    fn clone(&self) -> (r: Self)
        ensures
            r.span == self.span,
            match (r.kind, self.kind) {
                (EventKind::FuncDefined(a), EventKind::FuncDefined(b)) =>
                    a.name == b.name && a.span == b.span && a.parameters@ == b.parameters@
                        && a.scope_level == b.scope_level,
                _ => r.kind == self.kind,
            },
    {
        AnalysisEvent { kind: self.kind.clone(), span: self.span }
    }
}

/// Display text of a variable: `name: mut (scope: n)` or `name: immut (scope: n)`.
pub open spec fn variable_text(v: Variable) -> Seq<char> {
    v.name@ + ": "@ + (if v.is_mutable { "mut"@ } else { "immut"@ }) + " (scope: "@
        + decimal(v.scope_level as nat) + ")"@
}

impl Variable {
    /// Display text: `name: mut (scope: n)` or `name: immut (scope: n)`.
    pub fn to_string(&self) -> (r: String)
        ensures
            r@ == variable_text(*self),
    {
        let mut s = string_of(self.name.as_str());
        s.append(": ");
        if self.is_mutable {
            s.append("mut");
        } else {
            s.append("immut");
        }
        s.append(" (scope: ");
        push_usize(&mut s, self.scope_level);
        s.append(")");
        assert(s@ =~= variable_text(*self));
        s
    }
}

/// Display text of an event.
pub open spec fn event_text(e: AnalysisEvent) -> Seq<char> {
    match e.kind {
        EventKind::VarDefined(v) => "DEFINE: "@ + variable_text(v),
        EventKind::VarUsed { name, .. } => "USE: "@ + name@,
        EventKind::VarDropped { name } => "DROP: "@ + name@,
        EventKind::FuncDefined(f) => "FUNCTION: "@ + f.name@,
        EventKind::ScopeEnter { level } => "ENTER_SCOPE: level "@ + decimal(level as nat),
        EventKind::ScopeExit { level } => "EXIT_SCOPE: level "@ + decimal(level as nat),
        EventKind::BorrowCreated { name, kind, .. } => "BORROW: "@ + kind.text() + " "@ + name@,
        EventKind::BorrowDropped { name, kind } => "DROP_BORROW: "@ + kind.text() + " "@ + name@,
        EventKind::OwnershipMoved { name, target, is_function_call } => {
            let target_text = match target {
                Some(t) => t@,
                None => "unknown"@,
            };
            (if is_function_call { "MOVE_CALL: "@ } else { "MOVE: "@ }) + name@ + " -> "@ + target_text
        },
        EventKind::VariableCopied { name, target } => "COPY: "@ + name@ + " -> "@ + target@,
    }
}

impl AnalysisEvent {
    /// Display text, such as `DEFINE: x: mut (scope: 1)`, `USE: x` or `MOVE: x -> y`.
    pub fn to_string(&self) -> (r: String)
        ensures
            r@ == event_text(*self),
    {
        match &self.kind {
            EventKind::VarDefined(var) => {
                let mut s = string_of("DEFINE: ");
                let v = var.to_string();
                s.append(v.as_str());
                s
            },
            EventKind::VarUsed { name, .. } => {
                let mut s = string_of("USE: ");
                s.append(name.as_str());
                s
            },
            EventKind::VarDropped { name } => {
                let mut s = string_of("DROP: ");
                s.append(name.as_str());
                s
            },
            EventKind::FuncDefined(func) => {
                let mut s = string_of("FUNCTION: ");
                s.append(func.name.as_str());
                s
            },
            EventKind::ScopeEnter { level } => {
                let mut s = string_of("ENTER_SCOPE: level ");
                push_usize(&mut s, *level);
                s
            },
            EventKind::ScopeExit { level } => {
                let mut s = string_of("EXIT_SCOPE: level ");
                push_usize(&mut s, *level);
                s
            },
            EventKind::BorrowCreated { name, kind, .. } => {
                let mut s = string_of("BORROW: ");
                let k = kind.to_string();
                s.append(k.as_str());
                s.append(" ");
                s.append(name.as_str());
                s
            },
            EventKind::BorrowDropped { name, kind } => {
                let mut s = string_of("DROP_BORROW: ");
                let k = kind.to_string();
                s.append(k.as_str());
                s.append(" ");
                s.append(name.as_str());
                s
            },
            EventKind::OwnershipMoved { name, target, is_function_call } => {
                let mut s = if *is_function_call {
                    string_of("MOVE_CALL: ")
                } else {
                    string_of("MOVE: ")
                };
                s.append(name.as_str());
                s.append(" -> ");
                match target {
                    Some(t) => s.append(t.as_str()),
                    None => s.append("unknown"),
                }
                s
            },
            EventKind::VariableCopied { name, target } => {
                let mut s = string_of("COPY: ");
                s.append(name.as_str());
                s.append(" -> ");
                s.append(target.as_str());
                s
            },
        }
    }
}

} // verus!
