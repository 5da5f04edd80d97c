use proc_macro2::Span;
use rust_visualizer::analysis::BorrowKind;
use rust_visualizer::error::VisualizerError;
use rust_visualizer::parser::ast_visitor::{AstVisitor, ExprHead, ExprWalk, PatShape, TokenShape};
use rust_visualizer::parser::events::EventKind;
use rust_visualizer::parser::parse_source;

fn ident(name: &str, mutable: bool) -> PatShape {
    PatShape::Ident { name: name.to_string(), mutable, span: Span::call_site() }
}

fn texts(v: &AstVisitor) -> Vec<String> {
    v.events.iter().map(|e| e.to_string()).collect()
}

#[test]
fn parse_source_accepts_rust_and_reports_the_rest() {
    assert!(parse_source("").is_ok());
    assert!(parse_source("fn main() { let x = 1; }").is_ok());
    match parse_source("fn main( {") {
        Err(VisualizerError::ParseError(_)) => {},
        _ => panic!("expected a parse error"),
    }
}

#[test]
fn patterns_bind_their_identifiers_in_order() {
    let v = AstVisitor::new();
    let pat = PatShape::Tuple(vec![
        ident("a", false),
        PatShape::Wild,
        PatShape::Struct(vec![ident("b", true), PatShape::TupleStruct(vec![ident("c", false)])]),
        PatShape::Other,
    ]);
    let vars = v.extract_var_from_pat_with_scope(&pat, 3);
    let names: Vec<(String, bool, usize)> = vars.iter().map(|x| (x.name.clone(), x.is_mutable, x.scope_level)).collect();
    assert_eq!(
        names,
        vec![("a".to_string(), false, 3), ("b".to_string(), true, 3), ("c".to_string(), false, 3)]
    );
    assert!(v.extract_var_from_pat(&PatShape::Wild).is_empty());
    assert_eq!(v.extract_var_from_pat(&ident("z", false))[0].scope_level, 0);
}

#[test]
fn functions_and_blocks_nest_scopes() {
    let mut v = AstVisitor::default();
    let inputs = vec![None, Some(ident("p", true)), Some(PatShape::Tuple(vec![ident("q", false), ident("r", false)])), Some(PatShape::Wild)];
    v.enter_item_fn("f", Span::call_site(), &inputs, None);
    assert_eq!(v.depth(), 1);
    v.enter_block(Span::call_site());
    assert_eq!(v.depth(), 2);
    v.visit_local(&ident("x", false), Span::call_site());
    v.exit_block(Span::call_site());
    v.exit_item_fn(Span::call_site());
    assert_eq!(v.depth(), 0);
    assert_eq!(
        texts(&v),
        vec![
            "FUNCTION: f",
            "DEFINE: p: mut (scope: 1)",
            "DEFINE: q: immut (scope: 1)",
            "ENTER_SCOPE: level 1",
            "ENTER_SCOPE: level 2",
            "DEFINE: x: immut (scope: 2)",
            "EXIT_SCOPE: level 2",
            "EXIT_SCOPE: level 1",
        ]
    );
    match &v.events[0].kind {
        EventKind::FuncDefined(func) => {
            assert_eq!(func.parameters.len(), 2);
            assert_eq!(func.scope_level, 0);
        },
        _ => panic!("expected the function"),
    }
}

#[test]
fn expressions_record_uses_and_borrows() {
    let mut v = AstVisitor::new();
    let s = Span::call_site();
    assert_eq!(v.visit_expr(&ExprHead::Path { ident: Some(("a".to_string(), s)) }), ExprWalk::Skip);
    assert_eq!(v.visit_expr(&ExprHead::Path { ident: None }), ExprWalk::Skip);
    assert_eq!(v.visit_expr(&ExprHead::Call { func: Some(("f".to_string(), s)) }), ExprWalk::CallArgs);
    assert_eq!(v.visit_expr(&ExprHead::MethodCall { method: "len".to_string(), span: s }), ExprWalk::Children);
    assert_eq!(
        v.visit_expr(&ExprHead::Reference { mutable: true, target: Some("b".to_string()), span: s }),
        ExprWalk::Children
    );
    assert_eq!(v.visit_expr(&ExprHead::Reference { mutable: false, target: None, span: s }), ExprWalk::Children);
    assert_eq!(v.visit_expr(&ExprHead::Assign { left: Some(("c".to_string(), s)) }), ExprWalk::AssignRight);
    assert_eq!(v.visit_expr(&ExprHead::Closure), ExprWalk::Children);
    assert_eq!(v.visit_expr(&ExprHead::Other), ExprWalk::Children);
    assert_eq!(texts(&v), vec!["USE: a", "USE: f", "USE: len", "BORROW: &mut b", "USE: c"]);
    v.record_borrow("d", BorrowKind::Immutable, s);
    assert_eq!(texts(&v).last().unwrap(), "BORROW: & d");
}

#[test]
fn macro_tokens_use_every_identifier() {
    let mut v = AstVisitor::new();
    let s = Span::call_site();
    let tokens = vec![
        TokenShape::Ident { name: "println".to_string(), span: s },
        TokenShape::Other,
        TokenShape::Group(vec![
            TokenShape::Ident { name: "x".to_string(), span: s },
            TokenShape::Group(vec![TokenShape::Ident { name: "y".to_string(), span: s }]),
        ]),
        TokenShape::Ident { name: "z".to_string(), span: s },
    ];
    v.visit_token_stream(&tokens);
    assert_eq!(texts(&v), vec!["USE: println", "USE: x", "USE: y", "USE: z"]);
}

#[test]
fn errors_convert_from_their_sources() {
    let io: VisualizerError = std::io::Error::new(std::io::ErrorKind::NotFound, "missing").into();
    assert!(matches!(io, VisualizerError::FileReadError(_)));
    let syn_error = syn::Error::new(Span::call_site(), "bad");
    let parse: VisualizerError = syn_error.into();
    assert!(matches!(parse, VisualizerError::ParseError(_)));
    let invalid = VisualizerError::InvalidInput("no".to_string());
    assert!(matches!(invalid, VisualizerError::InvalidInput(ref s) if s == "no"));
}

#[test]
fn typed_patterns_bind_what_they_annotate() {
    let mut v = AstVisitor::new();
    let typed = PatShape::Typed(Box::new(ident("sum", false)));
    v.visit_local(&typed, Span::call_site());
    let pair = PatShape::Typed(Box::new(PatShape::Tuple(vec![ident("a", true), ident("b", false)])));
    v.visit_local(&pair, Span::call_site());
    assert_eq!(texts(&v), vec!["DEFINE: sum: immut (scope: 0)", "DEFINE: a: mut (scope: 0)", "DEFINE: b: immut (scope: 0)"]);
}
