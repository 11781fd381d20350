use auto_enums_core::context::Context;
use auto_enums_core::find_try::FindTry;
use auto_enums_core::syntax::{Attr, Config, Expr, ExprKind, Item, Local, Stmt, VisitMode};
use auto_enums_core::visitor::{select_mode, Visitor};

fn context() -> Context {
    Context::root(Config {
        ident: String::from("__Enum"),
        mode: None,
        marker: None,
        unique_marker: false,
        traits: vec![String::from("Iterator")],
        types: Vec::new(),
    })
    .unwrap()
}

fn expr(kind: ExprKind) -> Expr {
    Expr { attrs: Vec::new(), kind }
}

fn verbatim(text: &str) -> Expr {
    expr(ExprKind::Verbatim(String::from(text)))
}

fn try_(inner: Expr) -> Expr {
    expr(ExprKind::Try(Box::new(inner)))
}

fn scan(e: &Expr) -> bool {
    let cx = context();
    let mut find = FindTry::new(&cx);
    find.visit_expr_mut(e);
    find.has
}

/// Whether a pass in try mode hands out a variant for `e`.
fn rewrites(mut e: Expr) -> bool {
    let mut cx = context();
    cx.set_visit_mode(VisitMode::Try);
    Visitor::new(&mut cx).visit_expr_mut(&mut e);
    cx.variant_count() > 0
}

#[test]
fn finds_top_level_try() {
    let make = || expr(ExprKind::Block(vec![Stmt::Expr(try_(verbatim("a()")))]));
    assert!(scan(&make()));
    assert!(rewrites(make()));
}

#[test]
fn does_not_look_into_closures() {
    let make = || {
        expr(ExprKind::Closure { inputs: String::new(), body: Box::new(try_(verbatim("a()"))) })
    };
    assert!(!scan(&make()));
    assert!(!rewrites(make()));
}

#[test]
fn skips_try_of_marker() {
    let make = || {
        try_(Expr::macro_call(String::from("marker"), String::from("a")))
    };
    assert!(!scan(&make()));
    let mut cx = context();
    cx.set_visit_mode(VisitMode::Try);
    let mut e = make();
    Visitor::new(&mut cx).visit_expr_mut(&mut e);
    assert!(matches!(e.kind, ExprKind::Try(_)));
}

#[test]
fn skips_try_with_never() {
    let make = || {
        let mut e = try_(verbatim("a()"));
        e.attrs.push(Attr::Plain { name: String::from("never"), tokens: String::new() });
        e
    };
    assert!(!scan(&make()));
    assert!(!rewrites(make()));
}

#[test]
fn does_not_look_into_try_blocks_items_or_nested_invocations() {
    let in_try_block = expr(ExprKind::TryBlock(vec![Stmt::Expr(try_(verbatim("a()")))]));
    assert!(!scan(&in_try_block));
    let item = expr(ExprKind::Block(vec![Stmt::Item(Item::Verbatim(String::from(
        "fn f() -> Option<u8> { g()?; None }",
    )))]));
    assert!(!scan(&item));
    let nested = Config {
        ident: String::from("__Inner"),
        mode: None,
        marker: None,
        unique_marker: false,
        traits: Vec::new(),
        types: Vec::new(),
    };
    let local = Local {
        attrs: vec![Attr::Invocation(Ok(nested))],
        pat: String::from("x"),
        init: Some(try_(verbatim("a()"))),
    };
    let cx = context();
    let mut find = FindTry::new(&cx);
    find.visit_local_mut(&local);
    assert!(!find.has);
}

#[test]
fn finds_try_after_statements_without_one() {
    let e = expr(ExprKind::Block(vec![
        Stmt::Semi(verbatim("a")),
        Stmt::Local(Local { attrs: Vec::new(), pat: String::from("x"), init: Some(try_(verbatim("b()"))) }),
        Stmt::Expr(verbatim("c")),
    ]));
    assert!(scan(&e));
}

#[test]
fn mode_follows_the_scan() {
    let mut cx = context();
    select_mode(&try_(verbatim("a()")), &mut cx);
    assert_eq!(cx.visit_mode(), VisitMode::Try);
    let mut cx = context();
    select_mode(&verbatim("a"), &mut cx);
    assert_eq!(cx.visit_mode(), VisitMode::Return);
}

#[test]
fn scan_of_statements_keeps_what_was_found() {
    let cx = context();
    let with = vec![Stmt::Expr(try_(verbatim("a()")))];
    let without = vec![Stmt::Expr(verbatim("a"))];
    let mut find = FindTry::new(&cx);
    find.visit_stmts(&without);
    assert!(!find.has);
    find.visit_stmts(&with);
    assert!(find.has);
    find.visit_stmts(&without);
    assert!(find.has);
}
