use auto_enums_core::context::{Context, Diagnostic, ErrorKind, Site, Status};
use auto_enums_core::parse::is_readable;
use auto_enums_core::reading::{read_markers, read_markers_of_stmt};
use auto_enums_core::syntax::{
    Arm, Attr, Config, Expr, ExprKind, Item, Local, Stmt, VisitMode,
};
use auto_enums_core::visitor::{
    expand_body, expand_expr, expand_stmt, read_and_expand_body, read_and_expand_stmt,
    visit_stmt_mut, Dummy, Visitor,
};

fn config(ident: &str, mode: Option<VisitMode>) -> Config {
    Config {
        ident: String::from(ident),
        mode,
        marker: None,
        unique_marker: false,
        traits: vec![String::from("Iterator")],
        types: Vec::new(),
    }
}

fn root(mode: VisitMode) -> Context {
    Context::root(config("__Enum", Some(mode))).unwrap()
}

fn expr(kind: ExprKind) -> Expr {
    Expr { attrs: Vec::new(), kind }
}

fn verbatim(text: &str) -> Expr {
    expr(ExprKind::Verbatim(String::from(text)))
}

fn ret(payload: Expr) -> Expr {
    expr(ExprKind::Return(Some(Box::new(payload))))
}

fn try_(inner: Expr) -> Expr {
    expr(ExprKind::Try(Box::new(inner)))
}

fn mac(path: &str, tokens: &str) -> Expr {
    Expr::macro_call(String::from(path), String::from(tokens))
}

fn closure(body: Expr) -> Expr {
    expr(ExprKind::Closure { inputs: String::new(), body: Box::new(body) })
}

fn block(stmts: Vec<Stmt>) -> Expr {
    expr(ExprKind::Block(stmts))
}

fn construct_of(sum: &str, variant: usize, payload: Expr) -> Expr {
    expr(ExprKind::Construct { sum: String::from(sum), variant, payload: Box::new(payload) })
}

fn construct(variant: usize, payload: Expr) -> Expr {
    construct_of("__Enum", variant, payload)
}

fn let_(pat: &str, init: Expr) -> Stmt {
    Stmt::Local(Local { attrs: Vec::new(), pat: String::from(pat), init: Some(init) })
}

fn empty_attr(name: &str) -> Attr {
    Attr::Plain { name: String::from(name), tokens: String::new() }
}

fn arm(pat: &str, body: Expr) -> Arm {
    Arm { attrs: Vec::new(), pat: String::from(pat), guard: None, body }
}

fn try_match(scrutinee: Expr, variant: usize) -> Expr {
    let failure = construct(variant, verbatim("err"));
    let call = expr(ExprKind::Call {
        func: Box::new(verbatim("::core::result::Result::Err")),
        args: vec![failure],
    });
    expr(ExprKind::Match {
        scrutinee: Box::new(scrutinee),
        arms: vec![
            arm("::core::result::Result::Ok(val)", verbatim("val")),
            arm("::core::result::Result::Err(err)", ret(call)),
        ],
    })
}

/// How often `text` stands as an expression of its own in `e`.
fn occurrences(e: &Expr, text: &str) -> usize {
    let in_stmts = |stmts: &Vec<Stmt>| -> usize {
        stmts
            .iter()
            .map(|s| match s {
                Stmt::Local(l) => l.init.as_ref().map_or(0, |i| occurrences(i, text)),
                Stmt::Item(_) => 0,
                Stmt::Expr(e) | Stmt::Semi(e) => occurrences(e, text),
            })
            .sum()
    };
    match &e.kind {
        ExprKind::Verbatim(t) => usize::from(t == text),
        ExprKind::Return(Some(p)) => occurrences(p, text),
        ExprKind::Return(None) => 0,
        ExprKind::Try(i) => occurrences(i, text),
        ExprKind::Macro { .. } | ExprKind::CompileError(_) => 0,
        ExprKind::Closure { body, .. } => occurrences(body, text),
        ExprKind::TryBlock(s) | ExprKind::Block(s) => in_stmts(s),
        ExprKind::Match { scrutinee, arms } => {
            occurrences(scrutinee, text)
                + arms
                    .iter()
                    .map(|a| {
                        a.guard.as_ref().map_or(0, |g| occurrences(g, text))
                            + occurrences(&a.body, text)
                    })
                    .sum::<usize>()
        }
        ExprKind::Call { func, args } => {
            occurrences(func, text) + args.iter().map(|a| occurrences(a, text)).sum::<usize>()
        }
        ExprKind::Construct { payload, .. } => occurrences(payload, text),
        ExprKind::Other { children, .. } => children.iter().map(|c| occurrences(c, text)).sum(),
    }
}

#[test]
fn return_is_wrapped_in_next_variant() {
    let mut cx = root(VisitMode::Return);
    let mut e = ret(verbatim("y"));
    Visitor::new(&mut cx).visit_expr_mut(&mut e);
    assert_eq!(e, ret(construct(0, verbatim("y"))));
    assert_eq!(cx.variant_count(), 1);
    assert_eq!(cx.variants, vec![Site::Return]);
    assert!(!cx.failed());
}

#[test]
fn bare_return_wraps_unit() {
    let mut cx = root(VisitMode::Return);
    let mut e = expr(ExprKind::Return(None));
    Visitor::new(&mut cx).visit_expr_mut(&mut e);
    assert_eq!(e, ret(construct(0, verbatim("()"))));
}

#[test]
fn body_without_occurrences_is_unchanged() {
    let make = || {
        block(vec![
            let_("a", expr(ExprKind::Other {
                form: String::from("{} + {}"),
                children: vec![verbatim("1"), verbatim("2")],
            })),
            Stmt::Item(Item::Verbatim(String::from("fn f() { return 1; }"))),
            Stmt::Semi(mac("println", "\"{}\", a")),
            Stmt::Expr(expr(ExprKind::Call { func: Box::new(verbatim("g")), args: vec![verbatim("a")] })),
        ])
    };
    for mode in [VisitMode::Default, VisitMode::Return, VisitMode::Try] {
        let mut cx = root(mode);
        let mut e = make();
        Visitor::new(&mut cx).visit_expr_mut(&mut e);
        assert_eq!(e, make());
        assert_eq!(cx.variant_count(), 0);
        assert!(!cx.failed());
        assert!(!cx.saw_nested_invocation());
    }
}

#[test]
fn indices_follow_visitation_order() {
    // { return a; return f(return b); return c }
    let mut cx = root(VisitMode::Return);
    let mut e = block(vec![
        Stmt::Semi(ret(verbatim("a"))),
        Stmt::Semi(ret(expr(ExprKind::Call {
            func: Box::new(verbatim("f")),
            args: vec![ret(verbatim("b"))],
        }))),
        Stmt::Expr(ret(verbatim("c"))),
    ]);
    Visitor::new(&mut cx).visit_expr_mut(&mut e);
    let expected = block(vec![
        Stmt::Semi(ret(construct(0, verbatim("a")))),
        Stmt::Semi(ret(construct(
            1,
            expr(ExprKind::Call {
                func: Box::new(verbatim("f")),
                args: vec![ret(construct(2, verbatim("b")))],
            }),
        ))),
        Stmt::Expr(ret(construct(3, verbatim("c")))),
    ]);
    assert_eq!(e, expected);
    assert_eq!(cx.variant_count(), 4);
}

#[test]
fn return_inside_closure_is_left_alone() {
    // { let f = || return x; return y; }
    let mut cx = root(VisitMode::Return);
    let mut e = block(vec![
        let_("f", closure(ret(verbatim("x")))),
        Stmt::Semi(ret(verbatim("y"))),
    ]);
    Visitor::new(&mut cx).visit_expr_mut(&mut e);
    let expected = block(vec![
        let_("f", closure(ret(verbatim("x")))),
        Stmt::Semi(ret(construct(0, verbatim("y")))),
    ]);
    assert_eq!(e, expected);
    assert_eq!(cx.variant_count(), 1);
}

#[test]
fn try_inside_closure_is_left_alone() {
    let mut cx = root(VisitMode::Try);
    let mut e = block(vec![
        let_("f", closure(try_(verbatim("a()")))),
        Stmt::Expr(try_(verbatim("b()"))),
    ]);
    Visitor::new(&mut cx).visit_expr_mut(&mut e);
    let expected = block(vec![
        let_("f", closure(try_(verbatim("a()")))),
        Stmt::Expr(try_match(verbatim("b()"), 0)),
    ]);
    assert_eq!(e, expected);
}

#[test]
fn try_becomes_match_that_evaluates_once() {
    let mut cx = root(VisitMode::Try);
    let mut e = try_(verbatim("fallible()"));
    Visitor::new(&mut cx).visit_expr_mut(&mut e);
    assert_eq!(e, try_match(verbatim("fallible()"), 0));
    assert_eq!(occurrences(&e, "fallible()"), 1);
    assert_eq!(cx.variants, vec![Site::Try]);
}

#[test]
fn nested_try_numbers_outer_first() {
    // f(g()?)?
    let inner_call = |arg: Expr| {
        expr(ExprKind::Call { func: Box::new(verbatim("f")), args: vec![arg] })
    };
    let mut cx = root(VisitMode::Try);
    let mut e = try_(inner_call(try_(verbatim("g()"))));
    Visitor::new(&mut cx).visit_expr_mut(&mut e);
    assert_eq!(e, try_match(inner_call(try_match(verbatim("g()"), 1)), 0));
}

#[test]
fn try_in_try_block_is_left_alone() {
    let mut cx = root(VisitMode::Try);
    let make = || expr(ExprKind::TryBlock(vec![Stmt::Expr(try_(verbatim("a()")))]));
    let mut e = make();
    Visitor::new(&mut cx).visit_expr_mut(&mut e);
    assert_eq!(e, make());
    assert_eq!(cx.variant_count(), 0);
}

#[test]
fn never_keeps_return_and_is_removed() {
    let mut cx = root(VisitMode::Return);
    let mut e = ret(verbatim("x"));
    e.attrs.push(empty_attr("never"));
    Visitor::new(&mut cx).visit_expr_mut(&mut e);
    assert_eq!(e, ret(verbatim("x")));
    assert_eq!(cx.variant_count(), 0);
}

#[test]
fn other_attributes_stay() {
    let mut cx = root(VisitMode::Default);
    let mut e = verbatim("x");
    e.attrs.push(empty_attr("inline"));
    e.attrs.push(empty_attr("nested"));
    e.attrs.push(Attr::Plain { name: String::from("never"), tokens: String::from("(x)") });
    Visitor::new(&mut cx).visit_expr_mut(&mut e);
    assert_eq!(
        e.attrs,
        vec![
            empty_attr("inline"),
            Attr::Plain { name: String::from("never"), tokens: String::from("(x)") },
        ]
    );
}

#[test]
fn marker_argument_is_parsed_and_wrapped() {
    let mut cx = root(VisitMode::Default);
    let mut e = mac("marker", "x+1");
    Visitor::new(&mut cx).visit_expr_mut(&mut e);
    assert_eq!(e, construct(0, verbatim("x+1")));
    assert_eq!(cx.variants, vec![Site::Marker]);
}

#[test]
fn return_of_marker_is_wrapped_once() {
    let mut cx = root(VisitMode::Return);
    let mut e = ret(mac("marker", "a"));
    Visitor::new(&mut cx).visit_expr_mut(&mut e);
    assert_eq!(e, ret(construct(0, verbatim("a"))));
    assert_eq!(cx.variants, vec![Site::Marker]);
}

#[test]
fn try_of_marker_is_not_a_try_site() {
    let mut cx = root(VisitMode::Try);
    let mut e = try_(mac("marker", "a"));
    Visitor::new(&mut cx).visit_expr_mut(&mut e);
    assert_eq!(e, try_(construct(0, verbatim("a"))));
    assert_eq!(cx.variants, vec![Site::Marker]);
}

#[test]
fn other_macros_are_left_alone() {
    let mut cx = root(VisitMode::Default);
    let mut e = mac("vec", "1, 2");
    Visitor::new(&mut cx).visit_expr_mut(&mut e);
    assert_eq!(e, mac("vec", "1, 2"));
    assert_eq!(cx.variant_count(), 0);
}

#[test]
fn malformed_marker_becomes_placeholder_and_fails_the_invocation() {
    let mut cx = root(VisitMode::Default);
    let mut e = block(vec![
        Stmt::Semi(mac("marker", "a")),
        Stmt::Semi(mac("marker", "+")),
        Stmt::Semi(mac("marker", "b")),
    ]);
    Visitor::new(&mut cx).visit_expr_mut(&mut e);
    let stmts = match e.kind {
        ExprKind::Block(stmts) => stmts,
        other => panic!("not a block: {:?}", other),
    };
    // what came before the error is rewritten
    assert_eq!(stmts[0], Stmt::Semi(construct(0, verbatim("a"))));
    // the error stands where it was found
    let message = match &stmts[1] {
        Stmt::Semi(Expr { kind: ExprKind::CompileError(message), .. }) => message.clone(),
        other => panic!("not a placeholder: {:?}", other),
    };
    assert_eq!(message, "expected expression");
    // what comes after it is passed through
    assert_eq!(stmts[2], Stmt::Semi(mac("marker", "b")));
    assert!(cx.failed());
    assert_eq!(cx.variant_count(), 1);
    match &cx.status {
        Status::Failed(diagnostics) => {
            assert_eq!(diagnostics.len(), 1);
            assert_eq!(diagnostics[0].kind, ErrorKind::MalformedMarkerArgument);
            assert_eq!(diagnostics[0].message, message);
        }
        Status::Sound => panic!("not failed"),
    }
}

fn nested_let(ident: &str, marker: Option<&str>, unique: bool) -> Stmt {
    let child = Config {
        ident: String::from(ident),
        mode: None,
        marker: marker.map(String::from),
        unique_marker: unique,
        traits: vec![String::from("Iterator")],
        types: Vec::new(),
    };
    Stmt::Local(Local {
        attrs: vec![Attr::Invocation(Ok(child))],
        pat: String::from("x"),
        init: Some(expr(ExprKind::Match {
            scrutinee: Box::new(verbatim("c")),
            arms: vec![
                arm("0", mac(marker.unwrap_or("marker"), "a")),
                arm("_", mac(marker.unwrap_or("marker"), "b")),
            ],
        })),
    })
}

fn expanded_let(ident: &str) -> Stmt {
    let inner = expr(ExprKind::Match {
        scrutinee: Box::new(verbatim("c")),
        arms: vec![
            arm("0", construct_of(ident, 0, verbatim("a"))),
            arm("_", construct_of(ident, 1, verbatim("b"))),
        ],
    });
    let item = Item::SumType {
        ident: String::from(ident),
        variants: 2,
        traits: vec![String::from("Iterator")],
        types: Vec::new(),
    };
    Stmt::Local(Local {
        attrs: Vec::new(),
        pat: String::from("x"),
        init: Some(block(vec![Stmt::Item(item), Stmt::Expr(inner)])),
    })
}

#[test]
fn nested_invocation_is_expanded_with_its_own_numbering() {
    let mut cx = root(VisitMode::Return);
    let mut e = block(vec![
        Stmt::Semi(ret(verbatim("early"))),
        nested_let("__Inner", None, false),
        Stmt::Expr(ret(verbatim("late"))),
    ]);
    Visitor::new(&mut cx).visit_expr_mut(&mut e);
    let expected = block(vec![
        Stmt::Semi(ret(construct(0, verbatim("early")))),
        expanded_let("__Inner"),
        Stmt::Expr(ret(construct(1, verbatim("late")))),
    ]);
    assert_eq!(e, expected);
    assert_eq!(cx.variant_count(), 2);
    assert!(cx.saw_nested_invocation());
    assert!(!cx.failed());
}

fn context_with_marker(ident: &str, marker: &str) -> Context {
    Context::root(Config {
        ident: String::from(ident),
        mode: Some(VisitMode::Default),
        marker: Some(String::from(marker)),
        unique_marker: true,
        traits: vec![String::from("Iterator")],
        types: Vec::new(),
    })
    .unwrap()
}

#[test]
fn marker_of_nested_invocation_is_not_taken_by_outer_pass() {
    // outer marker `m`, inner marker `n`: `n!(..)` inside the nested
    // invocation is left to it and gets a variant of its sum type, `m!(..)`
    // gets one of the outer sum type
    let mut cx = context_with_marker("__Enum", "m");
    let nested = |first: Expr, second: Expr| {
        let child = Config {
            ident: String::from("__Inner"),
            mode: None,
            marker: Some(String::from("n")),
            unique_marker: false,
            traits: vec![String::from("Iterator")],
            types: Vec::new(),
        };
        Stmt::Local(Local {
            attrs: vec![Attr::Invocation(Ok(child))],
            pat: String::from("x"),
            init: Some(expr(ExprKind::Match {
                scrutinee: Box::new(verbatim("c")),
                arms: vec![arm("0", first), arm("_", second)],
            })),
        })
    };
    let mut stmt = nested(mac("n", "v"), mac("m", "w"));
    Visitor::new(&mut cx).visit_stmt_mut(&mut stmt);
    let inner = expr(ExprKind::Match {
        scrutinee: Box::new(verbatim("c")),
        arms: vec![
            arm("0", construct_of("__Inner", 0, verbatim("v"))),
            arm("_", construct(0, verbatim("w"))),
        ],
    });
    let item = Item::SumType {
        ident: String::from("__Inner"),
        variants: 1,
        traits: vec![String::from("Iterator")],
        types: Vec::new(),
    };
    let expected = Stmt::Local(Local {
        attrs: Vec::new(),
        pat: String::from("x"),
        init: Some(block(vec![Stmt::Item(item), Stmt::Expr(inner)])),
    });
    assert_eq!(stmt, expected);
    assert_eq!(cx.variant_count(), 1);
}

#[test]
fn default_marker_inside_nested_invocation_belongs_to_it() {
    let mut cx = root(VisitMode::Default);
    let mut stmt = nested_let("__Inner", None, false);
    Visitor::new(&mut cx).visit_stmt_mut(&mut stmt);
    assert_eq!(stmt, expanded_let("__Inner"));
    assert_eq!(cx.variant_count(), 0);
    assert!(cx.saw_nested_invocation());
}

#[test]
fn every_pass_runs_the_nested_invocations_it_meets() {
    // the pass of a nested invocation, sound or failed
    for fail in [false, true] {
        let parent = root(VisitMode::Default);
        let mut cx = parent.spawn_child(config("__Mid", Some(VisitMode::Default))).unwrap();
        assert!(!cx.root);
        if fail {
            cx.mark_error(Diagnostic {
                kind: ErrorKind::MalformedMarkerArgument,
                message: String::from("earlier"),
            });
        }
        let mut stmt = nested_let("__Inner", None, false);
        Visitor::new(&mut cx).visit_stmt_mut(&mut stmt);
        assert_eq!(stmt, expanded_let("__Inner"));
        assert_eq!(cx.failed(), fail);
        assert_eq!(cx.variant_count(), 0);
    }
}

#[test]
fn stacked_invocations_are_run_from_the_outside_in() {
    let mut cx = root(VisitMode::Default);
    let mut stmt = match nested_let("__Second", None, false) {
        Stmt::Local(mut local) => {
            local.attrs.insert(0, Attr::Invocation(Ok(config("__First", None))));
            Stmt::Local(local)
        }
        other => other,
    };
    Visitor::new(&mut cx).visit_stmt_mut(&mut stmt);
    // the first attribute is taken by the pass, the second one stays on the
    // statement for the pass of the first invocation, which walks the
    // initialiser only
    let expected = match nested_let("__Second", None, false) {
        Stmt::Local(mut local) => {
            let item = Item::SumType {
                ident: String::from("__First"),
                variants: 2,
                traits: vec![String::from("Iterator")],
                types: Vec::new(),
            };
            let inner = expr(ExprKind::Match {
                scrutinee: Box::new(verbatim("c")),
                arms: vec![
                    arm("0", construct_of("__First", 0, verbatim("a"))),
                    arm("_", construct_of("__First", 1, verbatim("b"))),
                ],
            });
            local.init = Some(block(vec![Stmt::Item(item), Stmt::Expr(inner)]));
            Stmt::Local(local)
        }
        other => other,
    };
    assert_eq!(stmt, expected);
}

#[test]
fn nested_invocation_with_unsupported_trait_fails_both() {
    let mut cx = root(VisitMode::Default);
    let mut child = config("__Inner", None);
    child.traits = vec![String::from("Iterator"), String::from("Frobnicate")];
    let mut stmt = Stmt::Semi(Expr { attrs: vec![Attr::Invocation(Ok(child))], kind: ExprKind::Verbatim(String::from("x")) });
    visit_stmt_mut(&mut stmt, &mut cx);
    assert_eq!(
        stmt,
        Stmt::Expr(expr(ExprKind::CompileError(String::from(
            "trait is not supported: Frobnicate"
        ))))
    );
    match &cx.status {
        Status::Failed(d) => {
            assert_eq!(d.len(), 1);
            assert_eq!(d[0].kind, ErrorKind::UnsupportedTraitRequest);
            assert_eq!(d[0].message, "trait is not supported: Frobnicate");
        }
        Status::Sound => panic!("not failed"),
    }
}

#[test]
fn nested_invocation_with_claimed_marker_is_ambiguous() {
    let outer = Config {
        ident: String::from("__Enum"),
        mode: None,
        marker: Some(String::from("m")),
        unique_marker: true,
        traits: vec![String::from("Iterator")],
        types: Vec::new(),
    };
    let mut cx = Context::root(outer).unwrap();
    let mut stmt = nested_let("__Inner", Some("m"), false);
    visit_stmt_mut(&mut stmt, &mut cx);
    assert_eq!(
        stmt,
        Stmt::Expr(expr(ExprKind::CompileError(String::from(
            "marker is claimed by an enclosing invocation: m"
        ))))
    );
    match &cx.status {
        Status::Failed(d) => assert_eq!(d[0].kind, ErrorKind::AmbiguousMarker),
        Status::Sound => panic!("not failed"),
    }
}

#[test]
fn failure_of_nested_invocation_is_reported_to_the_enclosing_one() {
    let mut cx = root(VisitMode::Default);
    let mut stmt = Stmt::Local(Local {
        attrs: vec![Attr::Invocation(Ok(config("__Inner", None)))],
        pat: String::from("x"),
        init: Some(mac("marker", "let")),
    });
    visit_stmt_mut(&mut stmt, &mut cx);
    match &stmt {
        Stmt::Local(Local { attrs, init: Some(Expr { kind: ExprKind::CompileError(_), .. }), .. }) => {
            assert!(attrs.is_empty())
        }
        other => panic!("unexpected: {:?}", other),
    }
    match &cx.status {
        Status::Failed(d) => {
            assert_eq!(d.len(), 1);
            assert_eq!(d[0].kind, ErrorKind::NestedConfigurationError);
            assert_eq!(d[0].message, "the nested invocation failed");
        }
        Status::Sound => panic!("not failed"),
    }
}

#[test]
fn nested_invocations_are_still_run_after_an_error() {
    let mut cx = root(VisitMode::Default);
    let mut e = block(vec![
        Stmt::Semi(mac("marker", "+")),
        nested_let("__Inner", None, false),
    ]);
    Visitor::new(&mut cx).visit_expr_mut(&mut e);
    let stmts = match e.kind {
        ExprKind::Block(stmts) => stmts,
        other => panic!("not a block: {:?}", other),
    };
    assert_eq!(stmts[1], expanded_let("__Inner"));
    assert!(cx.failed());
}

#[test]
fn items_are_not_entered() {
    let mut cx = root(VisitMode::Return);
    let make = || Stmt::Item(Item::Verbatim(String::from("fn inner() -> i32 { return 1; }")));
    let mut stmt = make();
    Visitor::new(&mut cx).visit_stmt_mut(&mut stmt);
    assert_eq!(stmt, make());
    assert_eq!(cx.variant_count(), 0);
}

#[test]
fn dummy_pass_only_runs_nested_invocations() {
    let mut cx = root(VisitMode::Return);
    let mut stmt = Stmt::Expr(block(vec![
        Stmt::Semi(ret(mac("marker", "a"))),
        nested_let("__Inner", None, false),
    ]));
    Dummy::new(&mut cx).visit_stmt_mut(&mut stmt);
    let expected = Stmt::Expr(block(vec![
        Stmt::Semi(ret(mac("marker", "a"))),
        expanded_let("__Inner"),
    ]));
    assert_eq!(stmt, expected);
    assert_eq!(cx.variant_count(), 0);
    assert_eq!(cx.traits, vec![String::from("Iterator")]);
}

#[test]
fn invocation_without_traits_rewrites_nothing() {
    let mut none = config("__Enum", Some(VisitMode::Return));
    none.traits = Vec::new();
    let mut cx = Context::root(none).unwrap();
    assert!(cx.is_dummy());
    let mut e = block(vec![Stmt::Semi(ret(mac("marker", "a"))), nested_let("__Inner", None, false)]);
    expand_expr(&mut e, &mut cx);
    assert_eq!(e, block(vec![Stmt::Semi(ret(mac("marker", "a"))), expanded_let("__Inner")]));
    assert_eq!(cx.variant_count(), 0);
    assert!(!cx.idle);
    let mut stmts = vec![Stmt::Semi(ret(mac("marker", "a")))];
    expand_body(&mut stmts, &mut cx);
    assert_eq!(stmts, vec![Stmt::Semi(ret(mac("marker", "a")))]);
}

#[test]
fn the_rewriting_pass_rewrites_whatever_is_requested() {
    // which pass to run is the caller's choice
    let mut none = config("__Enum", Some(VisitMode::Return));
    none.traits = Vec::new();
    let mut cx = Context::root(none).unwrap();
    let mut e = ret(verbatim("a"));
    Visitor::new(&mut cx).visit_expr_mut(&mut e);
    assert_eq!(e, ret(construct(0, verbatim("a"))));
}

#[test]
fn function_body_gets_its_mode_and_its_declaration() {
    let mut cx = Context::root(config("__Enum", None)).unwrap();
    let mut stmts = vec![
        Stmt::Semi(try_(verbatim("a()"))),
        Stmt::Expr(ret(verbatim("b"))),
    ];
    expand_body(&mut stmts, &mut cx);
    assert_eq!(cx.visit_mode(), VisitMode::Try);
    let item = Item::SumType {
        ident: String::from("__Enum"),
        variants: 1,
        traits: vec![String::from("Iterator")],
        types: Vec::new(),
    };
    assert_eq!(
        stmts,
        vec![
            Stmt::Item(item),
            Stmt::Semi(try_match(verbatim("a()"), 0)),
            Stmt::Expr(ret(verbatim("b"))),
        ]
    );
    let mut cx = Context::root(config("__Enum", None)).unwrap();
    let mut stmts = vec![Stmt::Expr(verbatim("b"))];
    expand_body(&mut stmts, &mut cx);
    assert_eq!(cx.visit_mode(), VisitMode::Return);
    assert_eq!(stmts, vec![Stmt::Expr(verbatim("b"))]);
}

#[test]
fn nested_arguments_that_were_not_read_become_a_placeholder() {
    let mut cx = root(VisitMode::Default);
    let mut e = block(vec![
        Stmt::Semi(mac("marker", "a")),
        Stmt::Local(Local {
            attrs: vec![Attr::Invocation(Err(String::from("expected a trait")))],
            pat: String::from("x"),
            init: Some(mac("marker", "b")),
        }),
        nested_let("__Inner", None, false),
    ]);
    Visitor::new(&mut cx).visit_expr_mut(&mut e);
    let expected = block(vec![
        Stmt::Semi(construct(0, verbatim("a"))),
        Stmt::Expr(expr(ExprKind::CompileError(String::from("expected a trait")))),
        expanded_let("__Inner"),
    ]);
    assert_eq!(e, expected);
    match &cx.status {
        Status::Failed(d) => {
            assert_eq!(d.len(), 1);
            assert_eq!(d[0].kind, ErrorKind::NestedConfigurationError);
            assert_eq!(d[0].message, "expected a trait");
        }
        Status::Sound => panic!("not failed"),
    }
    assert!(cx.saw_nested_invocation());
}

#[test]
fn texts_that_the_parser_is_not_given() {
    for text in [
        "a + 1",
        "f(\"plain string\", 10, 2.5, x1)",
        "1..10",
        "vec![1, 2].into_iter()",
        "x.iter().map(|y| y + 1)",
        "\"\"",
        "",
        ")",
    ] {
        assert!(is_readable(text), "{}", text);
    }
    for text in [
        "c\"x\"",
        "b\"x\"",
        "r\"x\"",
        "r#\"x\"#",
        "(/*ERROR*/)",
        "a // b",
        "'a'",
        "\"a\\n\"",
        "1u8",
        "0x10",
        "1e5",
        "1_000",
        "\"a\"b",
        "\"open",
        "caf\u{e9}",
        "a\tb",
    ] {
        assert!(!is_readable(text), "{}", text);
    }
    assert!(is_readable(&"a".repeat(256)));
    assert!(!is_readable(&"a".repeat(257)));
}

#[test]
fn text_that_is_not_read_has_nothing_held_against_it() {
    for text in ["c\"x\"", "(/*ERROR*/)", "'a", "1e"] {
        match Expr::macro_call(String::from("marker"), String::from(text)).kind {
            ExprKind::Macro { tokens, error, .. } => {
                assert_eq!(tokens, text);
                assert_eq!(error, None);
            }
            other => panic!("not a macro: {:?}", other),
        }
    }
    let mut cx = root(VisitMode::Default);
    let mut e = mac("marker", "c\"x\"");
    Visitor::new(&mut cx).visit_expr_mut(&mut e);
    assert_eq!(e, construct(0, verbatim("c\"x\"")));
    assert!(!cx.failed());
}

#[test]
fn macro_call_keeps_what_the_parser_said() {
    match Expr::macro_call(String::from("m"), String::from("a + 1")).kind {
        ExprKind::Macro { path, tokens, error } => {
            assert_eq!(path, "m");
            assert_eq!(tokens, "a + 1");
            assert_eq!(error, None);
        }
        other => panic!("not a macro: {:?}", other),
    }
    match Expr::macro_call(String::from("m"), String::from(")")).kind {
        ExprKind::Macro { tokens, error, .. } => {
            assert_eq!(tokens, ")");
            assert_eq!(error.as_deref(), Some("lex error"));
        }
        other => panic!("not a macro: {:?}", other),
    }
}

#[test]
fn closure_body_with_try_is_expanded_in_try_mode() {
    let mut cx = Context::root(config("__Enum", None)).unwrap();
    let mut e = closure(block(vec![
        Stmt::Semi(try_(verbatim("a()"))),
        Stmt::Expr(ret(verbatim("b"))),
    ]));
    expand_expr(&mut e, &mut cx);
    assert_eq!(cx.visit_mode(), VisitMode::Try);
    let item = Item::SumType {
        ident: String::from("__Enum"),
        variants: 1,
        traits: vec![String::from("Iterator")],
        types: Vec::new(),
    };
    let expected = block(vec![
        Stmt::Item(item),
        Stmt::Expr(closure(block(vec![
            Stmt::Semi(try_match(verbatim("a()"), 0)),
            Stmt::Expr(ret(verbatim("b"))),
        ]))),
    ]);
    assert_eq!(e, expected);
}

#[test]
fn closure_body_without_try_is_expanded_in_return_mode() {
    let mut cx = Context::root(config("__Enum", None)).unwrap();
    let mut stmt = Stmt::Semi(closure(block(vec![
        Stmt::Semi(ret(verbatim("a"))),
        Stmt::Expr(ret(verbatim("b"))),
    ])));
    expand_stmt(&mut stmt, &mut cx);
    assert_eq!(cx.visit_mode(), VisitMode::Return);
    assert_eq!(cx.variant_count(), 2);
}

#[test]
fn pinned_mode_is_kept() {
    let mut cx = Context::root(config("__Enum", Some(VisitMode::Default))).unwrap();
    let make = || closure(try_(verbatim("a()")));
    let mut e = make();
    expand_expr(&mut e, &mut cx);
    assert_eq!(cx.visit_mode(), VisitMode::Default);
    assert_eq!(e, make());
}

#[test]
fn unsupported_trait_is_rejected_by_name() {
    let mut c = config("__Enum", None);
    c.traits = vec![String::from("Iterator"), String::from("Nope"), String::from("Neither")];
    let d = Context::root(c).unwrap_err();
    assert_eq!(d.kind, ErrorKind::UnsupportedTraitRequest);
    assert_eq!(d.message, "trait is not supported: Nope");
}

#[test]
fn child_context_starts_from_zero_and_leaves_parent_alone() {
    let mut parent = root(VisitMode::Return);
    let mut e = ret(verbatim("a"));
    Visitor::new(&mut parent).visit_expr_mut(&mut e);
    let child = parent.spawn_child(config("__Inner", None)).unwrap();
    assert_eq!(child.variant_count(), 0);
    assert!(!child.root);
    assert_eq!(parent.variant_count(), 1);
    let mut e = ret(verbatim("b"));
    Visitor::new(&mut parent).visit_expr_mut(&mut e);
    assert_eq!(e, ret(construct(1, verbatim("b"))));
}

#[test]
fn written_down_types_are_handed_to_the_declaration() {
    let mut c = config("__Enum", Some(VisitMode::Default));
    c.types = vec![String::from("A"), String::from("B")];
    let mut cx = Context::root(c).unwrap();
    let mut e = mac("marker", "a");
    expand_expr(&mut e, &mut cx);
    let item = Item::SumType {
        ident: String::from("__Enum"),
        variants: 1,
        traits: vec![String::from("Iterator")],
        types: vec![String::from("A"), String::from("B")],
    };
    assert_eq!(e, block(vec![Stmt::Item(item), Stmt::Expr(construct(0, verbatim("a")))]));
}

/// A small generator of texts, the same on every run.
struct Texts(u64);

impl Texts {
    fn next(&mut self) -> u64 {
        self.0 ^= self.0 << 13;
        self.0 ^= self.0 >> 7;
        self.0 ^= self.0 << 17;
        self.0
    }

    fn text(&mut self, pieces: &[&str]) -> String {
        let len = self.next() % 12;
        (0..len).map(|_| pieces[(self.next() % pieces.len() as u64) as usize]).collect()
    }
}

#[test]
fn every_readable_text_is_read_to_the_end() {
    // pieces that make up literals, operators and delimiters of every kind
    let pieces = [
        "a", "x1", "_", "0", "1", "9", "12", ".", "..", "..=", " ", "\"", "\"s\"", "\"a b\"", "+",
        "-", "*", "/", "%", "!", "&", "|", "^", "<", ">", "=", "==", "=>", "->", "::", ":", ";",
        ",", "?", "#", "$", "@", "~", "(", ")", "[", "]", "{", "}", "if", "else", "match", "let",
        "true", "false", "fn", "move", "as", "u8", "f32", "e", "E", "r", "b", "c", "0.5", "1.",
        "!(", "|x|", "<T>", "mut", "ref", "loop", "while", "for", "in", "return", "break",
        "async", "await", "unsafe", "try", "dyn", "impl", "'", "\\", "//", "/*", "*/", "0x", "1e",
    ];
    let mut texts = Texts(0x2545F4914F6CDD1D);
    let mut read = 0;
    for _ in 0..60_000 {
        let text = texts.text(&pieces);
        if is_readable(&text) {
            read += 1;
            match Expr::macro_call(String::from("marker"), text.clone()).kind {
                ExprKind::Macro { tokens, .. } => assert_eq!(tokens, text),
                other => panic!("not a macro: {:?}", other),
            }
        }
    }
    assert!(read > 10_000, "{}", read);
}

fn unread(path: &str, tokens: &str) -> Expr {
    expr(ExprKind::Macro { path: String::from(path), tokens: String::from(tokens), error: None })
}

fn read(path: &str, tokens: &str, error: &str) -> Expr {
    expr(ExprKind::Macro {
        path: String::from(path),
        tokens: String::from(tokens),
        error: Some(String::from(error)),
    })
}

#[test]
fn only_the_arguments_of_markers_in_scope_are_read() {
    let cx = root(VisitMode::Default);
    let inner = Config {
        ident: String::from("__Inner"),
        mode: None,
        marker: Some(String::from("n")),
        unique_marker: false,
        traits: vec![String::from("Iterator")],
        types: Vec::new(),
    };
    let make = |marker: fn(&str, &str) -> Expr, covered: fn(&str, &str) -> Expr| {
        vec![
            // a marker of the invocation, and macros that are none
            Stmt::Semi(marker("marker", "+")),
            Stmt::Semi(unread("println", "+")),
            Stmt::Semi(unread("n", "+")),
            // what a nested invocation covers
            Stmt::Local(Local {
                attrs: vec![Attr::Invocation(Ok(Config {
                    ident: inner.ident.clone(),
                    mode: None,
                    marker: inner.marker.clone(),
                    unique_marker: false,
                    traits: inner.traits.clone(),
                    types: Vec::new(),
                }))],
                pat: String::from("x"),
                init: Some(block(vec![
                    Stmt::Semi(covered("n", "+")),
                    Stmt::Expr(marker("marker", "+")),
                ])),
            }),
            // behind it the marker of the nested invocation means nothing
            Stmt::Semi(unread("n", "+")),
            // an attribute that was not read names no marker
            Stmt::Local(Local {
                attrs: vec![Attr::Invocation(Err(String::from("bad")))],
                pat: String::from("y"),
                init: Some(unread("n", "+")),
            }),
            Stmt::Item(Item::Verbatim(String::from("fn f() { marker!(+) }"))),
        ]
    };
    let mut stmts = make(|p, t| unread(p, t), |p, t| unread(p, t));
    read_markers(&mut stmts, &cx);
    let found = |p: &str, t: &str| read(p, t, "expected expression");
    assert_eq!(stmts, make(found, found));
    // what is held against an argument stays
    let mut stmts = vec![Stmt::Expr(read("marker", "a", "kept"))];
    read_markers(&mut stmts, &cx);
    assert_eq!(stmts, vec![Stmt::Expr(read("marker", "a", "kept"))]);
    // a text that the parser is not given has nothing held against it
    let mut stmt = Stmt::Expr(unread("marker", "c\"x\""));
    read_markers_of_stmt(&mut stmt, &cx);
    assert_eq!(stmt, Stmt::Expr(unread("marker", "c\"x\"")));
}

#[test]
fn body_is_read_and_then_rewritten() {
    let mut cx = Context::root(config("__Enum", None)).unwrap();
    let mut stmts = vec![
        Stmt::Semi(unread("marker", "a")),
        Stmt::Semi(unread("marker", "a b")),
        Stmt::Expr(try_(verbatim("x"))),
    ];
    read_and_expand_body(&mut stmts, &mut cx);
    let item = Item::SumType {
        ident: String::from("__Enum"),
        variants: 1,
        traits: vec![String::from("Iterator")],
        types: Vec::new(),
    };
    // the scan has found the `?`, the pass has failed before it
    assert_eq!(cx.visit_mode(), VisitMode::Try);
    assert_eq!(
        stmts,
        vec![
            Stmt::Item(item),
            Stmt::Semi(construct(0, verbatim("a"))),
            Stmt::Semi(expr(ExprKind::CompileError(String::from("unexpected token")))),
            Stmt::Expr(try_(verbatim("x"))),
        ]
    );
    assert!(cx.failed());
}

#[test]
fn statement_is_read_and_then_rewritten() {
    let mut cx = root(VisitMode::Default);
    let mut stmt = Stmt::Semi(unread("marker", "a +"));
    read_and_expand_stmt(&mut stmt, &mut cx);
    match stmt {
        Stmt::Semi(Expr { kind: ExprKind::CompileError(_), .. }) => {}
        other => panic!("not a placeholder: {:?}", other),
    }
    assert!(cx.failed());
    let mut cx = root(VisitMode::Default);
    let mut stmt = Stmt::Semi(unread("marker", "a + b"));
    read_and_expand_stmt(&mut stmt, &mut cx);
    let item = Item::SumType {
        ident: String::from("__Enum"),
        variants: 1,
        traits: vec![String::from("Iterator")],
        types: Vec::new(),
    };
    assert_eq!(
        stmt,
        Stmt::Semi(block(vec![Stmt::Item(item), Stmt::Expr(construct(0, verbatim("a + b")))]))
    );
}
