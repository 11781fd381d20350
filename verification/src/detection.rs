//! The scan for `?` finds one exactly where a pass in try mode rewrites one.

use vstd::prelude::*;

use crate::context::{ContextView, Site};
use crate::progress::{
    lemma_leave_expr_progress, lemma_visit_arm_progress, lemma_visit_arms_progress,
    lemma_visit_children_progress, lemma_visit_expr_progress, lemma_visit_exprs_progress,
    lemma_visit_stmt_progress, lemma_visit_stmts_progress, lemma_visit_try_progress, progress,
};
use crate::semantics::{
    find_try_arm, find_try_arms, find_try_children, find_try_expr, find_try_exprs, find_try_local,
    find_try_stmt, find_try_stmts, leave_expr, note_invocation, return_site, try_site, visit_arm,
    visit_arms, visit_children, visit_expr, visit_exprs, visit_local, visit_stmt, visit_stmts,
    visit_try, Scope,
};
use crate::single::{
    lemma_single_stmt, single_arm, single_arms, single_expr, single_exprs, single_local,
    single_stmt, single_stmts,
};
use crate::syntax::{ArmView, ExprKindView, ExprView, LocalView, StmtView, VisitMode};

verus! {

/// A variant was handed out for a `?` between the states `a` and `b`.
pub open spec fn rewrote_try(a: ContextView, b: ContextView) -> bool {
    exists|i: int| a.variants.len() <= i < b.variants.len() && b.variants[i] == Site::Try
}

/// A pass from `a` over `b` to `c` has rewritten a `?` exactly if one of
/// its two parts has.
proof fn lemma_rewrote_try_split(a: ContextView, b: ContextView, c: ContextView, closure: bool)
    requires
        progress(a, closure, b),
        progress(b, closure, c),
    ensures
        rewrote_try(a, c) <==> rewrote_try(a, b) || rewrote_try(b, c),
        progress(a, closure, c),
{
    crate::progress::lemma_progress_transitive(a, b, c, closure);
    if rewrote_try(a, b) {
        let i = choose|i: int|
            a.variants.len() <= i < b.variants.len() && b.variants[i] == Site::Try;
        assert(c.variants[i] == b.variants[i]);
    }
    if rewrote_try(a, c) {
        let i = choose|i: int|
            a.variants.len() <= i < c.variants.len() && c.variants[i] == Site::Try;
        if i < b.variants.len() {
            assert(c.variants[i] == b.variants[i]);
        }
    }
}

/// What a pass with these settings can be asked about.
pub open spec fn in_try_mode(cx: ContextView, scope: Scope) -> bool {
    &&& cx.visit_mode == VisitMode::Try
    &&& cx.rewrites()
    &&& !scope.foreign
}

/// The scan for `?` says yes exactly if a pass in try mode over the same
/// body rewrites at least one `?`.  This holds of a body in which no nested
/// invocation starts, and which the pass gets through without an error.
pub proof fn law_scan_agrees_with_pass(cx: ContextView, scope: Scope, e: ExprView)
    requires
        in_try_mode(cx, scope),
        single_expr(e),
        !visit_expr(cx, scope, e).0.failed(),
    ensures
        find_try_expr(cx.marker.ident, scope, e) <==> rewrote_try(
            cx,
            visit_expr(cx, scope, e).0,
        ),
{
    lemma_scan_expr(cx, scope, e);
}

proof fn lemma_scan_expr(cx: ContextView, scope: Scope, e: ExprView)
    requires
        in_try_mode(cx, scope),
        single_expr(e),
        !visit_expr(cx, scope, e).0.failed(),
    ensures
        find_try_expr(cx.marker.ident, scope, e) <==> rewrote_try(
            cx,
            visit_expr(cx, scope, e).0,
        ),
    decreases e, 2int,
{
    let marker = cx.marker.ident;
    let scope1 = scope.enter(e);
    assert(note_invocation(cx, e.attrs) == cx);
    assert(!return_site(cx, scope1, e));
    let here = try_site(cx, scope1, e);
    let (cx2, e2) = if here {
        visit_try(cx, scope1, e)
    } else {
        visit_children(cx, scope1, e)
    };
    let (cx3, e3) = leave_expr(cx2, scope1, e2);
    assert(visit_expr(cx, scope, e) == (cx3, e3));
    lemma_leave_expr_progress(cx2, scope1, e2);
    assert(cx3.variants == cx2.variants || cx3.variants == cx2.variants.push(Site::Marker)) by {
        reveal(leave_expr);
    }
    assert(rewrote_try(cx2, cx3) == false);
    if here {
        lemma_visit_try_progress(cx, scope1, e);
        lemma_rewrote_try_split(cx, cx2, cx3, scope.closure);
        let first = cx.allocated(Site::Try);
        lemma_visit_expr_progress(first, scope1, *e.kind->Try_0);
        assert(cx2.variants[cx.variants.len() as int] == first.variants[cx.variants.len() as int]);
        assert(rewrote_try(cx, cx2));
    } else {
        lemma_visit_children_progress(cx, scope1, e);
        lemma_rewrote_try_split(cx, cx2, cx3, scope1.closure);
        lemma_scan_children(cx, scope1, e);
    }
}

proof fn lemma_scan_children(cx: ContextView, scope: Scope, e: ExprView)
    requires
        in_try_mode(cx, scope),
        single_expr(e),
        !visit_children(cx, scope, e).0.failed(),
    ensures
        find_try_children(cx.marker.ident, scope, e) <==> rewrote_try(
            cx,
            visit_children(cx, scope, e).0,
        ),
    decreases e, 1int,
{
    match e.kind {
        ExprKindView::Return(Some(payload)) => {
            lemma_scan_expr(cx, scope, *payload);
        },
        ExprKindView::Try(inner) => {
            lemma_scan_expr(cx, scope, *inner);
        },
        ExprKindView::Closure { body, .. } => {
            lemma_scan_expr(cx, scope, *body);
        },
        ExprKindView::TryBlock(stmts) => {
            lemma_scan_stmts(cx, scope, stmts);
        },
        ExprKindView::Block(stmts) => {
            lemma_scan_stmts(cx, scope, stmts);
        },
        ExprKindView::Match { scrutinee, arms } => {
            let cx1 = visit_expr(cx, scope, *scrutinee).0;
            let cx2 = visit_arms(cx1, scope, arms).0;
            lemma_visit_expr_progress(cx, scope, *scrutinee);
            lemma_visit_arms_progress(cx1, scope, arms);
            lemma_rewrote_try_split(cx, cx1, cx2, scope.closure);
            lemma_scan_expr(cx, scope, *scrutinee);
            lemma_scan_arms(cx1, scope, arms);
        },
        ExprKindView::Call { func, args } => {
            let cx1 = visit_expr(cx, scope, *func).0;
            let cx2 = visit_exprs(cx1, scope, args).0;
            lemma_visit_expr_progress(cx, scope, *func);
            lemma_visit_exprs_progress(cx1, scope, args);
            lemma_rewrote_try_split(cx, cx1, cx2, scope.closure);
            lemma_scan_expr(cx, scope, *func);
            lemma_scan_exprs(cx1, scope, args);
        },
        ExprKindView::Construct { payload, .. } => {
            lemma_scan_expr(cx, scope, *payload);
        },
        ExprKindView::Other { children, .. } => {
            lemma_scan_exprs(cx, scope, children);
        },
        _ => {},
    }
}

proof fn lemma_scan_exprs(cx: ContextView, scope: Scope, es: Seq<ExprView>)
    requires
        in_try_mode(cx, scope),
        single_exprs(es),
        !visit_exprs(cx, scope, es).0.failed(),
    ensures
        find_try_exprs(cx.marker.ident, scope, es) <==> rewrote_try(
            cx,
            visit_exprs(cx, scope, es).0,
        ),
    decreases es, 0int,
{
    let marker = cx.marker.ident;
    if es.len() > 0 {
        let init = es.drop_last();
        let cx1 = visit_exprs(cx, scope, init).0;
        let cx2 = visit_expr(cx1, scope, es.last()).0;
        lemma_visit_exprs_progress(cx, scope, init);
        lemma_visit_expr_progress(cx1, scope, es.last());
        lemma_rewrote_try_split(cx, cx1, cx2, scope.closure);
        assert forall|i: int| 0 <= i < init.len() implies single_expr(#[trigger] init[i]) by {
            assert(init[i] == es[i]);
        }
        lemma_scan_exprs(cx, scope, init);
        lemma_scan_expr(cx1, scope, es.last());
        if find_try_exprs(marker, scope, es) {
            let i = choose|i: int| 0 <= i < es.len() && find_try_expr(marker, scope, es[i]);
            if i < init.len() {
                assert(init[i] == es[i]);
            }
        }
        if find_try_exprs(marker, scope, init) {
            let i = choose|i: int| 0 <= i < init.len() && find_try_expr(marker, scope, init[i]);
            assert(init[i] == es[i]);
        }
    }
}

proof fn lemma_scan_arm(cx: ContextView, scope: Scope, arm: ArmView)
    requires
        in_try_mode(cx, scope),
        single_arm(arm),
        !visit_arm(cx, scope, arm).0.failed(),
    ensures
        find_try_arm(cx.marker.ident, scope, arm) <==> rewrote_try(
            cx,
            visit_arm(cx, scope, arm).0,
        ),
    decreases arm, 0int,
{
    let cx1 = match arm.guard {
        Some(g) => visit_expr(cx, scope, *g).0,
        None => cx,
    };
    let cx2 = visit_expr(cx1, scope, *arm.body).0;
    match arm.guard {
        Some(g) => {
            lemma_visit_expr_progress(cx, scope, *g);
        },
        None => {},
    }
    lemma_visit_expr_progress(cx1, scope, *arm.body);
    lemma_rewrote_try_split(cx, cx1, cx2, scope.closure);
    match arm.guard {
        Some(g) => {
            lemma_scan_expr(cx, scope, *g);
        },
        None => {},
    }
    lemma_scan_expr(cx1, scope, *arm.body);
}

proof fn lemma_scan_arms(cx: ContextView, scope: Scope, arms: Seq<ArmView>)
    requires
        in_try_mode(cx, scope),
        single_arms(arms),
        !visit_arms(cx, scope, arms).0.failed(),
    ensures
        find_try_arms(cx.marker.ident, scope, arms) <==> rewrote_try(
            cx,
            visit_arms(cx, scope, arms).0,
        ),
    decreases arms, 0int,
{
    let marker = cx.marker.ident;
    if arms.len() > 0 {
        let init = arms.drop_last();
        let cx1 = visit_arms(cx, scope, init).0;
        let cx2 = visit_arm(cx1, scope, arms.last()).0;
        lemma_visit_arms_progress(cx, scope, init);
        lemma_visit_arm_progress(cx1, scope, arms.last());
        lemma_rewrote_try_split(cx, cx1, cx2, scope.closure);
        assert forall|i: int| 0 <= i < init.len() implies single_arm(#[trigger] init[i]) by {
            assert(init[i] == arms[i]);
        }
        lemma_scan_arms(cx, scope, init);
        lemma_scan_arm(cx1, scope, arms.last());
        if find_try_arms(marker, scope, arms) {
            let i = choose|i: int| 0 <= i < arms.len() && find_try_arm(marker, scope, arms[i]);
            if i < init.len() {
                assert(init[i] == arms[i]);
            }
        }
        if find_try_arms(marker, scope, init) {
            let i = choose|i: int| 0 <= i < init.len() && find_try_arm(marker, scope, init[i]);
            assert(init[i] == arms[i]);
        }
    }
}

proof fn lemma_scan_local(cx: ContextView, scope: Scope, local: LocalView)
    requires
        in_try_mode(cx, scope),
        single_local(local),
        !visit_local(cx, scope, local).0.failed(),
    ensures
        find_try_local(cx.marker.ident, scope, local) <==> rewrote_try(
            cx,
            visit_local(cx, scope, local).0,
        ),
    decreases local, 0int,
{
    assert(note_invocation(cx, local.attrs) == cx);
    assert(scope.enter_attrs(local.attrs) == scope);
    match local.init {
        Some(e) => {
            lemma_scan_expr(cx, scope, *e);
        },
        None => {},
    }
}

proof fn lemma_scan_stmt(cx: ContextView, scope: Scope, stmt: StmtView)
    requires
        in_try_mode(cx, scope),
        single_stmt(stmt),
        !visit_stmt(cx, scope, stmt).0.failed(),
    ensures
        find_try_stmt(cx.marker.ident, scope, stmt) <==> rewrote_try(
            cx,
            visit_stmt(cx, scope, stmt).0,
        ),
    decreases stmt, 1int,
{
    lemma_single_stmt(cx, scope, stmt);
    match stmt {
        StmtView::Local(local) => {
            lemma_scan_local(cx, scope, local);
        },
        StmtView::Item(_) => {},
        StmtView::Expr(e) => {
            lemma_scan_expr(cx, scope, e);
        },
        StmtView::Semi(e) => {
            lemma_scan_expr(cx, scope, e);
        },
    }
}

proof fn lemma_scan_stmts(cx: ContextView, scope: Scope, stmts: Seq<StmtView>)
    requires
        in_try_mode(cx, scope),
        single_stmts(stmts),
        !visit_stmts(cx, scope, stmts).0.failed(),
    ensures
        find_try_stmts(cx.marker.ident, scope, stmts) <==> rewrote_try(
            cx,
            visit_stmts(cx, scope, stmts).0,
        ),
    decreases stmts, 0int,
{
    let marker = cx.marker.ident;
    if stmts.len() > 0 {
        let init = stmts.drop_last();
        let cx1 = visit_stmts(cx, scope, init).0;
        let cx2 = visit_stmt(cx1, scope, stmts.last()).0;
        lemma_visit_stmts_progress(cx, scope, init);
        lemma_visit_stmt_progress(cx1, scope, stmts.last());
        lemma_rewrote_try_split(cx, cx1, cx2, scope.closure);
        assert forall|i: int| 0 <= i < init.len() implies single_stmt(#[trigger] init[i]) by {
            assert(init[i] == stmts[i]);
        }
        lemma_scan_stmts(cx, scope, init);
        lemma_scan_stmt(cx1, scope, stmts.last());
        if find_try_stmts(marker, scope, stmts) {
            let i = choose|i: int| 0 <= i < stmts.len() && find_try_stmt(marker, scope, stmts[i]);
            if i < init.len() {
                assert(init[i] == stmts[i]);
            }
        }
        if find_try_stmts(marker, scope, init) {
            let i = choose|i: int| 0 <= i < init.len() && find_try_stmt(marker, scope, init[i]);
            assert(init[i] == stmts[i]);
        }
    }
}

} // verus!
