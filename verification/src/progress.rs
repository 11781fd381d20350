//! What every pass keeps: the configuration of its invocation, the variants
//! handed out before, and a failure once it is recorded.

use vstd::prelude::*;

use crate::context::{ContextView, Site};
use crate::semantics::{
    leave_expr, note_invocation, return_site, try_site, visit_arm, visit_arms, visit_children,
    visit_expr, visit_exprs, visit_local, visit_return, visit_stmt, visit_stmts, visit_try, Scope,
};
use crate::syntax::{ArmView, ExprKindView, ExprView, LocalView, StmtView, VisitMode};

verus! {

/// `b` starts with `a`.
pub open spec fn extends(a: Seq<Site>, b: Seq<Site>) -> bool {
    &&& a.len() <= b.len()
    &&& forall|i: int| 0 <= i < a.len() ==> b[i] == a[i]
}

/// The variants that a pass may hand out at a place: one for a marker
/// macro anywhere, one for the early exit of its mode outside closures.
pub open spec fn may_hand_out(mode: VisitMode, closure: bool, site: Site) -> bool {
    ||| site == Site::Marker
    ||| !closure && mode == VisitMode::Return && site == Site::Return
    ||| !closure && mode == VisitMode::Try && site == Site::Try
}

/// `b` is a state that a pass can leave when it starts with `a` at a place
/// that is inside a closure if `closure` says so.
pub open spec fn progress(a: ContextView, closure: bool, b: ContextView) -> bool {
    &&& a.same_settings(b)
    &&& extends(a.variants, b.variants)
    &&& a.failed() ==> b.failed()
    &&& a.other_attr ==> b.other_attr
    &&& a.rewrites() || b.variants == a.variants
    &&& forall|i: int|
        a.variants.len() <= i < b.variants.len() ==> may_hand_out(
            a.visit_mode,
            closure,
            #[trigger] b.variants[i],
        )
}

/// A pass can go on from what a pass has left.
pub proof fn lemma_progress_transitive(
    a: ContextView,
    b: ContextView,
    c: ContextView,
    closure: bool,
)
    requires
        progress(a, closure, b),
        progress(b, closure, c),
    ensures
        progress(a, closure, c),
{
    assert forall|i: int| a.variants.len() <= i < c.variants.len() implies may_hand_out(
        a.visit_mode,
        closure,
        #[trigger] c.variants[i],
    ) by {
        if i < b.variants.len() {
            assert(c.variants[i] == b.variants[i]);
        }
    }
}

/// The way back up out of an expression is progress.
pub proof fn lemma_leave_expr_progress(cx: ContextView, scope: Scope, e: ExprView)
    ensures
        progress(cx, scope.closure, leave_expr(cx, scope, e).0),
{
    reveal(leave_expr);
}

/// The pass over an expression is progress; the lemmas after this one say
/// the same of the pass over each other part of a body.
pub proof fn lemma_visit_expr_progress(cx: ContextView, scope: Scope, e: ExprView)
    ensures
        progress(cx, scope.closure, visit_expr(cx, scope, e).0),
    decreases e, 2int,
{
    if !cx.rewrites() {
        lemma_visit_children_progress(cx, scope, e);
    } else {
        let cx1 = note_invocation(cx, e.attrs);
        let scope1 = scope.enter(e);
        let cx2 = if return_site(cx1, scope1, e) {
            lemma_visit_return_progress(cx1, scope1, e);
            visit_return(cx1, scope1, e).0
        } else if try_site(cx1, scope1, e) {
            lemma_visit_try_progress(cx1, scope1, e);
            visit_try(cx1, scope1, e).0
        } else {
            lemma_visit_children_progress(cx1, scope1, e);
            visit_children(cx1, scope1, e).0
        };
        let e2 = if return_site(cx1, scope1, e) {
            visit_return(cx1, scope1, e).1
        } else if try_site(cx1, scope1, e) {
            visit_try(cx1, scope1, e).1
        } else {
            visit_children(cx1, scope1, e).1
        };
        assert(progress(cx, scope.closure, cx1));
        assert(progress(cx1, scope.closure, cx2));
        lemma_leave_expr_progress(cx2, scope1, e2);
        let cx3 = leave_expr(cx2, scope1, e2).0;
        assert(progress(cx2, scope.closure, cx3));
        lemma_progress_transitive(cx, cx1, cx2, scope.closure);
        lemma_progress_transitive(cx, cx2, cx3, scope.closure);
        assert(visit_expr(cx, scope, e).0 == cx3);
    }
}

pub proof fn lemma_visit_return_progress(cx: ContextView, scope: Scope, e: ExprView)
    requires
        cx.visit_mode == VisitMode::Return,
        cx.rewrites(),
        !scope.closure,
    ensures
        progress(cx, scope.closure, visit_return(cx, scope, e).0),
    decreases e, 1int,
{
    match e.kind {
        ExprKindView::Return(Some(payload)) => {
            lemma_visit_expr_progress(cx.allocated(Site::Return), scope, *payload);
        },
        _ => {},
    }
}

pub proof fn lemma_visit_try_progress(cx: ContextView, scope: Scope, e: ExprView)
    requires
        cx.visit_mode == VisitMode::Try,
        cx.rewrites(),
        !scope.closure,
    ensures
        progress(cx, scope.closure, visit_try(cx, scope, e).0),
    decreases e, 1int,
{
    match e.kind {
        ExprKindView::Try(inner) => {
            lemma_visit_expr_progress(cx.allocated(Site::Try), scope, *inner);
        },
        _ => {},
    }
}

pub proof fn lemma_visit_children_progress(cx: ContextView, scope: Scope, e: ExprView)
    ensures
        progress(cx, scope.closure, visit_children(cx, scope, e).0),
    decreases e, 1int,
{
    match e.kind {
        ExprKindView::Return(Some(payload)) => {
            lemma_visit_expr_progress(cx, scope, *payload);
        },
        ExprKindView::Try(inner) => {
            lemma_visit_expr_progress(cx, scope, *inner);
        },
        ExprKindView::Closure { body, .. } => {
            lemma_visit_expr_progress(cx, scope, *body);
        },
        ExprKindView::TryBlock(stmts) => {
            lemma_visit_stmts_progress(cx, scope, stmts);
        },
        ExprKindView::Block(stmts) => {
            lemma_visit_stmts_progress(cx, scope, stmts);
        },
        ExprKindView::Match { scrutinee, arms } => {
            lemma_visit_expr_progress(cx, scope, *scrutinee);
            lemma_visit_arms_progress(visit_expr(cx, scope, *scrutinee).0, scope, arms);
        },
        ExprKindView::Call { func, args } => {
            lemma_visit_expr_progress(cx, scope, *func);
            lemma_visit_exprs_progress(visit_expr(cx, scope, *func).0, scope, args);
        },
        ExprKindView::Construct { payload, .. } => {
            lemma_visit_expr_progress(cx, scope, *payload);
        },
        ExprKindView::Other { children, .. } => {
            lemma_visit_exprs_progress(cx, scope, children);
        },
        _ => {},
    }
}

pub proof fn lemma_visit_exprs_progress(
    cx: ContextView,
    scope: Scope,
    es: Seq<ExprView>,
)
    ensures
        progress(cx, scope.closure, visit_exprs(cx, scope, es).0),
    decreases es, 0int,
{
    if es.len() > 0 {
        lemma_visit_exprs_progress(cx, scope, es.drop_last());
        lemma_visit_expr_progress(
            visit_exprs(cx, scope, es.drop_last()).0,
            scope,
            es.last(),
        );
    }
}

pub proof fn lemma_visit_arm_progress(cx: ContextView, scope: Scope, arm: ArmView)
    ensures
        progress(cx, scope.closure, visit_arm(cx, scope, arm).0),
    decreases arm, 0int,
{
    let cx1 = match arm.guard {
        Some(g) => {
            lemma_visit_expr_progress(cx, scope, *g);
            visit_expr(cx, scope, *g).0
        },
        None => cx,
    };
    lemma_visit_expr_progress(cx1, scope, *arm.body);
}

pub proof fn lemma_visit_arms_progress(
    cx: ContextView,
    scope: Scope,
    arms: Seq<ArmView>,
)
    ensures
        progress(cx, scope.closure, visit_arms(cx, scope, arms).0),
    decreases arms, 0int,
{
    if arms.len() > 0 {
        lemma_visit_arms_progress(cx, scope, arms.drop_last());
        lemma_visit_arm_progress(
            visit_arms(cx, scope, arms.drop_last()).0,
            scope,
            arms.last(),
        );
    }
}

pub proof fn lemma_visit_local_progress(cx: ContextView, scope: Scope, local: LocalView)
    ensures
        progress(cx, scope.closure, visit_local(cx, scope, local).0),
    decreases local, 0int,
{
    let cx1 = if cx.rewrites() {
        note_invocation(cx, local.attrs)
    } else {
        cx
    };
    let scope1 = if cx.rewrites() {
        scope.enter_attrs(local.attrs)
    } else {
        scope
    };
    match local.init {
        Some(e) => {
            lemma_visit_expr_progress(cx1, scope1, *e);
        },
        None => {},
    }
}

pub proof fn lemma_visit_stmt_progress(cx: ContextView, scope: Scope, stmt: StmtView)
    ensures
        progress(cx, scope.closure, visit_stmt(cx, scope, stmt).0),
    decreases stmt, 1int,
{
    reveal(crate::semantics::expand_nested);
    match stmt {
        StmtView::Local(local) => {
            lemma_visit_local_progress(cx, scope, local);
        },
        StmtView::Item(_) => {},
        StmtView::Expr(e) => {
            lemma_visit_expr_progress(cx, scope, e);
        },
        StmtView::Semi(e) => {
            lemma_visit_expr_progress(cx, scope, e);
        },
    }
}

pub proof fn lemma_visit_stmts_progress(
    cx: ContextView,
    scope: Scope,
    stmts: Seq<StmtView>,
)
    ensures
        progress(cx, scope.closure, visit_stmts(cx, scope, stmts).0),
    decreases stmts, 0int,
{
    if stmts.len() > 0 {
        lemma_visit_stmts_progress(cx, scope, stmts.drop_last());
        lemma_visit_stmt_progress(
            visit_stmts(cx, scope, stmts.drop_last()).0,
            scope,
            stmts.last(),
        );
    }
}

} // verus!
