//! Bodies in which no nested invocation starts.

use vstd::prelude::*;

use crate::context::ContextView;
use crate::semantics::{
    leave_expr, note_invocation, return_site, take_invocation, try_site, visit_children, visit_expr,
    visit_local, visit_return, visit_stmt, visit_try, Scope,
};
use crate::weight::{lemma_walk_stmt_weight, walk_stmt};
use crate::syntax::{
    any_invocation, first_index, first_invocation, lemma_first_index_found, without_annotations,
    ArmView, AttrView, ExprKindView, ExprView, LocalView, StmtView,
};

verus! {

/// Nothing in `e` starts a nested invocation.
pub open spec fn single_expr(e: ExprView) -> bool
    decreases e, 1int,
{
    &&& !any_invocation(e.attrs)
    &&& match e.kind {
        ExprKindView::Return(Some(payload)) => single_expr(*payload),
        ExprKindView::Try(inner) => single_expr(*inner),
        ExprKindView::Closure { body, .. } => single_expr(*body),
        ExprKindView::TryBlock(stmts) => single_stmts(stmts),
        ExprKindView::Block(stmts) => single_stmts(stmts),
        ExprKindView::Match { scrutinee, arms } => single_expr(*scrutinee) && single_arms(arms),
        ExprKindView::Call { func, args } => single_expr(*func) && single_exprs(args),
        ExprKindView::Construct { payload, .. } => single_expr(*payload),
        ExprKindView::Other { children, .. } => single_exprs(children),
        _ => true,
    }
}

pub open spec fn single_exprs(es: Seq<ExprView>) -> bool
    decreases es, 0int,
{
    forall|i: int| 0 <= i < es.len() ==> single_expr(#[trigger] es[i])
}

pub open spec fn single_arm(arm: ArmView) -> bool
    decreases arm, 0int,
{
    &&& arm.guard matches Some(g) ==> single_expr(*g)
    &&& single_expr(*arm.body)
}

pub open spec fn single_arms(arms: Seq<ArmView>) -> bool
    decreases arms, 0int,
{
    forall|i: int| 0 <= i < arms.len() ==> single_arm(#[trigger] arms[i])
}

pub open spec fn single_local(local: LocalView) -> bool
    decreases local, 0int,
{
    &&& !any_invocation(local.attrs)
    &&& local.init matches Some(e) ==> single_expr(*e)
}

pub open spec fn single_stmt(stmt: StmtView) -> bool
    decreases stmt, 1int,
{
    match stmt {
        StmtView::Local(local) => single_local(local),
        StmtView::Item(_) => true,
        StmtView::Expr(e) => single_expr(e),
        StmtView::Semi(e) => single_expr(e),
    }
}

pub open spec fn single_stmts(stmts: Seq<StmtView>) -> bool
    decreases stmts, 0int,
{
    forall|i: int| 0 <= i < stmts.len() ==> single_stmt(#[trigger] stmts[i])
}

/// Attributes among which no invocation starts have none after the
/// annotations are removed, and give no first invocation.
pub proof fn lemma_no_invocation(attrs: Seq<AttrView>)
    requires
        !any_invocation(attrs),
    ensures
        !any_invocation(without_annotations(attrs)),
        first_invocation(attrs) is None,
    decreases attrs.len(),
{
    reveal(Seq::filter);
    if attrs.len() > 0 {
        let init = attrs.drop_last();
        assert forall|i: int| 0 <= i < init.len() implies !(init[i] is Invocation) by {
            assert(init[i] == attrs[i]);
        }
        lemma_no_invocation(init);
        let kept = without_annotations(attrs);
        assert forall|i: int| 0 <= i < kept.len() implies !(kept[i] is Invocation) by {
            if i < without_annotations(init).len() {
                assert(kept[i] == without_annotations(init)[i]);
            } else {
                assert(kept[i] == attrs.last());
            }
        }
    }
    let p = |a: AttrView| a is Invocation;
    lemma_first_index_found(attrs, p);
    match first_index(attrs, p) {
        Some(i) => {
            assert(p(attrs[i]));
        },
        None => {},
    }
}

/// What a pass makes of an expression on which no invocation starts is an
/// expression on which none starts.
proof fn lemma_outcome_attrs(cx: ContextView, scope: Scope, e: ExprView)
    requires
        !any_invocation(e.attrs),
    ensures
        !any_invocation(visit_expr(cx, scope, e).1.attrs),
{
    if cx.rewrites() {
        let cx1 = note_invocation(cx, e.attrs);
        let scope1 = scope.enter(e);
        let (cx2, e2) = if return_site(cx1, scope1, e) {
            visit_return(cx1, scope1, e)
        } else if try_site(cx1, scope1, e) {
            visit_try(cx1, scope1, e)
        } else {
            visit_children(cx1, scope1, e)
        };
        assert(e2.attrs == e.attrs);
        lemma_no_invocation(e.attrs);
        reveal(leave_expr);
        let (cx3, e3) = leave_expr(cx2, scope1, e2);
        let none = Seq::<AttrView>::empty();
        assert(e3.attrs == e.attrs || e3.attrs == without_annotations(e.attrs) || e3.attrs == none
            || e3.attrs == without_annotations(none));
        assert(without_annotations(Seq::<AttrView>::empty()) =~= Seq::<AttrView>::empty()) by {
            reveal(Seq::filter);
        }
    }
}

/// Where no nested invocation starts in a statement, the pass over it has
/// none to run: it is the walk through the statement and nothing more.
pub proof fn lemma_single_stmt(cx: ContextView, scope: Scope, stmt: StmtView)
    requires
        single_stmt(stmt),
    ensures
        visit_stmt(cx, scope, stmt) == walk_stmt(cx, scope, stmt),
{
    reveal(crate::semantics::expand_nested);
    lemma_walk_stmt_weight(cx, scope, stmt);
    match stmt {
        StmtView::Local(local) => {
            lemma_no_invocation(local.attrs);
            let out = visit_local(cx, scope, local).1;
            assert(out.attrs == local.attrs || out.attrs == without_annotations(local.attrs));
            lemma_no_invocation(out.attrs);
        },
        StmtView::Item(_) => {},
        StmtView::Expr(e) => {
            lemma_outcome_attrs(cx, scope, e);
            lemma_no_invocation(visit_expr(cx, scope, e).1.attrs);
        },
        StmtView::Semi(e) => {
            lemma_outcome_attrs(cx, scope, e);
            lemma_no_invocation(visit_expr(cx, scope, e).1.attrs);
        },
    }
    assert(take_invocation(walk_stmt(cx, scope, stmt).1) is None);
    assert(crate::semantics::expand_nested(
        walk_stmt(cx, scope, stmt).0,
        walk_stmt(cx, scope, stmt).1,
    ) == walk_stmt(cx, scope, stmt));
}

} // verus!
