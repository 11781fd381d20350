//! A body with nothing to rewrite comes out of a pass as it went in.

use vstd::prelude::*;

use crate::context::ContextView;
use crate::semantics::{
    leave_expr, note_invocation, return_site, take_invocation, try_site, visit_arm, visit_arms,
    visit_children, visit_expr, visit_exprs, visit_local, visit_stmt, visit_stmts, Scope,
};
use crate::syntax::{
    any_invocation, first_index, first_invocation, lemma_first_index_found, without_annotations,
    ArmView, AttrView, ExprKindView, ExprView, LocalView, StmtView,
};

verus! {

/// No attribute starts a nested invocation or is `#[never]` or `#[nested]`.
pub open spec fn quiet_attrs(attrs: Seq<AttrView>) -> bool {
    forall|i: int|
        0 <= i < attrs.len() ==> !((#[trigger] attrs[i]) is Invocation) && !attrs[i].is_annotation()
}

/// `e` holds no `return`, no `?`, no macro named `marker`, and no attribute
/// that steers a pass.
pub open spec fn plain_expr(marker: Seq<char>, e: ExprView) -> bool
    decreases e, 1int,
{
    &&& quiet_attrs(e.attrs)
    &&& match e.kind {
        ExprKindView::Return(_) => false,
        ExprKindView::Try(_) => false,
        ExprKindView::Macro { path, .. } => path != marker,
        ExprKindView::Closure { body, .. } => plain_expr(marker, *body),
        ExprKindView::TryBlock(stmts) => plain_stmts(marker, stmts),
        ExprKindView::Block(stmts) => plain_stmts(marker, stmts),
        ExprKindView::Match { scrutinee, arms } => plain_expr(marker, *scrutinee) && plain_arms(
            marker,
            arms,
        ),
        ExprKindView::Call { func, args } => plain_expr(marker, *func) && plain_exprs(marker, args),
        ExprKindView::Construct { payload, .. } => plain_expr(marker, *payload),
        ExprKindView::Verbatim(_) => true,
        ExprKindView::CompileError(_) => true,
        ExprKindView::Other { children, .. } => plain_exprs(marker, children),
    }
}

pub open spec fn plain_exprs(marker: Seq<char>, es: Seq<ExprView>) -> bool
    decreases es, 0int,
{
    forall|i: int| 0 <= i < es.len() ==> plain_expr(marker, #[trigger] es[i])
}

pub open spec fn plain_arm(marker: Seq<char>, arm: ArmView) -> bool
    decreases arm, 0int,
{
    &&& quiet_attrs(arm.attrs)
    &&& arm.guard matches Some(g) ==> plain_expr(marker, *g)
    &&& plain_expr(marker, *arm.body)
}

pub open spec fn plain_arms(marker: Seq<char>, arms: Seq<ArmView>) -> bool
    decreases arms, 0int,
{
    forall|i: int| 0 <= i < arms.len() ==> plain_arm(marker, #[trigger] arms[i])
}

pub open spec fn plain_local(marker: Seq<char>, local: LocalView) -> bool
    decreases local, 0int,
{
    &&& quiet_attrs(local.attrs)
    &&& local.init matches Some(e) ==> plain_expr(marker, *e)
}

pub open spec fn plain_stmt(marker: Seq<char>, stmt: StmtView) -> bool
    decreases stmt, 1int,
{
    match stmt {
        StmtView::Local(local) => plain_local(marker, local),
        StmtView::Item(_) => true,
        StmtView::Expr(e) => plain_expr(marker, e),
        StmtView::Semi(e) => plain_expr(marker, e),
    }
}

pub open spec fn plain_stmts(marker: Seq<char>, stmts: Seq<StmtView>) -> bool
    decreases stmts, 0int,
{
    forall|i: int| 0 <= i < stmts.len() ==> plain_stmt(marker, #[trigger] stmts[i])
}

/// Attributes that steer no pass are all kept, and start no invocation.
pub proof fn lemma_quiet_attrs(attrs: Seq<AttrView>)
    requires
        quiet_attrs(attrs),
    ensures
        without_annotations(attrs) == attrs,
        !any_invocation(attrs),
        first_invocation(attrs) is None,
    decreases attrs.len(),
{
    reveal(Seq::filter);
    if attrs.len() > 0 {
        lemma_quiet_attrs(attrs.drop_last());
        assert(attrs.drop_last().push(attrs.last()) =~= attrs);
    }
    let p = |a: AttrView| a is Invocation;
    lemma_first_index_found(attrs, p);
    match first_index(attrs, p) {
        Some(i) => {
            assert(p(attrs[i]));
        },
        None => {},
    }
}

/// A pass leaves a body that holds no `return`, no `?`, no marker macro and
/// no attribute that steers a pass as it is, and hands out no variant.
pub proof fn law_nothing_to_rewrite(cx: ContextView, scope: Scope, e: ExprView)
    requires
        plain_expr(cx.marker.ident, e),
    ensures
        visit_expr(cx, scope, e) == (cx, e),
    decreases e, 2int,
{
    lemma_quiet_attrs(e.attrs);
    if !cx.rewrites() {
        lemma_plain_children(cx, scope, e);
    } else {
        let scope1 = scope.enter(e);
        assert(note_invocation(cx, e.attrs) == cx);
        assert(!return_site(cx, scope1, e));
        assert(!try_site(cx, scope1, e));
        lemma_plain_children(cx, scope1, e);
        assert(visit_children(cx, scope1, e) == (cx, e));
        assert(leave_expr(cx, scope1, e) == (cx, e)) by {
            reveal(leave_expr);
        }
    }
}

proof fn lemma_plain_children(cx: ContextView, scope: Scope, e: ExprView)
    requires
        plain_expr(cx.marker.ident, e),
    ensures
        visit_children(cx, scope, e) == (cx, e),
    decreases e, 1int,
{
    match e.kind {
        ExprKindView::Closure { body, .. } => {
            law_nothing_to_rewrite(cx, scope, *body);
        },
        ExprKindView::TryBlock(stmts) => {
            law_nothing_to_rewrite_stmts(cx, scope, stmts);
        },
        ExprKindView::Block(stmts) => {
            law_nothing_to_rewrite_stmts(cx, scope, stmts);
        },
        ExprKindView::Match { scrutinee, arms } => {
            law_nothing_to_rewrite(cx, scope, *scrutinee);
            lemma_plain_arms(cx, scope, arms);
        },
        ExprKindView::Call { func, args } => {
            law_nothing_to_rewrite(cx, scope, *func);
            lemma_plain_exprs(cx, scope, args);
        },
        ExprKindView::Construct { payload, .. } => {
            law_nothing_to_rewrite(cx, scope, *payload);
        },
        ExprKindView::Other { children, .. } => {
            lemma_plain_exprs(cx, scope, children);
        },
        _ => {},
    }
}

proof fn lemma_plain_exprs(cx: ContextView, scope: Scope, es: Seq<ExprView>)
    requires
        plain_exprs(cx.marker.ident, es),
    ensures
        visit_exprs(cx, scope, es) == (cx, es),
    decreases es, 0int,
{
    if es.len() > 0 {
        assert forall|i: int| 0 <= i < es.drop_last().len() implies plain_expr(
            cx.marker.ident,
            #[trigger] es.drop_last()[i],
        ) by {
            assert(es.drop_last()[i] == es[i]);
        }
        lemma_plain_exprs(cx, scope, es.drop_last());
        law_nothing_to_rewrite(cx, scope, es.last());
        assert(es.drop_last().push(es.last()) =~= es);
    } else {
        assert(es =~= Seq::empty());
    }
}

proof fn lemma_plain_arm(cx: ContextView, scope: Scope, arm: ArmView)
    requires
        plain_arm(cx.marker.ident, arm),
    ensures
        visit_arm(cx, scope, arm) == (cx, arm),
    decreases arm, 0int,
{
    lemma_quiet_attrs(arm.attrs);
    match arm.guard {
        Some(g) => {
            law_nothing_to_rewrite(cx, scope, *g);
        },
        None => {},
    }
    law_nothing_to_rewrite(cx, scope, *arm.body);
}

proof fn lemma_plain_arms(cx: ContextView, scope: Scope, arms: Seq<ArmView>)
    requires
        plain_arms(cx.marker.ident, arms),
    ensures
        visit_arms(cx, scope, arms) == (cx, arms),
    decreases arms, 0int,
{
    if arms.len() > 0 {
        assert forall|i: int| 0 <= i < arms.drop_last().len() implies plain_arm(
            cx.marker.ident,
            #[trigger] arms.drop_last()[i],
        ) by {
            assert(arms.drop_last()[i] == arms[i]);
        }
        lemma_plain_arms(cx, scope, arms.drop_last());
        lemma_plain_arm(cx, scope, arms.last());
        assert(arms.drop_last().push(arms.last()) =~= arms);
    } else {
        assert(arms =~= Seq::empty());
    }
}

proof fn lemma_plain_local(cx: ContextView, scope: Scope, local: LocalView)
    requires
        plain_local(cx.marker.ident, local),
    ensures
        visit_local(cx, scope, local) == (cx, local),
    decreases local, 0int,
{
    lemma_quiet_attrs(local.attrs);
    let scope1 = if cx.rewrites() {
        scope.enter_attrs(local.attrs)
    } else {
        scope
    };
    match local.init {
        Some(e) => {
            law_nothing_to_rewrite(cx, scope1, *e);
        },
        None => {},
    }
}

proof fn lemma_plain_stmt(cx: ContextView, scope: Scope, stmt: StmtView)
    requires
        plain_stmt(cx.marker.ident, stmt),
    ensures
        visit_stmt(cx, scope, stmt) == (cx, stmt),
    decreases stmt, 1int,
{
    match stmt {
        StmtView::Local(local) => {
            lemma_plain_local(cx, scope, local);
            lemma_quiet_attrs(local.attrs);
        },
        StmtView::Item(_) => {},
        StmtView::Expr(e) => {
            law_nothing_to_rewrite(cx, scope, e);
            lemma_quiet_attrs(e.attrs);
        },
        StmtView::Semi(e) => {
            law_nothing_to_rewrite(cx, scope, e);
            lemma_quiet_attrs(e.attrs);
        },
    }
    assert(take_invocation(stmt) is None);
    reveal(crate::semantics::expand_nested);
}

/// The same for the statements of a block.
pub proof fn law_nothing_to_rewrite_stmts(
    cx: ContextView,
    scope: Scope,
    stmts: Seq<StmtView>,
)
    requires
        plain_stmts(cx.marker.ident, stmts),
    ensures
        visit_stmts(cx, scope, stmts) == (cx, stmts),
    decreases stmts, 0int,
{
    if stmts.len() > 0 {
        assert forall|i: int| 0 <= i < stmts.drop_last().len() implies plain_stmt(
            cx.marker.ident,
            #[trigger] stmts.drop_last()[i],
        ) by {
            assert(stmts.drop_last()[i] == stmts[i]);
        }
        law_nothing_to_rewrite_stmts(cx, scope, stmts.drop_last());
        lemma_plain_stmt(cx, scope, stmts.last());
        assert(stmts.drop_last().push(stmts.last()) =~= stmts);
    } else {
        assert(stmts =~= Seq::empty());
    }
}

} // verus!
