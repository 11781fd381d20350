//! What a nested invocation covers is left to it by a pass whose marker is
//! not its own alone.

use vstd::prelude::*;

use crate::context::ContextView;
use crate::semantics::{
    expand_nested, leave_expr, note_invocation, return_site, take_invocation, try_site, visit_arm,
    visit_arms, visit_children, visit_expr, visit_exprs, visit_local, visit_stmt, visit_stmts,
    Scope,
};
use crate::single::lemma_no_invocation;
use crate::syntax::{any_invocation, ArmView, ExprKindView, ExprView, LocalView, StmtView};

verus! {

/// Below its attributes, `e` holds no `return` and no `?`, and nothing in it
/// starts a nested invocation.
pub open spec fn sealed_inside(e: ExprView) -> bool
    decreases e, 0int,
{
    match e.kind {
        ExprKindView::Return(_) => false,
        ExprKindView::Try(_) => false,
        ExprKindView::Closure { body, .. } => sealed_expr(*body),
        ExprKindView::TryBlock(stmts) => sealed_stmts(stmts),
        ExprKindView::Block(stmts) => sealed_stmts(stmts),
        ExprKindView::Match { scrutinee, arms } => sealed_expr(*scrutinee) && sealed_arms(arms),
        ExprKindView::Call { func, args } => sealed_expr(*func) && sealed_exprs(args),
        ExprKindView::Construct { payload, .. } => sealed_expr(*payload),
        ExprKindView::Other { children, .. } => sealed_exprs(children),
        _ => true,
    }
}

/// `e` holds no `return` and no `?`, and starts no nested invocation, on
/// itself or inside.
pub open spec fn sealed_expr(e: ExprView) -> bool
    decreases e, 1int,
{
    !any_invocation(e.attrs) && sealed_inside(e)
}

pub open spec fn sealed_exprs(es: Seq<ExprView>) -> bool
    decreases es, 0int,
{
    forall|i: int| 0 <= i < es.len() ==> sealed_expr(#[trigger] es[i])
}

pub open spec fn sealed_arm(arm: ArmView) -> bool
    decreases arm, 0int,
{
    &&& arm.guard matches Some(g) ==> sealed_expr(*g)
    &&& sealed_expr(*arm.body)
}

pub open spec fn sealed_arms(arms: Seq<ArmView>) -> bool
    decreases arms, 0int,
{
    forall|i: int| 0 <= i < arms.len() ==> sealed_arm(#[trigger] arms[i])
}

pub open spec fn sealed_local(local: LocalView) -> bool
    decreases local, 0int,
{
    &&& !any_invocation(local.attrs)
    &&& local.init matches Some(e) ==> sealed_expr(*e)
}

pub open spec fn sealed_stmt(stmt: StmtView) -> bool
    decreases stmt, 1int,
{
    match stmt {
        StmtView::Local(local) => sealed_local(local),
        StmtView::Item(_) => true,
        StmtView::Expr(e) => sealed_expr(e),
        StmtView::Semi(e) => sealed_expr(e),
    }
}

pub open spec fn sealed_stmts(stmts: Seq<StmtView>) -> bool
    decreases stmts, 0int,
{
    forall|i: int| 0 <= i < stmts.len() ==> sealed_stmt(#[trigger] stmts[i])
}

/// A pass whose marker is not its own alone leaves what a nested
/// invocation covers as it is: an expression that carries the attribute of
/// a nested invocation, or stands inside one, comes out unchanged, with
/// every marker macro, every annotation and every other attribute in it,
/// and no variant is handed out.  Only the nested invocation is noted.
/// This holds where the expression holds no `return` and no `?`, which a
/// pass rewrites wherever they stand, and where no further invocation
/// starts inside.
pub proof fn law_foreign_subtree_is_left(cx: ContextView, scope: Scope, e: ExprView)
    requires
        scope.foreign || any_invocation(e.attrs),
        !cx.marker.unique,
        sealed_inside(e),
    ensures
        visit_expr(cx, scope, e) == (
            if cx.rewrites() {
                note_invocation(cx, e.attrs)
            } else {
                cx
            },
            e,
        ),
    decreases e, 2int,
{
    if !cx.rewrites() {
        lemma_idle_children(cx, scope, e);
    } else {
        let cx1 = note_invocation(cx, e.attrs);
        let scope1 = scope.enter(e);
        assert(!return_site(cx1, scope1, e));
        assert(!try_site(cx1, scope1, e));
        lemma_foreign_children(cx1, scope1, e);
        assert(leave_expr(cx1, scope1, e) == (cx1, e)) by {
            reveal(leave_expr);
        }
    }
}

/// A pass that rewrites nothing leaves such an expression as it is.
proof fn lemma_idle_expr(cx: ContextView, scope: Scope, e: ExprView)
    requires
        !cx.rewrites(),
        sealed_expr(e),
    ensures
        visit_expr(cx, scope, e) == (cx, e),
    decreases e, 2int,
{
    lemma_idle_children(cx, scope, e);
}

proof fn lemma_idle_children(cx: ContextView, scope: Scope, e: ExprView)
    requires
        !cx.rewrites(),
        sealed_inside(e),
    ensures
        visit_children(cx, scope, e) == (cx, e),
    decreases e, 1int,
{
    match e.kind {
        ExprKindView::Closure { body, .. } => {
            lemma_idle_expr(cx, scope, *body);
        },
        ExprKindView::TryBlock(stmts) => {
            lemma_idle_stmts(cx, scope, stmts);
        },
        ExprKindView::Block(stmts) => {
            lemma_idle_stmts(cx, scope, stmts);
        },
        ExprKindView::Match { scrutinee, arms } => {
            lemma_idle_expr(cx, scope, *scrutinee);
            lemma_idle_arms(cx, scope, arms);
        },
        ExprKindView::Call { func, args } => {
            lemma_idle_expr(cx, scope, *func);
            lemma_idle_exprs(cx, scope, args);
        },
        ExprKindView::Construct { payload, .. } => {
            lemma_idle_expr(cx, scope, *payload);
        },
        ExprKindView::Other { children, .. } => {
            lemma_idle_exprs(cx, scope, children);
        },
        _ => {},
    }
}

proof fn lemma_idle_exprs(cx: ContextView, scope: Scope, es: Seq<ExprView>)
    requires
        !cx.rewrites(),
        sealed_exprs(es),
    ensures
        visit_exprs(cx, scope, es) == (cx, es),
    decreases es, 0int,
{
    if es.len() > 0 {
        assert forall|i: int| 0 <= i < es.drop_last().len() implies sealed_expr(
            #[trigger] es.drop_last()[i],
        ) by {
            assert(es.drop_last()[i] == es[i]);
        }
        lemma_idle_exprs(cx, scope, es.drop_last());
        lemma_idle_expr(cx, scope, es.last());
        assert(es.drop_last().push(es.last()) =~= es);
    } else {
        assert(es =~= Seq::empty());
    }
}

proof fn lemma_idle_arms(cx: ContextView, scope: Scope, arms: Seq<ArmView>)
    requires
        !cx.rewrites(),
        sealed_arms(arms),
    ensures
        visit_arms(cx, scope, arms) == (cx, arms),
    decreases arms, 0int,
{
    if arms.len() > 0 {
        assert forall|i: int| 0 <= i < arms.drop_last().len() implies sealed_arm(
            #[trigger] arms.drop_last()[i],
        ) by {
            assert(arms.drop_last()[i] == arms[i]);
        }
        lemma_idle_arms(cx, scope, arms.drop_last());
        let arm = arms.last();
        match arm.guard {
            Some(g) => {
                lemma_idle_expr(cx, scope, *g);
            },
            None => {},
        }
        lemma_idle_expr(cx, scope, *arm.body);
        assert(visit_arm(cx, scope, arm) == (cx, arm));
        assert(arms.drop_last().push(arms.last()) =~= arms);
    } else {
        assert(arms =~= Seq::empty());
    }
}

proof fn lemma_idle_stmts(cx: ContextView, scope: Scope, stmts: Seq<StmtView>)
    requires
        !cx.rewrites(),
        sealed_stmts(stmts),
    ensures
        visit_stmts(cx, scope, stmts) == (cx, stmts),
    decreases stmts, 0int,
{
    if stmts.len() > 0 {
        assert forall|i: int| 0 <= i < stmts.drop_last().len() implies sealed_stmt(
            #[trigger] stmts.drop_last()[i],
        ) by {
            assert(stmts.drop_last()[i] == stmts[i]);
        }
        lemma_idle_stmts(cx, scope, stmts.drop_last());
        let stmt = stmts.last();
        match stmt {
            StmtView::Local(local) => {
                match local.init {
                    Some(e) => {
                        lemma_idle_expr(cx, scope, *e);
                    },
                    None => {},
                }
                assert(visit_local(cx, scope, local) == (cx, local));
                lemma_no_invocation(local.attrs);
            },
            StmtView::Item(_) => {},
            StmtView::Expr(e) => {
                lemma_idle_expr(cx, scope, e);
                lemma_no_invocation(e.attrs);
            },
            StmtView::Semi(e) => {
                lemma_idle_expr(cx, scope, e);
                lemma_no_invocation(e.attrs);
            },
        }
        assert(take_invocation(stmt) is None);
        assert(visit_stmt(cx, scope, stmt) == (cx, stmt)) by {
            reveal(expand_nested);
        }
        assert(stmts.drop_last().push(stmts.last()) =~= stmts);
    } else {
        assert(stmts =~= Seq::empty());
    }
}

proof fn lemma_foreign_children(cx: ContextView, scope: Scope, e: ExprView)
    requires
        scope.foreign,
        !cx.marker.unique,
        sealed_inside(e),
    ensures
        visit_children(cx, scope, e) == (cx, e),
    decreases e, 1int,
{
    match e.kind {
        ExprKindView::Closure { body, .. } => {
            law_foreign_subtree_is_left(cx, scope, *body);
        },
        ExprKindView::TryBlock(stmts) => {
            lemma_foreign_stmts(cx, scope, stmts);
        },
        ExprKindView::Block(stmts) => {
            lemma_foreign_stmts(cx, scope, stmts);
        },
        ExprKindView::Match { scrutinee, arms } => {
            law_foreign_subtree_is_left(cx, scope, *scrutinee);
            lemma_foreign_arms(cx, scope, arms);
        },
        ExprKindView::Call { func, args } => {
            law_foreign_subtree_is_left(cx, scope, *func);
            lemma_foreign_exprs(cx, scope, args);
        },
        ExprKindView::Construct { payload, .. } => {
            law_foreign_subtree_is_left(cx, scope, *payload);
        },
        ExprKindView::Other { children, .. } => {
            lemma_foreign_exprs(cx, scope, children);
        },
        _ => {},
    }
}

proof fn lemma_foreign_exprs(cx: ContextView, scope: Scope, es: Seq<ExprView>)
    requires
        scope.foreign,
        !cx.marker.unique,
        sealed_exprs(es),
    ensures
        visit_exprs(cx, scope, es) == (cx, es),
    decreases es, 0int,
{
    if es.len() > 0 {
        assert forall|i: int| 0 <= i < es.drop_last().len() implies sealed_expr(
            #[trigger] es.drop_last()[i],
        ) by {
            assert(es.drop_last()[i] == es[i]);
        }
        lemma_foreign_exprs(cx, scope, es.drop_last());
        law_foreign_subtree_is_left(cx, scope, es.last());
        assert(es.drop_last().push(es.last()) =~= es);
    } else {
        assert(es =~= Seq::empty());
    }
}

proof fn lemma_foreign_arms(cx: ContextView, scope: Scope, arms: Seq<ArmView>)
    requires
        scope.foreign,
        !cx.marker.unique,
        sealed_arms(arms),
    ensures
        visit_arms(cx, scope, arms) == (cx, arms),
    decreases arms, 0int,
{
    if arms.len() > 0 {
        assert forall|i: int| 0 <= i < arms.drop_last().len() implies sealed_arm(
            #[trigger] arms.drop_last()[i],
        ) by {
            assert(arms.drop_last()[i] == arms[i]);
        }
        lemma_foreign_arms(cx, scope, arms.drop_last());
        let arm = arms.last();
        match arm.guard {
            Some(g) => {
                law_foreign_subtree_is_left(cx, scope, *g);
            },
            None => {},
        }
        law_foreign_subtree_is_left(cx, scope, *arm.body);
        assert(visit_arm(cx, scope, arm) == (cx, arm));
        assert(arms.drop_last().push(arms.last()) =~= arms);
    } else {
        assert(arms =~= Seq::empty());
    }
}

proof fn lemma_foreign_stmts(cx: ContextView, scope: Scope, stmts: Seq<StmtView>)
    requires
        scope.foreign,
        !cx.marker.unique,
        sealed_stmts(stmts),
    ensures
        visit_stmts(cx, scope, stmts) == (cx, stmts),
    decreases stmts, 0int,
{
    if stmts.len() > 0 {
        assert forall|i: int| 0 <= i < stmts.drop_last().len() implies sealed_stmt(
            #[trigger] stmts.drop_last()[i],
        ) by {
            assert(stmts.drop_last()[i] == stmts[i]);
        }
        lemma_foreign_stmts(cx, scope, stmts.drop_last());
        let stmt = stmts.last();
        match stmt {
            StmtView::Local(local) => {
                match local.init {
                    Some(e) => {
                        law_foreign_subtree_is_left(cx, scope, *e);
                    },
                    None => {},
                }
                assert(visit_local(cx, scope, local) == (cx, local));
                lemma_no_invocation(local.attrs);
            },
            StmtView::Item(_) => {},
            StmtView::Expr(e) => {
                law_foreign_subtree_is_left(cx, scope, e);
                lemma_no_invocation(e.attrs);
            },
            StmtView::Semi(e) => {
                law_foreign_subtree_is_left(cx, scope, e);
                lemma_no_invocation(e.attrs);
            },
        }
        assert(take_invocation(stmt) is None);
        assert(visit_stmt(cx, scope, stmt) == (cx, stmt)) by {
            reveal(expand_nested);
        }
        assert(stmts.drop_last().push(stmts.last()) =~= stmts);
    } else {
        assert(stmts =~= Seq::empty());
    }
}

} // verus!
