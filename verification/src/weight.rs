//! A pass starts no invocation: what comes out of it holds no more
//! attributes of nested invocations than what went in.  This is what lets
//! every pass run the nested invocations it meets.

use vstd::prelude::*;

use crate::context::ContextView;
use crate::semantics::{
    declare, expand_expr, expand_nested, expand_stmt, leave_expr, note_invocation, return_site,
    take_invocation, try_arms, try_site, visit_arm, visit_arms, visit_children, visit_expr,
    visit_exprs, visit_local, visit_return, visit_stmt, visit_stmts, visit_try, Scope,
};
use crate::syntax::{
    first_invocation, invocation_count, lemma_first_index_found, weight_arm, weight_arms,
    weight_expr, weight_exprs, weight_local, weight_stmt, weight_stmts, without_annotations,
    ArmView, AttrView, ExprKindView, ExprView, LocalView, StmtView,
};

verus! {

/// Removing the annotations removes no invocation.
pub proof fn lemma_count_without_annotations(attrs: Seq<AttrView>)
    ensures
        invocation_count(without_annotations(attrs)) == invocation_count(attrs),
    decreases attrs.len(),
{
    reveal(Seq::filter);
    if attrs.len() > 0 {
        lemma_count_without_annotations(attrs.drop_last());
        let kept = without_annotations(attrs.drop_last());
        if !attrs.last().is_annotation() {
            assert(kept.push(attrs.last()).drop_last() =~= kept);
        }
    }
}

/// Taking an invocation out of the attributes leaves one fewer.
pub proof fn lemma_count_remove(attrs: Seq<AttrView>, i: int)
    requires
        0 <= i < attrs.len(),
        attrs[i] is Invocation,
    ensures
        invocation_count(attrs.remove(i)) + 1 == invocation_count(attrs),
    decreases attrs.len(),
{
    if i == attrs.len() - 1 {
        assert(attrs.remove(i) =~= attrs.drop_last());
    } else {
        lemma_count_remove(attrs.drop_last(), i);
        assert(attrs.remove(i).drop_last() =~= attrs.drop_last().remove(i));
        assert(attrs.remove(i).last() == attrs.last());
    }
}

/// The statement without the attribute of the invocation it starts holds
/// one invocation fewer.
pub proof fn lemma_take_invocation_weight(stmt: StmtView)
    ensures
        take_invocation(stmt) matches Some((_, s)) ==> weight_stmt(s) + 1 == weight_stmt(stmt),
{
    match stmt {
        StmtView::Local(local) => {
            lemma_taken(local.attrs);
        },
        StmtView::Item(_) => {},
        StmtView::Expr(e) => {
            lemma_taken(e.attrs);
        },
        StmtView::Semi(e) => {
            lemma_taken(e.attrs);
        },
    }
}

proof fn lemma_taken(attrs: Seq<AttrView>)
    ensures
        first_invocation(attrs) matches Some(i) ==> invocation_count(attrs.remove(i)) + 1
            == invocation_count(attrs),
{
    let p = |a: AttrView| a is Invocation;
    lemma_first_index_found(attrs, p);
    match first_invocation(attrs) {
        Some(i) => {
            assert(p(attrs[i]));
            lemma_count_remove(attrs, i);
        },
        None => {},
    }
}

pub proof fn lemma_weight_exprs_index(es: Seq<ExprView>, i: int)
    requires
        0 <= i < es.len(),
    ensures
        weight_expr(es[i]) <= weight_exprs(es),
    decreases es.len(),
{
    if i < es.len() - 1 {
        lemma_weight_exprs_index(es.drop_last(), i);
    }
}

pub proof fn lemma_weight_arms_index(arms: Seq<ArmView>, i: int)
    requires
        0 <= i < arms.len(),
    ensures
        weight_arm(arms[i]) <= weight_arms(arms),
    decreases arms.len(),
{
    if i < arms.len() - 1 {
        lemma_weight_arms_index(arms.drop_last(), i);
    }
}

pub proof fn lemma_weight_stmts_index(stmts: Seq<StmtView>, i: int)
    requires
        0 <= i < stmts.len(),
    ensures
        weight_stmt(stmts[i]) <= weight_stmts(stmts),
    decreases stmts.len(),
{
    if i < stmts.len() - 1 {
        lemma_weight_stmts_index(stmts.drop_last(), i);
    }
}

proof fn lemma_weight_try_arms(failure: ExprView)
    ensures
        weight_arms(try_arms(failure)) == weight_expr(failure),
{
    let arms = try_arms(failure);
    assert(arms.drop_last() =~= seq![arms[0]]);
    assert(arms.drop_last().drop_last() =~= Seq::<ArmView>::empty());
    reveal_with_fuel(weight_arms, 3);
    reveal_with_fuel(invocation_count, 2);
    let body = *arms[1].body;
    let call = *body.kind->Return_0->Some_0;
    let args = call.kind->Call_args;
    assert(args.drop_last() =~= Seq::<ExprView>::empty());
    reveal_with_fuel(weight_exprs, 2);
    reveal_with_fuel(weight_expr, 3);
    assert(weight_exprs(args) == weight_expr(failure));
    assert(weight_expr(call) == weight_expr(failure));
    assert(weight_expr(body) == weight_expr(failure));
    assert(weight_expr(*arms[0].body) == 0);
}

proof fn lemma_leave_expr_weight(cx: ContextView, scope: Scope, e: ExprView)
    ensures
        weight_expr(leave_expr(cx, scope, e).1) <= weight_expr(e),
{
    reveal(leave_expr);
    reveal_with_fuel(weight_expr, 2);
    reveal_with_fuel(invocation_count, 2);
    lemma_count_without_annotations(e.attrs);
    lemma_count_without_annotations(Seq::<AttrView>::empty());
}

/// The pass over an expression starts no invocation; the lemmas after this
/// one say the same of the pass over each other part of a body.
pub proof fn lemma_visit_expr_weight(cx: ContextView, scope: Scope, e: ExprView)
    ensures
        weight_expr(visit_expr(cx, scope, e).1) <= weight_expr(e),
    decreases weight_expr(e), 1int, e, 2int,
{
    if !cx.rewrites() {
        lemma_visit_children_weight(cx, scope, e);
    } else {
        let cx1 = note_invocation(cx, e.attrs);
        let scope1 = scope.enter(e);
        let (cx2, e2) = if return_site(cx1, scope1, e) {
            lemma_visit_return_weight(cx1, scope1, e);
            visit_return(cx1, scope1, e)
        } else if try_site(cx1, scope1, e) {
            lemma_visit_try_weight(cx1, scope1, e);
            visit_try(cx1, scope1, e)
        } else {
            lemma_visit_children_weight(cx1, scope1, e);
            visit_children(cx1, scope1, e)
        };
        lemma_leave_expr_weight(cx2, scope1, e2);
        assert(visit_expr(cx, scope, e) == leave_expr(cx2, scope1, e2));
    }
}

proof fn lemma_visit_return_weight(cx: ContextView, scope: Scope, e: ExprView)
    requires
        e.kind is Return,
    ensures
        weight_expr(visit_return(cx, scope, e).1) <= weight_expr(e),
    decreases weight_expr(e), 1int, e, 1int,
{
    reveal_with_fuel(weight_expr, 3);
    reveal_with_fuel(invocation_count, 2);
    match e.kind {
        ExprKindView::Return(Some(payload)) => {
            lemma_visit_expr_weight(cx.allocated(crate::context::Site::Return), scope, *payload);
        },
        _ => {},
    }
}

proof fn lemma_visit_try_weight(cx: ContextView, scope: Scope, e: ExprView)
    requires
        e.kind is Try,
    ensures
        weight_expr(visit_try(cx, scope, e).1) <= weight_expr(e),
    decreases weight_expr(e), 1int, e, 1int,
{
    match e.kind {
        ExprKindView::Try(inner) => {
            lemma_visit_expr_weight(cx.allocated(crate::context::Site::Try), scope, *inner);
            let failure = cx.next_expr(Seq::empty(), crate::context::verbatim("err"@));
            lemma_weight_try_arms(failure);
            reveal_with_fuel(weight_expr, 2);
            reveal_with_fuel(invocation_count, 2);
        },
        _ => {},
    }
}

proof fn lemma_visit_children_weight(cx: ContextView, scope: Scope, e: ExprView)
    ensures
        weight_expr(visit_children(cx, scope, e).1) <= weight_expr(e),
    decreases weight_expr(e), 1int, e, 1int,
{
    match e.kind {
        ExprKindView::Return(Some(payload)) => {
            lemma_visit_expr_weight(cx, scope, *payload);
        },
        ExprKindView::Try(inner) => {
            lemma_visit_expr_weight(cx, scope, *inner);
        },
        ExprKindView::Closure { body, .. } => {
            lemma_visit_expr_weight(cx, scope, *body);
        },
        ExprKindView::TryBlock(stmts) => {
            lemma_visit_stmts_weight(cx, scope, stmts);
        },
        ExprKindView::Block(stmts) => {
            lemma_visit_stmts_weight(cx, scope, stmts);
        },
        ExprKindView::Match { scrutinee, arms } => {
            lemma_visit_expr_weight(cx, scope, *scrutinee);
            lemma_visit_arms_weight(visit_expr(cx, scope, *scrutinee).0, scope, arms);
        },
        ExprKindView::Call { func, args } => {
            lemma_visit_expr_weight(cx, scope, *func);
            lemma_visit_exprs_weight(visit_expr(cx, scope, *func).0, scope, args);
        },
        ExprKindView::Construct { payload, .. } => {
            lemma_visit_expr_weight(cx, scope, *payload);
        },
        ExprKindView::Other { children, .. } => {
            lemma_visit_exprs_weight(cx, scope, children);
        },
        _ => {},
    }
}

proof fn lemma_visit_exprs_weight(cx: ContextView, scope: Scope, es: Seq<ExprView>)
    ensures
        weight_exprs(visit_exprs(cx, scope, es).1) <= weight_exprs(es),
    decreases weight_exprs(es), 1int, es, 0int,
{
    if es.len() > 0 {
        lemma_visit_exprs_weight(cx, scope, es.drop_last());
        let (cx1, init) = visit_exprs(cx, scope, es.drop_last());
        lemma_visit_expr_weight(cx1, scope, es.last());
        let (cx2, last) = visit_expr(cx1, scope, es.last());
        assert(init.push(last).drop_last() =~= init);
    }
}

proof fn lemma_visit_arm_weight(cx: ContextView, scope: Scope, arm: ArmView)
    ensures
        weight_arm(visit_arm(cx, scope, arm).1) <= weight_arm(arm),
    decreases weight_arm(arm), 1int, arm, 0int,
{
    let cx1 = match arm.guard {
        Some(g) => {
            lemma_visit_expr_weight(cx, scope, *g);
            visit_expr(cx, scope, *g).0
        },
        None => cx,
    };
    lemma_visit_expr_weight(cx1, scope, *arm.body);
    lemma_count_without_annotations(arm.attrs);
}

proof fn lemma_visit_arms_weight(cx: ContextView, scope: Scope, arms: Seq<ArmView>)
    ensures
        weight_arms(visit_arms(cx, scope, arms).1) <= weight_arms(arms),
    decreases weight_arms(arms), 1int, arms, 0int,
{
    if arms.len() > 0 {
        lemma_visit_arms_weight(cx, scope, arms.drop_last());
        let (cx1, init) = visit_arms(cx, scope, arms.drop_last());
        lemma_visit_arm_weight(cx1, scope, arms.last());
        let (cx2, last) = visit_arm(cx1, scope, arms.last());
        assert(init.push(last).drop_last() =~= init);
    }
}

proof fn lemma_visit_local_weight(cx: ContextView, scope: Scope, local: LocalView)
    ensures
        weight_local(visit_local(cx, scope, local).1) <= weight_local(local),
    decreases weight_local(local), 1int, local, 0int,
{
    let cx1 = if cx.rewrites() {
        note_invocation(cx, local.attrs)
    } else {
        cx
    };
    let scope1 = if cx.rewrites() {
        scope.enter_attrs(local.attrs)
    } else {
        scope
    };
    match local.init {
        Some(e) => {
            lemma_visit_expr_weight(cx1, scope1, *e);
        },
        None => {},
    }
    lemma_count_without_annotations(local.attrs);
}

/// What a pass makes of a statement before it runs the nested invocation
/// that the statement starts.
pub open spec fn walk_stmt(cx: ContextView, scope: Scope, stmt: StmtView) -> (
    ContextView,
    StmtView,
) {
    match stmt {
        StmtView::Local(local) => {
            let (c, l) = visit_local(cx, scope, local);
            (c, StmtView::Local(l))
        },
        StmtView::Item(_) => (cx, stmt),
        StmtView::Expr(e) => {
            let (c, e1) = visit_expr(cx, scope, e);
            (c, StmtView::Expr(e1))
        },
        StmtView::Semi(e) => {
            let (c, e1) = visit_expr(cx, scope, e);
            (c, StmtView::Semi(e1))
        },
    }
}

/// The pass over a statement is the walk through it, followed by the
/// nested invocation that it starts.
pub proof fn lemma_walk_stmt_weight(cx: ContextView, scope: Scope, stmt: StmtView)
    ensures
        weight_stmt(walk_stmt(cx, scope, stmt).1) <= weight_stmt(stmt),
        visit_stmt(cx, scope, stmt) == expand_nested(
            walk_stmt(cx, scope, stmt).0,
            walk_stmt(cx, scope, stmt).1,
        ),
    decreases weight_stmt(stmt), 1int, stmt, 1int,
{
    reveal(expand_nested);
    match stmt {
        StmtView::Local(local) => {
            lemma_visit_local_weight(cx, scope, local);
        },
        StmtView::Item(_) => {},
        StmtView::Expr(e) => {
            lemma_visit_expr_weight(cx, scope, e);
        },
        StmtView::Semi(e) => {
            lemma_visit_expr_weight(cx, scope, e);
        },
    }
}

#[verifier::spinoff_prover]
proof fn lemma_visit_stmt_weight(cx: ContextView, scope: Scope, stmt: StmtView)
    ensures
        weight_stmt(visit_stmt(cx, scope, stmt).1) <= weight_stmt(stmt),
    decreases weight_stmt(stmt), 1int, stmt, 2int,
{
    lemma_walk_stmt_weight(cx, scope, stmt);
    let (cx1, s1) = walk_stmt(cx, scope, stmt);
    lemma_expand_nested_weight(cx1, s1);
}

#[verifier::spinoff_prover]
proof fn lemma_expand_nested_weight(cx: ContextView, stmt: StmtView)
    ensures
        weight_stmt(expand_nested(cx, stmt).1) <= weight_stmt(stmt),
    decreases weight_stmt(stmt), 0int, stmt, 0int,
{
    reveal(expand_nested);
    lemma_take_invocation_weight(stmt);
    match take_invocation(stmt) {
        None => {},
        Some((Err(message), s)) => {
            reveal_with_fuel(weight_expr, 2);
            reveal_with_fuel(invocation_count, 2);
        },
        Some((Ok(config), s)) => match crate::context::child_context(cx, config) {
            Err(d) => {
                reveal_with_fuel(weight_expr, 2);
                reveal_with_fuel(invocation_count, 2);
            },
            Ok(child) => {
                lemma_expand_stmt_weight(child, s);
            },
        },
    }
}

#[verifier::spinoff_prover]
proof fn lemma_expand_stmt_weight(cx: ContextView, stmt: StmtView)
    ensures
        weight_stmt(expand_stmt(cx, stmt).1) <= weight_stmt(stmt),
    decreases weight_stmt(stmt), 1int, stmt, 4int,
{
    match stmt {
        StmtView::Local(local) => match local.init {
            Some(e) => {
                lemma_expand_expr_weight(cx, *e);
            },
            None => {},
        },
        StmtView::Item(_) => {},
        StmtView::Expr(e) => {
            lemma_expand_expr_weight(cx, e);
        },
        StmtView::Semi(e) => {
            lemma_expand_expr_weight(cx, e);
        },
    }
}

proof fn lemma_declare_weight(cx: ContextView, e: ExprView)
    ensures
        weight_expr(declare(cx, e)) == weight_expr(e),
{
    reveal(declare);
    let stmts = seq![StmtView::Item(crate::semantics::sum_type(cx)), StmtView::Expr(e)];
    assert(stmts.drop_last() =~= seq![stmts[0]]);
    assert(stmts.drop_last().drop_last() =~= Seq::<StmtView>::empty());
    reveal_with_fuel(weight_stmts, 3);
    reveal_with_fuel(weight_expr, 2);
    reveal_with_fuel(invocation_count, 2);
    assert(invocation_count(Seq::<AttrView>::empty()) == 0);
    assert(weight_stmt(stmts[0]) == 0);
    assert(weight_stmt(stmts[1]) == weight_expr(e));
    assert(weight_stmts(stmts) == weight_expr(e));
}

/// What the pass in `mode` makes of the closure `e`.
pub open spec fn expand_closure(cx: ContextView, mode: crate::syntax::VisitMode, e: ExprView) -> (
    ContextView,
    ExprView,
) {
    let (c, b) = visit_expr(cx.with_mode(mode), Scope::outermost(), *e.kind->Closure_body);
    (
        c,
        ExprView {
            attrs: e.attrs,
            kind: ExprKindView::Closure { inputs: e.kind->Closure_inputs, body: Box::new(b) },
        },
    )
}

/// One whole invocation on an expression, case by case.
pub proof fn lemma_expand_expr_shape(cx: ContextView, e: ExprView)
    ensures
        expand_expr(cx, e) == if cx.is_dummy() {
            let (c, e1) = visit_expr(cx.with_idle(true), Scope::outermost(), e);
            (c.with_idle(cx.idle), e1)
        } else if e.kind is Closure {
            let mode = crate::semantics::body_mode(
                cx,
                crate::semantics::find_try_expr(
                    cx.marker.ident,
                    Scope::outermost(),
                    *e.kind->Closure_body,
                ),
            );
            let (c, e1) = expand_closure(cx, mode, e);
            (c, declare(c, e1))
        } else {
            let (c, e1) = visit_expr(cx, Scope::outermost(), e);
            (c, declare(c, e1))
        },
{
    reveal(expand_expr);
}

#[verifier::spinoff_prover]
proof fn lemma_expand_expr_weight(cx: ContextView, e: ExprView)
    ensures
        weight_expr(expand_expr(cx, e).1) <= weight_expr(e),
    decreases weight_expr(e), 1int, e, 3int,
{
    lemma_expand_expr_shape(cx, e);
    if cx.is_dummy() {
        lemma_visit_expr_weight(cx.with_idle(true), Scope::outermost(), e);
    } else if e.kind is Closure {
        let mode = crate::semantics::body_mode(
            cx,
            crate::semantics::find_try_expr(
                cx.marker.ident,
                Scope::outermost(),
                *e.kind->Closure_body,
            ),
        );
        lemma_visit_expr_weight(cx.with_mode(mode), Scope::outermost(), *e.kind->Closure_body);
        let (c, e1) = expand_closure(cx, mode, e);
        lemma_declare_weight(c, e1);
    } else {
        lemma_visit_expr_weight(cx, Scope::outermost(), e);
        let (c, e1) = visit_expr(cx, Scope::outermost(), e);
        lemma_declare_weight(c, e1);
    }
}

proof fn lemma_visit_stmts_weight(cx: ContextView, scope: Scope, stmts: Seq<StmtView>)
    ensures
        weight_stmts(visit_stmts(cx, scope, stmts).1) <= weight_stmts(stmts),
    decreases weight_stmts(stmts), 1int, stmts, 0int,
{
    if stmts.len() > 0 {
        lemma_visit_stmts_weight(cx, scope, stmts.drop_last());
        let (cx1, init) = visit_stmts(cx, scope, stmts.drop_last());
        lemma_visit_stmt_weight(cx1, scope, stmts.last());
        let (cx2, last) = visit_stmt(cx1, scope, stmts.last());
        assert(init.push(last).drop_last() =~= init);
    }
}

} // verus!
