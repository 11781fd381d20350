//! What holds of every pass.

use vstd::prelude::*;

use crate::context::{
    child_context, compile_error_expr, malformed_arguments, nested_failure, verbatim, ContextView,
    Site,
};
use crate::weight::{lemma_take_invocation_weight, lemma_walk_stmt_weight, walk_stmt};
use crate::derive::{delegating_impl, io_write, DataView, ForwardArmView, TraitDefView};
use crate::progress::{extends, lemma_visit_expr_progress, lemma_visit_stmts_progress, progress};
use crate::semantics::{
    expand_nested, expand_stmt, leave_expr, note_invocation, return_site, stmt_attrs,
    take_invocation, try_arms, try_site, visit_expr, visit_exprs, visit_stmt, visit_stmts, Scope,
};
use crate::syntax::{any_invocation, ExprKindView, ExprView, StmtView};

verus! {

/// Inside a closure a pass hands out variants for marker macros only: no
/// `return` and no `?` in the closure is rewritten, whatever the mode.
pub proof fn law_closure_is_its_own_scope(cx: ContextView, scope: Scope, e: ExprView)
    requires
        scope.closure || e.kind is Closure,
    ensures
        ({
            let after = visit_expr(cx, scope, e).0;
            &&& extends(cx.variants, after.variants)
            &&& forall|i: int|
                cx.variants.len() <= i < after.variants.len() ==> after.variants[i] == Site::Marker
        }),
{
    lemma_visit_expr_progress(cx, scope, e);
    if !scope.closure {
        let inside = Scope { closure: true, ..scope };
        lemma_visit_expr_progress(cx, inside, e);
        if cx.rewrites() {
            assert(inside.enter(e) == scope.enter(e));
            assert(visit_expr(cx, inside, e).0 == visit_expr(cx, scope, e).0) by {
                reveal(leave_expr);
            }
        }
    }
}

/// A marker macro of another invocation is left as it is: one whose name is
/// not the marker of the pass, and, where the marker of the pass is not its
/// own alone, every one inside a nested invocation.  No variant is handed
/// out for it and no error recorded.
pub proof fn law_foreign_marker_is_untouched(cx: ContextView, scope: Scope, e: ExprView)
    requires
        e.kind matches ExprKindView::Macro { path, .. } && (path != cx.marker.ident || (
        !cx.marker.unique && (scope.foreign || any_invocation(e.attrs)))),
    ensures
        visit_expr(cx, scope, e).1.kind == e.kind,
        visit_expr(cx, scope, e).0.variants == cx.variants,
        visit_expr(cx, scope, e).0.status == cx.status,
        scope.foreign || any_invocation(e.attrs) ==> visit_expr(cx, scope, e).1 == e,
{
    reveal(leave_expr);
}

/// `<operand>?` becomes a `match` on what the pass makes of the operand.
/// The arms are the same whatever the operand is, so the operand stands in
/// the result once, as the scrutinee, and is evaluated once.
pub proof fn law_try_operand_stands_once(cx: ContextView, scope: Scope, e: ExprView)
    requires
        cx.rewrites(),
        try_site(note_invocation(cx, e.attrs), scope.enter(e), e),
    ensures
        ({
            let cx1 = note_invocation(cx, e.attrs);
            let out = visit_expr(cx, scope, e).1;
            &&& out.kind matches ExprKindView::Match { scrutinee, arms }
            &&& *scrutinee == visit_expr(
                cx1.allocated(Site::Try),
                scope.enter(e),
                *e.kind->Try_0,
            ).1
            &&& arms == try_arms(cx1.next_expr(Seq::empty(), verbatim("err"@)))
        }),
{
    reveal(leave_expr);
}

/// A `return` that a pass rewrites gets its variant before anything in its
/// payload gets one: its constructor carries the number that was next when
/// the pass came to the `return`, and the pass goes through the payload
/// with that number already handed out.
pub proof fn law_outer_before_inner(cx: ContextView, scope: Scope, e: ExprView)
    requires
        cx.rewrites(),
        return_site(note_invocation(cx, e.attrs), scope.enter(e), e),
        e.kind matches ExprKindView::Return(Some(_)),
    ensures
        ({
            let cx1 = note_invocation(cx, e.attrs);
            let inside = visit_expr(
                cx1.allocated(Site::Return),
                scope.enter(e),
                *e.kind->Return_0->Some_0,
            );
            let (after, out) = visit_expr(cx, scope, e);
            &&& out.kind matches ExprKindView::Return(Some(c))
            &&& c.kind matches ExprKindView::Construct { sum, variant, payload }
            &&& sum == cx.sum
            &&& variant == cx.variants.len()
            &&& *payload == inside.1
            &&& extends(cx.variants.push(Site::Return), inside.0.variants)
            &&& extends(inside.0.variants, after.variants)
        }),
{
    let cx1 = note_invocation(cx, e.attrs);
    let scope1 = scope.enter(e);
    let payload = *e.kind->Return_0->Some_0;
    lemma_visit_expr_progress(cx1.allocated(Site::Return), scope1, payload);
    let inside = visit_expr(cx1.allocated(Site::Return), scope1, payload);
    crate::progress::lemma_leave_expr_progress(
        inside.0,
        scope1,
        crate::semantics::visit_return(cx1, scope1, e).1,
    );
    reveal(leave_expr);
}

/// A `?` that a pass rewrites gets its variant before anything in its
/// operand gets one.
pub proof fn law_try_outer_before_inner(cx: ContextView, scope: Scope, e: ExprView)
    requires
        cx.rewrites(),
        try_site(note_invocation(cx, e.attrs), scope.enter(e), e),
    ensures
        ({
            let cx1 = note_invocation(cx, e.attrs);
            let inside = visit_expr(cx1.allocated(Site::Try), scope.enter(e), *e.kind->Try_0);
            let (after, out) = visit_expr(cx, scope, e);
            &&& out.kind matches ExprKindView::Match { arms, .. }
            &&& arms == try_arms(cx.construct(cx.variants.len(), Seq::empty(), verbatim("err"@)))
            &&& extends(cx.variants.push(Site::Try), inside.0.variants)
            &&& extends(inside.0.variants, after.variants)
        }),
{
    let cx1 = note_invocation(cx, e.attrs);
    let scope1 = scope.enter(e);
    lemma_visit_expr_progress(cx1.allocated(Site::Try), scope1, *e.kind->Try_0);
    let inside = visit_expr(cx1.allocated(Site::Try), scope1, *e.kind->Try_0);
    crate::progress::lemma_leave_expr_progress(
        inside.0,
        scope1,
        crate::semantics::visit_try(cx1, scope1, e).1,
    );
    reveal(leave_expr);
}

/// The implementation of a trait repeats every method of the trait with
/// its signature, in the order of the trait, and forwards it in every
/// variant of the sum type, in the order of the variants.
pub proof fn law_every_method_forwards_in_every_variant(def: TraitDefView, data: DataView)
    ensures
        delegating_impl(def, data).methods.len() == def.methods.len(),
        forall|i: int|
            0 <= i < def.methods.len() ==> {
                let m = #[trigger] delegating_impl(def, data).methods[i];
                &&& m.sig == def.methods[i]
                &&& m.arms.len() == data.variants.len()
                &&& forall|j: int|
                    0 <= j < data.variants.len() ==> #[trigger] m.arms[j] == (ForwardArmView {
                        variant: data.variants[j].ident,
                        ty: data.variants[j].ty,
                    })
            },
{
}

/// What the toolchain can do only adds to the methods of `std::io::Write`:
/// those that every toolchain has stay as they are, in their order.
pub proof fn law_capability_only_adds()
    ensures
        io_write::definition(true).methods.drop_last() == io_write::definition(false).methods,
        io_write::definition(true).path == io_write::definition(false).path,
        io_write::definition(true).types == io_write::definition(false).types,
{
    assert(io_write::definition(true).methods.drop_last() =~= io_write::definition(false).methods);
}

/// Every pass ends its way through a statement by running the nested
/// invocation that the statement starts: the pass over a statement is the
/// walk through it followed by `expand_nested`, whatever the state of the
/// pass.
pub proof fn law_pass_runs_nested_invocation(cx: ContextView, scope: Scope, stmt: StmtView)
    ensures
        visit_stmt(cx, scope, stmt) == expand_nested(
            walk_stmt(cx, scope, stmt).0,
            walk_stmt(cx, scope, stmt).1,
        ),
{
    lemma_walk_stmt_weight(cx, scope, stmt);
}

/// To run the nested invocation that a statement starts is to take its
/// attribute off the statement and to hand the statement to one whole
/// invocation with a context of its own.  Where the arguments of the
/// attribute could not be read, or that context cannot be made, the
/// statement becomes the placeholder of the error.  Every failure is
/// recorded.
pub proof fn law_nested_invocation_is_run(cx: ContextView, stmt: StmtView)
    ensures
        expand_nested(cx, stmt) == match take_invocation(stmt) {
            None => (cx, stmt),
            Some((Err(message), s)) => (
                cx.with_error(malformed_arguments(message)),
                StmtView::Expr(compile_error_expr(message)),
            ),
            Some((Ok(config), s)) => match child_context(cx, config) {
                Err(d) => (cx.with_error(d), StmtView::Expr(compile_error_expr(d.message))),
                Ok(child) => (
                    if expand_stmt(child, s).0.failed() {
                        cx.with_error(nested_failure())
                    } else {
                        cx
                    },
                    expand_stmt(child, s).1,
                ),
            },
        },
{
    reveal(expand_nested);
    lemma_take_invocation_weight(stmt);
}

/// A pass that rewrites nothing, as a failed one, leaves the attributes of
/// a statement on it, so that the nested invocation that the statement
/// starts is found and run after the walk.
pub proof fn law_failed_pass_keeps_attributes(cx: ContextView, scope: Scope, stmt: StmtView)
    requires
        !cx.rewrites(),
    ensures
        stmt_attrs(walk_stmt(cx, scope, stmt).1) == stmt_attrs(stmt),
        !walk_stmt(cx, scope, stmt).0.rewrites(),
{
    match stmt {
        StmtView::Local(local) => {
            crate::progress::lemma_visit_local_progress(cx, scope, local);
        },
        StmtView::Item(_) => {},
        StmtView::Expr(e) => {
            lemma_visit_expr_progress(cx, scope, e);
        },
        StmtView::Semi(e) => {
            lemma_visit_expr_progress(cx, scope, e);
        },
    }
}

/// Once an error is recorded, the invocation stays failed to the end of the
/// pass, and hands out no further variant.
pub proof fn law_failure_is_kept(cx: ContextView, scope: Scope, stmts: Seq<StmtView>)
    requires
        cx.failed(),
    ensures
        visit_stmts(cx, scope, stmts).0.failed(),
        visit_stmts(cx, scope, stmts).0.variants == cx.variants,
{
    lemma_visit_stmts_progress(cx, scope, stmts);
}

/// A pass goes through a block from first to last: what it makes of the
/// statements `a` followed by `b` is what it makes of `a`, followed by
/// what it makes of `b` when it goes on from there.
pub proof fn law_statements_in_order(
    cx: ContextView,
    scope: Scope,
    a: Seq<StmtView>,
    b: Seq<StmtView>,
)
    ensures
        visit_stmts(cx, scope, a + b) == ({
            let (cx1, a1) = visit_stmts(cx, scope, a);
            let (cx2, b1) = visit_stmts(cx1, scope, b);
            (cx2, a1 + b1)
        }),
    decreases b.len(),
{
    let (cx1, a1) = visit_stmts(cx, scope, a);
    if b.len() == 0 {
        assert(a + b =~= a);
        assert(a1 + Seq::<StmtView>::empty() =~= a1);
    } else {
        law_statements_in_order(cx, scope, a, b.drop_last());
        assert((a + b).drop_last() =~= a + b.drop_last());
        assert((a + b).last() == b.last());
        let (cx2, b1) = visit_stmts(cx1, scope, b.drop_last());
        let (cx3, last) = visit_stmt(cx2, scope, b.last());
        assert((a1 + b1).push(last) =~= a1 + b1.push(last));
    }
}

/// The same for a list of expressions, such as the arguments of a call.
pub proof fn law_expressions_in_order(
    cx: ContextView,
    scope: Scope,
    a: Seq<ExprView>,
    b: Seq<ExprView>,
)
    ensures
        visit_exprs(cx, scope, a + b) == ({
            let (cx1, a1) = visit_exprs(cx, scope, a);
            let (cx2, b1) = visit_exprs(cx1, scope, b);
            (cx2, a1 + b1)
        }),
    decreases b.len(),
{
    let (cx1, a1) = visit_exprs(cx, scope, a);
    if b.len() == 0 {
        assert(a + b =~= a);
        assert(a1 + Seq::<ExprView>::empty() =~= a1);
    } else {
        law_expressions_in_order(cx, scope, a, b.drop_last());
        assert((a + b).drop_last() =~= a + b.drop_last());
        assert((a + b).last() == b.last());
        let (cx2, b1) = visit_exprs(cx1, scope, b.drop_last());
        let (cx3, last) = visit_expr(cx2, scope, b.last());
        assert((a1 + b1).push(last) =~= a1 + b1.push(last));
    }
}

/// An error in a later statement does not touch what the pass has made of
/// the statements before it: the first statements of a block come out as
/// they would if nothing followed them.  The invocation as a whole is
/// failed if the pass over any part of the block fails.
pub proof fn law_error_leaves_earlier_rewrites(
    cx: ContextView,
    scope: Scope,
    a: Seq<StmtView>,
    b: Seq<StmtView>,
)
    ensures
        visit_stmts(cx, scope, a + b).1.len() == a.len() + b.len(),
        visit_stmts(cx, scope, a + b).1.take(a.len() as int) == visit_stmts(
            cx,
            scope,
            a,
        ).1,
        visit_stmts(cx, scope, a).0.failed() ==> visit_stmts(
            cx,
            scope,
            a + b,
        ).0.failed(),
        visit_stmts(visit_stmts(cx, scope, a).0, scope, b).0.failed() ==> visit_stmts(
            cx,
            scope,
            a + b,
        ).0.failed(),
{
    law_statements_in_order(cx, scope, a, b);
    let (cx1, a1) = visit_stmts(cx, scope, a);
    let (cx2, b1) = visit_stmts(cx1, scope, b);
    lemma_visit_stmts_len(cx, scope, a);
    lemma_visit_stmts_len(cx1, scope, b);
    assert((a1 + b1).take(a.len() as int) =~= a1);
    lemma_visit_stmts_progress(cx1, scope, b);
}

/// A pass neither adds nor removes statements.
pub proof fn lemma_visit_stmts_len(cx: ContextView, scope: Scope, stmts: Seq<StmtView>)
    ensures
        visit_stmts(cx, scope, stmts).1.len() == stmts.len(),
    decreases stmts.len(),
{
    if stmts.len() > 0 {
        lemma_visit_stmts_len(cx, scope, stmts.drop_last());
    }
}

} // verus!
