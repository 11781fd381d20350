//! What a pass over a body computes, as functions on the views of the tree
//! and of the context.
//!
//! A pass walks the body once, from left to right.  At each expression it
//! first rewrites the early exit that its mode covers, then walks the
//! sub-expressions, and on the way back expands a marker macro and removes
//! the annotations that were written for it.  After it has walked a
//! statement, every pass runs the nested invocation that the statement
//! starts: one whole invocation with a context of its own.

use vstd::prelude::*;

use crate::context::{
    child_context, compile_error_expr, malformed_arguments, marker_outcome, nested_failure,
    unit_expr, verbatim, ContextView, Site,
};
use crate::syntax::{
    any_empty_attr, any_invocation, first_invocation, weight_arm, weight_arms, weight_expr,
    weight_exprs, weight_local, weight_stmt, weight_stmts, without_annotations, ArmView, AttrView,
    ConfigView, ExprKindView, ExprView, ItemView, LocalView, StmtView, VisitMode, NEVER,
};

verus! {

/// Where in the body a pass stands.
#[derive(Clone, Copy, Debug, PartialEq, Eq, Structural)]
pub struct Scope {
    /// Inside a closure.
    pub closure: bool,
    /// Inside a `try` block.
    pub try_block: bool,
    /// Inside a nested invocation.
    pub foreign: bool,
}

impl Scope {
    /// The scope at the start of a body.
    pub open spec fn outermost() -> Scope {
        Scope { closure: false, try_block: false, foreign: false }
    }

    /// The scope inside the expression `e`.
    pub open spec fn enter(self, e: ExprView) -> Scope {
        Scope {
            closure: self.closure || e.kind is Closure,
            try_block: self.try_block || e.kind is TryBlock,
            foreign: self.foreign || any_invocation(e.attrs),
        }
    }

    /// The scope inside something that carries `attrs`.
    pub open spec fn enter_attrs(self, attrs: Seq<AttrView>) -> Scope {
        Scope { foreign: self.foreign || any_invocation(attrs), ..self }
    }
}

/// The context after a pass has seen `attrs`.
pub open spec fn note_invocation(cx: ContextView, attrs: Seq<AttrView>) -> ContextView {
    if any_invocation(attrs) {
        cx.with_other_attr()
    } else {
        cx
    }
}

/// `e` is a `return` that a pass in return mode rewrites.
pub open spec fn return_site(cx: ContextView, scope: Scope, e: ExprView) -> bool {
    &&& cx.visit_mode == VisitMode::Return
    &&& e.kind is Return
    &&& !scope.closure
    &&& !any_empty_attr(e.attrs, NEVER@)
    &&& !(e.kind matches ExprKindView::Return(Some(payload)) && cx.is_marker_expr(*payload))
}

/// `e` is a `?` that a pass in try mode rewrites.
pub open spec fn try_site(cx: ContextView, scope: Scope, e: ExprView) -> bool {
    &&& cx.visit_mode == VisitMode::Try
    &&& e.kind matches ExprKindView::Try(inner)
    &&& !scope.try_block
    &&& !scope.closure
    &&& !any_empty_attr(e.attrs, NEVER@)
    &&& !cx.is_marker_expr(*inner)
}

/// The arms that take the place of `?`: the success arm yields the value,
/// the failure arm returns `failure` as the error.
pub open spec fn try_arms(failure: ExprView) -> Seq<ArmView> {
    seq![
        ArmView {
            attrs: Seq::empty(),
            pat: "::core::result::Result::Ok(val)"@,
            guard: None,
            body: Box::new(verbatim("val"@)),
        },
        ArmView {
            attrs: Seq::empty(),
            pat: "::core::result::Result::Err(err)"@,
            guard: None,
            body: Box::new(
                ExprView {
                    attrs: Seq::empty(),
                    kind: ExprKindView::Return(
                        Some(
                            Box::new(
                                ExprView {
                                    attrs: Seq::empty(),
                                    kind: ExprKindView::Call {
                                        func: Box::new(verbatim("::core::result::Result::Err"@)),
                                        args: seq![failure],
                                    },
                                },
                            ),
                        ),
                    ),
                },
            ),
        },
    ]
}

/// The expansion of `e` if it is a marker macro of the invocation.
pub open spec fn expand_marker(cx: ContextView, e: ExprView) -> (ContextView, ExprView) {
    match e.kind {
        ExprKindView::Macro { path, tokens, error } => if path == cx.marker.ident {
            marker_outcome(cx, e.attrs, tokens, error)
        } else {
            (cx, e)
        },
        _ => (cx, e),
    }
}

/// What a pass does to `e` on the way back up.
#[verifier::opaque]
pub open spec fn leave_expr(cx: ContextView, scope: Scope, e: ExprView) -> (ContextView, ExprView) {
    if !cx.rewrites() {
        (cx, e)
    } else {
        let (cx1, e1) = if !scope.foreign || cx.marker.unique {
            expand_marker(cx, e)
        } else {
            (cx, e)
        };
        if scope.foreign {
            (cx1, e1)
        } else {
            (cx1, ExprView { attrs: without_annotations(e1.attrs), kind: e1.kind })
        }
    }
}

/// The attributes of something after a pass has walked it.
pub open spec fn leave_attrs(cx: ContextView, scope: Scope, attrs: Seq<AttrView>) -> Seq<AttrView> {
    if cx.rewrites() && !scope.foreign {
        without_annotations(attrs)
    } else {
        attrs
    }
}

/// The pass over the expression `e`.
pub open spec fn visit_expr(cx: ContextView, scope: Scope, e: ExprView) -> (
    ContextView,
    ExprView,
)
    decreases weight_expr(e), 1int, e, 2int,
{
    if !cx.rewrites() {
        visit_children(cx, scope, e)
    } else {
        let cx1 = note_invocation(cx, e.attrs);
        let scope1 = scope.enter(e);
        let (cx2, e2) = if return_site(cx1, scope1, e) {
            visit_return(cx1, scope1, e)
        } else if try_site(cx1, scope1, e) {
            visit_try(cx1, scope1, e)
        } else {
            visit_children(cx1, scope1, e)
        };
        leave_expr(cx2, scope1, e2)
    }
}

/// `return <payload>` becomes `return <variant>(<payload>)`, and the pass
/// goes on into the payload.
pub open spec fn visit_return(cx: ContextView, scope: Scope, e: ExprView) -> (
    ContextView,
    ExprView,
)
    decreases weight_expr(e), 1int, e, 1int,
{
    let cx1 = cx.allocated(Site::Return);
    match e.kind {
        ExprKindView::Return(Some(payload)) => {
            let (cx2, p) = visit_expr(cx1, scope, *payload);
            (
                cx2,
                ExprView {
                    attrs: e.attrs,
                    kind: ExprKindView::Return(Some(Box::new(cx.next_expr(Seq::empty(), p)))),
                },
            )
        },
        _ => (
            cx1,
            ExprView {
                attrs: e.attrs,
                kind: ExprKindView::Return(
                    Some(Box::new(cx.next_expr(Seq::empty(), unit_expr()))),
                ),
            },
        ),
    }
}

/// `<inner>?` becomes a `match` on `<inner>` whose failure arm returns the
/// error inside the next variant, and the pass goes on into `<inner>`.
pub open spec fn visit_try(cx: ContextView, scope: Scope, e: ExprView) -> (
    ContextView,
    ExprView,
)
    decreases weight_expr(e), 1int, e, 1int,
{
    match e.kind {
        ExprKindView::Try(inner) => {
            let (cx2, i) = visit_expr(cx.allocated(Site::Try), scope, *inner);
            (
                cx2,
                ExprView {
                    attrs: e.attrs,
                    kind: ExprKindView::Match {
                        scrutinee: Box::new(i),
                        arms: try_arms(cx.next_expr(Seq::empty(), verbatim("err"@))),
                    },
                },
            )
        },
        _ => (cx, e),
    }
}

/// The pass over the sub-expressions of `e`, from left to right.
pub open spec fn visit_children(cx: ContextView, scope: Scope, e: ExprView) -> (
    ContextView,
    ExprView,
)
    decreases weight_expr(e), 1int, e, 1int,
{
    match e.kind {
        ExprKindView::Return(Some(payload)) => {
            let (cx1, p) = visit_expr(cx, scope, *payload);
            (cx1, ExprView { attrs: e.attrs, kind: ExprKindView::Return(Some(Box::new(p))) })
        },
        ExprKindView::Try(inner) => {
            let (cx1, i) = visit_expr(cx, scope, *inner);
            (cx1, ExprView { attrs: e.attrs, kind: ExprKindView::Try(Box::new(i)) })
        },
        ExprKindView::Closure { inputs, body } => {
            let (cx1, b) = visit_expr(cx, scope, *body);
            (
                cx1,
                ExprView {
                    attrs: e.attrs,
                    kind: ExprKindView::Closure { inputs, body: Box::new(b) },
                },
            )
        },
        ExprKindView::TryBlock(stmts) => {
            let (cx1, s) = visit_stmts(cx, scope, stmts);
            (cx1, ExprView { attrs: e.attrs, kind: ExprKindView::TryBlock(s) })
        },
        ExprKindView::Block(stmts) => {
            let (cx1, s) = visit_stmts(cx, scope, stmts);
            (cx1, ExprView { attrs: e.attrs, kind: ExprKindView::Block(s) })
        },
        ExprKindView::Match { scrutinee, arms } => {
            let (cx1, s) = visit_expr(cx, scope, *scrutinee);
            let (cx2, a) = visit_arms(cx1, scope, arms);
            (
                cx2,
                ExprView {
                    attrs: e.attrs,
                    kind: ExprKindView::Match { scrutinee: Box::new(s), arms: a },
                },
            )
        },
        ExprKindView::Call { func, args } => {
            let (cx1, f) = visit_expr(cx, scope, *func);
            let (cx2, a) = visit_exprs(cx1, scope, args);
            (
                cx2,
                ExprView {
                    attrs: e.attrs,
                    kind: ExprKindView::Call { func: Box::new(f), args: a },
                },
            )
        },
        ExprKindView::Construct { sum, variant, payload } => {
            let (cx1, p) = visit_expr(cx, scope, *payload);
            (
                cx1,
                ExprView {
                    attrs: e.attrs,
                    kind: ExprKindView::Construct { sum, variant, payload: Box::new(p) },
                },
            )
        },
        ExprKindView::Other { form, children } => {
            let (cx1, c) = visit_exprs(cx, scope, children);
            (cx1, ExprView { attrs: e.attrs, kind: ExprKindView::Other { form, children: c } })
        },
        _ => (cx, e),
    }
}

pub open spec fn visit_exprs(cx: ContextView, scope: Scope, es: Seq<ExprView>) -> (
    ContextView,
    Seq<ExprView>,
)
    decreases weight_exprs(es), 1int, es, 0int,
{
    if es.len() == 0 {
        (cx, Seq::empty())
    } else {
        let (cx1, init) = visit_exprs(cx, scope, es.drop_last());
        let (cx2, last) = visit_expr(cx1, scope, es.last());
        (cx2, init.push(last))
    }
}

/// The pass over a match arm: first the guard, then the body.
pub open spec fn visit_arm(cx: ContextView, scope: Scope, arm: ArmView) -> (
    ContextView,
    ArmView,
)
    decreases weight_arm(arm), 1int, arm, 0int,
{
    let (cx1, guard) = match arm.guard {
        Some(g) => {
            let (c, g1) = visit_expr(cx, scope, *g);
            (c, Some(Box::new(g1)))
        },
        None => (cx, None),
    };
    let (cx2, body) = visit_expr(cx1, scope, *arm.body);
    (
        cx2,
        ArmView {
            attrs: leave_attrs(cx2, scope, arm.attrs),
            pat: arm.pat,
            guard,
            body: Box::new(body),
        },
    )
}

pub open spec fn visit_arms(cx: ContextView, scope: Scope, arms: Seq<ArmView>) -> (
    ContextView,
    Seq<ArmView>,
)
    decreases weight_arms(arms), 1int, arms, 0int,
{
    if arms.len() == 0 {
        (cx, Seq::empty())
    } else {
        let (cx1, init) = visit_arms(cx, scope, arms.drop_last());
        let (cx2, last) = visit_arm(cx1, scope, arms.last());
        (cx2, init.push(last))
    }
}

/// The pass over a `let` statement.
pub open spec fn visit_local(cx: ContextView, scope: Scope, local: LocalView) -> (
    ContextView,
    LocalView,
)
    decreases weight_local(local), 1int, local, 0int,
{
    let cx1 = if cx.rewrites() {
        note_invocation(cx, local.attrs)
    } else {
        cx
    };
    let scope1 = if cx.rewrites() {
        scope.enter_attrs(local.attrs)
    } else {
        scope
    };
    let (cx2, init) = match local.init {
        Some(e) => {
            let (c, e1) = visit_expr(cx1, scope1, *e);
            (c, Some(Box::new(e1)))
        },
        None => (cx1, None),
    };
    (
        cx2,
        LocalView {
            attrs: leave_attrs(cx2, scope1, local.attrs),
            pat: local.pat,
            init,
        },
    )
}

/// The pass over a statement.  Items are left alone.
pub open spec fn visit_stmt(cx: ContextView, scope: Scope, stmt: StmtView) -> (
    ContextView,
    StmtView,
)
    decreases weight_stmt(stmt), 1int, stmt, 1int,
{
    let (cx1, s1) = match stmt {
        StmtView::Local(local) => {
            let (c, l) = visit_local(cx, scope, local);
            (c, StmtView::Local(l))
        },
        StmtView::Item(_) => (cx, stmt),
        StmtView::Expr(e) => {
            let (c, e1) = visit_expr(cx, scope, e);
            (c, StmtView::Expr(e1))
        },
        StmtView::Semi(e) => {
            let (c, e1) = visit_expr(cx, scope, e);
            (c, StmtView::Semi(e1))
        },
    };
    // a pass starts no invocation (`weight::lemma_walk_stmt_weight`), so the
    // first case is the one that holds
    if weight_stmt(s1) <= weight_stmt(stmt) {
        expand_nested(cx1, s1)
    } else {
        (cx1, s1)
    }
}

pub open spec fn visit_stmts(cx: ContextView, scope: Scope, stmts: Seq<StmtView>) -> (
    ContextView,
    Seq<StmtView>,
)
    decreases weight_stmts(stmts), 1int, stmts, 0int,
{
    if stmts.len() == 0 {
        (cx, Seq::empty())
    } else {
        let (cx1, init) = visit_stmts(cx, scope, stmts.drop_last());
        let (cx2, last) = visit_stmt(cx1, scope, stmts.last());
        (cx2, init.push(last))
    }
}

/// The pass over a statement that rewrites nothing and only runs the nested
/// invocations it meets: the pass of an invocation that requests no trait.
pub open spec fn dummy_visit_stmt(cx: ContextView, stmt: StmtView) -> (ContextView, StmtView) {
    let (cx1, s) = visit_stmt(cx.with_idle(true), Scope::outermost(), stmt);
    (cx1.with_idle(cx.idle), s)
}

/// The same pass over an expression.
pub open spec fn dummy_visit_expr(cx: ContextView, e: ExprView) -> (ContextView, ExprView) {
    let (cx1, e1) = visit_expr(cx.with_idle(true), Scope::outermost(), e);
    (cx1.with_idle(cx.idle), e1)
}

/// The attributes of a statement; an item has none that a pass reads.
pub open spec fn stmt_attrs(stmt: StmtView) -> Option<Seq<AttrView>> {
    match stmt {
        StmtView::Local(local) => Some(local.attrs),
        StmtView::Item(_) => None,
        StmtView::Expr(e) => Some(e.attrs),
        StmtView::Semi(e) => Some(e.attrs),
    }
}

pub open spec fn with_stmt_attrs(stmt: StmtView, attrs: Seq<AttrView>) -> StmtView {
    match stmt {
        StmtView::Local(local) => StmtView::Local(LocalView { attrs, ..local }),
        StmtView::Item(_) => stmt,
        StmtView::Expr(e) => StmtView::Expr(ExprView { attrs, ..e }),
        StmtView::Semi(e) => StmtView::Semi(ExprView { attrs, ..e }),
    }
}

/// What the attribute of the first nested invocation that `stmt` starts
/// holds, with the statement without that attribute.
pub open spec fn take_invocation(stmt: StmtView) -> Option<
    (Result<ConfigView, Seq<char>>, StmtView),
> {
    match stmt_attrs(stmt) {
        Some(attrs) => match first_invocation(attrs) {
            Some(i) => Some((attrs[i]->Invocation_0, with_stmt_attrs(stmt, attrs.remove(i)))),
            None => None,
        },
        None => None,
    }
}

/// Runs the nested invocation that `stmt` starts, if it starts one: with a
/// context of its own, on the statement without the attribute.  Where the
/// arguments of the attribute could not be read, or the context cannot be
/// made, the statement becomes the placeholder of the error, which is
/// recorded.
#[verifier::opaque]
pub open spec fn expand_nested(cx: ContextView, stmt: StmtView) -> (ContextView, StmtView)
    decreases weight_stmt(stmt), 0int, stmt, 0int,
{
    match take_invocation(stmt) {
        None => (cx, stmt),
        Some((Err(message), s)) => (
            cx.with_error(malformed_arguments(message)),
            StmtView::Expr(compile_error_expr(message)),
        ),
        Some((Ok(config), s)) => match child_context(cx, config) {
            Err(d) => (cx.with_error(d), StmtView::Expr(compile_error_expr(d.message))),
            // taking the attribute off makes the statement lighter
            // (`weight::lemma_take_invocation_weight`), so the first case is
            // the one that holds
            Ok(child) => if weight_stmt(s) < weight_stmt(stmt) {
                let (child1, s1) = expand_stmt(child, s);
                (
                    if child1.failed() {
                        cx.with_error(nested_failure())
                    } else {
                        cx
                    },
                    s1,
                )
            } else {
                (cx, stmt)
            },
        },
    }
}

/// The mode of a pass over the body of a function or closure.
pub open spec fn body_mode(cx: ContextView, has_try: bool) -> VisitMode {
    if !cx.detect {
        cx.visit_mode
    } else if has_try {
        VisitMode::Try
    } else {
        VisitMode::Return
    }
}

/// The declaration of the sum type of `cx`.
pub open spec fn sum_type(cx: ContextView) -> ItemView {
    ItemView::SumType {
        ident: cx.sum,
        variants: cx.variants.len(),
        traits: cx.traits,
        types: cx.types,
    }
}

/// `e`, preceded by the declaration of the sum type if any variant was
/// handed out.
#[verifier::opaque]
pub open spec fn declare(cx: ContextView, e: ExprView) -> ExprView {
    if cx.variants.len() > 0 {
        ExprView {
            attrs: Seq::empty(),
            kind: ExprKindView::Block(seq![StmtView::Item(sum_type(cx)), StmtView::Expr(e)]),
        }
    } else {
        e
    }
}

/// One whole invocation on the expression `e`.  Where the invocation
/// requests no trait, the pass that rewrites nothing is run.
#[verifier::opaque]
pub open spec fn expand_expr(cx: ContextView, e: ExprView) -> (ContextView, ExprView)
    decreases weight_expr(e), 1int, e, 3int,
{
    if cx.is_dummy() {
        let (c, e1) = visit_expr(cx.with_idle(true), Scope::outermost(), e);
        (c.with_idle(cx.idle), e1)
    } else {
        let (cx1, e1) = match e.kind {
            ExprKindView::Closure { inputs, body } => {
                let mode = body_mode(cx, find_try_expr(cx.marker.ident, Scope::outermost(), *body));
                let (c, b) = visit_expr(cx.with_mode(mode), Scope::outermost(), *body);
                (
                    c,
                    ExprView {
                        attrs: e.attrs,
                        kind: ExprKindView::Closure { inputs, body: Box::new(b) },
                    },
                )
            },
            _ => visit_expr(cx, Scope::outermost(), e),
        };
        (cx1, declare(cx1, e1))
    }
}

/// One whole invocation on the body of a function, given as its
/// statements: the mode of the pass is chosen as for a closure, the pass is
/// run, and if it handed out any variant the declaration of the sum type is
/// put in front of the statements.
pub open spec fn expand_body(cx: ContextView, stmts: Seq<StmtView>) -> (
    ContextView,
    Seq<StmtView>,
) {
    if cx.is_dummy() {
        let (c, s) = visit_stmts(cx.with_idle(true), Scope::outermost(), stmts);
        (c.with_idle(cx.idle), s)
    } else {
        let mode = body_mode(cx, find_try_stmts(cx.marker.ident, Scope::outermost(), stmts));
        let (c, s) = visit_stmts(cx.with_mode(mode), Scope::outermost(), stmts);
        (
            c,
            if c.variants.len() > 0 {
                seq![StmtView::Item(sum_type(c))] + s
            } else {
                s
            },
        )
    }
}

/// One whole invocation on the statement `stmt`.
pub open spec fn expand_stmt(cx: ContextView, stmt: StmtView) -> (
    ContextView,
    StmtView,
)
    decreases weight_stmt(stmt), 1int, stmt, 4int,
{
    match stmt {
        StmtView::Local(local) => match local.init {
            Some(e) => {
                let (c, e1) = expand_expr(cx, *e);
                (c, StmtView::Local(LocalView { init: Some(Box::new(e1)), ..local }))
            },
            None => (cx, stmt),
        },
        StmtView::Item(_) => (cx, stmt),
        StmtView::Expr(e) => {
            let (c, e1) = expand_expr(cx, e);
            (c, StmtView::Expr(e1))
        },
        StmtView::Semi(e) => {
            let (c, e1) = expand_expr(cx, e);
            (c, StmtView::Semi(e1))
        },
    }
}

/// Whether the scan for `?` finds one in `e` that a pass in try mode would
/// rewrite.  The scan does not look into closures, `try` blocks, items, or
/// what a nested invocation covers.
pub open spec fn find_try_expr(marker: Seq<char>, scope: Scope, e: ExprView) -> bool
    decreases e, 1int,
{
    let scope1 = scope.enter(e);
    let here = {
        &&& e.kind matches ExprKindView::Try(inner)
        &&& !scope1.closure
        &&& !scope1.try_block
        &&& !scope.foreign
        &&& !any_empty_attr(e.attrs, NEVER@)
        &&& !(inner.kind matches ExprKindView::Macro { path, .. } && path == marker)
    };
    here || find_try_children(marker, scope1, e)
}

pub open spec fn find_try_children(marker: Seq<char>, scope: Scope, e: ExprView) -> bool
    decreases e, 0int,
{
    match e.kind {
        ExprKindView::Return(Some(payload)) => find_try_expr(marker, scope, *payload),
        ExprKindView::Try(inner) => find_try_expr(marker, scope, *inner),
        ExprKindView::Closure { body, .. } => find_try_expr(marker, scope, *body),
        ExprKindView::TryBlock(stmts) => find_try_stmts(marker, scope, stmts),
        ExprKindView::Block(stmts) => find_try_stmts(marker, scope, stmts),
        ExprKindView::Match { scrutinee, arms } => find_try_expr(marker, scope, *scrutinee)
            || find_try_arms(marker, scope, arms),
        ExprKindView::Call { func, args } => find_try_expr(marker, scope, *func)
            || find_try_exprs(marker, scope, args),
        ExprKindView::Construct { payload, .. } => find_try_expr(marker, scope, *payload),
        ExprKindView::Other { children, .. } => find_try_exprs(marker, scope, children),
        _ => false,
    }
}

pub open spec fn find_try_exprs(marker: Seq<char>, scope: Scope, es: Seq<ExprView>) -> bool
    decreases es, 0int,
{
    exists|i: int| 0 <= i < es.len() && find_try_expr(marker, scope, es[i])
}

pub open spec fn find_try_arm(marker: Seq<char>, scope: Scope, arm: ArmView) -> bool
    decreases arm, 0int,
{
    ||| (arm.guard matches Some(g) && find_try_expr(marker, scope, *g))
    ||| find_try_expr(marker, scope, *arm.body)
}

pub open spec fn find_try_arms(marker: Seq<char>, scope: Scope, arms: Seq<ArmView>) -> bool
    decreases arms, 0int,
{
    exists|i: int| 0 <= i < arms.len() && find_try_arm(marker, scope, arms[i])
}

pub open spec fn find_try_local(marker: Seq<char>, scope: Scope, local: LocalView) -> bool
    decreases local, 0int,
{
    local.init matches Some(e) && find_try_expr(marker, scope.enter_attrs(local.attrs), *e)
}

pub open spec fn find_try_stmt(marker: Seq<char>, scope: Scope, stmt: StmtView) -> bool
    decreases stmt, 1int,
{
    match stmt {
        StmtView::Local(local) => find_try_local(marker, scope, local),
        StmtView::Item(_) => false,
        StmtView::Expr(e) => find_try_expr(marker, scope, e),
        StmtView::Semi(e) => find_try_expr(marker, scope, e),
    }
}

pub open spec fn find_try_stmts(marker: Seq<char>, scope: Scope, stmts: Seq<StmtView>) -> bool
    decreases stmts, 0int,
{
    exists|i: int| 0 <= i < stmts.len() && find_try_stmt(marker, scope, stmts[i])
}

} // verus!
