//! The variants that a pass hands out and the constructors that it puts
//! into the body answer each other one for one.

use vstd::prelude::*;

use crate::context::{verbatim, ContextView, Site};
use crate::progress::{
    lemma_visit_children_progress, lemma_visit_expr_progress, lemma_visit_return_progress,
    lemma_visit_try_progress,
};
use crate::semantics::{
    leave_expr, note_invocation, return_site, try_arms, try_site, visit_arm, visit_arms,
    visit_children, visit_expr, visit_exprs, visit_local, visit_return, visit_stmt, visit_stmts,
    visit_try, Scope,
};
use crate::single::{
    lemma_single_stmt, single_arm, single_arms, single_expr, single_exprs, single_local,
    single_stmt, single_stmts,
};
use crate::syntax::{ArmView, ExprKindView, ExprView, LocalView, StmtView};

verus! {

/// 1 if `e` itself constructs variant `k` of `sum`, else 0.
pub open spec fn constructs(sum: Seq<char>, k: nat, e: ExprView) -> nat {
    match e.kind {
        ExprKindView::Construct { sum: s, variant, .. } => if s == sum && variant == k {
            1
        } else {
            0
        },
        _ => 0,
    }
}

/// The number of constructors of variant `k` of `sum` in `e`.
pub open spec fn count_expr(sum: Seq<char>, k: nat, e: ExprView) -> nat
    decreases e, 1int,
{
    constructs(sum, k, e) + match e.kind {
        ExprKindView::Return(Some(payload)) => count_expr(sum, k, *payload),
        ExprKindView::Try(inner) => count_expr(sum, k, *inner),
        ExprKindView::Closure { body, .. } => count_expr(sum, k, *body),
        ExprKindView::TryBlock(stmts) => count_stmts(sum, k, stmts),
        ExprKindView::Block(stmts) => count_stmts(sum, k, stmts),
        ExprKindView::Match { scrutinee, arms } => count_expr(sum, k, *scrutinee) + count_arms(
            sum,
            k,
            arms,
        ),
        ExprKindView::Call { func, args } => count_expr(sum, k, *func) + count_exprs(sum, k, args),
        ExprKindView::Construct { payload, .. } => count_expr(sum, k, *payload),
        ExprKindView::Other { children, .. } => count_exprs(sum, k, children),
        _ => 0,
    }
}

pub open spec fn count_exprs(sum: Seq<char>, k: nat, es: Seq<ExprView>) -> nat
    decreases es, 0int,
{
    if es.len() == 0 {
        0
    } else {
        count_exprs(sum, k, es.drop_last()) + count_expr(sum, k, es.last())
    }
}

pub open spec fn count_arm(sum: Seq<char>, k: nat, arm: ArmView) -> nat
    decreases arm, 0int,
{
    (match arm.guard {
        Some(g) => count_expr(sum, k, *g),
        None => 0,
    }) + count_expr(sum, k, *arm.body)
}

pub open spec fn count_arms(sum: Seq<char>, k: nat, arms: Seq<ArmView>) -> nat
    decreases arms, 0int,
{
    if arms.len() == 0 {
        0
    } else {
        count_arms(sum, k, arms.drop_last()) + count_arm(sum, k, arms.last())
    }
}

pub open spec fn count_local(sum: Seq<char>, k: nat, local: LocalView) -> nat
    decreases local, 0int,
{
    match local.init {
        Some(e) => count_expr(sum, k, *e),
        None => 0,
    }
}

pub open spec fn count_stmt(sum: Seq<char>, k: nat, stmt: StmtView) -> nat
    decreases stmt, 1int,
{
    match stmt {
        StmtView::Local(local) => count_local(sum, k, local),
        StmtView::Item(_) => 0,
        StmtView::Expr(e) => count_expr(sum, k, e),
        StmtView::Semi(e) => count_expr(sum, k, e),
    }
}

pub open spec fn count_stmts(sum: Seq<char>, k: nat, stmts: Seq<StmtView>) -> nat
    decreases stmts, 0int,
{
    if stmts.len() == 0 {
        0
    } else {
        count_stmts(sum, k, stmts.drop_last()) + count_stmt(sum, k, stmts.last())
    }
}

/// 1 if variant `k` of `sum` was handed out between the states `a` and
/// `b` of one invocation, else 0.
pub open spec fn handed_out(a: ContextView, b: ContextView, sum: Seq<char>, k: nat) -> nat {
    if sum == a.sum && a.variants.len() <= k < b.variants.len() {
        1
    } else {
        0
    }
}

/// The pass from `a` to `b` has turned a body with `before` constructors
/// of variant `k` into one with `after`.
pub open spec fn counted(
    a: ContextView,
    b: ContextView,
    sum: Seq<char>,
    k: nat,
    before: nat,
    after: nat,
) -> bool {
    &&& b.sum == a.sum
    &&& a.variants.len() <= b.variants.len()
    &&& after == before + handed_out(a, b, sum, k)
}

proof fn lemma_count_try_arms(sum: Seq<char>, k: nat, failure: ExprView)
    ensures
        count_arms(sum, k, try_arms(failure)) == count_expr(sum, k, failure),
{
    let arms = try_arms(failure);
    assert(arms.drop_last() =~= seq![arms[0]]);
    assert(arms.drop_last().drop_last() =~= Seq::<ArmView>::empty());
    reveal_with_fuel(count_arms, 3);
    let body = *arms[1].body;
    let call = *body.kind->Return_0->Some_0;
    let args = call.kind->Call_args;
    assert(args.drop_last() =~= Seq::<ExprView>::empty());
    reveal_with_fuel(count_exprs, 2);
    reveal_with_fuel(count_expr, 3);
    assert(count_exprs(sum, k, args) == count_expr(sum, k, failure));
    assert(count_expr(sum, k, call) == count_expr(sum, k, failure));
    assert(count_expr(sum, k, body) == count_expr(sum, k, failure));
    assert(count_expr(sum, k, *arms[0].body) == 0);
}

/// Every variant that a pass hands out is built by exactly one constructor
/// that the pass puts into the body, and the pass puts in no other: for
/// each number `k`, the body holds after the pass one constructor of
/// variant `k` of the invocation's sum type more than before if `k` was
/// handed out during the pass, and as many as before if it was not.  The
/// numbers handed out by one invocation are therefore pairwise distinct.
/// The law speaks of the pass of one invocation: no nested invocation
/// starts in the body.
pub proof fn law_one_constructor_per_variant(
    cx: ContextView,
    scope: Scope,
    e: ExprView,
    sum: Seq<char>,
    k: nat,
)
    requires
        single_expr(e),
    ensures
        ({
            let (after, e1) = visit_expr(cx, scope, e);
            counted(cx, after, sum, k, count_expr(sum, k, e), count_expr(sum, k, e1))
        }),
{
    lemma_count_expr(cx, scope, e, sum, k);
}

proof fn lemma_count_expr(cx: ContextView, scope: Scope, e: ExprView, sum: Seq<char>, k: nat)
    requires
        single_expr(e),
    ensures
        ({
            let (after, e1) = visit_expr(cx, scope, e);
            counted(cx, after, sum, k, count_expr(sum, k, e), count_expr(sum, k, e1))
        }),
    decreases e, 2int,
{
    lemma_visit_expr_progress(cx, scope, e);
    if !cx.rewrites() {
        lemma_count_children(cx, scope, e, sum, k);
    } else {
        let cx1 = note_invocation(cx, e.attrs);
        let scope1 = scope.enter(e);
        let (cx2, e2) = if return_site(cx1, scope1, e) {
            lemma_count_return(cx1, scope1, e, sum, k);
            visit_return(cx1, scope1, e)
        } else if try_site(cx1, scope1, e) {
            lemma_count_try(cx1, scope1, e, sum, k);
            visit_try(cx1, scope1, e)
        } else {
            lemma_count_children(cx1, scope1, e, sum, k);
            visit_children(cx1, scope1, e)
        };
        assert(counted(cx, cx2, sum, k, count_expr(sum, k, e), count_expr(sum, k, e2)));
        lemma_count_leave(cx2, scope1, e2, sum, k);
        let (cx3, e3) = leave_expr(cx2, scope1, e2);
        assert(counted(cx2, cx3, sum, k, count_expr(sum, k, e2), count_expr(sum, k, e3)));
        assert(visit_expr(cx, scope, e) == (cx3, e3));
    }
}

proof fn lemma_count_leave(cx: ContextView, scope: Scope, e: ExprView, sum: Seq<char>, k: nat)
    ensures
        ({
            let (after, e1) = leave_expr(cx, scope, e);
            counted(cx, after, sum, k, count_expr(sum, k, e), count_expr(sum, k, e1))
        }),
{
    reveal(leave_expr);
    reveal_with_fuel(count_expr, 2);
}

proof fn lemma_count_return(cx: ContextView, scope: Scope, e: ExprView, sum: Seq<char>, k: nat)
    requires
        single_expr(e),
        e.kind is Return,
        cx.visit_mode == crate::syntax::VisitMode::Return,
        cx.rewrites(),
        !scope.closure,
    ensures
        ({
            let (after, e1) = visit_return(cx, scope, e);
            counted(cx, after, sum, k, count_expr(sum, k, e), count_expr(sum, k, e1))
        }),
    decreases e, 1int,
{
    lemma_visit_return_progress(cx, scope, e);
    reveal_with_fuel(count_expr, 3);
    match e.kind {
        ExprKindView::Return(Some(payload)) => {
            lemma_count_expr(cx.allocated(Site::Return), scope, *payload, sum, k);
        },
        _ => {},
    }
}

proof fn lemma_count_try(cx: ContextView, scope: Scope, e: ExprView, sum: Seq<char>, k: nat)
    requires
        single_expr(e),
        e.kind is Try,
        cx.visit_mode == crate::syntax::VisitMode::Try,
        cx.rewrites(),
        !scope.closure,
    ensures
        ({
            let (after, e1) = visit_try(cx, scope, e);
            counted(cx, after, sum, k, count_expr(sum, k, e), count_expr(sum, k, e1))
        }),
    decreases e, 1int,
{
    lemma_visit_try_progress(cx, scope, e);
    match e.kind {
        ExprKindView::Try(inner) => {
            lemma_count_expr(cx.allocated(Site::Try), scope, *inner, sum, k);
            let failure = cx.next_expr(Seq::empty(), verbatim("err"@));
            lemma_count_try_arms(sum, k, failure);
            reveal_with_fuel(count_expr, 2);
        },
        _ => {},
    }
}

proof fn lemma_count_children(cx: ContextView, scope: Scope, e: ExprView, sum: Seq<char>, k: nat)
    requires
        single_expr(e),
    ensures
        ({
            let (after, e1) = visit_children(cx, scope, e);
            counted(cx, after, sum, k, count_expr(sum, k, e), count_expr(sum, k, e1))
        }),
    decreases e, 1int,
{
    lemma_visit_children_progress(cx, scope, e);
    match e.kind {
        ExprKindView::Return(Some(payload)) => {
            lemma_count_expr(cx, scope, *payload, sum, k);
        },
        ExprKindView::Try(inner) => {
            lemma_count_expr(cx, scope, *inner, sum, k);
        },
        ExprKindView::Closure { body, .. } => {
            lemma_count_expr(cx, scope, *body, sum, k);
        },
        ExprKindView::TryBlock(stmts) => {
            lemma_count_stmts(cx, scope, stmts, sum, k);
        },
        ExprKindView::Block(stmts) => {
            lemma_count_stmts(cx, scope, stmts, sum, k);
        },
        ExprKindView::Match { scrutinee, arms } => {
            lemma_count_expr(cx, scope, *scrutinee, sum, k);
            lemma_visit_expr_progress(cx, scope, *scrutinee);
            lemma_count_arms(visit_expr(cx, scope, *scrutinee).0, scope, arms, sum, k);
        },
        ExprKindView::Call { func, args } => {
            lemma_count_expr(cx, scope, *func, sum, k);
            lemma_visit_expr_progress(cx, scope, *func);
            lemma_count_exprs(visit_expr(cx, scope, *func).0, scope, args, sum, k);
        },
        ExprKindView::Construct { payload, .. } => {
            lemma_count_expr(cx, scope, *payload, sum, k);
        },
        ExprKindView::Other { children, .. } => {
            lemma_count_exprs(cx, scope, children, sum, k);
        },
        _ => {},
    }
}

proof fn lemma_count_exprs(cx: ContextView, scope: Scope, es: Seq<ExprView>, sum: Seq<char>, k: nat)
    requires
        single_exprs(es),
    ensures
        ({
            let (after, es1) = visit_exprs(cx, scope, es);
            counted(cx, after, sum, k, count_exprs(sum, k, es), count_exprs(sum, k, es1))
        }),
    decreases es, 0int,
{
    if es.len() > 0 {
        assert forall|i: int| 0 <= i < es.drop_last().len() implies single_expr(
            #[trigger] es.drop_last()[i],
        ) by {
            assert(es.drop_last()[i] == es[i]);
        }
        lemma_count_exprs(cx, scope, es.drop_last(), sum, k);
        let (cx1, init) = visit_exprs(cx, scope, es.drop_last());
        lemma_count_expr(cx1, scope, es.last(), sum, k);
        let (cx2, last) = visit_expr(cx1, scope, es.last());
        assert(init.push(last).drop_last() =~= init);
    }
}

proof fn lemma_count_arm(cx: ContextView, scope: Scope, arm: ArmView, sum: Seq<char>, k: nat)
    requires
        single_arm(arm),
    ensures
        ({
            let (after, arm1) = visit_arm(cx, scope, arm);
            counted(cx, after, sum, k, count_arm(sum, k, arm), count_arm(sum, k, arm1))
        }),
    decreases arm, 0int,
{
    let cx1 = match arm.guard {
        Some(g) => {
            lemma_count_expr(cx, scope, *g, sum, k);
            visit_expr(cx, scope, *g).0
        },
        None => cx,
    };
    lemma_count_expr(cx1, scope, *arm.body, sum, k);
}

proof fn lemma_count_arms(cx: ContextView, scope: Scope, arms: Seq<ArmView>, sum: Seq<char>, k: nat)
    requires
        single_arms(arms),
    ensures
        ({
            let (after, arms1) = visit_arms(cx, scope, arms);
            counted(cx, after, sum, k, count_arms(sum, k, arms), count_arms(sum, k, arms1))
        }),
    decreases arms, 0int,
{
    if arms.len() > 0 {
        assert forall|i: int| 0 <= i < arms.drop_last().len() implies single_arm(
            #[trigger] arms.drop_last()[i],
        ) by {
            assert(arms.drop_last()[i] == arms[i]);
        }
        lemma_count_arms(cx, scope, arms.drop_last(), sum, k);
        let (cx1, init) = visit_arms(cx, scope, arms.drop_last());
        lemma_count_arm(cx1, scope, arms.last(), sum, k);
        let (cx2, last) = visit_arm(cx1, scope, arms.last());
        assert(init.push(last).drop_last() =~= init);
    }
}

proof fn lemma_count_local(cx: ContextView, scope: Scope, local: LocalView, sum: Seq<char>, k: nat)
    requires
        single_local(local),
    ensures
        ({
            let (after, local1) = visit_local(cx, scope, local);
            counted(cx, after, sum, k, count_local(sum, k, local), count_local(sum, k, local1))
        }),
    decreases local, 0int,
{
    let cx1 = if cx.rewrites() {
        note_invocation(cx, local.attrs)
    } else {
        cx
    };
    let scope1 = if cx.rewrites() {
        scope.enter_attrs(local.attrs)
    } else {
        scope
    };
    match local.init {
        Some(e) => {
            lemma_count_expr(cx1, scope1, *e, sum, k);
        },
        None => {},
    }
}

proof fn lemma_count_stmt(cx: ContextView, scope: Scope, stmt: StmtView, sum: Seq<char>, k: nat)
    requires
        single_stmt(stmt),
    ensures
        ({
            let (after, stmt1) = visit_stmt(cx, scope, stmt);
            counted(cx, after, sum, k, count_stmt(sum, k, stmt), count_stmt(sum, k, stmt1))
        }),
    decreases stmt, 1int,
{
    lemma_single_stmt(cx, scope, stmt);
    match stmt {
        StmtView::Local(local) => {
            lemma_count_local(cx, scope, local, sum, k);
        },
        StmtView::Item(_) => {},
        StmtView::Expr(e) => {
            lemma_count_expr(cx, scope, e, sum, k);
        },
        StmtView::Semi(e) => {
            lemma_count_expr(cx, scope, e, sum, k);
        },
    }
}

/// The same for the statements of a block.
pub proof fn lemma_count_stmts(
    cx: ContextView,
    scope: Scope,
    stmts: Seq<StmtView>,
    sum: Seq<char>,
    k: nat,
)
    requires
        single_stmts(stmts),
    ensures
        ({
            let (after, stmts1) = visit_stmts(cx, scope, stmts);
            counted(cx, after, sum, k, count_stmts(sum, k, stmts), count_stmts(sum, k, stmts1))
        }),
    decreases stmts, 0int,
{
    if stmts.len() > 0 {
        assert forall|i: int| 0 <= i < stmts.drop_last().len() implies single_stmt(
            #[trigger] stmts.drop_last()[i],
        ) by {
            assert(stmts.drop_last()[i] == stmts[i]);
        }
        lemma_count_stmts(cx, scope, stmts.drop_last(), sum, k);
        let (cx1, init) = visit_stmts(cx, scope, stmts.drop_last());
        lemma_count_stmt(cx1, scope, stmts.last(), sum, k);
        let (cx2, last) = visit_stmt(cx1, scope, stmts.last());
        assert(init.push(last).drop_last() =~= init);
    }
}

/// The pass hands out its numbers from left to right: of two runs of
/// statements, every constructor that the pass puts into the first carries a
/// number below the one that is next when the pass comes to the second, and
/// every constructor that it puts into the second carries that number or a
/// later one.
pub proof fn law_left_before_right(
    cx: ContextView,
    scope: Scope,
    a: Seq<StmtView>,
    b: Seq<StmtView>,
    k: nat,
)
    requires
        single_stmts(a),
        single_stmts(b),
    ensures
        ({
            let (cx1, a1) = visit_stmts(cx, scope, a);
            let (cx2, b1) = visit_stmts(cx1, scope, b);
            &&& visit_stmts(cx, scope, a + b) == (cx2, a1 + b1)
            &&& count_stmts(cx.sum, k, a1) > count_stmts(cx.sum, k, a) ==> cx.variants.len() <= k
                < cx1.variants.len()
            &&& count_stmts(cx.sum, k, b1) > count_stmts(cx.sum, k, b) ==> cx1.variants.len() <= k
                < cx2.variants.len()
        }),
{
    crate::laws::law_statements_in_order(cx, scope, a, b);
    lemma_count_stmts(cx, scope, a, cx.sum, k);
    let cx1 = visit_stmts(cx, scope, a).0;
    lemma_count_stmts(cx1, scope, b, cx.sum, k);
}

/// The same from one expression of a list to the next, as among the
/// arguments of a call.
pub proof fn law_left_before_right_exprs(
    cx: ContextView,
    scope: Scope,
    a: Seq<ExprView>,
    b: Seq<ExprView>,
    k: nat,
)
    requires
        single_exprs(a),
        single_exprs(b),
    ensures
        ({
            let (cx1, a1) = visit_exprs(cx, scope, a);
            let (cx2, b1) = visit_exprs(cx1, scope, b);
            &&& visit_exprs(cx, scope, a + b) == (cx2, a1 + b1)
            &&& count_exprs(cx.sum, k, a1) > count_exprs(cx.sum, k, a) ==> cx.variants.len() <= k
                < cx1.variants.len()
            &&& count_exprs(cx.sum, k, b1) > count_exprs(cx.sum, k, b) ==> cx1.variants.len() <= k
                < cx2.variants.len()
        }),
{
    crate::laws::law_expressions_in_order(cx, scope, a, b);
    lemma_count_exprs(cx, scope, a, cx.sum, k);
    let cx1 = visit_exprs(cx, scope, a).0;
    lemma_count_exprs(cx1, scope, b, cx.sum, k);
}

/// Inside a `match` the pass hands out its numbers to the scrutinee first,
/// then to the arms from first to last, and in each arm to the guard before
/// the body.
pub proof fn law_scrutinee_before_arms(
    cx: ContextView,
    scope: Scope,
    scrutinee: ExprView,
    arms: Seq<ArmView>,
    k: nat,
)
    requires
        single_expr(scrutinee),
        single_arms(arms),
    ensures
        ({
            let (cx1, s1) = visit_expr(cx, scope, scrutinee);
            let (cx2, a1) = visit_arms(cx1, scope, arms);
            &&& count_expr(cx.sum, k, s1) > count_expr(cx.sum, k, scrutinee) ==> cx.variants.len()
                <= k < cx1.variants.len()
            &&& count_arms(cx.sum, k, a1) > count_arms(cx.sum, k, arms) ==> cx1.variants.len() <= k
                < cx2.variants.len()
        }),
{
    lemma_count_expr(cx, scope, scrutinee, cx.sum, k);
    let cx1 = visit_expr(cx, scope, scrutinee).0;
    lemma_count_arms(cx1, scope, arms, cx.sum, k);
}

/// From one arm of a `match` to the next.
pub proof fn law_arm_before_next_arm(
    cx: ContextView,
    scope: Scope,
    first: ArmView,
    second: ArmView,
    k: nat,
)
    requires
        single_arm(first),
        single_arm(second),
    ensures
        ({
            let (cx1, a1) = visit_arm(cx, scope, first);
            let (cx2, b1) = visit_arm(cx1, scope, second);
            &&& visit_arms(cx, scope, seq![first, second]) == (cx2, seq![a1, b1])
            &&& count_arm(cx.sum, k, a1) > count_arm(cx.sum, k, first) ==> cx.variants.len() <= k
                < cx1.variants.len()
            &&& count_arm(cx.sum, k, b1) > count_arm(cx.sum, k, second) ==> cx1.variants.len() <= k
                < cx2.variants.len()
        }),
{
    lemma_count_arm(cx, scope, first, cx.sum, k);
    let (cx1, a1) = visit_arm(cx, scope, first);
    lemma_count_arm(cx1, scope, second, cx.sum, k);
    let (cx2, b1) = visit_arm(cx1, scope, second);
    let both = seq![first, second];
    assert(both.drop_last() =~= seq![first]);
    assert(both.drop_last().drop_last() =~= Seq::<ArmView>::empty());
    reveal_with_fuel(visit_arms, 3);
    assert(Seq::<ArmView>::empty().push(a1).push(b1) =~= seq![a1, b1]);
}

/// In an arm the guard comes before the body.
pub proof fn law_guard_before_body(
    cx: ContextView,
    scope: Scope,
    guard: ExprView,
    body: ExprView,
    k: nat,
)
    requires
        single_expr(guard),
        single_expr(body),
    ensures
        ({
            let (cx1, g1) = visit_expr(cx, scope, guard);
            let (cx2, b1) = visit_expr(cx1, scope, body);
            let arm = ArmView {
                attrs: Seq::empty(),
                pat: Seq::empty(),
                guard: Some(Box::new(guard)),
                body: Box::new(body),
            };
            &&& visit_arm(cx, scope, arm).0 == cx2
            &&& visit_arm(cx, scope, arm).1.guard == Some(Box::new(g1))
            &&& *visit_arm(cx, scope, arm).1.body == b1
            &&& count_expr(cx.sum, k, g1) > count_expr(cx.sum, k, guard) ==> cx.variants.len() <= k
                < cx1.variants.len()
            &&& count_expr(cx.sum, k, b1) > count_expr(cx.sum, k, body) ==> cx1.variants.len() <= k
                < cx2.variants.len()
        }),
{
    lemma_count_expr(cx, scope, guard, cx.sum, k);
    let cx1 = visit_expr(cx, scope, guard).0;
    lemma_count_expr(cx1, scope, body, cx.sum, k);
}

/// In a call the callee comes before the arguments.
pub proof fn law_callee_before_arguments(
    cx: ContextView,
    scope: Scope,
    func: ExprView,
    args: Seq<ExprView>,
    k: nat,
)
    requires
        single_expr(func),
        single_exprs(args),
    ensures
        ({
            let (cx1, f1) = visit_expr(cx, scope, func);
            let (cx2, a1) = visit_exprs(cx1, scope, args);
            &&& count_expr(cx.sum, k, f1) > count_expr(cx.sum, k, func) ==> cx.variants.len() <= k
                < cx1.variants.len()
            &&& count_exprs(cx.sum, k, a1) > count_exprs(cx.sum, k, args) ==> cx1.variants.len()
                <= k < cx2.variants.len()
        }),
{
    lemma_count_expr(cx, scope, func, cx.sum, k);
    let cx1 = visit_expr(cx, scope, func).0;
    lemma_count_exprs(cx1, scope, args, cx.sum, k);
}

/// What the pass puts into a part of the body carries the numbers that it
/// hands out while it is in that part, and no others: the numbers of the
/// constructors gained by an expression lie between the number that was
/// next when the pass came to the expression and the one that is next when
/// it leaves.  With the laws on the order of the parts this orders any two
/// rewritten places of a body: they stand in two parts of one node, or one
/// of them is the node around the other.
pub proof fn law_numbers_stay_in_their_part(cx: ContextView, scope: Scope, e: ExprView, k: nat)
    requires
        single_expr(e),
    ensures
        ({
            let (after, e1) = visit_expr(cx, scope, e);
            &&& cx.variants.len() <= after.variants.len()
            &&& count_expr(cx.sum, k, e1) > count_expr(cx.sum, k, e) ==> cx.variants.len() <= k
                < after.variants.len()
            &&& count_expr(cx.sum, k, e1) >= count_expr(cx.sum, k, e)
        }),
{
    lemma_count_expr(cx, scope, e, cx.sum, k);
}

} // verus!
