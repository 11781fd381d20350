//! Reading the arguments of the marker macros of a body, before a pass.
//!
//! A marker is in scope where an invocation that names it covers the place:
//! the invocation that the body belongs to, and every nested invocation
//! whose attribute stands on an expression or `let` statement around it.

use vstd::prelude::*;
use vstd::string::StringExecFns;

use crate::context::{contains_name, Context};
use crate::parse::{is_readable, read_as_expression, readable};
use crate::syntax::{
    arms_view, attrs_view, exprs_view, stmts_view, strings_view, Arm, ArmView, Attr, AttrView, Expr,
    ExprKind, ExprKindView, ExprView, Local, LocalView, Stmt, StmtView, DEFAULT_MARKER,
};

verus! {

broadcast use vstd::std_specs::vec::group_vec_axioms;

/// The markers that `attrs` bring into scope: the marker of every nested
/// invocation among them whose arguments were read, in their order.
pub open spec fn markers_of(attrs: Seq<AttrView>) -> Seq<Seq<char>>
    decreases attrs.len(),
{
    if attrs.len() == 0 {
        Seq::empty()
    } else {
        let rest = markers_of(attrs.drop_last());
        match attrs.last() {
            AttrView::Invocation(Ok(config)) => rest.push(config.marker_ident()),
            _ => rest,
        }
    }
}

/// `b` is `a` after the arguments of marker macros were read, with the
/// markers `m` in scope around it: nothing differs but what is held against
/// the argument of a macro, and that only on a macro that is named by a
/// marker in scope, had nothing held against it, and has an argument that
/// the parser is given.
pub open spec fn read_expr(m: Seq<Seq<char>>, a: ExprView, b: ExprView) -> bool
    decreases a, 1int,
{
    b.attrs == a.attrs && read_kind(m + markers_of(a.attrs), a, b)
}

pub open spec fn read_kind(m: Seq<Seq<char>>, a: ExprView, b: ExprView) -> bool
    decreases a, 0int,
{
    match a.kind {
        ExprKindView::Macro { path, tokens, error } => {
            &&& b.kind matches ExprKindView::Macro { path: p, tokens: t, error: e }
            &&& p == path
            &&& t == tokens
            &&& !m.contains(path) || error is Some || !readable(tokens) ==> e == error
        },
        ExprKindView::Return(Some(x)) => b.kind matches ExprKindView::Return(Some(y))
            && read_expr(m, *x, *y),
        ExprKindView::Try(x) => b.kind matches ExprKindView::Try(y) && read_expr(m, *x, *y),
        ExprKindView::Closure { inputs, body } => {
            &&& b.kind matches ExprKindView::Closure { inputs: i, body: y }
            &&& i == inputs
            &&& read_expr(m, *body, *y)
        },
        ExprKindView::TryBlock(s) => b.kind matches ExprKindView::TryBlock(t) && read_stmts(
            m,
            s,
            t,
        ),
        ExprKindView::Block(s) => b.kind matches ExprKindView::Block(t) && read_stmts(m, s, t),
        ExprKindView::Match { scrutinee, arms } => {
            &&& b.kind matches ExprKindView::Match { scrutinee: y, arms: t }
            &&& read_expr(m, *scrutinee, *y)
            &&& read_arms(m, arms, t)
        },
        ExprKindView::Call { func, args } => {
            &&& b.kind matches ExprKindView::Call { func: y, args: t }
            &&& read_expr(m, *func, *y)
            &&& read_exprs(m, args, t)
        },
        ExprKindView::Construct { sum, variant, payload } => {
            &&& b.kind matches ExprKindView::Construct { sum: s, variant: v, payload: y }
            &&& s == sum
            &&& v == variant
            &&& read_expr(m, *payload, *y)
        },
        ExprKindView::Other { form, children } => {
            &&& b.kind matches ExprKindView::Other { form: f, children: t }
            &&& f == form
            &&& read_exprs(m, children, t)
        },
        _ => b.kind == a.kind,
    }
}

pub open spec fn read_exprs(m: Seq<Seq<char>>, a: Seq<ExprView>, b: Seq<ExprView>) -> bool
    decreases a, 0int,
{
    a.len() == b.len() && forall|i: int| 0 <= i < a.len() ==> read_expr(m, #[trigger] a[i], b[i])
}

pub open spec fn read_arm(m: Seq<Seq<char>>, a: ArmView, b: ArmView) -> bool
    decreases a, 0int,
{
    &&& b.attrs == a.attrs
    &&& b.pat == a.pat
    &&& match a.guard {
        Some(x) => b.guard matches Some(y) && read_expr(m, *x, *y),
        None => b.guard is None,
    }
    &&& read_expr(m, *a.body, *b.body)
}

pub open spec fn read_arms(m: Seq<Seq<char>>, a: Seq<ArmView>, b: Seq<ArmView>) -> bool
    decreases a, 0int,
{
    a.len() == b.len() && forall|i: int| 0 <= i < a.len() ==> read_arm(m, #[trigger] a[i], b[i])
}

pub open spec fn read_local(m: Seq<Seq<char>>, a: LocalView, b: LocalView) -> bool
    decreases a, 0int,
{
    &&& b.attrs == a.attrs
    &&& b.pat == a.pat
    &&& match a.init {
        Some(x) => b.init matches Some(y) && read_expr(m + markers_of(a.attrs), *x, *y),
        None => b.init is None,
    }
}

pub open spec fn read_stmt(m: Seq<Seq<char>>, a: StmtView, b: StmtView) -> bool
    decreases a, 1int,
{
    match a {
        StmtView::Local(x) => b matches StmtView::Local(y) && read_local(m, x, y),
        StmtView::Item(_) => b == a,
        StmtView::Expr(x) => b matches StmtView::Expr(y) && read_expr(m, x, y),
        StmtView::Semi(x) => b matches StmtView::Semi(y) && read_expr(m, x, y),
    }
}

pub open spec fn read_stmts(m: Seq<Seq<char>>, a: Seq<StmtView>, b: Seq<StmtView>) -> bool
    decreases a, 0int,
{
    a.len() == b.len() && forall|i: int| 0 <= i < a.len() ==> read_stmt(m, #[trigger] a[i], b[i])
}

/// What the parser says of `tokens` as one expression, if they are a text
/// that the parser is given; nothing otherwise.
pub fn read_argument(tokens: &String) -> (r: Option<String>)
    ensures
        !readable(tokens@) ==> r is None,
{
    if is_readable(tokens.as_str()) {
        read_as_expression(tokens.as_str())
    } else {
        None
    }
}

/// Adds to `markers` the markers that `attrs` bring into scope.
fn push_markers(attrs: &Vec<Attr>, markers: &mut Vec<String>)
    ensures
        strings_view(final(markers)@) == strings_view(old(markers)@) + markers_of(
            attrs_view(attrs@),
        ),
        final(markers)@.len() >= old(markers)@.len(),
{
    let ghost before = strings_view(markers@);
    let ghost all = attrs_view(attrs@);
    let n = attrs.len();
    let mut i: usize = 0;
    assert(all.take(0) =~= Seq::empty());
    assert(before + Seq::<Seq<char>>::empty() =~= before);
    while i < n
        invariant
            i <= n,
            n == attrs.len(),
            all == attrs_view(attrs@),
            markers@.len() >= old(markers)@.len(),
            strings_view(markers@) == before + markers_of(all.take(i as int)),
        decreases n - i,
    {
        assert(all.take(i + 1).drop_last() =~= all.take(i as int));
        assert(all.take(i + 1).last() == all[i as int]);
        let ghost so_far = markers_of(all.take(i as int));
        match &attrs[i] {
            Attr::Invocation(Ok(config)) => {
                let marker = match &config.marker {
                    Some(m) => m.clone(),
                    None => String::from_str(DEFAULT_MARKER),
                };
                let ghost earlier = strings_view(markers@);
                markers.push(marker);
                assert(strings_view(markers@) =~= earlier.push(marker@));
                assert(before + so_far.push(marker@) =~= (before + so_far).push(marker@));
            },
            _ => {},
        }
        i += 1;
    }
    assert(all.take(n as int) =~= all);
}

/// Takes `markers` back to its first `n` names.
fn pop_markers(markers: &mut Vec<String>, n: usize, Ghost(first): Ghost<Seq<Seq<char>>>)
    requires
        n <= old(markers)@.len(),
        strings_view(old(markers)@).subrange(0, n as int) == first,
    ensures
        strings_view(final(markers)@) == first,
{
    markers.truncate(n);
    assert(strings_view(markers@) =~= first);
}

/// Reads the arguments of the marker macros in `expr` that have nothing
/// held against them, with `markers` in scope around `expr`.
pub fn read_markers_in_expr(expr: &mut Expr, markers: &mut Vec<String>)
    ensures
        read_expr(strings_view(old(markers)@), old(expr)@, final(expr)@),
        strings_view(final(markers)@) == strings_view(old(markers)@),
    decreases *old(expr), 1int,
{
    let n = markers.len();
    let ghost outer = strings_view(markers@);
    push_markers(&expr.attrs, markers);
    assert(strings_view(markers@).subrange(0, n as int) =~= outer);
    let ghost inner = strings_view(markers@);
    read_kind_markers(expr, markers);
    assert(strings_view(markers@).len() == markers@.len());
    assert(inner.len() >= n);
    pop_markers(markers, n, Ghost(outer));
}

fn read_kind_markers(expr: &mut Expr, markers: &mut Vec<String>)
    ensures
        final(expr)@.attrs == old(expr)@.attrs,
        read_kind(strings_view(old(markers)@), old(expr)@, final(expr)@),
        strings_view(final(markers)@) == strings_view(old(markers)@),
    decreases *old(expr), 0int,
{
    match &mut expr.kind {
        ExprKind::Macro { path, tokens, error } => {
            if error.is_none() && contains_name(markers, path) {
                *error = read_argument(tokens);
            }
        },
        ExprKind::Return(Some(payload)) => {
            read_markers_in_expr(payload, markers);
        },
        ExprKind::Return(None) => {},
        ExprKind::Try(inner) => {
            read_markers_in_expr(inner, markers);
        },
        ExprKind::Closure { body, .. } => {
            read_markers_in_expr(body, markers);
        },
        ExprKind::TryBlock(stmts) => {
            read_markers_in_stmts(stmts, markers);
        },
        ExprKind::Block(stmts) => {
            read_markers_in_stmts(stmts, markers);
        },
        ExprKind::Match { scrutinee, arms } => {
            read_markers_in_expr(scrutinee, markers);
            read_markers_in_arms(arms, markers);
        },
        ExprKind::Call { func, args } => {
            read_markers_in_expr(func, markers);
            read_markers_in_exprs(args, markers);
        },
        ExprKind::Construct { payload, .. } => {
            read_markers_in_expr(payload, markers);
        },
        ExprKind::Verbatim(_) => {},
        ExprKind::CompileError(_) => {},
        ExprKind::Other { children, .. } => {
            read_markers_in_exprs(children, markers);
        },
    }
}

fn read_markers_in_exprs(exprs: &mut Vec<Expr>, markers: &mut Vec<String>)
    ensures
        read_exprs(strings_view(old(markers)@), exprs_view(old(exprs)@), exprs_view(final(exprs)@)),
        strings_view(final(markers)@) == strings_view(old(markers)@),
    decreases *old(exprs), 0int,
{
    let ghost m = strings_view(markers@);
    let ghost before = exprs_view(exprs@);
    let n = exprs.len();
    let mut i: usize = 0;
    while i < n
        invariant
            i <= n,
            n == exprs.len(),
            n == old(exprs).len(),
            before == exprs_view(old(exprs)@),
            strings_view(markers@) == m,
            forall|j: int| i <= j < n ==> exprs@[j] == old(exprs)@[j],
            forall|j: int| 0 <= j < i ==> read_expr(m, #[trigger] before[j], exprs_view(exprs@)[j]),
        decreases n - i,
    {
        let ghost earlier = exprs_view(exprs@);
        read_markers_in_expr(&mut exprs[i], markers);
        assert forall|j: int| 0 <= j <= i implies read_expr(
            m,
            #[trigger] before[j],
            exprs_view(exprs@)[j],
        ) by {
            if j < i {
                assert(exprs_view(exprs@)[j] == earlier[j]);
            }
        }
        i += 1;
    }
    assert(exprs_view(exprs@).len() == n);
    assert(before.len() == n);
    let ghost after = exprs_view(exprs@);
    assert forall|j: int| 0 <= j < before.len() implies read_expr(
        m,
        #[trigger] before[j],
        after[j],
    ) by {}
    assert(read_exprs(m, before, exprs_view(exprs@)));
}

fn read_markers_in_arm(arm: &mut Arm, markers: &mut Vec<String>)
    ensures
        read_arm(strings_view(old(markers)@), old(arm)@, final(arm)@),
        strings_view(final(markers)@) == strings_view(old(markers)@),
    decreases *old(arm), 0int,
{
    match &mut arm.guard {
        Some(guard) => {
            read_markers_in_expr(guard, markers);
        },
        None => {},
    }
    read_markers_in_expr(&mut arm.body, markers);
}

fn read_markers_in_arms(arms: &mut Vec<Arm>, markers: &mut Vec<String>)
    ensures
        read_arms(strings_view(old(markers)@), arms_view(old(arms)@), arms_view(final(arms)@)),
        strings_view(final(markers)@) == strings_view(old(markers)@),
    decreases *old(arms), 0int,
{
    let ghost m = strings_view(markers@);
    let ghost before = arms_view(arms@);
    let n = arms.len();
    let mut i: usize = 0;
    while i < n
        invariant
            i <= n,
            n == arms.len(),
            n == old(arms).len(),
            before == arms_view(old(arms)@),
            strings_view(markers@) == m,
            forall|j: int| i <= j < n ==> arms@[j] == old(arms)@[j],
            forall|j: int| 0 <= j < i ==> read_arm(m, #[trigger] before[j], arms_view(arms@)[j]),
        decreases n - i,
    {
        let ghost earlier = arms_view(arms@);
        read_markers_in_arm(&mut arms[i], markers);
        assert forall|j: int| 0 <= j <= i implies read_arm(
            m,
            #[trigger] before[j],
            arms_view(arms@)[j],
        ) by {
            if j < i {
                assert(arms_view(arms@)[j] == earlier[j]);
            }
        }
        i += 1;
    }
    assert(arms_view(arms@).len() == n);
    assert(before.len() == n);
    let ghost after = arms_view(arms@);
    assert forall|j: int| 0 <= j < before.len() implies read_arm(
        m,
        #[trigger] before[j],
        after[j],
    ) by {}
    assert(read_arms(m, before, arms_view(arms@)));
}

/// The same for one statement.
pub fn read_markers_in_stmt(stmt: &mut Stmt, markers: &mut Vec<String>)
    ensures
        read_stmt(strings_view(old(markers)@), old(stmt)@, final(stmt)@),
        strings_view(final(markers)@) == strings_view(old(markers)@),
    decreases *old(stmt), 2int,
{
    match stmt {
        Stmt::Local(local) => {
            let n = markers.len();
            let ghost outer = strings_view(markers@);
            push_markers(&local.attrs, markers);
            assert(strings_view(markers@).subrange(0, n as int) =~= outer);
            let ghost inner = strings_view(markers@);
            match &mut local.init {
                Some(init) => {
                    read_markers_in_expr(init, markers);
                },
                None => {},
            }
            assert(strings_view(markers@).len() == markers@.len());
            assert(inner.len() >= n);
            pop_markers(markers, n, Ghost(outer));
        },
        Stmt::Item(_) => {},
        Stmt::Expr(expr) => {
            read_markers_in_expr(expr, markers);
        },
        Stmt::Semi(expr) => {
            read_markers_in_expr(expr, markers);
        },
    }
}

/// The same for the statements of a block.
pub fn read_markers_in_stmts(stmts: &mut Vec<Stmt>, markers: &mut Vec<String>)
    ensures
        read_stmts(strings_view(old(markers)@), stmts_view(old(stmts)@), stmts_view(final(stmts)@)),
        strings_view(final(markers)@) == strings_view(old(markers)@),
    decreases *old(stmts), 0int,
{
    let ghost m = strings_view(markers@);
    let ghost before = stmts_view(stmts@);
    let n = stmts.len();
    let mut i: usize = 0;
    while i < n
        invariant
            i <= n,
            n == stmts.len(),
            n == old(stmts).len(),
            before == stmts_view(old(stmts)@),
            strings_view(markers@) == m,
            forall|j: int| i <= j < n ==> stmts@[j] == old(stmts)@[j],
            forall|j: int| 0 <= j < i ==> read_stmt(m, #[trigger] before[j], stmts_view(stmts@)[j]),
        decreases n - i,
    {
        let ghost earlier = stmts_view(stmts@);
        read_markers_in_stmt(&mut stmts[i], markers);
        assert forall|j: int| 0 <= j <= i implies read_stmt(
            m,
            #[trigger] before[j],
            stmts_view(stmts@)[j],
        ) by {
            if j < i {
                assert(stmts_view(stmts@)[j] == earlier[j]);
            }
        }
        i += 1;
    }
    assert(stmts_view(stmts@).len() == n);
    assert(before.len() == n);
    let ghost after = stmts_view(stmts@);
    assert forall|j: int| 0 <= j < before.len() implies read_stmt(
        m,
        #[trigger] before[j],
        after[j],
    ) by {}
    assert(read_stmts(m, before, stmts_view(stmts@)));
}

/// Reads the arguments of the marker macros in the body of the invocation
/// of `cx`: what comes out is the body as it went in, but for what the
/// parser held against the arguments that it was given.
pub fn read_markers(stmts: &mut Vec<Stmt>, cx: &Context)
    ensures
        read_stmts(seq![cx@.marker.ident], stmts_view(old(stmts)@), stmts_view(final(stmts)@)),
{
    let mut markers: Vec<String> = Vec::new();
    markers.push(cx.marker.ident.clone());
    assert(strings_view(markers@) =~= seq![cx@.marker.ident]);
    read_markers_in_stmts(stmts, &mut markers);
}

/// The same for a statement that the invocation of `cx` stands on.
pub fn read_markers_of_stmt(stmt: &mut Stmt, cx: &Context)
    ensures
        read_stmt(seq![cx@.marker.ident], old(stmt)@, final(stmt)@),
{
    let mut markers: Vec<String> = Vec::new();
    markers.push(cx.marker.ident.clone());
    assert(strings_view(markers@) =~= seq![cx@.marker.ident]);
    read_markers_in_stmt(stmt, &mut markers);
}

} // verus!
