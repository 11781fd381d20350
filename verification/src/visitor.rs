//! The passes over a body.

use vstd::prelude::*;
use vstd::string::StringExecFns;

use crate::context::{copy_names, expr_compile_error, unit, Context, Diagnostic, ErrorKind, Site};
use crate::find_try::FindTry;
use crate::reading::{read_markers, read_markers_of_stmt, read_stmt, read_stmts};
use crate::semantics::{
    body_mode, declare, dummy_visit_expr, dummy_visit_stmt, expand_body as spec_expand_body,
    expand_expr as spec_expand_expr, expand_marker, expand_nested, expand_stmt as spec_expand_stmt,
    find_try_expr, leave_expr, note_invocation, return_site, sum_type, take_invocation, try_arms,
    try_site, visit_arm, visit_arms, visit_children, visit_expr, visit_exprs, visit_local,
    visit_return, visit_stmt, visit_stmts, visit_try, Scope,
};
use crate::weight::{
    expand_closure, lemma_expand_expr_shape, lemma_take_invocation_weight, lemma_walk_stmt_weight,
    lemma_weight_arms_index, lemma_weight_exprs_index, lemma_weight_stmts_index,
};
use crate::syntax::{
    arms_view, attrs_view, exprs_view, has_empty_attr, has_invocation, invocation_view,
    remove_annotations, stmts_view, take_invocation_attr, weight_arm, weight_arms, weight_expr,
    weight_exprs, weight_local, weight_stmt, weight_stmts, without_annotations, Arm, Attr, Config,
    Expr, ExprKind, Item, Local, Stmt, StmtView, VisitMode, NEVER,
};

verus! {

broadcast use vstd::std_specs::vec::group_vec_axioms;

impl Default for Scope {
    fn default() -> (r: Scope)
        ensures
            r == Scope::outermost(),
    {
        Scope { closure: false, try_block: false, foreign: false }
    }
}

/// An expression that is source text.
pub fn expr_verbatim(text: &str) -> (r: Expr)
    ensures
        r@ == crate::context::verbatim(text@),
{
    let r = Expr { attrs: Vec::new(), kind: ExprKind::Verbatim(String::from_str(text)) };
    assert(r@.attrs =~= Seq::empty());
    r
}

/// The two arms that take the place of `?`.
fn expr_try_arms(failure: Expr) -> (r: Vec<Arm>)
    ensures
        arms_view(r@) == try_arms(failure@),
{
    let ok = Arm {
        attrs: Vec::new(),
        pat: String::from_str("::core::result::Result::Ok(val)"),
        guard: None,
        body: expr_verbatim("val"),
    };
    let mut args: Vec<Expr> = Vec::new();
    args.push(failure);
    let call = Expr {
        attrs: Vec::new(),
        kind: ExprKind::Call {
            func: Box::new(expr_verbatim("::core::result::Result::Err")),
            args,
        },
    };
    let err = Arm {
        attrs: Vec::new(),
        pat: String::from_str("::core::result::Result::Err(err)"),
        guard: None,
        body: Expr { attrs: Vec::new(), kind: ExprKind::Return(Some(Box::new(call))) },
    };
    let mut arms: Vec<Arm> = Vec::new();
    arms.push(ok);
    arms.push(err);
    proof {
        assert(ok@.attrs =~= Seq::empty());
        assert(err@.attrs =~= Seq::empty());
        assert(call@.attrs =~= Seq::empty());
        assert(err.body@.attrs =~= Seq::empty());
        assert(exprs_view(args@) =~= seq![failure@]);
        assert(arms_view(arms@) =~= try_arms(failure@));
    }
    arms
}

/// The pass that rewrites a body for one invocation.
pub struct Visitor<'a> {
    pub cx: &'a mut Context,
    pub scope: Scope,
}

impl<'a> Visitor<'a> {
    /// A pass that starts at the outermost scope of a body.
    pub fn new(cx: &'a mut Context) -> (v: Self)
        ensures
            *v.cx == *old(cx),
            *final(v.cx) == *final(cx),
            v.scope == Scope::outermost(),
    {
        Self { cx, scope: Scope::default() }
    }

    /// Removes `#[never]` and `#[nested]`, unless the pass stands inside a
    /// nested invocation, to which they then belong.
    pub fn find_remove_empty_attrs(&self, attrs: &mut Vec<Attr>)
        ensures
            attrs_view(final(attrs)@) == if self.scope.foreign {
                attrs_view(old(attrs)@)
            } else {
                without_annotations(attrs_view(old(attrs)@))
            },
    {
        if !self.scope.foreign {
            remove_annotations(attrs);
        }
    }

    /// Notes a nested invocation among `attrs`: what carries them is then
    /// a foreign scope, and the context records that one was met.
    pub fn check_other_attr(&mut self, attrs: &Vec<Attr>)
        ensures
            final(self).scope == old(self).scope.enter_attrs(attrs_view(attrs@)),
            final(self).cx@ == note_invocation(old(self).cx@, attrs_view(attrs@)),
            *final(final(self).cx) == *final(old(self).cx),
    {
        if has_invocation(attrs) {
            self.scope.foreign = true;
            self.cx.record_foreign_invocation();
        }
    }

    /// `return` in functions or closures.  Returns whether `expr` was
    /// rewritten; the pass has then gone through its payload too.
    fn visit_return(&mut self, expr: &mut Expr) -> (handled: bool)
        requires
            old(self).cx@.visit_mode == VisitMode::Return,
        ensures
            handled == return_site(old(self).cx@, old(self).scope, old(expr)@),
            handled ==> (final(self).cx@, final(expr)@) == visit_return(
                old(self).cx@,
                old(self).scope,
                old(expr)@,
            ),
            !handled ==> *final(expr) == *old(expr) && final(self).cx@ == old(self).cx@,
            final(self).scope == old(self).scope,
            final(self).cx@.same_settings(old(self).cx@),
            *final(final(self).cx) == *final(old(self).cx),
        decreases weight_expr(old(expr)@), 1int, *old(expr), 1int,
    {
        if !self.scope.closure && !has_empty_attr(&expr.attrs, NEVER) {
            match &mut expr.kind {
                ExprKind::Return(payload) => {
                    let marker = match &*payload {
                        Some(p) => self.cx.is_marker_expr(p),
                        None => false,
                    };
                    if marker {
                        false
                    } else {
                        let k = self.cx.reserve_variant(Site::Return);
                        let attrs: Vec<Attr> = Vec::new();
                        assert(attrs_view(attrs@) =~= Seq::empty());
                        match payload.take() {
                            Some(mut inner) => {
                                self.visit_expr_mut(&mut *inner);
                                *payload = Some(Box::new(self.cx.construct(k, attrs, *inner)));
                            },
                            None => {
                                *payload = Some(Box::new(self.cx.construct(k, attrs, unit())));
                            },
                        }
                        true
                    }
                },
                _ => false,
            }
        } else {
            false
        }
    }

    /// `?` operator in functions or closures.  Returns whether `expr` was
    /// rewritten; the pass has then gone through its operand too.
    fn visit_try(&mut self, expr: &mut Expr) -> (handled: bool)
        requires
            old(self).cx@.visit_mode == VisitMode::Try,
        ensures
            handled == try_site(old(self).cx@, old(self).scope, old(expr)@),
            handled ==> (final(self).cx@, final(expr)@) == visit_try(
                old(self).cx@,
                old(self).scope,
                old(expr)@,
            ),
            !handled ==> *final(expr) == *old(expr) && final(self).cx@ == old(self).cx@,
            final(self).scope == old(self).scope,
            final(self).cx@.same_settings(old(self).cx@),
            *final(final(self).cx) == *final(old(self).cx),
        decreases weight_expr(old(expr)@), 1int, *old(expr), 1int,
    {
        if !self.scope.try_block && !self.scope.closure && !has_empty_attr(&expr.attrs, NEVER) {
            let site = match &expr.kind {
                ExprKind::Try(inner) => !self.cx.is_marker_expr(inner),
                _ => false,
            };
            if site {
                let k = self.cx.reserve_variant(Site::Try);
                let mut taken = unit();
                core::mem::swap(expr, &mut taken);
                let Expr { attrs, kind } = taken;
                match kind {
                    ExprKind::Try(mut inner) => {
                        self.visit_expr_mut(&mut *inner);
                        let none: Vec<Attr> = Vec::new();
                        assert(attrs_view(none@) =~= Seq::empty());
                        let failure = self.cx.construct(k, none, expr_verbatim("err"));
                        *expr = Expr {
                            attrs,
                            kind: ExprKind::Match {
                                scrutinee: inner,
                                arms: expr_try_arms(failure),
                            },
                        };
                    },
                    other => {
                        *expr = Expr { attrs, kind: other };
                    },
                }
                true
            } else {
                false
            }
        } else {
            false
        }
    }

    /// Expression level marker (`marker!` macro).
    fn visit_marker_macro(&mut self, expr: &mut Expr)
        requires
            !old(self).cx@.failed(),
        ensures
            (final(self).cx@, final(expr)@) == expand_marker(old(self).cx@, old(expr)@),
            final(self).scope == old(self).scope,
            final(self).cx@.same_settings(old(self).cx@),
            *final(final(self).cx) == *final(old(self).cx),
    {
        let is_marker = match &expr.kind {
            ExprKind::Macro { path, .. } => self.cx.is_marker_macro(path),
            _ => false,
        };
        if is_marker {
            let mut taken = unit();
            core::mem::swap(expr, &mut taken);
            let Expr { attrs, kind } = taken;
            match kind {
                ExprKind::Macro { path, tokens, error } => {
                    *expr = self.cx.marker_expansion(attrs, tokens, error);
                },
                other => {
                    *expr = Expr { attrs, kind: other };
                },
            }
        }
    }

    /// Steps into `expr`: notes a nested invocation on it and whether it is
    /// a closure or a `try` block.
    fn enter(&mut self, expr: &Expr)
        ensures
            final(self).scope == old(self).scope.enter(expr@),
            final(self).cx@ == note_invocation(old(self).cx@, expr@.attrs),
            *final(final(self).cx) == *final(old(self).cx),
    {
        self.check_other_attr(&expr.attrs);
        match &expr.kind {
            ExprKind::Closure { .. } => {
                self.scope.closure = true;
            },
            // `?` operator in try blocks are not supported.
            ExprKind::TryBlock(_) => {
                self.scope.try_block = true;
            },
            _ => {},
        }
    }

    /// Steps out of `expr`: expands it if it is a marker macro of the
    /// invocation, and removes the annotations on it.
    fn leave(&mut self, expr: &mut Expr)
        ensures
            (final(self).cx@, final(expr)@) == leave_expr(
                old(self).cx@,
                old(self).scope,
                old(expr)@,
            ),
            final(self).scope == old(self).scope,
            final(self).cx@.same_settings(old(self).cx@),
            *final(final(self).cx) == *final(old(self).cx),
    {
        reveal(leave_expr);
        if self.cx.rewrites() {
            if !self.scope.foreign || self.cx.marker.is_unique() {
                self.visit_marker_macro(expr);
            }
            self.find_remove_empty_attrs(&mut expr.attrs);
        }
    }

    /// The pass over one expression.
    #[verifier::spinoff_prover]
    pub fn visit_expr_mut(&mut self, expr: &mut Expr)
        ensures
            (final(self).cx@, final(expr)@) == visit_expr(
                old(self).cx@,
                old(self).scope,
                old(expr)@,
            ),
            final(self).scope == old(self).scope,
            final(self).cx@.same_settings(old(self).cx@),
            *final(final(self).cx) == *final(old(self).cx),
        decreases weight_expr(old(expr)@), 1int, *old(expr), 2int,
    {
        if self.cx.rewrites() {
            let tmp = self.scope;
            self.enter(expr);
            let handled = match self.cx.visit_mode() {
                VisitMode::Return => self.visit_return(expr),
                VisitMode::Try => self.visit_try(expr),
                VisitMode::Default => false,
            };
            if !handled {
                self.visit_children(expr);
            }
            self.leave(expr);
            self.scope = tmp;
        } else {
            self.visit_children(expr);
        }
    }

    /// The pass over the sub-expressions of `expr`.
    fn visit_children(&mut self, expr: &mut Expr)
        ensures
            (final(self).cx@, final(expr)@) == visit_children(
                old(self).cx@,
                old(self).scope,
                old(expr)@,
            ),
            final(self).scope == old(self).scope,
            final(self).cx@.same_settings(old(self).cx@),
            *final(final(self).cx) == *final(old(self).cx),
        decreases weight_expr(old(expr)@), 1int, *old(expr), 1int,
    {
        match &mut expr.kind {
            ExprKind::Return(Some(payload)) => {
                self.visit_expr_mut(payload);
            },
            ExprKind::Return(None) => {},
            ExprKind::Try(inner) => {
                self.visit_expr_mut(inner);
            },
            ExprKind::Macro { .. } => {},
            ExprKind::Closure { body, .. } => {
                self.visit_expr_mut(body);
            },
            ExprKind::TryBlock(stmts) => {
                self.visit_stmts(stmts);
            },
            ExprKind::Block(stmts) => {
                self.visit_stmts(stmts);
            },
            ExprKind::Match { scrutinee, arms } => {
                self.visit_expr_mut(scrutinee);
                self.visit_arms(arms);
            },
            ExprKind::Call { func, args } => {
                self.visit_expr_mut(func);
                self.visit_exprs(args);
            },
            ExprKind::Construct { payload, .. } => {
                self.visit_expr_mut(payload);
            },
            ExprKind::Verbatim(_) => {},
            ExprKind::CompileError(_) => {},
            ExprKind::Other { children, .. } => {
                self.visit_exprs(children);
            },
        }
    }

    /// The pass over a list of expressions, from left to right.
    fn visit_exprs(&mut self, exprs: &mut Vec<Expr>)
        ensures
            (final(self).cx@, exprs_view(final(exprs)@)) == visit_exprs(
                old(self).cx@,
                old(self).scope,
                exprs_view(old(exprs)@),
            ),
            final(self).scope == old(self).scope,
            final(self).cx@.same_settings(old(self).cx@),
            *final(final(self).cx) == *final(old(self).cx),
        decreases weight_exprs(exprs_view(old(exprs)@)), 1int, *old(exprs), 0int,
    {
        let ghost before = exprs_view(exprs@);
        let ghost cx0 = self.cx@;
        let ghost scope = self.scope;
        let n = exprs.len();
        let mut i: usize = 0;
        assert(before.take(0) =~= Seq::empty());
        assert(exprs_view(exprs@).take(0) =~= Seq::empty());
        while i < n
            invariant
                i <= n,
                n == exprs.len(),
                n == old(exprs).len(),
                before == exprs_view(old(exprs)@),
                self.scope == scope,
                cx0 == old(self).cx@,
                scope == old(self).scope,
                self.cx@.same_settings(cx0),
                *final(self.cx) == *final(old(self).cx),
                forall|j: int| i <= j < n ==> exprs@[j] == old(exprs)@[j],
                (self.cx@, exprs_view(exprs@).take(i as int)) == visit_exprs(
                    cx0,
                    scope,
                    before.take(i as int),
                ),
            decreases n - i,
        {
            let ghost done = exprs_view(exprs@).take(i as int);
            assert(before.take(i + 1).drop_last() =~= before.take(i as int));
            assert(before.take(i + 1).last() == before[i as int]);
            proof {
                lemma_weight_exprs_index(before, i as int);
            }
            self.visit_expr_mut(&mut exprs[i]);
            assert(exprs_view(exprs@).take(i + 1) =~= done.push(exprs_view(exprs@)[i as int]));
            i += 1;
        }
        assert(before.take(n as int) =~= before);
        assert(exprs_view(exprs@).take(n as int) =~= exprs_view(exprs@));
    }

    /// The pass over one match arm.
    pub fn visit_arm_mut(&mut self, arm: &mut Arm)
        ensures
            (final(self).cx@, final(arm)@) == visit_arm(
                old(self).cx@,
                old(self).scope,
                old(arm)@,
            ),
            final(self).scope == old(self).scope,
            final(self).cx@.same_settings(old(self).cx@),
            *final(final(self).cx) == *final(old(self).cx),
        decreases weight_arm(old(arm)@), 1int, *old(arm), 0int,
    {
        match &mut arm.guard {
            Some(guard) => {
                self.visit_expr_mut(guard);
            },
            None => {},
        }
        self.visit_expr_mut(&mut arm.body);
        if self.cx.rewrites() {
            self.find_remove_empty_attrs(&mut arm.attrs);
        }
    }

    /// The pass over the arms of a `match`, from first to last.
    fn visit_arms(&mut self, arms: &mut Vec<Arm>)
        ensures
            (final(self).cx@, arms_view(final(arms)@)) == visit_arms(
                old(self).cx@,
                old(self).scope,
                arms_view(old(arms)@),
            ),
            final(self).scope == old(self).scope,
            final(self).cx@.same_settings(old(self).cx@),
            *final(final(self).cx) == *final(old(self).cx),
        decreases weight_arms(arms_view(old(arms)@)), 1int, *old(arms), 0int,
    {
        let ghost before = arms_view(arms@);
        let ghost cx0 = self.cx@;
        let ghost scope = self.scope;
        let n = arms.len();
        let mut i: usize = 0;
        assert(before.take(0) =~= Seq::empty());
        assert(arms_view(arms@).take(0) =~= Seq::empty());
        while i < n
            invariant
                i <= n,
                n == arms.len(),
                n == old(arms).len(),
                before == arms_view(old(arms)@),
                self.scope == scope,
                cx0 == old(self).cx@,
                scope == old(self).scope,
                self.cx@.same_settings(cx0),
                *final(self.cx) == *final(old(self).cx),
                forall|j: int| i <= j < n ==> arms@[j] == old(arms)@[j],
                (self.cx@, arms_view(arms@).take(i as int)) == visit_arms(
                    cx0,
                    scope,
                    before.take(i as int),
                ),
            decreases n - i,
        {
            let ghost done = arms_view(arms@).take(i as int);
            assert(before.take(i + 1).drop_last() =~= before.take(i as int));
            assert(before.take(i + 1).last() == before[i as int]);
            proof {
                lemma_weight_arms_index(before, i as int);
            }
            self.visit_arm_mut(&mut arms[i]);
            assert(arms_view(arms@).take(i + 1) =~= done.push(arms_view(arms@)[i as int]));
            i += 1;
        }
        assert(before.take(n as int) =~= before);
        assert(arms_view(arms@).take(n as int) =~= arms_view(arms@));
    }

    /// The pass over one `let` statement.
    pub fn visit_local_mut(&mut self, local: &mut Local)
        ensures
            (final(self).cx@, final(local)@) == visit_local(
                old(self).cx@,
                old(self).scope,
                old(local)@,
            ),
            final(self).scope == old(self).scope,
            final(self).cx@.same_settings(old(self).cx@),
            *final(final(self).cx) == *final(old(self).cx),
        decreases weight_local(old(local)@), 1int, *old(local), 0int,
    {
        let tmp = self.scope;
        if self.cx.rewrites() {
            self.check_other_attr(&local.attrs);
        }
        match &mut local.init {
            Some(init) => {
                self.visit_expr_mut(init);
            },
            None => {},
        }
        if self.cx.rewrites() {
            self.find_remove_empty_attrs(&mut local.attrs);
        }
        self.scope = tmp;
    }

    /// The pass over one statement, after which the nested invocation that
    /// the statement starts is run.
    #[verifier::spinoff_prover]
    pub fn visit_stmt_mut(&mut self, stmt: &mut Stmt)
        ensures
            (final(self).cx@, final(stmt)@) == visit_stmt(
                old(self).cx@,
                old(self).scope,
                old(stmt)@,
            ),
            final(self).scope == old(self).scope,
            final(self).cx@.same_settings(old(self).cx@),
            *final(final(self).cx) == *final(old(self).cx),
        decreases weight_stmt(old(stmt)@), 1int, *old(stmt), 1int,
    {
        match stmt {
            Stmt::Local(local) => {
                self.visit_local_mut(local);
            },
            Stmt::Item(item) => {
                self.visit_item_mut(item);
            },
            Stmt::Expr(expr) => {
                self.visit_expr_mut(expr);
            },
            Stmt::Semi(expr) => {
                self.visit_expr_mut(expr);
            },
        }
        proof {
            lemma_walk_stmt_weight(old(self).cx@, old(self).scope, old(stmt)@);
        }
        visit_stmt_mut(stmt, self.cx);
    }

    /// Stop at item bounds.
    pub fn visit_item_mut(&mut self, _item: &mut Item)
        ensures
            *final(_item) == *old(_item),
            *final(self) == *old(self),
    {
    }

    /// The pass over the statements of a block, from first to last.
    pub fn visit_stmts(&mut self, stmts: &mut Vec<Stmt>)
        ensures
            (final(self).cx@, stmts_view(final(stmts)@)) == visit_stmts(
                old(self).cx@,
                old(self).scope,
                stmts_view(old(stmts)@),
            ),
            final(self).scope == old(self).scope,
            final(self).cx@.same_settings(old(self).cx@),
            *final(final(self).cx) == *final(old(self).cx),
        decreases weight_stmts(stmts_view(old(stmts)@)), 1int, *old(stmts), 0int,
    {
        let ghost before = stmts_view(stmts@);
        let ghost cx0 = self.cx@;
        let ghost scope = self.scope;
        let n = stmts.len();
        let mut i: usize = 0;
        assert(before.take(0) =~= Seq::empty());
        assert(stmts_view(stmts@).take(0) =~= Seq::empty());
        while i < n
            invariant
                i <= n,
                n == stmts.len(),
                n == old(stmts).len(),
                before == stmts_view(old(stmts)@),
                self.scope == scope,
                cx0 == old(self).cx@,
                scope == old(self).scope,
                self.cx@.same_settings(cx0),
                *final(self.cx) == *final(old(self).cx),
                forall|j: int| i <= j < n ==> stmts@[j] == old(stmts)@[j],
                (self.cx@, stmts_view(stmts@).take(i as int)) == visit_stmts(
                    cx0,
                    scope,
                    before.take(i as int),
                ),
            decreases n - i,
        {
            let ghost done = stmts_view(stmts@).take(i as int);
            assert(before.take(i + 1).drop_last() =~= before.take(i as int));
            assert(before.take(i + 1).last() == before[i as int]);
            proof {
                lemma_weight_stmts_index(before, i as int);
            }
            self.visit_stmt_mut(&mut stmts[i]);
            assert(stmts_view(stmts@).take(i + 1) =~= done.push(stmts_view(stmts@)[i as int]));
            i += 1;
        }
        assert(before.take(n as int) =~= before);
        assert(stmts_view(stmts@).take(n as int) =~= stmts_view(stmts@));
    }
}

/// The pass of an invocation that requests no trait: it rewrites nothing and
/// only runs the nested invocations that it meets.
pub struct Dummy<'a> {
    pub cx: &'a mut Context,
}

impl<'a> Dummy<'a> {
    /// A pass for the invocation of `cx` that rewrites nothing.
    pub fn new(cx: &'a mut Context) -> (d: Self)
        ensures
            *d.cx == *old(cx),
            *final(d.cx) == *final(cx),
    {
        Self { cx }
    }

    /// The pass over one statement.
    pub fn visit_stmt_mut(&mut self, stmt: &mut Stmt)
        ensures
            (final(self).cx@, final(stmt)@) == dummy_visit_stmt(old(self).cx@, old(stmt)@),
            *final(final(self).cx) == *final(old(self).cx),
    {
        let idle = self.cx.idle;
        self.cx.set_idle(true);
        let mut visitor = Visitor { cx: &mut *self.cx, scope: Scope::default() };
        visitor.visit_stmt_mut(stmt);
        self.cx.set_idle(idle);
    }

    /// Stop at item bounds.
    pub fn visit_item_mut(&mut self, _item: &mut Item)
        ensures
            *final(_item) == *old(_item),
            *final(self) == *old(self),
    {
    }
}

/// Removes from `stmt` the attribute of the first nested invocation that it
/// starts and returns what the attribute holds.
fn take_stmt_invocation(stmt: &mut Stmt) -> (r: Option<Result<Config, String>>)
    ensures
        match take_invocation(old(stmt)@) {
            Some((held, s)) => r matches Some(h) && invocation_view(h) == held && final(stmt)@
                == s,
            None => r is None && *final(stmt) == *old(stmt),
        },
{
    match stmt {
        Stmt::Local(local) => take_invocation_attr(&mut local.attrs),
        // Stop at item bounds
        Stmt::Item(_) => None,
        Stmt::Expr(expr) => take_invocation_attr(&mut expr.attrs),
        Stmt::Semi(expr) => take_invocation_attr(&mut expr.attrs),
    }
}

/// Runs the nested invocation that `stmt` starts, if it starts one: the
/// attribute is removed and the statement is rewritten by a pass of its
/// own, with a context of its own.  Where the arguments of the attribute
/// could not be read, or that context cannot be made, the statement becomes
/// the placeholder of the error; every failure is recorded in `cx`.
#[verifier::spinoff_prover]
pub fn visit_stmt_mut(stmt: &mut Stmt, cx: &mut Context)
    ensures
        (final(cx)@, final(stmt)@) == expand_nested(old(cx)@, old(stmt)@),
        final(cx)@.same_settings(old(cx)@),
    decreases weight_stmt(old(stmt)@), 0int, *old(stmt), 0int,
{
    reveal(expand_nested);
    proof {
        lemma_take_invocation_weight(old(stmt)@);
    }
    match take_stmt_invocation(stmt) {
        Some(Ok(config)) => {
            match cx.spawn_child(config) {
                Ok(mut child) => {
                    expand_stmt(stmt, &mut child);
                    if child.failed() {
                        cx.mark_error(
                            Diagnostic {
                                kind: ErrorKind::NestedConfigurationError,
                                message: String::from_str("the nested invocation failed"),
                            },
                        );
                    }
                },
                Err(d) => {
                    *stmt = Stmt::Expr(expr_compile_error(&d.message));
                    cx.mark_error(d);
                },
            }
        },
        Some(Err(message)) => {
            *stmt = Stmt::Expr(expr_compile_error(&message));
            cx.mark_error(Diagnostic { kind: ErrorKind::NestedConfigurationError, message });
        },
        None => {},
    }
}

/// One whole invocation on a statement.
#[verifier::spinoff_prover]
pub fn expand_stmt(stmt: &mut Stmt, cx: &mut Context)
    ensures
        (final(cx)@, final(stmt)@) == spec_expand_stmt(old(cx)@, old(stmt)@),
    decreases weight_stmt(old(stmt)@), 1int, *old(stmt), 5int,
{
    match stmt {
        Stmt::Local(local) => match &mut local.init {
            Some(init) => {
                expand_expr(init, cx);
            },
            None => {},
        },
        Stmt::Item(_) => {},
        Stmt::Expr(expr) => {
            expand_expr(expr, cx);
        },
        Stmt::Semi(expr) => {
            expand_expr(expr, cx);
        },
    }
}

/// Chooses the mode of the pass over `body`, the body of a function or
/// closure, unless the mode is pinned: try mode if the body uses `?`, return
/// mode otherwise.
pub fn select_mode(body: &Expr, cx: &mut Context)
    ensures
        final(cx)@ == old(cx)@.with_mode(
            body_mode(old(cx)@, find_try_expr(old(cx)@.marker.ident, Scope::outermost(), body@)),
        ),
{
    if cx.detect {
        let mut find = FindTry::new(cx);
        find.visit_expr_mut(body);
        let mode = if find.has {
            VisitMode::Try
        } else {
            VisitMode::Return
        };
        cx.set_visit_mode(mode);
    }
}

/// The declaration of the sum type of `cx`.
pub fn sum_type_item(cx: &Context) -> (r: Item)
    ensures
        r@ == sum_type(cx@),
{
    Item::SumType {
        ident: cx.sum.clone(),
        variants: cx.variant_count(),
        traits: copy_names(&cx.traits),
        types: copy_names(&cx.types),
    }
}

/// One whole invocation on the body of a function, given as its
/// statements: the mode of the pass is chosen as for a closure, the pass is
/// run, and if it handed out any variant the declaration of the sum type is
/// put in front of the statements.  Where the invocation requests no trait,
/// the pass that rewrites nothing is run instead.
pub fn expand_body(stmts: &mut Vec<Stmt>, cx: &mut Context)
    ensures
        (final(cx)@, stmts_view(final(stmts)@)) == spec_expand_body(
            old(cx)@,
            stmts_view(old(stmts)@),
        ),
{
    if cx.is_dummy() {
        let idle = cx.idle;
        cx.set_idle(true);
        let mut visitor = Visitor::new(cx);
        visitor.visit_stmts(stmts);
        cx.set_idle(idle);
    } else {
        if cx.detect {
            let mut find = FindTry::new(cx);
            find.visit_stmts(stmts);
            let mode = if find.has {
                VisitMode::Try
            } else {
                VisitMode::Return
            };
            cx.set_visit_mode(mode);
        }
        let mut visitor = Visitor::new(cx);
        visitor.visit_stmts(stmts);
        if cx.variant_count() > 0 {
            let ghost before = stmts_view(stmts@);
            stmts.insert(0, Stmt::Item(sum_type_item(cx)));
            assert(stmts_view(stmts@) =~= seq![StmtView::Item(sum_type(cx@))] + before);
        }
    }
}

/// Reads the arguments of the marker macros in the body of a function and
/// runs one whole invocation on it.  What comes out is what the invocation
/// makes of the body with what the parser held against the arguments,
/// whatever that was.
pub fn read_and_expand_body(stmts: &mut Vec<Stmt>, cx: &mut Context)
    ensures
        exists|read: Seq<StmtView>|
            read_stmts(seq![old(cx)@.marker.ident], stmts_view(old(stmts)@), read) && (
                final(cx)@,
                stmts_view(final(stmts)@),
            ) == spec_expand_body(old(cx)@, read),
{
    read_markers(stmts, cx);
    let ghost read = stmts_view(stmts@);
    expand_body(stmts, cx);
    assert(read_stmts(seq![old(cx)@.marker.ident], stmts_view(old(stmts)@), read) && (
        cx@,
        stmts_view(stmts@),
    ) == spec_expand_body(old(cx)@, read));
}

/// The same for a statement that the invocation stands on.
pub fn read_and_expand_stmt(stmt: &mut Stmt, cx: &mut Context)
    ensures
        exists|read: StmtView|
            read_stmt(seq![old(cx)@.marker.ident], old(stmt)@, read) && (final(cx)@, final(stmt)@)
                == spec_expand_stmt(old(cx)@, read),
{
    read_markers_of_stmt(stmt, cx);
    let ghost read = stmt@;
    expand_stmt(stmt, cx);
    assert(read_stmt(seq![old(cx)@.marker.ident], old(stmt)@, read) && (cx@, stmt@)
        == spec_expand_stmt(old(cx)@, read));
}

/// Puts the declaration of the sum type of `cx` in front of `expr`, if any
/// variant was handed out.
pub fn declare_sum_type(expr: &mut Expr, cx: &Context)
    ensures
        final(expr)@ == declare(cx@, old(expr)@),
{
    reveal(declare);
    if cx.variant_count() > 0 {
        let mut inner = unit();
        core::mem::swap(expr, &mut inner);
        let mut stmts: Vec<Stmt> = Vec::new();
        stmts.push(Stmt::Item(sum_type_item(cx)));
        stmts.push(Stmt::Expr(inner));
        proof {
            assert(stmts_view(stmts@) =~= seq![stmts@[0]@, stmts@[1]@]);
        }
        *expr = Expr { attrs: Vec::new(), kind: ExprKind::Block(stmts) };
        proof {
            assert(expr@.attrs =~= Seq::empty());
        }
    }
}

/// The pass that rewrites nothing, over an expression.
fn expand_idle(expr: &mut Expr, cx: &mut Context)
    ensures
        (final(cx)@, final(expr)@) == dummy_visit_expr(old(cx)@, old(expr)@),
    decreases weight_expr(old(expr)@), 1int, *old(expr), 3int,
{
    let idle = cx.idle;
    cx.set_idle(true);
    let mut visitor = Visitor::new(cx);
    visitor.visit_expr_mut(expr);
    cx.set_idle(idle);
}

/// The pass over a closure, in the mode that its body asks for.
fn expand_in_closure(expr: &mut Expr, cx: &mut Context)
    requires
        old(expr)@.kind is Closure,
    ensures
        (final(cx)@, final(expr)@) == expand_closure(
            old(cx)@,
            body_mode(
                old(cx)@,
                find_try_expr(
                    old(cx)@.marker.ident,
                    Scope::outermost(),
                    *old(expr)@.kind->Closure_body,
                ),
            ),
            old(expr)@,
        ),
    decreases weight_expr(old(expr)@), 1int, *old(expr), 3int,
{
    match &mut expr.kind {
        ExprKind::Closure { body, .. } => {
            select_mode(body, cx);
            let mut visitor = Visitor::new(cx);
            visitor.visit_expr_mut(body);
        },
        _ => {},
    }
}

/// One whole invocation on an expression: the mode of the pass over a
/// closure is chosen, the pass is run, and if it handed out any variant the
/// declaration of the sum type is put in front of the expression.  Where
/// the invocation requests no trait, the pass that rewrites nothing is run
/// instead.
#[verifier::spinoff_prover]
pub fn expand_expr(expr: &mut Expr, cx: &mut Context)
    ensures
        (final(cx)@, final(expr)@) == spec_expand_expr(old(cx)@, old(expr)@),
    decreases weight_expr(old(expr)@), 1int, *old(expr), 4int,
{
    proof {
        lemma_expand_expr_shape(old(cx)@, old(expr)@);
    }
    if cx.is_dummy() {
        expand_idle(expr, cx);
    } else {
        let closure = match &expr.kind {
            ExprKind::Closure { .. } => true,
            _ => false,
        };
        if closure {
            expand_in_closure(expr, cx);
        } else {
            let mut visitor = Visitor::new(cx);
            visitor.visit_expr_mut(expr);
        }
        declare_sum_type(expr, cx);
    }
}

} // verus!
