//! The scan that tells whether a body uses `?`.

use vstd::prelude::*;

use crate::context::Context;
use crate::semantics::{
    find_try_arm, find_try_arms, find_try_children, find_try_expr, find_try_exprs, find_try_local,
    find_try_stmt, find_try_stmts, Scope,
};
use crate::syntax::{
    arms_view, exprs_view, has_empty_attr, has_invocation, stmts_view, Arm, Expr, ExprKind, Item,
    Local, Stmt, NEVER,
};

verus! {

broadcast use vstd::std_specs::vec::group_vec_axioms;

/// The scan for a `?` that a pass in try mode would rewrite.
pub struct FindTry<'a> {
    pub cx: &'a Context,
    pub scope: Scope,
    pub has: bool,
}

impl<'a> FindTry<'a> {
    /// A scan that starts at the outermost scope of a body and has found
    /// nothing yet.
    pub fn new(cx: &'a Context) -> (f: Self)
        ensures
            f.cx == cx,
            f.scope == Scope::outermost(),
            !f.has,
    {
        Self { cx, scope: Scope::default(), has: false }
    }

    /// The scan of one expression.
    pub fn visit_expr_mut(&mut self, expr: &Expr)
        ensures
            final(self).has == (old(self).has || find_try_expr(
                old(self).cx@.marker.ident,
                old(self).scope,
                expr@,
            )),
            final(self).scope == old(self).scope,
            final(self).cx == old(self).cx,
        decreases expr, 1int,
    {
        let tmp = self.scope;
        match &expr.kind {
            ExprKind::Closure { .. } => {
                self.scope.closure = true;
            },
            ExprKind::TryBlock(_) => {
                self.scope.try_block = true;
            },
            _ => {},
        }
        if !self.scope.closure && !self.scope.try_block && !self.scope.foreign && !has_empty_attr(
            &expr.attrs,
            NEVER,
        ) {
            match &expr.kind {
                ExprKind::Try(inner) => {
                    // Skip if `<expr>` is a marker macro.
                    if !self.cx.is_marker_expr(inner) {
                        self.has = true;
                    }
                },
                _ => {},
            }
        }
        if has_invocation(&expr.attrs) {
            self.scope.foreign = true;
        }
        if !self.has {
            self.visit_children(expr);
        }
        self.scope = tmp;
    }

    fn visit_children(&mut self, expr: &Expr)
        requires
            !old(self).has,
        ensures
            final(self).has == find_try_children(
                old(self).cx@.marker.ident,
                old(self).scope,
                expr@,
            ),
            final(self).scope == old(self).scope,
            final(self).cx == old(self).cx,
        decreases expr, 0int,
    {
        match &expr.kind {
            ExprKind::Return(Some(payload)) => {
                self.visit_expr_mut(payload);
            },
            ExprKind::Return(None) => {},
            ExprKind::Try(inner) => {
                self.visit_expr_mut(inner);
            },
            ExprKind::Macro { .. } => {},
            ExprKind::Closure { body, .. } => {
                self.visit_expr_mut(body);
            },
            ExprKind::TryBlock(stmts) => {
                self.scan_stmts(stmts);
            },
            ExprKind::Block(stmts) => {
                self.scan_stmts(stmts);
            },
            ExprKind::Match { scrutinee, arms } => {
                self.visit_expr_mut(scrutinee);
                if !self.has {
                    self.visit_arms(arms);
                }
            },
            ExprKind::Call { func, args } => {
                self.visit_expr_mut(func);
                if !self.has {
                    self.visit_exprs(args);
                }
            },
            ExprKind::Construct { payload, .. } => {
                self.visit_expr_mut(payload);
            },
            ExprKind::Verbatim(_) => {},
            ExprKind::CompileError(_) => {},
            ExprKind::Other { children, .. } => {
                self.visit_exprs(children);
            },
        }
    }

    fn visit_exprs(&mut self, exprs: &Vec<Expr>)
        requires
            !old(self).has,
        ensures
            final(self).has == find_try_exprs(
                old(self).cx@.marker.ident,
                old(self).scope,
                exprs_view(exprs@),
            ),
            final(self).scope == old(self).scope,
            final(self).cx == old(self).cx,
        decreases exprs, 0int,
    {
        let n = exprs.len();
        let mut i: usize = 0;
        while i < n && !self.has
            invariant
                i <= n,
                n == exprs.len(),
                self.scope == old(self).scope,
                self.cx == old(self).cx,
                self.has ==> i > 0 && find_try_expr(
                    self.cx@.marker.ident,
                    self.scope,
                    exprs_view(exprs@)[i - 1],
                ),
                forall|j: int|
                    0 <= j < i - (if self.has { 1int } else { 0int }) ==> !find_try_expr(
                        self.cx@.marker.ident,
                        self.scope,
                        #[trigger] exprs_view(exprs@)[j],
                    ),
            decreases n - i,
        {
            self.visit_expr_mut(&exprs[i]);
            i += 1;
        }
    }

    fn visit_arms(&mut self, arms: &Vec<Arm>)
        requires
            !old(self).has,
        ensures
            final(self).has == find_try_arms(
                old(self).cx@.marker.ident,
                old(self).scope,
                arms_view(arms@),
            ),
            final(self).scope == old(self).scope,
            final(self).cx == old(self).cx,
        decreases arms, 0int,
    {
        let n = arms.len();
        let mut i: usize = 0;
        while i < n && !self.has
            invariant
                i <= n,
                n == arms.len(),
                self.scope == old(self).scope,
                self.cx == old(self).cx,
                self.has ==> i > 0 && find_try_arm(
                    self.cx@.marker.ident,
                    self.scope,
                    arms_view(arms@)[i - 1],
                ),
                forall|j: int|
                    0 <= j < i - (if self.has { 1int } else { 0int })
                        ==> !find_try_arm(
                        self.cx@.marker.ident,
                        self.scope,
                        #[trigger] arms_view(arms@)[j],
                    ),
            decreases n - i,
        {
            let arm = &arms[i];
            match &arm.guard {
                Some(guard) => {
                    self.visit_expr_mut(guard);
                },
                None => {},
            }
            if !self.has {
                self.visit_expr_mut(&arm.body);
            }
            i += 1;
        }
    }

    /// The scan of one `let` statement.
    pub fn visit_local_mut(&mut self, local: &Local)
        ensures
            final(self).has == (old(self).has || find_try_local(
                old(self).cx@.marker.ident,
                old(self).scope,
                local@,
            )),
            final(self).scope == old(self).scope,
            final(self).cx == old(self).cx,
        decreases local, 0int,
    {
        let tmp = self.scope;
        if has_invocation(&local.attrs) {
            self.scope.foreign = true;
        }
        match &local.init {
            Some(init) => {
                self.visit_expr_mut(init);
            },
            None => {},
        }
        self.scope = tmp;
    }

    /// Stop at item bounds.
    pub fn visit_item_mut(&mut self, _item: &Item)
        ensures
            *final(self) == *old(self),
    {
    }

    /// The scan of the statements of a block.
    pub fn visit_stmts(&mut self, stmts: &Vec<Stmt>)
        ensures
            final(self).has == (old(self).has || find_try_stmts(
                old(self).cx@.marker.ident,
                old(self).scope,
                stmts_view(stmts@),
            )),
            final(self).scope == old(self).scope,
            final(self).cx == old(self).cx,
    {
        if !self.has {
            self.scan_stmts(stmts);
        }
    }

    fn scan_stmts(&mut self, stmts: &Vec<Stmt>)
        requires
            !old(self).has,
        ensures
            final(self).has == find_try_stmts(
                old(self).cx@.marker.ident,
                old(self).scope,
                stmts_view(stmts@),
            ),
            final(self).scope == old(self).scope,
            final(self).cx == old(self).cx,
        decreases stmts, 0int,
    {
        let n = stmts.len();
        let mut i: usize = 0;
        while i < n && !self.has
            invariant
                i <= n,
                n == stmts.len(),
                self.scope == old(self).scope,
                self.cx == old(self).cx,
                self.has ==> i > 0 && find_try_stmt(
                    self.cx@.marker.ident,
                    self.scope,
                    stmts_view(stmts@)[i - 1],
                ),
                forall|j: int|
                    0 <= j < i - (if self.has { 1int } else { 0int })
                        ==> !find_try_stmt(
                        self.cx@.marker.ident,
                        self.scope,
                        #[trigger] stmts_view(stmts@)[j],
                    ),
            decreases n - i,
        {
            match &stmts[i] {
                Stmt::Local(local) => {
                    self.visit_local_mut(local);
                },
                Stmt::Item(item) => {
                    self.visit_item_mut(item);
                },
                Stmt::Expr(expr) => {
                    self.visit_expr_mut(expr);
                },
                Stmt::Semi(expr) => {
                    self.visit_expr_mut(expr);
                },
            }
            i += 1;
        }
    }
}

} // verus!
