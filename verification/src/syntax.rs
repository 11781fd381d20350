//! The syntax tree that the rewriting engine works on.
//!
//! The tree keeps what the engine has to read: the attributes of each node,
//! the forms that end a scope's evaluation with a value (`return`, `?`, a
//! marker macro), the forms that open a new scope (closures, `try` blocks,
//! items), and the sub-expressions of everything else.  Anything the engine
//! never looks into (patterns, types, paths, literals) is kept as source text.
//!
//! Every executable type has a mathematical view made of `Seq`, `nat` and
//! plain enums; all contracts of the crate are stated over these views.

use vstd::prelude::*;
use vstd::string::StringExecFns;

use crate::parse::{is_readable, read_as_expression, readable};

verus! {

/// Name of the annotation that keeps a `return` or `?` from being rewritten.
pub const NEVER: &'static str = "never";

/// Name of the annotation that asks for a branch to be looked into.
pub const NESTED: &'static str = "nested";

/// The identifier of the marker macro when none is configured.
pub const DEFAULT_MARKER: &'static str = "marker";

/// Which early exits a pass rewrites.
#[derive(Clone, Copy, Debug, PartialEq, Eq, Structural)]
pub enum VisitMode {
    /// Only marker macros are expanded.
    Default,
    /// `return <expr>` is rewritten as well.
    Return,
    /// `<expr>?` is rewritten as well.
    Try,
}

/// The configuration of one invocation, as the front end read it from the
/// arguments of the attribute.
#[derive(Debug, PartialEq, Eq)]
pub struct Config {
    /// Name of the sum type that the invocation generates.
    pub ident: String,
    /// The rewrite mode, if the user pinned one; `None` asks for detection.
    pub mode: Option<VisitMode>,
    /// The identifier of the marker macro; `None` stands for `marker`.
    pub marker: Option<String>,
    /// Whether the marker belongs to this invocation alone, so that it is
    /// recognised inside nested invocations too.
    pub unique_marker: bool,
    /// The traits to implement for the sum type.
    pub traits: Vec<String>,
    /// The types of the values inside the variants, where the user has
    /// written them down; they are handed on to the declaration of the sum
    /// type.
    pub types: Vec<String>,
}

/// The view of a `Config`, over which contracts are stated.
pub ghost struct ConfigView {
    pub ident: Seq<char>,
    pub mode: Option<VisitMode>,
    pub marker: Option<Seq<char>>,
    pub unique_marker: bool,
    pub traits: Seq<Seq<char>>,
    pub types: Seq<Seq<char>>,
}

/// The views of a vector of strings.
pub open spec fn strings_view(v: Seq<String>) -> Seq<Seq<char>> {
    Seq::new(v.len(), |i: int| v[i]@)
}

impl View for Config {
    type V = ConfigView;

    open spec fn view(&self) -> ConfigView {
        ConfigView {
            ident: self.ident@,
            mode: self.mode,
            marker: match self.marker {
                Some(m) => Some(m@),
                None => None,
            },
            unique_marker: self.unique_marker,
            traits: strings_view(self.traits@),
            types: strings_view(self.types@),
        }
    }
}

impl ConfigView {
    /// The identifier that marker macros of this invocation carry.
    pub open spec fn marker_ident(self) -> Seq<char> {
        match self.marker {
            Some(m) => m,
            None => DEFAULT_MARKER@,
        }
    }
}

/// An attribute on an expression, a `let` statement or a match arm.
#[derive(Debug, PartialEq, Eq)]
pub enum Attr {
    /// `#[name]` where `tokens` is empty, `#[name tokens]` otherwise.
    Plain { name: String, tokens: String },
    /// The attribute of a nested, independent invocation: its configuration
    /// as the front end read it from the arguments, or the message of the
    /// front end where it could not read them.
    Invocation(Result<Config, String>),
}

/// The view of what the attribute of a nested invocation holds.
pub open spec fn invocation_view(r: Result<Config, String>) -> Result<ConfigView, Seq<char>> {
    match r {
        Ok(config) => Ok(config@),
        Err(message) => Err(message@),
    }
}

/// The view of an `Attr`, over which contracts are stated.
pub ghost enum AttrView {
    Plain { name: Seq<char>, tokens: Seq<char> },
    Invocation(Result<ConfigView, Seq<char>>),
}

impl View for Attr {
    type V = AttrView;

    open spec fn view(&self) -> AttrView {
        match self {
            Attr::Plain { name, tokens } => AttrView::Plain { name: name@, tokens: tokens@ },
            Attr::Invocation(r) => AttrView::Invocation(invocation_view(*r)),
        }
    }
}

impl AttrView {
    /// `#[name]`, without arguments.
    pub open spec fn is_empty_attr(self, name: Seq<char>) -> bool {
        self matches AttrView::Plain { name: n, tokens } && n == name && tokens.len() == 0
    }

    /// `#[never]` or `#[nested]`: the annotations that only steer a pass and
    /// are removed by it.
    pub open spec fn is_annotation(self) -> bool {
        self.is_empty_attr(NEVER@) || self.is_empty_attr(NESTED@)
    }
}

pub open spec fn attrs_view(v: Seq<Attr>) -> Seq<AttrView> {
    Seq::new(v.len(), |i: int| v[i]@)
}

/// Some attribute starts a nested invocation.
pub open spec fn any_invocation(attrs: Seq<AttrView>) -> bool {
    exists|i: int| 0 <= i < attrs.len() && attrs[i] is Invocation
}

/// Some attribute is `#[name]`.
pub open spec fn any_empty_attr(attrs: Seq<AttrView>, name: Seq<char>) -> bool {
    exists|i: int| 0 <= i < attrs.len() && (#[trigger] attrs[i]).is_empty_attr(name)
}

/// The attributes without `#[never]` and `#[nested]`, in their order.
pub open spec fn without_annotations(attrs: Seq<AttrView>) -> Seq<AttrView> {
    attrs.filter(|a: AttrView| !a.is_annotation())
}

/// The position of the first element of `s` that satisfies `p`.
#[verifier::opaque]
pub open spec fn first_index<T>(s: Seq<T>, p: spec_fn(T) -> bool) -> Option<int> {
    if exists|i: int| 0 <= i < s.len() && p(s[i]) {
        Some(choose|i: int| 0 <= i < s.len() && p(s[i]) && forall|j: int| 0 <= j < i ==> !p(s[j]))
    } else {
        None
    }
}

/// `first_index` is the least position at which `p` holds, and `None` if
/// there is none.
pub proof fn lemma_first_index<T>(s: Seq<T>, p: spec_fn(T) -> bool, i: int)
    requires
        0 <= i <= s.len(),
        forall|j: int| 0 <= j < i ==> !p(#[trigger] s[j]),
    ensures
        i < s.len() && p(s[i]) ==> first_index(s, p) == Some(i),
        i == s.len() ==> first_index(s, p) is None,
{
    reveal(first_index);
    if i < s.len() && p(s[i]) {
        let k = choose|k: int|
            0 <= k < s.len() && p(s[k]) && forall|j: int| 0 <= j < k ==> !p(s[j]);
        assert(0 <= i < s.len() && p(s[i]) && forall|j: int| 0 <= j < i ==> !p(s[j]));
        if k < i {
            assert(!p(s[k]));
        }
        if i < k {
            assert(!p(s[i]));
        }
    }
}

/// What `first_index` returns is a position at which `p` holds, with none
/// before it; it returns `None` only if `p` holds nowhere.
pub proof fn lemma_first_index_found<T>(s: Seq<T>, p: spec_fn(T) -> bool)
    ensures
        match first_index(s, p) {
            Some(i) => 0 <= i < s.len() && p(s[i]) && forall|j: int| 0 <= j < i ==> !p(s[j]),
            None => forall|i: int| 0 <= i < s.len() ==> !p(s[i]),
        },
{
    lemma_first_index_scan(s, p, 0);
}

proof fn lemma_first_index_scan<T>(s: Seq<T>, p: spec_fn(T) -> bool, i: int)
    requires
        0 <= i <= s.len(),
        forall|j: int| 0 <= j < i ==> !p(#[trigger] s[j]),
    ensures
        match first_index(s, p) {
            Some(k) => 0 <= k < s.len() && p(s[k]) && forall|j: int| 0 <= j < k ==> !p(s[j]),
            None => forall|k: int| 0 <= k < s.len() ==> !p(s[k]),
        },
    decreases s.len() - i,
{
    reveal(first_index);
    lemma_first_index(s, p, i);
    if i < s.len() && !p(s[i]) {
        lemma_first_index_scan(s, p, i + 1);
    }
}

/// The position of the first attribute that starts a nested invocation.
pub open spec fn first_invocation(attrs: Seq<AttrView>) -> Option<int> {
    first_index(attrs, |a: AttrView| a is Invocation)
}

/// Whether `name@ == literal@`.
pub fn name_is(name: &String, literal: &str) -> (r: bool)
    ensures
        r == (name@ == literal@),
{
    let other = String::from_str(literal);
    *name == other
}

impl Attr {
    /// Whether the attribute is `#[name]`, without arguments.
    pub fn is_empty_attr(&self, name: &str) -> (r: bool)
        ensures
            r == self@.is_empty_attr(name@),
    {
        match self {
            Attr::Plain { name: n, tokens } => name_is(n, name) && tokens.as_str().is_empty(),
            Attr::Invocation(_) => false,
        }
    }

    /// Whether the attribute is `#[never]` or `#[nested]`.
    pub fn is_annotation(&self) -> (r: bool)
        ensures
            r == self@.is_annotation(),
    {
        self.is_empty_attr(NEVER) || self.is_empty_attr(NESTED)
    }

    /// Whether the attribute starts a nested invocation.
    pub fn is_invocation(&self) -> (r: bool)
        ensures
            r == (self@ is Invocation),
    {
        match self {
            Attr::Plain { .. } => false,
            Attr::Invocation(_) => true,
        }
    }
}

/// Whether some attribute is `#[name]`.
pub fn has_empty_attr(attrs: &Vec<Attr>, name: &str) -> (r: bool)
    ensures
        r == any_empty_attr(attrs_view(attrs@), name@),
{
    let n = attrs.len();
    let mut i: usize = 0;
    while i < n
        invariant
            i <= n,
            n == attrs.len(),
            forall|j: int| 0 <= j < i ==> !(#[trigger] attrs_view(attrs@)[j]).is_empty_attr(name@),
        decreases n - i,
    {
        if attrs[i].is_empty_attr(name) {
            assert(attrs_view(attrs@)[i as int].is_empty_attr(name@));
            return true;
        }
        i += 1;
    }
    false
}

/// The position of the first attribute that starts a nested invocation.
pub fn find_invocation(attrs: &Vec<Attr>) -> (r: Option<usize>)
    ensures
        match r {
            Some(i) => i < attrs.len() && first_invocation(attrs_view(attrs@)) == Some(i as int),
            None => first_invocation(attrs_view(attrs@)) is None,
        },
{
    let ghost view = attrs_view(attrs@);
    let ghost p = |a: AttrView| a is Invocation;
    let n = attrs.len();
    let mut i: usize = 0;
    while i < n
        invariant
            i <= n,
            n == attrs.len(),
            view == attrs_view(attrs@),
            p == (|a: AttrView| a is Invocation),
            forall|j: int| 0 <= j < i ==> !p(#[trigger] view[j]),
        decreases n - i,
    {
        if attrs[i].is_invocation() {
            proof {
                assert(p(view[i as int]));
                lemma_first_index(view, p, i as int);
            }
            return Some(i);
        }
        i += 1;
    }
    proof {
        lemma_first_index(view, p, n as int);
    }
    None
}

/// Whether some attribute starts a nested invocation.
pub fn has_invocation(attrs: &Vec<Attr>) -> (r: bool)
    ensures
        r == any_invocation(attrs_view(attrs@)),
{
    let found = find_invocation(attrs);
    proof {
        let view = attrs_view(attrs@);
        let p = |a: AttrView| a is Invocation;
        lemma_first_index_found(view, p);
        if found is None {
            assert forall|i: int| 0 <= i < view.len() implies !(view[i] is Invocation) by {
                assert(!p(view[i]));
            }
        } else {
            assert(p(view[found->Some_0 as int]));
        }
    }
    found.is_some()
}

/// Removes the first attribute that starts a nested invocation and returns
/// what it holds.
pub fn take_invocation_attr(attrs: &mut Vec<Attr>) -> (r: Option<Result<Config, String>>)
    ensures
        match first_invocation(attrs_view(old(attrs)@)) {
            Some(i) => r matches Some(held) && invocation_view(held) == attrs_view(
                old(attrs)@,
            )[i]->Invocation_0 && attrs_view(final(attrs)@) == attrs_view(old(attrs)@).remove(i),
            None => r is None && *final(attrs) == *old(attrs),
        },
{
    match find_invocation(attrs) {
        Some(i) => {
            let ghost before = attrs_view(attrs@);
            proof {
                lemma_first_index_found(before, |a: AttrView| a is Invocation);
            }
            let attr = attrs.remove(i);
            assert(attrs_view(attrs@) =~= before.remove(i as int));
            assert(attr@ == before[i as int]);
            match attr {
                Attr::Invocation(held) => Some(held),
                Attr::Plain { .. } => None,
            }
        },
        None => None,
    }
}

/// Removes `#[never]` and `#[nested]`.
pub fn remove_annotations(attrs: &mut Vec<Attr>)
    ensures
        attrs_view(final(attrs)@) == without_annotations(attrs_view(old(attrs)@)),
{
    let ghost orig = attrs_view(attrs@);
    let ghost p = |a: AttrView| !a.is_annotation();
    let ghost k: int = 0;
    let mut i: usize = 0;
    proof {
        reveal(Seq::filter);
        assert(orig.take(0) =~= Seq::empty());
        assert(orig.skip(0) =~= orig);
    }
    while i < attrs.len()
        invariant
            0 <= k <= orig.len(),
            i <= attrs.len(),
            p == (|a: AttrView| !a.is_annotation()),
            attrs.len() - i == orig.len() - k,
            attrs_view(attrs@) =~= orig.take(k).filter(p) + orig.skip(k),
            i == orig.take(k).filter(p).len(),
        decreases orig.len() - k,
    {
        proof {
            reveal(Seq::filter);
            assert(orig.take(k + 1).drop_last() =~= orig.take(k));
            assert(orig.take(k + 1).last() == orig[k]);
            assert(attrs_view(attrs@)[i as int] == orig.skip(k)[0]);
        }
        if attrs[i].is_annotation() {
            let ghost before = attrs_view(attrs@);
            attrs.remove(i);
            proof {
                assert(attrs_view(attrs@) =~= before.remove(i as int));
                assert(before.remove(i as int) =~= orig.take(k + 1).filter(p) + orig.skip(k + 1));
                k = k + 1;
            }
        } else {
            proof {
                assert(attrs_view(attrs@) =~= orig.take(k + 1).filter(p) + orig.skip(k + 1));
                k = k + 1;
            }
            i += 1;
        }
    }
    proof {
        assert(orig.take(k) =~= orig);
        assert(orig.skip(k) =~= Seq::empty());
    }
}

/// A nested declaration.  A pass never looks into one.
#[derive(Debug, PartialEq, Eq)]
pub enum Item {
    /// Any declaration, as source text.
    Verbatim(String),
    /// The declaration of a generated sum type with `variants` variants, for
    /// which `traits` are to be implemented.  `types` are the types of the
    /// values inside the variants as far as the user has written them down.
    SumType { ident: String, variants: usize, traits: Vec<String>, types: Vec<String> },
}

/// The view of an `Item`, over which contracts are stated.
pub ghost enum ItemView {
    Verbatim(Seq<char>),
    SumType { ident: Seq<char>, variants: nat, traits: Seq<Seq<char>>, types: Seq<Seq<char>> },
}

impl View for Item {
    type V = ItemView;

    open spec fn view(&self) -> ItemView {
        match self {
            Item::Verbatim(text) => ItemView::Verbatim(text@),
            Item::SumType { ident, variants, traits, types } => ItemView::SumType {
                ident: ident@,
                variants: *variants as nat,
                traits: strings_view(traits@),
                types: strings_view(types@),
            },
        }
    }
}

/// An expression with its attributes.
#[derive(Debug, PartialEq, Eq)]
pub struct Expr {
    pub attrs: Vec<Attr>,
    pub kind: ExprKind,
}

#[derive(Debug, PartialEq, Eq)]
pub enum ExprKind {
    /// `return` or `return <expr>`.
    Return(Option<Box<Expr>>),
    /// `<expr>?`.
    Try(Box<Expr>),
    /// `path!(tokens)`.  `error` is the message of the parser where `tokens`
    /// were read as one expression and are none; it is `None` where they are
    /// one and where they were not read.
    Macro { path: String, tokens: String, error: Option<String> },
    /// `|inputs| body`.
    Closure { inputs: String, body: Box<Expr> },
    /// `try { .. }`.
    TryBlock(Vec<Stmt>),
    /// `{ .. }`.
    Block(Vec<Stmt>),
    /// `match scrutinee { arms }`.
    Match { scrutinee: Box<Expr>, arms: Vec<Arm> },
    /// `func(args)`.
    Call { func: Box<Expr>, args: Vec<Expr> },
    /// The construction of variant number `variant` of the sum type `sum`
    /// around `payload`.
    Construct { sum: String, variant: usize, payload: Box<Expr> },
    /// An expression without sub-expressions, as source text.
    Verbatim(String),
    /// The placeholder `compile_error!(message)`.
    CompileError(String),
    /// Any other expression: `form` names its shape and `children` are its
    /// sub-expressions from left to right.
    Other { form: String, children: Vec<Expr> },
}

/// One arm of a `match`.
#[derive(Debug, PartialEq, Eq)]
pub struct Arm {
    pub attrs: Vec<Attr>,
    pub pat: String,
    pub guard: Option<Expr>,
    pub body: Expr,
}

/// A `let` statement.
#[derive(Debug, PartialEq, Eq)]
pub struct Local {
    pub attrs: Vec<Attr>,
    pub pat: String,
    pub init: Option<Expr>,
}

#[derive(Debug, PartialEq, Eq)]
pub enum Stmt {
    Local(Local),
    Item(Item),
    /// An expression without a trailing semicolon.
    Expr(Expr),
    /// An expression with a trailing semicolon.
    Semi(Expr),
}

/// The view of a message that may be absent.
pub open spec fn message_view(r: Option<String>) -> Option<Seq<char>> {
    match r {
        Some(message) => Some(message@),
        None => None,
    }
}

impl Expr {
    /// The call `path!(tokens)` of a marker macro, without attributes.
    /// Where the tokens are a text that the parser is given, they are read
    /// as one expression and what the parser says of them is kept in the
    /// node, whatever it is.  Any other text is not read, and nothing is
    /// held against it.
    pub fn macro_call(path: String, tokens: String) -> (r: Expr)
        ensures
            r@.attrs == Seq::<AttrView>::empty(),
            r@.kind matches ExprKindView::Macro { path: p, tokens: t, error } && p == path@ && t
                == tokens@ && (!readable(tokens@) ==> error is None),
    {
        let error = if is_readable(tokens.as_str()) {
            read_as_expression(tokens.as_str())
        } else {
            None
        };
        let r = Expr { attrs: Vec::new(), kind: ExprKind::Macro { path, tokens, error } };
        assert(r@.attrs =~= Seq::empty());
        r
    }
}

/// The view of an `Expr`, over which contracts are stated.
pub ghost struct ExprView {
    pub attrs: Seq<AttrView>,
    pub kind: ExprKindView,
}

/// The view of an `ExprKind`, over which contracts are stated.
pub ghost enum ExprKindView {
    Return(Option<Box<ExprView>>),
    Try(Box<ExprView>),
    Macro { path: Seq<char>, tokens: Seq<char>, error: Option<Seq<char>> },
    Closure { inputs: Seq<char>, body: Box<ExprView> },
    TryBlock(Seq<StmtView>),
    Block(Seq<StmtView>),
    Match { scrutinee: Box<ExprView>, arms: Seq<ArmView> },
    Call { func: Box<ExprView>, args: Seq<ExprView> },
    Construct { sum: Seq<char>, variant: nat, payload: Box<ExprView> },
    Verbatim(Seq<char>),
    CompileError(Seq<char>),
    Other { form: Seq<char>, children: Seq<ExprView> },
}

/// The view of an `Arm`, over which contracts are stated.
pub ghost struct ArmView {
    pub attrs: Seq<AttrView>,
    pub pat: Seq<char>,
    pub guard: Option<Box<ExprView>>,
    pub body: Box<ExprView>,
}

/// The view of a `Local`, over which contracts are stated.
pub ghost struct LocalView {
    pub attrs: Seq<AttrView>,
    pub pat: Seq<char>,
    pub init: Option<Box<ExprView>>,
}

/// The view of a `Stmt`, over which contracts are stated.
pub ghost enum StmtView {
    Local(LocalView),
    Item(ItemView),
    Expr(ExprView),
    Semi(ExprView),
}

pub open spec fn expr_view(e: Expr) -> ExprView
    decreases e,
{
    ExprView {
        attrs: attrs_view(e.attrs@),
        kind: match e.kind {
            ExprKind::Return(None) => ExprKindView::Return(None),
            ExprKind::Return(Some(payload)) => ExprKindView::Return(
                Some(Box::new(expr_view(*payload))),
            ),
            ExprKind::Try(inner) => ExprKindView::Try(Box::new(expr_view(*inner))),
            ExprKind::Macro { path, tokens, error } => ExprKindView::Macro {
                path: path@,
                tokens: tokens@,
                error: message_view(error),
            },
            ExprKind::Closure { inputs, body } => ExprKindView::Closure {
                inputs: inputs@,
                body: Box::new(expr_view(*body)),
            },
            ExprKind::TryBlock(stmts) => ExprKindView::TryBlock(stmts_view(stmts@)),
            ExprKind::Block(stmts) => ExprKindView::Block(stmts_view(stmts@)),
            ExprKind::Match { scrutinee, arms } => ExprKindView::Match {
                scrutinee: Box::new(expr_view(*scrutinee)),
                arms: arms_view(arms@),
            },
            ExprKind::Call { func, args } => ExprKindView::Call {
                func: Box::new(expr_view(*func)),
                args: exprs_view(args@),
            },
            ExprKind::Construct { sum, variant, payload } => ExprKindView::Construct {
                sum: sum@,
                variant: variant as nat,
                payload: Box::new(expr_view(*payload)),
            },
            ExprKind::Verbatim(text) => ExprKindView::Verbatim(text@),
            ExprKind::CompileError(message) => ExprKindView::CompileError(message@),
            ExprKind::Other { form, children } => ExprKindView::Other {
                form: form@,
                children: exprs_view(children@),
            },
        },
    }
}

pub open spec fn exprs_view(v: Seq<Expr>) -> Seq<ExprView>
    decreases v,
{
    Seq::new(
        v.len(),
        |i: int|
            if 0 <= i < v.len() {
                expr_view(v[i])
            } else {
                arbitrary()
            },
    )
}

pub open spec fn arm_view(a: Arm) -> ArmView
    decreases a,
{
    ArmView {
        attrs: attrs_view(a.attrs@),
        pat: a.pat@,
        guard: match a.guard {
            Some(g) => Some(Box::new(expr_view(g))),
            None => None,
        },
        body: Box::new(expr_view(a.body)),
    }
}

pub open spec fn arms_view(v: Seq<Arm>) -> Seq<ArmView>
    decreases v,
{
    Seq::new(
        v.len(),
        |i: int|
            if 0 <= i < v.len() {
                arm_view(v[i])
            } else {
                arbitrary()
            },
    )
}

pub open spec fn local_view(l: Local) -> LocalView
    decreases l,
{
    LocalView {
        attrs: attrs_view(l.attrs@),
        pat: l.pat@,
        init: match l.init {
            Some(e) => Some(Box::new(expr_view(e))),
            None => None,
        },
    }
}

pub open spec fn stmt_view(s: Stmt) -> StmtView
    decreases s,
{
    match s {
        Stmt::Local(l) => StmtView::Local(local_view(l)),
        Stmt::Item(i) => StmtView::Item(i@),
        Stmt::Expr(e) => StmtView::Expr(expr_view(e)),
        Stmt::Semi(e) => StmtView::Semi(expr_view(e)),
    }
}

pub open spec fn stmts_view(v: Seq<Stmt>) -> Seq<StmtView>
    decreases v,
{
    Seq::new(
        v.len(),
        |i: int|
            if 0 <= i < v.len() {
                stmt_view(v[i])
            } else {
                arbitrary()
            },
    )
}

impl View for Expr {
    type V = ExprView;

    open spec fn view(&self) -> ExprView {
        expr_view(*self)
    }
}

impl View for Arm {
    type V = ArmView;

    open spec fn view(&self) -> ArmView {
        arm_view(*self)
    }
}

impl View for Local {
    type V = LocalView;

    open spec fn view(&self) -> LocalView {
        local_view(*self)
    }
}

impl View for Stmt {
    type V = StmtView;

    open spec fn view(&self) -> StmtView {
        stmt_view(*self)
    }
}

/// The number of attributes that start a nested invocation.
pub open spec fn invocation_count(attrs: Seq<AttrView>) -> nat
    decreases attrs.len(),
{
    if attrs.len() == 0 {
        0
    } else {
        invocation_count(attrs.drop_last()) + if attrs.last() is Invocation {
            1nat
        } else {
            0nat
        }
    }
}

/// The number of nested invocations that start somewhere in `e`.
pub open spec fn weight_expr(e: ExprView) -> nat
    decreases e, 1int,
{
    invocation_count(e.attrs) + match e.kind {
        ExprKindView::Return(Some(payload)) => weight_expr(*payload),
        ExprKindView::Try(inner) => weight_expr(*inner),
        ExprKindView::Closure { body, .. } => weight_expr(*body),
        ExprKindView::TryBlock(stmts) => weight_stmts(stmts),
        ExprKindView::Block(stmts) => weight_stmts(stmts),
        ExprKindView::Match { scrutinee, arms } => weight_expr(*scrutinee) + weight_arms(arms),
        ExprKindView::Call { func, args } => weight_expr(*func) + weight_exprs(args),
        ExprKindView::Construct { payload, .. } => weight_expr(*payload),
        ExprKindView::Other { children, .. } => weight_exprs(children),
        _ => 0,
    }
}

pub open spec fn weight_exprs(es: Seq<ExprView>) -> nat
    decreases es, 0int,
{
    if es.len() == 0 {
        0
    } else {
        weight_exprs(es.drop_last()) + weight_expr(es.last())
    }
}

pub open spec fn weight_arm(arm: ArmView) -> nat
    decreases arm, 0int,
{
    invocation_count(arm.attrs) + (match arm.guard {
        Some(g) => weight_expr(*g),
        None => 0,
    }) + weight_expr(*arm.body)
}

pub open spec fn weight_arms(arms: Seq<ArmView>) -> nat
    decreases arms, 0int,
{
    if arms.len() == 0 {
        0
    } else {
        weight_arms(arms.drop_last()) + weight_arm(arms.last())
    }
}

pub open spec fn weight_local(local: LocalView) -> nat
    decreases local, 0int,
{
    invocation_count(local.attrs) + match local.init {
        Some(e) => weight_expr(*e),
        None => 0,
    }
}

pub open spec fn weight_stmt(stmt: StmtView) -> nat
    decreases stmt, 1int,
{
    match stmt {
        StmtView::Local(local) => weight_local(local),
        StmtView::Item(_) => 0,
        StmtView::Expr(e) => weight_expr(e),
        StmtView::Semi(e) => weight_expr(e),
    }
}

pub open spec fn weight_stmts(stmts: Seq<StmtView>) -> nat
    decreases stmts, 0int,
{
    if stmts.len() == 0 {
        0
    } else {
        weight_stmts(stmts.drop_last()) + weight_stmt(stmts.last())
    }
}

} // verus!
