//! The state of one invocation: its configuration, the variants handed out
//! so far, and whether anything went wrong.

use vstd::prelude::*;
use vstd::string::StringExecFns;

use crate::catalogue::{find_unsupported, first_unsupported};
use crate::syntax::{
    attrs_view, strings_view, Attr, AttrView, Config, ConfigView, Expr, ExprKind, ExprKindView,
    ExprView, VisitMode, DEFAULT_MARKER,
};

verus! {

/// The kind of place that a variant was handed out for.
#[derive(Clone, Copy, Debug, PartialEq, Eq, Structural)]
pub enum Site {
    /// `return <expr>`.
    Return,
    /// `<expr>?`.
    Try,
    /// `marker!(<expr>)`.
    Marker,
}

/// What went wrong.
#[derive(Clone, Copy, Debug, PartialEq, Eq, Structural)]
pub enum ErrorKind {
    /// The argument of a marker macro is not an expression.
    MalformedMarkerArgument,
    /// A requested trait is not one of the supported traits.
    UnsupportedTraitRequest,
    /// A nested invocation names a marker that an enclosing invocation has
    /// claimed for itself.
    AmbiguousMarker,
    /// A nested invocation failed, or its arguments could not be read.
    NestedConfigurationError,
}

/// One error, to be reported where it was found.
#[derive(Debug, PartialEq, Eq)]
pub struct Diagnostic {
    pub kind: ErrorKind,
    pub message: String,
}

/// The view of a `Diagnostic`, over which contracts are stated.
pub ghost struct DiagnosticView {
    pub kind: ErrorKind,
    pub message: Seq<char>,
}

impl View for Diagnostic {
    type V = DiagnosticView;

    open spec fn view(&self) -> DiagnosticView {
        DiagnosticView { kind: self.kind, message: self.message@ }
    }
}

pub open spec fn diagnostics_view(v: Seq<Diagnostic>) -> Seq<DiagnosticView> {
    Seq::new(v.len(), |i: int| v[i]@)
}

/// Whether the invocation is still sound.  Once `Failed`, it stays so.
#[derive(Debug, PartialEq, Eq)]
pub enum Status {
    Sound,
    Failed(Vec<Diagnostic>),
}

/// The view of a `Status`, over which contracts are stated.
pub ghost enum StatusView {
    Sound,
    Failed(Seq<DiagnosticView>),
}

impl View for Status {
    type V = StatusView;

    open spec fn view(&self) -> StatusView {
        match self {
            Status::Sound => StatusView::Sound,
            Status::Failed(diagnostics) => StatusView::Failed(diagnostics_view(diagnostics@)),
        }
    }
}

impl StatusView {
    /// The status after one more error.
    pub open spec fn with_error(self, d: DiagnosticView) -> StatusView {
        match self {
            StatusView::Sound => StatusView::Failed(seq![d]),
            StatusView::Failed(ds) => StatusView::Failed(ds.push(d)),
        }
    }
}

/// The marker macro of an invocation.
#[derive(Debug, PartialEq, Eq)]
pub struct Marker {
    pub ident: String,
    pub unique: bool,
}

/// The view of a `Marker`, over which contracts are stated.
pub ghost struct MarkerView {
    pub ident: Seq<char>,
    pub unique: bool,
}

impl View for Marker {
    type V = MarkerView;

    open spec fn view(&self) -> MarkerView {
        MarkerView { ident: self.ident@, unique: self.unique }
    }
}

impl Marker {
    /// Whether the marker is recognised inside nested invocations too.
    pub fn is_unique(&self) -> (r: bool)
        ensures
            r == self@.unique,
    {
        self.unique
    }

    /// The identifier of the marker macro.
    pub fn ident(&self) -> (r: &String)
        ensures
            r@ == self@.ident,
    {
        &self.ident
    }
}

/// The state of one invocation.
#[derive(Debug, PartialEq, Eq)]
pub struct Context {
    /// Which early exits the pass rewrites.
    pub visit_mode: VisitMode,
    /// Whether the mode of a pass over a function or closure body is chosen
    /// by looking for `?` in the body.
    pub detect: bool,
    pub marker: Marker,
    /// Name of the generated sum type.
    pub sum: String,
    /// One entry per variant handed out, in the order of handing out.
    pub variants: Vec<Site>,
    pub status: Status,
    /// Whether the pass has met a nested invocation.
    pub other_attr: bool,
    /// Whether this is the invocation that encloses all others.
    pub root: bool,
    /// Set while the pass that rewrites nothing is under way.
    pub idle: bool,
    /// The traits to implement for the sum type.
    pub traits: Vec<String>,
    /// The types of the values inside the variants, where the user has
    /// written them down.
    pub types: Vec<String>,
    /// The markers that enclosing invocations, and this one, have claimed
    /// for themselves.
    pub reserved: Vec<String>,
}

/// The view of a `Context`, over which contracts are stated.
pub ghost struct ContextView {
    pub visit_mode: VisitMode,
    pub detect: bool,
    pub marker: MarkerView,
    pub sum: Seq<char>,
    pub variants: Seq<Site>,
    pub status: StatusView,
    pub other_attr: bool,
    pub root: bool,
    pub idle: bool,
    pub traits: Seq<Seq<char>>,
    pub types: Seq<Seq<char>>,
    pub reserved: Seq<Seq<char>>,
}

impl View for Context {
    type V = ContextView;

    open spec fn view(&self) -> ContextView {
        ContextView {
            visit_mode: self.visit_mode,
            detect: self.detect,
            marker: self.marker@,
            sum: self.sum@,
            variants: self.variants@,
            status: self.status@,
            other_attr: self.other_attr,
            root: self.root,
            idle: self.idle,
            traits: strings_view(self.traits@),
            types: strings_view(self.types@),
            reserved: strings_view(self.reserved@),
        }
    }
}

/// The expression `()`.
pub open spec fn unit_expr() -> ExprView {
    ExprView { attrs: Seq::empty(), kind: ExprKindView::Verbatim("()"@) }
}

/// The placeholder that stands where an error was found.
pub open spec fn compile_error_expr(message: Seq<char>) -> ExprView {
    ExprView { attrs: Seq::empty(), kind: ExprKindView::CompileError(message) }
}

impl ContextView {
    pub open spec fn failed(self) -> bool {
        self.status is Failed
    }

    /// An invocation that requests no trait rewrites nothing.
    pub open spec fn is_dummy(self) -> bool {
        self.traits.len() == 0
    }

    /// Whether a pass with this state rewrites the nodes it visits.
    pub open spec fn rewrites(self) -> bool {
        !self.failed() && !self.idle
    }

    pub open spec fn with_idle(self, idle: bool) -> ContextView {
        ContextView { idle, ..self }
    }

    pub open spec fn with_error(self, d: DiagnosticView) -> ContextView {
        ContextView { status: self.status.with_error(d), ..self }
    }

    pub open spec fn with_other_attr(self) -> ContextView {
        ContextView { other_attr: true, ..self }
    }

    pub open spec fn with_mode(self, mode: VisitMode) -> ContextView {
        ContextView { visit_mode: mode, ..self }
    }

    /// The state after a variant was handed out for a `site`.
    pub open spec fn allocated(self, site: Site) -> ContextView {
        ContextView { variants: self.variants.push(site), ..self }
    }

    /// The construction of variant number `variant` around `payload`.
    pub open spec fn construct(
        self,
        variant: nat,
        attrs: Seq<AttrView>,
        payload: ExprView,
    ) -> ExprView {
        ExprView {
            attrs,
            kind: ExprKindView::Construct { sum: self.sum, variant, payload: Box::new(payload) },
        }
    }

    /// The construction of the next variant around `payload`.
    pub open spec fn next_expr(self, attrs: Seq<AttrView>, payload: ExprView) -> ExprView {
        self.construct(self.variants.len(), attrs, payload)
    }

    /// `other` differs from `self` at most in what a pass records: the
    /// variants, the status and the nested invocations seen.
    pub open spec fn same_settings(self, other: ContextView) -> bool {
        &&& self.visit_mode == other.visit_mode
        &&& self.detect == other.detect
        &&& self.marker == other.marker
        &&& self.sum == other.sum
        &&& self.root == other.root
        &&& self.idle == other.idle
        &&& self.traits == other.traits
        &&& self.types == other.types
        &&& self.reserved == other.reserved
    }

    pub open spec fn is_marker_expr(self, e: ExprView) -> bool {
        e.kind matches ExprKindView::Macro { path, .. } && path == self.marker.ident
    }
}

/// The context that `config` asks for, before any checking.
pub open spec fn fresh_context(
    config: ConfigView,
    root: bool,
    reserved: Seq<Seq<char>>,
) -> ContextView {
    ContextView {
        visit_mode: match config.mode {
            Some(mode) => mode,
            None => VisitMode::Default,
        },
        detect: config.mode is None,
        marker: MarkerView { ident: config.marker_ident(), unique: config.unique_marker },
        sum: config.ident,
        variants: Seq::empty(),
        status: StatusView::Sound,
        other_attr: false,
        root,
        idle: false,
        traits: config.traits,
        types: config.types,
        reserved: if config.unique_marker {
            reserved.push(config.marker_ident())
        } else {
            reserved
        },
    }
}

pub open spec fn verbatim(text: Seq<char>) -> ExprView {
    ExprView { attrs: Seq::empty(), kind: ExprKindView::Verbatim(text) }
}

/// What becomes of a marker macro with attributes `attrs` and argument
/// `tokens`, of which the parser said `error`: the next variant around the
/// argument if the parser said nothing against it, else the placeholder of
/// the error, which is recorded.
pub open spec fn marker_outcome(
    cx: ContextView,
    attrs: Seq<AttrView>,
    tokens: Seq<char>,
    error: Option<Seq<char>>,
) -> (ContextView, ExprView) {
    match error {
        None => (cx.allocated(Site::Marker), cx.next_expr(attrs, verbatim(tokens))),
        Some(message) => (
            cx.with_error(
                DiagnosticView { kind: ErrorKind::MalformedMarkerArgument, message },
            ),
            compile_error_expr(message),
        ),
    }
}

pub open spec fn unsupported_trait(name: Seq<char>) -> DiagnosticView {
    DiagnosticView {
        kind: ErrorKind::UnsupportedTraitRequest,
        message: "trait is not supported: "@ + name,
    }
}

pub open spec fn ambiguous_marker(ident: Seq<char>) -> DiagnosticView {
    DiagnosticView {
        kind: ErrorKind::AmbiguousMarker,
        message: "marker is claimed by an enclosing invocation: "@ + ident,
    }
}

/// The error of a nested invocation whose arguments could not be read.
pub open spec fn malformed_arguments(message: Seq<char>) -> DiagnosticView {
    DiagnosticView { kind: ErrorKind::NestedConfigurationError, message }
}

pub open spec fn nested_failure() -> DiagnosticView {
    DiagnosticView {
        kind: ErrorKind::NestedConfigurationError,
        message: "the nested invocation failed"@,
    }
}

/// The context of the outermost invocation.
#[verifier::opaque]
pub open spec fn root_context(config: ConfigView) -> Result<ContextView, DiagnosticView> {
    match first_unsupported(config.traits) {
        Some(i) => Err(unsupported_trait(config.traits[i])),
        None => Ok(fresh_context(config, true, Seq::empty())),
    }
}

/// The context of an invocation nested in the one of `cx`.
#[verifier::opaque]
pub open spec fn child_context(cx: ContextView, config: ConfigView) -> Result<
    ContextView,
    DiagnosticView,
> {
    match first_unsupported(config.traits) {
        Some(i) => Err(unsupported_trait(config.traits[i])),
        None => if cx.reserved.contains(config.marker_ident()) {
            Err(ambiguous_marker(config.marker_ident()))
        } else {
            Ok(fresh_context(config, false, cx.reserved))
        },
    }
}

pub open spec fn context_result_view(r: Result<Context, Diagnostic>) -> Result<
    ContextView,
    DiagnosticView,
> {
    match r {
        Ok(cx) => Ok(cx@),
        Err(d) => Err(d@),
    }
}

/// A diagnostic whose message is `prefix` followed by `name`.
fn diagnostic(kind: ErrorKind, prefix: &str, name: &str) -> (d: Diagnostic)
    ensures
        d@ == (DiagnosticView { kind, message: prefix@ + name@ }),
{
    let mut message = String::from_str(prefix);
    message.append(name);
    Diagnostic { kind, message }
}

/// A copy of `names`.
pub(crate) fn copy_names(names: &Vec<String>) -> (r: Vec<String>)
    ensures
        strings_view(r@) == strings_view(names@),
{
    let mut r: Vec<String> = Vec::new();
    let n = names.len();
    let mut i: usize = 0;
    while i < n
        invariant
            i <= n,
            n == names.len(),
            r.len() == i,
            forall|j: int| 0 <= j < i ==> r@[j]@ == names@[j]@,
        decreases n - i,
    {
        r.push(names[i].clone());
        i += 1;
    }
    assert(strings_view(r@) =~= strings_view(names@));
    r
}

/// Whether `ident` is one of `names`.
pub(crate) fn contains_name(names: &Vec<String>, ident: &String) -> (r: bool)
    ensures
        r == strings_view(names@).contains(ident@),
{
    let n = names.len();
    let mut i: usize = 0;
    while i < n
        invariant
            i <= n,
            n == names.len(),
            forall|j: int| 0 <= j < i ==> strings_view(names@)[j] != ident@,
        decreases n - i,
    {
        if names[i] == *ident {
            assert(strings_view(names@)[i as int] == ident@);
            return true;
        }
        i += 1;
    }
    false
}

impl Context {
    /// The context that `config` asks for, without any check.
    fn fresh(config: Config, root: bool, reserved: Vec<String>) -> (cx: Context)
        ensures
            cx@ == fresh_context(config@, root, strings_view(reserved@)),
    {
        let Config { ident, mode, marker, unique_marker, traits, types } = config;
        let marker_ident = match marker {
            Some(m) => m,
            None => String::from_str(DEFAULT_MARKER),
        };
        let mut reserved = reserved;
        if unique_marker {
            let ghost before = strings_view(reserved@);
            reserved.push(marker_ident.clone());
            assert(strings_view(reserved@) =~= before.push(marker_ident@));
        }
        let visit_mode = match mode {
            Some(m) => m,
            None => VisitMode::Default,
        };
        let cx = Context {
            visit_mode,
            detect: mode.is_none(),
            marker: Marker { ident: marker_ident, unique: unique_marker },
            sum: ident,
            variants: Vec::new(),
            status: Status::Sound,
            other_attr: false,
            root,
            idle: false,
            traits,
            types,
            reserved,
        };
        assert(cx@.variants =~= Seq::empty());
        cx
    }

    /// The context of the outermost invocation.  It fails with
    /// `UnsupportedTraitRequest` exactly if some requested trait is not
    /// supported, and names the first such trait.
    pub fn root(config: Config) -> (r: Result<Context, Diagnostic>)
        ensures
            context_result_view(r) == root_context(config@),
    {
        reveal(root_context);
        match find_unsupported(&config.traits) {
            Some(i) => Err(
                diagnostic(
                    ErrorKind::UnsupportedTraitRequest,
                    "trait is not supported: ",
                    config.traits[i].as_str(),
                ),
            ),
            None => {
                let cx = Context::fresh(config, true, Vec::new());
                assert(strings_view(Seq::<String>::empty()) =~= Seq::<Seq<char>>::empty());
                Ok(cx)
            },
        }
    }

    /// The context of an invocation nested in this one: independent of it,
    /// with its own variants.  It fails with `UnsupportedTraitRequest` if
    /// some requested trait is not supported, else with `AmbiguousMarker` if
    /// its marker is one that this or an enclosing invocation has claimed.
    pub fn spawn_child(&self, config: Config) -> (r: Result<Context, Diagnostic>)
        ensures
            context_result_view(r) == child_context(self@, config@),
            r matches Ok(child) ==> !child@.root && !child@.failed(),
    {
        reveal(child_context);
        match find_unsupported(&config.traits) {
            Some(i) => Err(
                diagnostic(
                    ErrorKind::UnsupportedTraitRequest,
                    "trait is not supported: ",
                    config.traits[i].as_str(),
                ),
            ),
            None => {
                let ambiguous = match &config.marker {
                    Some(m) => contains_name(&self.reserved, m),
                    None => {
                        let m = String::from_str(DEFAULT_MARKER);
                        contains_name(&self.reserved, &m)
                    },
                };
                if ambiguous {
                    let d = match &config.marker {
                        Some(m) => diagnostic(
                            ErrorKind::AmbiguousMarker,
                            "marker is claimed by an enclosing invocation: ",
                            m.as_str(),
                        ),
                        None => diagnostic(
                            ErrorKind::AmbiguousMarker,
                            "marker is claimed by an enclosing invocation: ",
                            DEFAULT_MARKER,
                        ),
                    };
                    Err(d)
                } else {
                    Ok(Context::fresh(config, false, copy_names(&self.reserved)))
                }
            },
        }
    }

    /// The mode of the pass.
    pub fn visit_mode(&self) -> (r: VisitMode)
        ensures
            r == self@.visit_mode,
    {
        self.visit_mode
    }

    /// Whether the invocation requests no trait.
    pub fn is_dummy(&self) -> (r: bool)
        ensures
            r == self@.is_dummy(),
    {
        self.traits.len() == 0
    }

    /// Whether an error was recorded.
    pub fn failed(&self) -> (r: bool)
        ensures
            r == self@.failed(),
    {
        match &self.status {
            Status::Sound => false,
            Status::Failed(_) => true,
        }
    }

    /// Whether a pass with this context rewrites the nodes it visits.
    pub fn rewrites(&self) -> (r: bool)
        ensures
            r == self@.rewrites(),
    {
        !self.failed() && !self.idle
    }

    /// Sets whether passes with this context rewrite nothing.
    pub fn set_idle(&mut self, idle: bool)
        ensures
            final(self)@ == old(self)@.with_idle(idle),
    {
        self.idle = idle;
    }

    /// The number of variants handed out so far.
    pub fn variant_count(&self) -> (r: usize)
        ensures
            r == self@.variants.len(),
    {
        self.variants.len()
    }

    /// Whether the pass has met a nested invocation.
    pub fn saw_nested_invocation(&self) -> (r: bool)
        ensures
            r == self@.other_attr,
    {
        self.other_attr
    }

    /// Records that the pass has met a nested invocation.
    pub fn record_foreign_invocation(&mut self)
        ensures
            final(self)@ == old(self)@.with_other_attr(),
    {
        self.other_attr = true;
    }

    /// Sets the mode of the pass.
    pub fn set_visit_mode(&mut self, mode: VisitMode)
        ensures
            final(self)@ == old(self)@.with_mode(mode),
    {
        self.visit_mode = mode;
    }

    /// Records an error.  The context is failed from then on.
    pub fn mark_error(&mut self, d: Diagnostic)
        ensures
            final(self)@ == old(self)@.with_error(d@),
            final(self)@.failed(),
    {
        match &mut self.status {
            Status::Failed(diagnostics) => {
                let ghost before = diagnostics_view(diagnostics@);
                diagnostics.push(d);
                assert(diagnostics_view(diagnostics@) =~= before.push(d@));
            },
            Status::Sound => {
                let mut diagnostics = Vec::new();
                diagnostics.push(d);
                assert(diagnostics_view(diagnostics@) =~= seq![d@]);
                self.status = Status::Failed(diagnostics);
            },
        }
    }

    /// Hands out the next variant, for a `site`, and returns its number.
    pub fn reserve_variant(&mut self, site: Site) -> (k: usize)
        ensures
            k == old(self)@.variants.len(),
            final(self)@ == old(self)@.allocated(site),
    {
        let k = self.variants.len();
        self.variants.push(site);
        k
    }

    /// The construction of variant number `variant` around `payload`.
    pub fn construct(&self, variant: usize, attrs: Vec<Attr>, payload: Expr) -> (r: Expr)
        ensures
            r@ == self@.construct(variant as nat, attrs_view(attrs@), payload@),
            r.attrs == attrs,
            r.kind matches ExprKind::Construct { payload: p, .. } && *p == payload,
    {
        Expr {
            attrs,
            kind: ExprKind::Construct {
                sum: self.sum.clone(),
                variant,
                payload: Box::new(payload),
            },
        }
    }

    /// The construction of the next variant around `expr`.
    pub fn next_expr(&mut self, site: Site, expr: Expr) -> (r: Expr)
        requires
            !old(self)@.failed(),
        ensures
            final(self)@ == old(self)@.allocated(site),
            r@ == old(self)@.next_expr(Seq::empty(), expr@),
    {
        let attrs: Vec<Attr> = Vec::new();
        assert(attrs_view(attrs@) =~= Seq::empty());
        self.next_expr_with_attrs(site, attrs, expr)
    }

    /// The construction of the next variant around `expr`, carrying `attrs`.
    pub fn next_expr_with_attrs(&mut self, site: Site, attrs: Vec<Attr>, expr: Expr) -> (r: Expr)
        requires
            !old(self)@.failed(),
        ensures
            final(self)@ == old(self)@.allocated(site),
            r@ == old(self)@.next_expr(attrs_view(attrs@), expr@),
    {
        let k = self.reserve_variant(site);
        self.construct(k, attrs, expr)
    }

    /// Whether `path` names the marker macro of the invocation.
    pub fn is_marker_macro(&self, path: &String) -> (r: bool)
        ensures
            r == (path@ == self@.marker.ident),
    {
        *path == self.marker.ident
    }

    /// Whether `expr` is a marker macro of the invocation.
    pub fn is_marker_expr(&self, expr: &Expr) -> (r: bool)
        ensures
            r == self@.is_marker_expr(expr@),
    {
        match &expr.kind {
            ExprKind::Macro { path, .. } => self.is_marker_macro(path),
            _ => false,
        }
    }

    /// What takes the place of a marker macro with attributes `attrs` and
    /// argument `tokens`, of which the parser said `error`: the next variant
    /// around the argument if `error` is `None`, else the placeholder of
    /// the error, which is recorded.
    pub fn marker_expansion(
        &mut self,
        attrs: Vec<Attr>,
        tokens: String,
        error: Option<String>,
    ) -> (r: Expr)
        requires
            !old(self)@.failed(),
        ensures
            (final(self)@, r@) == marker_outcome(
                old(self)@,
                attrs_view(attrs@),
                tokens@,
                crate::syntax::message_view(error),
            ),
    {
        match error {
            None => {
                let payload = Expr { attrs: Vec::new(), kind: ExprKind::Verbatim(tokens) };
                assert(payload@.attrs =~= Seq::empty());
                self.next_expr_with_attrs(Site::Marker, attrs, payload)
            },
            Some(message) => {
                let placeholder = expr_compile_error(&message);
                self.mark_error(
                    Diagnostic { kind: ErrorKind::MalformedMarkerArgument, message },
                );
                placeholder
            },
        }
    }
}

/// The placeholder `compile_error!(message)`.
pub fn expr_compile_error(message: &String) -> (r: Expr)
    ensures
        r@ == compile_error_expr(message@),
{
    let r = Expr { attrs: Vec::new(), kind: ExprKind::CompileError(message.clone()) };
    assert(r@.attrs =~= Seq::empty());
    r
}

/// The expression `()`.
pub fn unit() -> (r: Expr)
    ensures
        r@ == unit_expr(),
{
    let r = Expr { attrs: Vec::new(), kind: ExprKind::Verbatim(String::from_str("()")) };
    assert(r@.attrs =~= Seq::empty());
    r
}

} // verus!
