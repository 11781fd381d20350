//! Implementations of the supported traits for a sum type: for each method
//! of a trait, a `match` over the variants that hands the call on to the
//! value inside.

pub mod fn_once;
pub mod futures01_future;
pub mod futures01_stream;
pub mod futures03_async_write;
pub mod futures03_sink;
pub mod futures03_stream;
pub mod io_buf_read;
pub mod io_write;
pub mod iterator;
pub mod source;

use vstd::prelude::*;

use vstd::string::StringExecFns;

use crate::syntax::strings_view;

verus! {

/// How a method takes `self`.
#[derive(Clone, Copy, Debug, PartialEq, Eq, Structural)]
pub enum Receiver {
    /// `self`
    Value,
    /// `&self`
    Ref,
    /// `&mut self`
    RefMut,
    /// `self: Pin<&mut Self>`
    PinMut,
}

/// One parameter of a method, after `self`.
#[derive(Debug, PartialEq, Eq)]
pub struct Param {
    pub name: String,
    pub ty: String,
}

/// The view of a `Param`, over which contracts are stated.
pub ghost struct ParamView {
    pub name: Seq<char>,
    pub ty: Seq<char>,
}

impl View for Param {
    type V = ParamView;

    open spec fn view(&self) -> ParamView {
        ParamView { name: self.name@, ty: self.ty@ }
    }
}

pub open spec fn params_view(v: Seq<Param>) -> Seq<ParamView> {
    Seq::new(v.len(), |i: int| v[i]@)
}

/// The signature of one method of a trait.  What is not read when the
/// method is forwarded is kept as source text; text that is absent is empty.
#[derive(Debug, PartialEq, Eq)]
pub struct Method {
    /// The attributes, such as `#[inline]`.
    pub attrs: String,
    /// The calling convention, such as `extern "rust-call"`.
    pub abi: String,
    pub name: String,
    /// The generic parameters, with their angle brackets.
    pub generics: String,
    pub receiver: Receiver,
    pub params: Vec<Param>,
    /// The return type; empty for `()`.
    pub output: String,
    /// The `where` clause, with the word `where`.
    pub where_clause: String,
}

/// The view of a `Method`, over which contracts are stated.
pub ghost struct MethodView {
    pub attrs: Seq<char>,
    pub abi: Seq<char>,
    pub name: Seq<char>,
    pub generics: Seq<char>,
    pub receiver: Receiver,
    pub params: Seq<ParamView>,
    pub output: Seq<char>,
    pub where_clause: Seq<char>,
}

impl View for Method {
    type V = MethodView;

    open spec fn view(&self) -> MethodView {
        MethodView {
            attrs: self.attrs@,
            abi: self.abi@,
            name: self.name@,
            generics: self.generics@,
            receiver: self.receiver,
            params: params_view(self.params@),
            output: self.output@,
            where_clause: self.where_clause@,
        }
    }
}

pub open spec fn methods_view(v: Seq<Method>) -> Seq<MethodView> {
    Seq::new(v.len(), |i: int| v[i]@)
}

/// The shape of a trait: what an implementation has to repeat.
#[derive(Debug, PartialEq, Eq)]
pub struct TraitDef {
    /// The path of the trait.
    pub path: String,
    /// The generic arguments of the trait in the header of the
    /// implementation.
    pub args: Vec<String>,
    /// The generic parameters that the implementation adds to those of the
    /// sum type.
    pub params: Vec<String>,
    /// What the type inside each variant has to implement, where that is
    /// not the trait itself: the associated types are then not asked to be
    /// the same for all variants, since the bound settles them.
    pub bound: Option<String>,
    /// The associated types.
    pub types: Vec<String>,
    /// The methods to forward, in the order of the implementation.
    pub methods: Vec<Method>,
}

/// The view of a `TraitDef`, over which contracts are stated.
pub ghost struct TraitDefView {
    pub path: Seq<char>,
    pub args: Seq<Seq<char>>,
    pub params: Seq<Seq<char>>,
    pub bound: Option<Seq<char>>,
    pub types: Seq<Seq<char>>,
    pub methods: Seq<MethodView>,
}

/// The view of a text that may be absent.
pub open spec fn option_view(s: Option<String>) -> Option<Seq<char>> {
    match s {
        Some(t) => Some(t@),
        None => None,
    }
}

impl View for TraitDef {
    type V = TraitDefView;

    open spec fn view(&self) -> TraitDefView {
        TraitDefView {
            path: self.path@,
            args: strings_view(self.args@),
            params: strings_view(self.params@),
            bound: option_view(self.bound),
            types: strings_view(self.types@),
            methods: methods_view(self.methods@),
        }
    }
}

/// One variant of a sum type: its name and the type of the value inside.
#[derive(Debug, PartialEq, Eq)]
pub struct Variant {
    pub ident: String,
    pub ty: String,
}

/// The view of a `Variant`, over which contracts are stated.
pub ghost struct VariantView {
    pub ident: Seq<char>,
    pub ty: Seq<char>,
}

impl View for Variant {
    type V = VariantView;

    open spec fn view(&self) -> VariantView {
        VariantView { ident: self.ident@, ty: self.ty@ }
    }
}

pub open spec fn variants_view(v: Seq<Variant>) -> Seq<VariantView> {
    Seq::new(v.len(), |i: int| v[i]@)
}

/// The shape of a sum type.
#[derive(Debug, PartialEq, Eq)]
pub struct Data {
    pub ident: String,
    /// The generic parameters of the sum type.
    pub generics: Vec<String>,
    pub variants: Vec<Variant>,
    /// Whether the toolchain has `std::io::IoSlice`, and with it the
    /// vectored methods of the I/O traits.
    pub vectored_io: bool,
}

/// The view of a `Data`, over which contracts are stated.
pub ghost struct DataView {
    pub ident: Seq<char>,
    pub generics: Seq<Seq<char>>,
    pub variants: Seq<VariantView>,
    pub vectored_io: bool,
}

impl View for Data {
    type V = DataView;

    open spec fn view(&self) -> DataView {
        DataView {
            ident: self.ident@,
            generics: strings_view(self.generics@),
            variants: variants_view(self.variants@),
            vectored_io: self.vectored_io,
        }
    }
}

/// One `where` predicate of an implementation: `ty` implements the trait,
/// with the same associated types as `same_as` if that is given.
#[derive(Debug, PartialEq, Eq)]
pub struct Predicate {
    pub ty: String,
    pub same_as: Option<String>,
}

/// The view of a `Predicate`, over which contracts are stated.
pub ghost struct PredicateView {
    pub ty: Seq<char>,
    pub same_as: Option<Seq<char>>,
}

impl View for Predicate {
    type V = PredicateView;

    open spec fn view(&self) -> PredicateView {
        PredicateView {
            ty: self.ty@,
            same_as: option_view(self.same_as),
        }
    }
}

pub open spec fn predicates_view(v: Seq<Predicate>) -> Seq<PredicateView> {
    Seq::new(v.len(), |i: int| v[i]@)
}

/// An associated type of an implementation: that of the trait as
/// implemented by `from`.
#[derive(Debug, PartialEq, Eq)]
pub struct AssocType {
    pub name: String,
    pub from: String,
}

/// The view of a `AssocType`, over which contracts are stated.
pub ghost struct AssocTypeView {
    pub name: Seq<char>,
    pub from: Seq<char>,
}

impl View for AssocType {
    type V = AssocTypeView;

    open spec fn view(&self) -> AssocTypeView {
        AssocTypeView { name: self.name@, from: self.from@ }
    }
}

pub open spec fn types_view(v: Seq<AssocType>) -> Seq<AssocTypeView> {
    Seq::new(v.len(), |i: int| v[i]@)
}

/// One arm of the `match` in a forwarding method: the value inside
/// `variant`, of type `ty`, gets the call.
#[derive(Debug, PartialEq, Eq)]
pub struct ForwardArm {
    pub variant: String,
    pub ty: String,
}

/// The view of a `ForwardArm`, over which contracts are stated.
pub ghost struct ForwardArmView {
    pub variant: Seq<char>,
    pub ty: Seq<char>,
}

impl View for ForwardArm {
    type V = ForwardArmView;

    open spec fn view(&self) -> ForwardArmView {
        ForwardArmView { variant: self.variant@, ty: self.ty@ }
    }
}

pub open spec fn forward_arms_view(v: Seq<ForwardArm>) -> Seq<ForwardArmView> {
    Seq::new(v.len(), |i: int| v[i]@)
}

/// A method of an implementation: the signature of the trait's method and
/// one arm for each variant.
#[derive(Debug, PartialEq, Eq)]
pub struct ImplMethod {
    pub sig: Method,
    pub arms: Vec<ForwardArm>,
}

/// The view of a `ImplMethod`, over which contracts are stated.
pub ghost struct ImplMethodView {
    pub sig: MethodView,
    pub arms: Seq<ForwardArmView>,
}

impl View for ImplMethod {
    type V = ImplMethodView;

    open spec fn view(&self) -> ImplMethodView {
        ImplMethodView { sig: self.sig@, arms: forward_arms_view(self.arms@) }
    }
}

pub open spec fn impl_methods_view(v: Seq<ImplMethod>) -> Seq<ImplMethodView> {
    Seq::new(v.len(), |i: int| v[i]@)
}

/// The implementation of a trait for a sum type.
#[derive(Debug, PartialEq, Eq)]
pub struct ItemImpl {
    pub trait_path: String,
    pub trait_args: Vec<String>,
    /// The generic parameters: those of the sum type, then those that the
    /// trait adds.
    pub generics: Vec<String>,
    /// The name of the sum type.
    pub self_ty: String,
    /// The generic parameters of the sum type.
    pub self_generics: Vec<String>,
    /// What the type inside each variant has to implement, where that is
    /// not the trait itself.
    pub bound: Option<String>,
    pub predicates: Vec<Predicate>,
    pub types: Vec<AssocType>,
    pub methods: Vec<ImplMethod>,
}

/// The view of a `ItemImpl`, over which contracts are stated.
pub ghost struct ItemImplView {
    pub trait_path: Seq<char>,
    pub trait_args: Seq<Seq<char>>,
    pub generics: Seq<Seq<char>>,
    pub self_ty: Seq<char>,
    pub self_generics: Seq<Seq<char>>,
    pub bound: Option<Seq<char>>,
    pub predicates: Seq<PredicateView>,
    pub types: Seq<AssocTypeView>,
    pub methods: Seq<ImplMethodView>,
}

impl View for ItemImpl {
    type V = ItemImplView;

    open spec fn view(&self) -> ItemImplView {
        ItemImplView {
            trait_path: self.trait_path@,
            trait_args: strings_view(self.trait_args@),
            generics: strings_view(self.generics@),
            self_ty: self.self_ty@,
            self_generics: strings_view(self.self_generics@),
            bound: option_view(self.bound),
            predicates: predicates_view(self.predicates@),
            types: types_view(self.types@),
            methods: impl_methods_view(self.methods@),
        }
    }
}

pub open spec fn impls_view(v: Seq<ItemImpl>) -> Seq<ItemImplView> {
    Seq::new(v.len(), |i: int| v[i]@)
}

/// The parameter `name: ty`.
pub open spec fn arg(name: Seq<char>, ty: Seq<char>) -> ParamView {
    ParamView { name, ty }
}

/// The signature `fn name(receiver, params) -> output`.
pub open spec fn signature(
    name: Seq<char>,
    receiver: Receiver,
    params: Seq<ParamView>,
    output: Seq<char>,
) -> MethodView {
    MethodView {
        attrs: Seq::empty(),
        abi: Seq::empty(),
        name,
        generics: Seq::empty(),
        receiver,
        params,
        output,
        where_clause: Seq::empty(),
    }
}

impl Param {
    pub fn new(name: &str, ty: &str) -> (p: Param)
        ensures
            p@ == arg(name@, ty@),
    {
        Param { name: String::from_str(name), ty: String::from_str(ty) }
    }
}

impl Method {
    /// The signature `fn name(receiver, params) -> output`.
    pub fn new(name: &str, receiver: Receiver, params: Vec<Param>, output: &str) -> (m: Method)
        ensures
            m@ == signature(name@, receiver, params_view(params@), output@),
    {
        Method {
            attrs: String::new(),
            abi: String::new(),
            name: String::from_str(name),
            generics: String::new(),
            receiver,
            params,
            output: String::from_str(output),
            where_clause: String::new(),
        }
    }

    /// The same signature with `attrs` in front.
    pub fn with_attrs(self, attrs: &str) -> (m: Method)
        ensures
            m@ == (MethodView { attrs: attrs@, ..self@ }),
    {
        let mut m = self;
        m.attrs = String::from_str(attrs);
        m
    }

    /// The same signature with the calling convention `abi`.
    pub fn with_abi(self, abi: &str) -> (m: Method)
        ensures
            m@ == (MethodView { abi: abi@, ..self@ }),
    {
        let mut m = self;
        m.abi = String::from_str(abi);
        m
    }

    /// The same signature with generic parameters and a `where` clause.
    pub fn with_generics(self, generics: &str, where_clause: &str) -> (m: Method)
        ensures
            m@ == (MethodView { generics: generics@, where_clause: where_clause@, ..self@ }),
    {
        let mut m = self;
        m.generics = String::from_str(generics);
        m.where_clause = String::from_str(where_clause);
        m
    }
}

/// Writes the implementation of `def` for `data` and adds it to `items`.
/// It fails, and leaves `items` as they are, exactly if the sum type has no
/// variant.
pub fn derive_trait(def: TraitDef, data: &Data, items: &mut Vec<ItemImpl>) -> (r: Result<
    (),
    DeriveError,
>)
    ensures
        match r {
            Ok(_) => data@.variants.len() > 0 && impls_view(final(items)@) == impls_view(
                old(items)@,
            ).push(delegating_impl(def@, data@)),
            Err(e) => data@.variants.len() == 0 && e == DeriveError::NoVariants && *final(items)
                == *old(items),
        },
{
    match generate(def, data) {
        Ok(item) => {
            let ghost before = impls_view(items@);
            items.push(item);
            assert(impls_view(items@) =~= before.push(item@));
            Ok(())
        },
        Err(e) => Err(e),
    }
}

/// Why a trait cannot be implemented for a sum type.
#[derive(Clone, Copy, Debug, PartialEq, Eq, Structural)]
pub enum DeriveError {
    /// The sum type has no variant to forward to.
    NoVariants,
    /// A requested trait is not one of the supported traits.
    UnsupportedTrait,
}

/// One arm for each variant, in the order of the variants.
pub open spec fn forwarding_arms(data: DataView) -> Seq<ForwardArmView> {
    Seq::new(
        data.variants.len(),
        |i: int| ForwardArmView { variant: data.variants[i].ident, ty: data.variants[i].ty },
    )
}

/// The implementation of the trait `def` for the sum type `data`: every
/// method of the trait with its signature, forwarded in every variant; every
/// associated type taken from the first variant; and a predicate for each
/// variant, which for all but the first asks for the same associated types
/// as the first.
pub open spec fn delegating_impl(def: TraitDefView, data: DataView) -> ItemImplView {
    ItemImplView {
        trait_path: def.path,
        trait_args: def.args,
        generics: data.generics + def.params,
        self_ty: data.ident,
        self_generics: data.generics,
        bound: def.bound,
        predicates: Seq::new(
            data.variants.len(),
            |i: int|
                PredicateView {
                    ty: data.variants[i].ty,
                    same_as: if i > 0 && def.bound is None && def.types.len() > 0 {
                        Some(data.variants[0].ty)
                    } else {
                        None
                    },
                },
        ),
        types: Seq::new(
            def.types.len(),
            |i: int| AssocTypeView { name: def.types[i], from: data.variants[0].ty },
        ),
        methods: Seq::new(
            def.methods.len(),
            |i: int| ImplMethodView { sig: def.methods[i], arms: forwarding_arms(data) },
        ),
    }
}

/// One arm for each variant of `data`.
fn make_arms(data: &Data) -> (arms: Vec<ForwardArm>)
    ensures
        forward_arms_view(arms@) == forwarding_arms(data@),
{
    let mut arms: Vec<ForwardArm> = Vec::new();
    let n = data.variants.len();
    let mut i: usize = 0;
    while i < n
        invariant
            i <= n,
            n == data.variants.len(),
            arms.len() == i,
            forall|j: int|
                0 <= j < i ==> (#[trigger] arms@[j])@ == (ForwardArmView {
                    variant: data.variants@[j].ident@,
                    ty: data.variants@[j].ty@,
                }),
        decreases n - i,
    {
        let variant = &data.variants[i];
        arms.push(ForwardArm { variant: variant.ident.clone(), ty: variant.ty.clone() });
        i += 1;
    }
    assert(forward_arms_view(arms@) =~= forwarding_arms(data@));
    arms
}

/// Writes the implementation of the trait `def` for the sum type `data`.
/// It fails exactly if the sum type has no variant.
pub fn generate(def: TraitDef, data: &Data) -> (r: Result<ItemImpl, DeriveError>)
    ensures
        match r {
            Ok(item) => data@.variants.len() > 0 && item@ == delegating_impl(def@, data@),
            Err(e) => data@.variants.len() == 0 && e == DeriveError::NoVariants,
        },
{
    if data.variants.len() == 0 {
        return Err(DeriveError::NoVariants);
    }
    let TraitDef { path, args, params, bound, types, methods } = def;
    let ghost def_view = def@;
    let has_types = bound.is_none() && types.len() > 0;

    let mut generics: Vec<String> = Vec::new();
    let mut self_generics: Vec<String> = Vec::new();
    let mut i: usize = 0;
    while i < data.generics.len()
        invariant
            i <= data.generics.len(),
            generics.len() == i,
            self_generics.len() == i,
            forall|j: int| 0 <= j < i ==> (#[trigger] generics@[j])@ == data.generics@[j]@,
            forall|j: int| 0 <= j < i ==> (#[trigger] self_generics@[j])@ == data.generics@[j]@,
        decreases data.generics.len() - i,
    {
        generics.push(data.generics[i].clone());
        self_generics.push(data.generics[i].clone());
        i += 1;
    }
    let mut i: usize = 0;
    while i < params.len()
        invariant
            i <= params.len(),
            generics.len() == data.generics.len() + i,
            forall|j: int|
                0 <= j < data.generics.len() ==> (#[trigger] generics@[j])@ == data.generics@[j]@,
            forall|k: int|
                data.generics.len() <= k < generics.len() ==> (#[trigger] generics@[k])@
                    == params@[k - data.generics.len()]@,
        decreases params.len() - i,
    {
        generics.push(params[i].clone());
        i += 1;
    }
    assert(strings_view(generics@) =~= strings_view(data.generics@) + strings_view(params@));
    assert(strings_view(self_generics@) =~= strings_view(data.generics@));

    let mut predicates: Vec<Predicate> = Vec::new();
    let n = data.variants.len();
    let mut i: usize = 0;
    while i < n
        invariant
            0 < n,
            i <= n,
            n == data.variants.len(),
            predicates.len() == i,
            forall|j: int|
                0 <= j < i ==> (#[trigger] predicates@[j])@ == (PredicateView {
                    ty: data.variants@[j].ty@,
                    same_as: if j > 0 && has_types {
                        Some(data.variants@[0].ty@)
                    } else {
                        None
                    },
                }),
        decreases n - i,
    {
        let same_as = if i > 0 && has_types {
            Some(data.variants[0].ty.clone())
        } else {
            None
        };
        predicates.push(Predicate { ty: data.variants[i].ty.clone(), same_as });
        i += 1;
    }
    assert(predicates_view(predicates@) =~= delegating_impl(def_view, data@).predicates);

    let mut assoc: Vec<AssocType> = Vec::new();
    let mut i: usize = 0;
    while i < types.len()
        invariant
            0 < data.variants.len(),
            i <= types.len(),
            assoc.len() == i,
            forall|j: int|
                0 <= j < i ==> (#[trigger] assoc@[j])@ == (AssocTypeView {
                    name: types@[j]@,
                    from: data.variants@[0].ty@,
                }),
        decreases types.len() - i,
    {
        assoc.push(AssocType { name: types[i].clone(), from: data.variants[0].ty.clone() });
        i += 1;
    }
    assert(types_view(assoc@) =~= delegating_impl(def_view, data@).types);

    let ghost sigs = methods_view(methods@);
    let mut forwarded: Vec<ImplMethod> = Vec::new();
    let mut rest = methods;
    while rest.len() > 0
        invariant
            forwarded.len() + rest.len() == sigs.len(),
            forall|j: int|
                0 <= j < rest.len() ==> (#[trigger] rest@[j])@ == sigs[forwarded.len() + j],
            forall|j: int|
                0 <= j < forwarded.len() ==> (#[trigger] forwarded@[j])@ == (ImplMethodView {
                    sig: sigs[j],
                    arms: forwarding_arms(data@),
                }),
        decreases rest.len(),
    {
        let sig = rest.remove(0);
        forwarded.push(ImplMethod { sig, arms: make_arms(data) });
    }
    assert(impl_methods_view(forwarded@) =~= delegating_impl(def_view, data@).methods);

    Ok(
        ItemImpl {
            trait_path: path,
            trait_args: args,
            generics,
            self_ty: data.ident.clone(),
            self_generics,
            bound,
            predicates,
            types: assoc,
            methods: forwarded,
        },
    )
}

} // verus!
