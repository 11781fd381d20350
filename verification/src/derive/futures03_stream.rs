//! `Stream` of futures 0.3 for a sum type.

use vstd::prelude::*;
use vstd::string::StringExecFns;

use crate::derive::{
    arg, delegating_impl, derive_trait, impls_view, methods_view, params_view, signature, Data,
    DeriveError, ItemImpl, Method, Param, Receiver, TraitDef, TraitDefView,
};
use crate::syntax::{name_is, strings_view};

verus! {

/// Whether `name` asks for this trait.
pub open spec fn is_name(name: Seq<char>) -> bool {
    name == "futures::Stream"@
}

/// The shape of the trait.
pub open spec fn definition() -> TraitDefView {
    TraitDefView {
        path: "::futures::stream::Stream"@,
        args: Seq::empty(),
        params: Seq::empty(),
        bound: None,
        types: seq!["Item"@],
        methods: seq![
            signature(
                "poll_next"@,
                Receiver::PinMut,
                seq![arg("cx"@, "&mut ::core::task::Context<'_>"@)],
                "::core::task::Poll<::core::option::Option<Self::Item>>"@,
            ),
            signature(
                "size_hint"@,
                Receiver::Ref,
                Seq::empty(),
                "(usize, ::core::option::Option<usize>)"@,
            ),
        ],
    }
}

/// Whether `name` asks for this trait.
pub fn has_name(name: &String) -> (r: bool)
    ensures
        r == is_name(name@),
{
    name_is(name, "futures::Stream")
}

/// The shape of the trait.
pub fn trait_def() -> (def: TraitDef)
    ensures
        def@ == definition(),
{
    let mut methods: Vec<Method> = Vec::new();
    let mut params: Vec<Param> = Vec::new();
    params.push(Param::new("cx", "&mut ::core::task::Context<'_>"));
    assert(params_view(params@) =~= seq![arg("cx"@, "&mut ::core::task::Context<'_>"@)]);
    let method = Method::new(
        "poll_next",
        Receiver::PinMut,
        params,
        "::core::task::Poll<::core::option::Option<Self::Item>>",
    );
    methods.push(method);
    let mut params: Vec<Param> = Vec::new();
    assert(params_view(params@) =~= Seq::empty());
    let method = Method::new(
        "size_hint",
        Receiver::Ref,
        params,
        "(usize, ::core::option::Option<usize>)",
    );
    methods.push(method);
    assert(methods_view(methods@) =~= definition().methods);
    let mut args: Vec<String> = Vec::new();
    assert(strings_view(args@) =~= definition().args);
    let mut params: Vec<String> = Vec::new();
    assert(strings_view(params@) =~= definition().params);
    let mut types: Vec<String> = Vec::new();
    types.push(String::from_str("Item"));
    assert(strings_view(types@) =~= definition().types);
    TraitDef {
        path: String::from_str("::futures::stream::Stream"),
        args,
        params,
        bound: None,
        types,
        methods,
    }
}

/// Adds to `items` the implementation of the trait for the sum type
/// `data`.  It fails, and leaves `items` as they are, exactly if the sum
/// type has no variant.
pub fn derive(data: &Data, items: &mut Vec<ItemImpl>) -> (r: Result<(), DeriveError>)
    ensures
        match r {
            Ok(_) => data@.variants.len() > 0 && impls_view(final(items)@) == impls_view(
                old(items)@,
            ).push(delegating_impl(definition(), data@)),
            Err(e) => data@.variants.len() == 0 && e == DeriveError::NoVariants && *final(items)
                == *old(items),
        },
{
    derive_trait(trait_def(), data, items)
}

} // verus!
