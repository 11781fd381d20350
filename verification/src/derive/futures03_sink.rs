//! `Sink` of futures 0.3 for a sum type.

use vstd::prelude::*;
use vstd::string::StringExecFns;

use crate::derive::{
    arg, delegating_impl, derive_trait, impls_view, methods_view, params_view, signature, Data,
    DeriveError, ItemImpl, Method, Param, Receiver, TraitDef, TraitDefView,
};
use crate::syntax::{name_is, strings_view};

verus! {

/// Whether `name` asks for this trait.
pub open spec fn is_name(name: Seq<char>) -> bool {
    name == "futures::Sink"@
}

/// The shape of the trait.
pub open spec fn definition() -> TraitDefView {
    TraitDefView {
        path: "::futures::sink::Sink"@,
        args: seq!["Item"@],
        params: seq!["Item"@],
        bound: None,
        types: seq!["Error"@],
        methods: seq![
            signature(
                "poll_ready"@,
                Receiver::PinMut,
                seq![arg("cx"@, "&mut ::core::task::Context<'_>"@)],
                "::core::task::Poll<::core::result::Result<(), Self::Error>>"@,
            ),
            signature(
                "start_send"@,
                Receiver::PinMut,
                seq![arg("item"@, "Item"@)],
                "::core::result::Result<(), Self::Error>"@,
            ),
            signature(
                "poll_flush"@,
                Receiver::PinMut,
                seq![arg("cx"@, "&mut ::core::task::Context<'_>"@)],
                "::core::task::Poll<::core::result::Result<(), Self::Error>>"@,
            ),
            signature(
                "poll_close"@,
                Receiver::PinMut,
                seq![arg("cx"@, "&mut ::core::task::Context<'_>"@)],
                "::core::task::Poll<::core::result::Result<(), Self::Error>>"@,
            ),
        ],
    }
}

/// Whether `name` asks for this trait.
pub fn has_name(name: &String) -> (r: bool)
    ensures
        r == is_name(name@),
{
    name_is(name, "futures::Sink")
}

/// The shape of the trait.
pub fn trait_def() -> (def: TraitDef)
    ensures
        def@ == definition(),
{
    let mut methods: Vec<Method> = Vec::new();
    let mut params: Vec<Param> = Vec::new();
    params.push(Param::new("cx", "&mut ::core::task::Context<'_>"));
    assert(params_view(params@) =~= seq![arg("cx"@, "&mut ::core::task::Context<'_>"@)]);
    let method = Method::new(
        "poll_ready",
        Receiver::PinMut,
        params,
        "::core::task::Poll<::core::result::Result<(), Self::Error>>",
    );
    methods.push(method);
    let mut params: Vec<Param> = Vec::new();
    params.push(Param::new("item", "Item"));
    assert(params_view(params@) =~= seq![arg("item"@, "Item"@)]);
    let method = Method::new(
        "start_send",
        Receiver::PinMut,
        params,
        "::core::result::Result<(), Self::Error>",
    );
    methods.push(method);
    let mut params: Vec<Param> = Vec::new();
    params.push(Param::new("cx", "&mut ::core::task::Context<'_>"));
    assert(params_view(params@) =~= seq![arg("cx"@, "&mut ::core::task::Context<'_>"@)]);
    let method = Method::new(
        "poll_flush",
        Receiver::PinMut,
        params,
        "::core::task::Poll<::core::result::Result<(), Self::Error>>",
    );
    methods.push(method);
    let mut params: Vec<Param> = Vec::new();
    params.push(Param::new("cx", "&mut ::core::task::Context<'_>"));
    assert(params_view(params@) =~= seq![arg("cx"@, "&mut ::core::task::Context<'_>"@)]);
    let method = Method::new(
        "poll_close",
        Receiver::PinMut,
        params,
        "::core::task::Poll<::core::result::Result<(), Self::Error>>",
    );
    methods.push(method);
    assert(methods_view(methods@) =~= definition().methods);
    let mut args: Vec<String> = Vec::new();
    args.push(String::from_str("Item"));
    assert(strings_view(args@) =~= definition().args);
    let mut params: Vec<String> = Vec::new();
    params.push(String::from_str("Item"));
    assert(strings_view(params@) =~= definition().params);
    let mut types: Vec<String> = Vec::new();
    types.push(String::from_str("Error"));
    assert(strings_view(types@) =~= definition().types);
    TraitDef {
        path: String::from_str("::futures::sink::Sink"),
        args,
        params,
        bound: None,
        types,
        methods,
    }
}

/// Adds to `items` the implementation of the trait for the sum type
/// `data`.  It fails, and leaves `items` as they are, exactly if the sum
/// type has no variant.
pub fn derive(data: &Data, items: &mut Vec<ItemImpl>) -> (r: Result<(), DeriveError>)
    ensures
        match r {
            Ok(_) => data@.variants.len() > 0 && impls_view(final(items)@) == impls_view(
                old(items)@,
            ).push(delegating_impl(definition(), data@)),
            Err(e) => data@.variants.len() == 0 && e == DeriveError::NoVariants && *final(items)
                == *old(items),
        },
{
    derive_trait(trait_def(), data, items)
}

} // verus!
