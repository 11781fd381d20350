//! `AsyncWrite` of futures 0.3 for a sum type.

use vstd::prelude::*;
use vstd::string::StringExecFns;

use crate::derive::{
    arg, delegating_impl, derive_trait, impls_view, methods_view, params_view, signature, Data,
    DeriveError, ItemImpl, Method, Param, Receiver, TraitDef, TraitDefView,
};
use crate::syntax::{name_is, strings_view};

verus! {

/// Whether `name` asks for this trait.
pub open spec fn is_name(name: Seq<char>) -> bool {
    name == "futures::AsyncWrite"@
}

/// The shape of the trait.
pub open spec fn definition() -> TraitDefView {
    TraitDefView {
        path: "::futures::io::AsyncWrite"@,
        args: Seq::empty(),
        params: Seq::empty(),
        bound: None,
        types: Seq::empty(),
        methods: seq![
            signature(
                "poll_write"@,
                Receiver::PinMut,
                seq![arg("cx"@, "&mut ::core::task::Context<'_>"@), arg("buf"@, "&[u8]"@)],
                "::core::task::Poll<::std::io::Result<usize>>"@,
            ),
            signature(
                "poll_write_vectored"@,
                Receiver::PinMut,
                seq![
                    arg("cx"@, "&mut ::core::task::Context<'_>"@),
                    arg("bufs"@, "&[::std::io::IoSlice<'_>]"@),
                ],
                "::core::task::Poll<::std::io::Result<usize>>"@,
            ),
            signature(
                "poll_flush"@,
                Receiver::PinMut,
                seq![arg("cx"@, "&mut ::core::task::Context<'_>"@)],
                "::core::task::Poll<::std::io::Result<()>>"@,
            ),
            signature(
                "poll_close"@,
                Receiver::PinMut,
                seq![arg("cx"@, "&mut ::core::task::Context<'_>"@)],
                "::core::task::Poll<::std::io::Result<()>>"@,
            ),
        ],
    }
}

/// Whether `name` asks for this trait.
pub fn has_name(name: &String) -> (r: bool)
    ensures
        r == is_name(name@),
{
    name_is(name, "futures::AsyncWrite")
}

/// The shape of the trait.
pub fn trait_def() -> (def: TraitDef)
    ensures
        def@ == definition(),
{
    let mut methods: Vec<Method> = Vec::new();
    let mut params: Vec<Param> = Vec::new();
    params.push(Param::new("cx", "&mut ::core::task::Context<'_>"));
    params.push(Param::new("buf", "&[u8]"));
    assert(params_view(params@) =~= seq![
        arg("cx"@, "&mut ::core::task::Context<'_>"@),
        arg("buf"@, "&[u8]"@),
    ]);
    let method = Method::new(
        "poll_write",
        Receiver::PinMut,
        params,
        "::core::task::Poll<::std::io::Result<usize>>",
    );
    methods.push(method);
    let mut params: Vec<Param> = Vec::new();
    params.push(Param::new("cx", "&mut ::core::task::Context<'_>"));
    params.push(Param::new("bufs", "&[::std::io::IoSlice<'_>]"));
    assert(params_view(params@) =~= seq![
        arg("cx"@, "&mut ::core::task::Context<'_>"@),
        arg("bufs"@, "&[::std::io::IoSlice<'_>]"@),
    ]);
    let method = Method::new(
        "poll_write_vectored",
        Receiver::PinMut,
        params,
        "::core::task::Poll<::std::io::Result<usize>>",
    );
    methods.push(method);
    let mut params: Vec<Param> = Vec::new();
    params.push(Param::new("cx", "&mut ::core::task::Context<'_>"));
    assert(params_view(params@) =~= seq![arg("cx"@, "&mut ::core::task::Context<'_>"@)]);
    let method = Method::new(
        "poll_flush",
        Receiver::PinMut,
        params,
        "::core::task::Poll<::std::io::Result<()>>",
    );
    methods.push(method);
    let mut params: Vec<Param> = Vec::new();
    params.push(Param::new("cx", "&mut ::core::task::Context<'_>"));
    assert(params_view(params@) =~= seq![arg("cx"@, "&mut ::core::task::Context<'_>"@)]);
    let method = Method::new(
        "poll_close",
        Receiver::PinMut,
        params,
        "::core::task::Poll<::std::io::Result<()>>",
    );
    methods.push(method);
    assert(methods_view(methods@) =~= definition().methods);
    let mut args: Vec<String> = Vec::new();
    assert(strings_view(args@) =~= definition().args);
    let mut params: Vec<String> = Vec::new();
    assert(strings_view(params@) =~= definition().params);
    let mut types: Vec<String> = Vec::new();
    assert(strings_view(types@) =~= definition().types);
    TraitDef {
        path: String::from_str("::futures::io::AsyncWrite"),
        args,
        params,
        bound: None,
        types,
        methods,
    }
}

/// Adds to `items` the implementation of the trait for the sum type
/// `data`.  It fails, and leaves `items` as they are, exactly if the sum
/// type has no variant.
pub fn derive(data: &Data, items: &mut Vec<ItemImpl>) -> (r: Result<(), DeriveError>)
    ensures
        match r {
            Ok(_) => data@.variants.len() > 0 && impls_view(final(items)@) == impls_view(
                old(items)@,
            ).push(delegating_impl(definition(), data@)),
            Err(e) => data@.variants.len() == 0 && e == DeriveError::NoVariants && *final(items)
                == *old(items),
        },
{
    derive_trait(trait_def(), data, items)
}

} // verus!
