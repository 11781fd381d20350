//! `Future` of futures 0.1 for a sum type.

use vstd::prelude::*;
use vstd::string::StringExecFns;

use crate::derive::source::impl_source;
use crate::derive::{
    delegating_impl, generate, methods_view, params_view, signature, Data, DeriveError, Method,
    MethodView, Param, Receiver, TraitDef, TraitDefView,
};
use crate::syntax::{name_is, strings_view};

verus! {

/// Whether `name` asks for this trait.
pub open spec fn is_name(name: Seq<char>) -> bool {
    name == "futures01::Future"@
}

/// The shape of the trait.
pub open spec fn definition() -> TraitDefView {
    TraitDefView {
        path: "::futures::future::Future"@,
        args: Seq::empty(),
        params: Seq::empty(),
        bound: None,
        types: seq!["Item"@, "Error"@],
        methods: seq![
            MethodView {
                attrs: "#[inline]"@,
                ..signature(
                    "poll"@,
                    Receiver::RefMut,
                    Seq::empty(),
                    "::futures::Poll<Self::Item, Self::Error>"@,
                )
            },
        ],
    }
}

/// Whether `name` asks for this trait.
pub fn has_name(name: &String) -> (r: bool)
    ensures
        r == is_name(name@),
{
    name_is(name, "futures01::Future")
}

/// The shape of the trait.
pub fn trait_def() -> (def: TraitDef)
    ensures
        def@ == definition(),
{
    let mut methods: Vec<Method> = Vec::new();
    let mut params: Vec<Param> = Vec::new();
    assert(params_view(params@) =~= Seq::empty());
    let method = Method::new(
        "poll",
        Receiver::RefMut,
        params,
        "::futures::Poll<Self::Item, Self::Error>",
    );
    let method = method.with_attrs("#[inline]");
    methods.push(method);
    assert(methods_view(methods@) =~= definition().methods);
    let mut args: Vec<String> = Vec::new();
    assert(strings_view(args@) =~= definition().args);
    let mut params: Vec<String> = Vec::new();
    assert(strings_view(params@) =~= definition().params);
    let mut types: Vec<String> = Vec::new();
    types.push(String::from_str("Item"));
    types.push(String::from_str("Error"));
    assert(strings_view(types@) =~= definition().types);
    TraitDef {
        path: String::from_str("::futures::future::Future"),
        args,
        params,
        bound: None,
        types,
        methods,
    }
}

/// The source text of the implementation of the trait for the sum type
/// `data`.  It fails exactly if the sum type has no variant.
pub fn derive(data: &Data) -> (r: Result<String, DeriveError>)
    ensures
        match r {
            Ok(text) => data@.variants.len() > 0 && text@ == impl_source(
                delegating_impl(definition(), data@),
            ),
            Err(e) => data@.variants.len() == 0 && e == DeriveError::NoVariants,
        },
{
    match generate(trait_def(), data) {
        Ok(item) => Ok(item.to_source()),
        Err(e) => Err(e),
    }
}

} // verus!
