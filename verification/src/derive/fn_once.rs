//! `FnOnce` for a sum type.

use vstd::prelude::*;
use vstd::string::StringExecFns;

use crate::derive::{
    arg, delegating_impl, derive_trait, impls_view, methods_view, params_view, signature, Data,
    DeriveError, ItemImpl, Method, MethodView, Param, Receiver, TraitDef, TraitDefView,
};
use crate::syntax::{name_is, strings_view};

verus! {

/// Whether `name` asks for this trait.
pub open spec fn is_name(name: Seq<char>) -> bool {
    name == "FnOnce"@
}

/// The shape of the trait.
pub open spec fn definition() -> TraitDefView {
    TraitDefView {
        path: "::core::ops::FnOnce"@,
        args: seq!["(__T,)"@],
        params: seq!["__T"@, "__U"@],
        bound: Some("::core::ops::FnOnce(__T) -> __U"@),
        types: seq!["Output"@],
        methods: seq![
            MethodView {
                abi: "extern \"rust-call\""@,
                ..signature(
                    "call_once"@,
                    Receiver::Value,
                    seq![arg("args"@, "(__T,)"@)],
                    "Self::Output"@,
                )
            },
        ],
    }
}

/// Whether `name` asks for this trait.
pub fn has_name(name: &String) -> (r: bool)
    ensures
        r == is_name(name@),
{
    name_is(name, "FnOnce")
}

/// The shape of the trait.
pub fn trait_def() -> (def: TraitDef)
    ensures
        def@ == definition(),
{
    let mut methods: Vec<Method> = Vec::new();
    let mut params: Vec<Param> = Vec::new();
    params.push(Param::new("args", "(__T,)"));
    assert(params_view(params@) =~= seq![arg("args"@, "(__T,)"@)]);
    let method = Method::new("call_once", Receiver::Value, params, "Self::Output");
    let method = method.with_abi("extern \"rust-call\"");
    methods.push(method);
    assert(methods_view(methods@) =~= definition().methods);
    let mut args: Vec<String> = Vec::new();
    args.push(String::from_str("(__T,)"));
    assert(strings_view(args@) =~= definition().args);
    let mut params: Vec<String> = Vec::new();
    params.push(String::from_str("__T"));
    params.push(String::from_str("__U"));
    assert(strings_view(params@) =~= definition().params);
    let mut types: Vec<String> = Vec::new();
    types.push(String::from_str("Output"));
    assert(strings_view(types@) =~= definition().types);
    TraitDef {
        path: String::from_str("::core::ops::FnOnce"),
        args,
        params,
        bound: Some(String::from_str("::core::ops::FnOnce(__T) -> __U")),
        types,
        methods,
    }
}

/// Adds to `items` the implementation of the trait for the sum type
/// `data`.  It fails, and leaves `items` as they are, exactly if the sum
/// type has no variant.
pub fn derive(data: &Data, items: &mut Vec<ItemImpl>) -> (r: Result<(), DeriveError>)
    ensures
        match r {
            Ok(_) => data@.variants.len() > 0 && impls_view(final(items)@) == impls_view(
                old(items)@,
            ).push(delegating_impl(definition(), data@)),
            Err(e) => data@.variants.len() == 0 && e == DeriveError::NoVariants && *final(items)
                == *old(items),
        },
{
    derive_trait(trait_def(), data, items)
}

} // verus!
