//! `Iterator` for a sum type.

use vstd::prelude::*;
use vstd::string::StringExecFns;

use crate::derive::{
    arg, delegating_impl, derive_trait, impls_view, methods_view, params_view, signature, Data,
    DeriveError, ItemImpl, Method, MethodView, Param, Receiver, TraitDef, TraitDefView,
};
use crate::syntax::{name_is, strings_view};

verus! {

/// Whether `name` asks for this trait.
pub open spec fn is_name(name: Seq<char>) -> bool {
    name == "Iterator"@
}

/// The shape of the trait.
pub open spec fn definition() -> TraitDefView {
    TraitDefView {
        path: "::core::iter::Iterator"@,
        args: Seq::empty(),
        params: Seq::empty(),
        bound: None,
        types: seq!["Item"@],
        methods: seq![
            signature(
                "next"@,
                Receiver::RefMut,
                Seq::empty(),
                "::core::option::Option<Self::Item>"@,
            ),
            signature(
                "size_hint"@,
                Receiver::Ref,
                Seq::empty(),
                "(usize, ::core::option::Option<usize>)"@,
            ),
            signature("count"@, Receiver::Value, Seq::empty(), "usize"@),
            signature(
                "last"@,
                Receiver::Value,
                Seq::empty(),
                "::core::option::Option<Self::Item>"@,
            ),
            MethodView {
                attrs:
                    "#[must_use = \"if you really need to exhaust the iterator, consider `.for_each(drop)` instead\"]"@,
                generics: "<__U: ::core::iter::FromIterator<Self::Item>>"@,
                where_clause: ""@,
                ..signature("collect"@, Receiver::Value, Seq::empty(), "__U"@)
            },
            MethodView {
                generics: "<__U, __F>"@,
                where_clause: "where __F: ::core::ops::FnMut(__U, Self::Item) -> __U"@,
                ..signature(
                    "fold"@,
                    Receiver::Value,
                    seq![arg("init"@, "__U"@), arg("f"@, "__F"@)],
                    "__U"@,
                )
            },
            MethodView {
                generics: "<__P>"@,
                where_clause: "where __P: ::core::ops::FnMut(&Self::Item) -> bool"@,
                ..signature(
                    "find"@,
                    Receiver::RefMut,
                    seq![arg("predicate"@, "__P"@)],
                    "::core::option::Option<Self::Item>"@,
                )
            },
            MethodView {
                generics: "<__U, __F>"@,
                where_clause:
                    "where __F: ::core::ops::FnMut(Self::Item) -> ::core::option::Option<__U>"@,
                ..signature(
                    "find_map"@,
                    Receiver::RefMut,
                    seq![arg("f"@, "__F"@)],
                    "::core::option::Option<__U>"@,
                )
            },
        ],
    }
}

/// Whether `name` asks for this trait.
pub fn has_name(name: &String) -> (r: bool)
    ensures
        r == is_name(name@),
{
    name_is(name, "Iterator")
}

/// The shape of the trait.
pub fn trait_def() -> (def: TraitDef)
    ensures
        def@ == definition(),
{
    let mut methods: Vec<Method> = Vec::new();
    let mut params: Vec<Param> = Vec::new();
    assert(params_view(params@) =~= Seq::empty());
    let method = Method::new(
        "next",
        Receiver::RefMut,
        params,
        "::core::option::Option<Self::Item>",
    );
    methods.push(method);
    let mut params: Vec<Param> = Vec::new();
    assert(params_view(params@) =~= Seq::empty());
    let method = Method::new(
        "size_hint",
        Receiver::Ref,
        params,
        "(usize, ::core::option::Option<usize>)",
    );
    methods.push(method);
    let mut params: Vec<Param> = Vec::new();
    assert(params_view(params@) =~= Seq::empty());
    let method = Method::new("count", Receiver::Value, params, "usize");
    methods.push(method);
    let mut params: Vec<Param> = Vec::new();
    assert(params_view(params@) =~= Seq::empty());
    let method = Method::new("last", Receiver::Value, params, "::core::option::Option<Self::Item>");
    methods.push(method);
    let mut params: Vec<Param> = Vec::new();
    assert(params_view(params@) =~= Seq::empty());
    let method = Method::new("collect", Receiver::Value, params, "__U");
    let method = method.with_attrs(
        "#[must_use = \"if you really need to exhaust the iterator, consider `.for_each(drop)` instead\"]",
    );
    let method = method.with_generics("<__U: ::core::iter::FromIterator<Self::Item>>", "");
    methods.push(method);
    let mut params: Vec<Param> = Vec::new();
    params.push(Param::new("init", "__U"));
    params.push(Param::new("f", "__F"));
    assert(params_view(params@) =~= seq![arg("init"@, "__U"@), arg("f"@, "__F"@)]);
    let method = Method::new("fold", Receiver::Value, params, "__U");
    let method = method.with_generics(
        "<__U, __F>",
        "where __F: ::core::ops::FnMut(__U, Self::Item) -> __U",
    );
    methods.push(method);
    let mut params: Vec<Param> = Vec::new();
    params.push(Param::new("predicate", "__P"));
    assert(params_view(params@) =~= seq![arg("predicate"@, "__P"@)]);
    let method = Method::new(
        "find",
        Receiver::RefMut,
        params,
        "::core::option::Option<Self::Item>",
    );
    let method = method.with_generics(
        "<__P>",
        "where __P: ::core::ops::FnMut(&Self::Item) -> bool",
    );
    methods.push(method);
    let mut params: Vec<Param> = Vec::new();
    params.push(Param::new("f", "__F"));
    assert(params_view(params@) =~= seq![arg("f"@, "__F"@)]);
    let method = Method::new("find_map", Receiver::RefMut, params, "::core::option::Option<__U>");
    let method = method.with_generics(
        "<__U, __F>",
        "where __F: ::core::ops::FnMut(Self::Item) -> ::core::option::Option<__U>",
    );
    methods.push(method);
    assert(methods_view(methods@) =~= definition().methods);
    let mut args: Vec<String> = Vec::new();
    assert(strings_view(args@) =~= definition().args);
    let mut params: Vec<String> = Vec::new();
    assert(strings_view(params@) =~= definition().params);
    let mut types: Vec<String> = Vec::new();
    types.push(String::from_str("Item"));
    assert(strings_view(types@) =~= definition().types);
    TraitDef {
        path: String::from_str("::core::iter::Iterator"),
        args,
        params,
        bound: None,
        types,
        methods,
    }
}

/// Adds to `items` the implementation of the trait for the sum type
/// `data`.  It fails, and leaves `items` as they are, exactly if the sum
/// type has no variant.
pub fn derive(data: &Data, items: &mut Vec<ItemImpl>) -> (r: Result<(), DeriveError>)
    ensures
        match r {
            Ok(_) => data@.variants.len() > 0 && impls_view(final(items)@) == impls_view(
                old(items)@,
            ).push(delegating_impl(definition(), data@)),
            Err(e) => data@.variants.len() == 0 && e == DeriveError::NoVariants && *final(items)
                == *old(items),
        },
{
    derive_trait(trait_def(), data, items)
}

} // verus!
