//! `std::io::BufRead` for a sum type.

use vstd::prelude::*;
use vstd::string::StringExecFns;

use crate::derive::source::impl_source;
use crate::derive::{
    arg, delegating_impl, generate, methods_view, params_view, signature, Data, DeriveError, Method,
    MethodView, Param, Receiver, TraitDef, TraitDefView,
};
use crate::syntax::{name_is, strings_view};

verus! {

/// Whether `name` asks for this trait.
pub open spec fn is_name(name: Seq<char>) -> bool {
    name == "BufRead"@ || name == "io::BufRead"@
}

/// The shape of the trait.
pub open spec fn definition() -> TraitDefView {
    TraitDefView {
        path: "::std::io::BufRead"@,
        args: Seq::empty(),
        params: Seq::empty(),
        bound: None,
        types: Seq::empty(),
        methods: seq![
            MethodView {
                attrs: "#[inline]"@,
                ..signature(
                    "fill_buf"@,
                    Receiver::RefMut,
                    Seq::empty(),
                    "::std::io::Result<&[u8]>"@,
                )
            },
            MethodView {
                attrs: "#[inline]"@,
                ..signature("consume"@, Receiver::RefMut, seq![arg("amt"@, "usize"@)], ""@)
            },
            MethodView {
                attrs: "#[inline]"@,
                ..signature(
                    "read_until"@,
                    Receiver::RefMut,
                    seq![arg("byte"@, "u8"@), arg("buf"@, "&mut ::std::vec::Vec<u8>"@)],
                    "::std::io::Result<usize>"@,
                )
            },
            MethodView {
                attrs: "#[inline]"@,
                ..signature(
                    "read_line"@,
                    Receiver::RefMut,
                    seq![arg("buf"@, "&mut ::std::string::String"@)],
                    "::std::io::Result<usize>"@,
                )
            },
        ],
    }
}

/// Whether `name` asks for this trait.
pub fn has_name(name: &String) -> (r: bool)
    ensures
        r == is_name(name@),
{
    name_is(name, "BufRead") || name_is(name, "io::BufRead")
}

/// The shape of the trait.
pub fn trait_def() -> (def: TraitDef)
    ensures
        def@ == definition(),
{
    let mut methods: Vec<Method> = Vec::new();
    let mut params: Vec<Param> = Vec::new();
    assert(params_view(params@) =~= Seq::empty());
    let method = Method::new("fill_buf", Receiver::RefMut, params, "::std::io::Result<&[u8]>");
    let method = method.with_attrs("#[inline]");
    methods.push(method);
    let mut params: Vec<Param> = Vec::new();
    params.push(Param::new("amt", "usize"));
    assert(params_view(params@) =~= seq![arg("amt"@, "usize"@)]);
    let method = Method::new("consume", Receiver::RefMut, params, "");
    let method = method.with_attrs("#[inline]");
    methods.push(method);
    let mut params: Vec<Param> = Vec::new();
    params.push(Param::new("byte", "u8"));
    params.push(Param::new("buf", "&mut ::std::vec::Vec<u8>"));
    assert(params_view(params@) =~= seq![
        arg("byte"@, "u8"@),
        arg("buf"@, "&mut ::std::vec::Vec<u8>"@),
    ]);
    let method = Method::new("read_until", Receiver::RefMut, params, "::std::io::Result<usize>");
    let method = method.with_attrs("#[inline]");
    methods.push(method);
    let mut params: Vec<Param> = Vec::new();
    params.push(Param::new("buf", "&mut ::std::string::String"));
    assert(params_view(params@) =~= seq![arg("buf"@, "&mut ::std::string::String"@)]);
    let method = Method::new("read_line", Receiver::RefMut, params, "::std::io::Result<usize>");
    let method = method.with_attrs("#[inline]");
    methods.push(method);
    assert(methods_view(methods@) =~= definition().methods);
    let mut args: Vec<String> = Vec::new();
    assert(strings_view(args@) =~= definition().args);
    let mut params: Vec<String> = Vec::new();
    assert(strings_view(params@) =~= definition().params);
    let mut types: Vec<String> = Vec::new();
    assert(strings_view(types@) =~= definition().types);
    TraitDef {
        path: String::from_str("::std::io::BufRead"),
        args,
        params,
        bound: None,
        types,
        methods,
    }
}

/// The source text of the implementation of the trait for the sum type
/// `data`.  It fails exactly if the sum type has no variant.
pub fn derive(data: &Data) -> (r: Result<String, DeriveError>)
    ensures
        match r {
            Ok(text) => data@.variants.len() > 0 && text@ == impl_source(
                delegating_impl(definition(), data@),
            ),
            Err(e) => data@.variants.len() == 0 && e == DeriveError::NoVariants,
        },
{
    match generate(trait_def(), data) {
        Ok(item) => Ok(item.to_source()),
        Err(e) => Err(e),
    }
}

} // verus!
