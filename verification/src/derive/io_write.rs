//! `std::io::Write` for a sum type.

use vstd::prelude::*;
use vstd::string::StringExecFns;

use crate::derive::{
    arg, delegating_impl, derive_trait, impls_view, methods_view, params_view, signature, Data,
    DeriveError, ItemImpl, Method, MethodView, Param, Receiver, TraitDef, TraitDefView,
};
use crate::syntax::{name_is, strings_view};

verus! {

/// Whether `name` asks for this trait.
pub open spec fn is_name(name: Seq<char>) -> bool {
    name == "Write"@ || name == "io::Write"@
}

/// The shape of the trait: `write_vectored` is part of it only where the
/// toolchain has `std::io::IoSlice`.
pub open spec fn definition(vectored_io: bool) -> TraitDefView {
    TraitDefView {
        path: "::std::io::Write"@,
        args: Seq::empty(),
        params: Seq::empty(),
        bound: None,
        types: Seq::empty(),
        methods: if vectored_io {
            required_methods().push(
                signature(
                    "write_vectored"@,
                    Receiver::RefMut,
                    seq![arg("bufs"@, "&[::std::io::IoSlice<'_>]"@)],
                    "::std::io::Result<usize>"@,
                ),
            )
        } else {
            required_methods()
        },
    }
}

/// The methods that every toolchain has.
pub open spec fn required_methods() -> Seq<MethodView> {
    seq![
        signature(
            "write"@,
            Receiver::RefMut,
            seq![arg("buf"@, "&[u8]"@)],
            "::std::io::Result<usize>"@,
        ),
        signature("flush"@, Receiver::RefMut, Seq::empty(), "::std::io::Result<()>"@),
        signature(
            "write_all"@,
            Receiver::RefMut,
            seq![arg("buf"@, "&[u8]"@)],
            "::std::io::Result<()>"@,
        ),
        signature(
            "write_fmt"@,
            Receiver::RefMut,
            seq![arg("fmt"@, "::std::fmt::Arguments<'_>"@)],
            "::std::io::Result<()>"@,
        ),
    ]
}

/// Whether `name` asks for this trait.
pub fn has_name(name: &String) -> (r: bool)
    ensures
        r == is_name(name@),
{
    name_is(name, "Write") || name_is(name, "io::Write")
}

/// The shape of the trait.
pub fn trait_def(vectored_io: bool) -> (def: TraitDef)
    ensures
        def@ == definition(vectored_io),
{
    let mut methods: Vec<Method> = Vec::new();
    let mut params: Vec<Param> = Vec::new();
    params.push(Param::new("buf", "&[u8]"));
    assert(params_view(params@) =~= seq![arg("buf"@, "&[u8]"@)]);
    let method = Method::new("write", Receiver::RefMut, params, "::std::io::Result<usize>");
    methods.push(method);
    let mut params: Vec<Param> = Vec::new();
    assert(params_view(params@) =~= Seq::empty());
    let method = Method::new("flush", Receiver::RefMut, params, "::std::io::Result<()>");
    methods.push(method);
    let mut params: Vec<Param> = Vec::new();
    params.push(Param::new("buf", "&[u8]"));
    assert(params_view(params@) =~= seq![arg("buf"@, "&[u8]"@)]);
    let method = Method::new("write_all", Receiver::RefMut, params, "::std::io::Result<()>");
    methods.push(method);
    let mut params: Vec<Param> = Vec::new();
    params.push(Param::new("fmt", "::std::fmt::Arguments<'_>"));
    assert(params_view(params@) =~= seq![arg("fmt"@, "::std::fmt::Arguments<'_>"@)]);
    let method = Method::new("write_fmt", Receiver::RefMut, params, "::std::io::Result<()>");
    methods.push(method);
    assert(methods_view(methods@) =~= required_methods());
    if vectored_io {
        let mut params: Vec<Param> = Vec::new();
        params.push(Param::new("bufs", "&[::std::io::IoSlice<'_>]"));
        assert(params_view(params@) =~= seq![arg("bufs"@, "&[::std::io::IoSlice<'_>]"@)]);
        let method = Method::new(
            "write_vectored",
            Receiver::RefMut,
            params,
            "::std::io::Result<usize>",
        );
        methods.push(method);
        assert(methods_view(methods@) =~= definition(true).methods);
    }
    let mut args: Vec<String> = Vec::new();
    assert(strings_view(args@) =~= definition(vectored_io).args);
    let mut params: Vec<String> = Vec::new();
    assert(strings_view(params@) =~= definition(vectored_io).params);
    let mut types: Vec<String> = Vec::new();
    assert(strings_view(types@) =~= definition(vectored_io).types);
    TraitDef {
        path: String::from_str("::std::io::Write"),
        args,
        params,
        bound: None,
        types,
        methods,
    }
}

/// Adds to `items` the implementation of the trait for the sum type
/// `data`.  It fails, and leaves `items` as they are, exactly if the sum
/// type has no variant.
pub fn derive(data: &Data, items: &mut Vec<ItemImpl>) -> (r: Result<(), DeriveError>)
    ensures
        match r {
            Ok(_) => data@.variants.len() > 0 && impls_view(final(items)@) == impls_view(
                old(items)@,
            ).push(delegating_impl(definition(data@.vectored_io), data@)),
            Err(e) => data@.variants.len() == 0 && e == DeriveError::NoVariants && *final(items)
                == *old(items),
        },
{
    derive_trait(trait_def(data.vectored_io), data, items)
}

} // verus!
