//! The supported traits, by the names under which they are requested.

use vstd::prelude::*;

use crate::derive::{
    delegating_impl, fn_once, futures01_future, futures01_stream, futures03_async_write,
    futures03_sink, futures03_stream, generate, impls_view, io_buf_read, io_write, iterator, Data,
    DataView, DeriveError, ItemImpl, ItemImplView, TraitDef, TraitDefView,
};
use crate::syntax::{first_index, lemma_first_index, lemma_first_index_found, strings_view};

verus! {

/// The shape of the trait that `name` asks for, on a toolchain that has
/// `std::io::IoSlice` if `vectored_io` says so.
pub open spec fn entry(name: Seq<char>, vectored_io: bool) -> Option<TraitDefView> {
    if iterator::is_name(name) {
        Some(iterator::definition())
    } else if fn_once::is_name(name) {
        Some(fn_once::definition())
    } else if futures01_future::is_name(name) {
        Some(futures01_future::definition())
    } else if futures01_stream::is_name(name) {
        Some(futures01_stream::definition())
    } else if futures03_async_write::is_name(name) {
        Some(futures03_async_write::definition())
    } else if futures03_sink::is_name(name) {
        Some(futures03_sink::definition())
    } else if futures03_stream::is_name(name) {
        Some(futures03_stream::definition())
    } else if io_buf_read::is_name(name) {
        Some(io_buf_read::definition())
    } else if io_write::is_name(name) {
        Some(io_write::definition(vectored_io))
    } else {
        None
    }
}

/// A name that stands for one of the supported traits.
pub open spec fn supported(name: Seq<char>) -> bool {
    entry(name, false) is Some
}

/// The position of the first name that stands for no supported trait.
pub open spec fn first_unsupported(names: Seq<Seq<char>>) -> Option<int> {
    first_index(names, |name: Seq<char>| !supported(name))
}

/// The view of a shape that may be absent.
pub open spec fn entry_view(def: Option<TraitDef>) -> Option<TraitDefView> {
    match def {
        Some(d) => Some(d@),
        None => None,
    }
}

/// The shape of the trait that `name` asks for, if it is supported.
pub fn lookup(name: &String, vectored_io: bool) -> (r: Option<TraitDef>)
    ensures
        entry_view(r) == entry(name@, vectored_io),
{
    if iterator::has_name(name) {
        Some(iterator::trait_def())
    } else if fn_once::has_name(name) {
        Some(fn_once::trait_def())
    } else if futures01_future::has_name(name) {
        Some(futures01_future::trait_def())
    } else if futures01_stream::has_name(name) {
        Some(futures01_stream::trait_def())
    } else if futures03_async_write::has_name(name) {
        Some(futures03_async_write::trait_def())
    } else if futures03_sink::has_name(name) {
        Some(futures03_sink::trait_def())
    } else if futures03_stream::has_name(name) {
        Some(futures03_stream::trait_def())
    } else if io_buf_read::has_name(name) {
        Some(io_buf_read::trait_def())
    } else if io_write::has_name(name) {
        Some(io_write::trait_def(vectored_io))
    } else {
        None
    }
}

/// Whether `name` stands for one of the supported traits.
pub fn is_supported(name: &String) -> (r: bool)
    ensures
        r == supported(name@),
{
    iterator::has_name(name) || fn_once::has_name(name) || futures01_future::has_name(name)
        || futures01_stream::has_name(name) || futures03_async_write::has_name(name)
        || futures03_sink::has_name(name) || futures03_stream::has_name(name)
        || io_buf_read::has_name(name) || io_write::has_name(name)
}

/// The position of the first of `names` that is not supported.
pub fn find_unsupported(names: &Vec<String>) -> (r: Option<usize>)
    ensures
        match r {
            Some(i) => i < names.len() && first_unsupported(strings_view(names@))
                == Some(i as int),
            None => first_unsupported(strings_view(names@)) is None,
        },
{
    let ghost view = strings_view(names@);
    let ghost p = |name: Seq<char>| !supported(name);
    let n = names.len();
    let mut i: usize = 0;
    while i < n
        invariant
            i <= n,
            n == names.len(),
            view == strings_view(names@),
            p == (|name: Seq<char>| !supported(name)),
            forall|j: int| 0 <= j < i ==> !p(#[trigger] view[j]),
        decreases n - i,
    {
        if !is_supported(&names[i]) {
            proof {
                assert(p(view[i as int]));
                lemma_first_index(view, p, i as int);
            }
            return Some(i);
        }
        i += 1;
    }
    proof {
        lemma_first_index(view, p, n as int);
    }
    None
}

/// The implementations that `names` ask for, one for each name and in
/// their order.
pub open spec fn requested_impls(names: Seq<Seq<char>>, data: DataView) -> Seq<
    ItemImplView,
> {
    Seq::new(
        names.len(),
        |i: int| delegating_impl(entry(names[i], data.vectored_io)->Some_0, data),
    )
}

/// Writes, for each of `names`, the implementation of the trait it asks
/// for.  It fails with `UnsupportedTrait` if some name stands for no
/// supported trait, else with `NoVariants` if an implementation is asked
/// for and the sum type has no variant.
pub fn derive_all(names: &Vec<String>, data: &Data) -> (r: Result<Vec<ItemImpl>, DeriveError>)
    ensures
        match r {
            Ok(items) => first_unsupported(strings_view(names@)) is None && (names.len() == 0
                || data@.variants.len() > 0) && impls_view(items@) == requested_impls(
                strings_view(names@),
                data@,
            ),
            Err(DeriveError::UnsupportedTrait) => first_unsupported(strings_view(names@)) is Some,
            Err(DeriveError::NoVariants) => first_unsupported(strings_view(names@)) is None
                && names.len() > 0 && data@.variants.len() == 0,
        },
{
    let ghost view = strings_view(names@);
    if find_unsupported(names).is_some() {
        return Err(DeriveError::UnsupportedTrait);
    }
    proof {
        lemma_first_index_found(view, |name: Seq<char>| !supported(name));
    }
    let mut items: Vec<ItemImpl> = Vec::new();
    let n = names.len();
    let mut i: usize = 0;
    while i < n
        invariant
            i <= n,
            n == names.len(),
            view == strings_view(names@),
            first_unsupported(view) is None,
            forall|j: int| 0 <= j < n ==> supported(#[trigger] view[j]),
            i > 0 ==> data@.variants.len() > 0,
            items.len() == i,
            forall|j: int|
                0 <= j < i ==> (#[trigger] items@[j])@ == delegating_impl(
                    entry(view[j], data@.vectored_io)->Some_0,
                    data@,
                ),
        decreases n - i,
    {
        assert(supported(view[i as int]));
        match lookup(&names[i], data.vectored_io) {
            Some(def) => match generate(def, data) {
                Ok(item) => {
                    items.push(item);
                },
                Err(e) => {
                    return Err(DeriveError::NoVariants);
                },
            },
            None => {
                return Err(DeriveError::UnsupportedTrait);
            },
        }
        i += 1;
    }
    assert(impls_view(items@) =~= requested_impls(view, data@));
    Ok(items)
}

} // verus!
