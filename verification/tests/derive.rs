use auto_enums_core::catalogue::{derive_all, is_supported, lookup};
use auto_enums_core::derive::{
    fn_once, futures01_future, futures03_sink, futures03_stream, generate, io_buf_read, io_write,
    iterator, Data, DeriveError, ForwardArm, ItemImpl, Method, Predicate, Receiver, TraitDef,
    Variant,
};

fn data(generics: &[&str], variants: &[(&str, &str)]) -> Data {
    Data {
        ident: String::from("Enum"),
        generics: generics.iter().map(|g| String::from(*g)).collect(),
        variants: variants
            .iter()
            .map(|(ident, ty)| Variant { ident: String::from(*ident), ty: String::from(*ty) })
            .collect(),
        vectored_io: false,
    }
}

fn two_variants() -> Data {
    data(&["A", "B"], &[("A", "A"), ("B", "B")])
}

fn arms() -> Vec<ForwardArm> {
    vec![
        ForwardArm { variant: String::from("A"), ty: String::from("A") },
        ForwardArm { variant: String::from("B"), ty: String::from("B") },
    ]
}

fn named() -> TraitDef {
    TraitDef {
        path: String::from("Named"),
        args: Vec::new(),
        params: Vec::new(),
        bound: None,
        types: Vec::new(),
        methods: vec![Method::new("get", Receiver::Ref, Vec::new(), "i32")],
    }
}

#[test]
fn single_method_trait_is_forwarded_in_both_variants() {
    let item = generate(named(), &two_variants()).unwrap();
    assert_eq!(item.trait_path, "Named");
    assert_eq!(item.self_ty, "Enum");
    assert_eq!(item.generics, vec!["A", "B"]);
    assert_eq!(item.methods.len(), 1);
    assert_eq!(item.methods[0].sig, Method::new("get", Receiver::Ref, Vec::new(), "i32"));
    assert_eq!(item.methods[0].arms, arms());
    assert_eq!(
        item.predicates,
        vec![
            Predicate { ty: String::from("A"), same_as: None },
            Predicate { ty: String::from("B"), same_as: None },
        ]
    );
    assert_eq!(
        item.to_source(),
        "impl<A, B, > Named<> for Enum<A, B, > where A: Named<>, B: Named<>, \
         {   fn get(&self, ) -> i32  { match self { \
         Enum::A(x) => <A as Named<>>::get(x, ), \
         Enum::B(x) => <B as Named<>>::get(x, ), } } }"
    );
}

#[test]
fn generated_source_is_an_impl_item() {
    let mut items: Vec<ItemImpl> = Vec::new();
    iterator::derive(&two_variants(), &mut items).unwrap();
    futures03_sink::derive(&two_variants(), &mut items).unwrap();
    fn_once::derive(&two_variants(), &mut items).unwrap();
    io_write::derive(&two_variants(), &mut items).unwrap();
    assert_eq!(items.len(), 4);
    for item in &items {
        let parsed: syn::ItemImpl = syn::parse_str(&item.to_source()).unwrap();
        assert_eq!(parsed.items.len(), item.types.len() + item.methods.len());
    }
    let text = io_buf_read::derive(&two_variants()).unwrap();
    let parsed: syn::ItemImpl = syn::parse_str(&text).unwrap();
    assert_eq!(parsed.items.len(), 4);
    let text = futures01_future::derive(&two_variants()).unwrap();
    let parsed: syn::ItemImpl = syn::parse_str(&text).unwrap();
    assert_eq!(parsed.items.len(), 3);
}

#[test]
fn iterator_repeats_every_signature() {
    let mut items: Vec<ItemImpl> = Vec::new();
    iterator::derive(&two_variants(), &mut items).unwrap();
    let item = &items[0];
    assert_eq!(item.trait_path, "::core::iter::Iterator");
    let names: Vec<&str> = item.methods.iter().map(|m| m.sig.name.as_str()).collect();
    assert_eq!(
        names,
        vec!["next", "size_hint", "count", "last", "collect", "fold", "find", "find_map"]
    );
    for method in &item.methods {
        assert_eq!(method.arms, arms());
    }
    assert_eq!(item.methods[0].sig.receiver, Receiver::RefMut);
    assert_eq!(item.methods[0].sig.output, "::core::option::Option<Self::Item>");
    assert_eq!(item.methods[5].sig.generics, "<__U, __F>");
    assert_eq!(
        item.methods[5].sig.where_clause,
        "where __F: ::core::ops::FnMut(__U, Self::Item) -> __U"
    );
    assert_eq!(item.types.len(), 1);
    assert_eq!(item.types[0].name, "Item");
    assert_eq!(item.types[0].from, "A");
    assert_eq!(
        item.predicates,
        vec![
            Predicate { ty: String::from("A"), same_as: None },
            Predicate { ty: String::from("B"), same_as: Some(String::from("A")) },
        ]
    );
}

#[test]
fn iterator_for_concrete_payload_types() {
    let shape = data(
        &[],
        &[("A", "::core::ops::Range<i32>"), ("B", "::core::ops::RangeInclusive<i32>")],
    );
    let mut items: Vec<ItemImpl> = Vec::new();
    iterator::derive(&shape, &mut items).unwrap();
    assert!(items[0].generics.is_empty());
    assert_eq!(items[0].types[0].from, "::core::ops::Range<i32>");
    let source = items[0].to_source();
    assert!(source.starts_with("impl ::core::iter::Iterator<> for Enum where "));
    assert!(source.contains(
        "::core::ops::RangeInclusive<i32>: ::core::iter::Iterator<Item = \
         <::core::ops::Range<i32> as ::core::iter::Iterator<>>::Item, >, "
    ));
    let _: syn::ItemImpl = syn::parse_str(&source).unwrap();
}

#[test]
fn fn_once_has_its_own_bound_and_parameters() {
    let mut items: Vec<ItemImpl> = Vec::new();
    fn_once::derive(&two_variants(), &mut items).unwrap();
    let item = &items[0];
    assert_eq!(item.generics, vec!["A", "B", "__T", "__U"]);
    assert_eq!(item.self_generics, vec!["A", "B"]);
    assert_eq!(item.trait_args, vec!["(__T,)"]);
    assert_eq!(item.bound.as_deref(), Some("::core::ops::FnOnce(__T) -> __U"));
    assert_eq!(item.predicates[1].same_as, None);
    assert_eq!(item.methods[0].sig.abi, "extern \"rust-call\"");
    assert_eq!(item.methods[0].sig.receiver, Receiver::Value);
    assert_eq!(item.types[0].name, "Output");
}

#[test]
fn pinned_receiver_is_forwarded_pinned() {
    let mut items: Vec<ItemImpl> = Vec::new();
    futures03_stream::derive(&two_variants(), &mut items).unwrap();
    let source = items[0].to_source();
    assert!(source.contains(
        "fn poll_next(self: ::core::pin::Pin<&mut Self>, cx: &mut ::core::task::Context<'_>, )"
    ));
    assert!(source.contains(
        "unsafe { match self.get_unchecked_mut() { Enum::A(x) => \
         <A as ::futures::stream::Stream<>>::poll_next(::core::pin::Pin::new_unchecked(x), cx, ), "
    ));
    assert!(source.contains("fn size_hint(&self, ) -> (usize, ::core::option::Option<usize>)"));
}

#[test]
fn vectored_write_depends_on_the_toolchain_only() {
    let mut old = two_variants();
    old.vectored_io = false;
    let mut new = two_variants();
    new.vectored_io = true;
    let mut items: Vec<ItemImpl> = Vec::new();
    io_write::derive(&old, &mut items).unwrap();
    io_write::derive(&new, &mut items).unwrap();
    assert_eq!(items[0].methods.len(), 4);
    assert_eq!(items[1].methods.len(), 5);
    assert_eq!(items[1].methods[4].sig.name, "write_vectored");
    assert_eq!(items[0].methods[..], items[1].methods[..4]);
}

#[test]
fn sum_type_without_variants_is_rejected() {
    let empty = data(&[], &[]);
    let mut items: Vec<ItemImpl> = Vec::new();
    assert_eq!(iterator::derive(&empty, &mut items), Err(DeriveError::NoVariants));
    assert!(items.is_empty());
    assert_eq!(io_buf_read::derive(&empty), Err(DeriveError::NoVariants));
    assert_eq!(generate(named(), &empty), Err(DeriveError::NoVariants));
}

#[test]
fn traits_are_found_by_each_of_their_names() {
    for name in [
        "Iterator",
        "FnOnce",
        "futures01::Future",
        "futures01::Stream",
        "futures::AsyncWrite",
        "futures::Sink",
        "futures::Stream",
        "BufRead",
        "io::BufRead",
        "Write",
        "io::Write",
    ] {
        assert!(is_supported(&String::from(name)), "{}", name);
        assert!(lookup(&String::from(name), false).is_some(), "{}", name);
    }
    for name in ["", "iterator", "std::io::Write", "Debug"] {
        assert!(!is_supported(&String::from(name)), "{}", name);
        assert!(lookup(&String::from(name), true).is_none(), "{}", name);
    }
    assert_eq!(lookup(&String::from("io::BufRead"), false), Some(io_buf_read::trait_def()));
    assert_eq!(lookup(&String::from("Write"), true), Some(io_write::trait_def(true)));
}

#[test]
fn requested_traits_are_implemented_in_their_order() {
    let names = vec![String::from("io::Write"), String::from("Iterator"), String::from("BufRead")];
    let items = derive_all(&names, &two_variants()).unwrap();
    let paths: Vec<&str> = items.iter().map(|i| i.trait_path.as_str()).collect();
    assert_eq!(paths, vec!["::std::io::Write", "::core::iter::Iterator", "::std::io::BufRead"]);
}

#[test]
fn unsupported_request_fails_the_whole_derivation() {
    let names = vec![String::from("Iterator"), String::from("Debug")];
    assert_eq!(derive_all(&names, &two_variants()), Err(DeriveError::UnsupportedTrait));
    let names = vec![String::from("Iterator")];
    assert_eq!(derive_all(&names, &data(&[], &[])), Err(DeriveError::NoVariants));
    assert_eq!(derive_all(&Vec::new(), &data(&[], &[])), Ok(Vec::new()));
}
