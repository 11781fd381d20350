//! The source text of an implementation.

use vstd::prelude::*;
use vstd::string::StringExecFns;

use crate::derive::{
    params_view, AssocTypeView, ForwardArm, ForwardArmView, ImplMethod, ImplMethodView, ItemImpl,
    ItemImplView, Method, MethodView, Param, ParamView, Predicate, PredicateView, Receiver,
};
use crate::syntax::strings_view;

verus! {

/// The items, each followed by a comma.
pub open spec fn comma_list(items: Seq<Seq<char>>) -> Seq<char>
    decreases items.len(),
{
    if items.len() == 0 {
        Seq::empty()
    } else {
        comma_list(items.drop_last()) + items.last() + ", "@
    }
}

/// `<A, B, >`, or nothing for no parameter.
pub open spec fn generics_source(items: Seq<Seq<char>>) -> Seq<char> {
    if items.len() == 0 {
        Seq::empty()
    } else {
        "<"@ + comma_list(items) + ">"@
    }
}

/// The trait with its generic arguments.
pub open spec fn trait_ref(item: ItemImplView) -> Seq<char> {
    item.trait_path + "<"@ + comma_list(item.trait_args) + ">"@
}

/// `<from as Trait>::name`.
pub open spec fn projection(item: ItemImplView, from: Seq<char>, name: Seq<char>) -> Seq<char> {
    "<"@ + from + " as "@ + trait_ref(item) + ">::"@ + name
}

/// For each associated type, `Name = <from as Trait>::Name, `.
pub open spec fn bindings_source(
    item: ItemImplView,
    from: Seq<char>,
    types: Seq<AssocTypeView>,
) -> Seq<char>
    decreases types.len(),
{
    if types.len() == 0 {
        Seq::empty()
    } else {
        bindings_source(item, from, types.drop_last()) + types.last().name + " = "@ + projection(
            item,
            from,
            types.last().name,
        ) + ", "@
    }
}

/// What the predicate asks of its type.
pub open spec fn bound_source(item: ItemImplView, p: PredicateView) -> Seq<char> {
    match item.bound {
        Some(bound) => bound,
        None => match p.same_as {
            Some(from) => item.trait_path + "<"@ + comma_list(item.trait_args) + bindings_source(
                item,
                from,
                item.types,
            ) + ">"@,
            None => trait_ref(item),
        },
    }
}

/// For each predicate, `Type: Bound, `.
pub open spec fn predicates_source(item: ItemImplView, ps: Seq<PredicateView>) -> Seq<char>
    decreases ps.len(),
{
    if ps.len() == 0 {
        Seq::empty()
    } else {
        predicates_source(item, ps.drop_last()) + ps.last().ty + ": "@ + bound_source(
            item,
            ps.last(),
        ) + ", "@
    }
}

/// For each associated type, `type Name = <from as Trait>::Name; `.
pub open spec fn types_source(item: ItemImplView, types: Seq<AssocTypeView>) -> Seq<char>
    decreases types.len(),
{
    if types.len() == 0 {
        Seq::empty()
    } else {
        types_source(item, types.drop_last()) + "type "@ + types.last().name + " = "@ + projection(
            item,
            types.last().from,
            types.last().name,
        ) + "; "@
    }
}

pub open spec fn receiver_source(receiver: Receiver) -> Seq<char> {
    match receiver {
        Receiver::Value => "self"@,
        Receiver::Ref => "&self"@,
        Receiver::RefMut => "&mut self"@,
        Receiver::PinMut => "self: ::core::pin::Pin<&mut Self>"@,
    }
}

/// For each parameter, `name: type, `.
pub open spec fn params_source(params: Seq<ParamView>) -> Seq<char>
    decreases params.len(),
{
    if params.len() == 0 {
        Seq::empty()
    } else {
        params_source(params.drop_last()) + params.last().name + ": "@ + params.last().ty + ", "@
    }
}

/// For each parameter, `name, `.
pub open spec fn args_source(params: Seq<ParamView>) -> Seq<char>
    decreases params.len(),
{
    if params.len() == 0 {
        Seq::empty()
    } else {
        args_source(params.drop_last()) + params.last().name + ", "@
    }
}

/// The value inside a variant, as the method takes it.
pub open spec fn inner_source(receiver: Receiver) -> Seq<char> {
    match receiver {
        Receiver::PinMut => "::core::pin::Pin::new_unchecked(x), "@,
        _ => "x, "@,
    }
}

/// `Sum::Variant(x) => <Type as Trait>::method(x, args), `.
pub open spec fn arm_source(item: ItemImplView, sig: MethodView, arm: ForwardArmView) -> Seq<char> {
    item.self_ty + "::"@ + arm.variant + "(x) => "@ + projection(item, arm.ty, sig.name) + "("@
        + inner_source(sig.receiver) + args_source(sig.params) + "), "@
}

pub open spec fn arms_source(item: ItemImplView, sig: MethodView, arms: Seq<ForwardArmView>) -> Seq<
    char,
>
    decreases arms.len(),
{
    if arms.len() == 0 {
        Seq::empty()
    } else {
        arms_source(item, sig, arms.drop_last()) + arm_source(item, sig, arms.last())
    }
}

/// The `match` that forwards the call.
pub open spec fn body_source(item: ItemImplView, m: ImplMethodView) -> Seq<char> {
    match m.sig.receiver {
        Receiver::PinMut => "unsafe { match self.get_unchecked_mut() { "@ + arms_source(
            item,
            m.sig,
            m.arms,
        ) + "} }"@,
        _ => "match self { "@ + arms_source(item, m.sig, m.arms) + "}"@,
    }
}

/// `-> output`, or nothing where the method returns `()`.
pub open spec fn output_source(output: Seq<char>) -> Seq<char> {
    if output.len() == 0 {
        Seq::empty()
    } else {
        " -> "@ + output
    }
}

pub open spec fn method_source(item: ItemImplView, m: ImplMethodView) -> Seq<char> {
    m.sig.attrs + " "@ + m.sig.abi + " fn "@ + m.sig.name + m.sig.generics + "("@ + receiver_source(
        m.sig.receiver,
    ) + ", "@ + params_source(m.sig.params) + ")"@ + output_source(m.sig.output) + " "@
        + m.sig.where_clause + " { "@ + body_source(item, m) + " } "@
}

pub open spec fn methods_source(item: ItemImplView, methods: Seq<ImplMethodView>) -> Seq<char>
    decreases methods.len(),
{
    if methods.len() == 0 {
        Seq::empty()
    } else {
        methods_source(item, methods.drop_last()) + method_source(item, methods.last())
    }
}

/// The source text of an implementation.
pub open spec fn impl_source(item: ItemImplView) -> Seq<char> {
    "impl"@ + generics_source(item.generics) + " "@ + trait_ref(item) + " for "@ + item.self_ty
        + generics_source(item.self_generics) + " where "@ + predicates_source(
        item,
        item.predicates,
    ) + "{ "@ + types_source(item, item.types) + methods_source(item, item.methods) + "}"@
}

fn write_comma_list(items: &Vec<String>) -> (r: String)
    ensures
        r@ == comma_list(strings_view(items@)),
{
    let ghost all = strings_view(items@);
    let mut r = String::new();
    let mut i: usize = 0;
    assert(all.take(0) =~= Seq::empty());
    while i < items.len()
        invariant
            i <= items.len(),
            all == strings_view(items@),
            r@ == comma_list(all.take(i as int)),
        decreases items.len() - i,
    {
        assert(all.take(i + 1).drop_last() =~= all.take(i as int));
        r.append(items[i].as_str());
        r.append(", ");
        i += 1;
    }
    assert(all.take(i as int) =~= all);
    r
}

fn write_generics(items: &Vec<String>) -> (r: String)
    ensures
        r@ == generics_source(strings_view(items@)),
{
    if items.len() == 0 {
        String::new()
    } else {
        let mut r = String::from_str("<");
        r.append(write_comma_list(items).as_str());
        r.append(">");
        r
    }
}

fn write_receiver(receiver: Receiver) -> (r: &'static str)
    ensures
        r@ == receiver_source(receiver),
{
    match receiver {
        Receiver::Value => "self",
        Receiver::Ref => "&self",
        Receiver::RefMut => "&mut self",
        Receiver::PinMut => "self: ::core::pin::Pin<&mut Self>",
    }
}

fn write_inner(receiver: Receiver) -> (r: &'static str)
    ensures
        r@ == inner_source(receiver),
{
    match receiver {
        Receiver::PinMut => "::core::pin::Pin::new_unchecked(x), ",
        _ => "x, ",
    }
}

fn write_params(params: &Vec<Param>) -> (r: String)
    ensures
        r@ == params_source(params_view(params@)),
{
    let ghost all = params_view(params@);
    let mut r = String::new();
    let mut i: usize = 0;
    assert(all.take(0) =~= Seq::empty());
    while i < params.len()
        invariant
            i <= params.len(),
            all == params_view(params@),
            r@ == params_source(all.take(i as int)),
        decreases params.len() - i,
    {
        assert(all.take(i + 1).drop_last() =~= all.take(i as int));
        r.append(params[i].name.as_str());
        r.append(": ");
        r.append(params[i].ty.as_str());
        r.append(", ");
        i += 1;
    }
    assert(all.take(i as int) =~= all);
    r
}

fn write_args(params: &Vec<Param>) -> (r: String)
    ensures
        r@ == args_source(params_view(params@)),
{
    let ghost all = params_view(params@);
    let mut r = String::new();
    let mut i: usize = 0;
    assert(all.take(0) =~= Seq::empty());
    while i < params.len()
        invariant
            i <= params.len(),
            all == params_view(params@),
            r@ == args_source(all.take(i as int)),
        decreases params.len() - i,
    {
        assert(all.take(i + 1).drop_last() =~= all.take(i as int));
        r.append(params[i].name.as_str());
        r.append(", ");
        i += 1;
    }
    assert(all.take(i as int) =~= all);
    r
}

impl ItemImpl {
    fn write_trait_ref(&self) -> (r: String)
        ensures
            r@ == trait_ref(self@),
    {
        let mut r = self.trait_path.clone();
        r.append("<");
        r.append(write_comma_list(&self.trait_args).as_str());
        r.append(">");
        r
    }

    fn write_projection(&self, from: &String, name: &String) -> (r: String)
        ensures
            r@ == projection(self@, from@, name@),
    {
        let mut r = String::from_str("<");
        r.append(from.as_str());
        r.append(" as ");
        r.append(self.write_trait_ref().as_str());
        r.append(">::");
        r.append(name.as_str());
        r
    }

    fn write_bindings(&self, from: &String) -> (r: String)
        ensures
            r@ == bindings_source(self@, from@, self@.types),
    {
        let ghost all = self@.types;
        let mut r = String::new();
        let mut i: usize = 0;
        assert(all.take(0) =~= Seq::empty());
        while i < self.types.len()
            invariant
                i <= self.types.len(),
                all == self@.types,
                r@ == bindings_source(self@, from@, all.take(i as int)),
            decreases self.types.len() - i,
        {
            assert(all.take(i + 1).drop_last() =~= all.take(i as int));
            let name = &self.types[i].name;
            r.append(name.as_str());
            r.append(" = ");
            r.append(self.write_projection(from, name).as_str());
            r.append(", ");
            i += 1;
        }
        assert(all.take(i as int) =~= all);
        r
    }

    fn write_bound(&self, p: &Predicate) -> (r: String)
        ensures
            r@ == bound_source(self@, p@),
    {
        match &self.bound {
            Some(bound) => bound.clone(),
            None => match &p.same_as {
                Some(from) => {
                    let mut r = self.trait_path.clone();
                    r.append("<");
                    r.append(write_comma_list(&self.trait_args).as_str());
                    r.append(self.write_bindings(from).as_str());
                    r.append(">");
                    r
                },
                None => self.write_trait_ref(),
            },
        }
    }

    fn write_predicates(&self) -> (r: String)
        ensures
            r@ == predicates_source(self@, self@.predicates),
    {
        let ghost all = self@.predicates;
        let mut r = String::new();
        let mut i: usize = 0;
        assert(all.take(0) =~= Seq::empty());
        while i < self.predicates.len()
            invariant
                i <= self.predicates.len(),
                all == self@.predicates,
                r@ == predicates_source(self@, all.take(i as int)),
            decreases self.predicates.len() - i,
        {
            assert(all.take(i + 1).drop_last() =~= all.take(i as int));
            let p = &self.predicates[i];
            r.append(p.ty.as_str());
            r.append(": ");
            r.append(self.write_bound(p).as_str());
            r.append(", ");
            i += 1;
        }
        assert(all.take(i as int) =~= all);
        r
    }

    fn write_types(&self) -> (r: String)
        ensures
            r@ == types_source(self@, self@.types),
    {
        let ghost all = self@.types;
        let mut r = String::new();
        let mut i: usize = 0;
        assert(all.take(0) =~= Seq::empty());
        while i < self.types.len()
            invariant
                i <= self.types.len(),
                all == self@.types,
                r@ == types_source(self@, all.take(i as int)),
            decreases self.types.len() - i,
        {
            assert(all.take(i + 1).drop_last() =~= all.take(i as int));
            let t = &self.types[i];
            r.append("type ");
            r.append(t.name.as_str());
            r.append(" = ");
            r.append(self.write_projection(&t.from, &t.name).as_str());
            r.append("; ");
            i += 1;
        }
        assert(all.take(i as int) =~= all);
        r
    }

    fn write_arm(&self, sig: &Method, arm: &ForwardArm) -> (r: String)
        ensures
            r@ == arm_source(self@, sig@, arm@),
    {
        let mut r = self.self_ty.clone();
        r.append("::");
        r.append(arm.variant.as_str());
        r.append("(x) => ");
        r.append(self.write_projection(&arm.ty, &sig.name).as_str());
        r.append("(");
        r.append(write_inner(sig.receiver));
        r.append(write_args(&sig.params).as_str());
        r.append("), ");
        r
    }

    fn write_arms(&self, m: &ImplMethod) -> (r: String)
        ensures
            r@ == arms_source(self@, m@.sig, m@.arms),
    {
        let ghost all = m@.arms;
        let mut r = String::new();
        let mut i: usize = 0;
        assert(all.take(0) =~= Seq::empty());
        while i < m.arms.len()
            invariant
                i <= m.arms.len(),
                all == m@.arms,
                r@ == arms_source(self@, m@.sig, all.take(i as int)),
            decreases m.arms.len() - i,
        {
            assert(all.take(i + 1).drop_last() =~= all.take(i as int));
            r.append(self.write_arm(&m.sig, &m.arms[i]).as_str());
            i += 1;
        }
        assert(all.take(i as int) =~= all);
        r
    }

    fn write_body(&self, m: &ImplMethod) -> (r: String)
        ensures
            r@ == body_source(self@, m@),
    {
        match m.sig.receiver {
            Receiver::PinMut => {
                let mut r = String::from_str("unsafe { match self.get_unchecked_mut() { ");
                r.append(self.write_arms(m).as_str());
                r.append("} }");
                r
            },
            _ => {
                let mut r = String::from_str("match self { ");
                r.append(self.write_arms(m).as_str());
                r.append("}");
                r
            },
        }
    }

    fn write_method(&self, m: &ImplMethod) -> (r: String)
        ensures
            r@ == method_source(self@, m@),
    {
        let mut r = m.sig.attrs.clone();
        r.append(" ");
        r.append(m.sig.abi.as_str());
        r.append(" fn ");
        r.append(m.sig.name.as_str());
        r.append(m.sig.generics.as_str());
        r.append("(");
        r.append(write_receiver(m.sig.receiver));
        r.append(", ");
        r.append(write_params(&m.sig.params).as_str());
        r.append(")");
        if !m.sig.output.as_str().is_empty() {
            let mut output = String::from_str(" -> ");
            output.append(m.sig.output.as_str());
            r.append(output.as_str());
        } else {
            assert(r@ + Seq::<char>::empty() =~= r@);
        }
        r.append(" ");
        r.append(m.sig.where_clause.as_str());
        r.append(" { ");
        r.append(self.write_body(m).as_str());
        r.append(" } ");
        r
    }

    fn write_methods(&self) -> (r: String)
        ensures
            r@ == methods_source(self@, self@.methods),
    {
        let ghost all = self@.methods;
        let mut r = String::new();
        let mut i: usize = 0;
        assert(all.take(0) =~= Seq::empty());
        while i < self.methods.len()
            invariant
                i <= self.methods.len(),
                all == self@.methods,
                r@ == methods_source(self@, all.take(i as int)),
            decreases self.methods.len() - i,
        {
            assert(all.take(i + 1).drop_last() =~= all.take(i as int));
            r.append(self.write_method(&self.methods[i]).as_str());
            i += 1;
        }
        assert(all.take(i as int) =~= all);
        r
    }

    /// The source text of the implementation.
    pub fn to_source(&self) -> (r: String)
        ensures
            r@ == impl_source(self@),
    {
        let mut r = String::from_str("impl");
        r.append(write_generics(&self.generics).as_str());
        r.append(" ");
        r.append(self.write_trait_ref().as_str());
        r.append(" for ");
        r.append(self.self_ty.as_str());
        r.append(write_generics(&self.self_generics).as_str());
        r.append(" where ");
        r.append(self.write_predicates().as_str());
        r.append("{ ");
        r.append(self.write_types().as_str());
        r.append(self.write_methods().as_str());
        r.append("}");
        r
    }
}

} // verus!
