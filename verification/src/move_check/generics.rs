//! Type parameters inside generic bodies: placeholders, symbolic types and their aspects.
use vstd::prelude::*;
use crate::ast::{AspectMethod, GenericParam, Param};
use crate::conversions::{denoted, type_expr_to_infer, TypeScope, TypeScopeV};
use crate::infer::{all_resolved, infer_to_type, infer_type_view, infer_types_view};
use crate::infer::{lowered, lowered_all, named_infer_types_view, resolved, type_to_infer, lifted};
use crate::infer::{InferType, InferTypeV, TypeVar};
use crate::registry::{aspect_method_named, aspect_of, first_where, lemma_first_where_skip};
use crate::registry::{AspectInfo, TypeDefinitionRegistry};
use crate::text::{joined, same_text};
use crate::typed_ast::{GenericMoveEnv, Placeholder, SymbolicAspects};
use crate::types::{named_types_view, type_view, types_view, Type, TypeV};

verus! {

/// What a name stands for, of a list in which the first entry with a name counts.
pub open spec fn sample_named(s: Seq<(Seq<char>, InferTypeV)>, name: Seq<char>) -> Option<
    InferTypeV,
> {
    match first_where(s, |e: (Seq<char>, InferTypeV)| e.0 == name) {
        Some(e) => Some(e.1),
        None => None,
    }
}

/// A type with every name without type arguments replaced by what it stands for.
pub open spec fn renamed(m: Seq<(Seq<char>, InferTypeV)>, t: InferTypeV) -> InferTypeV
    decreases t,
{
    match t {
        InferTypeV::Named(name, args) => if args.len() == 0 {
            match sample_named(m, name) {
                Some(x) => x,
                None => t,
            }
        } else {
            InferTypeV::Named(name, all_renamed(m, args))
        },
        InferTypeV::Fun(params, ret) => InferTypeV::Fun(
            all_renamed(m, params),
            Box::new(renamed(m, *ret)),
        ),
        InferTypeV::Tuple(items) => InferTypeV::Tuple(all_renamed(m, items)),
        InferTypeV::Record(fields) => InferTypeV::Record(fields_renamed(m, fields)),
        InferTypeV::Array(item) => InferTypeV::Array(Box::new(renamed(m, *item))),
        InferTypeV::SizedArray(item, n) => InferTypeV::SizedArray(Box::new(renamed(m, *item)), n),
        InferTypeV::Reference(inner) => InferTypeV::Reference(Box::new(renamed(m, *inner))),
        InferTypeV::MutReference(inner) => InferTypeV::MutReference(Box::new(renamed(m, *inner))),
        InferTypeV::Concrete(_) => t,
        InferTypeV::Var(_) => t,
        InferTypeV::Never => t,
    }
}

/// [`renamed`] on every type of a sequence.
pub open spec fn all_renamed(m: Seq<(Seq<char>, InferTypeV)>, s: Seq<InferTypeV>) -> Seq<InferTypeV>
    decreases s,
{
    Seq::new(s.len(), |i: int| if 0 <= i < s.len() { renamed(m, s[i]) } else { arbitrary() })
}

/// [`renamed`] on the type of every field.
pub open spec fn fields_renamed(
    m: Seq<(Seq<char>, InferTypeV)>,
    s: Seq<(Seq<char>, InferTypeV)>,
) -> Seq<(Seq<char>, InferTypeV)>
    decreases s,
{
    Seq::new(
        s.len(),
        |i: int| if 0 <= i < s.len() { (s[i].0, renamed(m, s[i].1)) } else { arbitrary() },
    )
}

fn find_sample(samples: &Vec<(String, InferType)>, name: &str) -> (r: Option<InferType>)
    ensures
        match r {
            Some(t) => sample_named(named_infer_types_view(samples@), name@) == Some(t@),
            None => sample_named(named_infer_types_view(samples@), name@) is None,
        },
{
    let ghost views = named_infer_types_view(samples@);
    let ghost p = |e: (Seq<char>, InferTypeV)| e.0 == name@;
    assert(views.len() == samples@.len());
    assert(views.skip(0) =~= views);
    let mut i: usize = 0;
    while i < samples.len()
        invariant
            i <= samples@.len(),
            views == named_infer_types_view(samples@),
            views.len() == samples@.len(),
            p == (|e: (Seq<char>, InferTypeV)| e.0 == name@),
            first_where(views, p) == first_where(views.skip(i as int), p),
        decreases samples@.len() - i,
    {
        proof {
            lemma_first_where_skip(views, p, i as int);
            assert(views[i as int] == (samples@[i as int].0@, infer_type_view(samples@[i as int].1)));
        }
        if same_text(samples[i].0.as_str(), name) {
            return Some(samples[i].1.copy());
        }
        i += 1;
    }
    None
}

/// Replace every name without type arguments by what it stands for in `samples`.
pub fn substitute_named_generics(ty: &InferType, samples: &Vec<(String, InferType)>) -> (r:
    InferType)
    ensures
        r@ == renamed(named_infer_types_view(samples@), ty@),
    decreases *ty,
{
    match ty {
        InferType::Named(name, args) => {
            assert(infer_types_view(args@).len() == args@.len());
            if args.len() == 0 {
                match find_sample(samples, name.as_str()) {
                    Some(t) => t,
                    None => ty.copy(),
                }
            } else {
                InferType::Named(name.clone(), substitute_all(args, samples))
            }
        },
        InferType::Fun(params, ret) => InferType::Fun(
            substitute_all(params, samples),
            Box::new(substitute_named_generics(ret, samples)),
        ),
        InferType::Tuple(items) => InferType::Tuple(substitute_all(items, samples)),
        InferType::Record(fields) => InferType::Record(substitute_fields(fields, samples)),
        InferType::Array(item) => InferType::Array(
            Box::new(substitute_named_generics(item, samples)),
        ),
        InferType::SizedArray(item, n) => InferType::SizedArray(
            Box::new(substitute_named_generics(item, samples)),
            *n,
        ),
        InferType::Reference(inner) => InferType::Reference(
            Box::new(substitute_named_generics(inner, samples)),
        ),
        InferType::MutReference(inner) => InferType::MutReference(
            Box::new(substitute_named_generics(inner, samples)),
        ),
        InferType::Concrete(_) => ty.copy(),
        InferType::Var(_) => ty.copy(),
        InferType::Never => ty.copy(),
    }
}

fn substitute_all(v: &Vec<InferType>, samples: &Vec<(String, InferType)>) -> (r: Vec<InferType>)
    ensures
        infer_types_view(r@) == all_renamed(
            named_infer_types_view(samples@),
            infer_types_view(v@),
        ),
    decreases v@,
{
    let ghost m = named_infer_types_view(samples@);
    let mut out: Vec<InferType> = Vec::new();
    let mut i: usize = 0;
    while i < v.len()
        invariant
            i <= v.len(),
            m == named_infer_types_view(samples@),
            out@.len() == i,
            forall|k: int|
                0 <= k < i ==> infer_type_view(#[trigger] out@[k]) == renamed(
                    m,
                    infer_type_view(v@[k]),
                ),
        decreases v.len() - i,
    {
        out.push(substitute_named_generics(&v[i], samples));
        i += 1;
    }
    assert(infer_types_view(out@) =~= all_renamed(m, infer_types_view(v@)));
    out
}

fn substitute_fields(v: &Vec<(String, InferType)>, samples: &Vec<(String, InferType)>) -> (r: Vec<
    (String, InferType),
>)
    ensures
        named_infer_types_view(r@) == fields_renamed(
            named_infer_types_view(samples@),
            named_infer_types_view(v@),
        ),
    decreases v@,
{
    let ghost m = named_infer_types_view(samples@);
    let mut out: Vec<(String, InferType)> = Vec::new();
    let mut i: usize = 0;
    while i < v.len()
        invariant
            i <= v.len(),
            m == named_infer_types_view(samples@),
            out@.len() == i,
            forall|k: int|
                0 <= k < i ==> (#[trigger] out@[k]).0@ == v@[k].0@ && infer_type_view(out@[k].1)
                    == renamed(m, infer_type_view(v@[k].1)),
        decreases v.len() - i,
    {
        out.push((v[i].0.clone(), substitute_named_generics(&v[i].1, samples)));
        i += 1;
    }
    assert(named_infer_types_view(out@) =~= fields_renamed(m, named_infer_types_view(v@)));
    out
}

/// Where no name stands for anything, no type is changed.
pub proof fn law_renaming_nothing_changes_nothing(t: InferTypeV)
    ensures
        renamed(Seq::empty(), t) == t,
    decreases t,
{
    let m = Seq::<(Seq<char>, InferTypeV)>::empty();
    match t {
        InferTypeV::Named(_, args) => {
            lemma_renaming_nothing_all(args);
        },
        InferTypeV::Fun(params, ret) => {
            lemma_renaming_nothing_all(params);
            law_renaming_nothing_changes_nothing(*ret);
        },
        InferTypeV::Tuple(items) => {
            lemma_renaming_nothing_all(items);
        },
        InferTypeV::Record(fields) => {
            assert forall|i: int| 0 <= i < fields.len() implies renamed(m, (#[trigger] fields[i]).1)
                == fields[i].1 by {
                law_renaming_nothing_changes_nothing(fields[i].1);
            }
            assert(fields_renamed(m, fields) =~= fields);
        },
        InferTypeV::Array(item) => law_renaming_nothing_changes_nothing(*item),
        InferTypeV::SizedArray(item, _) => law_renaming_nothing_changes_nothing(*item),
        InferTypeV::Reference(inner) => law_renaming_nothing_changes_nothing(*inner),
        InferTypeV::MutReference(inner) => law_renaming_nothing_changes_nothing(*inner),
        _ => {},
    }
}

proof fn lemma_renaming_nothing_all(s: Seq<InferTypeV>)
    ensures
        all_renamed(Seq::empty(), s) == s,
    decreases s,
{
    let m = Seq::<(Seq<char>, InferTypeV)>::empty();
    assert forall|i: int| 0 <= i < s.len() implies renamed(m, #[trigger] s[i]) == s[i] by {
        law_renaming_nothing_changes_nothing(s[i]);
    }
    assert(all_renamed(m, s) =~= s);
}

/// The variable that a placeholder name stands for.
pub open spec fn placeholder_var(s: Seq<Placeholder>, name: Seq<char>) -> Option<TypeVar> {
    match first_where(s, |e: Placeholder| e.name@ == name) {
        Some(e) => Some(e.var),
        None => None,
    }
}

/// A resolved type as an inference type in which placeholder names are variables again.
pub open spec fn opened(s: Seq<Placeholder>, t: TypeV) -> InferTypeV
    decreases t,
{
    match t {
        TypeV::Tuple(items) => InferTypeV::Tuple(all_opened(s, items)),
        TypeV::Record(fields) => InferTypeV::Record(fields_opened(s, fields)),
        TypeV::Array(item) => InferTypeV::Array(Box::new(opened(s, *item))),
        TypeV::SizedArray(item, n) => InferTypeV::SizedArray(Box::new(opened(s, *item)), n),
        TypeV::Reference(inner) => InferTypeV::Reference(Box::new(opened(s, *inner))),
        TypeV::MutReference(inner) => InferTypeV::MutReference(Box::new(opened(s, *inner))),
        TypeV::Fun(params, ret) => InferTypeV::Fun(
            all_opened(s, params),
            Box::new(opened(s, *ret)),
        ),
        TypeV::Named(name, args) => if args.len() == 0 && placeholder_var(s, name) is Some {
            InferTypeV::Var(placeholder_var(s, name)->0)
        } else {
            InferTypeV::Named(name, all_opened(s, args))
        },
        _ => lifted(t),
    }
}

/// [`opened`] on every type of a sequence.
pub open spec fn all_opened(p: Seq<Placeholder>, s: Seq<TypeV>) -> Seq<InferTypeV>
    decreases s,
{
    Seq::new(s.len(), |i: int| if 0 <= i < s.len() { opened(p, s[i]) } else { arbitrary() })
}

/// [`opened`] on the type of every field.
pub open spec fn fields_opened(p: Seq<Placeholder>, s: Seq<(Seq<char>, TypeV)>) -> Seq<
    (Seq<char>, InferTypeV),
>
    decreases s,
{
    Seq::new(
        s.len(),
        |i: int| if 0 <= i < s.len() { (s[i].0, opened(p, s[i].1)) } else { arbitrary() },
    )
}

fn find_placeholder(placeholders: &Vec<Placeholder>, name: &str) -> (r: Option<TypeVar>)
    ensures
        r == placeholder_var(placeholders@, name@),
{
    let ghost p = |e: Placeholder| e.name@ == name@;
    assert(placeholders@.skip(0) =~= placeholders@);
    let mut i: usize = 0;
    while i < placeholders.len()
        invariant
            i <= placeholders@.len(),
            p == (|e: Placeholder| e.name@ == name@),
            first_where(placeholders@, p) == first_where(placeholders@.skip(i as int), p),
        decreases placeholders@.len() - i,
    {
        proof {
            lemma_first_where_skip(placeholders@, p, i as int);
        }
        if same_text(placeholders[i].name.as_str(), name) {
            return Some(placeholders[i].var);
        }
        i += 1;
    }
    None
}

/// A resolved type as an inference type in which placeholder names are variables again.
pub fn type_to_infer_under_generic_env(ty: &Type, placeholders: &Vec<Placeholder>) -> (r: InferType)
    ensures
        r@ == opened(placeholders@, ty@),
    decreases *ty,
{
    match ty {
        Type::Tuple(items) => InferType::Tuple(types_under_env(items, placeholders)),
        Type::Record(fields) => InferType::Record(fields_under_env(fields, placeholders)),
        Type::Array(inner) => InferType::Array(
            Box::new(type_to_infer_under_generic_env(inner, placeholders)),
        ),
        Type::SizedArray(inner, n) => InferType::SizedArray(
            Box::new(type_to_infer_under_generic_env(inner, placeholders)),
            *n,
        ),
        Type::Reference(inner) => InferType::Reference(
            Box::new(type_to_infer_under_generic_env(inner, placeholders)),
        ),
        Type::MutReference(inner) => InferType::MutReference(
            Box::new(type_to_infer_under_generic_env(inner, placeholders)),
        ),
        Type::Fun(params, ret) => InferType::Fun(
            types_under_env(params, placeholders),
            Box::new(type_to_infer_under_generic_env(ret, placeholders)),
        ),
        Type::Named(name, args) => {
            assert(types_view(args@).len() == args@.len());
            if args.len() == 0 {
                if let Some(var) = find_placeholder(placeholders, name.as_str()) {
                    return InferType::Var(var);
                }
            }
            InferType::Named(name.clone(), types_under_env(args, placeholders))
        },
        _ => type_to_infer(ty),
    }
}

fn types_under_env(v: &Vec<Type>, placeholders: &Vec<Placeholder>) -> (r: Vec<InferType>)
    ensures
        infer_types_view(r@) == all_opened(placeholders@, types_view(v@)),
    decreases v@,
{
    let mut out: Vec<InferType> = Vec::new();
    let mut i: usize = 0;
    while i < v.len()
        invariant
            i <= v.len(),
            out@.len() == i,
            forall|k: int|
                0 <= k < i ==> infer_type_view(#[trigger] out@[k]) == opened(
                    placeholders@,
                    type_view(v@[k]),
                ),
        decreases v.len() - i,
    {
        out.push(type_to_infer_under_generic_env(&v[i], placeholders));
        i += 1;
    }
    assert(infer_types_view(out@) =~= all_opened(placeholders@, types_view(v@)));
    out
}

fn fields_under_env(v: &Vec<(String, Type)>, placeholders: &Vec<Placeholder>) -> (r: Vec<
    (String, InferType),
>)
    ensures
        named_infer_types_view(r@) == fields_opened(placeholders@, named_types_view(v@)),
    decreases v@,
{
    let mut out: Vec<(String, InferType)> = Vec::new();
    let mut i: usize = 0;
    while i < v.len()
        invariant
            i <= v.len(),
            out@.len() == i,
            forall|k: int|
                0 <= k < i ==> (#[trigger] out@[k]).0@ == v@[k].0@ && infer_type_view(out@[k].1)
                    == opened(placeholders@, type_view(v@[k].1)),
        decreases v.len() - i,
    {
        out.push((v[i].0.clone(), type_to_infer_under_generic_env(&v[i].1, placeholders)));
        i += 1;
    }
    assert(named_infer_types_view(out@) =~= fields_opened(placeholders@, named_types_view(v@)));
    out
}

/// The parameter types of a method without its receiver, where all of them are resolved.
pub open spec fn arg_types(fun_ty: InferTypeV) -> Option<Seq<TypeV>> {
    match fun_ty {
        InferTypeV::Fun(params, _) => {
            let rest = if params.len() == 0 {
                params
            } else {
                params.skip(1)
            };
            if all_resolved(rest) {
                Some(lowered_all(rest))
            } else {
                None
            }
        },
        _ => None,
    }
}

/// The view of an optional list of types.
pub open spec fn opt_types(v: Option<Vec<Type>>) -> Option<Seq<TypeV>> {
    match v {
        Some(x) => Some(types_view(x@)),
        None => None,
    }
}

/// The declared parameter types of a method, excluding the receiver.
///
/// Returns `None` if any parameter cannot be resolved, rather than omitting it. The result is
/// consumed by position, so dropping one parameter would judge every later argument against the
/// wrong type, and that judgement is borrow against move. A short list is worse than no list:
/// without one every argument is consumed, which can only report more moves, never miss one.
pub fn infer_method_arg_types(fun_ty: &InferType) -> (r: Option<Vec<Type>>)
    ensures
        opt_types(r) == arg_types(fun_ty@),
{
    match fun_ty {
        InferType::Fun(params, _) => {
            let ghost views = infer_types_view(params@);
            assert(views.len() == params@.len());
            let ghost rest = if views.len() == 0 {
                views
            } else {
                views.skip(1)
            };
            let mut out: Vec<Type> = Vec::new();
            let mut i: usize = 1;
            while i < params.len()
                invariant
                    1 <= i,
                    params@.len() > 0 ==> i <= params@.len(),
                    params@.len() == 0 ==> i == 1,
                    views == infer_types_view(params@),
                    views.len() == params@.len(),
                    rest == (if views.len() == 0 {
                        views
                    } else {
                        views.skip(1)
                    }),
                    fun_ty matches InferType::Fun(own, _) && own == params,
                    out@.len() == i - 1,
                    forall|k: int|
                        0 <= k < i - 1 ==> resolved(#[trigger] rest[k]) && type_view(out@[k])
                            == lowered(rest[k]),
                decreases params@.len() - i,
            {
                assert(rest[i - 1] == views[i as int]);
                assert(views[i as int] == infer_type_view(params@[i as int]));
                match infer_to_type(&params[i]) {
                    Some(t) => {
                        out.push(t);
                    },
                    None => {
                        assert(!resolved(rest[i - 1]));
                        assert(!all_resolved(rest));
                        assert(fun_ty@ matches InferTypeV::Fun(ps, _) && ps == views);
                        return None;
                    },
                }
                i += 1;
            }
            assert(all_resolved(rest));
            assert(types_view(out@) =~= lowered_all(rest));
            Some(out)
        },
        _ => None,
    }
}

/// The aspects a symbolic type is assumed to satisfy.
pub open spec fn symbolic_of(env: GenericMoveEnv, name: Seq<char>) -> Option<SymbolicAspects> {
    first_where(env.symbolic_aspects@, |e: SymbolicAspects| e.name@ == name)
}

/// The entry of a symbolic type, if there is one.
pub fn find_symbolic<'a>(env: &'a GenericMoveEnv, name: &str) -> (r: Option<&'a SymbolicAspects>)
    ensures
        match r {
            Some(e) => symbolic_of(*env, name@) == Some(*e),
            None => symbolic_of(*env, name@) is None,
        },
{
    let ghost p = |e: SymbolicAspects| e.name@ == name@;
    assert(env.symbolic_aspects@.skip(0) =~= env.symbolic_aspects@);
    let mut i: usize = 0;
    while i < env.symbolic_aspects.len()
        invariant
            i <= env.symbolic_aspects@.len(),
            p == (|e: SymbolicAspects| e.name@ == name@),
            first_where(env.symbolic_aspects@, p) == first_where(
                env.symbolic_aspects@.skip(i as int),
                p,
            ),
        decreases env.symbolic_aspects@.len() - i,
    {
        proof {
            lemma_first_where_skip(env.symbolic_aspects@, p, i as int);
        }
        if same_text(env.symbolic_aspects[i].name.as_str(), name) {
            return Some(&env.symbolic_aspects[i]);
        }
        i += 1;
    }
    None
}

/// The method that an aspect declares under a name, if both exist.
pub open spec fn method_in_aspect(
    reg: TypeDefinitionRegistry,
    aspect: Seq<char>,
    method: Seq<char>,
) -> Option<AspectMethod> {
    match aspect_of(reg, aspect) {
        Some(info) => aspect_method_named(info, method),
        None => None,
    }
}

/// The positions of the aspects that declare a method under the name.
pub open spec fn offers(
    reg: TypeDefinitionRegistry,
    aspects: Seq<String>,
    method: Seq<char>,
) -> Seq<int>
    decreases aspects.len(),
{
    if aspects.len() == 0 {
        Seq::empty()
    } else {
        let rest = offers(reg, aspects.drop_last(), method);
        if method_in_aspect(reg, aspects.last()@, method) is Some {
            rest.push(aspects.len() - 1)
        } else {
            rest
        }
    }
}

/// The aspect and the method that a call on a symbolic type means: there is one where exactly one
/// of the assumed aspects declares the method.
pub open spec fn symbolic_method(
    reg: TypeDefinitionRegistry,
    env: GenericMoveEnv,
    placeholder: Seq<char>,
    method: Seq<char>,
) -> Option<(AspectInfo, AspectMethod)> {
    match symbolic_of(env, placeholder) {
        Some(e) => {
            let hits = offers(reg, e.aspects@, method);
            if hits.len() == 1 {
                let aspect = e.aspects@[hits[0]]@;
                Some((aspect_of(reg, aspect)->0, method_in_aspect(reg, aspect, method)->0))
            } else {
                None
            }
        },
        None => None,
    }
}

pub fn find_aspect_method<'a>(aspect: &'a AspectInfo, method: &str) -> (r: Option<&'a AspectMethod>)
    ensures
        match r {
            Some(m) => aspect_method_named(*aspect, method@) == Some(*m),
            None => aspect_method_named(*aspect, method@) is None,
        },
{
    let ghost p = |m: AspectMethod| m.name@ == method@;
    assert(aspect.methods@.skip(0) =~= aspect.methods@);
    let mut i: usize = 0;
    while i < aspect.methods.len()
        invariant
            i <= aspect.methods@.len(),
            p == (|m: AspectMethod| m.name@ == method@),
            first_where(aspect.methods@, p) == first_where(aspect.methods@.skip(i as int), p),
        decreases aspect.methods@.len() - i,
    {
        proof {
            lemma_first_where_skip(aspect.methods@, p, i as int);
        }
        if same_text(aspect.methods[i].name.as_str(), method) {
            return Some(&aspect.methods[i]);
        }
        i += 1;
    }
    None
}

/// The aspect and the method that a call on a symbolic type means.
pub fn find_symbolic_method<'a>(
    registry: &'a TypeDefinitionRegistry,
    env: &GenericMoveEnv,
    placeholder: &str,
    method: &str,
) -> (r: Option<(&'a AspectInfo, &'a AspectMethod)>)
    ensures
        match r {
            Some(hit) => symbolic_method(*registry, *env, placeholder@, method@) == Some(
                (*hit.0, *hit.1),
            ),
            None => symbolic_method(*registry, *env, placeholder@, method@) is None,
        },
{
    let entry: &SymbolicAspects = match find_symbolic(env, placeholder) {
        Some(e) => e,
        None => {
            return None;
        },
    };
    let mut found: Option<(&'a AspectInfo, &'a AspectMethod)> = None;
    let mut i: usize = 0;
    while i < entry.aspects.len()
        invariant
            symbolic_of(*env, placeholder@) == Some(*entry),
            i <= entry.aspects@.len(),
            match found {
                Some(hit) => {
                    let hits = offers(*registry, entry.aspects@.take(i as int), method@);
                    &&& hits.len() == 1
                    &&& 0 <= hits[0] < i
                    &&& aspect_of(*registry, entry.aspects@[hits[0]]@) == Some(*hit.0)
                    &&& method_in_aspect(*registry, entry.aspects@[hits[0]]@, method@) == Some(
                        *hit.1,
                    )
                },
                None => offers(*registry, entry.aspects@.take(i as int), method@).len() == 0,
            },
        decreases entry.aspects@.len() - i,
    {
        let ghost after = entry.aspects@.take(i + 1);
        assert(after.drop_last() =~= entry.aspects@.take(i as int));
        assert(after.last() == entry.aspects@[i as int]);
        if let Some(info) = registry.aspect_info(entry.aspects[i].as_str()) {
            if let Some(m) = find_aspect_method(info, method) {
                if found.is_some() {
                    proof {
                        lemma_offers_grow(*registry, entry.aspects@, i + 1, method@);
                    }
                    return None;
                }
                found = Some((info, m));
            }
        }
        i += 1;
    }
    assert(entry.aspects@.take(i as int) =~= entry.aspects@);
    found
}

proof fn lemma_offers_grow(
    reg: TypeDefinitionRegistry,
    aspects: Seq<String>,
    n: int,
    method: Seq<char>,
)
    requires
        0 <= n <= aspects.len(),
    ensures
        offers(reg, aspects.take(n), method).len() <= offers(reg, aspects, method).len(),
    decreases aspects.len() - n,
{
    if n < aspects.len() {
        assert(aspects.take(n + 1).drop_last() =~= aspects.take(n));
        lemma_offers_grow(reg, aspects, n + 1, method);
    } else {
        assert(aspects.take(n) =~= aspects);
    }
}

/// The names of a method's own type parameters, each standing for a type of its own.
pub open spec fn method_generics(generics: Seq<GenericParam>) -> Seq<(Seq<char>, InferTypeV)> {
    Seq::new(
        generics.len(),
        |i: int|
            (
                generics[i].name@,
                InferTypeV::Named(
                    "__metel_move_check_method_generic_"@ + generics[i].name@,
                    Seq::empty(),
                ),
            ),
    )
}

/// Whether a parameter is the receiver of its method.
pub open spec fn is_receiver(p: Param) -> bool {
    p.receiver is Some || p.name@ == "self"@
}

/// The scope in which the types of a symbolic method are read.
pub open spec fn symbolic_scope(
    aspect: AspectInfo,
    method: AspectMethod,
    placeholder: Seq<char>,
) -> TypeScopeV {
    TypeScopeV {
        generics: method_generics(method.generics@),
        self_name: Some(placeholder),
        aspect: Some(aspect),
    }
}

/// The type of a parameter of a symbolic method.
pub open spec fn symbolic_param(scope: TypeScopeV, placeholder: Seq<char>, p: Param) -> Option<
    InferTypeV,
> {
    if is_receiver(p) {
        Some(InferTypeV::Named(placeholder, Seq::empty()))
    } else {
        match p.type_ann {
            Some(ann) => Some(denoted(scope, ann@)),
            None => None,
        }
    }
}

/// The parameter types of a method of a symbolic type, excluding the receiver.
pub open spec fn symbolic_arg_types(
    aspect: AspectInfo,
    method: AspectMethod,
    placeholder: Seq<char>,
) -> Option<Seq<TypeV>> {
    let scope = symbolic_scope(aspect, method, placeholder);
    let params = method.params@;
    if exists|i: int|
        0 <= i < params.len() && symbolic_param(scope, placeholder, #[trigger] params[i]) is None {
        None
    } else {
        let all = Seq::new(
            params.len(),
            |i: int| symbolic_param(scope, placeholder, params[i])->0,
        );
        let rest = if all.len() == 0 {
            all
        } else {
            all.skip(1)
        };
        if all_resolved(rest) {
            Some(lowered_all(rest))
        } else {
            None
        }
    }
}

/// The parameter types of a method of a symbolic type, excluding the receiver.
pub fn symbolic_method_arg_types(
    aspect: &AspectInfo,
    method: &AspectMethod,
    placeholder: &str,
) -> (r: Option<Vec<Type>>)
    ensures
        opt_types(r) == symbolic_arg_types(*aspect, *method, placeholder@),
{
    let mut generics: Vec<(String, InferType)> = Vec::new();
    let mut g: usize = 0;
    while g < method.generics.len()
        invariant
            g <= method.generics@.len(),
            generics@.len() == g,
            forall|k: int|
                0 <= k < g ==> (#[trigger] generics@[k]).0@ == method.generics@[k].name@
                    && infer_type_view(generics@[k].1) == InferTypeV::Named(
                    "__metel_move_check_method_generic_"@ + method.generics@[k].name@,
                    Seq::empty(),
                ),
        decreases method.generics@.len() - g,
    {
        let name: String = method.generics[g].name.clone();
        let stand_in: String = joined("__metel_move_check_method_generic_", name.as_str());
        let none: Vec<InferType> = Vec::new();
        assert(infer_types_view(none@) =~= Seq::empty());
        generics.push((name, InferType::Named(stand_in, none)));
        g += 1;
    }
    assert(named_infer_types_view(generics@) =~= method_generics(method.generics@));
    let scope = TypeScope { generics: &generics, self_name: Some(placeholder), aspect: Some(aspect) };
    let ghost sc = symbolic_scope(*aspect, *method, placeholder@);
    assert(scope@ == sc);
    let ghost all = Seq::new(
        method.params@.len(),
        |i: int| symbolic_param(sc, placeholder@, method.params@[i])->0,
    );
    let mut params: Vec<InferType> = Vec::new();
    let mut i: usize = 0;
    while i < method.params.len()
        invariant
            scope@ == sc,
            sc == symbolic_scope(*aspect, *method, placeholder@),
            all == Seq::new(
                method.params@.len(),
                |i: int| symbolic_param(sc, placeholder@, method.params@[i])->0,
            ),
            i <= method.params@.len(),
            params@.len() == i,
            forall|k: int|
                0 <= k < i ==> symbolic_param(sc, placeholder@, #[trigger] method.params@[k]) is Some
                    && infer_type_view(params@[k]) == all[k],
        decreases method.params@.len() - i,
    {
        let param: &Param = &method.params[i];
        if param.receiver.is_some() || same_text(param.name.as_str(), "self") {
            let none: Vec<InferType> = Vec::new();
            assert(infer_types_view(none@) =~= Seq::empty());
            params.push(InferType::Named(placeholder.to_owned(), none));
        } else {
            match &param.type_ann {
                Some(ann) => {
                    params.push(type_expr_to_infer(ann, &scope));
                },
                None => {
                    assert(symbolic_param(sc, placeholder@, method.params@[i as int]) is None);
                    return None;
                },
            }
        }
        i += 1;
    }
    assert(infer_types_view(params@) =~= all);
    let fun_ty = InferType::Fun(params, Box::new(InferType::Concrete(Type::Unit)));
    let r: Option<Vec<Type>> = infer_method_arg_types(&fun_ty);
    assert(fun_ty@ matches InferTypeV::Fun(ps, _) && ps == all);
    r
}

} // verus!
