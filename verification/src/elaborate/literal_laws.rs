//! The type arguments of literals.
use vstd::prelude::*;
use crate::error::{MetelErrorV, TypeErrorCode};
use crate::infer::{law_lowering_undoes_lifting, lifted, lifted_all, lifted_fields, substituted};
use crate::infer::{substituted_all, substituted_fields, InferTypeV, TypeVar};
use crate::lookup::{enum_of, type_params_of, variant_of};
use crate::registry::{EnumInfo, FieldEntry, StructInfo, VariantInfo};
use crate::scheme::GenericBound;
use crate::span::SpanV;
use crate::types::TypeV;
use super::bounds::{asked_error, Site};
use super::fields::generic_struct;
use super::literals::{arg_error, args_error, enum_literal_type, given_vars, literal_args};
use super::literals::{named_args, own_vars, param_args, record_kinds_of, side_error, site};
use super::literals::{struct_literal_type, variant_args, variant_solution};
use super::schemes::kind_at;
use super::state::Facts;
use super::tree::{tree_ty, ExprT};

verus! {

/// A type without variables stays what it is, whatever variables stand for.
pub proof fn law_types_without_variables_stay(m: Map<TypeVar, InferTypeV>, t: TypeV)
    ensures
        substituted(m, lifted(t)) == lifted(t),
    decreases t,
{
    match t {
        TypeV::Tuple(items) => lemma_all_stay(m, items),
        TypeV::Record(fields) => {
            let l = lifted_fields(fields);
            assert forall|i: int| 0 <= i < fields.len() implies substituted(m, lifted(fields[i].1))
                == lifted((#[trigger] fields[i]).1) by {
                law_types_without_variables_stay(m, fields[i].1);
            }
            assert(substituted_fields(m, l) =~= l);
        },
        TypeV::Array(item) => law_types_without_variables_stay(m, *item),
        TypeV::SizedArray(item, _) => law_types_without_variables_stay(m, *item),
        TypeV::Reference(inner) => law_types_without_variables_stay(m, *inner),
        TypeV::MutReference(inner) => law_types_without_variables_stay(m, *inner),
        TypeV::Fun(params, ret) => {
            lemma_all_stay(m, params);
            law_types_without_variables_stay(m, *ret);
        },
        TypeV::Named(_, args) => lemma_all_stay(m, args),
        _ => {},
    }
}

proof fn lemma_all_stay(m: Map<TypeVar, InferTypeV>, s: Seq<TypeV>)
    ensures
        substituted_all(m, lifted_all(s)) == lifted_all(s),
    decreases s,
{
    assert forall|i: int| 0 <= i < s.len() implies substituted(m, lifted(#[trigger] s[i])) == lifted(
        s[i],
    ) by {
        law_types_without_variables_stay(m, s[i]);
    }
    assert(substituted_all(m, lifted_all(s)) =~= lifted_all(s));
}

/// Type parameters go with type arguments by position.
pub proof fn law_parameters_go_with_arguments_by_position(
    names: Seq<Seq<char>>,
    types: Seq<TypeV>,
    n: int,
)
    requires
        0 <= n <= names.len(),
        n <= types.len(),
    ensures
        named_args(names, types, n).len() == n,
        forall|i: int|
            0 <= i < n ==> #[trigger] named_args(names, types, n)[i] == (names[i], lifted(types[i])),
    decreases n,
{
    if n > 0 {
        law_parameters_go_with_arguments_by_position(names, types, n - 1);
    }
}

proof fn lemma_args(
    site: Site,
    owner: Seq<char>,
    bounds: Seq<Vec<GenericBound>>,
    kinds: Seq<bool>,
    types: Seq<TypeV>,
    generics: Seq<(Seq<char>, InferTypeV)>,
    negative: bool,
    n: int,
)
    requires
        0 <= n <= bounds.len(),
    ensures
        arg_error(site, owner, bounds, kinds, types, generics, negative, n) is None <==> forall|i: int|
            0 <= i < n && i < types.len() ==> asked_error(
                site,
                types[i],
                (#[trigger] bounds[i])@,
                i < kinds.len() && kinds[i],
                owner,
                generics,
                negative,
            ) is None,
    decreases n,
{
    if n > 0 {
        lemma_args(site, owner, bounds, kinds, types, generics, negative, n - 1);
        let last = bounds[n - 1];
        assert(kind_at(kinds, n - 1) == (n - 1 < kinds.len() && kinds[n - 1]));
    }
}

/// The type arguments of a type meet its bounds just if each meets those at its position, what is
/// asked for and what is ruled out.
pub proof fn law_type_arguments_meet_bounds_by_position(site: Site, owner: Seq<char>, types: Seq<TypeV>)
    ensures
        args_error(site, owner, types) is None <==> (type_params_of(site.reg, owner) matches Some(info)
            ==> {
            let kinds = record_kinds_of(info);
            let generics = param_args(Some(info), types);
            &&& (info.bounds matches Some(b) ==> forall|i: int|
                0 <= i < b@.len() && i < types.len() ==> asked_error(
                    site,
                    types[i],
                    (#[trigger] b@[i])@,
                    i < kinds.len() && kinds[i],
                    owner,
                    generics,
                    false,
                ) is None)
            &&& (info.neg_bounds matches Some(b) ==> forall|i: int|
                0 <= i < b@.len() && i < types.len() ==> asked_error(
                    site,
                    types[i],
                    (#[trigger] b@[i])@,
                    i < kinds.len() && kinds[i],
                    owner,
                    generics,
                    true,
                ) is None)
        }),
{
    if let Some(info) = type_params_of(site.reg, owner) {
        let kinds = record_kinds_of(info);
        let generics = param_args(Some(info), types);
        if let Some(b) = info.bounds {
            lemma_args(site, owner, b@, kinds, types, generics, false, b@.len() as int);
        }
        if let Some(b) = info.neg_bounds {
            lemma_args(site, owner, b@, kinds, types, generics, true, b@.len() as int);
        }
        assert(args_error(site, owner, types) is None <==> side_error(
            site,
            owner,
            info,
            types,
            false,
        ) is None && side_error(site, owner, info, types, true) is None);
    }
}

/// An enum literal is of the enum that it names, with as many type arguments as the enum has
/// parameters, all of them within its bounds. An unknown enum and an unknown variant are refused.
pub proof fn law_enum_literals_are_of_their_enum(
    fx: Facts,
    name: Seq<char>,
    variant: Seq<char>,
    fields: Seq<(Seq<char>, ExprT)>,
    hint: Option<TypeV>,
    span: SpanV,
    next: u32,
)
    ensures
        enum_literal_type(fx, name, variant, fields, hint, span, next).0 matches Ok(t) ==> (
        t matches TypeV::Named(n, args) && n == name && args_error(site(fx, span), name, args) is None
            && (enum_of(*fx.registry, name) matches Some(info) && args.len() == info.type_params@.len()
            && variant_of(info, variant) is Some)),
        enum_of(*fx.registry, name) is None || variant_of(
            enum_of(*fx.registry, name)->0,
            variant,
        ) is None ==> (enum_literal_type(fx, name, variant, fields, hint, span, next).0 matches Err(e) && (
        e matches MetelErrorV::TypeError { code, .. } && code == TypeErrorCode::T0003)),
{
    if let Some(info) = enum_of(*fx.registry, name) {
        if let Some(v) = variant_of(info, variant) {
            let len = info.type_params@.len() as int;
            let ren = crate::scheme::renaming(info.type_params@, next, len);
            let m = variant_solution(v, ren, fields, fields.len() as int);
            lemma_variant_len(
                m,
                next,
                super::literals::expected_args(hint, name),
                span,
                len,
            );
        }
    }
}

proof fn lemma_variant_len(
    m: Map<TypeVar, InferTypeV>,
    next: u32,
    expected: Seq<TypeV>,
    span: SpanV,
    n: int,
)
    requires
        0 <= n,
    ensures
        variant_args(m, next, expected, span, n) matches Ok(args) ==> args.len() == n,
    decreases n,
{
    if n > 0 {
        lemma_variant_len(m, next, expected, span, n - 1);
    }
}

/// A variant without fields is of the type that is expected where it stands, by position; where
/// nothing is expected, it needs an annotation.
pub proof fn law_bare_variants_are_of_the_expected_type(
    fx: Facts,
    name: Seq<char>,
    variant: Seq<char>,
    info: EnumInfo,
    v: VariantInfo,
    args: Seq<TypeV>,
    span: SpanV,
    next: u32,
)
    requires
        enum_of(*fx.registry, name) == Some(info),
        variant_of(info, variant) == Some(v),
        args.len() == info.type_params@.len(),
        args_error(site(fx, span), name, args) is None,
    ensures
        enum_literal_type(
            fx,
            name,
            variant,
            Seq::empty(),
            Some(TypeV::Named(name, args)),
            span,
            next,
        ).0 == Ok::<TypeV, MetelErrorV>(TypeV::Named(name, args)),
        args.len() > 0 ==> enum_literal_type(
            fx,
            name,
            variant,
            Seq::empty(),
            None,
            span,
            next,
        ).0 is Err,
{
    let none = Map::<TypeVar, InferTypeV>::empty();
    lemma_expected(none, next, args, span, args.len() as int);
    lemma_unexpected(none, next, span, args.len() as int);
    assert(args.take(args.len() as int) =~= args);
}

proof fn lemma_expected(
    m: Map<TypeVar, InferTypeV>,
    next: u32,
    expected: Seq<TypeV>,
    span: SpanV,
    n: int,
)
    requires
        m == Map::<TypeVar, InferTypeV>::empty(),
        0 <= n <= expected.len(),
    ensures
        variant_args(m, next, expected, span, n) == Ok::<Seq<TypeV>, MetelErrorV>(expected.take(n)),
    decreases n,
{
    if n > 0 {
        lemma_expected(m, next, expected, span, n - 1);
        assert(expected.take(n) =~= expected.take(n - 1).push(expected[n - 1]));
    } else {
        assert(expected.take(0) =~= Seq::empty());
    }
}

proof fn lemma_unexpected(m: Map<TypeVar, InferTypeV>, next: u32, span: SpanV, n: int)
    requires
        m == Map::<TypeVar, InferTypeV>::empty(),
        0 <= n,
    ensures
        n > 0 ==> variant_args(m, next, Seq::empty(), span, n) is Err,
    decreases n,
{
    if n > 0 {
        lemma_unexpected(m, next, span, n - 1);
    }
}

proof fn lemma_literal_args(
    fx: Facts,
    params: Seq<TypeVar>,
    m: Map<TypeVar, InferTypeV>,
    span: SpanV,
    n: int,
    i: int,
    t: TypeV,
)
    requires
        0 <= i < n <= params.len(),
        m.dom().contains(params[i]),
        m[params[i]] == lifted(t),
    ensures
        literal_args(fx, params, m, span, n) matches Ok(args) ==> args.len() == n && args[i] == t,
    decreases n,
{
    lemma_literal_len(fx, params, m, span, n - 1);
    if i < n - 1 {
        lemma_literal_args(fx, params, m, span, n - 1, i, t);
    } else {
        law_types_without_variables_stay(fx.subst@, t);
        law_lowering_undoes_lifting(t);
        assert(substituted(m, InferTypeV::Var(params[i])) == lifted(t));
    }
}

proof fn lemma_literal_len(
    fx: Facts,
    params: Seq<TypeVar>,
    m: Map<TypeVar, InferTypeV>,
    span: SpanV,
    n: int,
)
    requires
        0 <= n <= params.len(),
    ensures
        literal_args(fx, params, m, span, n) matches Ok(args) ==> args.len() == n,
    decreases n,
{
    if n > 0 {
        lemma_literal_len(fx, params, m, span, n - 1);
    }
}

/// A field whose type is a type parameter decides the type argument at the position of that
/// parameter: it is the type of the value, unless a later field decides it too.
pub proof fn law_fields_decide_type_arguments(
    fx: Facts,
    name: Seq<char>,
    params: Seq<TypeVar>,
    info: StructInfo,
    fields: Seq<(Seq<char>, ExprT)>,
    entry: FieldEntry,
    i: int,
    span: SpanV,
)
    requires
        generic_struct(fx, name) == Some((params, info)),
        0 <= i < params.len(),
        fields.len() > 0,
        crate::lookup::field_named(info.fields@, fields.last().0) == Some(entry),
        entry.ty@ == InferTypeV::Var(params[i]),
    ensures
        struct_literal_type(fx, name, fields, span) matches Ok(t) ==> (t matches TypeV::Named(n, args)
            && n == name && args.len() == params.len() && args[i] == tree_ty(fields.last().1)),
{
    let own = own_vars(params, params.len() as int);
    let n = fields.len() as int;
    let m = given_vars(params, info.fields@, fields, own, n);
    assert(params.contains(params[i]));
    assert(m == given_vars(params, info.fields@, fields, own, n - 1).insert(
        params[i],
        lifted(tree_ty(fields[n - 1].1)),
    ));
    lemma_literal_args(fx, params, m, span, params.len() as int, i, tree_ty(fields.last().1));
}

} // verus!
