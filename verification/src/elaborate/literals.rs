//! The types of struct and enum literals, of names and paths, and of what signatures declare.
use vstd::prelude::*;
use crate::ast::{Param, TypeExpr};
use crate::conversions::{denoted, primitive_named, primitive_type_from_name, type_expr_to_infer};
use crate::conversions::{TypeScope, TypeScopeV};
use crate::error::{opt_error, type_failure, MetelError, MetelErrorV, TypeErrorCode};
use crate::infer::{infer_to_type, infer_type_view, infer_types_view, lifted, lowered};
use crate::infer::{named_infer_types_view, resolved, substituted, type_to_infer, InferType};
use crate::infer::{InferTypeV, Substitution, TypeVar};
use crate::lookup::{enum_of, field_named, find_field, find_variant, known_schemes_of};
use crate::lookup::{type_params_of, variant_exists, variant_of};
use crate::registry::{EnumInfo, FieldEntry, TypeParamInfo, VariantInfo};
use crate::scheme::{after_fresh, fresh_var, infer_type_to_type, lower, renaming, solve, unify};
use crate::scheme::{GenericBound, TypeScheme, TypeVarGenerator};
use crate::span::{Span, SpanV};
use crate::text::{joined3, joined5, join_spec, join_texts, same_text, texts};
use crate::typed_ast::{ty_of, TypedExpr};
use crate::types::{copy_types, peel_type_references, peeled, type_view};
use crate::types::{types_view, Type, TypeV};
use super::bounds::{asked_error, check_asked, Site};
use super::fields::{fault, generic_struct};
use super::rules::{resolve_unqualified_variant_expr, variant_expr};
use super::schemes::{bind_vars, bound_vars, call_instance, check_choices, choice_error};
use super::schemes::{instantiate_scheme_for_call, kind_at, shorter};
use super::state::{ann_infer, ann_type, closure_return_in, concrete_method, fields_of, hint_view};
use super::state::{opt_ann_type, opt_type, scheme_in, type_symbol, var_of, Elaborator, Facts};
use super::state::StateV;
use super::tree::{expr_result, expr_tree, field_trees, lemma_tree_ty, tree_ty, type_result};
use super::tree::{types_result, ExprT};

verus! {

/// Where a rule is applied.
pub open spec fn site(fx: Facts, span: SpanV) -> Site {
    Site { reg: *fx.registry, extra: fx.extra.impls@, module: texts(fx.module@), span }
}

/// The names of type parameters with the types that stand for them, the first `n` of them.
pub open spec fn named_args(names: Seq<Seq<char>>, types: Seq<TypeV>, n: int) -> Seq<
    (Seq<char>, InferTypeV),
>
    decreases n,
{
    if n <= 0 || n > names.len() || n > types.len() {
        Seq::empty()
    } else {
        named_args(names, types, n - 1).push((names[n - 1], lifted(types[n - 1])))
    }
}

/// The names of the type parameters of a declaration with the types that stand for them.
pub open spec fn param_args(info: Option<TypeParamInfo>, types: Seq<TypeV>) -> Seq<
    (Seq<char>, InferTypeV),
> {
    match info {
        Some(info) => {
            let names = texts(info.names@);
            named_args(names, types, shorter(names.len(), types.len()))
        },
        None => Seq::empty(),
    }
}

/// What the first `n` bounds of a declaration find wrong with its type arguments.
pub open spec fn arg_error(
    site: Site,
    owner: Seq<char>,
    bounds: Seq<Vec<GenericBound>>,
    kinds: Seq<bool>,
    types: Seq<TypeV>,
    generics: Seq<(Seq<char>, InferTypeV)>,
    negative: bool,
    n: int,
) -> Option<MetelErrorV>
    decreases n,
{
    if n <= 0 || n > bounds.len() {
        None
    } else {
        match arg_error(site, owner, bounds, kinds, types, generics, negative, n - 1) {
            Some(e) => Some(e),
            None => {
                let asked = bounds[n - 1]@;
                let kind = kind_at(kinds, n - 1);
                if (asked.len() == 0 && !kind) || n > types.len() {
                    None
                } else {
                    asked_error(site, types[n - 1], asked, kind, owner, generics, negative)
                }
            },
        }
    }
}

/// Which type parameters of a declaration stand for records.
pub open spec fn record_kinds_of(info: TypeParamInfo) -> Seq<bool> {
    match info.record_kinds {
        Some(kinds) => kinds@,
        None => Seq::empty(),
    }
}

/// What the bounds of one polarity find wrong with type arguments.
pub open spec fn side_error(
    site: Site,
    owner: Seq<char>,
    info: TypeParamInfo,
    types: Seq<TypeV>,
    negative: bool,
) -> Option<MetelErrorV> {
    let asked = if negative {
        info.neg_bounds
    } else {
        info.bounds
    };
    match asked {
        Some(bounds) => arg_error(
            site,
            owner,
            bounds@,
            record_kinds_of(info),
            types,
            param_args(Some(info), types),
            negative,
            bounds@.len() as int,
        ),
        None => None,
    }
}

/// What a declaration finds wrong with its type arguments.
pub open spec fn args_error(site: Site, owner: Seq<char>, types: Seq<TypeV>) -> Option<MetelErrorV> {
    match type_params_of(site.reg, owner) {
        Some(info) => match side_error(site, owner, info, types, false) {
            Some(e) => Some(e),
            None => side_error(site, owner, info, types, true),
        },
        None => None,
    }
}

fn name_args(names: &Vec<String>, types: &Vec<Type>) -> (r: Vec<(String, InferType)>)
    ensures
        named_infer_types_view(r@) == named_args(
            texts(names@),
            types_view(types@),
            shorter(texts(names@).len(), types_view(types@).len()),
        ),
{
    let ghost ns = texts(names@);
    let ghost ts = types_view(types@);
    assert(ns.len() == names@.len());
    assert(ts.len() == types@.len());
    let mut out: Vec<(String, InferType)> = Vec::new();
    assert(named_infer_types_view(out@) =~= Seq::empty());
    let mut i: usize = 0;
    while i < names.len() && i < types.len()
        invariant
            i <= names@.len(),
            i <= types@.len(),
            ns == texts(names@),
            ts == types_view(types@),
            ns.len() == names@.len(),
            ts.len() == types@.len(),
            named_infer_types_view(out@) == named_args(ns, ts, i as int),
        decreases names@.len() - i,
    {
        let ghost before = out@;
        assert(ns[i as int] == names@[i as int]@);
        assert(ts[i as int] == type_view(types@[i as int]));
        out.push((names[i].clone(), type_to_infer(&types[i])));
        assert(named_infer_types_view(out@) =~= named_infer_types_view(before).push(
            (ns[i as int], lifted(ts[i as int])),
        ));
        i += 1;
    }
    out
}

fn check_side(fx: &Facts, span: &Span, owner: &str, info: &TypeParamInfo, types: &Vec<Type>, negative:
    bool) -> (r: Option<MetelError>)
    ensures
        opt_error(r) == side_error(site(*fx, span@), owner@, *info, types_view(types@), negative),
{
    let asked: &Option<Vec<Vec<GenericBound>>> = if negative {
        &info.neg_bounds
    } else {
        &info.bounds
    };
    let bounds: &Vec<Vec<GenericBound>> = match asked {
        Some(bounds) => bounds,
        None => {
            return None;
        },
    };
    let generics: Vec<(String, InferType)> = name_args(&info.names, types);
    let ghost ts = types_view(types@);
    let ghost gs = named_infer_types_view(generics@);
    let ghost kinds = record_kinds_of(*info);
    assert(ts.len() == types@.len());
    let mut failed: Option<MetelError> = None;
    let mut i: usize = 0;
    while i < bounds.len()
        invariant
            i <= bounds@.len(),
            ts == types_view(types@),
            ts.len() == types@.len(),
            gs == named_infer_types_view(generics@),
            kinds == record_kinds_of(*info),
            opt_error(failed) == arg_error(
                site(*fx, span@),
                owner@,
                bounds@,
                kinds,
                ts,
                gs,
                negative,
                i as int,
            ),
        decreases bounds@.len() - i,
    {
        if failed.is_none() {
            let kind: bool = match &info.record_kinds {
                Some(kinds) => if i < kinds.len() {
                    kinds[i]
                } else {
                    false
                },
                None => false,
            };
            assert(kind == kind_at(kinds, i as int));
            if !(bounds[i].len() == 0 && !kind) && i < types.len() {
                assert(ts[i as int] == type_view(types@[i as int]));
                failed = check_asked(
                    fx.registry,
                    &fx.extra.impls,
                    fx.module,
                    span,
                    &types[i],
                    &bounds[i],
                    kind,
                    owner,
                    &generics,
                    negative,
                );
            }
        }
        i += 1;
    }
    failed
}

/// Check the type arguments of a declaration against its bounds.
pub fn check_type_args(fx: &Facts, span: &Span, owner: &str, types: &Vec<Type>) -> (r: Option<
    MetelError,
>)
    ensures
        opt_error(r) == args_error(site(*fx, span@), owner@, types_view(types@)),
{
    match fx.registry.type_param_info(owner) {
        Some(info) => {
            let failed: Option<MetelError> = check_side(fx, span, owner, info, types, false);
            if failed.is_some() {
                return failed;
            }
            check_side(fx, span, owner, info, types, true)
        },
        None => None,
    }
}

/// Every type parameter standing for itself, the first `n` of them.
pub open spec fn own_vars(params: Seq<TypeVar>, n: int) -> Map<TypeVar, InferTypeV>
    decreases n,
{
    if n <= 0 || n > params.len() {
        Map::empty()
    } else {
        own_vars(params, n - 1).insert(params[n - 1], InferTypeV::Var(params[n - 1]))
    }
}

/// The type parameters that the first `n` fields of a literal give: those that are the whole type
/// of a field.
pub open spec fn given_vars(
    params: Seq<TypeVar>,
    raw: Seq<FieldEntry>,
    fields: Seq<(Seq<char>, ExprT)>,
    m: Map<TypeVar, InferTypeV>,
    n: int,
) -> Map<TypeVar, InferTypeV>
    decreases n,
{
    if n <= 0 || n > fields.len() {
        m
    } else {
        let before = given_vars(params, raw, fields, m, n - 1);
        match field_named(raw, fields[n - 1].0) {
            Some(entry) => match entry.ty@ {
                InferTypeV::Var(v) => if params.contains(v) {
                    before.insert(v, lifted(tree_ty(fields[n - 1].1)))
                } else {
                    before
                },
                _ => before,
            },
            None => before,
        }
    }
}

/// The first `n` type arguments of a struct literal.
pub open spec fn literal_args(
    fx: Facts,
    params: Seq<TypeVar>,
    m: Map<TypeVar, InferTypeV>,
    span: SpanV,
    n: int,
) -> Result<Seq<TypeV>, MetelErrorV>
    decreases n,
{
    if n <= 0 || n > params.len() {
        Ok(Seq::empty())
    } else {
        match literal_args(fx, params, m, span, n - 1) {
            Err(e) => Err(e),
            Ok(before) => match lower(
                substituted(fx.subst@, substituted(m, InferTypeV::Var(params[n - 1]))),
                span,
            ) {
                Ok(t) => Ok(before.push(t)),
                Err(e) => Err(e),
            },
        }
    }
}

/// The type of a struct literal: a generic struct has its type arguments from the fields.
pub open spec fn struct_literal_type(
    fx: Facts,
    name: Seq<char>,
    fields: Seq<(Seq<char>, ExprT)>,
    span: SpanV,
) -> Result<TypeV, MetelErrorV> {
    match generic_struct(fx, name) {
        None => Ok(TypeV::Named(name, Seq::empty())),
        Some(g) => {
            let own = own_vars(g.0, g.0.len() as int);
            let m = given_vars(g.0, g.1.fields@, fields, own, fields.len() as int);
            match literal_args(fx, g.0, m, span, g.0.len() as int) {
                Err(e) => Err(e),
                Ok(args) => match args_error(site(fx, span), name, args) {
                    Some(e) => Err(e),
                    None => Ok(TypeV::Named(name, args)),
                },
            }
        },
    }
}

fn has_var(params: &Vec<TypeVar>, v: TypeVar) -> (r: bool)
    ensures
        r == params@.contains(v),
{
    let mut i: usize = 0;
    while i < params.len()
        invariant
            i <= params@.len(),
            forall|k: int| 0 <= k < i ==> params@[k] != v,
        decreases params@.len() - i,
    {
        if params[i] == v {
            return true;
        }
        i += 1;
    }
    false
}

/// The type of a struct literal.
pub fn construct_struct_literal_ty(
    fx: &Facts,
    name: &str,
    fields: &Vec<(String, TypedExpr)>,
    span: &Span,
) -> (r: Result<Type, MetelError>)
    ensures
        type_result(r) == struct_literal_type(*fx, name@, field_trees(fields@), span@),
{
    broadcast use lemma_tree_ty;

    let registry = fx.registry;
    let mut plain: bool = true;
    if let Some(info) = registry.struct_info(name) {
        if info.type_params.is_some() {
            plain = false;
        }
    }
    if plain {
        assert(generic_struct(*fx, name@) is None);
        let none: Vec<Type> = Vec::new();
        assert(types_view(none@) =~= Seq::empty());
        return Ok(Type::Named(name.to_owned(), none));
    }
    let info = registry.struct_info(name).unwrap();
    let params: &Vec<TypeVar> = info.type_params.as_ref().unwrap();
    assert(generic_struct(*fx, name@) == Some((params@, *info)));
    let ghost ps = params@;
    let ghost trees = field_trees(fields@);
    assert(trees.len() == fields@.len());
    let mut remap: Substitution = Substitution::new();
    let mut i: usize = 0;
    while i < params.len()
        invariant
            i <= ps.len(),
            ps == params@,
            remap@ == own_vars(ps, i as int),
        decreases ps.len() - i,
    {
        remap.bind(params[i], InferType::Var(params[i]));
        i += 1;
    }
    let ghost own = remap@;
    let mut j: usize = 0;
    while j < fields.len()
        invariant
            j <= fields@.len(),
            ps == params@,
            trees == field_trees(fields@),
            trees.len() == fields@.len(),
            remap@ == given_vars(ps, info.fields@, trees, own, j as int),
        decreases fields@.len() - j,
    {
        assert(trees[j as int] == (fields@[j as int].0@, expr_tree(fields@[j as int].1)));
        assert(tree_ty(expr_tree(fields@[j as int].1)) == ty_of(fields@[j as int].1)@);
        if let Some(entry) = find_field(&info.fields, fields[j].0.as_str()) {
            if let InferType::Var(v) = &entry.ty {
                if has_var(params, *v) {
                    remap.bind(*v, type_to_infer(fields[j].1.ty()));
                }
            }
        }
        j += 1;
    }
    let mut args: Vec<Type> = Vec::new();
    let mut failed: Option<MetelError> = None;
    assert(types_view(args@) =~= Seq::empty());
    let mut k: usize = 0;
    while k < params.len()
        invariant
            k <= ps.len(),
            ps == params@,
            match literal_args(*fx, ps, remap@, span@, k as int) {
                Ok(s) => failed is None && types_view(args@) == s,
                Err(e) => opt_error(failed) == Some(e),
            },
        decreases ps.len() - k,
    {
        if failed.is_none() {
            let one: InferType = remap.apply(&InferType::Var(params[k]));
            match infer_type_to_type(&fx.subst.apply(&one), span) {
                Ok(t) => {
                    let ghost before = args@;
                    args.push(t);
                    assert(types_view(args@) =~= types_view(before).push(t@));
                },
                Err(e) => {
                    failed = Some(e);
                },
            }
        }
        k += 1;
    }
    if let Some(e) = failed {
        return Err(e);
    }
    if let Some(e) = check_type_args(fx, span, name, &args) {
        return Err(e);
    }
    Ok(Type::Named(name.to_owned(), args))
}

/// What the first `n` fields of an enum literal tell of its type arguments. `ren` says which
/// variables stand for the type parameters.
pub open spec fn variant_solution(
    v: VariantInfo,
    ren: Map<TypeVar, InferTypeV>,
    fields: Seq<(Seq<char>, ExprT)>,
    n: int,
) -> Map<TypeVar, InferTypeV>
    decreases n,
{
    if n <= 0 || n > fields.len() {
        Map::empty()
    } else {
        let before = variant_solution(v, ren, fields, n - 1);
        match field_named(v.fields@, fields[n - 1].0) {
            Some(entry) => match solve(
                before,
                substituted(ren, entry.ty@),
                tree_ty(fields[n - 1].1),
            ) {
                Some(m) => m,
                None => before,
            },
            None => before,
        }
    }
}

/// The type arguments that an expected type gives an enum.
pub open spec fn expected_args(hint: Option<TypeV>, name: Seq<char>) -> Seq<TypeV> {
    match hint {
        Some(TypeV::Named(n, args)) => if n == name {
            args
        } else {
            Seq::empty()
        },
        _ => Seq::empty(),
    }
}

/// The first `n` type arguments of an enum literal: by its fields, or else as expected.
pub open spec fn variant_args(
    m: Map<TypeVar, InferTypeV>,
    next: u32,
    expected: Seq<TypeV>,
    span: SpanV,
    n: int,
) -> Result<Seq<TypeV>, MetelErrorV>
    decreases n,
{
    if n <= 0 {
        Ok(Seq::empty())
    } else {
        match variant_args(m, next, expected, span, n - 1) {
            Err(e) => Err(e),
            Ok(before) => {
                let t = substituted(m, InferTypeV::Var(fresh_var(next, n - 1)));
                if t is Var {
                    if n <= expected.len() {
                        Ok(before.push(expected[n - 1]))
                    } else {
                        Err(
                            type_failure(
                                TypeErrorCode::T0002,
                                "cannot infer type; add a type annotation"@,
                                span,
                            ),
                        )
                    }
                } else {
                    match lower(t, span) {
                        Ok(x) => Ok(before.push(x)),
                        Err(e) => Err(e),
                    }
                }
            },
        }
    }
}

/// The type of an enum literal, and the counter after it.
pub open spec fn enum_literal_type(
    fx: Facts,
    name: Seq<char>,
    variant: Seq<char>,
    fields: Seq<(Seq<char>, ExprT)>,
    hint: Option<TypeV>,
    span: SpanV,
    next: u32,
) -> (Result<TypeV, MetelErrorV>, u32) {
    match enum_of(*fx.registry, name) {
        None => (
            Err(type_failure(TypeErrorCode::T0003, "unknown enum `"@ + name + "`"@, span)),
            next,
        ),
        Some(info) => match variant_of(info, variant) {
            None => (
                Err(
                    type_failure(
                        TypeErrorCode::T0003,
                        "no variant `"@ + variant + "` on enum `"@ + name + "`"@,
                        span,
                    ),
                ),
                next,
            ),
            Some(v) => {
                let len = info.type_params@.len() as int;
                let ren = renaming(info.type_params@, next, len);
                let m = variant_solution(v, ren, fields, fields.len() as int);
                (
                    match variant_args(m, next, expected_args(hint, name), span, len) {
                        Err(e) => Err(e),
                        Ok(args) => match args_error(site(fx, span), name, args) {
                            Some(e) => Err(e),
                            None => Ok(TypeV::Named(name, args)),
                        },
                    },
                    after_fresh(next, len),
                )
            },
        },
    }
}

fn rename_params(params: &Vec<TypeVar>, gen: &mut TypeVarGenerator) -> (r: (Substitution, Vec<
    TypeVar,
>))
    ensures
        r.0@ == renaming(params@, old(gen).next, params@.len() as int),
        r.1@.len() == params@.len(),
        forall|k: int| 0 <= k < params@.len() ==> #[trigger] r.1@[k] == fresh_var(old(gen).next, k),
        final(gen).next == after_fresh(old(gen).next, params@.len() as int),
{
    let mut subst: Substitution = Substitution::new();
    let mut fresh: Vec<TypeVar> = Vec::new();
    let ghost start = gen.next;
    let mut i: usize = 0;
    while i < params.len()
        invariant
            i <= params@.len(),
            fresh@.len() == i,
            gen.next == after_fresh(start, i as int),
            subst@ == renaming(params@, start, i as int),
            forall|k: int| 0 <= k < i ==> #[trigger] fresh@[k] == fresh_var(start, k),
        decreases params@.len() - i,
    {
        let v: TypeVar = gen.fresh();
        subst.bind(params[i], InferType::Var(v));
        fresh.push(v);
        i += 1;
    }
    (subst, fresh)
}

fn solve_variant(v: &VariantInfo, ren: &Substitution, fields: &Vec<(String, TypedExpr)>) -> (r:
    Substitution)
    ensures
        r@ == variant_solution(*v, ren@, field_trees(fields@), field_trees(fields@).len() as int),
{
    broadcast use lemma_tree_ty;

    let ghost trees = field_trees(fields@);
    assert(trees.len() == fields@.len());
    let mut solved: Substitution = Substitution::new();
    let mut i: usize = 0;
    while i < fields.len()
        invariant
            i <= fields@.len(),
            trees == field_trees(fields@),
            trees.len() == fields@.len(),
            solved@ == variant_solution(*v, ren@, trees, i as int),
        decreases fields@.len() - i,
    {
        assert(trees[i as int] == (fields@[i as int].0@, expr_tree(fields@[i as int].1)));
        assert(tree_ty(expr_tree(fields@[i as int].1)) == ty_of(fields@[i as int].1)@);
        if let Some(entry) = find_field(&v.fields, fields[i].0.as_str()) {
            let mut trial: Substitution = solved.copy();
            if unify(&mut trial, &ren.apply(&entry.ty), fields[i].1.ty()) {
                solved = trial;
            }
        }
        i += 1;
    }
    solved
}

/// The type of an enum literal.
pub fn construct_enum_literal_ty(
    fx: &Facts,
    name: &str,
    variant: &str,
    fields: &Vec<(String, TypedExpr)>,
    hint: Option<&Type>,
    span: &Span,
    gen: &mut TypeVarGenerator,
) -> (r: Result<Type, MetelError>)
    ensures
        enum_literal_type(
            *fx,
            name@,
            variant@,
            field_trees(fields@),
            hint_view(hint),
            span@,
            old(gen).next,
        ) == (type_result(r), final(gen).next),
{
    let registry = fx.registry;
    let info: &EnumInfo = match registry.enum_info(name) {
        Some(info) => info,
        None => {
            return Err(
                MetelError::type_error(
                    TypeErrorCode::T0003,
                    joined3("unknown enum `", name, "`"),
                    span,
                ),
            );
        },
    };
    let v: &VariantInfo = match find_variant(info, variant) {
        Some(v) => v,
        None => {
            return Err(
                MetelError::type_error(
                    TypeErrorCode::T0003,
                    joined5("no variant `", variant, "` on enum `", name, "`"),
                    span,
                ),
            );
        },
    };
    let ghost start = gen.next;
    let (ren, fresh) = rename_params(&info.type_params, gen);
    let solved: Substitution = solve_variant(v, &ren, fields);
    let expected: Vec<Type> = match hint {
        Some(Type::Named(n, args)) => if same_text(n.as_str(), name) {
            copy_types(args)
        } else {
            Vec::new()
        },
        _ => Vec::new(),
    };
    let ghost es = types_view(expected@);
    assert(es.len() == expected@.len());
    assert(es =~= expected_args(hint_view(hint), name@));
    let mut args: Vec<Type> = Vec::new();
    let mut failed: Option<MetelError> = None;
    assert(types_view(args@) =~= Seq::empty());
    let mut k: usize = 0;
    while k < fresh.len()
        invariant
            k <= fresh@.len(),
            es == types_view(expected@),
            es.len() == expected@.len(),
            forall|j: int| 0 <= j < fresh@.len() ==> #[trigger] fresh@[j] == fresh_var(start, j),
            match variant_args(solved@, start, es, span@, k as int) {
                Ok(s) => failed is None && types_view(args@) == s,
                Err(e) => opt_error(failed) == Some(e),
            },
        decreases fresh@.len() - k,
    {
        if failed.is_none() {
            assert(fresh@[k as int] == fresh_var(start, k as int));
            let one: InferType = solved.apply(&InferType::Var(fresh[k]));
            let ghost before = args@;
            if let InferType::Var(_) = &one {
                if k < expected.len() {
                    assert(es[k as int] == type_view(expected@[k as int]));
                    args.push(expected[k].copy());
                    assert(types_view(args@) =~= types_view(before).push(es[k as int]));
                } else {
                    failed = Some(
                        MetelError::type_error(
                            TypeErrorCode::T0002,
                            "cannot infer type; add a type annotation".to_owned(),
                            span,
                        ),
                    );
                }
            } else {
                match infer_type_to_type(&one, span) {
                    Ok(t) => {
                        args.push(t);
                        assert(types_view(args@) =~= types_view(before).push(t@));
                    },
                    Err(e) => {
                        failed = Some(e);
                    },
                }
            }
        }
        k += 1;
    }
    if let Some(e) = failed {
        return Err(e);
    }
    if let Some(e) = check_type_args(fx, span, name, &args) {
        return Err(e);
    }
    Ok(Type::Named(name.to_owned(), args))
}

/// The types that explicit type arguments denote, the first `n` of them.
pub open spec fn explicit_types(fx: Facts, st: StateV, s: Seq<TypeExpr>, span: SpanV, n: int) -> Result<
    Seq<TypeV>,
    MetelErrorV,
>
    decreases n,
{
    if n <= 0 || n > s.len() {
        Ok(Seq::empty())
    } else {
        match explicit_types(fx, st, s, span, n - 1) {
            Err(e) => Err(e),
            Ok(before) => match lower(ann_infer(fx, st, s[n - 1]@), span) {
                Ok(t) => Ok(before.push(t)),
                Err(e) => Err(e),
            },
        }
    }
}

/// What is said of a parameter without a type.
pub open spec fn untyped_param(before: Seq<char>, p: Param) -> MetelErrorV {
    type_failure(TypeErrorCode::T0002, before + p.name@ + "` needs a type annotation"@, p.span@)
}

fn needs_type(before: &str, p: &Param) -> (r: MetelError)
    ensures
        r@ == untyped_param(before@, *p),
{
    MetelError::type_error(
        TypeErrorCode::T0002,
        joined3(before, p.name.as_str(), "` needs a type annotation"),
        &p.span,
    )
}

/// The types of the first `n` parameters of a closure.
pub open spec fn closure_params(fx: Facts, st: StateV, s: Seq<Param>, n: int) -> Result<
    Seq<TypeV>,
    MetelErrorV,
>
    decreases n,
{
    if n <= 0 || n > s.len() {
        Ok(Seq::empty())
    } else {
        match closure_params(fx, st, s, n - 1) {
            Err(e) => Err(e),
            Ok(before) => match s[n - 1].type_ann {
                None => Err(untyped_param("closure parameter `"@, s[n - 1])),
                Some(te) => match ann_type(fx, st, te@, s[n - 1].span@) {
                    Ok(t) => Ok(before.push(t)),
                    Err(e) => Err(e),
                },
            },
        }
    }
}

/// The return type of a closure: as inferred, or else as written, or else `()`.
pub open spec fn closure_return(
    fx: Facts,
    st: StateV,
    written: Option<TypeExpr>,
    span: SpanV,
) -> Result<TypeV, MetelErrorV> {
    match match fx.closure_returns {
        Some(s) => closure_return_in(s@, span),
        None => None,
    } {
        Some(t) => lower(substituted(fx.subst@, t), span),
        None => match opt_ann_type(fx, st, written, span) {
            Ok(Some(t)) => Ok(t),
            Ok(None) => Ok(TypeV::Unit),
            Err(e) => Err(e),
        },
    }
}

/// The type that `self` has in an impl for a name.
pub open spec fn self_type(target: Seq<char>) -> TypeV {
    match primitive_named(target) {
        Some(t) => t,
        None => TypeV::Named(target, Seq::empty()),
    }
}

/// The type that `self` has in an impl for a name.
pub fn self_type_of(target: &str) -> (r: Type)
    ensures
        r@ == self_type(target@),
{
    match primitive_type_from_name(target) {
        Some(t) => t,
        None => {
            let none: Vec<Type> = Vec::new();
            assert(types_view(none@) =~= Seq::empty());
            Type::Named(target.to_owned(), none)
        },
    }
}

/// The type that an annotation denotes in an impl for a name.
pub open spec fn impl_type(fx: Facts, target: Seq<char>, te: TypeExpr, span: SpanV) -> Result<
    TypeV,
    MetelErrorV,
> {
    lower(
        substituted(
            fx.subst@,
            denoted(
                TypeScopeV { generics: Seq::empty(), self_name: Some(target), aspect: None },
                te@,
            ),
        ),
        span,
    )
}

/// The types of the first `n` parameters of a method in an impl for a name.
pub open spec fn method_params(fx: Facts, target: Seq<char>, s: Seq<Param>, n: int) -> Result<
    Seq<TypeV>,
    MetelErrorV,
>
    decreases n,
{
    if n <= 0 || n > s.len() {
        Ok(Seq::empty())
    } else {
        match method_params(fx, target, s, n - 1) {
            Err(e) => Err(e),
            Ok(before) => if s[n - 1].name@ == "self"@ {
                Ok(before.push(self_type(target)))
            } else {
                match s[n - 1].type_ann {
                    None => Err(untyped_param("parameter `"@, s[n - 1])),
                    Some(te) => match impl_type(fx, target, te, s[n - 1].span@) {
                        Ok(t) => Ok(before.push(t)),
                        Err(e) => Err(e),
                    },
                }
            },
        }
    }
}

/// The return type of a method in an impl for a name, where one is written.
pub open spec fn method_return(
    fx: Facts,
    target: Seq<char>,
    written: Option<TypeExpr>,
    span: SpanV,
) -> Result<Option<TypeV>, MetelErrorV> {
    match written {
        Some(te) => match impl_type(fx, target, te, span) {
            Ok(t) => Ok(Some(t)),
            Err(e) => Err(e),
        },
        None => Ok(None),
    }
}

fn annotated_in_impl(fx: &Facts, target: &str, te: &TypeExpr, span: &Span) -> (r: Result<
    Type,
    MetelError,
>)
    ensures
        type_result(r) == impl_type(*fx, target@, *te, span@),
{
    let none: Vec<(String, InferType)> = Vec::new();
    assert(named_infer_types_view(none@) =~= Seq::empty());
    let scope: TypeScope = TypeScope { generics: &none, self_name: Some(target), aspect: None };
    assert(scope@ == (TypeScopeV { generics: Seq::empty(), self_name: Some(target@), aspect: None }));
    infer_type_to_type(&fx.subst.apply(&type_expr_to_infer(te, &scope)), span)
}

/// The types of the parameters of a method in an impl for a name.
pub fn method_param_types(fx: &Facts, target: &str, params: &Vec<Param>) -> (r: Result<
    Vec<Type>,
    MetelError,
>)
    ensures
        types_result(r) == method_params(*fx, target@, params@, params@.len() as int),
{
    let mut out: Vec<Type> = Vec::new();
    assert(types_view(out@) =~= Seq::empty());
    let mut failed: Option<MetelError> = None;
    let mut i: usize = 0;
    while i < params.len()
        invariant
            i <= params@.len(),
            match method_params(*fx, target@, params@, i as int) {
                Ok(s) => failed is None && types_view(out@) == s,
                Err(e) => opt_error(failed) == Some(e),
            },
        decreases params@.len() - i,
    {
        if failed.is_none() {
            let ghost before = out@;
            if same_text(params[i].name.as_str(), "self") {
                out.push(self_type_of(target));
                assert(types_view(out@) =~= types_view(before).push(self_type(target@)));
            } else {
                match &params[i].type_ann {
                    None => {
                        failed = Some(needs_type("parameter `", &params[i]));
                    },
                    Some(te) => match annotated_in_impl(fx, target, te, &params[i].span) {
                        Ok(t) => {
                            out.push(t);
                            assert(types_view(out@) =~= types_view(before).push(t@));
                        },
                        Err(e) => {
                            failed = Some(e);
                        },
                    },
                }
            }
        }
        i += 1;
    }
    match failed {
        Some(e) => Err(e),
        None => Ok(out),
    }
}

/// The return type of a method in an impl for a name, where one is written.
pub fn method_return_type(fx: &Facts, target: &str, written: &Option<TypeExpr>, span: &Span) -> (r:
    Result<Option<Type>, MetelError>)
    ensures
        match method_return(*fx, target@, *written, span@) {
            Ok(t) => r matches Ok(x) && opt_type(x) == t,
            Err(e) => r matches Err(x) && x@ == e,
        },
{
    match written {
        Some(te) => match annotated_in_impl(fx, target, te, span) {
            Ok(t) => Ok(Some(t)),
            Err(e) => Err(e),
        },
        None => Ok(None),
    }
}

/// The types of the first `n` parameters of a signature.
pub open spec fn lowered_params(s: Seq<InferTypeV>, span: SpanV, n: int) -> Result<
    Seq<TypeV>,
    MetelErrorV,
>
    decreases n,
{
    if n <= 0 || n > s.len() {
        Ok(Seq::empty())
    } else {
        match lowered_params(s, span, n - 1) {
            Err(e) => Err(e),
            Ok(before) => match lower(s[n - 1], span) {
                Ok(t) => Ok(before.push(t)),
                Err(e) => Err(e),
            },
        }
    }
}

/// The parameter types and, where it is known, the return type of a function.
pub open spec fn signature(t: InferTypeV, name: Seq<char>, span: SpanV) -> Result<
    (Seq<TypeV>, Option<TypeV>),
    MetelErrorV,
> {
    match t {
        InferTypeV::Fun(params, ret) => match lowered_params(params, span, params.len() as int) {
            Ok(types) => Ok(
                (
                    types,
                    if resolved(*ret) {
                        Some(lowered(*ret))
                    } else {
                        None
                    },
                ),
            ),
            Err(e) => Err(e),
        },
        _ => Err(fault("expected Fun type for `"@ + name + "`"@)),
    }
}

/// The parameter types and, where it is known, the return type of a function.
pub fn lower_signature(t: &InferType, name: &str, span: &Span) -> (r: Result<
    (Vec<Type>, Option<Type>),
    MetelError,
>)
    ensures
        match signature(t@, name@, span@) {
            Ok(x) => r matches Ok(y) && types_view(y.0@) == x.0 && opt_type(y.1) == x.1,
            Err(e) => r matches Err(x) && x@ == e,
        },
{
    match t {
        InferType::Fun(params, ret) => match lower_params(params, span) {
            Ok(types) => Ok((types, infer_to_type(ret))),
            Err(e) => Err(e),
        },
        _ => Err(MetelError::internal(joined3("expected Fun type for `", name, "`"))),
    }
}

fn lower_params(params: &Vec<InferType>, span: &Span) -> (r: Result<Vec<Type>, MetelError>)
    ensures
        types_result(r) == lowered_params(
            infer_types_view(params@),
            span@,
            infer_types_view(params@).len() as int,
        ),
{
    let ghost views = infer_types_view(params@);
    assert(views.len() == params@.len());
    let mut out: Vec<Type> = Vec::new();
    assert(types_view(out@) =~= Seq::empty());
    let mut failed: Option<MetelError> = None;
    let mut i: usize = 0;
    while i < params.len()
        invariant
            i <= params@.len(),
            views == infer_types_view(params@),
            views.len() == params@.len(),
            match lowered_params(views, span@, i as int) {
                Ok(s) => failed is None && types_view(out@) == s,
                Err(e) => opt_error(failed) == Some(e),
            },
        decreases params@.len() - i,
    {
        if failed.is_none() {
            assert(views[i as int] == infer_type_view(params@[i as int]));
            let ghost before = out@;
            match infer_type_to_type(&params[i], span) {
                Ok(t) => {
                    out.push(t);
                    assert(types_view(out@) =~= types_view(before).push(t@));
                },
                Err(e) => {
                    failed = Some(e);
                },
            }
        }
        i += 1;
    }
    match failed {
        Some(e) => Err(e),
        None => Ok(out),
    }
}

/// The types of the first `n` fields of a variant.
pub open spec fn variant_field_types(s: Seq<FieldEntry>, span: SpanV, n: int) -> Result<
    Seq<TypeV>,
    MetelErrorV,
>
    decreases n,
{
    if n <= 0 || n > s.len() {
        Ok(Seq::empty())
    } else {
        match variant_field_types(s, span, n - 1) {
            Err(e) => Err(e),
            Ok(before) => match lower(s[n - 1].ty@, span) {
                Ok(t) => Ok(before.push(t)),
                Err(e) => Err(e),
            },
        }
    }
}

fn lower_fields(s: &Vec<FieldEntry>, span: &Span) -> (r: Result<Vec<Type>, MetelError>)
    ensures
        types_result(r) == variant_field_types(s@, span@, s@.len() as int),
{
    let mut out: Vec<Type> = Vec::new();
    assert(types_view(out@) =~= Seq::empty());
    let mut failed: Option<MetelError> = None;
    let mut i: usize = 0;
    while i < s.len()
        invariant
            i <= s@.len(),
            match variant_field_types(s@, span@, i as int) {
                Ok(s) => failed is None && types_view(out@) == s,
                Err(e) => opt_error(failed) == Some(e),
            },
        decreases s@.len() - i,
    {
        if failed.is_none() {
            let ghost before = out@;
            match infer_type_to_type(&s[i].ty, span) {
                Ok(t) => {
                    out.push(t);
                    assert(types_view(out@) =~= types_view(before).push(t@));
                },
                Err(e) => {
                    failed = Some(e);
                },
            }
        }
        i += 1;
    }
    match failed {
        Some(e) => Err(e),
        None => Ok(out),
    }
}

/// A path of several segments: a method of a type, or a variant of an enum.
pub open spec fn path_expr(fx: Facts, path: Seq<Seq<char>>, span: SpanV) -> Result<
    ExprT,
    MetelErrorV,
> {
    let unknown = Err(fault("unresolved path `"@ + join_spec(path, "::"@) + "`"@));
    if path.len() != 2 {
        unknown
    } else {
        match concrete_method(fx, path[0], path[1]) {
            Some(t) => Ok(ExprT::Path(path, t, span)),
            None => match enum_of(*fx.registry, path[0]) {
                None => unknown,
                Some(info) => match variant_of(info, path[1]) {
                    None => unknown,
                    Some(v) => if v.fields@.len() == 0 {
                        Ok(
                            ExprT::StructLiteral {
                                path,
                                fields: Seq::empty(),
                                ty: TypeV::Named(path[0], Seq::empty()),
                                type_id: type_symbol(fx, path[0]),
                                span,
                            },
                        )
                    } else {
                        match variant_field_types(v.fields@, span, v.fields@.len() as int) {
                            Err(e) => Err(e),
                            Ok(types) => Ok(
                                ExprT::Path(
                                    path,
                                    TypeV::Fun(
                                        types,
                                        Box::new(TypeV::Named(path[0], Seq::empty())),
                                    ),
                                    span,
                                ),
                            ),
                        }
                    },
                },
            },
        }
    }
}

/// A path of several segments.
pub fn construct_path<'a>(fx: &Facts<'a, '_>, path: &Vec<String>, span: &Span) -> (r: Result<
    TypedExpr<'a>,
    MetelError,
>)
    ensures
        expr_result(r) == path_expr(*fx, texts(path@), span@),
{
    let ghost names = texts(path@);
    assert(names.len() == path@.len());
    if path.len() == 2 {
        assert(names[0] == path@[0]@ && names[1] == path@[1]@);
        let registry = fx.registry;
        if let Some(t) = fx.concrete_method_type(path[0].as_str(), path[1].as_str()) {
            return Ok(TypedExpr::Path(crate::text::copy_texts(path), t, span.copy()));
        }
        if let Some(info) = registry.enum_info(path[0].as_str()) {
            if let Some(v) = find_variant(info, path[1].as_str()) {
                let none: Vec<Type> = Vec::new();
                assert(types_view(none@) =~= Seq::empty());
                let own: Type = Type::Named(path[0].clone(), none);
                assert(own@ == TypeV::Named(names[0], Seq::empty()));
                if v.fields.len() == 0 {
                    let fields: Vec<(String, TypedExpr<'a>)> = Vec::new();
                    assert(field_trees(fields@) =~= Seq::empty());
                    return Ok(
                        TypedExpr::StructLiteral {
                            path: crate::text::copy_texts(path),
                            fields,
                            ty: own,
                            type_id: fx.type_symbol_id(path[0].as_str()),
                            span: span.copy(),
                        },
                    );
                }
                return match lower_fields(&v.fields, span) {
                    Err(e) => Err(e),
                    Ok(types) => Ok(
                        TypedExpr::Path(
                            crate::text::copy_texts(path),
                            Type::Fun(types, Box::new(own)),
                            span.copy(),
                        ),
                    ),
                };
            }
        }
    }
    Err(MetelError::internal(joined3("unresolved path `", join_texts(path, "::").as_str(), "`")))
}

/// What a generic function gives where a function type is expected, with the counter after it:
/// an instance of it, or nothing.
pub open spec fn instance_for(
    fx: Facts,
    name: Seq<char>,
    scheme: TypeScheme,
    hint: Option<TypeV>,
    span: SpanV,
    next: u32,
) -> (Result<Option<TypeV>, MetelErrorV>, u32) {
    match (hint, scheme.ty@) {
        (Some(TypeV::Fun(params, _)), InferTypeV::Fun(own, _)) => if own.len() == params.len() {
            (
                match call_instance(
                    *fx.registry,
                    texts(fx.module@),
                    scheme,
                    params,
                    None,
                    span,
                    next,
                ) {
                    Ok(x) => match choice_error(site(fx, span), name, scheme, x.1) {
                        Some(e) => Err(e),
                        None => Ok(Some(x.0)),
                    },
                    Err(_) => Ok(None),
                },
                after_fresh(next, scheme.quantified_vars@.len() as int),
            )
        } else {
            (Ok(None), next)
        },
        _ => (Ok(None), next),
    }
}

/// A name: a variable, a struct without fields, a variant without its enum, or a generic function
/// where a function type is expected.
pub open spec fn ident_expr(
    fx: Facts,
    st: StateV,
    name: Seq<char>,
    hint: Option<TypeV>,
    span: SpanV,
) -> (Result<ExprT, MetelErrorV>, u32) {
    match var_of(st.scopes, name) {
        Some(t) => (Ok(ExprT::Ident(name, t, span)), st.next),
        None => match fields_of(st.structs, name) {
            Some(fields) => if fields.len() == 0 {
                (Ok(unit_struct(fx, name, hint, span)), st.next)
            } else {
                free_name(fx, st, name, hint, span)
            },
            None => free_name(fx, st, name, hint, span),
        },
    }
}

/// A struct without fields.
pub open spec fn unit_struct(fx: Facts, name: Seq<char>, hint: Option<TypeV>, span: SpanV) -> ExprT {
    ExprT::StructLiteral {
        path: seq![name],
        fields: Seq::empty(),
        ty: match hint {
            Some(TypeV::Named(n, args)) => TypeV::Named(
                name,
                if n == name {
                    args
                } else {
                    Seq::empty()
                },
            ),
            _ => TypeV::Named(name, Seq::empty()),
        },
        type_id: type_symbol(fx, name),
        span,
    }
}

/// A name that is no variable and no struct without fields.
pub open spec fn free_name(
    fx: Facts,
    st: StateV,
    name: Seq<char>,
    hint: Option<TypeV>,
    span: SpanV,
) -> (Result<ExprT, MetelErrorV>, u32) {
    let unknown = Err(
        type_failure(TypeErrorCode::T0003, "undefined name `"@ + name + "`"@, span),
    );
    if variant_exists(*fx.registry, name) {
        (variant_expr(fx, name, hint, span), st.next)
    } else {
        match scheme_in(fx.schemes@, name) {
            None => (unknown, st.next),
            Some(scheme) => if scheme.quantified_vars@.len() == 0 {
                (unknown, st.next)
            } else {
                let found = instance_for(fx, name, scheme, hint, span, st.next);
                (
                    match found.0 {
                        Err(e) => Err(e),
                        Ok(Some(t)) => Ok(ExprT::Ident(name, t, span)),
                        Ok(None) => Err(
                            type_failure(
                                TypeErrorCode::T0003,
                                "generic function `"@ + name
                                    + "` cannot be referenced except by direct call; a generic function is not yet a first-class value (RFC-0138)"@,
                                span,
                            ),
                        ),
                    },
                    found.1,
                )
            },
        }
    }
}

impl<'a, 'c> Elaborator<'a, 'c> {
    fn instantiate_for(
        &mut self,
        name: &str,
        scheme: &TypeScheme,
        hint: Option<&Type>,
        span: &Span,
    ) -> (r: Result<Option<Type>, MetelError>)
        ensures
            final(self).fx == old(self).fx,
            final(self).budget == old(self).budget,
            final(self).st() == (StateV {
                next: instance_for(
                    old(self).fx,
                    name@,
                    *scheme,
                    hint_view(hint),
                    span@,
                    old(self).st().next,
                ).1,
                ..old(self).st()
            }),
            match instance_for(
                old(self).fx,
                name@,
                *scheme,
                hint_view(hint),
                span@,
                old(self).st().next,
            ).0 {
                Ok(t) => r matches Ok(x) && opt_type(x) == t,
                Err(e) => r matches Err(x) && x@ == e,
            },
    {
        if let Some(Type::Fun(params, _)) = hint {
            if let InferType::Fun(own, _) = &scheme.ty {
                assert(infer_types_view(own@).len() == own@.len());
                assert(types_view(params@).len() == params@.len());
                if own.len() == params.len() {
                    let found = instantiate_scheme_for_call(
                        self.fx.registry,
                        self.fx.module,
                        scheme,
                        params,
                        None,
                        span,
                        &mut self.gen,
                    );
                    return match found {
                        Ok((t, vars)) => match check_choices(
                            self.fx.registry,
                            &self.fx.extra.impls,
                            self.fx.module,
                            span,
                            name,
                            scheme,
                            &vars,
                        ) {
                            Some(e) => Err(e),
                            None => Ok(Some(t)),
                        },
                        Err(_) => Ok(None),
                    };
                }
            }
        }
        Ok(None)
    }

    /// A name.
    pub fn construct_ident(&mut self, name: &str, hint: Option<&Type>, span: &Span) -> (r: Result<
        TypedExpr<'a>,
        MetelError,
    >)
        ensures
            final(self).fx == old(self).fx,
            final(self).budget == old(self).budget,
            expr_result(r) == ident_expr(
                old(self).fx,
                old(self).st(),
                name@,
                hint_view(hint),
                span@,
            ).0,
            final(self).st() == (StateV {
                next: ident_expr(old(self).fx, old(self).st(), name@, hint_view(hint), span@).1,
                ..old(self).st()
            }),
    {
        if let Some(t) = self.lookup(name) {
            return Ok(TypedExpr::Ident(name.to_owned(), t, span.copy()));
        }
        if let Some(fields) = self.get_struct_fields(name) {
            assert(super::state::local_fields_view(fields@).len() == fields@.len());
            if fields.len() == 0 {
                let args: Vec<Type> = match hint {
                    Some(Type::Named(n, args)) => if same_text(n.as_str(), name) {
                        copy_types(args)
                    } else {
                        Vec::new()
                    },
                    _ => Vec::new(),
                };
                assert(hint_view(hint) is Some && hint_view(hint)->0 is Named
                    && hint_view(hint)->0->Named_0 == name@ || types_view(args@) =~= Seq::empty());
                let mut path: Vec<String> = Vec::new();
                path.push(name.to_owned());
                assert(texts(path@) =~= seq![name@]);
                let none: Vec<(String, TypedExpr<'a>)> = Vec::new();
                assert(field_trees(none@) =~= Seq::empty());
                return Ok(
                    TypedExpr::StructLiteral {
                        path,
                        fields: none,
                        ty: Type::Named(name.to_owned(), args),
                        type_id: self.fx.type_symbol_id(name),
                        span: span.copy(),
                    },
                );
            }
        }
        if self.fx.registry.has_variant_named(name) {
            return resolve_unqualified_variant_expr(&self.fx, name, hint, span);
        }
        if let Some(scheme) = self.fx.scheme(name) {
            if scheme.quantified_vars.len() > 0 {
                return match self.instantiate_for(name, scheme, hint, span) {
                    Err(e) => Err(e),
                    Ok(Some(t)) => Ok(TypedExpr::Ident(name.to_owned(), t, span.copy())),
                    Ok(None) => Err(
                        MetelError::type_error(
                            TypeErrorCode::T0003,
                            joined3(
                                "generic function `",
                                name,
                                "` cannot be referenced except by direct call; a generic function is not yet a first-class value (RFC-0138)",
                            ),
                            span,
                        ),
                    ),
                };
            }
        }
        Err(
            MetelError::type_error(
                TypeErrorCode::T0003,
                joined3("undefined name `", name, "`"),
                span,
            ),
        )
    }

    /// The types that explicit type arguments denote.
    pub fn resolve_explicit(&self, args: &Vec<TypeExpr>, span: &Span) -> (r: Result<
        Vec<Type>,
        MetelError,
    >)
        ensures
            types_result(r) == explicit_types(
                self.fx,
                self.st(),
                args@,
                span@,
                args@.len() as int,
            ),
    {
        let mut out: Vec<Type> = Vec::new();
        assert(types_view(out@) =~= Seq::empty());
        let mut failed: Option<MetelError> = None;
        let mut i: usize = 0;
        while i < args.len()
            invariant
                i <= args@.len(),
                match explicit_types(self.fx, self.st(), args@, span@, i as int) {
                    Ok(s) => failed is None && types_view(out@) == s,
                    Err(e) => opt_error(failed) == Some(e),
                },
            decreases args@.len() - i,
        {
            if failed.is_none() {
                let ghost before = out@;
                let one: InferType = self.type_expr_to_infer_ctx(&args[i]);
                match infer_type_to_type(&one, span) {
                    Ok(t) => {
                        out.push(t);
                        assert(types_view(out@) =~= types_view(before).push(t@));
                    },
                    Err(e) => {
                        failed = Some(e);
                    },
                }
            }
            i += 1;
        }
        match failed {
            Some(e) => Err(e),
            None => Ok(out),
        }
    }

    /// The types of the parameters of a closure.
    pub fn closure_param_types(&self, params: &Vec<Param>) -> (r: Result<Vec<Type>, MetelError>)
        ensures
            types_result(r) == closure_params(self.fx, self.st(), params@, params@.len() as int),
    {
        let mut out: Vec<Type> = Vec::new();
        assert(types_view(out@) =~= Seq::empty());
        let mut failed: Option<MetelError> = None;
        let mut i: usize = 0;
        while i < params.len()
            invariant
                i <= params@.len(),
                match closure_params(self.fx, self.st(), params@, i as int) {
                    Ok(s) => failed is None && types_view(out@) == s,
                    Err(e) => opt_error(failed) == Some(e),
                },
            decreases params@.len() - i,
        {
            if failed.is_none() {
                let ghost before = out@;
                match &params[i].type_ann {
                    None => {
                        failed = Some(needs_type("closure parameter `", &params[i]));
                    },
                    Some(te) => match self.annotated(te, &params[i].span) {
                        Ok(t) => {
                            out.push(t);
                            assert(types_view(out@) =~= types_view(before).push(t@));
                        },
                        Err(e) => {
                            failed = Some(e);
                        },
                    },
                }
            }
            i += 1;
        }
        match failed {
            Some(e) => Err(e),
            None => Ok(out),
        }
    }

    /// The return type of a closure.
    pub fn closure_return_type(&self, written: &Option<TypeExpr>, span: &Span) -> (r: Result<
        Type,
        MetelError,
    >)
        ensures
            type_result(r) == closure_return(self.fx, self.st(), *written, span@),
    {
        match self.fx.closure_return(span) {
            Some(t) => infer_type_to_type(&self.fx.subst.apply(t), span),
            None => match self.opt_annotated(written, span) {
                Ok(Some(t)) => Ok(t),
                Ok(None) => Ok(Type::Unit),
                Err(e) => Err(e),
            },
        }
    }
}

/// What `next` of a named type gives, for its type arguments.
pub open spec fn next_type(fx: Facts, name: Seq<char>, args: Seq<TypeV>) -> Option<TypeV> {
    match concrete_method(fx, name, "next"@) {
        Some(TypeV::Fun(_, ret)) => Some(*ret),
        _ => match known_schemes_of(*fx.registry, *fx.extra, name, "next"@) {
            Some(found) => if found.candidates@.len() == 0 {
                None
            } else {
                let c = found.candidates@[0];
                match substituted(
                    bound_vars(
                        Map::empty(),
                        c.struct_vars@,
                        args,
                        shorter(c.struct_vars@.len(), args.len()),
                    ),
                    c.scheme.ty@,
                ) {
                    InferTypeV::Fun(_, ret) => if resolved(*ret) {
                        Some(lowered(*ret))
                    } else {
                        None
                    },
                    _ => None,
                }
            },
            None => None,
        },
    }
}

/// What a loop over a value of a type binds: the elements of an array, the numbers of a range, or
/// what `next` gives.
pub open spec fn iterated(fx: Facts, t: TypeV) -> Result<TypeV, MetelErrorV> {
    match peeled(t) {
        TypeV::Array(item) => Ok(*item),
        TypeV::SizedArray(item, _) => Ok(*item),
        TypeV::Named(name, args) => if name == "Range"@ {
            Ok(TypeV::I64)
        } else {
            let missing = Err(
                fault("for-in: `"@ + name + "` has no `next() -> Perhaps<T>` method"@),
            );
            match next_type(fx, name, args) {
                Some(TypeV::Named(n, given)) => if n == "Perhaps"@ && given.len() == 1 {
                    Ok(given[0])
                } else {
                    missing
                },
                _ => missing,
            }
        },
        _ => Err(fault("for-in over non-iterable type"@)),
    }
}

fn find_next_type(fx: &Facts, name: &str, args: &Vec<Type>) -> (r: Option<Type>)
    ensures
        opt_type(r) == next_type(*fx, name@, types_view(args@)),
{
    assert(types_view(args@).len() == args@.len());
    if let Some(Type::Fun(_, ret)) = fx.concrete_method_type(name, "next") {
        return Some(*ret);
    }
    match fx.registry.known_schemes_for(fx.extra, name, "next") {
        Some(found) => {
            if found.candidates.len() == 0 {
                return None;
            }
            let mut remap: Substitution = Substitution::new();
            bind_vars(&mut remap, &found.candidates[0].struct_vars, args);
            match remap.apply(&found.candidates[0].scheme.ty) {
                InferType::Fun(_, ret) => infer_to_type(&ret),
                _ => None,
            }
        },
        None => None,
    }
}

/// What a loop over a value of a type binds.
pub fn iterated_type(fx: &Facts, t: &Type) -> (r: Result<Type, MetelError>)
    ensures
        type_result(r) == iterated(*fx, t@),
{
    match peel_type_references(t) {
        Type::Array(item) => Ok(item.copy()),
        Type::SizedArray(item, _) => Ok(item.copy()),
        Type::Named(name, args) => {
            if same_text(name.as_str(), "Range") {
                return Ok(Type::I64);
            }
            if let Some(Type::Named(n, given)) = find_next_type(fx, name.as_str(), args) {
                assert(types_view(given@).len() == given@.len());
                if same_text(n.as_str(), "Perhaps") && given.len() == 1 {
                    assert(types_view(given@)[0] == type_view(given@[0]));
                    return Ok(given[0].copy());
                }
            }
            Err(
                MetelError::internal(
                    joined3("for-in: `", name.as_str(), "` has no `next() -> Perhaps<T>` method"),
                ),
            )
        },
        _ => Err(MetelError::internal("for-in over non-iterable type".to_owned())),
    }
}

} // verus!
