//! What happens to a value where a type is expected of it.
use vstd::prelude::*;
use crate::ast::UnaryOp;
use crate::error::{type_failure, MetelError, MetelErrorV, TypeErrorCode};
use crate::infer::{substituted, InferTypeV, Substitution, TypeVar};
use crate::lookup::enum_of;
use crate::registry::{satisfies, EnumInfo, VariantInfo};
use crate::scheme::{infer_type_to_type, lower};
use crate::span::{Span, SpanV};
use crate::text::texts;
use crate::typed_ast::{ty_of, TypedExpr};
use crate::types::{type_text, Type, TypeV};
use super::rules::{is_variant_uninhabited, type_args_map, type_param_remap, uninhabited};
use super::state::{hint_view, Facts};
use super::tree::{expr_result, expr_tree, lemma_tree_ty, tree_ty, ExprT};

verus! {

/// An expression of type `t` with its references followed until it has the expected type, or is
/// no reference.
pub open spec fn followed(e: ExprT, t: TypeV, expected: TypeV, span: SpanV) -> ExprT
    decreases t,
{
    if t == expected {
        e
    } else {
        match t {
            TypeV::Reference(inner) => followed(
                ExprT::UnaryOp(UnaryOp::Deref, Box::new(e), *inner, span),
                *inner,
                expected,
                span,
            ),
            TypeV::MutReference(inner) => followed(
                ExprT::UnaryOp(UnaryOp::Deref, Box::new(e), *inner, span),
                *inner,
                expected,
                span,
            ),
            _ => e,
        }
    }
}

/// What is said of a value that cannot be copied out of a reference.
pub open spec fn copy_text(t: TypeV) -> Seq<char> {
    "cannot copy `"@ + type_text(t) + "` out of a reference: `"@ + type_text(t)
        + "` does not implement `Copy`\n       hint: use `.clone()` if `"@ + type_text(t)
        + "` implements `Clone`, or restructure to take ownership instead"@
}

/// A value where a type is expected that is no reference: it is copied out of the references to
/// it, which asks that it can be copied.
pub open spec fn read_copy(fx: Facts, expected: TypeV, e: ExprT, span: SpanV) -> Result<
    ExprT,
    MetelErrorV,
> {
    if expected is Reference || expected is MutReference {
        Ok(e)
    } else {
        let t = tree_ty(e);
        let out = followed(e, t, expected, span);
        if t != expected && (t is Reference || t is MutReference) && !satisfies(
            *fx.registry,
            fx.extra.impls@,
            texts(fx.module@),
            tree_ty(out),
            "Copy"@,
        ) {
            Err(type_failure(TypeErrorCode::T0024, copy_text(tree_ty(out)), span))
        } else {
            Ok(out)
        }
    }
}

fn follow<'a>(e: TypedExpr<'a>, expected: &Type, span: &Span) -> (r: TypedExpr<'a>)
    ensures
        expr_tree(r) == followed(expr_tree(e), tree_ty(expr_tree(e)), expected@, span@),
    decreases tree_ty(expr_tree(e)),
{
    broadcast use lemma_tree_ty;

    assert(tree_ty(expr_tree(e)) == ty_of(e)@);
    if e.ty().same(expected) {
        return e;
    }
    let inner: Type = match e.ty() {
        Type::Reference(inner) => inner.copy(),
        Type::MutReference(inner) => inner.copy(),
        _ => {
            return e;
        },
    };
    let next: TypedExpr<'a> = TypedExpr::UnaryOp(UnaryOp::Deref, Box::new(e), inner, span.copy());
    assert(tree_ty(expr_tree(next)) == inner@);
    follow(next, expected, span)
}

fn describe_copy(t: &Type) -> (r: String)
    ensures
        r@ == copy_text(t@),
{
    let name: String = t.describe();
    let mut out: String = "cannot copy `".to_owned();
    out.append(name.as_str());
    out.append("` out of a reference: `");
    out.append(name.as_str());
    out.append("` does not implement `Copy`\n       hint: use `.clone()` if `");
    out.append(name.as_str());
    out.append("` implements `Clone`, or restructure to take ownership instead");
    out
}

/// A value where a type is expected that is no reference: it is copied out of the references to
/// it, which asks that it can be copied.
pub fn maybe_read_copy<'a>(fx: &Facts<'a, '_>, expected: &Type, e: TypedExpr<'a>, span: &Span) -> (r:
    Result<TypedExpr<'a>, MetelError>)
    ensures
        expr_result(r) == read_copy(*fx, expected@, expr_tree(e), span@),
{
    broadcast use lemma_tree_ty;

    if matches!(expected, Type::Reference(_) | Type::MutReference(_)) {
        return Ok(e);
    }
    assert(tree_ty(expr_tree(e)) == ty_of(e)@);
    let peels: bool = !e.ty().same(expected) && matches!(
        e.ty(),
        Type::Reference(_) | Type::MutReference(_)
    );
    let out: TypedExpr<'a> = follow(e, expected, span);
    assert(tree_ty(expr_tree(out)) == ty_of(out)@);
    if peels && !fx.registry.type_satisfies_aspect_with(&fx.extra.impls, fx.module, out.ty(), "Copy") {
        return Err(
            MetelError::type_error(TypeErrorCode::T0024, describe_copy(out.ty()), span),
        );
    }
    Ok(out)
}

/// The variants that have a value for these type arguments.
pub open spec fn inhabited(s: Seq<VariantInfo>, m: Map<TypeVar, InferTypeV>) -> Seq<VariantInfo>
    decreases s.len(),
{
    if s.len() == 0 {
        Seq::empty()
    } else if uninhabited(s.last(), m) {
        inhabited(s.drop_last(), m)
    } else {
        inhabited(s.drop_last(), m).push(s.last())
    }
}

/// A value of an enum of which only one variant, with one field, has a value: where the type of
/// that field is expected, the value is the field.
pub open spec fn coerced(fx: Facts, expected: TypeV, e: ExprT, span: SpanV) -> Result<
    ExprT,
    MetelErrorV,
> {
    let t = tree_ty(e);
    if t == expected {
        Ok(e)
    } else {
        match t {
            TypeV::Named(name, args) => match enum_of(*fx.registry, name) {
                Some(info) => {
                    let m = type_args_map(info.type_params@, args);
                    let s = inhabited(info.variants@, m);
                    if info.variants@.len() <= 1 || s.len() != 1 || s[0].fields@.len() != 1 {
                        Ok(e)
                    } else {
                        let f = s[0].fields@[0];
                        match lower(substituted(m, f.ty@), f.span@) {
                            Err(x) => Err(x),
                            Ok(ft) => if ft != expected {
                                Ok(e)
                            } else {
                                Ok(
                                    ExprT::SingletonCoerce {
                                        inner: Box::new(e),
                                        variant: s[0].name@,
                                        field: f.name@,
                                        ty: ft,
                                        span,
                                    },
                                )
                            },
                        }
                    }
                },
                None => Ok(e),
            },
            _ => Ok(e),
        }
    }
}

fn sole_inhabited<'b>(info: &'b EnumInfo, remap: &Substitution) -> (r: Option<&'b VariantInfo>)
    ensures
        ({
            let s = inhabited(info.variants@, remap@);
            match r {
                Some(v) => s.len() == 1 && s[0] == *v && v.fields@.len() == 1,
                None => s.len() != 1 || s[0].fields@.len() != 1,
            }
        }),
{
    let ghost all = info.variants@;
    let mut found: Option<&'b VariantInfo> = None;
    let mut count: usize = 0;
    let mut i: usize = 0;
    while i < info.variants.len()
        invariant
            i <= all.len(),
            all == info.variants@,
            count <= i,
            inhabited(all.take(i as int), remap@).len() == count,
            count == 0 ==> found is None,
            count == 1 ==> (found matches Some(v) && *v == inhabited(all.take(i as int), remap@)[0]),
        decreases all.len() - i,
    {
        let ghost after = all.take(i + 1);
        assert(after.drop_last() =~= all.take(i as int));
        assert(after.last() == all[i as int]);
        let v: &'b VariantInfo = &info.variants[i];
        if !is_variant_uninhabited(v, remap) {
            if count == 0 {
                found = Some(v);
            }
            count += 1;
        }
        i += 1;
    }
    assert(all.take(i as int) =~= all);
    if count != 1 {
        return None;
    }
    match found {
        Some(v) => if v.fields.len() == 1 {
            Some(v)
        } else {
            None
        },
        None => None,
    }
}

/// The field of the only variant that has a value, where its type is expected.
pub fn maybe_singleton_coerce<'a>(
    fx: &Facts<'a, '_>,
    expected: &Type,
    e: TypedExpr<'a>,
    span: &Span,
) -> (r: Result<TypedExpr<'a>, MetelError>)
    ensures
        expr_result(r) == coerced(*fx, expected@, expr_tree(e), span@),
{
    broadcast use lemma_tree_ty;

    assert(tree_ty(expr_tree(e)) == ty_of(e)@);
    if e.ty().same(expected) {
        return Ok(e);
    }
    let registry = fx.registry;
    let (variant, field_ty): (&VariantInfo, Type) = match e.ty() {
        Type::Named(name, args) => match registry.enum_info(name.as_str()) {
            Some(info) => {
                let remap: Substitution = type_param_remap(&info.type_params, args);
                if info.variants.len() <= 1 {
                    return Ok(e);
                }
                match sole_inhabited(info, &remap) {
                    Some(v) => match infer_type_to_type(
                        &remap.apply(&v.fields[0].ty),
                        &v.fields[0].span,
                    ) {
                        Ok(t) => (v, t),
                        Err(x) => {
                            return Err(x);
                        },
                    },
                    None => {
                        return Ok(e);
                    },
                }
            },
            None => {
                return Ok(e);
            },
        },
        _ => {
            return Ok(e);
        },
    };
    if !field_ty.same(expected) {
        return Ok(e);
    }
    Ok(
        TypedExpr::SingletonCoerce {
            inner: Box::new(e),
            variant: variant.name.clone(),
            field: variant.fields[0].name.clone(),
            ty: field_ty,
            span: span.copy(),
        },
    )
}

/// A value where a type may be expected of it.
pub open spec fn fitted(fx: Facts, expected: Option<TypeV>, e: ExprT, span: SpanV) -> Result<
    ExprT,
    MetelErrorV,
> {
    match expected {
        Some(t) => match read_copy(fx, t, e, span) {
            Ok(x) => coerced(fx, t, x, span),
            Err(x) => Err(x),
        },
        None => Ok(e),
    }
}

/// A value where a type may be expected of it.
pub fn fit<'a>(fx: &Facts<'a, '_>, expected: Option<&Type>, e: TypedExpr<'a>, span: &Span) -> (r: Result<
    TypedExpr<'a>,
    MetelError,
>)
    ensures
        expr_result(r) == fitted(*fx, hint_view(expected), expr_tree(e), span@),
{
    match expected {
        Some(t) => match maybe_read_copy(fx, t, e, span) {
            Ok(x) => maybe_singleton_coerce(fx, t, x, span),
            Err(x) => Err(x),
        },
        None => Ok(e),
    }
}

} // verus!
