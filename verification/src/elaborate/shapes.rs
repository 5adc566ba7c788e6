//! What a typed expression becomes under an operator, and the expressions that `?` stands for.
use vstd::prelude::*;
use crate::ast::{Expr, FunDecl, ImplBlock, Literal, Pattern, Polarity, SymbolId, TypeExpr, UnaryOp};
use crate::error::{opt_error, type_failure, MetelError, MetelErrorV, TypeErrorCode};
use crate::lookup::{enum_of, has_variant};
use crate::registry::{aspect_of, struct_of, EnumInfo};
use crate::span::{Span, SpanV};
use crate::text::{joined3, joined5, same_text, texts};
use crate::typed_ast::{ty_of, TypedBlock, TypedDecl, TypedExpr, TypedMatchArm, TypedMatchExpr};
use crate::typed_ast::{TypedReturnExpr, TypedStmt};
use crate::types::{numeric, peel_type_references, peeled, type_text, type_view, types_view, Type};
use crate::types::TypeV;
use super::fields::{tuple_bounds_message, tuple_bounds_text};
use super::pattern::{as_struct_pattern, copy_pattern, pattern_view, qualified, resolve_bare_variant};
use super::pattern::{resolve_struct_pattern, variants_view, PatternV};
use super::rules::{expected_enum, is_lvalue_path, names_place, needs_annotation};
use super::rules::{resolve_expected_enum, shared_reference_root_in_lvalue_path, shared_root};
use super::rules::{type_to_type_expr, unqualified_variant_needs_annotation_error, written_type};
use super::state::{fields_of, hint_view, Elaborator, Facts, StateV};
use super::tree::{arm_tree, arm_trees, block_tree, decl_tree, decl_trees, expr_result, expr_tree};
use super::tree::{field_trees, lemma_tree_ty, stmt_tree, tree_ty, type_result, ArmT, BlockT, DeclT};
use super::tree::{ExprT, StmtT};
use crate::lookup::variant_exists;

verus! {

/// The symbol of the type `Result`.
pub const SYM_TYPE_RESULT: u32 = 11;

/// What is expected of the operand of a unary operator: a negated literal has the type that is
/// expected of it, unless that type has no negative values.
pub open spec fn operand_hint(op: UnaryOp, hint: Option<TypeV>) -> Option<TypeV> {
    if op == UnaryOp::Neg {
        match hint {
            Some(TypeV::U8) => None,
            Some(TypeV::U16) => None,
            Some(TypeV::U32) => None,
            Some(TypeV::U64) => None,
            other => other,
        }
    } else {
        None
    }
}

/// What is expected of the operand of a unary operator.
pub fn hint_operand(op: UnaryOp, hint: Option<&Type>) -> (r: Option<&Type>)
    ensures
        hint_view(r) == operand_hint(op, hint_view(hint)),
{
    if op != UnaryOp::Neg {
        return None;
    }
    match hint {
        Some(Type::U8) => None,
        Some(Type::U16) => None,
        Some(Type::U32) => None,
        Some(Type::U64) => None,
        other => other,
    }
}

/// An operand under a unary operator. A reference to what is no place is a reference to a fresh
/// cell that holds the value, and a `&var` reference cannot be had through a shared one.
pub open spec fn unary_expr(op: UnaryOp, e: ExprT, span: SpanV) -> Result<ExprT, MetelErrorV> {
    let t = tree_ty(e);
    match op {
        UnaryOp::Neg => if t is Never || numeric(t) {
            Ok(ExprT::UnaryOp(op, Box::new(e), t, span))
        } else {
            Err(
                type_failure(
                    TypeErrorCode::T0005,
                    "unary negation requires a numeric type operand, got `"@ + type_text(t) + "`"@,
                    span,
                ),
            )
        },
        UnaryOp::Not => Ok(ExprT::UnaryOp(op, Box::new(e), TypeV::Boolean, span)),
        UnaryOp::Ref => {
            let ty = TypeV::Reference(Box::new(t));
            if names_place(e) {
                Ok(ExprT::UnaryOp(op, Box::new(e), ty, span))
            } else {
                Ok(ExprT::RefTemp { init: Box::new(e), mutable: false, ty, span })
            }
        },
        UnaryOp::RefMut => {
            let ty = TypeV::MutReference(Box::new(t));
            if !names_place(e) {
                Ok(ExprT::RefTemp { init: Box::new(e), mutable: true, ty, span })
            } else {
                match shared_root(e) {
                    Some(inner) => Err(
                        type_failure(
                            TypeErrorCode::T0006,
                            "cannot take `&var` through a shared reference `&"@ + type_text(inner)
                                + "`; a shared reference never grants write access"@,
                            span,
                        ),
                    ),
                    None => Ok(ExprT::UnaryOp(op, Box::new(e), ty, span)),
                }
            }
        },
        UnaryOp::Deref => match t {
            TypeV::Reference(inner) => Ok(ExprT::UnaryOp(op, Box::new(e), *inner, span)),
            TypeV::MutReference(inner) => Ok(ExprT::UnaryOp(op, Box::new(e), *inner, span)),
            _ => Err(
                type_failure(
                    TypeErrorCode::T0002,
                    "cannot dereference non-pointer type `"@ + type_text(t) + "`"@,
                    span,
                ),
            ),
        },
    }
}

/// An operand under a unary operator.
pub fn apply_unary<'a>(op: UnaryOp, e: TypedExpr<'a>, span: &Span) -> (r: Result<
    TypedExpr<'a>,
    MetelError,
>)
    ensures
        expr_result(r) == unary_expr(op, expr_tree(e), span@),
{
    broadcast use lemma_tree_ty;

    assert(tree_ty(expr_tree(e)) == ty_of(e)@);
    let ty: Type = match op {
        UnaryOp::Neg => {
            if !matches!(e.ty(), Type::Never) && !e.ty().is_numeric() {
                return Err(
                    MetelError::type_error(
                        TypeErrorCode::T0005,
                        joined3(
                            "unary negation requires a numeric type operand, got `",
                            e.ty().describe().as_str(),
                            "`",
                        ),
                        span,
                    ),
                );
            }
            e.ty().copy()
        },
        UnaryOp::Not => Type::Boolean,
        UnaryOp::Ref => {
            let ty: Type = Type::Reference(Box::new(e.ty().copy()));
            if !is_lvalue_path(&e) {
                return Ok(
                    TypedExpr::RefTemp { init: Box::new(e), mutable: false, ty, span: span.copy() },
                );
            }
            ty
        },
        UnaryOp::RefMut => {
            let ty: Type = Type::MutReference(Box::new(e.ty().copy()));
            if !is_lvalue_path(&e) {
                return Ok(
                    TypedExpr::RefTemp { init: Box::new(e), mutable: true, ty, span: span.copy() },
                );
            }
            if let Some(inner) = shared_reference_root_in_lvalue_path(&e) {
                return Err(
                    MetelError::type_error(
                        TypeErrorCode::T0006,
                        joined3(
                            "cannot take `&var` through a shared reference `&",
                            inner.describe().as_str(),
                            "`; a shared reference never grants write access",
                        ),
                        span,
                    ),
                );
            }
            ty
        },
        UnaryOp::Deref => match e.ty() {
            Type::Reference(inner) => inner.copy(),
            Type::MutReference(inner) => inner.copy(),
            t => {
                return Err(
                    MetelError::type_error(
                        TypeErrorCode::T0002,
                        joined3(
                            "cannot dereference non-pointer type `",
                            t.describe().as_str(),
                            "`",
                        ),
                        span,
                    ),
                );
            },
        },
    };
    Ok(TypedExpr::UnaryOp(op, Box::new(e), ty, span.copy()))
}

/// What is said of an index of another type than `u64`.
pub open spec fn index_type_error(t: TypeV, span: SpanV) -> MetelErrorV {
    type_failure(
        TypeErrorCode::T0001,
        "array index must be u64, got "@ + type_text(t) + "; use `expr as u64`"@,
        span,
    )
}

/// What is said of an index of another type than `u64`.
pub fn wrong_index(t: &Type, span: &Span) -> (r: MetelError)
    ensures
        r@ == index_type_error(t@, span@),
{
    MetelError::type_error(
        TypeErrorCode::T0001,
        joined3("array index must be u64, got ", t.describe().as_str(), "; use `expr as u64`"),
        span,
    )
}

/// Whether an expression is an integer literal.
pub open spec fn is_integer_literal(e: Expr) -> bool {
    match e {
        Expr::Literal(lit, _) => lit is Int || lit is SizedInt,
        _ => false,
    }
}

/// The type of an element that is read.
pub open spec fn indexed(object: TypeV, index: TypeV, literal: bool, span: SpanV) -> Result<
    TypeV,
    MetelErrorV,
> {
    if index != TypeV::U64 {
        Err(index_type_error(index, span))
    } else {
        match peeled(object) {
            TypeV::SizedArray(item, n) => if n == 0 && literal {
                Err(
                    type_failure(
                        TypeErrorCode::T0001,
                        "cannot index an empty fixed-size array with a literal index"@,
                        span,
                    ),
                )
            } else {
                Ok(*item)
            },
            TypeV::Array(item) => Ok(*item),
            _ => Err(
                type_failure(TypeErrorCode::T0001, "indexed value is not an array"@, span),
            ),
        }
    }
}

/// The type of an element that is read.
pub fn indexed_type(object: &Type, index: &Type, source: &Expr, span: &Span) -> (r: Result<
    Type,
    MetelError,
>)
    ensures
        type_result(r) == indexed(object@, index@, is_integer_literal(*source), span@),
{
    if !matches!(index, Type::U64) {
        return Err(wrong_index(index, span));
    }
    let literal: bool = match source {
        Expr::Literal(lit, _) => matches!(lit, Literal::Int(_) | Literal::SizedInt { .. }),
        _ => false,
    };
    match peel_type_references(object) {
        Type::SizedArray(item, n) => {
            if *n == 0 && literal {
                return Err(
                    MetelError::type_error(
                        TypeErrorCode::T0001,
                        "cannot index an empty fixed-size array with a literal index".to_owned(),
                        span,
                    ),
                );
            }
            Ok(item.copy())
        },
        Type::Array(item) => Ok(item.copy()),
        _ => Err(
            MetelError::type_error(
                TypeErrorCode::T0001,
                "indexed value is not an array".to_owned(),
                span,
            ),
        ),
    }
}

/// The type of a tuple element that is read.
pub open spec fn read_element(object: TypeV, index: usize, span: SpanV) -> Result<
    TypeV,
    MetelErrorV,
> {
    match peeled(object) {
        TypeV::Tuple(items) => if index < items.len() {
            Ok(items[index as int])
        } else {
            Err(type_failure(TypeErrorCode::T0003, tuple_bounds_text(index, items.len()), span))
        },
        _ => Err(
            type_failure(
                TypeErrorCode::T0002,
                "cannot infer tuple type for index access; add a type annotation"@,
                span,
            ),
        ),
    }
}

/// The type of a tuple element that is read.
pub fn read_element_type(object: &Type, index: usize, span: &Span) -> (r: Result<Type, MetelError>)
    ensures
        type_result(r) == read_element(object@, index, span@),
{
    match peel_type_references(object) {
        Type::Tuple(items) => {
            assert(types_view(items@).len() == items@.len());
            if index < items.len() {
                assert(types_view(items@)[index as int] == type_view(items@[index as int]));
                Ok(items[index].copy())
            } else {
                Err(
                    MetelError::type_error(
                        TypeErrorCode::T0003,
                        tuple_bounds_message(index, items.len()),
                        span,
                    ),
                )
            }
        },
        _ => Err(
            MetelError::type_error(
                TypeErrorCode::T0002,
                "cannot infer tuple type for index access; add a type annotation".to_owned(),
                span,
            ),
        ),
    }
}

/// The two type arguments of a `Result`.
pub open spec fn result_args(t: TypeV) -> Option<(TypeV, TypeV)> {
    match t {
        TypeV::Named(name, args) => if name == "Result"@ && args.len() == 2 {
            Some((args[0], args[1]))
        } else {
            None
        },
        _ => None,
    }
}

fn result_types(t: &Type) -> (r: Option<(Type, Type)>)
    ensures
        match r {
            Some(p) => result_args(t@) == Some((p.0@, p.1@)),
            None => result_args(t@) is None,
        },
{
    if let Type::Named(name, args) = t {
        assert(types_view(args@).len() == args@.len());
        if same_text(name.as_str(), "Result") && args.len() == 2 {
            assert(types_view(args@)[0] == type_view(args@[0]));
            assert(types_view(args@)[1] == type_view(args@[1]));
            return Some((args[0].copy(), args[1].copy()));
        }
    }
    None
}

/// A pattern for one variant of `Result` that binds its field.
pub open spec fn result_pattern(variant: Seq<char>, field: Seq<char>, span: SpanV) -> PatternV {
    PatternV::EnumVariant {
        path: seq!["Result"@, variant],
        fields: seq![field],
        rest: false,
        span,
    }
}

/// The error as it is handed on: unchanged, or cast to the error type of the function.
pub open spec fn handed_error(from: TypeV, to: TypeV, span: SpanV) -> ExprT {
    let e = ExprT::Ident("error"@, from, span);
    if from == to {
        e
    } else {
        ExprT::Cast { expr: Box::new(e), target_type: written_type(to), ty: to, span }
    }
}

/// The arm of `?` for an `Ok`: its value.
pub open spec fn ok_arm_of(ok: TypeV, span: SpanV) -> ArmT {
    ArmT {
        pattern: result_pattern("Ok"@, "value"@, span),
        guard: None,
        body: BlockT {
            stmts: Seq::empty(),
            tail: Some(Box::new(ExprT::Ident("value"@, ok, span))),
            span,
        },
        span,
    }
}

/// The `Err` that `?` returns.
pub open spec fn err_literal(from: TypeV, to: TypeV, ret: TypeV, span: SpanV) -> ExprT {
    ExprT::StructLiteral {
        path: seq!["Result"@, "Err"@],
        fields: seq![("error"@, handed_error(from, to, span))],
        ty: ret,
        type_id: Some(SymbolId(SYM_TYPE_RESULT)),
        span,
    }
}

/// The statement that returns a value.
pub open spec fn returned(e: ExprT, span: SpanV) -> DeclT {
    DeclT::Stmt(Box::new(StmtT::Expr(ExprT::Return(Some(Box::new(e)), span))))
}

/// The arm of `?` for an `Err`: a return of it.
pub open spec fn err_arm_of(from: TypeV, to: TypeV, ret: TypeV, span: SpanV) -> ArmT {
    ArmT {
        pattern: result_pattern("Err"@, "error"@, span),
        guard: None,
        body: BlockT {
            stmts: seq![returned(err_literal(from, to, ret, span), span)],
            tail: None,
            span,
        },
        span,
    }
}

/// The match that `?` stands for: the value of an `Ok`, or a return of the `Err`.
pub open spec fn propagation(
    e: ExprT,
    ok: TypeV,
    from: TypeV,
    to: TypeV,
    ret: TypeV,
    span: SpanV,
) -> ExprT {
    ExprT::Match {
        scrutinee: Box::new(e),
        arms: seq![ok_arm_of(ok, span), err_arm_of(from, to, ret, span)],
        ty: ok,
        span,
    }
}

/// An expression under `?`, inside a function with a return type.
pub open spec fn propagated(e: ExprT, ret: Option<TypeV>, span: SpanV) -> Result<ExprT, MetelErrorV> {
    match result_args(tree_ty(e)) {
        None => Err(
            type_failure(
                TypeErrorCode::T0005,
                "`?` requires a Result<T, E> expression, got `"@ + type_text(tree_ty(e)) + "`"@,
                span,
            ),
        ),
        Some(own) => match ret {
            None => Err(
                type_failure(
                    TypeErrorCode::T0005,
                    "`?` can only be used inside a function or closure that returns Result<T, E>"@,
                    span,
                ),
            ),
            Some(t) => match result_args(t) {
                None => Err(
                    type_failure(
                        TypeErrorCode::T0005,
                        "`?` requires the enclosing function to return Result<T, E>, got `"@
                            + type_text(t) + "`"@,
                        span,
                    ),
                ),
                Some(outer) => Ok(propagation(e, own.0, own.1, outer.1, t, span)),
            },
        },
    }
}

fn two(a: &str, b: &str) -> (r: Vec<String>)
    ensures
        texts(r@) == seq![a@, b@],
{
    let mut out: Vec<String> = Vec::new();
    out.push(a.to_owned());
    out.push(b.to_owned());
    assert(texts(out@) =~= seq![a@, b@]);
    out
}

fn result_variant(variant: &str, field: &str, span: &Span) -> (r: Pattern)
    ensures
        pattern_view(r) == result_pattern(variant@, field@, span@),
{
    let mut fields: Vec<String> = Vec::new();
    fields.push(field.to_owned());
    assert(texts(fields@) =~= seq![field@]);
    Pattern::EnumVariant { path: two("Result", variant), fields, rest: false, span: span.copy() }
}

fn hand_error<'a>(from: Type, to: Type, span: &Span) -> (r: TypedExpr<'a>)
    ensures
        expr_tree(r) == handed_error(from@, to@, span@),
{
    let same: bool = from.same(&to);
    let e: TypedExpr<'a> = TypedExpr::Ident("error".to_owned(), from, span.copy());
    assert(expr_tree(e) == ExprT::Ident("error"@, from@, span@));
    if same {
        e
    } else {
        TypedExpr::Cast {
            expr: Box::new(e),
            target_type: type_to_type_expr(&to),
            ty: to,
            span: span.copy(),
        }
    }
}

fn ok_arm<'a>(ok: Type, span: &Span) -> (r: TypedMatchArm<'a>)
    ensures
        arm_tree(r) == ok_arm_of(ok@, span@),
{
    let value: TypedExpr<'a> = TypedExpr::Ident("value".to_owned(), ok, span.copy());
    assert(expr_tree(value) == ExprT::Ident("value"@, ok@, span@));
    let stmts: Vec<TypedDecl<'a>> = Vec::new();
    assert(decl_trees(stmts@) =~= Seq::empty());
    let body: TypedBlock<'a> = TypedBlock {
        stmts,
        tail: Some(Box::new(value)),
        span: span.copy(),
    };
    assert(block_tree(body).tail == Some(Box::new(ExprT::Ident("value"@, ok@, span@))));
    TypedMatchArm {
        pattern: result_variant("Ok", "value", span),
        guard: None,
        body,
        span: span.copy(),
    }
}

fn err_value<'a>(from: Type, to: Type, ret: Type, span: &Span) -> (r: TypedExpr<'a>)
    ensures
        expr_tree(r) == err_literal(from@, to@, ret@, span@),
{
    let error: TypedExpr<'a> = hand_error(from, to, span);
    let ghost handed = expr_tree(error);
    let mut fields: Vec<(String, TypedExpr<'a>)> = Vec::new();
    fields.push(("error".to_owned(), error));
    assert(field_trees(fields@) =~= seq![("error"@, handed)]);
    TypedExpr::StructLiteral {
        path: two("Result", "Err"),
        fields,
        ty: ret,
        type_id: Some(SymbolId(SYM_TYPE_RESULT)),
        span: span.copy(),
    }
}

fn return_of<'a>(e: TypedExpr<'a>, span: &Span) -> (r: TypedDecl<'a>)
    ensures
        decl_tree(r) == returned(expr_tree(e), span@),
{
    let ghost tree = expr_tree(e);
    let back: TypedExpr<'a> = TypedExpr::Return(
        TypedReturnExpr { value: Some(Box::new(e)), span: span.copy() },
    );
    assert(expr_tree(back) == ExprT::Return(Some(Box::new(tree)), span@));
    let stmt: TypedStmt<'a> = TypedStmt::Expr(back);
    assert(stmt_tree(stmt) == StmtT::Expr(ExprT::Return(Some(Box::new(tree)), span@)));
    TypedDecl::Stmt(Box::new(stmt))
}

fn err_arm<'a>(from: Type, to: Type, ret: Type, span: &Span) -> (r: TypedMatchArm<'a>)
    ensures
        arm_tree(r) == err_arm_of(from@, to@, ret@, span@),
{
    let decl: TypedDecl<'a> = return_of(err_value(from, to, ret, span), span);
    let ghost one = decl_tree(decl);
    let mut stmts: Vec<TypedDecl<'a>> = Vec::new();
    stmts.push(decl);
    assert(decl_trees(stmts@) =~= seq![one]);
    let body: TypedBlock<'a> = TypedBlock { stmts, tail: None, span: span.copy() };
    assert(block_tree(body) == (BlockT { stmts: seq![one], tail: None, span: span@ }));
    TypedMatchArm {
        pattern: result_variant("Err", "error", span),
        guard: None,
        body,
        span: span.copy(),
    }
}

/// An expression under `?`, inside a function with a return type.
pub fn propagate<'a>(e: TypedExpr<'a>, ret: &Option<Type>, span: &Span) -> (r: Result<
    TypedExpr<'a>,
    MetelError,
>)
    ensures
        expr_result(r) == propagated(expr_tree(e), super::state::opt_type(*ret), span@),
{
    broadcast use lemma_tree_ty;

    assert(tree_ty(expr_tree(e)) == ty_of(e)@);
    let (ok, from): (Type, Type) = match result_types(e.ty()) {
        Some(p) => p,
        None => {
            return Err(
                MetelError::type_error(
                    TypeErrorCode::T0005,
                    joined3(
                        "`?` requires a Result<T, E> expression, got `",
                        e.ty().describe().as_str(),
                        "`",
                    ),
                    span,
                ),
            );
        },
    };
    let outer: &Type = match ret {
        Some(t) => t,
        None => {
            return Err(
                MetelError::type_error(
                    TypeErrorCode::T0005,
                    "`?` can only be used inside a function or closure that returns Result<T, E>".to_owned(),
                    span,
                ),
            );
        },
    };
    let to: Type = match result_types(outer) {
        Some(p) => p.1,
        None => {
            return Err(
                MetelError::type_error(
                    TypeErrorCode::T0005,
                    joined3(
                        "`?` requires the enclosing function to return Result<T, E>, got `",
                        outer.describe().as_str(),
                        "`",
                    ),
                    span,
                ),
            );
        },
    };
    let ghost both = seq![ok_arm_of(ok@, span@), err_arm_of(from@, to@, outer@, span@)];
    let mut arms: Vec<TypedMatchArm<'a>> = Vec::new();
    arms.push(ok_arm(ok.copy(), span));
    arms.push(err_arm(from, to, outer.copy(), span));
    assert(arm_trees(arms@) =~= both);
    Ok(
        TypedExpr::Match(
            TypedMatchExpr { scrutinee: Box::new(e), arms, expr_type: ok, span: span.copy() },
        ),
    )
}

/// The variants of an enum, each with whether it has no fields.
pub open spec fn variant_list(info: EnumInfo) -> Seq<(Seq<char>, bool)> {
    Seq::new(
        info.variants@.len(),
        |i: int| (info.variants@[i].name@, info.variants@[i].fields@.len() == 0),
    )
}

/// A pattern as it is meant for a scrutinee of a type: variants with their enum, structs as
/// structs.
pub open spec fn meant_pattern(fx: Facts, ty: TypeV, p: PatternV) -> PatternV {
    match ty {
        TypeV::Named(name, _) => match enum_of(*fx.registry, name) {
            Some(info) => qualified(p, name, variant_list(info)),
            None => if struct_of(*fx.registry, name) is Some {
                as_struct_pattern(p, name)
            } else {
                p
            },
        },
        _ => p,
    }
}

fn list_variants(info: &EnumInfo) -> (r: Vec<(String, bool)>)
    ensures
        variants_view(r@) == variant_list(*info),
{
    let mut out: Vec<(String, bool)> = Vec::new();
    let mut i: usize = 0;
    while i < info.variants.len()
        invariant
            i <= info.variants@.len(),
            out@.len() == i,
            forall|k: int|
                0 <= k < i ==> (#[trigger] out@[k]).0@ == info.variants@[k].name@ && out@[k].1 == (
                info.variants@[k].fields@.len() == 0),
        decreases info.variants@.len() - i,
    {
        out.push((info.variants[i].name.clone(), info.variants[i].fields.len() == 0));
        i += 1;
    }
    assert(variants_view(out@) =~= variant_list(*info));
    out
}

/// A pattern as it is meant for a scrutinee of a type.
pub fn resolve_pattern(fx: &Facts, ty: &Type, p: &Pattern) -> (r: Pattern)
    ensures
        pattern_view(r) == meant_pattern(*fx, ty@, pattern_view(*p)),
{
    if let Type::Named(name, _) = ty {
        if let Some(info) = fx.registry.enum_info(name.as_str()) {
            let variants: Vec<(String, bool)> = list_variants(info);
            return resolve_bare_variant(p, name.as_str(), &variants);
        }
        if fx.registry.struct_info(name.as_str()).is_some() {
            return resolve_struct_pattern(p, name.as_str());
        }
    }
    copy_pattern(p)
}

/// The path of a struct literal, with the enum of a variant that is written without it.
pub open spec fn literal_path(
    fx: Facts,
    st: StateV,
    path: Seq<Seq<char>>,
    hint: Option<TypeV>,
    span: SpanV,
) -> Result<Seq<Seq<char>>, MetelErrorV> {
    if path.len() == 1 && variant_exists(*fx.registry, path[0]) && fields_of(st.structs, path[0])
        is None && struct_of(*fx.registry, path[0]) is None {
        match hint {
            None => Err(needs_annotation(path[0], span)),
            Some(t) => match expected_enum(*fx.registry, hint, span) {
                Err(e) => Err(e),
                Ok(found) => if has_variant(found.1, path[0]) {
                    Ok(seq![found.0, path[0]])
                } else {
                    Err(
                        type_failure(
                            TypeErrorCode::T0001,
                            "cannot unify `"@ + path[0] + "` with `"@ + type_text(t) + "`"@,
                            span,
                        ),
                    )
                },
            },
        }
    } else {
        Ok(path)
    }
}

fn enum_has_variant(info: &EnumInfo, name: &str) -> (r: bool)
    ensures
        r == has_variant(*info, name@),
{
    let mut i: usize = 0;
    while i < info.variants.len()
        invariant
            i <= info.variants@.len(),
            forall|k: int| 0 <= k < i ==> (#[trigger] info.variants@[k]).name@ != name@,
        decreases info.variants@.len() - i,
    {
        if same_text(info.variants[i].name.as_str(), name) {
            return true;
        }
        i += 1;
    }
    false
}

impl<'a, 'c> Elaborator<'a, 'c> {
    /// The path of a struct literal, with the enum of a variant that is written without it.
    pub fn resolve_literal_path(&self, path: &Vec<String>, hint: Option<&Type>, span: &Span) -> (r:
        Result<Vec<String>, MetelError>)
        ensures
            match literal_path(self.fx, self.st(), texts(path@), hint_view(hint), span@) {
                Ok(p) => r matches Ok(x) && texts(x@) == p,
                Err(e) => r matches Err(x) && x@ == e,
            },
    {
        let ghost names = texts(path@);
        assert(names.len() == path@.len());
        if path.len() == 1 {
            assert(names[0] == path@[0]@);
            let name: &str = path[0].as_str();
            if self.fx.registry.has_variant_named(name) && self.get_struct_fields(name).is_none()
                && self.fx.registry.struct_info(name).is_none() {
                return match hint {
                    None => Err(unqualified_variant_needs_annotation_error(name, span)),
                    Some(t) => match resolve_expected_enum(self.fx.registry, hint, span) {
                        Err(e) => Err(e),
                        Ok((enum_name, info)) => if enum_has_variant(info, name) {
                            Ok(two(enum_name.as_str(), name))
                        } else {
                            Err(
                                MetelError::type_error(
                                    TypeErrorCode::T0001,
                                    joined5(
                                        "cannot unify `",
                                        name,
                                        "` with `",
                                        t.describe().as_str(),
                                        "`",
                                    ),
                                    span,
                                ),
                            )
                        },
                    },
                };
            }
        }
        Ok(crate::text::copy_texts(path))
    }
}

/// The name that an impl target goes by in the registry. Arrays, tuples, functions and records
/// have none.
pub open spec fn target_head(te: TypeExpr) -> Option<Seq<char>> {
    match te {
        TypeExpr::Named(name, _) => Some(name@),
        _ => None,
    }
}

/// The name that an impl target goes by, or the empty name.
pub open spec fn target_name(ib: ImplBlock) -> Seq<char> {
    match target_head(ib.target_type) {
        Some(name) => name,
        None => Seq::empty(),
    }
}

/// Whether the bodies of an impl block wait for their type arguments: it has type parameters, or
/// its target has no name.
pub open spec fn defers_bodies(ib: ImplBlock) -> bool {
    ib.generics@.len() > 0 || target_head(ib.target_type) is None
}

/// The name that an impl target goes by, or the empty name.
pub fn impl_target_head(ib: &ImplBlock) -> (r: String)
    ensures
        r@ == target_name(*ib),
{
    match &ib.target_type {
        TypeExpr::Named(name, _) => name.clone(),
        _ => String::new(),
    }
}

/// Whether the bodies of an impl block wait for their type arguments.
pub fn impl_defers_method_bodies(ib: &ImplBlock) -> (r: bool)
    ensures
        r == defers_bodies(*ib),
{
    ib.generics.len() > 0 || !matches!(ib.target_type, TypeExpr::Named(_, _))
}

/// What is said of a destructor that would never run.
pub open spec fn inert_text() -> Seq<char> {
    "a `drop` body cannot run yet: destructor invocation is not implemented (metel-core#292), so this cleanup would silently never happen. Leave the body empty to declare the type `Drop` for its type-level effects — `Copy` exclusion, `!Drop` bounds, and the partial-move ban — or move the cleanup into an ordinary method the caller invokes"@
}

/// Whether a method is a destructor with a body.
pub open spec fn active_destructor(m: FunDecl) -> bool {
    m.name@ == "drop"@ && (m.body.stmts@.len() > 0 || m.body.tail is Some)
}

/// The first destructor with a body among the first `n` methods.
pub open spec fn inert_error(s: Seq<FunDecl>, n: int) -> Option<MetelErrorV>
    decreases n,
{
    if n <= 0 || n > s.len() {
        None
    } else {
        match inert_error(s, n - 1) {
            Some(e) => Some(e),
            None => if active_destructor(s[n - 1]) {
                Some(type_failure(TypeErrorCode::T0001, inert_text(), s[n - 1].span@))
            } else {
                None
            },
        }
    }
}

/// Whether an impl block implements the aspect `Drop` of `std::core`.
pub open spec fn implements_drop(fx: Facts, ib: ImplBlock) -> bool {
    &&& ib.polarity == Polarity::Positive
    &&& ib.aspect_name matches Some(name) && name@ == "Drop"@
    &&& aspect_of(*fx.registry, "Drop"@) matches Some(info) && texts(info.declaring_module@)
        == seq!["std"@, "core"@]
}

/// What is wrong with an impl block of `Drop`: a destructor with a body.
pub open spec fn destructor_error(fx: Facts, ib: ImplBlock) -> Option<MetelErrorV> {
    if implements_drop(fx, ib) {
        inert_error(ib.methods@, ib.methods@.len() as int)
    } else {
        None
    }
}

/// Reject an impl of `Drop` with a destructor that would never run. A type may still declare
/// itself `Drop`.
pub fn reject_inert_destructor(fx: &Facts, ib: &ImplBlock) -> (r: Option<MetelError>)
    ensures
        opt_error(r) == destructor_error(*fx, *ib),
{
    if ib.polarity != Polarity::Positive {
        return None;
    }
    match &ib.aspect_name {
        Some(name) => if !same_text(name.as_str(), "Drop") {
            return None;
        },
        None => {
            return None;
        },
    }
    match fx.registry.aspect_info("Drop") {
        Some(info) => {
            let home: Vec<String> = two("std", "core");
            if !crate::text::same_texts(&info.declaring_module, &home) {
                return None;
            }
        },
        None => {
            return None;
        },
    }
    assert(implements_drop(*fx, *ib));
    let mut failed: Option<MetelError> = None;
    let mut i: usize = 0;
    while i < ib.methods.len()
        invariant
            i <= ib.methods@.len(),
            opt_error(failed) == inert_error(ib.methods@, i as int),
        decreases ib.methods@.len() - i,
    {
        let m: &FunDecl = &ib.methods[i];
        if failed.is_none() && same_text(m.name.as_str(), "drop") && (m.body.stmts.len() > 0
            || m.body.tail.is_some()) {
            failed = Some(
                MetelError::type_error(
                    TypeErrorCode::T0001,
                    "a `drop` body cannot run yet: destructor invocation is not implemented (metel-core#292), so this cleanup would silently never happen. Leave the body empty to declare the type `Drop` for its type-level effects — `Copy` exclusion, `!Drop` bounds, and the partial-move ban — or move the cleanup into an ordinary method the caller invokes".to_owned(),
                    &m.span,
                ),
            );
        }
        i += 1;
    }
    failed
}

} // verus!
