//! What elaboration makes of every construct: its typed tree, or an error, and the state after it.
//!
//! The first number bounds how deep default methods of aspects may nest. A step that fails leaves
//! the state as it was where it failed.
use vstd::prelude::*;
use crate::ast::{expr_span, AspectMethod, AssignTarget, Block, Decl, Expr, ForInit, ForStmt, FunDecl};
use crate::ast::{BinOp, FieldDecl, ImplBlock, MatchArm, Param, Polarity, Stmt, TypeExpr};
use crate::ast::UnaryOp;
use crate::error::{type_failure, MetelErrorV, TypeErrorCode};
use crate::infer::{substituted, InferTypeV, TypeVar};
use crate::lookup::{array_schemes_of, known_schemes_of};
use crate::registry::{array_method_of, aspect_of, MethodCandidate};
use crate::scheme::TypeScheme;
use crate::span::SpanV;
use crate::text::{decimal, join_spec, opt_text, texts};
use crate::typed_ast::MethodDispatch;
use crate::types::{numeric, peeled, primitive_name, type_text, types_view, TypeV};
use super::bounds::labelled;
use super::calls::{as_hints, aspect_symbol, call_hints, called, callee_name, dispatch_of};
use super::calls::{method_bindings, method_hints, method_instance, named_instance, no_match_error};
use super::coerce::fitted;
use super::fields::{bound_pattern, fault, place_ty, projected_field, read_field};
use super::fields::{write_through_error, written_element, Bound};
use super::literals::{closure_params, closure_return, enum_literal_type, explicit_types};
use super::literals::{ident_expr, iterated, method_params, method_return, path_expr, signature};
use super::literals::struct_literal_type;
use super::pattern::pattern_view;
use super::rules::{binop_type, block_type, body_diverges, break_in_block, coverage_error};
use super::rules::{dynamic_array_error, grants_write, literal_type, merged_type, native_key};
use super::schemes::shorter;
use super::shapes::{defers_bodies, destructor_error, indexed, is_integer_literal, literal_path};
use super::shapes::{index_type_error, meant_pattern, operand_hint, propagated, read_element};
use super::shapes::{target_name, unary_expr};
use super::state::{ann_type, bound, bound_params, callee_symbol, concrete_method, fields_of};
use super::state::{in_loop, opt_ann_type, out_of_loop, overload_for, overload_of_decl, overloads_in};
use super::state::{popped, popped_structs, pushed, pushed_structs, scheme_in, type_symbol, var_of};
use super::state::{fun_of, with_fun, with_struct, Facts, LocalFieldV, LocalStructV, OverloadEntry};
use super::state::{refusal_of, StateV};
use super::tree::{tree_ty, tree_types, ArmT, BindingT, BlockT, BodyT, DeclT, ExprT, FunT, InitT};
use super::tree::{PlaceT, StmtT};

verus! {

/// What a step yields, and the state after it.
pub ghost struct Step<T> {
    pub out: Result<T, MetelErrorV>,
    pub st: StateV,
}

/// A step that yields what is known already, and changes nothing.
pub open spec fn yielded<T>(out: Result<T, MetelErrorV>, st: StateV) -> Step<T> {
    Step { out, st }
}

/// A step that succeeds.
pub open spec fn done<T>(x: T, st: StateV) -> Step<T> {
    Step { out: Ok(x), st }
}

/// A step that fails.
pub open spec fn failed<T>(e: MetelErrorV, st: StateV) -> Step<T> {
    Step { out: Err(e), st }
}

/// What elaboration makes of an expression where a type may be expected of it.
pub open spec fn expr_step(fx: Facts, n: nat, e: Expr, hint: Option<TypeV>, st: StateV) -> Step<ExprT>
    decreases n, e, 5int, 0int,
{
    match e {
        Expr::Literal(lit, span) => match literal_type(lit@, hint, span@) {
            Ok(t) => done(ExprT::Literal(lit@, t, span@), st),
            Err(x) => failed(x, st),
        },
        Expr::Ident(name, span) => {
            let found = ident_expr(fx, st, name@, hint, span@);
            Step { out: found.0, st: StateV { next: found.1, ..st } }
        },
        Expr::ResolvedPath { resolved, original, span, .. } => match var_of(st.scopes, resolved@) {
            Some(t) => done(ExprT::Ident(resolved@, t, span@), st),
            None => failed(
                type_failure(
                    TypeErrorCode::T0003,
                    "undefined name `"@ + join_spec(texts(original@), "::"@) + "`"@,
                    span@,
                ),
                st,
            ),
        },
        Expr::Path(path, span) => yielded(path_expr(fx, texts(path@), span@), st),
        Expr::BinOp(_, _, _, _) => binop_step(fx, n, e, st),
        Expr::UnaryOp(op, operand, span) => {
            let x = expr_step(fx, n, *operand, operand_hint(op, hint), st);
            match x.out {
                Ok(t) => yielded(unary_expr(op, t, span@), x.st),
                Err(f) => failed(f, x.st),
            }
        },
        Expr::Tuple(items, span) => {
            let x = exprs_step(fx, n, items@, None, st, items@.len() as int);
            match x.out {
                Ok(s) => done(ExprT::Tuple(s, TypeV::Tuple(tree_types(s)), span@), x.st),
                Err(f) => failed(f, x.st),
            }
        },
        Expr::RecordLiteral { .. } => record_step(fx, n, e, hint, st),
        Expr::Array(_, _) => array_step(fx, n, e, hint, st),
        Expr::RepeatArray(item, count, span) => {
            let x = expr_step(fx, n, *item, item_hint(hint), st);
            match x.out {
                Ok(t) => done(
                    ExprT::RepeatArray(
                        Box::new(t),
                        count,
                        TypeV::SizedArray(Box::new(tree_ty(t)), count),
                        span@,
                    ),
                    x.st,
                ),
                Err(f) => failed(f, x.st),
            }
        },
        Expr::Call { .. } => call_step(fx, n, e, hint, st),
        Expr::Index { .. } => index_step(fx, n, e, st),
        Expr::If { .. } => if_step(fx, n, e, hint, st),
        Expr::Assign { .. } => assign_step(fx, n, e, st),
        Expr::FieldAccess { object, field, span } => {
            let x = expr_step(fx, n, *object, None, st);
            match x.out {
                Ok(t) => match read_field(fx, x.st, tree_ty(t), field@, span@) {
                    Ok(ty) => done(
                        ExprT::FieldAccess { object: Box::new(t), field: field@, ty, span: span@ },
                        x.st,
                    ),
                    Err(f) => failed(f, x.st),
                },
                Err(f) => failed(f, x.st),
            }
        },
        Expr::TupleAccess { object, index, span } => {
            let x = expr_step(fx, n, *object, None, st);
            match x.out {
                Ok(t) => match read_element(tree_ty(t), index, span@) {
                    Ok(ty) => done(
                        ExprT::TupleAccess { object: Box::new(t), index, ty, span: span@ },
                        x.st,
                    ),
                    Err(f) => failed(f, x.st),
                },
                Err(f) => failed(f, x.st),
            }
        },
        Expr::MethodCall { .. } => method_step(fx, n, e, st),
        Expr::StructLiteral { .. } => struct_step(fx, n, e, hint, st),
        Expr::RecordProjection { path, fields, span } => projection_step(
            fx,
            texts(path@),
            texts(fields@),
            span@,
            st,
        ),
        Expr::Closure { .. } => closure_step(fx, n, e, st),
        Expr::Match(_) => match_step(fx, n, e, hint, st),
        Expr::PropagateError { expr, span } => {
            let x = expr_step(fx, n, *expr, None, st);
            match x.out {
                Ok(t) => yielded(propagated(t, x.st.ret, span@), x.st),
                Err(f) => failed(f, x.st),
            }
        },
        Expr::Ascribe { expr, ann, span } => match ann_type(fx, st, ann@, span@) {
            Err(f) => failed(f, st),
            Ok(ty) => {
                let x = expr_step(fx, n, *expr, Some(ty), st);
                match x.out {
                    Ok(t) => yielded(fitted(fx, Some(ty), t, span@), x.st),
                    Err(f) => failed(f, x.st),
                }
            },
        },
        Expr::Cast { expr, target_type, span } => {
            let x = expr_step(fx, n, *expr, None, st);
            match x.out {
                Ok(t) => match ann_type(fx, x.st, target_type@, span@) {
                    Ok(ty) => done(
                        ExprT::Cast {
                            expr: Box::new(t),
                            target_type: target_type@,
                            ty,
                            span: span@,
                        },
                        x.st,
                    ),
                    Err(f) => failed(f, x.st),
                },
                Err(f) => failed(f, x.st),
            }
        },
        Expr::Loop { .. } => loop_step(fx, n, e, hint, st),
        Expr::Return(r) => {
            let x = left_step(fx, n, r.value, st.ret, st);
            match x.out {
                Ok(v) => done(ExprT::Return(v, r.span@), x.st),
                Err(f) => failed(f, x.st),
            }
        },
        Expr::Break(b) => if st.depth == 0 {
            failed(
                type_failure(
                    TypeErrorCode::T0021,
                    "`break` used with no enclosing loop"@,
                    b.span@,
                ),
                st,
            )
        } else {
            let x = left_step(fx, n, b.value, st.brk, st);
            match x.out {
                Ok(v) => done(ExprT::Break(v, b.span@), x.st),
                Err(f) => failed(f, x.st),
            }
        },
        Expr::Continue(span) => if st.depth == 0 {
            failed(
                type_failure(
                    TypeErrorCode::T0021,
                    "`continue` used with no enclosing loop"@,
                    span@,
                ),
                st,
            )
        } else {
            done(ExprT::Continue(span@), st)
        },
    }
}

/// What is expected of the element of an array that is expected.
pub open spec fn item_hint(hint: Option<TypeV>) -> Option<TypeV> {
    match hint {
        Some(TypeV::SizedArray(item, _)) => Some(*item),
        Some(TypeV::Array(item)) => Some(*item),
        _ => None,
    }
}

/// The value that a `return` or a `break` carries, fitted to the type that is expected of it.
pub open spec fn left_step(
    fx: Facts,
    n: nat,
    value: Option<Box<Expr>>,
    ty: Option<TypeV>,
    st: StateV,
) -> Step<Option<Box<ExprT>>>
    decreases n, value, 1int, 0int,
{
    match value {
        None => done(None, st),
        Some(e) => {
            let x = expr_step(fx, n, *e, ty, st);
            match x.out {
                Ok(t) => match fitted(fx, ty, t, expr_span(*e)@) {
                    Ok(v) => done(Some(Box::new(v)), x.st),
                    Err(f) => failed(f, x.st),
                },
                Err(f) => failed(f, x.st),
            }
        },
    }
}

/// The first `k` expressions of a list, all with the same type expected.
pub open spec fn exprs_step(
    fx: Facts,
    n: nat,
    s: Seq<Expr>,
    hint: Option<TypeV>,
    st: StateV,
    k: int,
) -> Step<Seq<ExprT>>
    decreases n, s, 1int, k,
{
    if k <= 0 || k > s.len() {
        done(Seq::empty(), st)
    } else {
        let before = exprs_step(fx, n, s, hint, st, k - 1);
        match before.out {
            Err(_) => before,
            Ok(items) => {
                let x = expr_step(fx, n, s[k - 1], hint, before.st);
                match x.out {
                    Ok(t) => done(items.push(t), x.st),
                    Err(f) => failed(f, x.st),
                }
            },
        }
    }
}

/// The type that is expected at a position.
pub open spec fn hint_at(hints: Seq<Option<TypeV>>, i: int) -> Option<TypeV> {
    if 0 <= i < hints.len() {
        hints[i]
    } else {
        None
    }
}

/// The first `k` arguments of a call, each with the type that is expected of it. Where `strict`
/// is set, an array of unknown length does not pass for one of a known length.
pub open spec fn args_step(
    fx: Facts,
    n: nat,
    s: Seq<Expr>,
    hints: Seq<Option<TypeV>>,
    strict: bool,
    st: StateV,
    k: int,
) -> Step<Seq<ExprT>>
    decreases n, s, 1int, k,
{
    if k <= 0 || k > s.len() {
        done(Seq::empty(), st)
    } else {
        let before = args_step(fx, n, s, hints, strict, st, k - 1);
        match before.out {
            Err(_) => before,
            Ok(items) => {
                let x = expr_step(fx, n, s[k - 1], hint_at(hints, k - 1), before.st);
                match x.out {
                    Ok(t) => match if strict {
                        dynamic_array_error(hint_at(hints, k - 1), t)
                    } else {
                        None
                    } {
                        Some(f) => failed(f, x.st),
                        None => done(items.push(t), x.st),
                    },
                    Err(f) => failed(f, x.st),
                }
            },
        }
    }
}

/// The first `k` named values of a literal, each with the type that is expected under its name.
pub open spec fn named_step(
    fx: Facts,
    n: nat,
    s: Seq<(String, Expr)>,
    hints: Seq<(Seq<char>, TypeV)>,
    st: StateV,
    k: int,
) -> Step<Seq<(Seq<char>, ExprT)>>
    decreases n, s, 1int, k,
{
    if k <= 0 || k > s.len() {
        done(Seq::empty(), st)
    } else {
        let before = named_step(fx, n, s, hints, st, k - 1);
        match before.out {
            Err(_) => before,
            Ok(items) => {
                let x = expr_step(fx, n, s[k - 1].1, hint_under(hints, s[k - 1].0@), before.st);
                match x.out {
                    Ok(t) => done(items.push((s[k - 1].0@, t)), x.st),
                    Err(f) => failed(f, x.st),
                }
            },
        }
    }
}

/// The type that is expected under a name.
pub open spec fn hint_under(hints: Seq<(Seq<char>, TypeV)>, name: Seq<char>) -> Option<TypeV> {
    match labelled(hints, name) {
        Some(f) => Some(f.1),
        None => None,
    }
}

/// The operands of a binary operator. A literal that has its default type is typed anew where the
/// other operand has another numeric type.
pub open spec fn operands_step(fx: Facts, n: nat, e: Expr, st: StateV) -> Step<(ExprT, ExprT)>
    decreases n, e, 1int, 0int,
{
    match e {
        Expr::BinOp(left, _, right, _) => {
            let a = expr_step(fx, n, *left, None, st);
            match a.out {
                Err(f) => failed(f, a.st),
                Ok(l) => {
                    let b = expr_step(fx, n, *right, None, a.st);
                    match b.out {
                        Err(f) => failed(f, b.st),
                        Ok(r) => {
                            let lt = tree_ty(l);
                            let rt = tree_ty(r);
                            if (lt is I64 || lt is F64) && numeric(rt) && rt != lt {
                                let c = expr_step(fx, n, *left, Some(rt), b.st);
                                match c.out {
                                    Err(f) => failed(f, c.st),
                                    Ok(x) => done((x, r), c.st),
                                }
                            } else if (rt is I64 || rt is F64) && numeric(lt) && lt != rt {
                                let c = expr_step(fx, n, *right, Some(lt), b.st);
                                match c.out {
                                    Err(f) => failed(f, c.st),
                                    Ok(x) => done((l, x), c.st),
                                }
                            } else {
                                done((l, r), b.st)
                            }
                        },
                    }
                },
            }
        },
        _ => arbitrary(),
    }
}

/// A binary operation.
pub open spec fn binop_step(fx: Facts, n: nat, e: Expr, st: StateV) -> Step<ExprT>
    decreases n, e, 2int, 0int,
{
    match e {
        Expr::BinOp(_, op, _, span) => {
            let x = operands_step(fx, n, e, st);
            match x.out {
                Err(f) => failed(f, x.st),
                Ok(p) => match binop_type(op, tree_ty(p.0), span@) {
                    Ok(t) => done(
                        ExprT::BinOp(Box::new(p.0), op, Box::new(p.1), t, span@),
                        x.st,
                    ),
                    Err(f) => failed(f, x.st),
                },
            }
        },
        _ => arbitrary(),
    }
}

/// The names and types of fields.
pub open spec fn field_types(s: Seq<(Seq<char>, ExprT)>) -> Seq<(Seq<char>, TypeV)> {
    Seq::new(s.len(), |i: int| (s[i].0, tree_ty(s[i].1)))
}

/// A record literal: of the record type that is expected, or of the types of its values.
pub open spec fn record_step(fx: Facts, n: nat, e: Expr, hint: Option<TypeV>, st: StateV) -> Step<ExprT>
    decreases n, e, 4int, 0int,
{
    match e {
        Expr::RecordLiteral { fields, span } => {
            let hints = match hint {
                Some(TypeV::Record(s)) => s,
                _ => Seq::empty(),
            };
            let x = named_step(fx, n, fields@, hints, st, fields@.len() as int);
            match x.out {
                Err(f) => failed(f, x.st),
                Ok(s) => done(
                    ExprT::RecordLiteral {
                        fields: s,
                        ty: match hint {
                            Some(TypeV::Record(h)) => TypeV::Record(h),
                            _ => TypeV::Record(field_types(s)),
                        },
                        span: span@,
                    },
                    x.st,
                ),
            }
        },
        _ => arbitrary(),
    }
}

/// What is said of an array literal of the wrong length.
pub open spec fn array_length_error(expected: u64, got: nat, span: SpanV) -> MetelErrorV {
    type_failure(
        TypeErrorCode::T0001,
        "expected array of "@ + decimal(expected as nat) + " element(s), got "@ + decimal(got),
        span,
    )
}

/// An array literal.
pub open spec fn array_step(fx: Facts, n: nat, e: Expr, hint: Option<TypeV>, st: StateV) -> Step<ExprT>
    decreases n, e, 4int, 0int,
{
    match e {
        Expr::Array(items, span) => if items@.len() == 0 {
            match hint {
                Some(t) => done(ExprT::Array(Seq::empty(), t, span@), st),
                None => failed(
                    type_failure(
                        TypeErrorCode::T0002,
                        "cannot infer element type of empty array; add a type annotation"@,
                        span@,
                    ),
                    st,
                ),
            }
        } else if hint matches Some(TypeV::SizedArray(_, count)) && items@.len() != count {
            failed(
                array_length_error(hint->0->SizedArray_1, items@.len(), span@),
                st,
            )
        } else {
            let x = exprs_step(fx, n, items@, item_hint(hint), st, items@.len() as int);
            match x.out {
                Err(f) => failed(f, x.st),
                Ok(s) => done(
                    ExprT::Array(
                        s,
                        match hint {
                            Some(TypeV::SizedArray(item, count)) => TypeV::SizedArray(item, count),
                            Some(TypeV::Array(item)) => TypeV::Array(item),
                            _ => TypeV::Array(Box::new(tree_ty(s[0]))),
                        },
                        span@,
                    ),
                    x.st,
                ),
            }
        },
        _ => arbitrary(),
    }
}

/// An element of an array.
pub open spec fn index_step(fx: Facts, n: nat, e: Expr, st: StateV) -> Step<ExprT>
    decreases n, e, 4int, 0int,
{
    match e {
        Expr::Index { object, index, span } => {
            let a = expr_step(fx, n, *object, None, st);
            match a.out {
                Err(f) => failed(f, a.st),
                Ok(o) => {
                    let b = expr_step(fx, n, *index, Some(TypeV::U64), a.st);
                    match b.out {
                        Err(f) => failed(f, b.st),
                        Ok(i) => match indexed(
                            tree_ty(o),
                            tree_ty(i),
                            is_integer_literal(*index),
                            span@,
                        ) {
                            Err(f) => failed(f, b.st),
                            Ok(ty) => done(
                                ExprT::Index {
                                    object: Box::new(o),
                                    index: Box::new(i),
                                    ty,
                                    span: span@,
                                },
                                b.st,
                            ),
                        },
                    }
                },
            }
        },
        _ => arbitrary(),
    }
}

/// A conditional. A branch that diverges does not count for its type.
pub open spec fn if_step(fx: Facts, n: nat, e: Expr, hint: Option<TypeV>, st: StateV) -> Step<ExprT>
    decreases n, e, 4int, 0int,
{
    match e {
        Expr::If { condition, then_branch, else_branch, span } => {
            let a = expr_step(fx, n, *condition, None, st);
            match a.out {
                Err(f) => failed(f, a.st),
                Ok(c) => {
                    let b = block_step(fx, n, then_branch, hint, a.st);
                    match b.out {
                        Err(f) => failed(f, b.st),
                        Ok(taken) => match else_branch {
                            None => done(
                                ExprT::If {
                                    condition: Box::new(c),
                                    taken,
                                    other: None,
                                    ty: TypeV::Unit,
                                    span: span@,
                                },
                                b.st,
                            ),
                            Some(block) => {
                                let d = block_step(fx, n, block, hint, b.st);
                                match d.out {
                                    Err(f) => failed(f, d.st),
                                    Ok(other) => done(
                                        ExprT::If {
                                            condition: Box::new(c),
                                            taken,
                                            other: Some(other),
                                            ty: merged_type(
                                                seq![block_type(taken), block_type(other)],
                                            ),
                                            span: span@,
                                        },
                                        d.st,
                                    ),
                                }
                            },
                        },
                    }
                },
            }
        },
        _ => arbitrary(),
    }
}

/// A loop: its type is that of the value which its first `break` carries.
pub open spec fn loop_step(fx: Facts, n: nat, e: Expr, hint: Option<TypeV>, st: StateV) -> Step<ExprT>
    decreases n, e, 4int, 0int,
{
    match e {
        Expr::Loop { body, span } => {
            let x = block_step(fx, n, body, None, in_loop(StateV { brk: hint, ..st }));
            match x.out {
                Err(f) => failed(f, x.st),
                Ok(b) => done(
                    ExprT::Loop {
                        body: b,
                        ty: match break_in_block(b) {
                            Some(t) => t,
                            None => TypeV::Never,
                        },
                        span: span@,
                    },
                    StateV { brk: st.brk, ..out_of_loop(x.st) },
                ),
            }
        },
        _ => arbitrary(),
    }
}

/// A closure.
pub open spec fn closure_step(fx: Facts, n: nat, e: Expr, st: StateV) -> Step<ExprT>
    decreases n, e, 4int, 0int,
{
    match e {
        Expr::Closure { params, return_type, body, span } => match closure_params(
            fx,
            st,
            params@,
            params@.len() as int,
        ) {
            Err(f) => failed(f, st),
            Ok(types) => match closure_return(fx, st, return_type, span@) {
                Err(f) => failed(f, st),
                Ok(ret) => {
                    let inner = bound_params(
                        pushed(st),
                        params@,
                        types,
                        shorter(params@.len(), types.len()),
                    );
                    let x = block_step(
                        fx,
                        n,
                        body,
                        Some(ret),
                        StateV { ret: Some(ret), depth: 0, ..inner },
                    );
                    match x.out {
                        Err(f) => failed(f, x.st),
                        Ok(b) => done(
                            ExprT::Closure {
                                params,
                                return_type,
                                body: b,
                                ty: TypeV::Fun(types, Box::new(ret)),
                                span: span@,
                            },
                            popped(StateV { ret: st.ret, depth: st.depth, ..x.st }),
                        ),
                    }
                },
            },
        },
        _ => arbitrary(),
    }
}

/// The first `k` fields that are projected out of a struct.
pub open spec fn projected_fields(
    fx: Facts,
    st: StateV,
    base: ExprT,
    name: Seq<char>,
    args: Seq<TypeV>,
    fields: Seq<Seq<char>>,
    span: SpanV,
    k: int,
) -> Result<Seq<(Seq<char>, ExprT)>, MetelErrorV>
    decreases k,
{
    if k <= 0 || k > fields.len() {
        Ok(Seq::empty())
    } else {
        match projected_fields(fx, st, base, name, args, fields, span, k - 1) {
            Err(f) => Err(f),
            Ok(before) => match projected_field(fx, st, name, args, fields[k - 1], span) {
                Err(f) => Err(f),
                Ok(ty) => Ok(
                    before.push(
                        (
                            fields[k - 1],
                            ExprT::FieldAccess {
                                object: Box::new(base),
                                field: fields[k - 1],
                                ty,
                                span,
                            },
                        ),
                    ),
                ),
            },
        }
    }
}

/// Some fields of a struct as a record.
pub open spec fn projection_step(
    fx: Facts,
    path: Seq<Seq<char>>,
    fields: Seq<Seq<char>>,
    span: SpanV,
    st: StateV,
) -> Step<ExprT> {
    let base = if path.len() == 1 {
        ident_expr(fx, st, path[0], None, span)
    } else {
        (path_expr(fx, path, span), st.next)
    };
    let after = StateV { next: base.1, ..st };
    match base.0 {
        Err(f) => failed(f, after),
        Ok(b) => match peeled(tree_ty(b)) {
            TypeV::Named(name, args) => match projected_fields(
                fx,
                after,
                b,
                name,
                args,
                fields,
                span,
                fields.len() as int,
            ) {
                Err(f) => failed(f, after),
                Ok(s) => done(
                    ExprT::RecordLiteral { fields: s, ty: TypeV::Record(field_types(s)), span },
                    after,
                ),
            },
            other => failed(
                type_failure(
                    TypeErrorCode::T0002,
                    "record projection requires a nominal struct value, got "@ + type_text(other),
                    span,
                ),
                after,
            ),
        },
    }
}

/// The fields of a struct as hints for the values of a literal, last first: of two fields with one
/// name the last counts.
pub open spec fn struct_hints(st: StateV, name: Seq<char>) -> Seq<(Seq<char>, TypeV)> {
    match fields_of(st.structs, name) {
        Some(s) => Seq::new(
            s.len(),
            |i: int| (s[s.len() - 1 - i].name, s[s.len() - 1 - i].ty),
        ),
        None => Seq::empty(),
    }
}

/// The last segment of a path, or the empty name.
pub open spec fn last_name(path: Seq<Seq<char>>) -> Seq<char> {
    if path.len() == 0 {
        Seq::empty()
    } else {
        path.last()
    }
}

/// A struct or enum literal.
pub open spec fn struct_step(fx: Facts, n: nat, e: Expr, hint: Option<TypeV>, st: StateV) -> Step<ExprT>
    decreases n, e, 4int, 0int,
{
    match e {
        Expr::StructLiteral { path, fields, symbol_id, span } => match literal_path(
            fx,
            st,
            texts(path@),
            hint,
            span@,
        ) {
            Err(f) => failed(f, st),
            Ok(p) => {
                let name = last_name(p);
                let x = named_step(
                    fx,
                    n,
                    fields@,
                    struct_hints(st, name),
                    st,
                    fields@.len() as int,
                );
                match x.out {
                    Err(f) => failed(f, x.st),
                    Ok(s) => {
                        let typed = if p.len() == 2 {
                            enum_literal_type(fx, p[0], p[1], s, hint, span@, x.st.next)
                        } else {
                            (struct_literal_type(fx, name, s, span@), x.st.next)
                        };
                        let after = StateV { next: typed.1, ..x.st };
                        match typed.0 {
                            Err(f) => failed(f, after),
                            Ok(ty) => done(
                                ExprT::StructLiteral {
                                    path: p,
                                    fields: s,
                                    ty,
                                    type_id: match symbol_id {
                                        Some(id) => Some(id),
                                        None => type_symbol(
                                            fx,
                                            if p.len() == 2 {
                                                p[0]
                                            } else {
                                                name
                                            },
                                        ),
                                    },
                                    span: span@,
                                },
                                after,
                            ),
                        }
                    },
                }
            },
        },
        _ => arbitrary(),
    }
}

/// An expression that is part of an assignment target, as a place.
pub open spec fn place_step(fx: Facts, n: nat, e: Expr, st: StateV) -> Step<PlaceT>
    decreases n, e, 4int, 0int,
{
    match e {
        Expr::Ident(name, span) => done(PlaceT::Ident(name@, span@), st),
        Expr::FieldAccess { object, field, span } => {
            let x = place_step(fx, n, *object, st);
            match x.out {
                Err(f) => failed(f, x.st),
                Ok(p) => done(
                    PlaceT::Field { object: Box::new(p), field: field@, span: span@ },
                    x.st,
                ),
            }
        },
        Expr::TupleAccess { object, index, span } => {
            let x = place_step(fx, n, *object, st);
            match x.out {
                Err(f) => failed(f, x.st),
                Ok(p) => yielded(tuple_place(fx, x.st, p, index, span@), x.st),
            }
        },
        Expr::Index { object, index, span } => {
            let x = expr_step(fx, n, *index, Some(TypeV::U64), st);
            match x.out {
                Err(f) => failed(f, x.st),
                Ok(i) => if tree_ty(i) != TypeV::U64 {
                    failed(index_type_error(tree_ty(i), span@), x.st)
                } else {
                    let y = place_step(fx, n, *object, x.st);
                    match y.out {
                        Err(f) => failed(f, y.st),
                        Ok(p) => done(
                            PlaceT::Index {
                                object: Box::new(p),
                                index: Box::new(i),
                                span: span@,
                            },
                            y.st,
                        ),
                    }
                },
            }
        },
        Expr::UnaryOp(op, inner, span) => if op == UnaryOp::Deref {
            let x = expr_step(fx, n, *inner, None, st);
            match x.out {
                Err(f) => failed(f, x.st),
                Ok(t) => done(PlaceT::Deref { object: Box::new(t), span: span@ }, x.st),
            }
        } else {
            failed(fault("invalid sub-expression in assignment target"@), st)
        },
        _ => failed(fault("invalid sub-expression in assignment target"@), st),
    }
}

/// An element of a tuple as a place.
pub open spec fn tuple_place(fx: Facts, st: StateV, p: PlaceT, index: usize, span: SpanV) -> Result<
    PlaceT,
    MetelErrorV,
> {
    match place_ty(fx, st, p, span) {
        Err(f) => Err(f),
        Ok(t) => match written_element(t, index, span) {
            Err(f) => Err(f),
            Ok(_) => Ok(PlaceT::Tuple { object: Box::new(p), index, span }),
        },
    }
}

/// An assignment target as a place.
pub open spec fn target_step(fx: Facts, n: nat, t: AssignTarget, st: StateV) -> Step<PlaceT>
    decreases n, t, 4int, 0int,
{
    match t {
        AssignTarget::Ident(name, span) => done(PlaceT::Ident(name@, span@), st),
        AssignTarget::FieldAccess { object, field, span } => {
            let x = place_step(fx, n, *object, st);
            match x.out {
                Err(f) => failed(f, x.st),
                Ok(p) => done(
                    PlaceT::Field { object: Box::new(p), field: field@, span: span@ },
                    x.st,
                ),
            }
        },
        AssignTarget::TupleAccess { object, index, span } => {
            let x = place_step(fx, n, *object, st);
            match x.out {
                Err(f) => failed(f, x.st),
                Ok(p) => yielded(tuple_place(fx, x.st, p, index, span@), x.st),
            }
        },
        AssignTarget::Index { object, index, span } => {
            let x = expr_step(fx, n, *index, Some(TypeV::U64), st);
            match x.out {
                Err(f) => failed(f, x.st),
                Ok(i) => if tree_ty(i) != TypeV::U64 {
                    failed(index_type_error(tree_ty(i), span@), x.st)
                } else {
                    let y = place_step(fx, n, *object, x.st);
                    match y.out {
                        Err(f) => failed(f, y.st),
                        Ok(p) => done(
                            PlaceT::Index {
                                object: Box::new(p),
                                index: Box::new(i),
                                span: span@,
                            },
                            y.st,
                        ),
                    }
                },
            }
        },
        AssignTarget::Deref { object, span } => {
            let x = expr_step(fx, n, *object, None, st);
            match x.out {
                Err(f) => failed(f, x.st),
                Ok(o) => if tree_ty(o) is MutReference {
                    done(PlaceT::Deref { object: Box::new(o), span: span@ }, x.st)
                } else {
                    failed(write_through_error(tree_ty(o), span@), x.st)
                },
            }
        },
    }
}

/// The type that is expected of an assigned value, and the state once it is known.
pub open spec fn target_hint(fx: Facts, n: nat, t: AssignTarget, st: StateV) -> (Option<TypeV>, StateV)
    decreases n, t, 3int, 0int,
{
    match t {
        AssignTarget::Ident(name, _) => (var_of(st.scopes, name@), st),
        AssignTarget::Deref { object, .. } => {
            let x = expr_step(fx, n, *object, None, st);
            (
                match x.out {
                    Ok(o) => match tree_ty(o) {
                        TypeV::MutReference(inner) => Some(*inner),
                        _ => None,
                    },
                    Err(_) => None,
                },
                x.st,
            )
        },
        _ => (None, st),
    }
}

/// An assignment.
pub open spec fn assign_step(fx: Facts, n: nat, e: Expr, st: StateV) -> Step<ExprT>
    decreases n, e, 4int, 0int,
{
    match e {
        Expr::Assign { target, op, value, span } => {
            let h = target_hint(fx, n, target, st);
            let x = expr_step(fx, n, *value, h.0, h.1);
            match x.out {
                Err(f) => failed(f, x.st),
                Ok(v) => {
                    let y = target_step(fx, n, target, x.st);
                    match y.out {
                        Err(f) => failed(f, y.st),
                        Ok(p) => match place_ty(fx, y.st, p, span@) {
                            Err(f) => failed(f, y.st),
                            Ok(_) => done(
                                ExprT::Assign {
                                    target: p,
                                    op,
                                    value: Box::new(v),
                                    ty: TypeV::Unit,
                                    span: span@,
                                },
                                y.st,
                            ),
                        },
                    }
                },
            }
        },
        _ => arbitrary(),
    }
}

/// A call: of an overload for exactly the types of the arguments, or else of what the callee
/// names otherwise.
pub open spec fn call_step(fx: Facts, n: nat, e: Expr, hint: Option<TypeV>, st: StateV) -> Step<ExprT>
    decreases n, e, 4int, 0int,
{
    match e {
        Expr::Call { callee, args, span, .. } => match callee_name(*callee) {
            None => plain_call_step(fx, n, e, hint, st),
            Some(name) => match overloads_in(fx.overloads@, name) {
                None => plain_call_step(fx, n, e, hint, st),
                Some(entries) => {
                    let x = exprs_step(fx, n, args@, None, st, args@.len() as int);
                    match x.out {
                        Err(f) => failed(f, x.st),
                        Ok(s) => match overload_for(entries, tree_types(s)) {
                            Some(entry) => done(
                                overload_call(name, entry, s, expr_span(*callee)@, span@),
                                x.st,
                            ),
                            None => if var_of(x.st.scopes, name) is Some || scheme_in(
                                fx.schemes@,
                                name,
                            ) is Some {
                                plain_call_step(fx, n, e, hint, x.st)
                            } else {
                                failed(no_match_error(name, tree_types(s), entries, span@), x.st)
                            },
                        },
                    }
                },
            },
        },
        _ => arbitrary(),
    }
}

/// A call of an overload.
pub open spec fn overload_call(
    name: Seq<char>,
    entry: OverloadEntry,
    args: Seq<ExprT>,
    callee_span: SpanV,
    span: SpanV,
) -> ExprT {
    ExprT::Call {
        callee: Box::new(
            ExprT::Ident(
                name,
                TypeV::Fun(types_view(entry.params@), Box::new(entry.ret@)),
                callee_span,
            ),
        ),
        args,
        ty: entry.ret@,
        callee_id: Some(entry.symbol_id),
        span,
    }
}

/// The explicit type arguments of a call, where it has any.
pub open spec fn given_types(fx: Facts, st: StateV, s: Seq<TypeExpr>, span: SpanV) -> Result<
    Option<Seq<TypeV>>,
    MetelErrorV,
> {
    if s.len() == 0 {
        Ok(None)
    } else {
        match explicit_types(fx, st, s, span, s.len() as int) {
            Ok(types) => Ok(Some(types)),
            Err(f) => Err(f),
        }
    }
}

/// A call that is no call of an overload.
pub open spec fn plain_call_step(fx: Facts, n: nat, e: Expr, hint: Option<TypeV>, st: StateV) -> Step<
    ExprT,
>
    decreases n, e, 3int, 0int,
{
    match e {
        Expr::Call { callee, type_args, args, span } => {
            let x = args_step(
                fx,
                n,
                args@,
                call_hints(st, *callee, args@.len()),
                true,
                st,
                args@.len() as int,
            );
            match x.out {
                Err(f) => failed(f, x.st),
                Ok(s) => match given_types(fx, x.st, type_args@, span@) {
                    Err(f) => failed(f, x.st),
                    Ok(explicit) => {
                        let c = callee_step(
                            fx,
                            n,
                            *callee,
                            tree_types(s),
                            explicit,
                            hint,
                            span@,
                            x.st,
                        );
                        match c.out {
                            Err(f) => failed(f, c.st),
                            Ok(t) => finish_call(fx, n, e, t, s, explicit is Some, c.st),
                        }
                    },
                },
            }
        },
        _ => arbitrary(),
    }
}

/// A function that a scheme describes, at a call.
pub open spec fn instance_step(
    fx: Facts,
    name: Seq<char>,
    scheme: TypeScheme,
    args: Seq<TypeV>,
    explicit: Option<Seq<TypeV>>,
    expected: Option<TypeV>,
    span: SpanV,
    st: StateV,
) -> Step<TypeV> {
    let found = named_instance(fx, name, scheme, args, explicit, expected, span, st.next);
    Step { out: found.0, st: StateV { next: found.1, ..st } }
}

/// The callee of a call, at the type that it has there.
pub open spec fn callee_step(
    fx: Facts,
    n: nat,
    callee: Expr,
    args: Seq<TypeV>,
    explicit: Option<Seq<TypeV>>,
    hint: Option<TypeV>,
    span: SpanV,
    st: StateV,
) -> Step<ExprT>
    decreases n, callee, 6int, 0int,
{
    match callee {
        Expr::Ident(name, at) => if var_of(st.scopes, name@) is Some {
            expr_step(fx, n, callee, None, st)
        } else {
            match scheme_in(fx.schemes@, name@) {
                None => failed(
                    type_failure(
                        TypeErrorCode::T0003,
                        "undefined name `"@ + name@ + "`"@,
                        at@,
                    ),
                    st,
                ),
                Some(scheme) => {
                    let x = instance_step(fx, name@, scheme, args, explicit, hint, span, st);
                    match x.out {
                        Err(f) => failed(f, x.st),
                        Ok(t) => done(ExprT::Ident(name@, t, at@), x.st),
                    }
                },
            }
        },
        Expr::Path(path, at) => match path_scheme(fx, st, texts(path@)) {
            None => expr_step(fx, n, callee, None, st),
            Some(found) => {
                let x = instance_step(
                    fx,
                    found.0,
                    found.1,
                    args,
                    explicit,
                    if found.2 {
                        hint
                    } else {
                        None
                    },
                    span,
                    st,
                );
                match x.out {
                    Err(f) => failed(f, x.st),
                    Ok(t) => done(ExprT::Path(texts(path@), t, at@), x.st),
                }
            },
        },
        Expr::ResolvedPath { resolved, span: at, .. } => {
            if var_of(st.scopes, resolved@) is Some {
                expr_step(fx, n, callee, None, st)
            } else {
                match scheme_in(fx.schemes@, resolved@) {
                    None => expr_step(fx, n, callee, None, st),
                    Some(scheme) => {
                        let x = instance_step(
                            fx,
                            resolved@,
                            scheme,
                            args,
                            explicit,
                            None,
                            span,
                            st,
                        );
                        match x.out {
                            Err(f) => failed(f, x.st),
                            Ok(t) => done(ExprT::Ident(resolved@, t, at@), x.st),
                        }
                    },
                }
            }
        },
        _ => expr_step(fx, n, callee, None, st),
    }
}

/// The scheme that a path of several segments names: by all of it, and then the expected type
/// counts, or by its last segment.
pub open spec fn path_scheme(fx: Facts, st: StateV, path: Seq<Seq<char>>) -> Option<
    (Seq<char>, TypeScheme, bool),
> {
    let whole = join_spec(path, "::"@);
    let last = last_name(path);
    if var_of(st.scopes, whole) is None && scheme_in(fx.schemes@, whole) is Some {
        Some((whole, scheme_in(fx.schemes@, whole)->0, true))
    } else if var_of(st.scopes, last) is None && scheme_in(fx.schemes@, last) is Some && !(path.len()
        == 2 && concrete_method(fx, path[0], path[1]) is Some) {
        Some((last, scheme_in(fx.schemes@, last)->0, false))
    } else {
        None
    }
}

/// The arguments of a call once its callee is known: typed anew where their types differ from
/// those of the parameters.
pub open spec fn retyped_args(
    fx: Facts,
    n: nat,
    args: Seq<Expr>,
    fun: TypeV,
    s: Seq<ExprT>,
    st: StateV,
) -> Step<Seq<ExprT>>
    decreases n, args, 2int, 0int,
{
    match fun {
        TypeV::Fun(params, _) => if params.len() == s.len() && tree_types(s) != params {
            args_step(fx, n, args, as_hints(params), false, st, args.len() as int)
        } else {
            done(s, st)
        },
        _ => done(s, st),
    }
}

/// A call once its callee and its arguments are typed.
pub open spec fn finish_call(
    fx: Facts,
    n: nat,
    e: Expr,
    callee: ExprT,
    s: Seq<ExprT>,
    explicit: bool,
    st: StateV,
) -> Step<ExprT>
    decreases n, e, 2int, 0int,
{
    match e {
        Expr::Call { callee: source, args, span, .. } => {
            let fun = called(tree_ty(callee));
            let x = retyped_args(fx, n, args@, fun, s, st);
            match x.out {
                Err(f) => failed(f, x.st),
                Ok(a) => yielded(
                    complete_call(fx, *source, callee, fun, a, explicit, span@),
                    x.st,
                ),
            }
        },
        _ => arbitrary(),
    }
}

/// The call that a typed callee and typed arguments make up.
pub open spec fn complete_call(
    fx: Facts,
    source: Expr,
    callee: ExprT,
    fun: TypeV,
    a: Seq<ExprT>,
    explicit: bool,
    span: SpanV,
) -> Result<ExprT, MetelErrorV> {
    match fun {
        TypeV::Fun(params, ret) => if explicit && params.len() == a.len() && tree_types(a)
            != params {
            Err(type_failure(TypeErrorCode::T0001, "argument type mismatch"@, span))
        } else if params.len() != a.len() {
            Err(
                type_failure(
                    TypeErrorCode::T0004,
                    "expected "@ + decimal(params.len()) + " argument(s), got "@ + decimal(a.len()),
                    span,
                ),
            )
        } else {
            Ok(
                ExprT::Call {
                    callee: Box::new(callee),
                    args: a,
                    ty: *ret,
                    callee_id: callee_symbol(fx, source),
                    span,
                },
            )
        },
        _ => Err(type_failure(TypeErrorCode::T0001, "called a non-function value"@, span)),
    }
}

/// The arguments of a method call for one candidate, and the type of the method.
pub open spec fn candidate_step(
    fx: Facts,
    n: nat,
    args: Seq<Expr>,
    c: MethodCandidate,
    targs: Seq<TypeV>,
    explicit: Option<Seq<TypeV>>,
    method: Seq<char>,
    span: SpanV,
    st: StateV,
) -> Step<(TypeV, Seq<ExprT>)>
    decreases n, args, 2int, 0int,
{
    match method_bindings(c, targs, explicit, span) {
        Err(f) => failed(f, st),
        Ok(m) => match substituted(m, c.scheme.ty@) {
            InferTypeV::Fun(params, _) => {
                let x = args_step(
                    fx,
                    n,
                    args,
                    method_hints(m, params, args.len()),
                    true,
                    st,
                    args.len() as int,
                );
                match x.out {
                    Err(f) => failed(f, x.st),
                    Ok(s) => match method_instance(
                        fx,
                        c.scheme,
                        m,
                        params,
                        tree_types(s),
                        method,
                        span,
                    ) {
                        Err(f) => failed(f, x.st),
                        Ok(t) => done((t, s), x.st),
                    },
                }
            },
            _ => failed(fault("method scheme is not a function type"@), st),
        },
    }
}

/// The first of `k` candidates that fits a method call, with the aspect it comes from, or else
/// what is wrong with the last.
pub open spec fn candidates_step(
    fx: Facts,
    n: nat,
    args: Seq<Expr>,
    s: Seq<MethodCandidate>,
    targs: Seq<TypeV>,
    explicit: Option<Seq<TypeV>>,
    method: Seq<char>,
    span: SpanV,
    st: StateV,
    k: int,
) -> Step<(TypeV, Seq<ExprT>, Option<Seq<char>>)>
    decreases n, args, 3int, k,
{
    if k <= 0 || k > s.len() {
        failed(fault("no candidate"@), st)
    } else {
        let before = candidates_step(fx, n, args, s, targs, explicit, method, span, st, k - 1);
        if before.out is Ok {
            before
        } else {
            let x = candidate_step(
                fx,
                n,
                args,
                s[k - 1],
                targs,
                explicit,
                method,
                span,
                before.st,
            );
            match x.out {
                Err(f) => failed(f, x.st),
                Ok(p) => done((p.0, p.1, opt_text(s[k - 1].aspect)), x.st),
            }
        }
    }
}

/// The method call that a typed receiver and typed arguments make up.
pub open spec fn complete_method(
    receiver: ExprT,
    method: Seq<char>,
    args: Seq<ExprT>,
    fun: TypeV,
    dispatch: MethodDispatch,
    fault_text: Seq<char>,
    span: SpanV,
) -> Result<ExprT, MetelErrorV> {
    match fun {
        TypeV::Fun(_, ret) => Ok(
            ExprT::MethodCall {
                receiver: Box::new(receiver),
                method,
                args,
                ty: *ret,
                dispatch,
                span,
            },
        ),
        _ => Err(fault(fault_text)),
    }
}

/// A method call on an array.
pub open spec fn array_method_step(
    fx: Facts,
    n: nat,
    e: Expr,
    receiver: ExprT,
    item: TypeV,
    explicit: Option<Seq<TypeV>>,
    st: StateV,
) -> Step<ExprT>
    decreases n, e, 3int, 0int,
{
    match e {
        Expr::MethodCall { method, args, span, .. } => {
            let s = match array_schemes_of(*fx.registry, method@) {
                Some(found) => found.candidates@,
                None => Seq::empty(),
            };
            if s.len() == 0 {
                failed(
                    type_failure(
                        TypeErrorCode::T0003,
                        "no method `"@ + method@ + "` on array type"@,
                        span@,
                    ),
                    st,
                )
            } else {
                let x = candidates_step(
                    fx,
                    n,
                    args@,
                    s,
                    seq![item],
                    explicit,
                    method@,
                    span@,
                    st,
                    s.len() as int,
                );
                match x.out {
                    Err(f) => failed(f, x.st),
                    Ok(p) => if array_needs_write(fx, method@) && !grants_write(tree_ty(receiver)) {
                        failed(
                            type_failure(
                                TypeErrorCode::T0008,
                                "cannot call `&var self` method `"@ + method@
                                    + "` through shared receiver"@,
                                span@,
                            ),
                            x.st,
                        )
                    } else {
                        yielded(
                            complete_method(
                                receiver,
                                method@,
                                p.1,
                                p.0,
                                dispatch_of(fx, p.2),
                                "array method type is not a function"@,
                                span@,
                            ),
                            x.st,
                        )
                    },
                }
            }
        },
        _ => arbitrary(),
    }
}

/// Whether a method of every array takes its receiver by `&var`.
pub open spec fn array_needs_write(fx: Facts, method: Seq<char>) -> bool {
    match array_method_of(*fx.registry, method) {
        Some(entry) => entry.receiver == Some(crate::ast::ReceiverKind::RefMut),
        None => false,
    }
}

/// The types that the arguments of a method of a known type are expected to have.
pub open spec fn known_hints(fun: TypeV) -> Seq<Option<TypeV>> {
    match fun {
        TypeV::Fun(params, _) => if params.len() == 0 {
            Seq::empty()
        } else {
            as_hints(params.skip(1))
        },
        _ => Seq::empty(),
    }
}

/// A method call on a value of a type with a name.
pub open spec fn named_method_step(
    fx: Facts,
    n: nat,
    e: Expr,
    receiver: ExprT,
    owner: Seq<char>,
    targs: Seq<TypeV>,
    explicit: Option<Seq<TypeV>>,
    st: StateV,
) -> Step<ExprT>
    decreases n, e, 3int, 0int,
{
    match e {
        Expr::MethodCall { method, args, span, .. } => match concrete_method(fx, owner, method@) {
            Some(fun) => if explicit is Some {
                failed(
                    type_failure(
                        TypeErrorCode::T0004,
                        "method `"@ + method@ + "` on `"@ + owner + "` has no type parameters"@,
                        span@,
                    ),
                    st,
                )
            } else {
                let x = args_step(
                    fx,
                    n,
                    args@,
                    known_hints(fun),
                    true,
                    st,
                    args@.len() as int,
                );
                match x.out {
                    Err(f) => failed(f, x.st),
                    Ok(s) => yielded(
                        complete_method(
                            receiver,
                            method@,
                            s,
                            fun,
                            MethodDispatch::Dynamic,
                            "method type is not a function"@,
                            span@,
                        ),
                        x.st,
                    ),
                }
            },
            None => {
                let s = match known_schemes_of(*fx.registry, *fx.extra, owner, method@) {
                    Some(found) => found.candidates@,
                    None => Seq::empty(),
                };
                if s.len() == 0 {
                    failed(fault("no method `"@ + method@ + "` on `"@ + owner + "`"@), st)
                } else {
                    let x = candidates_step(
                        fx,
                        n,
                        args@,
                        s,
                        targs,
                        explicit,
                        method@,
                        span@,
                        st,
                        s.len() as int,
                    );
                    match x.out {
                        Err(f) => failed(f, x.st),
                        Ok(p) => yielded(
                            complete_method(
                                receiver,
                                method@,
                                p.1,
                                p.0,
                                dispatch_of(fx, p.2),
                                "method type is not a function"@,
                                span@,
                            ),
                            x.st,
                        ),
                    }
                }
            },
        },
        _ => arbitrary(),
    }
}

/// A method call.
pub open spec fn method_step(fx: Facts, n: nat, e: Expr, st: StateV) -> Step<ExprT>
    decreases n, e, 4int, 0int,
{
    match e {
        Expr::MethodCall { receiver, method, type_args, args, span } => {
            let r = expr_step(fx, n, *receiver, None, st);
            match r.out {
                Err(f) => failed(f, r.st),
                Ok(x) => {
                    let t = peeled(tree_ty(x));
                    if (t is Array || t is SizedArray) && args@.len() == 0 && method@ == "len"@ {
                        done(
                            ExprT::MethodCall {
                                receiver: Box::new(x),
                                method: method@,
                                args: Seq::empty(),
                                ty: TypeV::I64,
                                dispatch: MethodDispatch::Dynamic,
                                span: span@,
                            },
                            r.st,
                        )
                    } else {
                        match given_types(fx, r.st, type_args@, span@) {
                            Err(f) => failed(f, r.st),
                            Ok(explicit) => resolved_method_step(fx, n, e, x, t, explicit, r.st),
                        }
                    }
                },
            }
        },
        _ => arbitrary(),
    }
}

/// A method call on a value of a type.
pub open spec fn resolved_method_step(
    fx: Facts,
    n: nat,
    e: Expr,
    x: ExprT,
    t: TypeV,
    explicit: Option<Seq<TypeV>>,
    st: StateV,
) -> Step<ExprT>
    decreases n, e, 3int, 1int,
{
    match t {
        TypeV::Array(item) => array_method_step(fx, n, e, x, *item, explicit, st),
        TypeV::SizedArray(item, _) => array_method_step(fx, n, e, x, *item, explicit, st),
        TypeV::Never => never_method_step(fx, n, e, x, st),
        TypeV::Named(owner, targs) => named_method_step(fx, n, e, x, owner, targs, explicit, st),
        _ => match primitive_name(t) {
            Some(owner) => named_method_step(fx, n, e, x, owner, Seq::empty(), explicit, st),
            None => failed(fault("method call on non-struct type "@ + type_text(t)), st),
        },
    }
}

/// A method call on a value that there is none of.
pub open spec fn never_method_step(fx: Facts, n: nat, e: Expr, x: ExprT, st: StateV) -> Step<ExprT>
    decreases n, e, 3int, 0int,
{
    match e {
        Expr::MethodCall { method, args, span, .. } => {
            let a = exprs_step(fx, n, args@, None, st, args@.len() as int);
            match a.out {
                Err(f) => failed(f, a.st),
                Ok(s) => done(
                    ExprT::MethodCall {
                        receiver: Box::new(x),
                        method: method@,
                        args: s,
                        ty: TypeV::Never,
                        dispatch: MethodDispatch::Dynamic,
                        span: span@,
                    },
                    a.st,
                ),
            }
        },
        _ => arbitrary(),
    }
}

/// An arm of a match on a value of a type.
pub open spec fn arm_step(
    fx: Facts,
    n: nat,
    a: MatchArm,
    ty: TypeV,
    hint: Option<TypeV>,
    st: StateV,
) -> Step<ArmT>
    decreases n, a, 1int, 0int,
{
    let pattern = meant_pattern(fx, ty, pattern_view(a.pattern));
    let b = bound_pattern(fx, pattern, ty, pushed(st));
    match b.err {
        Some(f) => failed(f, b.st),
        None => {
            let g = guard_step(fx, n, a.guard, b.st);
            match g.out {
                Err(f) => failed(f, g.st),
                Ok(guard) => {
                    let x = block_step(fx, n, a.body, hint, g.st);
                    match x.out {
                        Err(f) => failed(f, x.st),
                        Ok(body) => done(
                            ArmT { pattern, guard, body, span: a.span@ },
                            popped(x.st),
                        ),
                    }
                },
            }
        },
    }
}

/// An expression that may be missing.
pub open spec fn guard_step(fx: Facts, n: nat, g: Option<Expr>, st: StateV) -> Step<Option<ExprT>>
    decreases n, g, 1int, 0int,
{
    match g {
        None => done(None, st),
        Some(e) => {
            let x = expr_step(fx, n, e, None, st);
            match x.out {
                Err(f) => failed(f, x.st),
                Ok(t) => done(Some(t), x.st),
            }
        },
    }
}

/// The first `k` arms of a match on a value of a type.
pub open spec fn arms_step(
    fx: Facts,
    n: nat,
    s: Seq<MatchArm>,
    ty: TypeV,
    hint: Option<TypeV>,
    st: StateV,
    k: int,
) -> Step<Seq<ArmT>>
    decreases n, s, 1int, k,
{
    if k <= 0 || k > s.len() {
        done(Seq::empty(), st)
    } else {
        let before = arms_step(fx, n, s, ty, hint, st, k - 1);
        match before.out {
            Err(_) => before,
            Ok(arms) => {
                let x = arm_step(fx, n, s[k - 1], ty, hint, before.st);
                match x.out {
                    Err(f) => failed(f, x.st),
                    Ok(a) => done(arms.push(a), x.st),
                }
            },
        }
    }
}

/// The types of the bodies of match arms.
pub open spec fn arm_types(s: Seq<ArmT>) -> Seq<TypeV> {
    Seq::new(s.len(), |i: int| block_type(s[i].body))
}

/// A match.
pub open spec fn match_step(fx: Facts, n: nat, e: Expr, hint: Option<TypeV>, st: StateV) -> Step<ExprT>
    decreases n, e, 4int, 0int,
{
    match e {
        Expr::Match(m) => {
            let x = expr_step(fx, n, *m.scrutinee, None, st);
            match x.out {
                Err(f) => failed(f, x.st),
                Ok(scrutinee) => {
                    let ty = peeled(tree_ty(scrutinee));
                    let y = arms_step(fx, n, m.arms@, ty, hint, x.st, m.arms@.len() as int);
                    match y.out {
                        Err(f) => failed(f, y.st),
                        Ok(arms) => match coverage_error(*fx.registry, arms, ty, m.span@) {
                            Some(f) => failed(f, y.st),
                            None => done(
                                ExprT::Match {
                                    scrutinee: Box::new(scrutinee),
                                    arms,
                                    ty: merged_type(arm_types(arms)),
                                    span: m.span@,
                                },
                                y.st,
                            ),
                        },
                    }
                },
            }
        },
        _ => arbitrary(),
    }
}

/// The first `k` fields of a struct that a block declares.
pub open spec fn local_fields(fx: Facts, st: StateV, s: Seq<FieldDecl>, k: int) -> Result<
    Seq<LocalFieldV>,
    MetelErrorV,
>
    decreases k,
{
    if k <= 0 || k > s.len() {
        Ok(Seq::empty())
    } else {
        match local_fields(fx, st, s, k - 1) {
            Err(f) => Err(f),
            Ok(before) => match ann_type(fx, st, s[k - 1].type_ann@, s[k - 1].span@) {
                Err(f) => Err(f),
                Ok(ty) => Ok(
                    before.push(
                        LocalFieldV { name: s[k - 1].name@, ty, span: s[k - 1].span@ },
                    ),
                ),
            },
        }
    }
}

/// The state with the structs among the first `k` declarations of a block declared.
pub open spec fn hoisted_structs(fx: Facts, s: Seq<Decl>, st: StateV, k: int) -> Bound
    decreases k,
{
    if k <= 0 || k > s.len() {
        Bound { err: None, st }
    } else {
        let before = hoisted_structs(fx, s, st, k - 1);
        if before.err is Some {
            before
        } else {
            match s[k - 1] {
                Decl::Struct(sd) => match local_fields(
                    fx,
                    before.st,
                    sd.fields@,
                    sd.fields@.len() as int,
                ) {
                    Err(f) => Bound { err: Some(f), st: before.st },
                    Ok(fields) => Bound {
                        err: None,
                        st: with_struct(before.st, LocalStructV { name: sd.name@, fields }),
                    },
                },
                _ => before,
            }
        }
    }
}

/// The state with the functions among the first `k` declarations declared.
pub open spec fn hoisted_funs(s: Seq<Decl>, st: StateV, k: int) -> StateV
    decreases k,
{
    if k <= 0 || k > s.len() {
        st
    } else {
        let before = hoisted_funs(s, st, k - 1);
        match s[k - 1] {
            Decl::Fun(f) => with_fun(before, f),
            _ => before,
        }
    }
}

/// A block.
pub open spec fn block_step(fx: Facts, n: nat, b: Block, hint: Option<TypeV>, st: StateV) -> Step<BlockT>
    decreases n, b, 1int, 0int,
{
    let len = b.stmts@.len() as int;
    let h = hoisted_structs(fx, b.stmts@, pushed_structs(pushed(st)), len);
    match h.err {
        Some(f) => failed(f, h.st),
        None => {
            let x = decls_step(fx, n, b.stmts@, hoisted_funs(b.stmts@, h.st, len), len);
            match x.out {
                Err(f) => failed(f, x.st),
                Ok(stmts) => {
                    let y = left_step(fx, n, b.tail, hint, x.st);
                    match y.out {
                        Err(f) => failed(f, y.st),
                        Ok(tail) => done(
                            BlockT { stmts, tail, span: b.span@ },
                            popped(popped_structs(y.st)),
                        ),
                    }
                },
            }
        },
    }
}

/// The first `k` declarations of a block.
pub open spec fn decls_step(fx: Facts, n: nat, s: Seq<Decl>, st: StateV, k: int) -> Step<Seq<DeclT>>
    decreases n, s, 1int, k,
{
    if k <= 0 || k > s.len() {
        done(Seq::empty(), st)
    } else {
        let before = decls_step(fx, n, s, st, k - 1);
        match before.out {
            Err(_) => before,
            Ok(decls) => {
                let x = decl_step(fx, n, s[k - 1], before.st);
                match x.out {
                    Err(f) => failed(f, x.st),
                    Ok(d) => done(decls.push(d), x.st),
                }
            },
        }
    }
}

/// The value of a binding, with the name bound.
pub open spec fn binding_step(
    fx: Facts,
    n: nat,
    name: Seq<char>,
    ann: Option<TypeExpr>,
    value: Expr,
    span: SpanV,
    st: StateV,
) -> Step<BindingT>
    decreases n, value, 6int, 0int,
{
    match opt_ann_type(fx, st, ann, span) {
        Err(f) => failed(f, st),
        Ok(expected) => {
            let x = expr_step(fx, n, value, expected, st);
            match x.out {
                Err(f) => failed(f, x.st),
                Ok(t) => match fitted(fx, expected, t, span) {
                    Err(f) => failed(f, x.st),
                    Ok(v) => done(
                        BindingT { name, type_ann: ann, value: v, def_id: None, span },
                        bound(
                            x.st,
                            name,
                            match expected {
                                Some(ty) => ty,
                                None => tree_ty(v),
                            },
                        ),
                    ),
                },
            }
        },
    }
}

/// Whether a name has a scheme with type parameters.
pub open spec fn is_generic(fx: Facts, name: Seq<char>) -> bool {
    match scheme_in(fx.schemes@, name) {
        Some(scheme) => scheme.quantified_vars@.len() > 0,
        None => false,
    }
}

/// The generic closure that a `let` binds: a closure, or a generic function under another name.
pub open spec fn generic_value(fx: Facts, st: StateV, name: Seq<char>, value: Expr) -> Option<ExprT> {
    if !is_generic(fx, name) {
        None
    } else {
        match value {
            Expr::Closure { params, return_type, body, span } => Some(
                ExprT::GenericClosure {
                    name: Some(name),
                    params,
                    return_type,
                    source: body,
                    ty: TypeV::Unit,
                    span: span@,
                },
            ),
            Expr::Ident(other, span) => match fun_of(st.scopes, other@) {
                Some(f) => Some(
                    ExprT::GenericClosure {
                        name: Some(name),
                        params: f.params,
                        return_type: f.return_type,
                        source: f.body,
                        ty: TypeV::Unit,
                        span: span@,
                    },
                ),
                None => None,
            },
            _ => None,
        }
    }
}

/// A declaration.
pub open spec fn decl_step(fx: Facts, n: nat, d: Decl, st: StateV) -> Step<DeclT>
    decreases n, d, 1int, 0int,
{
    match d {
        Decl::Let(x) => match generic_value(fx, st, x.name@, x.value) {
            Some(value) => done(
                DeclT::Let(
                    BindingT {
                        name: x.name@,
                        type_ann: x.type_ann,
                        value,
                        def_id: None,
                        span: x.span@,
                    },
                ),
                st,
            ),
            None => {
                let b = binding_step(fx, n, x.name@, x.type_ann, x.value, x.span@, st);
                match b.out {
                    Err(f) => failed(f, b.st),
                    Ok(t) => done(DeclT::Let(t), b.st),
                }
            },
        },
        Decl::Mut(x) => {
            let b = binding_step(fx, n, x.name@, x.type_ann, x.value, x.span@, st);
            match b.out {
                Err(f) => failed(f, b.st),
                Ok(t) => done(DeclT::Mut(t), b.st),
            }
        },
        Decl::Fun(f) => {
            let x = fun_step(fx, n, f, st);
            match x.out {
                Err(e) => failed(e, x.st),
                Ok(t) => done(DeclT::Fun(t), x.st),
            }
        },
        Decl::Struct(x) => done(
            DeclT::Struct {
                name: x.name@,
                generics: x.generics,
                fields: x.fields,
                span: x.span@,
            },
            st,
        ),
        Decl::Enum(x) => done(
            DeclT::Enum {
                name: x.name@,
                generics: x.generics,
                variants: x.variants,
                span: x.span@,
            },
            st,
        ),
        Decl::Impl(x) => impl_step(fx, n, x, st),
        Decl::Aspect(x) => done(
            DeclT::Aspect {
                name: x.name@,
                generics: x.generics,
                methods: x.methods,
                span: x.span@,
            },
            st,
        ),
        Decl::Stmt(s) => {
            let x = stmt_step(fx, n, s, st);
            match x.out {
                Err(f) => failed(f, x.st),
                Ok(t) => done(DeclT::Stmt(Box::new(t)), x.st),
            }
        },
        Decl::TypeAlias(x) => failed(
            fault("type alias `"@ + x.name@ + "` was not expanded"@),
            st,
        ),
    }
}

/// A body, in a scope of its own with the parameters bound.
pub open spec fn body_step(
    fx: Facts,
    n: nat,
    params: Seq<Param>,
    types: Seq<TypeV>,
    ret: Option<TypeV>,
    body: Block,
    st: StateV,
) -> Step<BlockT>
    decreases n, body, 2int, 0int,
{
    let inner = bound_params(pushed(st), params, types, shorter(params.len(), types.len()));
    let x = block_step(fx, n, body, ret, StateV { ret, ..inner });
    match x.out {
        Err(f) => failed(f, x.st),
        Ok(b) => done(b, popped(StateV { ret: st.ret, ..x.st })),
    }
}

/// What a function's own type parameters stand for, where each of the first `k` is hidden behind
/// an opaque return type.
pub open spec fn opaque_bindings(scheme: TypeScheme, k: int) -> Map<TypeVar, InferTypeV>
    decreases k,
{
    if k <= 0 || k > scheme.quantified_vars@.len() {
        Map::empty()
    } else {
        let before = opaque_bindings(scheme, k - 1);
        if k <= scheme.opaque_returns@.len() {
            match scheme.opaque_returns@[k - 1] {
                Some(o) => before.insert(
                    scheme.quantified_vars@[k - 1],
                    InferTypeV::Concrete(o.ty@),
                ),
                None => before,
            }
        } else {
            before
        }
    }
}

/// Whether every type parameter of a function is hidden behind an opaque return type: some return
/// is opaque, and there is an entry for each.
pub open spec fn all_opaque(scheme: TypeScheme) -> bool {
    &&& exists|i: int|
        0 <= i < scheme.opaque_returns@.len() && (#[trigger] scheme.opaque_returns@[i]) is Some
    &&& forall|i: int|
        0 <= i < scheme.quantified_vars@.len() ==> first_at(
            scheme.quantified_vars@,
            #[trigger] scheme.quantified_vars@[i],
        ) < scheme.opaque_returns@.len()
}

/// Where a variable first occurs.
pub open spec fn first_at(s: Seq<TypeVar>, v: TypeVar) -> int
    decreases s.len(),
{
    if s.len() == 0 {
        0
    } else if s[0] == v {
        0
    } else {
        1 + first_at(s.skip(1), v)
    }
}

/// What is said of a host binding that there is no host implementation for.
pub open spec fn unknown_native(path: Seq<Seq<char>>, span: SpanV) -> MetelErrorV {
    type_failure(
        TypeErrorCode::T0003,
        "unknown native binding `@"@ + join_spec(path, "."@)
            + "`; no host implementation is registered for it"@,
        span,
    )
}

/// The type by which the body of a function is elaborated at once, if it is: that of an overload,
/// or of a scheme without type parameters, or with hidden ones only.
pub open spec fn eager_type(fx: Facts, f: FunDecl) -> Result<Option<InferTypeV>, MetelErrorV> {
    match overload_of_decl(fx, f) {
        Some(entry) => Ok(Some(overload_type(entry))),
        None => match scheme_in(fx.schemes@, f.name@) {
            None => Err(fault("missing type for fn `"@ + f.name@ + "`"@)),
            Some(scheme) => if scheme.quantified_vars@.len() == 0 {
                Ok(Some(substituted(fx.subst@, scheme.ty@)))
            } else if all_opaque(scheme) {
                Ok(
                    Some(
                        substituted(
                            opaque_bindings(scheme, scheme.quantified_vars@.len() as int),
                            scheme.ty@,
                        ),
                    ),
                )
            } else {
                Ok(None)
            },
        },
    }
}

/// The function type of an overload.
pub open spec fn overload_type(entry: OverloadEntry) -> InferTypeV {
    InferTypeV::Fun(
        Seq::new(entry.params@.len(), |i: int| InferTypeV::Concrete(entry.params@[i]@)),
        Box::new(InferTypeV::Concrete(entry.ret@)),
    )
}

/// A function with a body of some form.
pub open spec fn typed_fun(f: FunDecl, body: BodyT, symbol_id: Option<crate::ast::SymbolId>) -> FunT {
    FunT {
        name: f.name@,
        generics: f.generics,
        params: f.params,
        return_type: f.return_type,
        body,
        symbol_id,
        def_id: None,
        span: f.span@,
    }
}

/// What is said of a function that returns although it is declared never to.
pub open spec fn returning_error(f: FunDecl) -> MetelErrorV {
    type_failure(
        TypeErrorCode::T0016,
        "function `"@ + f.name@ + "` is declared `-> !` but does not diverge on all paths"@,
        f.span@,
    )
}

/// A function.
pub open spec fn fun_step(fx: Facts, n: nat, f: FunDecl, st: StateV) -> Step<FunT>
    decreases n, f, 1int, 0int,
{
    let symbol_id = match overload_of_decl(fx, f) {
        Some(entry) => Some(entry.symbol_id),
        None => None,
    };
    match f.native {
        Some(binding) => match native_key(texts(binding.key_path@)) {
            Some(key) => done(typed_fun(f, BodyT::Native(key), symbol_id), st),
            None => failed(unknown_native(texts(binding.key_path@), binding.span@), st),
        },
        None => match eager_type(fx, f) {
            Err(e) => failed(e, st),
            Ok(None) => done(
                typed_fun(f, BodyT::Generic { source: f.body }, symbol_id),
                st,
            ),
            Ok(Some(t)) => match signature(t, f.name@, f.span@) {
                Err(e) => failed(e, st),
                Ok(sig) => {
                    let x = body_step(fx, n, f.params@, sig.0, sig.1, f.body, st);
                    match x.out {
                        Err(e) => failed(e, x.st),
                        Ok(b) => if sig.1 == Some(TypeV::Never) && !body_diverges(b) {
                            failed(returning_error(f), x.st)
                        } else {
                            done(typed_fun(f, BodyT::Typed(b), symbol_id), x.st)
                        },
                    }
                },
            },
        },
    }
}

/// Whether the type parameters of a type are named.
pub open spec fn has_type_params(fx: Facts, name: Seq<char>) -> bool {
    match crate::lookup::type_params_of(*fx.registry, name) {
        Some(info) => info.names@.len() > 0,
        None => false,
    }
}

/// A body of a method in an impl for a name.
pub open spec fn method_body_step(
    fx: Facts,
    n: nat,
    target: Seq<char>,
    params: Seq<Param>,
    return_type: Option<TypeExpr>,
    span: SpanV,
    body: Block,
    st: StateV,
) -> Step<BlockT>
    decreases n, body, 3int, 0int,
{
    match method_params(fx, target, params, params.len() as int) {
        Err(f) => failed(f, st),
        Ok(types) => match method_return(fx, target, return_type, span) {
            Err(f) => failed(f, st),
            Ok(ret) => {
                let x = body_step(
                    fx,
                    n,
                    params,
                    types,
                    ret,
                    body,
                    StateV { self_name: Some(target), ..st },
                );
                match x.out {
                    Err(f) => failed(f, x.st),
                    Ok(b) => done(b, StateV { self_name: st.self_name, ..x.st }),
                }
            },
        },
    }
}

/// A method of an impl block.
pub open spec fn method_decl_step(
    fx: Facts,
    n: nat,
    m: FunDecl,
    target: Seq<char>,
    generic: bool,
    st: StateV,
) -> Step<FunT>
    decreases n, m, 1int, 0int,
{
    match m.native {
        Some(binding) => match native_key(texts(binding.key_path@)) {
            Some(key) => done(typed_fun(m, BodyT::Native(key), None), st),
            None => failed(unknown_native(texts(binding.key_path@), binding.span@), st),
        },
        None => if generic || m.generics@.len() > 0 || has_type_params(fx, target) {
            done(typed_fun(m, BodyT::Generic { source: m.body }, None), st)
        } else {
            let x = method_body_step(
                fx,
                n,
                target,
                m.params@,
                m.return_type,
                m.span@,
                m.body,
                st,
            );
            match x.out {
                Err(f) => failed(f, x.st),
                Ok(b) => done(typed_fun(m, BodyT::Typed(b), None), x.st),
            }
        },
    }
}

/// The first `k` methods of an impl block.
pub open spec fn method_decls_step(
    fx: Facts,
    n: nat,
    s: Seq<FunDecl>,
    target: Seq<char>,
    generic: bool,
    st: StateV,
    k: int,
) -> Step<Seq<FunT>>
    decreases n, s, 1int, k,
{
    if k <= 0 || k > s.len() {
        done(Seq::empty(), st)
    } else {
        let before = method_decls_step(fx, n, s, target, generic, st, k - 1);
        match before.out {
            Err(_) => before,
            Ok(methods) => {
                let x = method_decl_step(fx, n, s[k - 1], target, generic, before.st);
                match x.out {
                    Err(f) => failed(f, x.st),
                    Ok(m) => done(methods.push(m), x.st),
                }
            },
        }
    }
}

/// Whether an impl block defines a method itself.
pub open spec fn provides(ib: ImplBlock, name: Seq<char>) -> bool {
    exists|i: int| 0 <= i < ib.methods@.len() && (#[trigger] ib.methods@[i]).name@ == name
}

/// A default method of an aspect, for an impl block.
pub open spec fn default_step(
    fx: Facts,
    n: nat,
    ib: ImplBlock,
    m: AspectMethod,
    target: Seq<char>,
    st: StateV,
) -> Step<FunT>
    decreases n, ib, 1int, 0int,
{
    match m.default_body {
        None => failed(fault("missing aspect default body"@), st),
        Some(body) => if n == 0 {
            failed(fault("default methods nest too deeply"@), st)
        } else {
            let x = method_body_step(
                fx,
                (n - 1) as nat,
                target,
                m.params@,
                m.return_type,
                m.span@,
                body,
                st,
            );
            match x.out {
                Err(f) => failed(f, x.st),
                Ok(b) => done(
                    FunT {
                        name: m.name@,
                        generics: m.generics,
                        params: m.params,
                        return_type: m.return_type,
                        body: BodyT::Typed(b),
                        symbol_id: None,
                        def_id: None,
                        span: m.span@,
                    },
                    x.st,
                ),
            }
        },
    }
}

/// The default methods that an impl block takes over from the first `k` methods of its aspect.
pub open spec fn defaults_step(
    fx: Facts,
    n: nat,
    ib: ImplBlock,
    s: Seq<AspectMethod>,
    target: Seq<char>,
    st: StateV,
    k: int,
) -> Step<Seq<FunT>>
    decreases n, ib, 2int, k,
{
    if k <= 0 || k > s.len() {
        done(Seq::empty(), st)
    } else {
        let before = defaults_step(fx, n, ib, s, target, st, k - 1);
        match before.out {
            Err(_) => before,
            Ok(methods) => if s[k - 1].default_body is None || provides(ib, s[k - 1].name@) {
                before
            } else {
                let x = default_step(fx, n, ib, s[k - 1], target, before.st);
                match x.out {
                    Err(f) => failed(f, x.st),
                    Ok(m) => done(methods.push(m), x.st),
                }
            },
        }
    }
}

/// The methods that the aspect of an impl block declares.
pub open spec fn inherited(fx: Facts, ib: ImplBlock) -> Seq<AspectMethod> {
    if defers_bodies(ib) || ib.polarity != Polarity::Positive {
        Seq::empty()
    } else {
        match ib.aspect_name {
            Some(name) => match aspect_of(*fx.registry, name@) {
                Some(info) => info.methods@,
                None => Seq::empty(),
            },
            None => Seq::empty(),
        }
    }
}

/// The first of two errors.
pub open spec fn either_error(a: Option<MetelErrorV>, b: Option<MetelErrorV>) -> Option<MetelErrorV> {
    match a {
        Some(e) => Some(e),
        None => b,
    }
}

/// An impl block, with the default methods that it takes over.
pub open spec fn impl_step(fx: Facts, n: nat, ib: ImplBlock, st: StateV) -> Step<DeclT>
    decreases n, ib, 3int, 0int,
{
    match either_error(destructor_error(fx, ib), refusal_of(fx, ib.span@)) {
        Some(f) => failed(f, st),
        None => {
            let target = target_name(ib);
            let x = method_decls_step(
                fx,
                n,
                ib.methods@,
                target,
                defers_bodies(ib),
                st,
                ib.methods@.len() as int,
            );
            match x.out {
                Err(f) => failed(f, x.st),
                Ok(own) => {
                    let s = inherited(fx, ib);
                    let y = defaults_step(fx, n, ib, s, target, x.st, s.len() as int);
                    match y.out {
                        Err(f) => failed(f, y.st),
                        Ok(more) => done(
                            DeclT::Impl {
                                polarity: ib.polarity,
                                generics: ib.generics,
                                aspect_name: ib.aspect_name,
                                aspect_id: match ib.aspect_name {
                                    Some(name) => aspect_symbol(fx, name@),
                                    None => None,
                                },
                                target_type_id: type_symbol(fx, target),
                                aspect_type_args: ib.aspect_type_args,
                                target_type: ib.target_type,
                                methods: own + more,
                                span: ib.span@,
                            },
                            y.st,
                        ),
                    }
                },
            }
        },
    }
}

/// What a counted loop starts with.
pub open spec fn init_step(fx: Facts, n: nat, x: ForStmt, st: StateV) -> Step<Option<InitT>>
    decreases n, x, 0int, 0int,
{
    match x.init {
        None => done(None, st),
        Some(ForInit::Let(d)) => {
            let b = binding_step(fx, n, d.name@, d.type_ann, d.value, d.span@, st);
            match b.out {
                Err(f) => failed(f, b.st),
                Ok(t) => done(Some(InitT::Let(t)), b.st),
            }
        },
        Some(ForInit::Mut(d)) => {
            let b = binding_step(fx, n, d.name@, d.type_ann, d.value, d.span@, st);
            match b.out {
                Err(f) => failed(f, b.st),
                Ok(t) => done(Some(InitT::Mut(t)), b.st),
            }
        },
        Some(ForInit::Expr(e)) => {
            let t = expr_step(fx, n, e, None, st);
            match t.out {
                Err(f) => failed(f, t.st),
                Ok(v) => done(Some(InitT::Expr(v)), t.st),
            }
        },
    }
}

/// A body of a loop.
pub open spec fn loop_body_step(fx: Facts, n: nat, b: Block, st: StateV) -> Step<BlockT>
    decreases n, b, 2int, 0int,
{
    let x = block_step(fx, n, b, None, in_loop(st));
    match x.out {
        Err(f) => failed(f, x.st),
        Ok(t) => done(t, out_of_loop(x.st)),
    }
}

/// What a counted loop starts with, and its condition.
pub open spec fn for_start_step(fx: Facts, n: nat, x: ForStmt, st: StateV) -> Step<
    (Option<InitT>, Option<ExprT>),
>
    decreases n, x, 1int, 0int,
{
    let i = init_step(fx, n, x, st);
    match i.out {
        Err(f) => failed(f, i.st),
        Ok(init) => {
            let c = guard_step(fx, n, x.condition, i.st);
            match c.out {
                Err(f) => failed(f, c.st),
                Ok(condition) => done((init, condition), c.st),
            }
        },
    }
}

/// The step of a counted loop, and its body.
pub open spec fn for_rest_step(fx: Facts, n: nat, x: ForStmt, st: StateV) -> Step<
    (Option<ExprT>, BlockT),
>
    decreases n, x, 1int, 0int,
{
    let t = guard_step(fx, n, x.step, st);
    match t.out {
        Err(f) => failed(f, t.st),
        Ok(step) => {
            let b = loop_body_step(fx, n, x.body, t.st);
            match b.out {
                Err(f) => failed(f, b.st),
                Ok(body) => done((step, body), b.st),
            }
        },
    }
}

/// A counted loop.
pub open spec fn for_step(fx: Facts, n: nat, x: ForStmt, st: StateV) -> Step<StmtT>
    decreases n, x, 2int, 0int,
{
    let a = for_start_step(fx, n, x, pushed(st));
    match a.out {
        Err(f) => failed(f, a.st),
        Ok(p) => {
            let b = for_rest_step(fx, n, x, a.st);
            match b.out {
                Err(f) => failed(f, b.st),
                Ok(q) => done(
                    StmtT::For {
                        init: p.0,
                        condition: p.1,
                        step: q.0,
                        body: q.1,
                        span: x.span@,
                    },
                    popped(b.st),
                ),
            }
        },
    }
}

/// A loop over the elements of a value.
pub open spec fn for_in_step(fx: Facts, n: nat, s: Stmt, st: StateV) -> Step<StmtT>
    decreases n, s, 1int, 0int,
{
    match s {
        Stmt::ForIn(x) => {
            let i = expr_step(fx, n, x.iterable, None, st);
            match i.out {
                Err(f) => failed(f, i.st),
                Ok(iterable) => match iterated(fx, tree_ty(iterable)) {
                    Err(f) => failed(f, i.st),
                    Ok(item) => {
                        let b = loop_body_step(
                            fx,
                            n,
                            x.body,
                            bound(pushed(i.st), x.binding@, item),
                        );
                        match b.out {
                            Err(f) => failed(f, b.st),
                            Ok(body) => done(
                                StmtT::ForIn {
                                    binding: x.binding@,
                                    mutable: x.mutable,
                                    iterable,
                                    body,
                                    span: x.span@,
                                },
                                popped(b.st),
                            ),
                        }
                    },
                },
            }
        },
        _ => arbitrary(),
    }
}

/// A statement.
pub open spec fn stmt_step(fx: Facts, n: nat, s: Stmt, st: StateV) -> Step<StmtT>
    decreases n, s, 2int, 0int,
{
    match s {
        Stmt::Expr(e) => {
            let x = expr_step(fx, n, e, None, st);
            match x.out {
                Err(f) => failed(f, x.st),
                Ok(t) => done(StmtT::Expr(t), x.st),
            }
        },
        Stmt::While(x) => {
            let c = expr_step(fx, n, x.condition, None, st);
            match c.out {
                Err(f) => failed(f, c.st),
                Ok(condition) => {
                    let b = loop_body_step(fx, n, x.body, c.st);
                    match b.out {
                        Err(f) => failed(f, b.st),
                        Ok(body) => done(
                            StmtT::While { condition, body, span: x.span@ },
                            b.st,
                        ),
                    }
                },
            }
        },
        Stmt::For(x) => for_step(fx, n, *x, st),
        Stmt::ForIn(_) => for_in_step(fx, n, s, st),
    }
}

} // verus!
