//! Which matches are complete, and which function a call calls.
use vstd::prelude::*;
use crate::ast::{Block, Expr, LiteralV, Param};
use crate::error::{MetelErrorV, TypeErrorCode};
use crate::infer::{lowered, resolved, substituted};
use crate::lookup::enum_of;
use crate::registry::{EnumInfo, TypeDefinitionRegistry, VariantInfo};
use crate::span::{Span, SpanV};
use crate::types::{peeled, types_view, TypeV};
use super::parameter_laws::law_parameters_have_their_types_by_position;
use super::pattern::{all_catch_all, catches_all, PatternV};
use super::rules::{arm_catches_all, arm_covers, arm_is_truth, arm_spans, coverage_error};
use super::rules::{empty_field, some_arm_covers, some_catch_all, some_span, some_truth};
use super::rules::{type_args_map, uninhabited, variant_handled};
use super::schemes::shorter;
use super::state::{bound_params, concrete_method, overload_for, pushed, var_of, Facts};
use super::state::{OverloadEntry, StateV};
use super::steps::{block_step, body_step, decls_step, expr_step, hoisted_funs, hoisted_structs};
use super::steps::{left_step, method_step, named_method_step, resolved_method_step};
use super::tree::{tree_ty, ArmT, ExprT};

verus! {

/// Whether a pattern matches whatever it is held against: `_`, a name, a record or struct pattern, a
/// tuple of such patterns, and an array of them with a rest.
pub open spec fn irrefutable(p: PatternV) -> bool
    decreases p,
{
    match p {
        PatternV::Wildcard(_) => true,
        PatternV::Binding(_, _) => true,
        PatternV::Record { .. } => true,
        PatternV::Struct { .. } => true,
        PatternV::Tuple(s, _) => all_irrefutable(s),
        PatternV::Array { elems, rest, .. } => rest is Some && all_irrefutable(elems),
        PatternV::Literal(_, _) => false,
        PatternV::EnumVariant { .. } => false,
    }
}

/// Whether patterns all match whatever they are held against.
pub open spec fn all_irrefutable(s: Seq<PatternV>) -> bool
    decreases s,
{
    forall|i: int| 0 <= i < s.len() ==> irrefutable(#[trigger] s[i])
}

proof fn lemma_irrefutable(p: PatternV)
    ensures
        catches_all(p) == irrefutable(p),
    decreases p,
{
    match p {
        PatternV::Tuple(s, _) => lemma_all_irrefutable(s),
        PatternV::Array { elems, .. } => lemma_all_irrefutable(elems),
        _ => {},
    }
}

proof fn lemma_all_irrefutable(s: Seq<PatternV>)
    ensures
        all_catch_all(s) == all_irrefutable(s),
    decreases s,
{
    assert forall|i: int| 0 <= i < s.len() implies catches_all(#[trigger] s[i]) == irrefutable(s[i]) by {
        lemma_irrefutable(s[i]);
    }
}

/// An arm that is taken by everything it is held against: it has no guard either.
pub open spec fn always_taken(a: ArmT) -> bool {
    a.guard is None && irrefutable(a.pattern)
}

/// Whether some arm is always taken.
pub open spec fn has_default(s: Seq<ArmT>) -> bool {
    exists|i: int| 0 <= i < s.len() && always_taken(#[trigger] s[i])
}

/// Whether some arm without a guard is for a truth value.
pub open spec fn has_truth(s: Seq<ArmT>, value: bool) -> bool {
    exists|i: int|
        0 <= i < s.len() && (#[trigger] s[i]).guard is None && (
        s[i].pattern matches PatternV::Literal(lit, _) && lit == LiteralV::Boolean(value))
}

/// Whether some arm without a guard is for a variant of an enum.
pub open spec fn has_variant_arm(s: Seq<ArmT>, name: Seq<char>, variant: Seq<char>) -> bool {
    exists|i: int|
        0 <= i < s.len() && (#[trigger] s[i]).guard is None && (
        s[i].pattern matches PatternV::EnumVariant { path, .. } && path.len() >= 2 && path[0] == name
            && path[1] == variant)
}

/// Whether some arm without a guard is for every array of a length.
pub open spec fn has_array_arm(s: Seq<ArmT>, n: u64) -> bool {
    exists|i: int|
        0 <= i < s.len() && (#[trigger] s[i]).guard is None && (
        s[i].pattern matches PatternV::Array { elems, rest, .. } && all_irrefutable(elems) && (
        rest is Some || elems.len() == n))
}

/// Whether a variant has no value: the type of one of its fields, for the type arguments, is `!`.
pub open spec fn has_no_value(info: EnumInfo, args: Seq<TypeV>, v: VariantInfo) -> bool {
    exists|i: int|
        0 <= i < v.fields@.len() && {
            let t = substituted(
                type_args_map(info.type_params@, args),
                (#[trigger] v.fields@[i]).ty@,
            );
            resolved(t) && lowered(t) == TypeV::Never
        }
}

proof fn lemma_arm(a: ArmT, name: Seq<char>, variant: Seq<char>, n: u64, b: bool)
    ensures
        arm_catches_all(a) == always_taken(a),
        arm_is_truth(a, b) == (a.guard is None && (a.pattern matches PatternV::Literal(lit, _) && lit
            == LiteralV::Boolean(b))),
        arm_covers(a, name, variant) == (a.guard is None && (
        a.pattern matches PatternV::EnumVariant { path, .. } && path.len() >= 2 && path[0] == name
            && path[1] == variant)),
        arm_spans(a, n) == (a.guard is None && (a.pattern matches PatternV::Array { elems, rest, .. }
            && all_irrefutable(elems) && (rest is Some || elems.len() == n))),
{
    lemma_irrefutable(a.pattern);
    if let PatternV::Array { elems, .. } = a.pattern {
        lemma_all_irrefutable(elems);
    }
}

/// A match is complete just if some arm is always taken, or it is on a truth value and has an arm for
/// each, or on an enum and has an arm for every variant that has a value, or on an array of a length
/// and has an arm for every one of it, or on what has no value. Arms with guards do not count.
pub proof fn law_a_match_is_complete_case_by_case(
    reg: TypeDefinitionRegistry,
    s: Seq<ArmT>,
    ty: TypeV,
    span: SpanV,
)
    ensures
        coverage_error(reg, s, ty, span) is None <==> (has_default(s) || match ty {
            TypeV::Boolean => has_truth(s, true) && has_truth(s, false),
            TypeV::Named(name, args) => enum_of(reg, name) matches Some(info) && forall|i: int|
                0 <= i < info.variants@.len() ==> has_no_value(
                    info,
                    args,
                    #[trigger] info.variants@[i],
                ) || has_variant_arm(s, name, info.variants@[i].name@),
            TypeV::SizedArray(_, n) => has_array_arm(s, n),
            TypeV::Never => true,
            _ => false,
        }),
        coverage_error(reg, s, ty, span) matches Some(e) ==> (e matches MetelErrorV::TypeError {
            code,
            span: at,
            ..
        } && code == TypeErrorCode::T0008 && at == span),
{
    assert(some_catch_all(s) == has_default(s)) by {
        if some_catch_all(s) {
            let i = choose|i: int| 0 <= i < s.len() && arm_catches_all(#[trigger] s[i]);
            lemma_arm(s[i], Seq::empty(), Seq::empty(), 0, true);
            assert(always_taken(s[i]));
        }
        if has_default(s) {
            let i = choose|i: int| 0 <= i < s.len() && always_taken(#[trigger] s[i]);
            lemma_arm(s[i], Seq::empty(), Seq::empty(), 0, true);
            assert(arm_catches_all(s[i]));
        }
    }
    match ty {
        TypeV::Boolean => {
            lemma_truth(s, true);
            lemma_truth(s, false);
        },
        TypeV::Named(name, args) => {
            if let Some(info) = enum_of(reg, name) {
                let m = type_args_map(info.type_params@, args);
                assert forall|i: int| 0 <= i < info.variants@.len() implies variant_handled(
                    s,
                    name,
                    #[trigger] info.variants@[i],
                    m,
                ) == (has_no_value(info, args, info.variants@[i]) || has_variant_arm(
                    s,
                    name,
                    info.variants@[i].name@,
                )) by {
                    lemma_covered(s, name, info.variants@[i].name@);
                    lemma_empty(info, args, info.variants@[i]);
                }
            }
        },
        TypeV::SizedArray(_, n) => {
            if some_span(s, n) {
                let i = choose|i: int| 0 <= i < s.len() && arm_spans(#[trigger] s[i], n);
                lemma_arm(s[i], Seq::empty(), Seq::empty(), n, true);
                assert(s[i].guard is None);
            }
            if has_array_arm(s, n) {
                let i = choose|i: int|
                    0 <= i < s.len() && (#[trigger] s[i]).guard is None && (
                    s[i].pattern matches PatternV::Array { elems, rest, .. } && all_irrefutable(
                        elems,
                    ) && (rest is Some || elems.len() == n));
                lemma_arm(s[i], Seq::empty(), Seq::empty(), n, true);
                assert(arm_spans(s[i], n));
            }
        },
        _ => {},
    }
}

proof fn lemma_truth(s: Seq<ArmT>, b: bool)
    ensures
        some_truth(s, b) == has_truth(s, b),
{
    if some_truth(s, b) {
        let i = choose|i: int| 0 <= i < s.len() && arm_is_truth(#[trigger] s[i], b);
        lemma_arm(s[i], Seq::empty(), Seq::empty(), 0, b);
        assert(s[i].guard is None);
    }
    if has_truth(s, b) {
        let i = choose|i: int|
            0 <= i < s.len() && (#[trigger] s[i]).guard is None && (
            s[i].pattern matches PatternV::Literal(lit, _) && lit == LiteralV::Boolean(b));
        lemma_arm(s[i], Seq::empty(), Seq::empty(), 0, b);
        assert(arm_is_truth(s[i], b));
    }
}

proof fn lemma_covered(s: Seq<ArmT>, name: Seq<char>, variant: Seq<char>)
    ensures
        some_arm_covers(s, name, variant) == has_variant_arm(s, name, variant),
{
    if some_arm_covers(s, name, variant) {
        let i = choose|i: int| 0 <= i < s.len() && arm_covers(#[trigger] s[i], name, variant);
        lemma_arm(s[i], name, variant, 0, true);
        assert(s[i].guard is None);
    }
    if has_variant_arm(s, name, variant) {
        let i = choose|i: int|
            0 <= i < s.len() && (#[trigger] s[i]).guard is None && (
            s[i].pattern matches PatternV::EnumVariant { path, .. } && path.len() >= 2 && path[0]
                == name && path[1] == variant);
        lemma_arm(s[i], name, variant, 0, true);
        assert(arm_covers(s[i], name, variant));
    }
}

proof fn lemma_empty(info: EnumInfo, args: Seq<TypeV>, v: VariantInfo)
    ensures
        uninhabited(v, type_args_map(info.type_params@, args)) == has_no_value(info, args, v),
{
    let m = type_args_map(info.type_params@, args);
    if uninhabited(v, m) {
        let i = choose|i: int| 0 <= i < v.fields@.len() && empty_field(#[trigger] v.fields@[i], m);
        assert(lowered(substituted(m, v.fields@[i].ty@)) == TypeV::Never);
    }
    if has_no_value(info, args, v) {
        let i = choose|i: int|
            0 <= i < v.fields@.len() && {
                let t = substituted(m, (#[trigger] v.fields@[i]).ty@);
                resolved(t) && lowered(t) == TypeV::Never
            };
        assert(empty_field(v.fields@[i], m));
    }
}

/// The overload that is called is the first one with exactly the types of the arguments; without
/// one there is none.
pub proof fn law_overloads_are_chosen_by_exact_types(
    s: Seq<OverloadEntry>,
    args: Seq<TypeV>,
    k: int,
)
    ensures
        overload_for(s, args) matches Some(e) ==> types_view(e.params@) == args && s.contains(e),
        0 <= k < s.len() && types_view(s[k].params@) == args && (forall|j: int|
            0 <= j < k ==> types_view((#[trigger] s[j]).params@) != args) ==> overload_for(s, args)
            == Some(s[k]),
        (forall|j: int| 0 <= j < s.len() ==> types_view((#[trigger] s[j]).params@) != args)
            ==> overload_for(s, args) is None,
    decreases s.len(),
{
    if s.len() > 0 {
        let rest = s.skip(1);
        law_overloads_are_chosen_by_exact_types(rest, args, k - 1);
        assert forall|j: int| 0 <= j < rest.len() implies #[trigger] rest[j] == s[j + 1] by {}
        if types_view(s[0].params@) == args {
            assert(s.contains(s[0]));
        } else if let Some(e) = overload_for(rest, args) {
            let j = choose|j: int| 0 <= j < rest.len() && rest[j] == e;
            assert(s[j + 1] == e);
        }
    }
}

/// A call of a method whose type is known has the type that the method returns.
pub proof fn law_known_methods_return_their_type(
    fx: Facts,
    n: nat,
    e: Expr,
    receiver: Expr,
    name: Seq<char>,
    hint: Option<TypeV>,
    st: StateV,
    o: ExprT,
    owner: Seq<char>,
    targs: Seq<TypeV>,
    params: Seq<TypeV>,
    ret: TypeV,
)
    requires
        e matches Expr::MethodCall { receiver: r, method, .. } && *r == receiver && method@ == name,
        expr_step(fx, n, receiver, None, st).out == Ok::<ExprT, MetelErrorV>(o),
        peeled(tree_ty(o)) == TypeV::Named(owner, targs),
        concrete_method(fx, owner, name) == Some(TypeV::Fun(params, Box::new(ret))),
    ensures
        expr_step(fx, n, e, hint, st).out matches Ok(t) ==> tree_ty(t) == ret,
{
    assert(expr_step(fx, n, e, hint, st) == method_step(fx, n, e, st));
    let r = expr_step(fx, n, receiver, None, st);
    let t = peeled(tree_ty(o));
    if let Expr::MethodCall { type_args, span, .. } = e {
        if let Ok(explicit) = super::steps::given_types(fx, r.st, type_args@, span@) {
            assert(resolved_method_step(fx, n, e, o, t, explicit, r.st) == named_method_step(
                fx,
                n,
                e,
                o,
                owner,
                targs,
                explicit,
                r.st,
            ));
        }
    }
}

/// A body that is nothing but one of its parameters has the type of that parameter: the one at its
/// position.
pub proof fn law_a_body_that_is_a_parameter_has_its_type(
    fx: Facts,
    n: nat,
    params: Seq<Param>,
    types: Seq<TypeV>,
    body: Block,
    name: String,
    at: Span,
    st: StateV,
    i: int,
)
    requires
        params.len() == types.len(),
        0 <= i < params.len(),
        forall|j: int| i < j < params.len() ==> (#[trigger] params[j]).name@ != params[i].name@,
        body.stmts@.len() == 0,
        body.tail == Some(Box::new(Expr::Ident(name, at))),
        name@ == params[i].name@,
    ensures
        body_step(fx, n, params, types, Some(types[i]), body, st).out matches Ok(b) && b.tail == Some(
            Box::new(ExprT::Ident(name@, types[i], at@)),
        ),
{
    reveal(super::state::pushed);
    let open = pushed(st);
    assert(open.scopes.len() > 0);
    let inner = bound_params(open, params, types, shorter(params.len(), types.len()));
    law_parameters_have_their_types_by_position(
        open,
        params,
        types,
        i,
        params.len() as int,
    );
    let ret = Some(types[i]);
    let s0 = StateV { ret, ..inner };
    let s1 = super::state::pushed_structs(pushed(s0));
    reveal(super::state::pushed_structs);
    assert(hoisted_structs(fx, body.stmts@, s1, 0) == (super::fields::Bound { err: None, st: s1 }));
    assert(hoisted_funs(body.stmts@, s1, 0) == s1);
    assert(decls_step(fx, n, body.stmts@, s1, 0).out is Ok);
    assert(s1.scopes.last().vars.len() == 0);
    assert(s1.scopes.drop_last() =~= inner.scopes);
    assert(var_of(s1.scopes, name@) == Some(types[i]));
    let e = Expr::Ident(name, at);
    let x = ExprT::Ident(name@, types[i], at@);
    assert(expr_step(fx, n, e, ret, s1).out == Ok::<ExprT, MetelErrorV>(x));
    super::typing_laws::law_a_value_fits_what_is_expected(fx, types[i], x, crate::ast::expr_span(e)@);
    assert(left_step(fx, n, body.tail, ret, s1).out == Ok::<Option<Box<ExprT>>, MetelErrorV>(
        Some(Box::new(x)),
    ));
    assert(block_step(fx, n, body, ret, s0).out is Ok);
}

} // verus!
