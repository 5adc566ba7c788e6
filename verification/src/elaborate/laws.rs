//! What holds of every elaboration.
use vstd::prelude::*;
use crate::ast::{Expr, FunDecl, TypeExpr, UnaryOp};
use crate::lookup::enum_of;
use crate::registry::{satisfies, TypeDefinitionRegistry};
use crate::span::SpanV;
use crate::text::texts;
use crate::types::{peeled, TypeV};
use super::coerce::{fitted, followed, read_copy};
use super::literals::signature;
use super::rules::{arm_catches_all, arm_covers, arm_is_truth, arm_spans, body_diverges};
use super::rules::{exhaustive, merged_type, some_arm_covers, some_catch_all, type_args_map};
use super::rules::variant_handled;
use super::shapes::{handed_error, propagated, result_args};
use super::state::{bound, opt_ann_type, popped, pushed, var_of, Facts, StateV};
use super::steps::{array_step, binding_step, complete_call, eager_type, expr_step, fun_step};
use super::steps::match_step;
use super::tree::{tree_ty, ArmT, BodyT, ExprT};

verus! {

/// Branches taken together diverge exactly where each of them does.
pub proof fn law_branches_diverge_together(s: Seq<TypeV>)
    ensures
        merged_type(s) is Never <==> forall|i: int| 0 <= i < s.len() ==> (#[trigger] s[i]) is Never,
    decreases s.len(),
{
    if s.len() > 0 {
        let rest = s.skip(1);
        law_branches_diverge_together(rest);
        assert forall|i: int| 0 <= i < rest.len() implies #[trigger] rest[i] == s[i + 1] by {}
        if s[0] is Never {
            if forall|i: int| 0 <= i < rest.len() ==> (#[trigger] rest[i]) is Never {
                assert forall|i: int| 0 <= i < s.len() implies (#[trigger] s[i]) is Never by {
                    if i > 0 {
                        assert(rest[i - 1] is Never);
                    }
                }
            } else {
                let i = choose|i: int| 0 <= i < rest.len() && !((#[trigger] rest[i]) is Never);
                assert(!(s[i + 1] is Never));
            }
        }
    }
}

/// Branches taken together have the type of one of them, unless there are none.
pub proof fn law_branches_have_the_type_of_one(s: Seq<TypeV>)
    requires
        s.len() > 0,
    ensures
        s.contains(merged_type(s)),
    decreases s.len(),
{
    if !(s[0] is Never) {
        assert(s[0] == merged_type(s));
    } else if s.len() == 1 {
        assert(merged_type(s.skip(1)) == TypeV::Never);
        assert(s[0] == TypeV::Never);
        assert(merged_type(s) == s[0]);
    } else {
        let rest = s.skip(1);
        law_branches_have_the_type_of_one(rest);
        let i = choose|i: int| 0 <= i < rest.len() && rest[i] == merged_type(rest);
        assert(s[i + 1] == merged_type(s));
    }
}

/// A match that is elaborated leaves no value of its scrutinee unmatched.
pub proof fn law_a_match_is_exhaustive(
    fx: Facts,
    n: nat,
    e: Expr,
    hint: Option<TypeV>,
    st: StateV,
)
    requires
        e is Match,
    ensures
        match_step(fx, n, e, hint, st).out matches Ok(x) ==> (x matches ExprT::Match {
            scrutinee,
            arms,
            ..
        } && exhaustive(*fx.registry, arms, peeled(tree_ty(*scrutinee)))),
{
}

/// An arm that matches everything is enough for any scrutinee.
pub proof fn law_a_catch_all_suffices(reg: TypeDefinitionRegistry, s: Seq<ArmT>, ty: TypeV, i: int)
    requires
        0 <= i < s.len(),
        arm_catches_all(s[i]),
    ensures
        exhaustive(reg, s, ty),
{
    assert(some_catch_all(s));
}

/// An arm more never makes a match less exhaustive.
pub proof fn law_more_arms_match_no_less(
    reg: TypeDefinitionRegistry,
    s: Seq<ArmT>,
    a: ArmT,
    ty: TypeV,
)
    requires
        exhaustive(reg, s, ty),
    ensures
        exhaustive(reg, s.push(a), ty),
{
    let t = s.push(a);
    assert forall|i: int| 0 <= i < s.len() implies #[trigger] t[i] == s[i] by {}
    if some_catch_all(s) {
        let i = choose|i: int| 0 <= i < s.len() && arm_catches_all(#[trigger] s[i]);
        assert(arm_catches_all(t[i]));
    } else {
        match ty {
            TypeV::Boolean => {
                let i = choose|i: int| 0 <= i < s.len() && arm_is_truth(#[trigger] s[i], true);
                assert(arm_is_truth(t[i], true));
                let j = choose|j: int| 0 <= j < s.len() && arm_is_truth(#[trigger] s[j], false);
                assert(arm_is_truth(t[j], false));
            },
            TypeV::Named(name, args) => {
                match enum_of(reg, name) {
                    Some(info) => {
                        let m = type_args_map(info.type_params@, args);
                        assert forall|i: int|
                            0 <= i < info.variants@.len() implies variant_handled(
                            t,
                            name,
                            #[trigger] info.variants@[i],
                            m,
                        ) by {
                            let v = info.variants@[i];
                            assert(variant_handled(s, name, v, m));
                            if some_arm_covers(s, name, v.name@) {
                                let k = choose|k: int|
                                    0 <= k < s.len() && arm_covers(#[trigger] s[k], name, v.name@);
                                assert(arm_covers(t[k], name, v.name@));
                            }
                        }
                    },
                    None => {},
                }
            },
            TypeV::SizedArray(_, n) => {
                let i = choose|i: int| 0 <= i < s.len() && arm_spans(#[trigger] s[i], n);
                assert(arm_spans(t[i], n));
            },
            _ => {},
        }
    }
}

/// A call that is elaborated passes as many arguments as its callee takes, and has the type that
/// its callee returns.
pub proof fn law_a_call_fits_its_callee(
    fx: Facts,
    source: Expr,
    callee: ExprT,
    fun: TypeV,
    a: Seq<ExprT>,
    explicit: bool,
    span: SpanV,
)
    ensures
        complete_call(fx, source, callee, fun, a, explicit, span) matches Ok(x) ==> (fun
            matches TypeV::Fun(params, ret) && params.len() == a.len() && tree_ty(x) == *ret),
{
}

/// A function that is declared never to return, and is elaborated, never returns.
pub proof fn law_a_function_without_result_diverges(fx: Facts, n: nat, f: FunDecl, st: StateV)
    ensures
        match (fun_step(fx, n, f, st).out, eager_type(fx, f)) {
            (Ok(t), Ok(Some(ty))) => match (
                t.body,
                signature(ty, f.name@, f.span@),
            ) {
                (BodyT::Typed(b), Ok(sig)) => sig.1 == Some(TypeV::Never) ==> body_diverges(b),
                _ => true,
            },
            _ => true,
        },
{
}

proof fn lemma_followed(e: ExprT, t: TypeV, expected: TypeV, span: SpanV)
    requires
        tree_ty(e) == t,
    ensures
        ({
            let out = tree_ty(followed(e, t, expected, span));
            out == expected || !(out is Reference || out is MutReference)
        }),
    decreases t,
{
    if t != expected {
        match t {
            TypeV::Reference(inner) => {
                lemma_followed(
                    ExprT::UnaryOp(UnaryOp::Deref, Box::new(e), *inner, span),
                    *inner,
                    expected,
                    span,
                );
            },
            TypeV::MutReference(inner) => {
                lemma_followed(
                    ExprT::UnaryOp(UnaryOp::Deref, Box::new(e), *inner, span),
                    *inner,
                    expected,
                    span,
                );
            },
            _ => {},
        }
    }
}

/// Where no reference is expected, a value that is read out of references is of the expected
/// type, or is no reference; and it was taken out of a reference only if it can be copied.
pub proof fn law_reading_out_of_references_copies(
    fx: Facts,
    expected: TypeV,
    e: ExprT,
    span: SpanV,
)
    requires
        !(expected is Reference || expected is MutReference),
    ensures
        read_copy(fx, expected, e, span) matches Ok(x) ==> {
            &&& tree_ty(x) == expected || !(tree_ty(x) is Reference || tree_ty(x) is MutReference)
            &&& x == e || satisfies(*fx.registry, fx.extra.impls@, texts(fx.module@), tree_ty(x), "Copy"@)
        },
{
    lemma_followed(e, tree_ty(e), expected, span);
}

/// What a scope binds is gone once it is closed.
pub proof fn law_a_scope_leaves_nothing(st: StateV, name: Seq<char>, ty: TypeV)
    ensures
        popped(pushed(st)) == st,
        popped(bound(pushed(st), name, ty)) == st,
{
    reveal(pushed);
    reveal(popped);
    reveal(bound);
    let p = pushed(st);
    assert(p.scopes.drop_last() =~= st.scopes);
    assert(bound(p, name, ty).scopes.drop_last() =~= p.scopes.drop_last());
}

/// A name means what it was bound to last; other names keep their meaning.
pub proof fn law_a_binding_shadows(st: StateV, name: Seq<char>, other: Seq<char>, ty: TypeV)
    requires
        st.scopes.len() > 0,
    ensures
        var_of(bound(st, name, ty).scopes, name) == Some(ty),
        other != name ==> var_of(bound(st, name, ty).scopes, other) == var_of(st.scopes, other),
{
    reveal(bound);
    let after = bound(st, name, ty).scopes;
    let vars = st.scopes.last().vars.push((name, ty));
    assert(after.last().vars == vars);
    assert(vars.last() == (name, ty));
    assert(vars.drop_last() =~= st.scopes.last().vars);
    assert(after.drop_last() =~= st.scopes.drop_last());
}

/// A declaration that is elaborated is known by its name from then on: by the type that it
/// states, or else by that of its value.
pub proof fn law_a_declaration_is_known(
    fx: Facts,
    n: nat,
    name: Seq<char>,
    ann: Option<TypeExpr>,
    value: Expr,
    span: SpanV,
    st: StateV,
)
    requires
        binding_step(fx, n, name, ann, value, span, st).st.scopes.len() > 0,
    ensures
        binding_step(fx, n, name, ann, value, span, st).out matches Ok(b) ==> {
            let known = var_of(
                binding_step(fx, n, name, ann, value, span, st).st.scopes,
                name,
            );
            &&& known is Some
            &&& ann is None ==> known == Some(tree_ty(b.value))
        },
{
    reveal(bound);
    match opt_ann_type(fx, st, ann, span) {
        Err(_) => {},
        Ok(expected) => {
            let x = expr_step(fx, n, value, expected, st);
            match x.out {
                Err(_) => {},
                Ok(t) => match fitted(fx, expected, t, span) {
                    Err(_) => {},
                    Ok(v) => {
                        let ty = match expected {
                            Some(ty) => ty,
                            None => tree_ty(v),
                        };
                        law_a_binding_shadows(x.st, name, name, ty);
                    },
                },
            }
        },
    }
}

/// `?` asks for a `Result` inside a function that returns one; it has the type of the value of
/// an `Ok`, and hands an error on as it is only where the function returns errors of its type.
pub proof fn law_propagation_unwraps_a_result(e: ExprT, ret: Option<TypeV>, span: SpanV)
    ensures
        propagated(e, ret, span) is Ok <==> (result_args(tree_ty(e)) is Some && ret is Some
            && result_args(ret->0) is Some),
        propagated(e, ret, span) matches Ok(x) ==> tree_ty(x) == (result_args(tree_ty(e))->0).0,
        forall|from: TypeV, to: TypeV|
            #![trigger handed_error(from, to, span)]
            handed_error(from, to, span) == ExprT::Ident("error"@, from, span) <==> from == to,
{
}

/// An array literal where an array of a length is expected has as many elements.
pub proof fn law_an_array_literal_has_its_length(
    fx: Facts,
    n: nat,
    e: Expr,
    item: TypeV,
    len: u64,
    st: StateV,
)
    requires
        e matches Expr::Array(items, _) && items@.len() > 0,
    ensures
        array_step(fx, n, e, Some(TypeV::SizedArray(Box::new(item), len)), st).out is Ok ==> (e
            matches Expr::Array(items, _) && items@.len() == len),
{
}

} // verus!
