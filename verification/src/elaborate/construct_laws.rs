//! What becomes of literals, calls, loops and generic functions.
use vstd::prelude::*;
use crate::ast::{Block, Expr, Stmt};
use crate::error::MetelErrorV;
use crate::infer::{all_resolved, law_lowering_undoes_lifting, lifted, lowered, lowered_all};
use crate::infer::{resolved, substituted, substituted_all, InferTypeV, TypeVar};
use crate::scheme::{compatible, fresh_var, renaming, solve, TypeScheme};
use crate::span::{Span, SpanV};
use crate::types::{peeled, TypeV};
use super::rules::{break_in_block, break_in_decls, break_in_expr};
use super::literals::iterated;
use super::schemes::{call_bindings, call_instance, opened_returns, projected_assocs, solve_args};
use super::shapes::{propagated, result_args};
use super::state::{Facts, StateV};
use super::steps::{array_method_step, expr_step, loop_step, method_step, named_method_step};
use super::steps::{named_step, never_method_step, resolved_method_step, stmt_step, struct_step};
use super::tree::{tree_ty, BlockT, DeclT, ExprT, StmtT};

verus! {

proof fn lemma_named_values(
    fx: Facts,
    n: nat,
    s: Seq<(String, Expr)>,
    hints: Seq<(Seq<char>, TypeV)>,
    st: StateV,
    k: int,
    i: int,
)
    requires
        0 <= i < k <= s.len(),
    ensures
        named_step(fx, n, s, hints, st, k).out matches Ok(items) ==> items.len() == k && items[i].0
            == s[i].0@ && exists|h: Option<TypeV>, x: StateV| #[trigger]
            expr_step(fx, n, s[i].1, h, x).out == Ok::<ExprT, MetelErrorV>(items[i].1),
    decreases k,
{
    let before = named_step(fx, n, s, hints, st, k - 1);
    if let Ok(items) = before.out {
        let h = super::steps::hint_under(hints, s[k - 1].0@);
        let x = expr_step(fx, n, s[k - 1].1, h, before.st);
        if k - 1 > 0 {
            lemma_named_values(fx, n, s, hints, st, k - 1, if i < k - 1 { i } else { 0 });
        } else {
            assert(items.len() == 0);
        }
        if let Ok(t) = x.out {
            assert(named_step(fx, n, s, hints, st, k).out == Ok::<
                Seq<(Seq<char>, ExprT)>,
                MetelErrorV,
            >(items.push((s[k - 1].0@, t))));
        }
    }
}

/// A struct literal has its fields under their names and in their order, each with the value that
/// is written for it, and is of the type it names: of the enum where the path has two segments.
pub proof fn law_struct_literals_have_the_type_they_name(
    fx: Facts,
    n: nat,
    e: Expr,
    s: Seq<(String, Expr)>,
    hint: Option<TypeV>,
    st: StateV,
    i: int,
)
    requires
        e matches Expr::StructLiteral { fields, .. } && fields@ == s,
        0 <= i < s.len(),
    ensures
        expr_step(fx, n, e, hint, st).out matches Ok(t) ==> (t matches ExprT::StructLiteral {
            path,
            fields,
            ty,
            ..
        } && ty matches TypeV::Named(name, _) && {
            &&& path.len() == 2 ==> name == path[0]
            &&& path.len() == 1 ==> name == path[0]
            &&& fields.len() == s.len()
            &&& fields[i].0 == s[i].0@
            &&& exists|h: Option<TypeV>, x: StateV| #[trigger]
                expr_step(fx, n, s[i].1, h, x).out == Ok::<ExprT, MetelErrorV>(fields[i].1)
        }),
{
    assert(expr_step(fx, n, e, hint, st) == struct_step(fx, n, e, hint, st));
    if let Expr::StructLiteral { path, fields, symbol_id, span } = e {
        if let Ok(p) = super::shapes::literal_path(fx, st, crate::text::texts(path@), hint, span@) {
            let name = super::steps::last_name(p);
            let hints = super::steps::struct_hints(st, name);
            lemma_named_values(fx, n, s, hints, st, s.len() as int, i);
        }
    }
}

/// The length of an array is an `i64`, whatever the array is made of and however long it is.
pub proof fn law_the_length_of_an_array_is_a_number(
    fx: Facts,
    n: nat,
    e: Expr,
    receiver: Expr,
    hint: Option<TypeV>,
    st: StateV,
    o: ExprT,
)
    requires
        e matches Expr::MethodCall { receiver: r, method, args, .. } && *r == receiver && method@
            == "len"@ && args@.len() == 0,
        expr_step(fx, n, receiver, None, st).out == Ok::<ExprT, MetelErrorV>(o),
        peeled(tree_ty(o)) is Array || peeled(tree_ty(o)) is SizedArray,
    ensures
        expr_step(fx, n, e, hint, st).out matches Ok(t) && tree_ty(t) == TypeV::I64 && (
        t matches ExprT::MethodCall { receiver: x, method, .. } && *x == o && method == "len"@),
{
    assert(expr_step(fx, n, e, hint, st) == method_step(fx, n, e, st));
}

/// A method call that is elaborated calls the method that is written, on the receiver that is
/// written.
pub proof fn law_method_calls_keep_their_method(
    fx: Facts,
    n: nat,
    e: Expr,
    receiver: Expr,
    name: Seq<char>,
    hint: Option<TypeV>,
    st: StateV,
)
    requires
        e matches Expr::MethodCall { receiver: r, method, .. } && *r == receiver && method@ == name,
    ensures
        expr_step(fx, n, e, hint, st).out matches Ok(t) ==> (t matches ExprT::MethodCall {
            receiver: x,
            method,
            ..
        } && method == name && expr_step(fx, n, receiver, None, st).out == Ok::<ExprT, MetelErrorV>(
            *x,
        )),
{
    assert(expr_step(fx, n, e, hint, st) == method_step(fx, n, e, st));
    let r = expr_step(fx, n, receiver, None, st);
    if let Ok(x) = r.out {
        let t = peeled(tree_ty(x));
        if let Expr::MethodCall { type_args, span, args, .. } = e {
            if let Ok(explicit) = super::steps::given_types(fx, r.st, type_args@, span@) {
                let m = resolved_method_step(fx, n, e, x, t, explicit, r.st);
                match t {
                    TypeV::Array(item) => {
                        assert(m == array_method_step(fx, n, e, x, *item, explicit, r.st));
                    },
                    TypeV::SizedArray(item, _) => {
                        assert(m == array_method_step(fx, n, e, x, *item, explicit, r.st));
                    },
                    TypeV::Never => {
                        assert(m == never_method_step(fx, n, e, x, r.st));
                    },
                    TypeV::Named(owner, targs) => {
                        assert(m == named_method_step(fx, n, e, x, owner, targs, explicit, r.st));
                    },
                    _ => {
                        if let Some(owner) = crate::types::primitive_name(t) {
                            assert(m == named_method_step(
                                fx,
                                n,
                                e,
                                x,
                                owner,
                                Seq::empty(),
                                explicit,
                                r.st,
                            ));
                        }
                    },
                }
            }
        }
    }
}

/// A loop has the type of what its `break` carries: of `()` where it carries nothing, and `!` where
/// nothing breaks out of it.
pub proof fn law_loops_have_the_type_their_break_carries(
    b: BlockT,
    v: ExprT,
    span: SpanV,
)
    ensures
        b.tail == Some(Box::new(ExprT::Break(Some(Box::new(v)), span))) ==> break_in_block(b) == Some(
            tree_ty(v),
        ),
        b.tail == Some(Box::new(ExprT::Break(None, span))) ==> break_in_block(b) == Some(
            TypeV::Unit,
        ),
        b.tail is None && b.stmts.len() == 1 && b.stmts[0] == DeclT::Stmt(
            Box::new(StmtT::Expr(ExprT::Break(Some(Box::new(v)), span))),
        ) ==> break_in_block(b) == Some(tree_ty(v)),
        b.tail is None && b.stmts.len() == 0 ==> break_in_block(b) is None,
{
    let with = ExprT::Break(Some(Box::new(v)), span);
    let without = ExprT::Break(None, span);
    assert(break_in_expr(with) == Some(tree_ty(v)));
    assert(break_in_expr(without) == Some(TypeV::Unit));
    if b.stmts.len() == 1 {
        assert(b.stmts.subrange(0, 0) =~= Seq::empty());
        assert(break_in_decls(b.stmts.subrange(0, 0)) is None);
        if b.stmts[0] == DeclT::Stmt(Box::new(StmtT::Expr(with))) {
            assert(break_in_decls(b.stmts) == break_in_expr(with));
        }
    }
}

/// The type of a loop that is elaborated is that of its `break`, or `!`.
pub proof fn law_a_loop_without_break_diverges(
    fx: Facts,
    n: nat,
    body: Block,
    span: Span,
    hint: Option<TypeV>,
    st: StateV,
)
    ensures
        expr_step(fx, n, Expr::Loop { body, span }, hint, st).out matches Ok(t) ==> (t
            matches ExprT::Loop { body: b, ty, .. } && (break_in_block(b) is None ==> ty
            == TypeV::Never) && (break_in_block(b) matches Some(x) ==> ty == x)),
{
    let e = Expr::Loop { body, span };
    assert(expr_step(fx, n, e, hint, st) == loop_step(fx, n, e, hint, st));
}

/// The variable of a loop over an array has the type of its elements; over a range it is an `i64`.
pub proof fn law_loop_variables_have_the_type_of_the_elements(
    fx: Facts,
    item: TypeV,
    n: u64,
    args: Seq<TypeV>,
)
    ensures
        iterated(fx, TypeV::Array(Box::new(item))) == Ok::<TypeV, MetelErrorV>(item),
        iterated(fx, TypeV::SizedArray(Box::new(item), n)) == Ok::<TypeV, MetelErrorV>(item),
        iterated(fx, TypeV::Reference(Box::new(TypeV::Array(Box::new(item))))) == Ok::<
            TypeV,
            MetelErrorV,
        >(item),
        iterated(fx, TypeV::Named("Range"@, args)) == Ok::<TypeV, MetelErrorV>(TypeV::I64),
        iterated(fx, TypeV::I64) is Err,
        iterated(fx, TypeV::Boolean) is Err,
{
    reveal_with_fuel(peeled, 3);
}

/// What a type accepts: `!` fits everywhere and so does everything where `!` is asked for; a simple
/// type fits only itself; a shared reference may be had from a `&var` one but not the other way
/// round; a named type has to have the same name.
pub proof fn law_what_fits_where(t: TypeV, a: Seq<TypeV>, b: Seq<TypeV>, m: Seq<char>, n: Seq<char>)
    ensures
        compatible(TypeV::Never, t),
        compatible(t, TypeV::Never),
        !(t is Never) ==> (compatible(TypeV::I64, t) <==> t == TypeV::I64),
        !(t is Never) ==> (compatible(TypeV::Str, t) <==> t == TypeV::Str),
        !(t is Never) ==> (compatible(TypeV::Boolean, t) <==> t == TypeV::Boolean),
        !(t is Never) ==> (compatible(TypeV::U8, t) <==> t == TypeV::U8),
        !(t is Never) ==> (compatible(TypeV::F64, t) <==> t == TypeV::F64),
        !(t is Never) ==> (compatible(TypeV::Char, t) <==> t == TypeV::Char),
        compatible(TypeV::Reference(Box::new(t)), TypeV::MutReference(Box::new(t))) == compatible(
            t,
            t,
        ),
        !compatible(TypeV::MutReference(Box::new(t)), TypeV::Reference(Box::new(t))),
        m != n ==> !compatible(TypeV::Named(m, a), TypeV::Named(n, b)),
        a.len() != b.len() ==> !compatible(TypeV::Tuple(a), TypeV::Tuple(b)),
{
    assert(compatible(TypeV::Tuple(a), TypeV::Tuple(b)) == crate::scheme::all_compatible(a, b));
}

/// Every type fits where it is asked for itself.
pub proof fn law_a_type_fits_itself(t: TypeV)
    ensures
        compatible(t, t),
    decreases t,
{
    match t {
        TypeV::Tuple(s) => {
            assert forall|i: int| 0 <= i < s.len() implies compatible(s[i], #[trigger] s[i]) by {
                law_a_type_fits_itself(s[i]);
            }
            assert(crate::scheme::all_compatible(s, s));
        },
        TypeV::Record(s) => {
            assert forall|i: int| 0 <= i < s.len() implies s[i].0 == (#[trigger] s[i]).0
                && compatible(s[i].1, s[i].1) by {
                law_a_type_fits_itself(s[i].1);
            }
            assert(crate::scheme::fields_compatible(s, s));
        },
        TypeV::Array(x) => law_a_type_fits_itself(*x),
        TypeV::SizedArray(x, _) => law_a_type_fits_itself(*x),
        TypeV::Reference(x) => law_a_type_fits_itself(*x),
        TypeV::MutReference(x) => law_a_type_fits_itself(*x),
        TypeV::Fun(s, x) => {
            assert forall|i: int| 0 <= i < s.len() implies compatible(s[i], #[trigger] s[i]) by {
                law_a_type_fits_itself(s[i]);
            }
            assert(crate::scheme::all_compatible(s, s));
            law_a_type_fits_itself(*x);
        },
        TypeV::Named(_, s) => {
            assert forall|i: int| 0 <= i < s.len() implies compatible(s[i], #[trigger] s[i]) by {
                law_a_type_fits_itself(s[i]);
            }
            assert(crate::scheme::all_compatible(s, s));
        },
        _ => {},
    }
}

/// An argument tells what its type parameter is, and a later argument has to agree.
pub proof fn law_arguments_tell_type_parameters(
    m: Map<TypeVar, InferTypeV>,
    v: TypeVar,
    t: TypeV,
    u: TypeV,
)
    requires
        !(t is Never),
        !(u is Never),
    ensures
        !m.dom().contains(v) ==> solve(m, InferTypeV::Var(v), t) == Some(m.insert(v, lifted(t))),
        solve(m.insert(v, lifted(t)), InferTypeV::Var(v), u) is Some <==> compatible(t, u),
        solve(m, InferTypeV::Concrete(t), u) is Some <==> compatible(t, u),
        solve(m, InferTypeV::Var(v), TypeV::Never) == Some(m),
{
    law_lowering_undoes_lifting(t);
}

/// A function from a type parameter to itself, called with an argument, takes and returns the type
/// of the argument.
pub proof fn law_a_generic_identity_returns_what_it_is_given(
    reg: crate::registry::TypeDefinitionRegistry,
    module: Seq<Seq<char>>,
    scheme: TypeScheme,
    v: TypeVar,
    t: TypeV,
    span: SpanV,
    next: u32,
)
    requires
        scheme.quantified_vars@ == seq![v],
        scheme.assoc_projections@.len() == 0,
        scheme.opaque_returns@.len() == 0,
        scheme.ty@ == InferTypeV::Fun(seq![InferTypeV::Var(v)], Box::new(InferTypeV::Var(v))),
        !(t is Never),
    ensures
        call_instance(reg, module, scheme, seq![t], None, span, next) matches Ok(x) && x.0
            == TypeV::Fun(seq![t], Box::new(t)),
{
    let q = scheme.quantified_vars@;
    let f = fresh_var(next, 0);
    reveal_with_fuel(renaming, 2);
    let ren = renaming(q, next, 1);
    assert(ren.dom().contains(v) && ren[v] == InferTypeV::Var(f));
    let s = seq![InferTypeV::Var(v)];
    let params = seq![InferTypeV::Var(f)];
    assert(substituted(ren, InferTypeV::Var(v)) == InferTypeV::Var(f));
    assert(substituted_all(ren, s) =~= params);
    let fun = InferTypeV::Fun(params, Box::new(InferTypeV::Var(f)));
    assert(substituted(ren, InferTypeV::Fun(s, Box::new(InferTypeV::Var(v)))) == fun);
    let m = Map::<TypeVar, InferTypeV>::empty().insert(f, lifted(t));
    reveal_with_fuel(solve_args, 2);
    assert(solve(Map::empty(), params[0], t) == Some(m));
    assert(solve_args(Map::empty(), params, seq![t], 1) == Some(m));
    assert(projected_assocs(reg, module, scheme, ren, m, 0) == m);
    assert(opened_returns(scheme, ren, m, 0) == m);
    assert(call_bindings(reg, module, scheme, ren, m) == m);
    law_lowering_undoes_lifting(t);
    assert(substituted(m, InferTypeV::Var(f)) == lifted(t));
    assert(substituted_all(m, params) =~= seq![lifted(t)]);
    let g = InferTypeV::Fun(seq![lifted(t)], Box::new(lifted(t)));
    assert(substituted(m, fun) == g);
    assert(all_resolved(seq![lifted(t)]));
    assert(lowered_all(seq![lifted(t)]) =~= seq![t]);
    assert(resolved(g));
    assert(lowered(g) == TypeV::Fun(seq![t], Box::new(t)));
}

/// `?` on a `Result` gives the type of its value, and is refused on anything else.
pub proof fn law_error_propagation_unwraps(
    e: ExprT,
    ok: TypeV,
    err: TypeV,
    outer: TypeV,
    span: SpanV,
)
    requires
        tree_ty(e) == TypeV::Named("Result"@, seq![ok, err]),
    ensures
        propagated(
            e,
            Some(TypeV::Named("Result"@, seq![outer, err])),
            span,
        ) matches Ok(x) && tree_ty(x) == ok,
        propagated(e, None, span) is Err,
        propagated(e, Some(TypeV::I64), span) is Err,
{
    assert(result_args(tree_ty(e)) == Some((ok, err)));
    assert(result_args(TypeV::Named("Result"@, seq![outer, err])) == Some((outer, err)));
}

/// Statements stay what they are: an expression an expression, a loop a loop with its condition.
pub proof fn law_statements_stay_what_they_are(fx: Facts, n: nat, s: Stmt, st: StateV)
    ensures
        s matches Stmt::Expr(e) ==> (stmt_step(fx, n, s, st).out matches Ok(t) ==> (t
            matches StmtT::Expr(x) && expr_step(fx, n, e, None, st).out == Ok::<ExprT, MetelErrorV>(
            x,
        ))),
        s matches Stmt::While(w) ==> (stmt_step(fx, n, s, st).out matches Ok(t) ==> (t
            matches StmtT::While { condition, .. } && expr_step(fx, n, w.condition, None, st).out
            == Ok::<ExprT, MetelErrorV>(condition))),
{
}

} // verus!
