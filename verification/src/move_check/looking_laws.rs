//! Every part of an expression is looked at.
use vstd::prelude::*;
use crate::ast::{ReceiverKind, UnaryOp};
use crate::place::PlaceV;
use crate::typed_ast::{span_of, ty_of, TypedBlock, TypedDecl, TypedExpr, TypedStmt};
use crate::types::TypeV;
use super::flow::{push_scope, MoveCause};
use super::flow_laws::{rooted, unusable};
use super::taking_laws::{chain, known_type, lemma_base_flow, lemma_chain_place, lemma_quiet};
use super::taking_laws::{place_of, quiet, quiet_all, quiet_fields, same_ground};
use super::walk::{consume, consume_fields, consume_place, function_params, method_params, observe};
use super::walk::{observe_all, observe_target, observe_within, on_flow, reborrows, receiver_kind};
use super::walk::{source_place, walk_args, walk_block, walk_decl, walk_decls, walk_stmt, whole_use};
use super::walk::{Cx, WorldV};

verus! {

/// Whether a walk reported something.
pub open spec fn complains(before: WorldV, after: WorldV) -> bool {
    after.report.violations.len() > before.report.violations.len()
}

/// Whether an expression names a place that is gone.
pub open spec fn gone_at(w: WorldV, x: TypedExpr) -> bool {
    chain(x) && unusable(w.flow, place_of(x))
}

proof fn lemma_looked_at(cx: Cx, x: TypedExpr, w: WorldV)
    requires
        gone_at(w, x),
    ensures
        complains(w, observe(cx, x, w)),
        complains(w, consume(cx, x, MoveCause::Other, w)),
{
    lemma_chain_place(x);
    let place = place_of(x);
    let w0 = whole_use(place, span_of(x)@, w);
    let root_ty = known_type(w.flow, x);
    let w1 = consume_place(cx, place, root_ty, span_of(x)@, MoveCause::Other, w);
    assert(source_place(cx, w.envs, place, root_ty, MoveCause::Other) == place);
    assert(observe(cx, x, w) == observe_within(cx, x, w0));
    assert(complains(w, w1));
    match x {
        TypedExpr::FieldAccess { object, .. } => {
            lemma_base_flow(cx, *object, w0);
            lemma_base_flow(cx, *object, w1);
        },
        TypedExpr::TupleAccess { object, .. } => {
            lemma_base_flow(cx, *object, w0);
            lemma_base_flow(cx, *object, w1);
        },
        _ => {},
    }
}

proof fn lemma_observed(cx: Cx, s: Seq<TypedExpr>, w: WorldV, x: TypedExpr)
    requires
        quiet_all(s),
        s.contains(x),
        gone_at(w, x),
    ensures
        complains(w, observe_all(cx, s, w)),
    decreases s.len(),
{
    let n = s.len() - 1;
    let front = s.subrange(0, n);
    assert(quiet(s[n]));
    assert forall|i: int| 0 <= i < front.len() implies quiet(#[trigger] front[i]) by {
        assert(front[i] == s[i]);
    }
    lemma_all_read(cx, front, w);
    let before = observe_all(cx, front, w);
    lemma_quiet(cx, s[n], MoveCause::Other, before);
    let k = choose|k: int| 0 <= k < s.len() && s[k] == x;
    if k < n {
        assert(front[k] == x);
        lemma_observed(cx, front, w, x);
    } else {
        lemma_looked_at(cx, x, before);
    }
}

proof fn lemma_all_read(cx: Cx, s: Seq<TypedExpr>, w: WorldV)
    requires
        quiet_all(s),
    ensures
        observe_all(cx, s, w).flow == w.flow,
        observe_all(cx, s, w).report.violations.len() >= w.report.violations.len(),
    decreases s.len(),
{
    if s.len() > 0 {
        let n = s.len() - 1;
        let front = s.subrange(0, n);
        assert(quiet(s[n]));
        assert forall|i: int| 0 <= i < front.len() implies quiet(#[trigger] front[i]) by {
            assert(front[i] == s[i]);
        }
        lemma_all_read(cx, front, w);
        lemma_quiet(cx, s[n], MoveCause::Other, observe_all(cx, front, w));
    }
}

proof fn lemma_args_walked(cx: Cx, s: Seq<TypedExpr>, params: Option<Seq<TypeV>>, w: WorldV)
    requires
        quiet_all(s),
        rooted(w.flow),
    ensures
        same_ground(w, walk_args(cx, s, params, w)),
        walk_args(cx, s, params, w).report.violations.len() >= w.report.violations.len(),
        forall|p: PlaceV|
            unusable(w.flow, p) ==> #[trigger] unusable(walk_args(cx, s, params, w).flow, p),
        forall|k: int|
            0 <= k < s.len() && gone_at(w, #[trigger] s[k]) ==> complains(
                w,
                walk_args(cx, s, params, w),
            ),
    decreases s.len(),
{
    if s.len() > 0 {
        let n = s.len() - 1;
        let front = s.subrange(0, n);
        assert(quiet(s[n]));
        assert forall|i: int| 0 <= i < front.len() implies quiet(#[trigger] front[i]) by {
            assert(front[i] == s[i]);
        }
        lemma_args_walked(cx, front, params, w);
        let before = walk_args(cx, front, params, w);
        lemma_quiet(cx, s[n], MoveCause::Other, before);
        let after = walk_args(cx, s, params, w);
        assert(after == if reborrows(s[n], params, n) {
            observe(cx, s[n], before)
        } else {
            consume(cx, s[n], MoveCause::Other, before)
        });
        assert forall|p: PlaceV| unusable(w.flow, p) implies #[trigger] unusable(after.flow, p) by {
            assert(unusable(before.flow, p));
        }
        assert forall|k: int| 0 <= k < s.len() && gone_at(w, #[trigger] s[k]) implies complains(
            w,
            after,
        ) by {
            if k < n {
                assert(front[k] == s[k]);
                assert(gone_at(w, front[k]));
            } else {
                assert(unusable(before.flow, place_of(s[n])));
                lemma_looked_at(cx, s[n], before);
            }
        }
    }
}

proof fn lemma_fields_walked(cx: Cx, s: Seq<(String, TypedExpr)>, w: WorldV)
    requires
        quiet_fields(s),
        rooted(w.flow),
    ensures
        same_ground(w, consume_fields(cx, s, w)),
        consume_fields(cx, s, w).report.violations.len() >= w.report.violations.len(),
        forall|p: PlaceV|
            unusable(w.flow, p) ==> #[trigger] unusable(consume_fields(cx, s, w).flow, p),
        forall|k: int|
            0 <= k < s.len() && gone_at(w, (#[trigger] s[k]).1) ==> complains(
                w,
                consume_fields(cx, s, w),
            ),
    decreases s.len(),
{
    if s.len() > 0 {
        let n = s.len() - 1;
        let front = s.subrange(0, n);
        assert(quiet(s[n].1));
        assert forall|i: int| 0 <= i < front.len() implies quiet((#[trigger] front[i]).1) by {
            assert(front[i] == s[i]);
        }
        lemma_fields_walked(cx, front, w);
        let before = consume_fields(cx, front, w);
        lemma_quiet(cx, s[n].1, MoveCause::Other, before);
        let after = consume_fields(cx, s, w);
        assert(after == consume(cx, s[n].1, MoveCause::Other, before));
        assert forall|p: PlaceV| unusable(w.flow, p) implies #[trigger] unusable(after.flow, p) by {
            assert(unusable(before.flow, p));
        }
        assert forall|k: int| 0 <= k < s.len() && gone_at(w, (#[trigger] s[k]).1) implies complains(
            w,
            after,
        ) by {
            if k < n {
                assert(front[k] == s[k]);
                assert(gone_at(w, front[k].1));
            } else {
                assert(unusable(before.flow, place_of(s[n].1)));
                lemma_looked_at(cx, s[n].1, before);
            }
        }
    }
}

/// Both operands of a binary operator are looked at, and the operand of a unary one, of a cast and
/// of a coercion: if what one of them names is gone, that is reported.
pub proof fn law_operands_are_looked_at(
    cx: Cx,
    e: TypedExpr,
    a: TypedExpr,
    b: TypedExpr,
    w: WorldV,
)
    requires
        quiet(a),
        quiet(b),
        (e matches TypedExpr::BinOp(l, _, r, _, _) && *l == a && *r == b) || (
        e matches TypedExpr::UnaryOp(op, x, _, _) && op != UnaryOp::Deref && *x == a && a == b) || (
        e matches TypedExpr::Cast { expr, .. } && *expr == a && a == b) || (
        e matches TypedExpr::SingletonCoerce { inner, .. } && *inner == a && a == b),
        gone_at(w, a) || gone_at(w, b),
    ensures
        complains(w, observe(cx, e, w)),
{
    lemma_quiet(cx, a, MoveCause::Other, w);
    let w1 = observe(cx, a, w);
    lemma_quiet(cx, b, MoveCause::Other, w1);
    assert(observe(cx, e, w) == observe_within(cx, e, w));
    if gone_at(w, a) {
        lemma_looked_at(cx, a, w);
    } else {
        lemma_looked_at(cx, b, w1);
    }
}

/// Every element of a tuple and of an array, every field of a literal, and the callee and every
/// argument of a call are looked at.
pub proof fn law_parts_are_looked_at(
    cx: Cx,
    e: TypedExpr,
    s: Seq<TypedExpr>,
    fields: Seq<(String, TypedExpr)>,
    callee: TypedExpr,
    k: int,
    w: WorldV,
)
    requires
        quiet_all(s),
        quiet_fields(fields),
        quiet(callee),
        rooted(w.flow),
    ensures
        ((e matches TypedExpr::Tuple(items, _, _) && items@ == s) || (
        e matches TypedExpr::Array(items, _, _) && items@ == s)) && 0 <= k < s.len() && gone_at(
            w,
            s[k],
        ) ==> complains(w, observe(cx, e, w)),
        ((e matches TypedExpr::StructLiteral { fields: f, .. } && f@ == fields) || (
        e matches TypedExpr::RecordLiteral { fields: f, .. } && f@ == fields)) && 0 <= k
            < fields.len() && gone_at(w, fields[k].1) ==> complains(w, observe(cx, e, w)),
        (e matches TypedExpr::Call { callee: c, args, .. } && *c == callee && args@ == s) && ((0 <= k
            < s.len() && gone_at(w, s[k])) || gone_at(w, callee)) ==> complains(
            w,
            observe(cx, e, w),
        ),
{
    if e is Tuple || e is Array || e is StructLiteral || e is RecordLiteral || e is Call {
        assert(observe(cx, e, w) == observe_within(cx, e, w));
    }
    if 0 <= k < s.len() && gone_at(w, s[k]) {
        assert(s.contains(s[k]));
        lemma_observed(cx, s, w, s[k]);
    }
    lemma_fields_walked(cx, fields, w);
    lemma_quiet(cx, callee, MoveCause::Other, w);
    let w1 = observe(cx, callee, w);
    lemma_args_walked(cx, s, function_params(ty_of(callee)@), w1);
    if gone_at(w, callee) {
        lemma_looked_at(cx, callee, w);
    }
    if 0 <= k < s.len() && gone_at(w, s[k]) {
        assert(gone_at(w1, s[k]));
    }
}

/// The receiver of a method call that does not take it by value, and every argument of the call,
/// are looked at.
pub proof fn law_receivers_and_arguments_are_looked_at(
    cx: Cx,
    e: TypedExpr,
    receiver: TypedExpr,
    method: Seq<char>,
    s: Seq<TypedExpr>,
    k: int,
    w: WorldV,
)
    requires
        e matches TypedExpr::MethodCall { receiver: r, method: m, args, .. } && *r == receiver && m@
            == method && args@ == s,
        quiet(receiver),
        quiet_all(s),
        rooted(w.flow),
        receiver_kind(cx, w.envs, ty_of(receiver)@, method) != Some(ReceiverKind::Value),
        (0 <= k < s.len() && gone_at(w, s[k])) || gone_at(w, receiver),
    ensures
        complains(w, observe(cx, e, w)),
{
    assert(observe(cx, e, w) == observe_within(cx, e, w));
    lemma_quiet(cx, receiver, MoveCause::Other, w);
    let w1 = observe(cx, receiver, w);
    let params = method_params(cx, w1.envs, ty_of(receiver)@, method);
    lemma_args_walked(cx, s, params, w1);
    if gone_at(w, receiver) {
        lemma_looked_at(cx, receiver, w);
    } else {
        assert(gone_at(w1, s[k]));
    }
}

/// What a `return` or a `break` carries, what is repeated, what a binding is bound to, the value of
/// an assignment, a statement and the tail of a block are looked at.
pub proof fn law_single_values_are_looked_at(
    cx: Cx,
    e: TypedExpr,
    d: TypedDecl,
    b: TypedBlock,
    x: TypedExpr,
    w: WorldV,
)
    requires
        gone_at(w, x),
    ensures
        (e matches TypedExpr::Return(r) && r.value == Some(Box::new(x))) ==> complains(
            w,
            observe(cx, e, w),
        ),
        (e matches TypedExpr::Break(r) && r.value == Some(Box::new(x))) ==> complains(
            w,
            observe(cx, e, w),
        ),
        (e matches TypedExpr::RepeatArray(v, _, _, _) && *v == x) ==> complains(
            w,
            observe(cx, e, w),
        ),
        (e matches TypedExpr::RefTemp { init, .. } && *init == x) ==> complains(
            w,
            observe(cx, e, w),
        ),
        (e matches TypedExpr::Assign { target, value, .. } && *value == x && target is Ident)
            ==> complains(w, observe(cx, e, w)),
        (d matches TypedDecl::Let(l) && l.value == x) ==> complains(w, walk_decl(cx, d, w)),
        (d matches TypedDecl::Mut(l) && l.value == x) ==> complains(w, walk_decl(cx, d, w)),
        (d matches TypedDecl::Stmt(s) && *s == TypedStmt::Expr(x)) ==> complains(
            w,
            walk_decl(cx, d, w),
        ),
        b.stmts@.len() == 0 && b.tail == Some(Box::new(x)) ==> complains(w, walk_block(cx, b, w)),
{
    lemma_looked_at(cx, x, w);
    if e is Return || e is Break || e is RepeatArray || e is RefTemp || e is Assign {
        assert(observe(cx, e, w) == observe_within(cx, e, w));
    }
    if let TypedExpr::Assign { target, .. } = e {
        if target is Ident {
            assert(observe_target(cx, target, w) == w);
        }
    }
    if let TypedDecl::Stmt(s) = d {
        assert(walk_decl(cx, d, w) == walk_stmt(cx, *s, w));
        if *s == TypedStmt::Expr(x) {
            assert(walk_stmt(cx, *s, w) == observe(cx, x, w));
        }
    }
    let w1 = on_flow(w, push_scope(w.flow));
    assert(gone_at(w1, x));
    lemma_looked_at(cx, x, w1);
    if b.stmts@.len() == 0 {
        assert(walk_decls(cx, b.stmts@, w1) == w1);
    }
}

/// The condition of an `if`, the scrutinee of a `match`, and the object and the index of an element
/// are looked at before anything else.
pub proof fn law_conditions_are_looked_at(cx: Cx, e: TypedExpr, x: TypedExpr, w: WorldV)
    requires
        gone_at(w, x),
        (e matches TypedExpr::If { condition, .. } && *condition == x) || (
        e matches TypedExpr::Match(m) && *m.scrutinee == x),
    ensures
        complains(w, observe(cx, e, w)),
{
    lemma_looked_at(cx, x, w);
    assert(observe(cx, e, w) == observe_within(cx, e, w));
    let w1 = observe(cx, x, w);
    if let TypedExpr::If { then_branch, else_branch, .. } = e {
        super::walk_laws::law_a_block_advances(cx, then_branch, w1);
        let w2 = walk_block(cx, then_branch, w1);
        lemma_grown(w1, w2);
        if let Some(b) = else_branch {
            let w3 = on_flow(w2, w1.flow);
            super::walk_laws::law_a_block_advances(cx, b, w3);
            lemma_grown(w3, walk_block(cx, b, w3));
        }
    }
    if let TypedExpr::Match(m) = e {
        let start = super::walk::ArmsV {
            world: w1,
            joined: super::walk::unmoved(w1.flow),
            falls: false,
        };
        lemma_arms_grow(cx, *m.scrutinee, m.arms@, start);
    }
}

pub(super) proof fn lemma_grown(a: WorldV, b: WorldV)
    requires
        super::walk_laws::advances(a, b),
    ensures
        b.report.violations.len() >= a.report.violations.len(),
{
    reveal(super::walk_laws::advances);
}

pub(super) proof fn lemma_arms_grow(
    cx: Cx,
    scrutinee: TypedExpr,
    s: Seq<crate::typed_ast::TypedMatchArm>,
    start: super::walk::ArmsV,
)
    ensures
        super::walk::walk_arms(cx, scrutinee, s, start).world.report.violations.len()
            >= start.world.report.violations.len(),
    decreases s.len(),
{
    if s.len() > 0 {
        lemma_arms_grow(cx, scrutinee, s.subrange(0, s.len() - 1), start);
        let before = super::walk::walk_arms(cx, scrutinee, s.subrange(0, s.len() - 1), start);
        super::walk_laws::lemma_arm(cx, scrutinee, s[s.len() - 1], before.world);
        lemma_grown(
            before.world,
            super::walk::walk_arm(cx, scrutinee, s[s.len() - 1], before.world),
        );
    }
}

} // verus!
