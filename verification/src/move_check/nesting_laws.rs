//! Whatever is wrong inside of an expression, a statement or a block is found.
use vstd::prelude::*;
use crate::ast::{Param, ReceiverKind};
use crate::place::expr_place;
use crate::span::SpanV;
use crate::typed_ast::{span_of, ty_of, GenericBody, SymbolicBody, TypedBlock, TypedDecl, TypedExpr};
use crate::typed_ast::{TypedForInit, TypedForStmt, TypedMatchArm, TypedPlace, TypedStmt};
use crate::types::{types_view, TypeV};
use super::flow::{bind_all, pop_scope, push_scope, MoveCause};
use super::free_roots::{free_roots, param_names};
use super::looking_laws::{complains, lemma_arms_grow, lemma_grown};
use super::walk::{after_match, bind_element, bind_params, closure_flow, consume, consume_all};
use super::walk::{consume_fields, diverging, for_in_step, for_step, function_params, join_branches};
use super::walk::{join_single_branch, lemma_walk_loop_congruent, match_pattern, method_params};
use super::walk::{observe, observe_all, observe_base, observe_target, observe_target_base};
use super::walk::{observe_within, on_flow, params_len, popped, reach_exit, reborrows};
use super::walk::{receiver_kind, take_captures, unmoved, walk_args, walk_arm, walk_arms};
use super::walk::{walk_block, walk_decl, walk_decls, walk_generic_closure, walk_init, walk_loop};
use super::walk::{walk_stmt, while_step, whole_use, written, ArmsV, Cx, WorldV};
use super::walk_laws::{advances, law_a_block_advances, law_a_loop_reports_once};
use super::walk_laws::{law_consuming_advances, law_declarations_advance, law_observing_advances};
use super::walk_laws::{lemma_args, lemma_arm, lemma_consume_all, lemma_consume_fields, lemma_decl};
use super::walk_laws::{lemma_for_in_step, lemma_for_step, lemma_init, lemma_match_pattern};
use super::walk_laws::{lemma_observe_all, lemma_observe_base, lemma_observe_target};
use super::walk_laws::{lemma_observe_target_base, lemma_take_captures, lemma_walk_loop};
use super::walk_laws::{lemma_while_step, lemma_whole_use};

verus! {

/// Whether an expression is wrong wherever it stands: to read it and to take it is reported,
/// whatever was walked before.
pub open spec fn faulty(cx: Cx, x: TypedExpr) -> bool {
    &&& forall|v: WorldV| complains(v, #[trigger] observe(cx, x, v))
    &&& forall|v: WorldV, c: MoveCause| complains(v, #[trigger] consume(cx, x, c, v))
}

/// Whether a block is wrong wherever it stands.
pub open spec fn faulty_block(cx: Cx, b: TypedBlock) -> bool {
    forall|v: WorldV| complains(v, #[trigger] walk_block(cx, b, v))
}

/// Whether a declaration is wrong wherever it stands.
pub open spec fn faulty_decl(cx: Cx, d: TypedDecl) -> bool {
    forall|v: WorldV| complains(v, #[trigger] walk_decl(cx, d, v))
}

/// Whether an expression is a value that another one is computed from. The object that a part is
/// taken from counts where it names no place.
pub open spec fn operand(e: TypedExpr, x: TypedExpr) -> bool {
    match e {
        TypedExpr::Tuple(items, _, _) => items@.contains(x),
        TypedExpr::Array(items, _, _) => items@.contains(x),
        TypedExpr::RecordLiteral { fields, .. } => exists|i: int|
            0 <= i < fields@.len() && (#[trigger] fields@[i]).1 == x,
        TypedExpr::StructLiteral { fields, .. } => exists|i: int|
            0 <= i < fields@.len() && (#[trigger] fields@[i]).1 == x,
        TypedExpr::RepeatArray(value, _, _, _) => *value == x,
        TypedExpr::BinOp(left, _, right, _, _) => *left == x || *right == x,
        TypedExpr::UnaryOp(_, inner, _, _) => *inner == x,
        TypedExpr::RefTemp { init, .. } => *init == x,
        TypedExpr::Assign { target, value, .. } => *value == x || target_operand(target, x),
        TypedExpr::Call { callee, args, .. } => *callee == x || args@.contains(x),
        TypedExpr::MethodCall { receiver, args, .. } => *receiver == x || args@.contains(x),
        TypedExpr::FieldAccess { object, .. } => *object == x && expr_place(x) is None,
        TypedExpr::TupleAccess { object, .. } => *object == x && expr_place(x) is None,
        TypedExpr::Index { object, index, .. } => *index == x || (*object == x && expr_place(x) is None),
        TypedExpr::Cast { expr, .. } => *expr == x,
        TypedExpr::SingletonCoerce { inner, .. } => *inner == x,
        TypedExpr::Match(m) => *m.scrutinee == x || exists|i: int|
            0 <= i < m.arms@.len() && (#[trigger] m.arms@[i]).guard == Some(x),
        TypedExpr::If { condition, .. } => *condition == x,
        TypedExpr::Return(r) => r.value == Some(Box::new(x)),
        TypedExpr::Break(b) => b.value == Some(Box::new(x)),
        _ => false,
    }
}

/// Whether an expression is the index or the reference of an assignment target.
pub open spec fn target_operand(p: TypedPlace, x: TypedExpr) -> bool {
    match p {
        TypedPlace::Index { index, .. } => *index == x,
        TypedPlace::Deref { object, .. } => *object == x,
        _ => false,
    }
}

/// Whether a block is one that an expression holds.
pub open spec fn inner_block(e: TypedExpr, b: TypedBlock) -> bool {
    match e {
        TypedExpr::If { then_branch, else_branch, .. } => then_branch == b || else_branch == Some(b),
        TypedExpr::Match(m) => exists|i: int|
            0 <= i < m.arms@.len() && (#[trigger] m.arms@[i]).body == b,
        TypedExpr::Loop { body, .. } => body == b,
        TypedExpr::Closure { body, .. } => body == b,
        TypedExpr::GenericClosure { name, body, .. } => name is Some && symbolic_block(body, b),
        _ => false,
    }
}

/// Whether a block is what a generic body is walked as.
pub open spec fn symbolic_block(body: GenericBody, b: TypedBlock) -> bool {
    body.symbolic matches Some(s) && (*s matches SymbolicBody::Elaborated { body: typed, .. } && typed
        == b)
}

proof fn lemma_all(cx: Cx, s: Seq<TypedExpr>, cause: MoveCause, params: Option<Seq<TypeV>>, w: WorldV, x: TypedExpr)
    requires
        faulty(cx, x),
        s.contains(x),
    ensures
        complains(w, observe_all(cx, s, w)),
        complains(w, consume_all(cx, s, cause, w)),
        complains(w, walk_args(cx, s, params, w)),
    decreases s.len(),
{
    let n = s.len() - 1;
    let front = s.subrange(0, n);
    let a = observe_all(cx, front, w);
    let b = consume_all(cx, front, cause, w);
    let c = walk_args(cx, front, params, w);
    lemma_observe_all(cx, front, w);
    lemma_consume_all(cx, front, cause, w);
    lemma_args(cx, front, params, w);
    lemma_grown(w, a);
    lemma_grown(w, b);
    lemma_grown(w, c);
    let k = choose|k: int| 0 <= k < s.len() && s[k] == x;
    law_observing_advances(cx, s[n], a);
    law_consuming_advances(cx, s[n], cause, b);
    law_observing_advances(cx, s[n], c);
    law_consuming_advances(cx, s[n], MoveCause::Other, c);
    lemma_grown(a, observe(cx, s[n], a));
    lemma_grown(b, consume(cx, s[n], cause, b));
    lemma_grown(c, observe(cx, s[n], c));
    lemma_grown(c, consume(cx, s[n], MoveCause::Other, c));
    if k < n {
        assert(front[k] == x);
        lemma_all(cx, front, cause, params, w, x);
    }
    assert(walk_args(cx, s, params, w) == if reborrows(s[n], params, n) {
        observe(cx, s[n], c)
    } else {
        consume(cx, s[n], MoveCause::Other, c)
    });
}

proof fn lemma_fields(cx: Cx, s: Seq<(String, TypedExpr)>, w: WorldV, k: int)
    requires
        0 <= k < s.len(),
        faulty(cx, s[k].1),
    ensures
        complains(w, consume_fields(cx, s, w)),
    decreases s.len(),
{
    let n = s.len() - 1;
    let front = s.subrange(0, n);
    let a = consume_fields(cx, front, w);
    lemma_consume_fields(cx, front, w);
    lemma_grown(w, a);
    law_consuming_advances(cx, s[n].1, MoveCause::Other, a);
    lemma_grown(a, consume(cx, s[n].1, MoveCause::Other, a));
    if k < n {
        assert(front[k] == s[k]);
        lemma_fields(cx, front, w, k);
    }
}

proof fn lemma_one_arm(cx: Cx, scrutinee: TypedExpr, arm: TypedMatchArm, w: WorldV)
    requires
        faulty_block(cx, arm.body) || (arm.guard matches Some(g) && faulty(cx, g)),
    ensures
        complains(w, walk_arm(cx, scrutinee, arm, w)),
{
    let w0 = on_flow(w, push_scope(w.flow));
    lemma_match_pattern(cx, arm.pattern, scrutinee, w0);
    let w1 = match_pattern(cx, arm.pattern, scrutinee, w0);
    lemma_grown(w0, w1);
    let w2 = match arm.guard {
        Some(e) => observe(cx, e, w1),
        None => w1,
    };
    if let Some(e) = arm.guard {
        law_observing_advances(cx, e, w1);
        lemma_grown(w1, w2);
    }
    law_a_block_advances(cx, arm.body, w2);
    lemma_grown(w2, walk_block(cx, arm.body, w2));
}

proof fn lemma_arms(cx: Cx, scrutinee: TypedExpr, s: Seq<TypedMatchArm>, start: ArmsV, k: int)
    requires
        0 <= k < s.len(),
        faulty_block(cx, s[k].body) || (s[k].guard matches Some(g) && faulty(cx, g)),
    ensures
        complains(start.world, walk_arms(cx, scrutinee, s, start).world),
    decreases s.len(),
{
    let n = s.len() - 1;
    let front = s.subrange(0, n);
    let before = walk_arms(cx, scrutinee, front, start);
    lemma_arms_grow(cx, scrutinee, front, start);
    lemma_arm(cx, scrutinee, s[n], before.world);
    lemma_grown(before.world, walk_arm(cx, scrutinee, s[n], before.world));
    if k < n {
        assert(front[k] == s[k]);
        lemma_arms(cx, scrutinee, front, start, k);
    } else {
        lemma_one_arm(cx, scrutinee, s[n], before.world);
    }
}

proof fn lemma_loop(step: spec_fn(WorldV) -> WorldV, exits_without_break: bool, w: WorldV)
    requires
        forall|v: WorldV| advances(v, #[trigger] step(v)),
        forall|v: WorldV| complains(v, #[trigger] step(v)),
    ensures
        complains(w, walk_loop(step, exits_without_break, w)),
{
    law_a_loop_reports_once(step, exits_without_break, w);
    let start = choose|start: WorldV|
        start.report == w.report && walk_loop(step, exits_without_break, w).report
            == #[trigger] step(start).report;
    assert(complains(start, step(start)));
}

proof fn lemma_target(cx: Cx, p: TypedPlace, w: WorldV, x: TypedExpr)
    requires
        faulty(cx, x),
        target_operand(p, x),
    ensures
        complains(w, observe_target(cx, p, w)),
{
    match p {
        TypedPlace::Index { object, index, .. } => {
            lemma_observe_target_base(cx, *object, w);
            let w1 = observe_target_base(cx, *object, w);
            lemma_grown(w, w1);
            assert(observe_target(cx, p, w) == observe(cx, *index, w1));
        },
        TypedPlace::Deref { object, .. } => {
            assert(observe_target(cx, p, w) == observe(cx, *object, w));
        },
        _ => {},
    }
}

proof fn lemma_within(cx: Cx, e: TypedExpr, x: TypedExpr, w: WorldV)
    requires
        faulty(cx, x),
        operand(e, x),
    ensures
        complains(w, observe_within(cx, e, w)),
{
    match e {
        TypedExpr::Tuple(items, _, _) => {
            lemma_all(cx, items@, MoveCause::Other, None, w, x);
            assert(observe_within(cx, e, w) == observe_all(cx, items@, w));
        },
        TypedExpr::Array(items, _, _) => {
            lemma_all(cx, items@, MoveCause::Other, None, w, x);
            assert(observe_within(cx, e, w) == observe_all(cx, items@, w));
        },
        TypedExpr::RecordLiteral { fields, .. } => {
            let k = choose|i: int| 0 <= i < fields@.len() && (#[trigger] fields@[i]).1 == x;
            lemma_fields(cx, fields@, w, k);
            assert(observe_within(cx, e, w) == consume_fields(cx, fields@, w));
        },
        TypedExpr::StructLiteral { fields, .. } => {
            let k = choose|i: int| 0 <= i < fields@.len() && (#[trigger] fields@[i]).1 == x;
            lemma_fields(cx, fields@, w, k);
            assert(observe_within(cx, e, w) == consume_fields(cx, fields@, w));
        },
        TypedExpr::BinOp(left, _, right, _, _) => {
            let w1 = observe(cx, *left, w);
            law_observing_advances(cx, *left, w);
            lemma_grown(w, w1);
            law_observing_advances(cx, *right, w1);
            lemma_grown(w1, observe(cx, *right, w1));
            assert(observe_within(cx, e, w) == observe(cx, *right, w1));
        },
        TypedExpr::Assign { target, value, .. } => {
            let w1 = observe_target(cx, target, w);
            lemma_observe_target(cx, target, w);
            lemma_grown(w, w1);
            law_consuming_advances(cx, *value, MoveCause::Other, w1);
            lemma_grown(w1, consume(cx, *value, MoveCause::Other, w1));
            if target_operand(target, x) {
                lemma_target(cx, target, w, x);
            }
            assert(observe_within(cx, e, w) == written(
                target,
                consume(cx, *value, MoveCause::Other, w1),
            ));
        },
        TypedExpr::Call { callee, args, .. } => {
            let w1 = observe(cx, *callee, w);
            law_observing_advances(cx, *callee, w);
            lemma_grown(w, w1);
            let params = function_params(ty_of(*callee)@);
            lemma_args(cx, args@, params, w1);
            lemma_grown(w1, walk_args(cx, args@, params, w1));
            if args@.contains(x) {
                lemma_all(cx, args@, MoveCause::Other, params, w1, x);
            }
            assert(observe_within(cx, e, w) == walk_args(cx, args@, params, w1));
        },
        TypedExpr::MethodCall { receiver, method, args, .. } => {
            law_observing_advances(cx, *receiver, w);
            law_consuming_advances(cx, *receiver, MoveCause::ByValueReceiver, w);
            let w1 = if receiver_kind(cx, w.envs, ty_of(*receiver)@, method@) == Some(
                ReceiverKind::Value,
            ) {
                consume(cx, *receiver, MoveCause::ByValueReceiver, w)
            } else {
                observe(cx, *receiver, w)
            };
            lemma_grown(w, w1);
            let params = method_params(cx, w1.envs, ty_of(*receiver)@, method@);
            lemma_args(cx, args@, params, w1);
            lemma_grown(w1, walk_args(cx, args@, params, w1));
            if args@.contains(x) {
                lemma_all(cx, args@, MoveCause::Other, params, w1, x);
            }
            assert(observe_within(cx, e, w) == walk_args(cx, args@, params, w1));
        },
        TypedExpr::FieldAccess { object, .. } => {
            assert(observe_base(cx, *object, w) == observe(cx, *object, w));
            assert(observe_within(cx, e, w) == observe_base(cx, *object, w));
        },
        TypedExpr::TupleAccess { object, .. } => {
            assert(observe_base(cx, *object, w) == observe(cx, *object, w));
            assert(observe_within(cx, e, w) == observe_base(cx, *object, w));
        },
        TypedExpr::Index { object, index, .. } => {
            let w1 = observe_base(cx, *object, w);
            lemma_observe_base(cx, *object, w);
            lemma_grown(w, w1);
            law_observing_advances(cx, *index, w1);
            lemma_grown(w1, observe(cx, *index, w1));
            if *object == x && expr_place(x) is None {
                assert(w1 == observe(cx, *object, w));
            }
            assert(observe_within(cx, e, w) == observe(cx, *index, w1));
        },
        TypedExpr::Match(m) => {
            let w1 = observe(cx, *m.scrutinee, w);
            law_observing_advances(cx, *m.scrutinee, w);
            lemma_grown(w, w1);
            let start = ArmsV { world: w1, joined: unmoved(w1.flow), falls: false };
            lemma_arms_grow(cx, *m.scrutinee, m.arms@, start);
            if *m.scrutinee != x {
                let k = choose|i: int|
                    0 <= i < m.arms@.len() && (#[trigger] m.arms@[i]).guard == Some(x);
                lemma_arms(cx, *m.scrutinee, m.arms@, start, k);
            }
            assert(observe_within(cx, e, w) == after_match(
                w1.flow,
                walk_arms(cx, *m.scrutinee, m.arms@, start),
                m.arms@.len() == 0,
            ));
        },
        TypedExpr::If { condition, then_branch, else_branch, .. } => {
            let w1 = observe(cx, *condition, w);
            law_a_block_advances(cx, then_branch, w1);
            let w2 = walk_block(cx, then_branch, w1);
            lemma_grown(w1, w2);
            if let Some(b) = else_branch {
                let w3 = on_flow(w2, w1.flow);
                law_a_block_advances(cx, b, w3);
                lemma_grown(w3, walk_block(cx, b, w3));
                assert(observe_within(cx, e, w) == join_branches(
                    w1.flow,
                    w2,
                    walk_block(cx, b, w3),
                ));
            } else {
                assert(observe_within(cx, e, w) == join_single_branch(w1.flow, w2));
            }
        },
        TypedExpr::RepeatArray(value, _, _, _) => {
            assert(observe_within(cx, e, w) == consume(cx, *value, MoveCause::Other, w));
        },
        TypedExpr::UnaryOp(_, inner, _, _) => {
            assert(observe_within(cx, e, w) == observe(cx, *inner, w));
        },
        TypedExpr::RefTemp { init, .. } => {
            assert(observe_within(cx, e, w) == consume(cx, *init, MoveCause::Other, w));
        },
        TypedExpr::Cast { expr, .. } => {
            assert(observe_within(cx, e, w) == observe(cx, *expr, w));
        },
        TypedExpr::SingletonCoerce { inner, .. } => {
            assert(observe_within(cx, e, w) == observe(cx, *inner, w));
        },
        TypedExpr::Return(r) => {
            assert(observe_within(cx, e, w) == diverging(consume(cx, x, MoveCause::Other, w)));
        },
        TypedExpr::Break(b) => {
            assert(observe_within(cx, e, w) == reach_exit(consume(cx, x, MoveCause::Other, w)));
        },
        _ => {},
    }
}

/// What is wrong in an operand is wrong in the whole: no operand of any expression is passed over,
/// whatever stands beside it.
pub proof fn law_no_operand_is_passed_over(cx: Cx, e: TypedExpr, x: TypedExpr, w: WorldV)
    requires
        faulty(cx, x),
        operand(e, x),
    ensures
        complains(w, observe(cx, e, w)),
        forall|c: MoveCause|
            expr_place(e) is None ==> complains(w, #[trigger] consume(cx, e, c, w)),
{
    let w0 = match expr_place(e) {
        Some(place) => whole_use(place, span_of(e)@, w),
        None => w,
    };
    if let Some(place) = expr_place(e) {
        lemma_whole_use(place, span_of(e)@, w);
        lemma_grown(w, w0);
    }
    lemma_within(cx, e, x, w0);
    assert(observe(cx, e, w) == observe_within(cx, e, w0));
    assert forall|c: MoveCause| expr_place(e) is None implies complains(
        w,
        #[trigger] consume(cx, e, c, w),
    ) by {
        match e {
            TypedExpr::Tuple(items, _, _) => {
                lemma_all(cx, items@, c, None, w, x);
            },
            TypedExpr::Array(items, _, _) => {
                lemma_all(cx, items@, c, None, w, x);
            },
            _ => {
                assert(consume(cx, e, c, w) == observe(cx, e, w));
            },
        }
    }
}

proof fn lemma_generic(
    cx: Cx,
    body: GenericBody,
    params: Seq<Param>,
    span: SpanV,
    b: TypedBlock,
    w: WorldV,
)
    requires
        faulty_block(cx, b),
        symbolic_block(body, b),
    ensures
        complains(w, walk_generic_closure(cx, body, params, span, w)),
{
    if let SymbolicBody::Elaborated { body: typed, env } = *body.symbolic->0 {
        let types = types_view(env.arg_types@);
        let captures = free_roots(typed, param_names(params).to_set());
        lemma_take_captures(cx, captures, span, w);
        let w1 = take_captures(cx, captures, span, w);
        lemma_grown(w, w1);
        let flow = bind_params(closure_flow(typed), params, types, params_len(params, types));
        let w2 = WorldV { envs: w1.envs.push(env), flow, ..w1 };
        assert(complains(w2, walk_block(cx, typed, w2)));
        let w3 = walk_block(cx, typed, w2);
        assert(walk_generic_closure(cx, body, params, span, w) == (WorldV {
            envs: popped(w3.envs),
            flow: w1.flow,
            ..w3
        }));
    }
}

/// What is wrong in a block is wrong in the expression that holds it: both branches of a
/// conditional, every arm of a match, the body of a loop and the body of a closure are walked.
pub proof fn law_no_block_is_passed_over(cx: Cx, e: TypedExpr, b: TypedBlock, w: WorldV)
    requires
        faulty_block(cx, b),
        inner_block(e, b),
    ensures
        complains(w, observe(cx, e, w)),
        forall|c: MoveCause| complains(w, #[trigger] consume(cx, e, c, w)),
{
    broadcast use lemma_walk_loop_congruent;

    assert(observe(cx, e, w) == observe_within(cx, e, w));
    match e {
        TypedExpr::If { condition, then_branch, else_branch, .. } => {
            let w1 = observe(cx, *condition, w);
            law_observing_advances(cx, *condition, w);
            lemma_grown(w, w1);
            law_a_block_advances(cx, then_branch, w1);
            let w2 = walk_block(cx, then_branch, w1);
            lemma_grown(w1, w2);
            if let Some(o) = else_branch {
                let w3 = on_flow(w2, w1.flow);
                law_a_block_advances(cx, o, w3);
                lemma_grown(w3, walk_block(cx, o, w3));
                assert(observe_within(cx, e, w) == join_branches(
                    w1.flow,
                    w2,
                    walk_block(cx, o, w3),
                ));
            } else {
                assert(observe_within(cx, e, w) == join_single_branch(w1.flow, w2));
            }
        },
        TypedExpr::Match(m) => {
            let w1 = observe(cx, *m.scrutinee, w);
            law_observing_advances(cx, *m.scrutinee, w);
            lemma_grown(w, w1);
            let start = ArmsV { world: w1, joined: unmoved(w1.flow), falls: false };
            let k = choose|i: int| 0 <= i < m.arms@.len() && (#[trigger] m.arms@[i]).body == b;
            lemma_arms(cx, *m.scrutinee, m.arms@, start, k);
            assert(observe_within(cx, e, w) == after_match(
                w1.flow,
                walk_arms(cx, *m.scrutinee, m.arms@, start),
                m.arms@.len() == 0,
            ));
        },
        TypedExpr::Loop { body, .. } => {
            let step = |v: WorldV| walk_block(cx, body, v);
            assert forall|v: WorldV| advances(v, #[trigger] step(v)) by {
                law_a_block_advances(cx, body, v);
            }
            lemma_loop(step, false, w);
            assert(observe_within(cx, e, w) == walk_loop(step, false, w));
        },
        TypedExpr::Closure { params, body, span, .. } => {
            let captures = free_roots(body, param_names(params@).to_set());
            lemma_take_captures(cx, captures, span@, w);
            let w1 = take_captures(cx, captures, span@, w);
            lemma_grown(w, w1);
            let w2 = on_flow(w1, bind_all(closure_flow(body), param_names(params@)));
            assert(complains(w2, walk_block(cx, body, w2)));
            assert(observe_within(cx, e, w) == on_flow(walk_block(cx, body, w2), w1.flow));
        },
        TypedExpr::GenericClosure { params, body, span, .. } => {
            let captures = free_roots(b, param_names(params@).to_set());
            lemma_take_captures(cx, captures, span@, w);
            lemma_grown(w, take_captures(cx, captures, span@, w));
            lemma_generic(cx, body, params@, span@, b, w);
            assert(observe_within(cx, e, w) == walk_generic_closure(cx, body, params@, span@, w));
        },
        _ => {},
    }
    assert forall|c: MoveCause| complains(w, #[trigger] consume(cx, e, c, w)) by {
        assert(consume(cx, e, c, w) == observe(cx, e, w));
    }
}

/// What is wrong in a declaration or at the end of a block is wrong in the block.
pub proof fn law_no_declaration_is_passed_over(cx: Cx, b: TypedBlock, d: TypedDecl, w: WorldV)
    requires
        (b.stmts@.contains(d) && faulty_decl(cx, d)) || (b.tail matches Some(e) && faulty(cx, *e)),
    ensures
        complains(w, walk_block(cx, b, w)),
{
    let w0 = on_flow(w, push_scope(w.flow));
    let w1 = walk_decls(cx, b.stmts@, w0);
    law_declarations_advance(cx, b.stmts@, w0);
    lemma_grown(w0, w1);
    if b.stmts@.contains(d) && faulty_decl(cx, d) {
        lemma_decls(cx, b.stmts@, d, w0);
    }
    if let Some(e) = b.tail {
        law_consuming_advances(cx, *e, MoveCause::Other, w1);
        lemma_grown(w1, consume(cx, *e, MoveCause::Other, w1));
    }
}

proof fn lemma_decls(cx: Cx, s: Seq<TypedDecl>, d: TypedDecl, w: WorldV)
    requires
        s.contains(d),
        faulty_decl(cx, d),
    ensures
        complains(w, walk_decls(cx, s, w)),
    decreases s.len(),
{
    let n = s.len() - 1;
    let front = s.subrange(0, n);
    let a = walk_decls(cx, front, w);
    law_declarations_advance(cx, front, w);
    lemma_grown(w, a);
    lemma_decl(cx, s[n], a);
    lemma_grown(a, walk_decl(cx, s[n], a));
    let k = choose|k: int| 0 <= k < s.len() && s[k] == d;
    if k < n {
        assert(front[k] == d);
        lemma_decls(cx, front, d, w);
    }
}

/// What is wrong in the value of a binding is wrong in the declaration.
pub proof fn law_no_bound_value_is_passed_over(cx: Cx, d: TypedDecl, x: TypedExpr)
    requires
        faulty(cx, x),
        match d {
            TypedDecl::Let(decl) => decl.value == x,
            TypedDecl::Mut(decl) => decl.value == x,
            TypedDecl::Stmt(s) => *s == TypedStmt::Expr(x),
            _ => false,
        },
    ensures
        faulty_decl(cx, d),
{
    assert forall|v: WorldV| complains(v, #[trigger] walk_decl(cx, d, v)) by {
        assert(complains(v, consume(cx, x, MoveCause::Other, v)));
        assert(complains(v, observe(cx, x, v)));
        if let TypedDecl::Stmt(s) = d {
            assert(walk_decl(cx, d, v) == walk_stmt(cx, *s, v));
        }
    }
}

/// Whether an expression is the condition, the start, the step or the iterable of a loop.
pub open spec fn loop_operand(s: TypedStmt, x: TypedExpr) -> bool {
    match s {
        TypedStmt::Expr(e) => e == x,
        TypedStmt::While(l) => l.condition == x,
        TypedStmt::For(l) => l.condition == Some(x) || l.step == Some(x) || (l.init matches Some(i)
            && match i {
            TypedForInit::Let(decl) => decl.value == x,
            TypedForInit::Mut(decl) => decl.value == x,
            TypedForInit::Expr(e) => e == x,
        }),
        TypedStmt::ForIn(l) => l.iterable == x,
    }
}

/// The body of a loop.
pub open spec fn loop_body(s: TypedStmt) -> Option<TypedBlock> {
    match s {
        TypedStmt::Expr(_) => None,
        TypedStmt::While(l) => Some(l.body),
        TypedStmt::For(l) => Some(l.body),
        TypedStmt::ForIn(l) => Some(l.body),
    }
}

proof fn lemma_for_round(cx: Cx, l: TypedForStmt, x: TypedExpr, v: WorldV)
    requires
        (faulty(cx, x) && (l.condition == Some(x) || l.step == Some(x))) || faulty_block(cx, l.body),
    ensures
        complains(v, for_step(cx, l, v)),
{
    let v1 = match l.condition {
        Some(e) => observe(cx, e, v),
        None => v,
    };
    if let Some(e) = l.condition {
        law_observing_advances(cx, e, v);
        lemma_grown(v, v1);
    }
    law_a_block_advances(cx, l.body, v1);
    let v2 = walk_block(cx, l.body, v1);
    lemma_grown(v1, v2);
    if let Some(e) = l.step {
        law_observing_advances(cx, e, v2);
        lemma_grown(v2, observe(cx, e, v2));
        assert(for_step(cx, l, v) == observe(cx, e, v2));
    }
}

proof fn lemma_for(cx: Cx, l: TypedForStmt, x: TypedExpr, w: WorldV)
    requires
        (faulty(cx, x) && loop_operand(TypedStmt::For(Box::new(l)), x)) || faulty_block(cx, l.body),
    ensures
        complains(w, walk_stmt(cx, TypedStmt::For(Box::new(l)), w)),
{
    broadcast use lemma_walk_loop_congruent;

    let s = TypedStmt::For(Box::new(l));
    let w1 = on_flow(w, push_scope(w.flow));
    let w2 = match l.init {
        Some(init) => walk_init(cx, init, w1),
        None => w1,
    };
    if let Some(init) = l.init {
        lemma_init(cx, init, w1);
        lemma_grown(w1, w2);
    }
    let step = |v: WorldV| for_step(cx, l, v);
    assert forall|v: WorldV| advances(v, #[trigger] step(v)) by {
        lemma_for_step(cx, l, v);
    }
    lemma_walk_loop(step, true, w2);
    lemma_grown(w2, walk_loop(step, true, w2));
    if (faulty(cx, x) && (l.condition == Some(x) || l.step == Some(x))) || faulty_block(cx, l.body) {
        assert forall|v: WorldV| complains(v, #[trigger] step(v)) by {
            lemma_for_round(cx, l, x, v);
        }
        lemma_loop(step, true, w2);
    } else {
        let init = l.init->0;
        assert(complains(w1, consume(cx, x, MoveCause::Other, w1)));
        assert(complains(w1, observe(cx, x, w1)));
        assert(complains(w1, walk_init(cx, init, w1)));
    }
    let w3 = walk_loop(step, true, w2);
    assert(walk_stmt(cx, s, w) == on_flow(w3, pop_scope(w3.flow)));
}

/// What is wrong in the condition, the start, the step, the iterable or the body of a loop is wrong
/// in the loop.
pub proof fn law_no_part_of_a_loop_is_passed_over(
    cx: Cx,
    s: TypedStmt,
    x: TypedExpr,
    w: WorldV,
)
    requires
        (faulty(cx, x) && loop_operand(s, x)) || (loop_body(s) matches Some(b) && faulty_block(cx, b)),
    ensures
        complains(w, walk_stmt(cx, s, w)),
{
    broadcast use lemma_walk_loop_congruent;

    match s {
        TypedStmt::Expr(e) => {
            assert(walk_stmt(cx, s, w) == observe(cx, e, w));
        },
        TypedStmt::While(l) => {
            let step = |v: WorldV| while_step(cx, l, v);
            assert forall|v: WorldV| advances(v, #[trigger] step(v)) && complains(v, step(v)) by {
                lemma_while_step(cx, l, v);
                let v1 = observe(cx, l.condition, v);
                law_observing_advances(cx, l.condition, v);
                lemma_grown(v, v1);
                law_a_block_advances(cx, l.body, v1);
                lemma_grown(v1, walk_block(cx, l.body, v1));
            }
            lemma_loop(step, true, w);
            assert(walk_stmt(cx, s, w) == walk_loop(step, true, w));
        },
        TypedStmt::For(l) => {
            lemma_for(cx, *l, x, w);
            assert(s == TypedStmt::For(Box::new(*l)));
        },
        TypedStmt::ForIn(l) => {
            let w1 = observe(cx, l.iterable, w);
            law_observing_advances(cx, l.iterable, w);
            lemma_grown(w, w1);
            let step = |v: WorldV| for_in_step(cx, *l, v);
            assert forall|v: WorldV| advances(v, #[trigger] step(v)) by {
                lemma_for_in_step(cx, *l, v);
            }
            lemma_walk_loop(step, true, w1);
            lemma_grown(w1, walk_loop(step, true, w1));
            if faulty_block(cx, l.body) {
                assert forall|v: WorldV| complains(v, #[trigger] step(v)) by {
                    let v0 = on_flow(
                        v,
                        bind_element(push_scope(v.flow), l.binding@, ty_of(l.iterable)@),
                    );
                    assert(complains(v0, walk_block(cx, l.body, v0)));
                    let v1 = walk_block(cx, l.body, v0);
                    assert(step(v) == on_flow(v1, pop_scope(v1.flow)));
                }
                lemma_loop(step, true, w1);
            } else {
                assert(complains(w, w1));
            }
            assert(walk_stmt(cx, s, w) == walk_loop(step, true, w1));
        },
    }
}

} // verus!
