//! Which constructs take ownership of a value, and what becomes of the place it was in.
use vstd::prelude::*;
use crate::ast::{Pattern, ReceiverKind, UnaryOp};
use crate::place::{expr_place, law_ancestors_are_comparable, law_prefix_is_reflexive};
use crate::place::{law_prefix_is_transitive, prefix, target_place, PlaceV};
use crate::span::SpanV;
use crate::typed_ast::{span_of, ty_of, TypedBlock, TypedDecl, TypedExpr, TypedPlace};
use crate::types::TypeV;
use super::flow::{bind_typed, carried, fingerprint, move_above, move_key, moves_of, outside};
use super::flow::{push_scope, record_move, records, union, FlowV, MoveCause, MoveRecordV};
use super::flow_laws::{law_a_join_keeps_moves, law_a_move_is_seen};
use super::flow_laws::{law_closing_a_scope_keeps_outer_moves, lemma_merged_is_listed};
use super::flow_laws::{lemma_outside, lemma_touching, lemma_touching_is_listed, rooted, unusable};
use super::free_roots::CapturedV;
use super::report::{extends, law_rewinding_undoes_recording, mark_of};
use super::walk::{back_edge, ban, consume, consume_all, consume_fields, consume_place};
use super::walk::{function_params, gone, is_copy, loop_passes, method_params, observe};
use super::walk::{observe_base, observe_target, observe_within, on_flow, pass_again, pass_start};
use super::walk::{reborrows, receiver_kind, root_type_or_own, settled, source_place, take_captures};
use super::walk::{take_pattern, type_at, walk_args, walk_block, walk_decl, walk_decls, walk_loop};
use super::walk::{whole_use, widened, written, Cx, MAX_LOOP_PASSES, WorldV};

verus! {

/// A binding, or a field or an element of a tuple inside one.
pub open spec fn chain(e: TypedExpr) -> bool
    decreases e,
{
    match e {
        TypedExpr::Ident(_, _, _) => true,
        TypedExpr::FieldAccess { object, .. } => chain(*object),
        TypedExpr::TupleAccess { object, .. } => chain(*object),
        _ => false,
    }
}

/// An expression that does nothing but name a place or a constant.
pub open spec fn quiet(e: TypedExpr) -> bool {
    chain(e) || e is Literal || e is Path
}

/// The place that a chain names.
pub open spec fn place_of(e: TypedExpr) -> PlaceV {
    expr_place(e)->0
}

/// The type of the binding that a chain starts from: the one it was bound with, or else the one
/// that the chain says.
pub open spec fn known_type(f: FlowV, e: TypedExpr) -> TypeV {
    if f.binding_types.dom().contains(place_of(e).root) {
        f.binding_types[place_of(e).root]
    } else {
        root_type_or_own(e)
    }
}

/// Whether a chain names a value that is not copied and that may be moved out of where it is.
pub open spec fn movable(cx: Cx, w: WorldV, e: TypedExpr) -> bool {
    let place = place_of(e);
    let t = type_at(cx, place, known_type(w.flow, e));
    &&& chain(e)
    &&& !w.flow.borrowed.contains(place.root)
    &&& !is_copy(cx, w.envs, t)
    &&& ban(cx, w.envs, place, known_type(w.flow, e), t) is None
}

/// Whether two states of a walk know the same of every binding, apart from what has moved.
pub open spec fn same_ground(a: WorldV, b: WorldV) -> bool {
    &&& a.envs == b.envs
    &&& a.flow.borrowed == b.flow.borrowed
    &&& a.flow.binding_types == b.flow.binding_types
    &&& a.flow.scopes == b.flow.scopes
    &&& rooted(a.flow) ==> rooted(b.flow)
}

pub(super) proof fn lemma_chain_place(e: TypedExpr)
    requires
        chain(e),
    ensures
        expr_place(e) is Some,
    decreases e,
{
    match e {
        TypedExpr::FieldAccess { object, .. } => lemma_chain_place(*object),
        TypedExpr::TupleAccess { object, .. } => lemma_chain_place(*object),
        _ => {},
    }
}

pub(super) proof fn lemma_base_flow(cx: Cx, e: TypedExpr, w: WorldV)
    requires
        chain(e),
    ensures
        observe_base(cx, e, w).flow == w.flow,
        observe_base(cx, e, w).envs == w.envs,
        extends(observe_base(cx, e, w).report, w.report),
    decreases e,
{
    lemma_chain_place(e);
    match e {
        TypedExpr::FieldAccess { object, .. } => lemma_base_flow(cx, *object, w),
        TypedExpr::TupleAccess { object, .. } => lemma_base_flow(cx, *object, w),
        _ => {},
    }
}

proof fn lemma_outside_keeps(s: Seq<MoveRecordV>, place: PlaceV, i: int) -> (k: int)
    requires
        0 <= i < s.len(),
        !prefix(place, s[i].place),
    ensures
        0 <= k < outside(s, place).len(),
        outside(s, place)[k] == s[i],
    decreases s.len(),
{
    let rest = outside(s.drop_last(), place);
    if i == s.len() - 1 {
        rest.len() as int
    } else {
        assert(s.drop_last()[i] == s[i]);
        let k = lemma_outside_keeps(s.drop_last(), place, i);
        if !prefix(place, s.last().place) {
            assert(outside(s, place)[k] == rest[k]);
        }
        k
    }
}

proof fn lemma_move_keeps(
    f: FlowV,
    moved: PlaceV,
    span: SpanV,
    cause: MoveCause,
    ty: Seq<char>,
    place: PlaceV,
)
    requires
        rooted(f),
        unusable(f, place),
    ensures
        unusable(record_move(f, moved, span, cause, ty), place),
{
    let g = record_move(f, moved, span, cause, ty);
    if moved.root == place.root {
        let s = moves_of(f, place.root);
        let t = moves_of(g, place.root);
        let i = lemma_touching_is_listed(s, place);
        let last = t.len() - 1;
        assert(t[last].place == moved);
        if moved.projections.len() == 0 {
            assert(prefix(moved, place));
            lemma_touching(t, place, last);
        } else if prefix(moved, s[i].place) {
            if prefix(s[i].place, place) {
                law_prefix_is_transitive(moved, s[i].place, place);
            } else {
                law_ancestors_are_comparable(moved, place, s[i].place);
            }
            lemma_touching(t, place, last);
        } else {
            let k = lemma_outside_keeps(s, moved, i);
            assert(t[k] == s[i]);
            lemma_touching(t, place, k);
        }
    }
}

proof fn lemma_move_rooted(f: FlowV, moved: PlaceV, span: SpanV, cause: MoveCause, ty: Seq<char>)
    requires
        rooted(f),
    ensures
        rooted(record_move(f, moved, span, cause, ty)),
{
    let g = record_move(f, moved, span, cause, ty);
    lemma_outside(moves_of(f, moved.root), moved);
    assert forall|root: Seq<char>, i: int|
        #![trigger g.moved[root][i]]
        g.moved.dom().contains(root) && 0 <= i < g.moved[root].len() implies g.moved[root][i].place.root
        == root by {
        if root == moved.root {
            let kept = outside(moves_of(f, moved.root), moved);
            if moved.projections.len() != 0 && i < kept.len() {
                assert(g.moved[root][i] == kept[i]);
                let s = moves_of(f, moved.root);
                let k = choose|k: int| 0 <= k < s.len() && s[k] == kept[i];
                assert(f.moved[root][k].place.root == root);
            }
        } else {
            assert(f.moved[root][i].place.root == root);
        }
    }
}

proof fn lemma_consumed_place(
    cx: Cx,
    place: PlaceV,
    root_ty: TypeV,
    span: SpanV,
    cause: MoveCause,
    w: WorldV,
)
    ensures
        ({
            let after = consume_place(cx, place, root_ty, span, cause, w);
            &&& same_ground(w, after)
            &&& extends(after.report, w.report)
            &&& forall|p: PlaceV|
                rooted(w.flow) && unusable(w.flow, p) ==> #[trigger] unusable(after.flow, p)
        }),
{
    let after = consume_place(cx, place, root_ty, span, cause, w);
    let used = whole_use(place, span, w);
    let ty = super::report::bucket(type_at(cx, place, root_ty));
    if rooted(w.flow) {
        lemma_move_rooted(used.flow, place, span, cause, ty);
        assert forall|p: PlaceV| unusable(w.flow, p) implies #[trigger] unusable(after.flow, p) by {
            lemma_move_keeps(used.flow, place, span, cause, ty, p);
        }
    }
}

/// What a quiet expression does when it is consumed: nothing that was gone comes back.
pub(super) proof fn lemma_quiet(cx: Cx, e: TypedExpr, cause: MoveCause, w: WorldV)
    requires
        quiet(e),
    ensures
        ({
            let after = consume(cx, e, cause, w);
            &&& same_ground(w, after)
            &&& extends(after.report, w.report)
            &&& forall|p: PlaceV|
                rooted(w.flow) && unusable(w.flow, p) ==> #[trigger] unusable(after.flow, p)
        }),
        observe(cx, e, w).flow == w.flow,
        observe(cx, e, w).envs == w.envs,
        extends(observe(cx, e, w).report, w.report),
{
    if chain(e) {
        lemma_chain_place(e);
        let place = place_of(e);
        let root_ty = known_type(w.flow, e);
        let source = source_place(cx, w.envs, place, root_ty, cause);
        let w1 = consume_place(cx, source, root_ty, span_of(e)@, cause, w);
        lemma_consumed_place(cx, source, root_ty, span_of(e)@, cause, w);
        let w0 = whole_use(place, span_of(e)@, w);
        assert(extends(w0.report, w.report));
        assert(observe(cx, e, w) == observe_within(cx, e, w0));
        match e {
            TypedExpr::FieldAccess { object, .. } => {
                lemma_base_flow(cx, *object, w1);
                lemma_base_flow(cx, *object, w0);
                assert(observe_within(cx, e, w0) == observe_base(cx, *object, w0));
                lemma_extends(observe_base(cx, *object, w1).report, w1.report, w.report);
                lemma_extends(observe_base(cx, *object, w0).report, w0.report, w.report);
            },
            TypedExpr::TupleAccess { object, .. } => {
                lemma_base_flow(cx, *object, w1);
                lemma_base_flow(cx, *object, w0);
                assert(observe_within(cx, e, w0) == observe_base(cx, *object, w0));
                lemma_extends(observe_base(cx, *object, w1).report, w1.report, w.report);
                lemma_extends(observe_base(cx, *object, w0).report, w0.report, w.report);
            },
            _ => {},
        }
    } else {
        assert(observe(cx, e, w) == observe_within(cx, e, w));
        assert(consume(cx, e, cause, w) == observe(cx, e, w));
    }
}

pub(super) proof fn lemma_extends(
    c: super::report::MoveCheckReportV,
    b: super::report::MoveCheckReportV,
    a: super::report::MoveCheckReportV,
)
    requires
        extends(c, b),
        extends(b, a),
    ensures
        extends(c, a),
{
    assert(a.violations =~= c.violations.take(a.violations.len() as int));
    assert(a.unchecked_generic_bodies =~= c.unchecked_generic_bodies.take(
        a.unchecked_generic_bodies.len() as int,
    ));
}

/// A value that is not copied, and may be moved, is gone from its place once it is consumed.
pub proof fn law_a_consumed_value_is_gone(cx: Cx, e: TypedExpr, w: WorldV)
    requires
        movable(cx, w, e),
    ensures
        unusable(consume(cx, e, MoveCause::Other, w).flow, place_of(e)),
{
    lemma_chain_place(e);
    let place = place_of(e);
    let root_ty = known_type(w.flow, e);
    let w1 = consume_place(cx, place, root_ty, span_of(e)@, MoveCause::Other, w);
    assert(source_place(cx, w.envs, place, root_ty, MoveCause::Other) == place);
    law_prefix_is_reflexive(place);
    law_a_move_is_seen(
        whole_use(place, span_of(e)@, w).flow,
        place,
        span_of(e)@,
        MoveCause::Other,
        super::report::bucket(type_at(cx, place, root_ty)),
        place,
    );
    match e {
        TypedExpr::FieldAccess { object, .. } => lemma_base_flow(cx, *object, w1),
        TypedExpr::TupleAccess { object, .. } => lemma_base_flow(cx, *object, w1),
        _ => {},
    }
}

proof fn lemma_movable_later(cx: Cx, w: WorldV, v: WorldV, e: TypedExpr)
    requires
        movable(cx, w, e),
        same_ground(w, v),
    ensures
        movable(cx, v, e),
{
}

/// Whether the values of fields do nothing but name places and constants.
pub open spec fn quiet_fields(s: Seq<(String, TypedExpr)>) -> bool {
    forall|i: int| 0 <= i < s.len() ==> quiet((#[trigger] s[i]).1)
}

/// Whether expressions do nothing but name places and constants.
pub open spec fn quiet_all(s: Seq<TypedExpr>) -> bool {
    forall|i: int| 0 <= i < s.len() ==> quiet(#[trigger] s[i])
}

proof fn lemma_fields(cx: Cx, s: Seq<(String, TypedExpr)>, w: WorldV)
    requires
        quiet_fields(s),
        rooted(w.flow),
    ensures
        same_ground(w, consume_fields(cx, s, w)),
        forall|k: int|
            0 <= k < s.len() && movable(cx, w, (#[trigger] s[k]).1) ==> unusable(
                consume_fields(cx, s, w).flow,
                place_of(s[k].1),
            ),
    decreases s.len(),
{
    if s.len() > 0 {
        let n = s.len() - 1;
        let front = s.subrange(0, n);
        assert forall|i: int| 0 <= i < front.len() implies quiet((#[trigger] front[i]).1) by {
            assert(front[i] == s[i]);
        }
        lemma_fields(cx, front, w);
        let before = consume_fields(cx, front, w);
        let e = s[n].1;
        assert(quiet(s[n].1));
        lemma_quiet(cx, e, MoveCause::Other, before);
        let after = consume_fields(cx, s, w);
        assert(after == consume(cx, e, MoveCause::Other, before));
        assert forall|k: int| 0 <= k < s.len() && movable(cx, w, (#[trigger] s[k]).1) implies unusable(
            after.flow,
            place_of(s[k].1),
        ) by {
            if k < n {
                assert(front[k] == s[k]);
                assert(unusable(before.flow, place_of(front[k].1)));
            } else {
                lemma_movable_later(cx, w, before, e);
                law_a_consumed_value_is_gone(cx, e, before);
            }
        }
    }
}

proof fn lemma_all(cx: Cx, s: Seq<TypedExpr>, w: WorldV)
    requires
        quiet_all(s),
        rooted(w.flow),
    ensures
        same_ground(w, consume_all(cx, s, MoveCause::Other, w)),
        forall|k: int|
            0 <= k < s.len() && movable(cx, w, #[trigger] s[k]) ==> unusable(
                consume_all(cx, s, MoveCause::Other, w).flow,
                place_of(s[k]),
            ),
    decreases s.len(),
{
    if s.len() > 0 {
        let n = s.len() - 1;
        let front = s.subrange(0, n);
        assert forall|i: int| 0 <= i < front.len() implies quiet(#[trigger] front[i]) by {
            assert(front[i] == s[i]);
        }
        lemma_all(cx, front, w);
        let before = consume_all(cx, front, MoveCause::Other, w);
        let e = s[n];
        assert(quiet(s[n]));
        lemma_quiet(cx, e, MoveCause::Other, before);
        let after = consume_all(cx, s, MoveCause::Other, w);
        assert(after == consume(cx, e, MoveCause::Other, before));
        assert forall|k: int| 0 <= k < s.len() && movable(cx, w, #[trigger] s[k]) implies unusable(
            after.flow,
            place_of(s[k]),
        ) by {
            if k < n {
                assert(front[k] == s[k]);
                assert(unusable(before.flow, place_of(front[k])));
            } else {
                lemma_movable_later(cx, w, before, e);
                law_a_consumed_value_is_gone(cx, e, before);
            }
        }
    }
}

/// Whether the argument at a position is passed on as a reborrow: it and the parameter are both
/// `&var` references.
pub open spec fn lent(s: Seq<TypedExpr>, params: Option<Seq<TypeV>>, k: int) -> bool {
    params matches Some(types) && k < types.len() && ty_of(s[k])@ is MutReference
        && types[k] is MutReference
}

proof fn lemma_args(cx: Cx, s: Seq<TypedExpr>, params: Option<Seq<TypeV>>, w: WorldV)
    requires
        quiet_all(s),
        rooted(w.flow),
    ensures
        same_ground(w, walk_args(cx, s, params, w)),
        forall|k: int|
            0 <= k < s.len() && movable(cx, w, #[trigger] s[k]) && !lent(s, params, k) ==> unusable(
                walk_args(cx, s, params, w).flow,
                place_of(s[k]),
            ),
        forall|p: PlaceV|
            unusable(w.flow, p) ==> #[trigger] unusable(walk_args(cx, s, params, w).flow, p),
    decreases s.len(),
{
    if s.len() > 0 {
        let n = s.len() - 1;
        let front = s.subrange(0, n);
        assert forall|i: int| 0 <= i < front.len() implies quiet(#[trigger] front[i]) by {
            assert(front[i] == s[i]);
        }
        lemma_args(cx, front, params, w);
        let before = walk_args(cx, front, params, w);
        let e = s[n];
        assert(quiet(s[n]));
        lemma_quiet(cx, e, MoveCause::Other, before);
        let after = walk_args(cx, s, params, w);
        assert(after == if reborrows(e, params, n) {
            observe(cx, e, before)
        } else {
            consume(cx, e, MoveCause::Other, before)
        });
        assert forall|p: PlaceV| unusable(w.flow, p) implies #[trigger] unusable(after.flow, p) by {
            assert(unusable(before.flow, p));
        }
        assert forall|k: int|
            0 <= k < s.len() && movable(cx, w, #[trigger] s[k]) && !lent(s, params, k) implies unusable(
            after.flow,
            place_of(s[k]),
        ) by {
            if k < n {
                assert(front[k] == s[k]);
                assert(!lent(front, params, k));
                assert(unusable(before.flow, place_of(front[k])));
            } else {
                lemma_movable_later(cx, w, before, e);
                law_a_consumed_value_is_gone(cx, e, before);
            }
        }
    }
}

/// A struct literal and a record literal take the values of their fields, whether the literal is
/// itself moved on or only looked at: what a field was given from is gone afterwards.
pub proof fn law_literals_take_their_fields(
    cx: Cx,
    e: TypedExpr,
    s: Seq<(String, TypedExpr)>,
    k: int,
    w: WorldV,
)
    requires
        (e matches TypedExpr::StructLiteral { fields, .. } && fields@ == s) || (
        e matches TypedExpr::RecordLiteral { fields, .. } && fields@ == s),
        quiet_fields(s),
        rooted(w.flow),
        0 <= k < s.len(),
        movable(cx, w, s[k].1),
    ensures
        unusable(observe(cx, e, w).flow, place_of(s[k].1)),
        unusable(consume(cx, e, MoveCause::Other, w).flow, place_of(s[k].1)),
{
    lemma_fields(cx, s, w);
    assert(observe(cx, e, w) == observe_within(cx, e, w));
    assert(observe_within(cx, e, w) == consume_fields(cx, s, w));
    assert(consume(cx, e, MoveCause::Other, w) == observe(cx, e, w));
}

/// A tuple and an array that are moved on take their elements.
pub proof fn law_tuples_and_arrays_take_their_elements(
    cx: Cx,
    e: TypedExpr,
    s: Seq<TypedExpr>,
    k: int,
    w: WorldV,
)
    requires
        (e matches TypedExpr::Tuple(items, _, _) && items@ == s) || (
        e matches TypedExpr::Array(items, _, _) && items@ == s),
        quiet_all(s),
        rooted(w.flow),
        0 <= k < s.len(),
        movable(cx, w, s[k]),
    ensures
        unusable(consume(cx, e, MoveCause::Other, w).flow, place_of(s[k])),
{
    lemma_all(cx, s, w);
    assert(consume(cx, e, MoveCause::Other, w) == consume_all(cx, s, MoveCause::Other, w));
}

/// A call takes its arguments, except a `&var` reference that is passed on for a `&var` parameter.
pub proof fn law_calls_take_their_arguments(
    cx: Cx,
    e: TypedExpr,
    callee: TypedExpr,
    s: Seq<TypedExpr>,
    k: int,
    w: WorldV,
)
    requires
        e matches TypedExpr::Call { callee: c, args, .. } && *c == callee && args@ == s,
        quiet(callee),
        quiet_all(s),
        rooted(w.flow),
        0 <= k < s.len(),
        movable(cx, w, s[k]),
        !(ty_of(s[k])@ is MutReference) || (ty_of(callee)@ matches TypeV::Fun(types, _) ==> !(k
            < types.len() && types[k] is MutReference)),
    ensures
        unusable(observe(cx, e, w).flow, place_of(s[k])),
        unusable(consume(cx, e, MoveCause::Other, w).flow, place_of(s[k])),
{
    let params = function_params(ty_of(callee)@);
    lemma_quiet(cx, callee, MoveCause::Other, w);
    let w1 = observe(cx, callee, w);
    lemma_args(cx, s, params, w1);
    lemma_movable_later(cx, w, w1, s[k]);
    assert(!lent(s, params, k));
    assert(observe(cx, e, w) == observe_within(cx, e, w));
    assert(observe_within(cx, e, w) == walk_args(cx, s, params, w1));
    assert(consume(cx, e, MoveCause::Other, w) == observe(cx, e, w));
}

/// A method call takes its receiver where the method takes it by value, and takes its arguments.
pub proof fn law_methods_take_their_receiver_and_arguments(
    cx: Cx,
    e: TypedExpr,
    receiver: TypedExpr,
    method: Seq<char>,
    s: Seq<TypedExpr>,
    w: WorldV,
)
    requires
        e matches TypedExpr::MethodCall { receiver: r, method: m, args, .. } && *r == receiver && m@
            == method && args@ == s,
        quiet(receiver),
        quiet_all(s),
        rooted(w.flow),
    ensures
        receiver_kind(cx, w.envs, ty_of(receiver)@, method) == Some(ReceiverKind::Value) && movable(
            cx,
            w,
            receiver,
        ) && !(type_at(cx, place_of(receiver), known_type(w.flow, receiver)) is Reference)
            && !(type_at(cx, place_of(receiver), known_type(w.flow, receiver)) is MutReference)
            ==> unusable(observe(cx, e, w).flow, place_of(receiver)),
        forall|k: int|
            0 <= k < s.len() && movable(cx, w, #[trigger] s[k]) && !(ty_of(s[k])@ is MutReference)
                ==> unusable(observe(cx, e, w).flow, place_of(s[k])),
{
    let by_value = receiver_kind(cx, w.envs, ty_of(receiver)@, method) == Some(ReceiverKind::Value);
    lemma_quiet(cx, receiver, MoveCause::ByValueReceiver, w);
    let w1 = if by_value {
        consume(cx, receiver, MoveCause::ByValueReceiver, w)
    } else {
        observe(cx, receiver, w)
    };
    let params = method_params(cx, w1.envs, ty_of(receiver)@, method);
    lemma_args(cx, s, params, w1);
    assert(observe(cx, e, w) == observe_within(cx, e, w));
    assert(observe_within(cx, e, w) == walk_args(cx, s, params, w1));
    if by_value && movable(cx, w, receiver) && !(type_at(
        cx,
        place_of(receiver),
        known_type(w.flow, receiver),
    ) is Reference) && !(type_at(
        cx,
        place_of(receiver),
        known_type(w.flow, receiver),
    ) is MutReference) {
        lemma_received(cx, receiver, w);
    }
    assert forall|k: int|
        0 <= k < s.len() && movable(cx, w, #[trigger] s[k]) && !(ty_of(s[k])@ is MutReference)
        implies unusable(observe(cx, e, w).flow, place_of(s[k])) by {
        lemma_movable_later(cx, w, w1, s[k]);
        assert(!lent(s, params, k));
    }
}

proof fn lemma_received(cx: Cx, e: TypedExpr, w: WorldV)
    requires
        movable(cx, w, e),
        !(type_at(cx, place_of(e), known_type(w.flow, e)) is Reference),
        !(type_at(cx, place_of(e), known_type(w.flow, e)) is MutReference),
    ensures
        unusable(consume(cx, e, MoveCause::ByValueReceiver, w).flow, place_of(e)),
{
    lemma_chain_place(e);
    let place = place_of(e);
    let root_ty = known_type(w.flow, e);
    let cause = MoveCause::ByValueReceiver;
    let w1 = consume_place(cx, place, root_ty, span_of(e)@, cause, w);
    assert(source_place(cx, w.envs, place, root_ty, cause) == place);
    law_prefix_is_reflexive(place);
    law_a_move_is_seen(
        whole_use(place, span_of(e)@, w).flow,
        place,
        span_of(e)@,
        cause,
        super::report::bucket(type_at(cx, place, root_ty)),
        place,
    );
    match e {
        TypedExpr::FieldAccess { object, .. } => lemma_base_flow(cx, *object, w1),
        TypedExpr::TupleAccess { object, .. } => lemma_base_flow(cx, *object, w1),
        _ => {},
    }
}

/// A repeated element, the value that a reference to a fresh cell is made from, and what a
/// `return` or a `break` carries are taken.
pub proof fn law_other_operands_are_taken(cx: Cx, e: TypedExpr, value: TypedExpr, w: WorldV)
    requires
        (e matches TypedExpr::RepeatArray(v, _, _, _) && *v == value) || (
        e matches TypedExpr::RefTemp { init, .. } && *init == value) || (
        e matches TypedExpr::Return(r) && r.value == Some(Box::new(value))) || (
        e matches TypedExpr::Break(b) && b.value == Some(Box::new(value))),
        movable(cx, w, value),
    ensures
        unusable(observe(cx, e, w).flow, place_of(value)),
        unusable(consume(cx, e, MoveCause::Other, w).flow, place_of(value)),
        e is Return || e is Break ==> observe(cx, e, w).flow.diverged,
{
    law_a_consumed_value_is_gone(cx, value, w);
    assert(observe(cx, e, w) == observe_within(cx, e, w));
    assert(consume(cx, e, MoveCause::Other, w) == observe(cx, e, w));
    let taken = consume(cx, value, MoveCause::Other, w);
    assert(observe_within(cx, e, w).flow.moved == taken.flow.moved);
}

/// A binding takes the value it is bound to, and is itself usable afterwards.
pub proof fn law_bindings_take_their_value(cx: Cx, d: TypedDecl, name: Seq<char>, value: TypedExpr, w: WorldV)
    requires
        (d matches TypedDecl::Let(x) && x.name@ == name && x.value == value) || (
        d matches TypedDecl::Mut(x) && x.name@ == name && x.value == value),
        movable(cx, w, value),
    ensures
        name != place_of(value).root ==> unusable(walk_decl(cx, d, w).flow, place_of(value)),
        !unusable(
            walk_decl(cx, d, w).flow,
            PlaceV { root: name, projections: Seq::empty() },
        ),
{
    law_a_consumed_value_is_gone(cx, value, w);
    let taken = consume(cx, value, MoveCause::Other, w);
    assert(walk_decl(cx, d, w) == on_flow(taken, bind_typed(taken.flow, name, ty_of(value)@)));
}

/// An assignment to a binding takes the value and makes the binding usable, whatever had moved out
/// of it.
pub proof fn law_assignments_take_their_value(
    cx: Cx,
    e: TypedExpr,
    name: Seq<char>,
    value: TypedExpr,
    w: WorldV,
)
    requires
        e matches TypedExpr::Assign { target, value: v, .. } && target matches TypedPlace::Ident(n, _)
            && n@ == name && *v == value,
        movable(cx, w, value),
        rooted(w.flow),
    ensures
        name != place_of(value).root ==> unusable(observe(cx, e, w).flow, place_of(value)),
        !unusable(observe(cx, e, w).flow, PlaceV { root: name, projections: Seq::empty() }),
{
    law_a_consumed_value_is_gone(cx, value, w);
    lemma_quiet(cx, value, MoveCause::Other, w);
    let taken = consume(cx, value, MoveCause::Other, w);
    let p = PlaceV { root: name, projections: Seq::empty() };
    if let TypedExpr::Assign { target, .. } = e {
        assert(observe(cx, e, w) == observe_within(cx, e, w));
        assert(observe_target(cx, target, w) == w);
        assert(target_place(target) == Some(p));
        assert(observe_within(cx, e, w) == written(target, taken));
        super::flow_laws::law_a_write_to_a_binding_revives_it(taken.flow, p, p);
    }
}

/// A block hands its tail on: a value from around the block that is its tail is gone behind it.
pub proof fn law_blocks_take_their_tail(cx: Cx, b: TypedBlock, tail: TypedExpr, w: WorldV)
    requires
        b.stmts@.len() == 0,
        b.tail == Some(Box::new(tail)),
        movable(cx, w, tail),
    ensures
        unusable(walk_block(cx, b, w).flow, place_of(tail)),
{
    let w1 = on_flow(w, push_scope(w.flow));
    assert(walk_decls(cx, b.stmts@, w1) == w1);
    law_a_consumed_value_is_gone(cx, tail, w1);
    lemma_quiet(cx, tail, MoveCause::Other, w1);
    let w2 = consume(cx, tail, MoveCause::Other, w1);
    assert(w2.flow.scopes == w.flow.scopes.push(Seq::empty()));
    assert(!w2.flow.scopes.last().contains(place_of(tail).root));
    law_closing_a_scope_keeps_outer_moves(w2.flow, place_of(tail).root);
}

/// A name in a pattern takes what it is matched with, and is usable itself.
pub proof fn law_patterns_take_what_they_bind(
    cx: Cx,
    p: Pattern,
    name: Seq<char>,
    place: PlaceV,
    root_ty: TypeV,
    span: SpanV,
    w: WorldV,
)
    requires
        p matches Pattern::Binding(n, _) && n@ == name,
        !w.flow.borrowed.contains(place.root),
        !is_copy(cx, w.envs, type_at(cx, place, root_ty)),
        ban(cx, w.envs, place, root_ty, type_at(cx, place, root_ty)) is None,
    ensures
        name != place.root ==> unusable(take_pattern(cx, p, place, root_ty, span, w).flow, place),
        !unusable(
            take_pattern(cx, p, place, root_ty, span, w).flow,
            PlaceV { root: name, projections: Seq::empty() },
        ),
{
    law_prefix_is_reflexive(place);
    law_a_move_is_seen(
        whole_use(place, span, w).flow,
        place,
        span,
        MoveCause::Other,
        super::report::bucket(type_at(cx, place, root_ty)),
        place,
    );
}

/// A closure takes every binding it captures whose type is known and not copied.
pub proof fn law_closures_take_what_they_capture(
    cx: Cx,
    captures: Seq<CapturedV>,
    span: SpanV,
    k: int,
    w: WorldV,
)
    requires
        0 <= k < captures.len(),
        rooted(w.flow),
        !w.flow.borrowed.contains(captures[k].name),
        captures[k].ty matches Some(t) && !is_copy(Cx { module: Seq::empty(), ..cx }, w.envs, t),
    ensures
        unusable(
            take_captures(cx, captures, span, w).flow,
            PlaceV { root: captures[k].name, projections: Seq::empty() },
        ),
    decreases captures.len(),
{
    let front = captures.drop_last();
    let before = take_captures(cx, front, span, w);
    let bare = Cx { module: Seq::empty(), ..cx };
    let last = captures.last();
    let place = PlaceV { root: captures[k].name, projections: Seq::empty() };
    lemma_captures(cx, front, span, w);
    let known = match last.ty {
        Some(t) => Some(t),
        None => if before.flow.binding_types.dom().contains(last.name) {
            Some(before.flow.binding_types[last.name])
        } else {
            None
        },
    };
    let at = PlaceV { root: last.name, projections: Seq::empty() };
    if let Some(t) = known {
        lemma_consumed_place(bare, at, t, span, MoveCause::Other, before);
    }
    if k < captures.len() - 1 {
        assert(front[k] == captures[k]);
        law_closures_take_what_they_capture(cx, front, span, k, w);
    } else {
        let t = captures[k].ty->0;
        assert(type_at(bare, at, t) == t);
        law_prefix_is_reflexive(at);
        law_a_move_is_seen(
            whole_use(at, span, before).flow,
            at,
            span,
            MoveCause::Other,
            super::report::bucket(t),
            at,
        );
    }
}

proof fn lemma_captures(cx: Cx, captures: Seq<CapturedV>, span: SpanV, w: WorldV)
    ensures
        same_ground(w, take_captures(cx, captures, span, w)),
    decreases captures.len(),
{
    if captures.len() > 0 {
        lemma_captures(cx, captures.drop_last(), span, w);
        let before = take_captures(cx, captures.drop_last(), span, w);
        let last = captures.last();
        let known = match last.ty {
            Some(t) => Some(t),
            None => if before.flow.binding_types.dom().contains(last.name) {
                Some(before.flow.binding_types[last.name])
            } else {
                None
            },
        };
        if let Some(t) = known {
            lemma_consumed_place(
                Cx { module: Seq::empty(), ..cx },
                PlaceV { root: last.name, projections: Seq::empty() },
                t,
                span,
                MoveCause::Other,
                before,
            );
        }
    }
}

/// Reading moves nothing: a place that is looked at, compared, calculated with, referred to, or
/// passed on as a `&var` reference is as usable afterwards as before.
pub proof fn law_reading_moves_nothing(cx: Cx, e: TypedExpr, a: TypedExpr, b: TypedExpr, w: WorldV)
    requires
        quiet(a),
        quiet(b),
        e == a || (e matches TypedExpr::BinOp(l, _, r, _, _) && *l == a && *r == b) || (
        e matches TypedExpr::UnaryOp(op, x, _, _) && op != UnaryOp::Deref && *x == a) || (
        e matches TypedExpr::Cast { expr, .. } && *expr == a),
    ensures
        observe(cx, e, w).flow == w.flow,
{
    lemma_quiet(cx, a, MoveCause::Other, w);
    let w1 = observe(cx, a, w);
    lemma_quiet(cx, b, MoveCause::Other, w1);
    if e != a {
        assert(observe(cx, e, w) == observe_within(cx, e, w));
    }
}

/// A use of a place that is gone is reported, with the place and where it is used, whether the
/// value is only read or moved on.
pub proof fn law_a_use_of_what_is_gone_is_reported(cx: Cx, e: TypedExpr, w: WorldV)
    requires
        chain(e),
        unusable(w.flow, place_of(e)),
    ensures
        ({
            let n = w.report.violations.len() as int;
            let after = observe(cx, e, w).report.violations;
            &&& after.len() > n
            &&& after[n].use_place == place_of(e)
            &&& after[n].use_span == span_of(e)@
            &&& movable(cx, w, e) ==> {
                let taken = consume(cx, e, MoveCause::Other, w).report.violations;
                &&& taken.len() > n
                &&& taken[n].use_place == place_of(e)
                &&& taken[n].use_span == span_of(e)@
            }
        }),
{
    lemma_chain_place(e);
    let place = place_of(e);
    let w0 = whole_use(place, span_of(e)@, w);
    let n = w.report.violations.len() as int;
    assert(w0.report.violations.len() == n + 1);
    assert(observe(cx, e, w) == observe_within(cx, e, w0));
    let root_ty = known_type(w.flow, e);
    let w1 = consume_place(cx, place, root_ty, span_of(e)@, MoveCause::Other, w);
    assert(source_place(cx, w.envs, place, root_ty, MoveCause::Other) == place);
    match e {
        TypedExpr::FieldAccess { object, .. } => {
            lemma_base_flow(cx, *object, w0);
            lemma_base_flow(cx, *object, w1);
            assert(observe_within(cx, e, w0) == observe_base(cx, *object, w0));
            assert(consume(cx, e, MoveCause::Other, w) == observe_base(cx, *object, w1));
            lemma_prefix_at(w0.report, observe_base(cx, *object, w0).report, n);
            lemma_prefix_at(w1.report, observe_base(cx, *object, w1).report, n);
        },
        TypedExpr::TupleAccess { object, .. } => {
            lemma_base_flow(cx, *object, w0);
            lemma_base_flow(cx, *object, w1);
            assert(observe_within(cx, e, w0) == observe_base(cx, *object, w0));
            assert(consume(cx, e, MoveCause::Other, w) == observe_base(cx, *object, w1));
            lemma_prefix_at(w0.report, observe_base(cx, *object, w0).report, n);
            lemma_prefix_at(w1.report, observe_base(cx, *object, w1).report, n);
        },
        _ => {},
    }
}

pub(super) proof fn lemma_prefix_at(
    a: super::report::MoveCheckReportV,
    b: super::report::MoveCheckReportV,
    n: int,
)
    requires
        extends(b, a),
    ensures
        0 <= n < a.violations.len() ==> n < b.violations.len() && a.violations[n] == b.violations[n],
{
    assert(a.violations =~= b.violations.take(a.violations.len() as int));
}

proof fn lemma_base_silent(cx: Cx, e: TypedExpr, w: WorldV, place: PlaceV)
    requires
        chain(e),
        prefix(place_of(e), place),
        !unusable(w.flow, place),
    ensures
        observe_base(cx, e, w) == w,
    decreases e,
{
    lemma_chain_place(e);
    let p = place_of(e);
    if gone(p, w) {
        let s = moves_of(w.flow, p.root);
        let i = lemma_above_is_listed(s, p);
        law_prefix_is_transitive(s[i].place, p, place);
        lemma_touching(s, place, i);
    }
    match e {
        TypedExpr::FieldAccess { object, .. } => {
            lemma_chain_place(*object);
            lemma_shorter(place_of(*object), p);
            law_prefix_is_transitive(place_of(*object), p, place);
            lemma_base_silent(cx, *object, w, place);
        },
        TypedExpr::TupleAccess { object, .. } => {
            lemma_chain_place(*object);
            lemma_shorter(place_of(*object), p);
            law_prefix_is_transitive(place_of(*object), p, place);
            lemma_base_silent(cx, *object, w, place);
        },
        _ => {},
    }
}

proof fn lemma_shorter(a: PlaceV, b: PlaceV)
    requires
        a.root == b.root,
        b.projections.len() == a.projections.len() + 1,
        forall|i: int| 0 <= i < a.projections.len() ==> b.projections[i] == a.projections[i],
    ensures
        prefix(a, b),
{
    assert(b.projections.take(a.projections.len() as int) =~= a.projections);
}

proof fn lemma_above_is_listed(s: Seq<MoveRecordV>, place: PlaceV) -> (i: int)
    requires
        move_above(s, place) is Some,
    ensures
        0 <= i < s.len(),
        prefix(s[i].place, place),
    decreases s.len(),
{
    if prefix(s[0].place, place) {
        0
    } else {
        let k = lemma_above_is_listed(s.skip(1), place);
        assert(s.skip(1)[k] == s[k + 1]);
        k + 1
    }
}

/// A use of a place that is still there is not reported: nothing is reported that did not move.
pub proof fn law_a_use_of_what_is_there_is_fine(cx: Cx, e: TypedExpr, w: WorldV)
    requires
        chain(e),
        !unusable(w.flow, place_of(e)),
    ensures
        observe(cx, e, w) == w,
        movable(cx, w, e) ==> consume(cx, e, MoveCause::Other, w).report == w.report,
{
    lemma_chain_place(e);
    let place = place_of(e);
    assert(whole_use(place, span_of(e)@, w) == w);
    assert(observe(cx, e, w) == observe_within(cx, e, w));
    let root_ty = known_type(w.flow, e);
    let w1 = consume_place(cx, place, root_ty, span_of(e)@, MoveCause::Other, w);
    assert(source_place(cx, w.envs, place, root_ty, MoveCause::Other) == place);
    match e {
        TypedExpr::FieldAccess { object, .. } => {
            lemma_chain_place(*object);
            lemma_shorter(place_of(*object), place);
            lemma_base_silent(cx, *object, w, place);
            assert(observe_within(cx, e, w) == observe_base(cx, *object, w));
            if movable(cx, w, e) {
                lemma_base_after(cx, *object, w, w1, place);
            }
        },
        TypedExpr::TupleAccess { object, .. } => {
            lemma_chain_place(*object);
            lemma_shorter(place_of(*object), place);
            lemma_base_silent(cx, *object, w, place);
            assert(observe_within(cx, e, w) == observe_base(cx, *object, w));
            if movable(cx, w, e) {
                lemma_base_after(cx, *object, w, w1, place);
            }
        },
        _ => {},
    }
}

proof fn lemma_base_after(cx: Cx, e: TypedExpr, w: WorldV, w1: WorldV, place: PlaceV)
    requires
        chain(e),
        prefix(place_of(e), place),
        place_of(e).projections.len() < place.projections.len(),
        !unusable(w.flow, place),
        exists|span: SpanV, ty: Seq<char>|
            w1.flow == #[trigger] record_move(w.flow, place, span, MoveCause::Other, ty),
    ensures
        observe_base(cx, e, w1) == w1,
    decreases e,
{
    lemma_chain_place(e);
    let p = place_of(e);
    let (span, ty) = choose|span: SpanV, ty: Seq<char>|
        w1.flow == #[trigger] record_move(w.flow, place, span, MoveCause::Other, ty);
    if gone(p, w1) {
        let t = moves_of(w1.flow, p.root);
        let s = moves_of(w.flow, p.root);
        let i = lemma_above_is_listed(t, p);
        let kept = outside(s, place);
        if i < kept.len() {
            assert(t[i] == kept[i]);
            lemma_outside(s, place);
            let k = choose|k: int| 0 <= k < s.len() && s[k] == kept[i];
            law_prefix_is_transitive(s[k].place, p, place);
            lemma_touching(s, place, k);
        } else {
            assert(t[i].place == place);
            assert(place.projections.len() <= p.projections.len());
        }
    }
    match e {
        TypedExpr::FieldAccess { object, .. } => {
            lemma_chain_place(*object);
            lemma_shorter(place_of(*object), p);
            law_prefix_is_transitive(place_of(*object), p, place);
            lemma_base_after(cx, *object, w, w1, place);
        },
        TypedExpr::TupleAccess { object, .. } => {
            lemma_chain_place(*object);
            lemma_shorter(place_of(*object), p);
            law_prefix_is_transitive(place_of(*object), p, place);
            lemma_base_after(cx, *object, w, w1, place);
        },
        _ => {},
    }
}

/// A value that a struct or record literal took is reported when it is used again.
pub proof fn law_a_value_cannot_be_put_into_two_literals(
    cx: Cx,
    e: TypedExpr,
    s: Seq<(String, TypedExpr)>,
    k: int,
    again: TypedExpr,
    w: WorldV,
)
    requires
        (e matches TypedExpr::StructLiteral { fields, .. } && fields@ == s) || (
        e matches TypedExpr::RecordLiteral { fields, .. } && fields@ == s),
        quiet_fields(s),
        rooted(w.flow),
        0 <= k < s.len(),
        movable(cx, w, s[k].1),
        chain(again),
        place_of(again) == place_of(s[k].1),
    ensures
        ({
            let made = consume(cx, e, MoveCause::Other, w);
            let after = observe(cx, again, made);
            &&& after.report.violations.len() > made.report.violations.len()
            &&& after.report.violations[made.report.violations.len() as int].use_place == place_of(
                s[k].1,
            )
        }),
{
    law_literals_take_their_fields(cx, e, s, k, w);
    law_a_use_of_what_is_gone_is_reported(cx, again, consume(cx, e, MoveCause::Other, w));
}

proof fn lemma_carried(f: FlowV, before: FlowV, place: PlaceV)
    requires
        unusable(f, place),
    ensures
        unusable(carried(f, before), place),
        rooted(f) ==> rooted(carried(f, before)),
{
    let g = carried(f, before);
    let s = moves_of(f, place.root);
    let i = lemma_touching_is_listed(s, place);
    let t = moves_of(g, place.root);
    assert(t[i].place == s[i].place);
    lemma_touching(t, place, i);
    if rooted(f) {
        assert forall|root: Seq<char>, i: int|
            #![trigger g.moved[root][i]]
            g.moved.dom().contains(root) && 0 <= i < g.moved[root].len() implies g.moved[root][i].place.root
            == root by {
            assert(f.moved[root][i].place.root == root);
        }
    }
}

proof fn lemma_union_rooted(a: FlowV, b: FlowV)
    requires
        rooted(a),
        rooted(b),
    ensures
        rooted(union(a, b)),
{
    let g = union(a, b);
    assert forall|root: Seq<char>, i: int|
        #![trigger g.moved[root][i]]
        g.moved.dom().contains(root) && 0 <= i < g.moved[root].len() implies g.moved[root][i].place.root
        == root by {
        let s = moves_of(a, root);
        let t = moves_of(b, root);
        lemma_merged_is_listed(s, t);
        let r = g.moved[root][i];
        assert(s.contains(r) || t.contains(r));
        if s.contains(r) {
            let k = choose|k: int| 0 <= k < s.len() && s[k] == r;
            assert(a.moved[root][k].place.root == root);
        } else {
            let k = choose|k: int| 0 <= k < t.len() && t[k] == r;
            assert(b.moved[root][k].place.root == root);
        }
    }
}

/// Whether walking the body of a loop moves a place out, goes on to the next iteration, takes back
/// no report, and reports where the place was gone already.
pub open spec fn moves_each_time(step: spec_fn(WorldV) -> WorldV, place: PlaceV) -> bool {
    forall|v: WorldV|
        rooted(v.flow) && (forall|i: int|
            0 <= i < v.back_edges.len() ==> rooted(#[trigger] v.back_edges[i])) ==> {
            let after = #[trigger] step(v);
            &&& rooted(after.flow)
            &&& unusable(after.flow, place)
            &&& !after.flow.diverged
            &&& after.back_edges == v.back_edges
            &&& extends(after.report, v.report)
            &&& unusable(v.flow, place) ==> after.report.violations.len()
                > v.report.violations.len()
        }
}

proof fn lemma_gone_at_entry(
    step: spec_fn(WorldV) -> WorldV,
    out: bool,
    entry: FlowV,
    n: nat,
    w: WorldV,
    place: PlaceV,
)
    requires
        moves_each_time(step, place),
        rooted(entry),
        unusable(entry, place),
        forall|i: int| 0 <= i < w.back_edges.len() ==> rooted(#[trigger] w.back_edges[i]),
    ensures
        loop_passes(step, out, entry, n, w).report.violations.len() > w.report.violations.len(),
    decreases n,
{
    let start = pass_start(entry, w);
    lemma_start_rooted(entry, w);
    let after = step(start);
    assert(after.report.violations.len() > w.report.violations.len());
    if !(n <= 1 || settled(entry, after)) {
        lemma_wider(entry, start, after, place);
        let next = carried(widened(entry, after), entry);
        lemma_carried(widened(entry, after), entry, place);
        let v = pass_again(w.flow, mark_of(w.report), after);
        law_rewinding_undoes_recording(w.report, after.report);
        assert(v.back_edges =~= w.back_edges);
        lemma_gone_at_entry(step, out, next, (n - 1) as nat, v, place);
    }
}

proof fn lemma_start_rooted(entry: FlowV, w: WorldV)
    requires
        rooted(entry),
        forall|i: int| 0 <= i < w.back_edges.len() ==> rooted(#[trigger] w.back_edges[i]),
    ensures
        rooted(pass_start(entry, w).flow),
        forall|i: int|
            0 <= i < pass_start(entry, w).back_edges.len() ==> rooted(
                #[trigger] pass_start(entry, w).back_edges[i],
            ),
        pass_start(entry, w).report == w.report,
        forall|p: PlaceV| #[trigger] unusable(pass_start(entry, w).flow, p) == unusable(entry, p),
{
    let s = pass_start(entry, w);
    assert(s.flow.moved == entry.moved);
    assert forall|root: Seq<char>, i: int|
        #![trigger s.flow.moved[root][i]]
        s.flow.moved.dom().contains(root) && 0 <= i < s.flow.moved[root].len() implies
        s.flow.moved[root][i].place.root == root by {
        assert(entry.moved[root][i].place.root == root);
    }
    assert forall|i: int| 0 <= i < s.back_edges.len() implies rooted(#[trigger] s.back_edges[i]) by {
        if i < w.back_edges.len() {
            assert(s.back_edges[i] == w.back_edges[i]);
        }
    }
}

proof fn lemma_wider(entry: FlowV, start: WorldV, after: WorldV, place: PlaceV)
    requires
        rooted(entry),
        rooted(after.flow),
        unusable(after.flow, place),
        !after.flow.diverged,
        after.back_edges == start.back_edges,
        start.back_edges.len() > 0,
        rooted(start.back_edges.last()),
    ensures
        unusable(widened(entry, after), place),
        rooted(widened(entry, after)),
{
    let edge = after.back_edges.last();
    law_a_join_keeps_moves(edge, after.flow, place);
    lemma_union_rooted(edge, after.flow);
    law_a_join_keeps_moves(entry, back_edge(after), place);
    lemma_union_rooted(entry, back_edge(after));
}

/// A value from outside a loop that its body moves, and does not put back, is reported: it is gone
/// when the body comes round again.
pub proof fn law_a_move_in_a_loop_is_reported(
    step: spec_fn(WorldV) -> WorldV,
    exits_without_break: bool,
    place: PlaceV,
    w: WorldV,
)
    requires
        moves_each_time(step, place),
        rooted(w.flow),
        forall|i: int| 0 <= i < w.back_edges.len() ==> rooted(#[trigger] w.back_edges[i]),
    ensures
        walk_loop(step, exits_without_break, w).report.violations.len()
            > w.report.violations.len(),
{
    let entry = w.flow;
    if unusable(entry, place) {
        lemma_gone_at_entry(step, exits_without_break, entry, MAX_LOOP_PASSES as nat, w, place);
    } else {
        let start = pass_start(entry, w);
        lemma_start_rooted(entry, w);
        let after = step(start);
        assert(start.back_edges.last() == start.back_edges[start.back_edges.len() - 1]);
        lemma_wider(entry, start, after, place);
        let wide = widened(entry, after);
        let s = moves_of(wide, place.root);
        let i = lemma_touching_is_listed(s, place);
        assert(records(wide.moved, place.root, i));
        if settled(entry, after) {
            let key = move_key(wide.moved[place.root][i]);
            assert(fingerprint(wide.moved).contains(key));
            assert(fingerprint(entry.moved).contains(key));
            let (root, j) = choose|root: Seq<char>, j: int| #[trigger]
                records(entry.moved, root, j) && move_key(entry.moved[root][j]) == key;
            assert(entry.moved[root][j].place.root == root);
            assert(entry.moved[root][j].place == s[i].place);
            lemma_touching(moves_of(entry, place.root), place, j);
        } else {
            let next = carried(wide, entry);
            lemma_carried(wide, entry, place);
            let v = pass_again(w.flow, mark_of(w.report), after);
            law_rewinding_undoes_recording(w.report, after.report);
            assert(v.back_edges =~= w.back_edges);
            lemma_gone_at_entry(
                step,
                exits_without_break,
                next,
                (MAX_LOOP_PASSES - 1) as nat,
                v,
                place,
            );
        }
    }
}

} // verus!
