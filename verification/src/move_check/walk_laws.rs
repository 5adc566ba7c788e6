//! What holds of every walk, whatever the program.
use vstd::prelude::*;
use crate::ast::{Param, Pattern};
use crate::place::{expr_place, law_prefix_is_reflexive, projected, target_place, PlaceV};
use crate::place::ProjectionV;
use crate::span::SpanV;
use crate::text::texts;
use crate::typed_ast::{span_of, ty_of, FunBody, GenericBody, SymbolicBody, TypedBlock, TypedDecl};
use crate::typed_ast::{TypedExpr, TypedForInStmt, TypedForInit, TypedForStmt, TypedFunDecl};
use crate::typed_ast::{TypedMatchArm, TypedPlace, TypedStmt, TypedWhileStmt};
use crate::types::{types_view, TypeV};
use super::flow::{along, bind, bind_all, bind_borrowed, bind_typed, carried, empty_flow, forget};
use super::flow::{forget_all, forget_scopes, merged, move_touching, moves_of, outside, pop_scope, push_scope};
use super::flow::{outer, record_move, reinitialized, union, unseen, FlowV, MoveCause};
use super::flow_laws::{law_a_join_adds_no_move, law_a_move_is_seen, lemma_merged_is_listed};
use super::flow_laws::{lemma_outside, rooted, unusable};
use super::free_roots::{free_roots, param_names, pattern_names, CapturedV};
use super::report::{bucket, extends, law_rewinding_undoes_recording, mark_of};
use super::report::{tallied, with_skipped, with_violation, MoveCheckReportV, MoveViolationKind};
use super::report::MoveViolationV;
use super::walk::lemma_walk_loop_congruent;
use super::walk::{after_loop, after_match, back_edge, ban, bind_element, bind_fields, bind_params};
use super::walk::{capture_names, closure_flow, consume, consume_all, consume_fields, consume_place};
use super::walk::{for_in_step, for_step, function_params, gone, is_copy, join_branches, observe};
use super::walk::{joined_with, loop_passes, match_pattern, method_params, popped};
use super::walk::{observe_all, observe_base, observe_target, observe_target_base, observe_within};
use super::walk::{base_use, diverging, on_flow, params_len, pass_again, pass_end, pass_start};
use super::walk::{reach_back_edge, reach_exit, reborrows, receiver_kind, root_type_or_own, settled};
use super::walk::{take_captures, take_items, take_pattern, type_at, use_violation, walk_arm};
use super::walk::{walk_args, walk_arms, walk_block, walk_decl, walk_decls, walk_fun, walk_funs};
use super::walk::{walk_generic, walk_generic_closure, walk_init, walk_loop, walk_stmt, while_step};
use super::walk::{left_with, source_place, through_drop, through_index, through_reference, unmoved};
use super::walk::{variant_place, whole_use, widened};
use super::walk::{ArmsV, Cx, WorldV, MAX_LOOP_PASSES};

verus! {

/// Every flow of a walk records its moves under the binding that they start from, and the report
/// counts what it lists.
pub open spec fn sound(w: WorldV) -> bool {
    &&& tallied(w.report)
    &&& rooted(w.flow)
    &&& forall|i: int| 0 <= i < w.back_edges.len() ==> rooted(#[trigger] w.back_edges[i])
    &&& forall|i: int| 0 <= i < w.exits.len() ==> rooted((#[trigger] w.exits[i]).state)
}

/// A report that holds what another holds, and perhaps more.
pub open spec fn outgrows(longer: MoveCheckReportV, shorter: MoveCheckReportV) -> bool {
    &&& extends(longer, shorter)
    &&& shorter.skipped_generic_bodies_user <= longer.skipped_generic_bodies_user
    &&& shorter.skipped_generic_bodies_embedded_std <= longer.skipped_generic_bodies_embedded_std
}

/// What a walk keeps between any two of its states: nothing that was reported is taken back, the
/// generic bodies and loops being walked are the same, moves stay recorded under the binding that
/// they start from, and the report counts what it lists.
#[verifier::opaque]
pub open spec fn advances(before: WorldV, after: WorldV) -> bool {
    &&& outgrows(after.report, before.report)
    &&& after.envs == before.envs
    &&& after.back_edges.len() == before.back_edges.len()
    &&& after.exits.len() == before.exits.len()
    &&& sound(before) ==> sound(after)
}

proof fn lemma_stays(w: WorldV)
    ensures
        advances(w, w),
{
    reveal(advances);
}

/// A report that outgrows one that outgrew another outgrows that other.
proof fn lemma_outgrows(a: MoveCheckReportV, b: MoveCheckReportV, c: MoveCheckReportV)
    requires
        outgrows(b, a),
        outgrows(c, b),
    ensures
        outgrows(c, a),
{
    assert(a.violations =~= c.violations.subrange(0, a.violations.len() as int)) by {
        assert(forall|i: int| 0 <= i < a.violations.len() ==> a.violations[i] == b.violations[i]);
        assert(forall|i: int| 0 <= i < b.violations.len() ==> b.violations[i] == c.violations[i]);
    }
    let (x, y, z) = (
        a.unchecked_generic_bodies,
        b.unchecked_generic_bodies,
        c.unchecked_generic_bodies,
    );
    assert(x =~= z.subrange(0, x.len() as int)) by {
        assert(forall|i: int| 0 <= i < x.len() ==> x[i] == y[i]);
        assert(forall|i: int| 0 <= i < y.len() ==> y[i] == z[i]);
    }
}

proof fn lemma_chain(a: WorldV, b: WorldV, c: WorldV)
    requires
        advances(a, b),
        advances(b, c),
    ensures
        advances(a, c),
{
    reveal(advances);
    lemma_outgrows(a.report, b.report, c.report);
}

/// The flow of a walk may be replaced by one that is no worse.
proof fn lemma_flow(before: WorldV, after: WorldV, flow: FlowV)
    requires
        advances(before, after),
        sound(before) && rooted(after.flow) ==> rooted(flow),
    ensures
        advances(before, on_flow(after, flow)),
{
    reveal(advances);
}

proof fn lemma_violation(w: WorldV, v: MoveViolationV)
    ensures
        advances(w, WorldV { report: with_violation(w.report, v), ..w }),
{
    reveal(advances);
}

proof fn lemma_skipped(w: WorldV, span: SpanV, reason: Seq<char>)
    ensures
        advances(w, WorldV { report: with_skipped(w.report, span, reason), ..w }),
{
    reveal(advances);
}

proof fn lemma_forget_rooted(f: FlowV, name: Seq<char>)
    requires
        rooted(f),
    ensures
        rooted(forget(f, name)),
{
    let g = forget(f, name);
    assert forall|root: Seq<char>, i: int|
        #![trigger g.moved[root][i]]
        g.moved.dom().contains(root) && 0 <= i < g.moved[root].len() implies
        g.moved[root][i].place.root == root by {
        assert(f.moved[root][i] == g.moved[root][i]);
    }
}

proof fn lemma_forget_all_rooted(f: FlowV, names: Seq<Seq<char>>)
    requires
        rooted(f),
    ensures
        rooted(forget_all(f, names)),
    decreases names.len(),
{
    if names.len() > 0 {
        lemma_forget_all_rooted(f, names.drop_last());
        lemma_forget_rooted(forget_all(f, names.drop_last()), names.last());
    }
}

proof fn lemma_forget_scopes_rooted(f: FlowV, s: Seq<Seq<Seq<char>>>)
    requires
        rooted(f),
    ensures
        rooted(forget_scopes(f, s)),
    decreases s.len(),
{
    if s.len() > 0 {
        lemma_forget_scopes_rooted(f, s.drop_last());
        lemma_forget_all_rooted(forget_scopes(f, s.drop_last()), s.last());
    }
}

/// Two flows with the same moves are rooted alike.
proof fn lemma_same_moves_rooted(f: FlowV, g: FlowV)
    requires
        rooted(f),
        g.moved == f.moved,
    ensures
        rooted(g),
{
    assert forall|root: Seq<char>, i: int|
        #![trigger g.moved[root][i]]
        g.moved.dom().contains(root) && 0 <= i < g.moved[root].len() implies
        g.moved[root][i].place.root == root by {
        assert(f.moved[root][i] == g.moved[root][i]);
    }
}

proof fn lemma_pop_scope_rooted(f: FlowV)
    requires
        rooted(f),
    ensures
        rooted(pop_scope(f)),
{
    if f.scopes.len() > 0 {
        let g = FlowV { scopes: f.scopes.drop_last(), ..f };
        lemma_same_moves_rooted(f, g);
        lemma_forget_all_rooted(g, f.scopes.last());
    }
}

proof fn lemma_bind_rooted(f: FlowV, name: Seq<char>)
    requires
        rooted(f),
    ensures
        rooted(bind(f, name)),
{
    let g = if f.scopes.len() == 0 {
        f
    } else {
        FlowV { scopes: f.scopes.drop_last().push(f.scopes.last().push(name)), ..f }
    };
    lemma_same_moves_rooted(f, g);
    lemma_forget_rooted(g, name);
    lemma_same_moves_rooted(forget(g, name), bind(f, name));
}

proof fn lemma_bind_all_rooted(f: FlowV, names: Seq<Seq<char>>)
    requires
        rooted(f),
    ensures
        rooted(bind_all(f, names)),
    decreases names.len(),
{
    if names.len() > 0 {
        lemma_bind_all_rooted(f, names.drop_last());
        lemma_bind_rooted(bind_all(f, names.drop_last()), names.last());
    }
}

proof fn lemma_bind_typed_rooted(f: FlowV, name: Seq<char>, ty: TypeV)
    requires
        rooted(f),
    ensures
        rooted(bind_typed(f, name, ty)),
        rooted(bind_borrowed(f, name, ty)),
{
    lemma_bind_rooted(f, name);
    lemma_same_moves_rooted(bind(f, name), bind_typed(f, name, ty));
    lemma_same_moves_rooted(bind(f, name), bind_borrowed(f, name, ty));
}

proof fn lemma_bind_params_rooted(f: FlowV, params: Seq<Param>, types: Seq<TypeV>, n: int)
    requires
        rooted(f),
    ensures
        rooted(bind_params(f, params, types, n)),
    decreases n,
{
    if !(n <= 0 || n > params.len() || n > types.len()) {
        lemma_bind_params_rooted(f, params, types, n - 1);
        lemma_bind_typed_rooted(
            bind_params(f, params, types, n - 1),
            params[n - 1].name@,
            types[n - 1],
        );
    }
}

proof fn lemma_record_move_rooted(
    f: FlowV,
    place: PlaceV,
    span: SpanV,
    cause: MoveCause,
    moved_type: Seq<char>,
)
    requires
        rooted(f),
    ensures
        rooted(record_move(f, place, span, cause, moved_type)),
{
    let g = record_move(f, place, span, cause, moved_type);
    let s = moves_of(f, place.root);
    lemma_outside(s, place);
    assert forall|root: Seq<char>, i: int|
        #![trigger g.moved[root][i]]
        g.moved.dom().contains(root) && 0 <= i < g.moved[root].len() implies
        g.moved[root][i].place.root == root by {
        if root == place.root {
            if i < g.moved[root].len() - 1 {
                let kept = outside(s, place);
                assert(g.moved[root][i] == kept[i]);
                let k = choose|k: int| 0 <= k < s.len() && s[k] == kept[i];
                assert(f.moved[root][k] == kept[i]);
            }
        } else {
            assert(f.moved[root][i] == g.moved[root][i]);
        }
    }
}

proof fn lemma_reinitialized_rooted(f: FlowV, place: PlaceV)
    requires
        rooted(f),
    ensures
        rooted(reinitialized(f, place)),
{
    let g = reinitialized(f, place);
    if f.moved.dom().contains(place.root) {
        lemma_outside(f.moved[place.root], place);
    }
    assert forall|root: Seq<char>, i: int|
        #![trigger g.moved[root][i]]
        g.moved.dom().contains(root) && 0 <= i < g.moved[root].len() implies
        g.moved[root][i].place.root == root by {
        if root == place.root && f.moved.dom().contains(root) {
            let kept = outside(f.moved[root], place);
            assert(g.moved[root][i] == kept[i]);
            let k = choose|k: int| 0 <= k < f.moved[root].len() && f.moved[root][k] == kept[i];
            assert(f.moved[root][k] == kept[i]);
        } else {
            assert(f.moved[root][i] == g.moved[root][i]);
        }
    }
}

proof fn lemma_union_rooted(a: FlowV, b: FlowV)
    requires
        rooted(a),
        rooted(b),
    ensures
        rooted(union(a, b)),
{
    let g = union(a, b);
    assert forall|root: Seq<char>, i: int|
        #![trigger g.moved[root][i]]
        g.moved.dom().contains(root) && 0 <= i < g.moved[root].len() implies
        g.moved[root][i].place.root == root by {
        let s = moves_of(a, root);
        let t = moves_of(b, root);
        lemma_merged_is_listed(s, t);
        let x = g.moved[root][i];
        assert(x == merged(s, t)[i]);
        if s.contains(x) {
            let k = choose|k: int| 0 <= k < s.len() && s[k] == x;
            assert(a.moved[root][k] == x);
        } else {
            let k = choose|k: int| 0 <= k < t.len() && t[k] == x;
            assert(b.moved[root][k] == x);
        }
    }
}

proof fn lemma_carried_rooted(f: FlowV, before: FlowV)
    requires
        rooted(f),
    ensures
        rooted(carried(f, before)),
{
    let g = carried(f, before);
    assert forall|root: Seq<char>, i: int|
        #![trigger g.moved[root][i]]
        g.moved.dom().contains(root) && 0 <= i < g.moved[root].len() implies
        g.moved[root][i].place.root == root by {
        assert(g.moved[root][i].place == f.moved[root][i].place);
    }
}

proof fn lemma_empty_rooted()
    ensures
        rooted(empty_flow()),
        rooted(push_scope(empty_flow())),
{
}

proof fn lemma_push_scope_rooted(f: FlowV)
    requires
        rooted(f),
    ensures
        rooted(push_scope(f)),
{
    lemma_same_moves_rooted(f, push_scope(f));
}

pub(super) proof fn lemma_whole_use(place: PlaceV, span: SpanV, w: WorldV)
    ensures
        advances(w, whole_use(place, span, w)),
{
    lemma_stays(w);
    if let Some(r) = move_touching(moves_of(w.flow, place.root), place) {
        lemma_violation(w, use_violation(place, r, span));
    }
}

proof fn lemma_base_use(place: PlaceV, span: SpanV, w: WorldV)
    ensures
        advances(w, base_use(place, span, w)),
{
    lemma_stays(w);
    if let Some(r) = super::flow::move_above(moves_of(w.flow, place.root), place) {
        lemma_violation(w, use_violation(place, r, span));
    }
}

proof fn lemma_consume_place(
    cx: Cx,
    place: PlaceV,
    root_ty: TypeV,
    span: SpanV,
    cause: MoveCause,
    w: WorldV,
)
    ensures
        advances(w, consume_place(cx, place, root_ty, span, cause, w)),
{
    let place_ty = type_at(cx, place, root_ty);
    if w.flow.borrowed.contains(place.root) && !is_copy(cx, w.envs, place_ty) {
        lemma_violation(
            w,
            super::walk::ban_violation(
                place,
                span,
                bucket(place_ty),
                MoveViolationKind::BorrowedArrayElementMove,
            ),
        );
    } else {
        match ban(cx, w.envs, place, root_ty, place_ty) {
            Some(kind) => {
                lemma_violation(
                    w,
                    super::walk::ban_violation(place, span, bucket(place_ty), kind),
                );
            },
            None => {
                lemma_whole_use(place, span, w);
                let used = whole_use(place, span, w);
                if !is_copy(cx, w.envs, place_ty) {
                    if rooted(used.flow) {
                        lemma_record_move_rooted(used.flow, place, span, cause, bucket(place_ty));
                    }
                    lemma_flow(
                        w,
                        used,
                        record_move(used.flow, place, span, cause, bucket(place_ty)),
                    );
                }
            },
        }
    }
}

proof fn lemma_bind_fields(
    cx: Cx,
    fields: Seq<Seq<char>>,
    place: PlaceV,
    root_ty: TypeV,
    span: SpanV,
    w: WorldV,
)
    ensures
        advances(w, bind_fields(cx, fields, place, root_ty, span, w)),
    decreases fields.len(),
{
    if fields.len() == 0 {
        lemma_stays(w);
    } else {
        lemma_bind_fields(cx, fields.drop_last(), place, root_ty, span, w);
        let before = bind_fields(cx, fields.drop_last(), place, root_ty, span, w);
        let child = projected(place, ProjectionV::Field(fields.last()));
        lemma_consume_place(cx, child, root_ty, span, MoveCause::Other, before);
        let taken = consume_place(cx, child, root_ty, span, MoveCause::Other, before);
        lemma_chain(w, before, taken);
        if rooted(taken.flow) {
            lemma_bind_rooted(taken.flow, fields.last());
        }
        lemma_flow(w, taken, bind(taken.flow, fields.last()));
    }
}

proof fn lemma_take_pattern(
    cx: Cx,
    p: Pattern,
    place: PlaceV,
    root_ty: TypeV,
    span: SpanV,
    w: WorldV,
)
    ensures
        advances(w, take_pattern(cx, p, place, root_ty, span, w)),
    decreases p,
{
    match p {
        Pattern::Wildcard(_) => {
            lemma_stays(w);
        },
        Pattern::Literal(_, _) => {
            lemma_stays(w);
        },
        Pattern::Binding(name, _) => {
            lemma_consume_place(cx, place, root_ty, span, MoveCause::Other, w);
            let taken = consume_place(cx, place, root_ty, span, MoveCause::Other, w);
            if rooted(taken.flow) {
                lemma_bind_rooted(taken.flow, name@);
            }
            lemma_flow(w, taken, bind(taken.flow, name@));
        },
        Pattern::Tuple(items, _) => {
            lemma_take_items(cx, items@, place, root_ty, span, false, w);
        },
        Pattern::Record { fields, .. } => {
            lemma_bind_fields(cx, texts(fields@), place, root_ty, span, w);
        },
        Pattern::Struct { fields, .. } => {
            lemma_bind_fields(cx, texts(fields@), place, root_ty, span, w);
        },
        Pattern::EnumVariant { path, fields, .. } => {
            lemma_stays(w);
            let source = variant_place(
                cx,
                w.envs,
                place,
                root_ty,
                texts(path@),
                texts(fields@),
            );
            lemma_consume_place(cx, source, root_ty, span, MoveCause::Other, w);
            let taken = consume_place(cx, source, root_ty, span, MoveCause::Other, w);
            if rooted(taken.flow) {
                lemma_bind_all_rooted(taken.flow, texts(fields@));
            }
            lemma_flow(w, taken, bind_all(taken.flow, texts(fields@)));
        },
        Pattern::Array { elems, rest, .. } => {
            lemma_take_items(cx, elems@, place, root_ty, span, true, w);
            let taken = take_items(cx, elems@, place, root_ty, span, true, w);
            if let Some(name) = rest {
                if rooted(taken.flow) {
                    lemma_bind_rooted(taken.flow, name@);
                }
                lemma_flow(w, taken, bind(taken.flow, name@));
            }
        },
    }
}

proof fn lemma_take_items(
    cx: Cx,
    s: Seq<Pattern>,
    place: PlaceV,
    root_ty: TypeV,
    span: SpanV,
    array: bool,
    w: WorldV,
)
    ensures
        advances(w, take_items(cx, s, place, root_ty, span, array, w)),
    decreases s,
{
    if s.len() == 0 {
        lemma_stays(w);
    } else {
        let i = s.len() - 1;
        lemma_take_items(cx, s.subrange(0, i), place, root_ty, span, array, w);
        let before = take_items(cx, s.subrange(0, i), place, root_ty, span, array, w);
        let step = if array {
            ProjectionV::OpaqueIndex
        } else {
            ProjectionV::TupleIndex(i as usize)
        };
        lemma_take_pattern(cx, s[i], projected(place, step), root_ty, span, before);
        lemma_chain(
            w,
            before,
            take_pattern(cx, s[i], projected(place, step), root_ty, span, before),
        );
    }
}

pub(super) proof fn lemma_match_pattern(cx: Cx, p: Pattern, scrutinee: TypedExpr, w: WorldV)
    ensures
        advances(w, match_pattern(cx, p, scrutinee, w)),
{
    match expr_place(scrutinee) {
        Some(place) => {
            lemma_take_pattern(
                cx,
                p,
                place,
                root_type_or_own(scrutinee),
                span_of(scrutinee)@,
                w,
            );
        },
        None => {
            lemma_stays(w);
            if rooted(w.flow) {
                lemma_bind_all_rooted(w.flow, pattern_names(p));
            }
            lemma_flow(w, w, bind_all(w.flow, pattern_names(p)));
        },
    }
}

pub(super) proof fn lemma_take_captures(cx: Cx, captures: Seq<CapturedV>, span: SpanV, w: WorldV)
    ensures
        advances(w, take_captures(cx, captures, span, w)),
    decreases captures.len(),
{
    if captures.len() == 0 {
        lemma_stays(w);
    } else {
        lemma_take_captures(cx, captures.drop_last(), span, w);
        let before = take_captures(cx, captures.drop_last(), span, w);
        let capture = captures.last();
        let ty = match capture.ty {
            Some(t) => Some(t),
            None => if before.flow.binding_types.dom().contains(capture.name) {
                Some(before.flow.binding_types[capture.name])
            } else {
                None
            },
        };
        if let Some(t) = ty {
            let here = Cx { module: Seq::empty(), ..cx };
            let place = PlaceV { root: capture.name, projections: Seq::empty() };
            lemma_consume_place(here, place, t, span, MoveCause::Other, before);
            lemma_chain(
                w,
                before,
                consume_place(here, place, t, span, MoveCause::Other, before),
            );
        }
    }
}

proof fn lemma_closure_flow_rooted(body: TypedBlock)
    ensures
        rooted(closure_flow(body)),
{
    lemma_empty_rooted();
    lemma_bind_all_rooted(
        push_scope(empty_flow()),
        capture_names(free_roots(body, Set::empty())),
    );
}

/// A pass over a loop body, and what comes after it, keep what the body keeps.
proof fn lemma_pass(
    step: spec_fn(WorldV) -> WorldV,
    exits_without_break: bool,
    entry: FlowV,
    origin: WorldV,
    w: WorldV,
)
    requires
        forall|v: WorldV| advances(v, #[trigger] step(v)),
        advances(origin, w),
        sound(origin) ==> rooted(entry),
    ensures
        ({
            let after = step(pass_start(entry, w));
            &&& advances(origin, pass_end(w.flow, after, exits_without_break))
            &&& advances(origin, pass_again(w.flow, mark_of(w.report), after))
            &&& pass_again(w.flow, mark_of(w.report), after).report == w.report
            &&& sound(origin) ==> rooted(carried(widened(entry, after), entry))
        }),
{
    let start = pass_start(entry, w);
    let after = step(start);
    assert(advances(start, after));
    let ended = pass_end(w.flow, after, exits_without_break);
    let again = pass_again(w.flow, mark_of(w.report), after);
    assert(outgrows(after.report, w.report) && after.envs == w.envs && after.back_edges.len()
        == w.back_edges.len() + 1 && after.exits.len() == w.exits.len() + 1) by {
        reveal(advances);
    }
    law_rewinding_undoes_recording(w.report, after.report);
    if sound(origin) {
        lemma_empty_rooted();
        assert(sound(w)) by {
            reveal(advances);
        }
        lemma_same_moves_rooted(entry, start.flow);
        assert forall|i: int| 0 <= i < start.back_edges.len() implies rooted(
            #[trigger] start.back_edges[i],
        ) by {
            if i < w.back_edges.len() {
                assert(start.back_edges[i] == w.back_edges[i]);
            }
        }
        assert forall|i: int| 0 <= i < start.exits.len() implies rooted(
            (#[trigger] start.exits[i]).state,
        ) by {
            if i < w.exits.len() {
                assert(start.exits[i] == w.exits[i]);
            }
        }
        assert(sound(after)) by {
            reveal(advances);
        }
        assert(rooted(after.back_edges[after.back_edges.len() - 1]));
        assert(rooted(after.exits[after.exits.len() - 1].state));
        lemma_union_rooted(after.back_edges.last(), after.flow);
        lemma_union_rooted(entry, back_edge(after));
        lemma_carried_rooted(widened(entry, after), entry);
        let fallen = if after.flow.diverged {
            w.flow
        } else {
            union(w.flow, after.flow)
        };
        lemma_union_rooted(w.flow, after.flow);
        let exit = after.exits.last();
        let ended_flow = after_loop(w.flow, after, exits_without_break);
        if exits_without_break {
            lemma_union_rooted(fallen, exit.state);
        } else if exit.reached {
            lemma_along_rooted(w.flow, exit.state);
            lemma_same_moves_rooted(along(w.flow, exit.state), ended_flow);
        } else {
            lemma_same_moves_rooted(fallen, ended_flow);
        }
        assert forall|i: int| 0 <= i < popped(after.back_edges).len() implies rooted(
            #[trigger] popped(after.back_edges)[i],
        ) by {
            assert(popped(after.back_edges)[i] == after.back_edges[i]);
        }
        assert forall|i: int| 0 <= i < popped(after.exits).len() implies rooted(
            (#[trigger] popped(after.exits)[i]).state,
        ) by {
            assert(popped(after.exits)[i] == after.exits[i]);
        }
        assert(sound(ended));
        assert(sound(again));
    }
    assert(advances(w, ended) || !sound(origin)) by {
        reveal(advances);
    }
    assert(advances(origin, again)) by {
        reveal(advances);
    }
    assert(outgrows(ended.report, origin.report)) by {
        reveal(advances);
        lemma_outgrows(origin.report, w.report, ended.report);
    }
    assert(advances(origin, ended)) by {
        reveal(advances);
    }
}

proof fn lemma_loop_passes(
    step: spec_fn(WorldV) -> WorldV,
    exits_without_break: bool,
    entry: FlowV,
    n: nat,
    origin: WorldV,
    w: WorldV,
)
    requires
        forall|v: WorldV| advances(v, #[trigger] step(v)),
        advances(origin, w),
        sound(origin) ==> rooted(entry),
    ensures
        advances(origin, loop_passes(step, exits_without_break, entry, n, w)),
    decreases n,
{
    lemma_pass(step, exits_without_break, entry, origin, w);
    let after = step(pass_start(entry, w));
    if !(n <= 1 || settled(entry, after)) {
        lemma_loop_passes(
            step,
            exits_without_break,
            carried(widened(entry, after), entry),
            (n - 1) as nat,
            origin,
            pass_again(w.flow, mark_of(w.report), after),
        );
    }
}

pub(super) proof fn lemma_walk_loop(step: spec_fn(WorldV) -> WorldV, exits_without_break: bool, w: WorldV)
    requires
        forall|v: WorldV| advances(v, #[trigger] step(v)),
    ensures
        advances(w, walk_loop(step, exits_without_break, w)),
{
    lemma_stays(w);
    lemma_loop_passes(step, exits_without_break, w.flow, MAX_LOOP_PASSES as nat, w, w);
}

/// Only the last pass over a loop body reports: whatever the passes before it reported is gone,
/// so the report of the loop is that of one pass from the report before the loop.
pub proof fn law_a_loop_reports_once(
    step: spec_fn(WorldV) -> WorldV,
    exits_without_break: bool,
    w: WorldV,
)
    requires
        forall|v: WorldV| advances(v, #[trigger] step(v)),
    ensures
        exists|start: WorldV|
            start.report == w.report && walk_loop(step, exits_without_break, w).report
                == #[trigger] step(start).report,
{
    lemma_last_pass_reports(step, exits_without_break, w.flow, MAX_LOOP_PASSES as nat, w);
}

proof fn lemma_last_pass_reports(
    step: spec_fn(WorldV) -> WorldV,
    exits_without_break: bool,
    entry: FlowV,
    n: nat,
    w: WorldV,
)
    requires
        forall|v: WorldV| advances(v, #[trigger] step(v)),
    ensures
        exists|start: WorldV|
            start.report == w.report && loop_passes(step, exits_without_break, entry, n, w).report
                == #[trigger] step(start).report,
    decreases n,
{
    let start = pass_start(entry, w);
    let after = step(start);
    if n <= 1 || settled(entry, after) {
        assert(loop_passes(step, exits_without_break, entry, n, w).report == step(start).report);
    } else {
        assert(advances(start, after));
        assert(extends(after.report, w.report)) by {
            reveal(advances);
        }
        law_rewinding_undoes_recording(w.report, after.report);
        lemma_last_pass_reports(
            step,
            exits_without_break,
            carried(widened(entry, after), entry),
            (n - 1) as nat,
            pass_again(w.flow, mark_of(w.report), after),
        );
        let again = pass_again(w.flow, mark_of(w.report), after);
        let next = carried(widened(entry, after), entry);
        let last = choose|v: WorldV|
            v.report == again.report && loop_passes(
                step,
                exits_without_break,
                next,
                (n - 1) as nat,
                again,
            ).report == #[trigger] step(v).report;
        assert(last.report == w.report);
        assert(loop_passes(step, exits_without_break, entry, n, w).report == step(last).report);
    }
}

proof fn lemma_reach(w: WorldV)
    ensures
        advances(w, diverging(w)),
        advances(w, reach_back_edge(w)),
        advances(w, reach_exit(w)),
{
    reveal(advances);
    if sound(w) {
        let d = FlowV { diverged: true, ..w.flow };
        lemma_same_moves_rooted(w.flow, d);
        if w.back_edges.len() > 0 {
            assert(rooted(w.back_edges[w.back_edges.len() - 1]));
            lemma_union_rooted(w.back_edges.last(), w.flow);
            let b = reach_back_edge(w);
            assert forall|i: int| 0 <= i < b.back_edges.len() implies rooted(
                #[trigger] b.back_edges[i],
            ) by {
                if i < w.back_edges.len() - 1 {
                    assert(b.back_edges[i] == w.back_edges[i]);
                }
            }
        }
        if w.exits.len() > 0 {
            assert(rooted(w.exits[w.exits.len() - 1].state));
            let exit = w.exits.last();
            let f = outer(w.flow, exit.depth);
            if exit.depth <= w.flow.scopes.len() {
                lemma_forget_scopes_rooted(w.flow, w.flow.scopes.skip(exit.depth as int));
            }
            lemma_union_rooted(exit.state, f);
            lemma_same_moves_rooted(
                if exit.reached {
                    union(exit.state, f)
                } else {
                    f
                },
                left_with(exit, w.flow).state,
            );
            let b = reach_exit(w);
            assert forall|i: int| 0 <= i < b.exits.len() implies rooted(
                (#[trigger] b.exits[i]).state,
            ) by {
                if i < w.exits.len() - 1 {
                    assert(b.exits[i] == w.exits[i]);
                }
            }
        }
    }
}

/// The end of a path is rooted where its start and the path are.
pub(super) proof fn lemma_along_rooted(before: FlowV, path: FlowV)
    requires
        rooted(before),
        rooted(path),
    ensures
        rooted(along(before, path)),
{
    let kept = unseen(before, path);
    assert(rooted(kept)) by {
        assert forall|root: Seq<char>, i: int|
            #![trigger kept.moved[root][i]]
            kept.moved.dom().contains(root) && 0 <= i < kept.moved[root].len() implies
            kept.moved[root][i].place.root == root by {
            assert(before.moved.dom().contains(root));
            assert(kept.moved[root][i] == before.moved[root][i]);
        }
    }
    lemma_union_rooted(kept, path);
}

/// A branch of a conditional, walked from the flow before it.
pub(super) proof fn lemma_joined_rooted(f: FlowV, before: FlowV, branch: FlowV)
    requires
        rooted(f),
        rooted(before),
        rooted(branch),
    ensures
        rooted(joined_with(f, before, branch)),
{
    lemma_along_rooted(before, branch);
    lemma_union_rooted(f, along(before, branch));
}

/// A block keeps what every walk keeps.
pub proof fn law_a_block_advances(cx: Cx, b: TypedBlock, w: WorldV)
    ensures
        advances(w, walk_block(cx, b, w)),
    decreases b, 0int,
{
    lemma_stays(w);
    if rooted(w.flow) {
        lemma_push_scope_rooted(w.flow);
    }
    lemma_flow(w, w, push_scope(w.flow));
    let w0 = on_flow(w, push_scope(w.flow));
    law_declarations_advance(cx, b.stmts@, w0);
    let w1 = walk_decls(cx, b.stmts@, w0);
    lemma_chain(w, w0, w1);
    let w2 = match b.tail {
        Some(e) => consume(cx, *e, MoveCause::Other, w1),
        None => w1,
    };
    if let Some(e) = b.tail {
        law_consuming_advances(cx, *e, MoveCause::Other, w1);
        lemma_chain(w, w1, w2);
    }
    if rooted(w2.flow) {
        lemma_pop_scope_rooted(w2.flow);
    }
    lemma_flow(w, w2, pop_scope(w2.flow));
}

/// Declarations keep what every walk keeps.
pub proof fn law_declarations_advance(cx: Cx, s: Seq<TypedDecl>, w: WorldV)
    ensures
        advances(w, walk_decls(cx, s, w)),
    decreases s, 0int,
{
    lemma_stays(w);
    if s.len() > 0 {
        let before = walk_decls(cx, s.subrange(0, s.len() - 1), w);
        law_declarations_advance(cx, s.subrange(0, s.len() - 1), w);
        lemma_decl(cx, s[s.len() - 1], before);
        lemma_chain(w, before, walk_decl(cx, s[s.len() - 1], before));
    }
}

pub(super) proof fn lemma_decl(cx: Cx, d: TypedDecl, w: WorldV)
    ensures
        advances(w, walk_decl(cx, d, w)),
    decreases d, 0int,
{
    lemma_stays(w);
    match d {
        TypedDecl::Let(decl) => {
            law_consuming_advances(cx, decl.value, MoveCause::Other, w);
            let w1 = consume(cx, decl.value, MoveCause::Other, w);
            if rooted(w1.flow) {
                lemma_bind_typed_rooted(w1.flow, decl.name@, ty_of(decl.value)@);
            }
            lemma_flow(w, w1, bind_typed(w1.flow, decl.name@, ty_of(decl.value)@));
        },
        TypedDecl::Mut(decl) => {
            law_consuming_advances(cx, decl.value, MoveCause::Other, w);
            let w1 = consume(cx, decl.value, MoveCause::Other, w);
            if rooted(w1.flow) {
                lemma_bind_typed_rooted(w1.flow, decl.name@, ty_of(decl.value)@);
            }
            lemma_flow(w, w1, bind_typed(w1.flow, decl.name@, ty_of(decl.value)@));
        },
        TypedDecl::Fun(fun) => {
            if rooted(w.flow) {
                lemma_bind_rooted(w.flow, fun.name@);
            }
            lemma_flow(w, w, bind(w.flow, fun.name@));
            let w1 = on_flow(w, bind(w.flow, fun.name@));
            lemma_fun(cx, fun, w1);
            lemma_chain(w, w1, walk_fun(cx, fun, w1));
        },
        TypedDecl::Stmt(stmt) => {
            lemma_stmt(cx, *stmt, w);
        },
        TypedDecl::Impl(ib) => {
            lemma_funs(cx, ib.methods@, w);
        },
        TypedDecl::Struct(_) => {},
        TypedDecl::Enum(_) => {},
        TypedDecl::Aspect(_) => {},
    }
}

pub(super) proof fn lemma_funs(cx: Cx, s: Seq<TypedFunDecl>, w: WorldV)
    ensures
        advances(w, walk_funs(cx, s, w)),
    decreases s, 0int,
{
    lemma_stays(w);
    if s.len() > 0 {
        let before = walk_funs(cx, s.subrange(0, s.len() - 1), w);
        lemma_funs(cx, s.subrange(0, s.len() - 1), w);
        lemma_fun(cx, s[s.len() - 1], before);
        lemma_chain(w, before, walk_fun(cx, s[s.len() - 1], before));
    }
}

pub(super) proof fn lemma_fun(cx: Cx, fun: TypedFunDecl, w: WorldV)
    ensures
        advances(w, walk_fun(cx, fun, w)),
    decreases fun, 0int,
{
    lemma_stays(w);
    match fun.body {
        FunBody::Typed(body) => {
            let flow = bind_all(push_scope(empty_flow()), param_names(fun.params@));
            lemma_empty_rooted();
            lemma_bind_all_rooted(push_scope(empty_flow()), param_names(fun.params@));
            lemma_flow(w, w, flow);
            let w1 = on_flow(w, flow);
            law_a_block_advances(cx, body, w1);
            lemma_chain(w, w1, walk_block(cx, body, w1));
            lemma_flow(w, walk_block(cx, body, w1), w.flow);
        },
        FunBody::Generic(body) => {
            lemma_generic(cx, body, fun.params@, fun.span@, w);
        },
        FunBody::Native(_) => {},
    }
}

/// A generic body walked in an environment of its own, and left again.
proof fn lemma_generic_frame(
    cx: Cx,
    typed: TypedBlock,
    env: crate::typed_ast::GenericMoveEnv,
    flow: FlowV,
    w: WorldV,
)
    requires
        rooted(flow),
        advances(
            WorldV { envs: w.envs.push(env), flow, ..w },
            walk_block(cx, typed, WorldV { envs: w.envs.push(env), flow, ..w }),
        ),
    ensures
        ({
            let w1 = walk_block(cx, typed, WorldV { envs: w.envs.push(env), flow, ..w });
            advances(w, WorldV { envs: popped(w1.envs), flow: w.flow, ..w1 })
        }),
{
    reveal(advances);
    let w1 = walk_block(cx, typed, WorldV { envs: w.envs.push(env), flow, ..w });
    assert(w1.envs.drop_last() =~= w.envs);
}

proof fn lemma_generic(cx: Cx, body: GenericBody, params: Seq<Param>, span: SpanV, w: WorldV)
    ensures
        advances(w, walk_generic(cx, body, params, span, w)),
    decreases body, 0int,
{
    match body.symbolic {
        None => {
            lemma_skipped(w, span, "type context was unavailable"@);
        },
        Some(symbolic) => match *symbolic {
            SymbolicBody::Unavailable { reason } => {
                lemma_skipped(w, span, reason@);
            },
            SymbolicBody::Elaborated { body: typed, env } => {
                let types = types_view(env.arg_types@);
                let flow = bind_params(
                    push_scope(empty_flow()),
                    params,
                    types,
                    params_len(params, types),
                );
                lemma_empty_rooted();
                lemma_bind_params_rooted(
                    push_scope(empty_flow()),
                    params,
                    types,
                    params_len(params, types),
                );
                law_a_block_advances(cx, typed, WorldV { envs: w.envs.push(env), flow, ..w });
                lemma_generic_frame(cx, typed, env, flow, w);
            },
        },
    }
}

pub(super) proof fn lemma_while_step(cx: Cx, stmt: TypedWhileStmt, w: WorldV)
    ensures
        advances(w, while_step(cx, stmt, w)),
    decreases stmt, 0int,
{
    law_observing_advances(cx, stmt.condition, w);
    let w1 = observe(cx, stmt.condition, w);
    law_a_block_advances(cx, stmt.body, w1);
    lemma_chain(w, w1, walk_block(cx, stmt.body, w1));
}

pub(super) proof fn lemma_for_step(cx: Cx, stmt: TypedForStmt, w: WorldV)
    ensures
        advances(w, for_step(cx, stmt, w)),
    decreases stmt, 0int,
{
    lemma_stays(w);
    let v1 = match stmt.condition {
        Some(e) => observe(cx, e, w),
        None => w,
    };
    if let Some(e) = stmt.condition {
        law_observing_advances(cx, e, w);
    }
    law_a_block_advances(cx, stmt.body, v1);
    let v2 = walk_block(cx, stmt.body, v1);
    lemma_chain(w, v1, v2);
    if let Some(e) = stmt.step {
        law_observing_advances(cx, e, v2);
        lemma_chain(w, v2, observe(cx, e, v2));
    }
}

pub(super) proof fn lemma_for_in_step(cx: Cx, stmt: TypedForInStmt, w: WorldV)
    ensures
        advances(w, for_in_step(cx, stmt, w)),
    decreases stmt, 0int,
{
    lemma_stays(w);
    let ty = ty_of(stmt.iterable)@;
    let flow = bind_element(push_scope(w.flow), stmt.binding@, ty);
    if rooted(w.flow) {
        lemma_push_scope_rooted(w.flow);
        lemma_bind_rooted(push_scope(w.flow), stmt.binding@);
        if let TypeV::Array(item) = crate::types::peeled(ty) {
            lemma_bind_typed_rooted(push_scope(w.flow), stmt.binding@, *item);
        }
        if let TypeV::SizedArray(item, _) = crate::types::peeled(ty) {
            lemma_bind_typed_rooted(push_scope(w.flow), stmt.binding@, *item);
        }
    }
    lemma_flow(w, w, flow);
    let w0 = on_flow(w, flow);
    law_a_block_advances(cx, stmt.body, w0);
    let v1 = walk_block(cx, stmt.body, w0);
    lemma_chain(w, w0, v1);
    if rooted(v1.flow) {
        lemma_pop_scope_rooted(v1.flow);
    }
    lemma_flow(w, v1, pop_scope(v1.flow));
}

proof fn lemma_stmt(cx: Cx, s: TypedStmt, w: WorldV)
    ensures
        advances(w, walk_stmt(cx, s, w)),
    decreases s, 0int,
{
    broadcast use lemma_walk_loop_congruent;

    lemma_stays(w);
    match s {
        TypedStmt::Expr(e) => {
            law_observing_advances(cx, e, w);
        },
        TypedStmt::While(stmt) => {
            let step = |v: WorldV| while_step(cx, stmt, v);
            assert forall|v: WorldV| advances(v, #[trigger] step(v)) by {
                lemma_while_step(cx, stmt, v);
            }
            lemma_walk_loop(step, true, w);
            assert(walk_stmt(cx, s, w) == walk_loop(step, true, w));
        },
        TypedStmt::For(stmt) => {
            if rooted(w.flow) {
                lemma_push_scope_rooted(w.flow);
            }
            lemma_flow(w, w, push_scope(w.flow));
            let w1 = on_flow(w, push_scope(w.flow));
            let w2 = match stmt.init {
                Some(init) => walk_init(cx, init, w1),
                None => w1,
            };
            if let Some(init) = stmt.init {
                lemma_init(cx, init, w1);
                lemma_chain(w, w1, w2);
            }
            let step = |v: WorldV| for_step(cx, *stmt, v);
            assert forall|v: WorldV| advances(v, #[trigger] step(v)) by {
                lemma_for_step(cx, *stmt, v);
            }
            let w3 = walk_loop(step, true, w2);
            lemma_walk_loop(step, true, w2);
            lemma_chain(w, w2, w3);
            if rooted(w3.flow) {
                lemma_pop_scope_rooted(w3.flow);
            }
            lemma_flow(w, w3, pop_scope(w3.flow));
            assert(walk_stmt(cx, s, w) == on_flow(w3, pop_scope(w3.flow)));
        },
        TypedStmt::ForIn(stmt) => {
            law_observing_advances(cx, stmt.iterable, w);
            let w1 = observe(cx, stmt.iterable, w);
            let step = |v: WorldV| for_in_step(cx, *stmt, v);
            assert forall|v: WorldV| advances(v, #[trigger] step(v)) by {
                lemma_for_in_step(cx, *stmt, v);
            }
            lemma_walk_loop(step, true, w1);
            lemma_chain(w, w1, walk_loop(step, true, w1));
            assert(walk_stmt(cx, s, w) == walk_loop(step, true, w1));
        },
    }
}

pub(super) proof fn lemma_init(cx: Cx, i: TypedForInit, w: WorldV)
    ensures
        advances(w, walk_init(cx, i, w)),
    decreases i, 0int,
{
    match i {
        TypedForInit::Let(decl) => {
            law_consuming_advances(cx, decl.value, MoveCause::Other, w);
            let w1 = consume(cx, decl.value, MoveCause::Other, w);
            if rooted(w1.flow) {
                lemma_bind_typed_rooted(w1.flow, decl.name@, ty_of(decl.value)@);
            }
            lemma_flow(w, w1, bind_typed(w1.flow, decl.name@, ty_of(decl.value)@));
        },
        TypedForInit::Mut(decl) => {
            law_consuming_advances(cx, decl.value, MoveCause::Other, w);
            let w1 = consume(cx, decl.value, MoveCause::Other, w);
            if rooted(w1.flow) {
                lemma_bind_typed_rooted(w1.flow, decl.name@, ty_of(decl.value)@);
            }
            lemma_flow(w, w1, bind_typed(w1.flow, decl.name@, ty_of(decl.value)@));
        },
        TypedForInit::Expr(e) => {
            law_observing_advances(cx, e, w);
        },
    }
}

pub(super) proof fn lemma_observe_all(cx: Cx, s: Seq<TypedExpr>, w: WorldV)
    ensures
        advances(w, observe_all(cx, s, w)),
    decreases s, 0int,
{
    lemma_stays(w);
    if s.len() > 0 {
        let before = observe_all(cx, s.subrange(0, s.len() - 1), w);
        lemma_observe_all(cx, s.subrange(0, s.len() - 1), w);
        law_observing_advances(cx, s[s.len() - 1], before);
        lemma_chain(w, before, observe(cx, s[s.len() - 1], before));
    }
}

pub(super) proof fn lemma_consume_all(cx: Cx, s: Seq<TypedExpr>, cause: MoveCause, w: WorldV)
    ensures
        advances(w, consume_all(cx, s, cause, w)),
    decreases s, 0int,
{
    lemma_stays(w);
    if s.len() > 0 {
        let before = consume_all(cx, s.subrange(0, s.len() - 1), cause, w);
        lemma_consume_all(cx, s.subrange(0, s.len() - 1), cause, w);
        law_consuming_advances(cx, s[s.len() - 1], cause, before);
        lemma_chain(w, before, consume(cx, s[s.len() - 1], cause, before));
    }
}

pub(super) proof fn lemma_consume_fields(cx: Cx, s: Seq<(String, TypedExpr)>, w: WorldV)
    ensures
        advances(w, consume_fields(cx, s, w)),
    decreases s, 0int,
{
    lemma_stays(w);
    if s.len() > 0 {
        let before = consume_fields(cx, s.subrange(0, s.len() - 1), w);
        lemma_consume_fields(cx, s.subrange(0, s.len() - 1), w);
        let field = s[s.len() - 1];
        law_consuming_advances(cx, field.1, MoveCause::Other, before);
        lemma_chain(w, before, consume(cx, field.1, MoveCause::Other, before));
    }
}

pub(super) proof fn lemma_args(cx: Cx, s: Seq<TypedExpr>, params: Option<Seq<TypeV>>, w: WorldV)
    ensures
        advances(w, walk_args(cx, s, params, w)),
    decreases s, 0int,
{
    lemma_stays(w);
    if s.len() > 0 {
        let i = s.len() - 1;
        let before = walk_args(cx, s.subrange(0, i), params, w);
        lemma_args(cx, s.subrange(0, i), params, w);
        if reborrows(s[i], params, i) {
            law_observing_advances(cx, s[i], before);
            lemma_chain(w, before, observe(cx, s[i], before));
        } else {
            law_consuming_advances(cx, s[i], MoveCause::Other, before);
            lemma_chain(w, before, consume(cx, s[i], MoveCause::Other, before));
        }
    }
}

pub(super) proof fn lemma_arms(cx: Cx, scrutinee: TypedExpr, s: Seq<TypedMatchArm>, start: ArmsV)
    ensures
        advances(start.world, walk_arms(cx, scrutinee, s, start).world),
        walk_arms(cx, scrutinee, s, start).world.flow == start.world.flow,
        sound(start.world) && rooted(start.joined) ==> rooted(
            walk_arms(cx, scrutinee, s, start).joined,
        ),
    decreases s, 0int,
{
    lemma_stays(start.world);
    if s.len() > 0 {
        let before = walk_arms(cx, scrutinee, s.subrange(0, s.len() - 1), start);
        lemma_arms(cx, scrutinee, s.subrange(0, s.len() - 1), start);
        let w = before.world;
        let w1 = walk_arm(cx, scrutinee, s[s.len() - 1], w);
        lemma_arm(cx, scrutinee, s[s.len() - 1], w);
        lemma_chain(start.world, w, w1);
        lemma_flow(start.world, w1, w.flow);
        if sound(start.world) && rooted(start.joined) {
            assert(rooted(w1.flow)) by {
                reveal(advances);
            }
            assert(rooted(w.flow)) by {
                reveal(advances);
            }
            lemma_joined_rooted(before.joined, w.flow, w1.flow);
        }
    }
}

pub(super) proof fn lemma_arm(cx: Cx, scrutinee: TypedExpr, arm: TypedMatchArm, w: WorldV)
    ensures
        advances(w, walk_arm(cx, scrutinee, arm, w)),
    decreases arm, 0int,
{
    lemma_stays(w);
    if rooted(w.flow) {
        lemma_push_scope_rooted(w.flow);
    }
    lemma_flow(w, w, push_scope(w.flow));
    let w0 = on_flow(w, push_scope(w.flow));
    lemma_match_pattern(cx, arm.pattern, scrutinee, w0);
    let w1 = match_pattern(cx, arm.pattern, scrutinee, w0);
    lemma_chain(w, w0, w1);
    let w2 = match arm.guard {
        Some(e) => observe(cx, e, w1),
        None => w1,
    };
    if let Some(e) = arm.guard {
        law_observing_advances(cx, e, w1);
        lemma_chain(w, w1, w2);
    }
    law_a_block_advances(cx, arm.body, w2);
    let w3 = walk_block(cx, arm.body, w2);
    lemma_chain(w, w2, w3);
    if rooted(w3.flow) {
        lemma_pop_scope_rooted(w3.flow);
    }
    lemma_flow(w, w3, pop_scope(w3.flow));
}

/// Observing an expression keeps what every walk keeps.
pub proof fn law_observing_advances(cx: Cx, e: TypedExpr, w: WorldV)
    ensures
        advances(w, observe(cx, e, w)),
    decreases e, 2int,
{
    lemma_stays(w);
    let w0 = match expr_place(e) {
        Some(place) => whole_use(place, span_of(e)@, w),
        None => w,
    };
    if let Some(place) = expr_place(e) {
        lemma_whole_use(place, span_of(e)@, w);
    }
    lemma_observe_within(cx, e, w0);
    lemma_chain(w, w0, observe_within(cx, e, w0));
}

/// The flow of a walk may be put back to that of an earlier state.
proof fn lemma_flow_of(before: WorldV, mid: WorldV, after: WorldV)
    requires
        advances(before, mid),
        advances(before, after),
    ensures
        advances(before, on_flow(after, mid.flow)),
        sound(before) ==> rooted(mid.flow),
{
    reveal(advances);
}

proof fn lemma_observe_if(cx: Cx, e: TypedExpr, w: WorldV)
    requires
        e is If,
    ensures
        advances(w, observe_within(cx, e, w)),
    decreases e, 0int,
{
    if let TypedExpr::If { condition, then_branch, else_branch, .. } = e {
        law_observing_advances(cx, *condition, w);
        let w1 = observe(cx, *condition, w);
        law_a_block_advances(cx, then_branch, w1);
        let w2 = walk_block(cx, then_branch, w1);
        lemma_chain(w, w1, w2);
        lemma_flow_of(w, w1, w2);
        lemma_flow_of(w, w2, w2);
        match else_branch {
            Some(b) => {
                let w2b = on_flow(w2, w1.flow);
                law_a_block_advances(cx, b, w2b);
                let w3 = walk_block(cx, b, w2b);
                lemma_chain(w, w2b, w3);
                lemma_flow_of(w, w3, w3);
                let first = joined_with(unmoved(w1.flow), w1.flow, w2.flow);
                let both = joined_with(first, w1.flow, w3.flow);
                let out = join_branches(w1.flow, w2, w3);
                if sound(w) {
                    assert(rooted(unmoved(w1.flow)));
                    lemma_joined_rooted(unmoved(w1.flow), w1.flow, w2.flow);
                    lemma_joined_rooted(first, w1.flow, w3.flow);
                    if w2.flow.diverged && w3.flow.diverged {
                        lemma_same_moves_rooted(w1.flow, out.flow);
                    } else {
                        lemma_same_moves_rooted(both, out.flow);
                    }
                }
                lemma_flow(w, w3, out.flow);
            },
            None => {
                if sound(w) {
                    lemma_joined_rooted(w1.flow, w1.flow, w2.flow);
                }
                lemma_flow(w, w2, joined_with(w1.flow, w1.flow, w2.flow));
            },
        }
    }
}

proof fn lemma_observe_match(cx: Cx, e: TypedExpr, w: WorldV)
    requires
        e is Match,
    ensures
        advances(w, observe_within(cx, e, w)),
    decreases e, 0int,
{
    if let TypedExpr::Match(m) = e {
        law_observing_advances(cx, *m.scrutinee, w);
        let w1 = observe(cx, *m.scrutinee, w);
        let start = ArmsV { world: w1, joined: unmoved(w1.flow), falls: false };
        lemma_arms(cx, *m.scrutinee, m.arms@, start);
        let arms = walk_arms(cx, *m.scrutinee, m.arms@, start);
        lemma_chain(w, w1, arms.world);
        lemma_flow_of(w, w1, w1);
        let out = after_match(w1.flow, arms, m.arms@.len() == 0);
        if sound(w) {
            assert(sound(w1)) by {
                reveal(advances);
            }
            assert(rooted(unmoved(w1.flow)));
            if arms.falls {
                lemma_same_moves_rooted(arms.joined, out.flow);
            } else {
                lemma_same_moves_rooted(w1.flow, out.flow);
            }
        }
        lemma_flow(w, arms.world, out.flow);
    }
}

proof fn lemma_observe_closure(cx: Cx, e: TypedExpr, w: WorldV)
    requires
        e is Closure,
    ensures
        advances(w, observe_within(cx, e, w)),
    decreases e, 0int,
{
    if let TypedExpr::Closure { params, body, span, .. } = e {
        let captures = free_roots(body, param_names(params@).to_set());
        lemma_take_captures(cx, captures, span@, w);
        let w1 = take_captures(cx, captures, span@, w);
        let flow = bind_all(closure_flow(body), param_names(params@));
        lemma_closure_flow_rooted(body);
        lemma_bind_all_rooted(closure_flow(body), param_names(params@));
        lemma_flow(w, w1, flow);
        let w2 = on_flow(w1, flow);
        law_a_block_advances(cx, body, w2);
        lemma_chain(w, w2, walk_block(cx, body, w2));
        lemma_flow_of(w, w1, walk_block(cx, body, w2));
    }
}

proof fn lemma_generic_closure(
    cx: Cx,
    body: GenericBody,
    params: Seq<Param>,
    span: SpanV,
    w: WorldV,
)
    ensures
        advances(w, walk_generic_closure(cx, body, params, span, w)),
    decreases body, 0int,
{
    match body.symbolic {
        None => {
            lemma_skipped(w, span, "type context was unavailable"@);
        },
        Some(symbolic) => match *symbolic {
            SymbolicBody::Unavailable { reason } => {
                lemma_skipped(w, span, reason@);
            },
            SymbolicBody::Elaborated { body: typed, env } => {
                let types = types_view(env.arg_types@);
                let captures = free_roots(typed, param_names(params).to_set());
                lemma_take_captures(cx, captures, span, w);
                let w1 = take_captures(cx, captures, span, w);
                let flow = bind_params(
                    closure_flow(typed),
                    params,
                    types,
                    params_len(params, types),
                );
                lemma_closure_flow_rooted(typed);
                lemma_bind_params_rooted(
                    closure_flow(typed),
                    params,
                    types,
                    params_len(params, types),
                );
                let w2 = WorldV { envs: w1.envs.push(env), flow, ..w1 };
                law_a_block_advances(cx, typed, w2);
                lemma_generic_frame(cx, typed, env, flow, w1);
                let w3 = walk_block(cx, typed, w2);
                lemma_chain(w, w1, WorldV { envs: popped(w3.envs), flow: w1.flow, ..w3 });
            },
        },
    }
}

proof fn lemma_observe_calls(cx: Cx, e: TypedExpr, w: WorldV)
    requires
        e is Call || e is MethodCall,
    ensures
        advances(w, observe_within(cx, e, w)),
    decreases e, 0int,
{
    match e {
        TypedExpr::Call { callee, args, .. } => {
            law_observing_advances(cx, *callee, w);
            let w1 = observe(cx, *callee, w);
            let params = function_params(ty_of(*callee)@);
            lemma_args(cx, args@, params, w1);
            lemma_chain(w, w1, walk_args(cx, args@, params, w1));
        },
        TypedExpr::MethodCall { receiver, method, args, .. } => {
            law_observing_advances(cx, *receiver, w);
            law_consuming_advances(cx, *receiver, MoveCause::ByValueReceiver, w);
            let w1 = if receiver_kind(cx, w.envs, ty_of(*receiver)@, method@) == Some(
                crate::ast::ReceiverKind::Value,
            ) {
                consume(cx, *receiver, MoveCause::ByValueReceiver, w)
            } else {
                observe(cx, *receiver, w)
            };
            let params = method_params(cx, w1.envs, ty_of(*receiver)@, method@);
            lemma_args(cx, args@, params, w1);
            lemma_chain(w, w1, walk_args(cx, args@, params, w1));
        },
        _ => {},
    }
}

#[verifier::rlimit(40)]
proof fn lemma_observe_within(cx: Cx, e: TypedExpr, w: WorldV)
    ensures
        advances(w, observe_within(cx, e, w)),
    decreases e, 1int,
{
    broadcast use lemma_walk_loop_congruent;

    lemma_stays(w);
    match e {
        TypedExpr::Literal(_, _, _) => {},
        TypedExpr::Ident(_, _, _) => {},
        TypedExpr::Path(_, _, _) => {},
        TypedExpr::Continue(_) => {
            lemma_reach(w);
        },
        TypedExpr::Tuple(items, _, _) => {
            lemma_observe_all(cx, items@, w);
        },
        TypedExpr::Array(items, _, _) => {
            lemma_observe_all(cx, items@, w);
        },
        TypedExpr::RecordLiteral { fields, .. } => {
            lemma_consume_fields(cx, fields@, w);
        },
        TypedExpr::StructLiteral { fields, .. } => {
            lemma_consume_fields(cx, fields@, w);
        },
        TypedExpr::RepeatArray(value, _, _, _) => {
            law_consuming_advances(cx, *value, MoveCause::Other, w);
        },
        TypedExpr::BinOp(left, _, right, _, _) => {
            law_observing_advances(cx, *left, w);
            let w1 = observe(cx, *left, w);
            law_observing_advances(cx, *right, w1);
            lemma_chain(w, w1, observe(cx, *right, w1));
        },
        TypedExpr::UnaryOp(_, inner, _, _) => {
            law_observing_advances(cx, *inner, w);
        },
        TypedExpr::RefTemp { init, .. } => {
            law_consuming_advances(cx, *init, MoveCause::Other, w);
        },
        TypedExpr::Assign { target, value, .. } => {
            lemma_observe_target(cx, target, w);
            let w1 = observe_target(cx, target, w);
            law_consuming_advances(cx, *value, MoveCause::Other, w1);
            let w2 = consume(cx, *value, MoveCause::Other, w1);
            lemma_chain(w, w1, w2);
            if let Some(place) = target_place(target) {
                if rooted(w2.flow) {
                    lemma_reinitialized_rooted(w2.flow, place);
                }
                lemma_flow(w, w2, reinitialized(w2.flow, place));
            }
        },
        TypedExpr::Call { .. } => {
            lemma_observe_calls(cx, e, w);
        },
        TypedExpr::MethodCall { .. } => {
            lemma_observe_calls(cx, e, w);
        },
        TypedExpr::FieldAccess { object, .. } => {
            lemma_observe_base(cx, *object, w);
        },
        TypedExpr::TupleAccess { object, .. } => {
            lemma_observe_base(cx, *object, w);
        },
        TypedExpr::Index { object, index, .. } => {
            lemma_observe_base(cx, *object, w);
            let w1 = observe_base(cx, *object, w);
            law_observing_advances(cx, *index, w1);
            lemma_chain(w, w1, observe(cx, *index, w1));
        },
        TypedExpr::Cast { expr, .. } => {
            law_observing_advances(cx, *expr, w);
        },
        TypedExpr::SingletonCoerce { inner, .. } => {
            law_observing_advances(cx, *inner, w);
        },
        TypedExpr::Match(_) => {
            lemma_observe_match(cx, e, w);
        },
        TypedExpr::If { .. } => {
            lemma_observe_if(cx, e, w);
        },
        TypedExpr::Loop { body, .. } => {
            let step = |v: WorldV| walk_block(cx, body, v);
            assert forall|v: WorldV| advances(v, #[trigger] step(v)) by {
                law_a_block_advances(cx, body, v);
            }
            lemma_walk_loop(step, false, w);
            assert(observe_within(cx, e, w) == walk_loop(step, false, w));
        },
        TypedExpr::Closure { .. } => {
            lemma_observe_closure(cx, e, w);
        },
        TypedExpr::GenericClosure { name, params, body, span, .. } => {
            match name {
                None => {
                    lemma_skipped(
                        w,
                        span@,
                        "anonymous generic closure has no type scheme lookup key"@,
                    );
                },
                Some(_) => {
                    lemma_generic_closure(cx, body, params@, span@, w);
                },
            }
        },
        TypedExpr::Return(r) => {
            let w1 = match r.value {
                Some(v) => consume(cx, *v, MoveCause::Other, w),
                None => w,
            };
            if let Some(v) = r.value {
                law_consuming_advances(cx, *v, MoveCause::Other, w);
            }
            lemma_reach(w1);
            lemma_chain(w, w1, diverging(w1));
        },
        TypedExpr::Break(b) => {
            let w1 = match b.value {
                Some(v) => consume(cx, *v, MoveCause::Other, w),
                None => w,
            };
            if let Some(v) = b.value {
                law_consuming_advances(cx, *v, MoveCause::Other, w);
            }
            lemma_reach(w1);
            lemma_chain(w, w1, reach_exit(w1));
        },
    }
}

/// Consuming an expression keeps what every walk keeps.
pub proof fn law_consuming_advances(cx: Cx, e: TypedExpr, cause: MoveCause, w: WorldV)
    ensures
        advances(w, consume(cx, e, cause, w)),
    decreases e, 3int,
{
    match expr_place(e) {
        Some(place) => {
            let root_ty = if w.flow.binding_types.dom().contains(place.root) {
                w.flow.binding_types[place.root]
            } else {
                root_type_or_own(e)
            };
            let source = source_place(cx, w.envs, place, root_ty, cause);
            lemma_consume_place(cx, source, root_ty, span_of(e)@, cause, w);
            let w1 = consume_place(cx, source, root_ty, span_of(e)@, cause, w);
            match e {
                TypedExpr::Index { index, .. } => {
                    law_observing_advances(cx, *index, w1);
                    lemma_chain(w, w1, observe(cx, *index, w1));
                },
                TypedExpr::FieldAccess { object, .. } => {
                    lemma_observe_base(cx, *object, w1);
                    lemma_chain(w, w1, observe_base(cx, *object, w1));
                },
                TypedExpr::TupleAccess { object, .. } => {
                    lemma_observe_base(cx, *object, w1);
                    lemma_chain(w, w1, observe_base(cx, *object, w1));
                },
                _ => {},
            }
        },
        None => match e {
            TypedExpr::Tuple(items, _, _) => {
                lemma_consume_all(cx, items@, cause, w);
            },
            TypedExpr::Array(items, _, _) => {
                lemma_consume_all(cx, items@, cause, w);
            },
            _ => {
                law_observing_advances(cx, e, w);
            },
        },
    }
}

pub(super) proof fn lemma_observe_base(cx: Cx, e: TypedExpr, w: WorldV)
    ensures
        advances(w, observe_base(cx, e, w)),
    decreases e, 3int,
{
    lemma_stays(w);
    match expr_place(e) {
        Some(place) => if gone(place, w) {
            lemma_base_use(place, span_of(e)@, w);
        } else {
            match e {
                TypedExpr::FieldAccess { object, .. } => {
                    lemma_observe_base(cx, *object, w);
                },
                TypedExpr::TupleAccess { object, .. } => {
                    lemma_observe_base(cx, *object, w);
                },
                TypedExpr::Index { object, index, .. } => {
                    lemma_observe_base(cx, *object, w);
                    let w1 = observe_base(cx, *object, w);
                    law_observing_advances(cx, *index, w1);
                    lemma_chain(w, w1, observe(cx, *index, w1));
                },
                _ => {},
            }
        },
        None => {
            law_observing_advances(cx, e, w);
        },
    }
}

pub(super) proof fn lemma_observe_target(cx: Cx, p: TypedPlace, w: WorldV)
    ensures
        advances(w, observe_target(cx, p, w)),
    decreases p, 0int,
{
    lemma_stays(w);
    match p {
        TypedPlace::Ident(_, _) => {},
        TypedPlace::Deref { object, .. } => {
            law_observing_advances(cx, *object, w);
        },
        TypedPlace::Field { object, .. } => {
            lemma_observe_target_base(cx, *object, w);
        },
        TypedPlace::Tuple { object, .. } => {
            lemma_observe_target_base(cx, *object, w);
        },
        TypedPlace::Index { object, index, .. } => {
            lemma_observe_target_base(cx, *object, w);
            let w1 = observe_target_base(cx, *object, w);
            law_observing_advances(cx, *index, w1);
            lemma_chain(w, w1, observe(cx, *index, w1));
        },
    }
}

pub(super) proof fn lemma_observe_target_base(cx: Cx, p: TypedPlace, w: WorldV)
    ensures
        advances(w, observe_target_base(cx, p, w)),
    decreases p, 0int,
{
    lemma_stays(w);
    if target_place(p) is Some && gone(target_place(p)->0, w) {
        lemma_base_use(target_place(p)->0, super::walk::target_span(p), w);
    } else {
        match p {
            TypedPlace::Ident(_, _) => {},
            TypedPlace::Deref { object, .. } => {
                law_observing_advances(cx, *object, w);
            },
            TypedPlace::Field { object, .. } => {
                lemma_observe_target_base(cx, *object, w);
            },
            TypedPlace::Tuple { object, .. } => {
                lemma_observe_target_base(cx, *object, w);
            },
            TypedPlace::Index { object, index, .. } => {
                lemma_observe_target_base(cx, *object, w);
                let w1 = observe_target_base(cx, *object, w);
                law_observing_advances(cx, *index, w1);
                lemma_chain(w, w1, observe(cx, *index, w1));
            },
        }
    }
}

/// A value whose type is copied never moves: consuming it leaves the flow as it was.
pub proof fn law_copied_values_stay(
    cx: Cx,
    place: PlaceV,
    root_ty: TypeV,
    span: SpanV,
    cause: MoveCause,
    w: WorldV,
)
    requires
        is_copy(cx, w.envs, type_at(cx, place, root_ty)),
    ensures
        consume_place(cx, place, root_ty, span, cause, w).flow == w.flow,
{
}

/// A place that was consumed, and whose type is not copied, cannot be used again: the second use is
/// reported, with the place where the value went. The place may be a binding or a part of one, as
/// long as it may be moved out of at all.
pub proof fn law_a_use_after_a_move_is_reported(
    cx: Cx,
    place: PlaceV,
    root_ty: TypeV,
    moved_at: SpanV,
    cause: MoveCause,
    used_at: SpanV,
    w: WorldV,
)
    requires
        !is_copy(cx, w.envs, type_at(cx, place, root_ty)),
        !w.flow.borrowed.contains(place.root),
        ban(cx, w.envs, place, root_ty, type_at(cx, place, root_ty)) is None,
    ensures
        ({
            let moved = consume_place(cx, place, root_ty, moved_at, cause, w);
            let used = whole_use(place, used_at, moved);
            &&& used.report.violations.len() == moved.report.violations.len() + 1
            &&& used.report.violations.last().use_place == place
            &&& used.report.violations.last().use_span == used_at
            &&& place.projections.len() == 0 ==> used.report.violations.last().moved_span
                == moved_at
        }),
{
    let used = whole_use(place, moved_at, w);
    law_prefix_is_reflexive(place);
    law_a_move_is_seen(
        used.flow,
        place,
        moved_at,
        cause,
        bucket(type_at(cx, place, root_ty)),
        place,
    );
}

/// Behind an `if` that writes a binding anew on every branch from which control goes on, the
/// binding can be used, whatever had moved before.
pub proof fn law_a_write_on_every_branch_revives(
    before: FlowV,
    taken: WorldV,
    other: WorldV,
    place: PlaceV,
)
    requires
        !taken.flow.diverged || !other.flow.diverged,
        !taken.flow.diverged ==> taken.flow.in_sight.contains(place.root) && !unusable(
            taken.flow,
            place,
        ),
        !other.flow.diverged ==> other.flow.in_sight.contains(place.root) && !unusable(
            other.flow,
            place,
        ),
    ensures
        !unusable(join_branches(before, taken, other).flow, place),
{
    let none = unmoved(before);
    let first = joined_with(none, before, taken.flow);
    let both = joined_with(first, before, other.flow);
    assert(!unusable(none, place));
    if unusable(both, place) {
        if !other.flow.diverged {
            assert(!unusable(unseen(before, other.flow), place));
            if unusable(along(before, other.flow), place) {
                law_a_join_adds_no_move(unseen(before, other.flow), other.flow, place);
            }
            law_a_join_adds_no_move(first, along(before, other.flow), place);
        }
        assert(unusable(first, place));
        if !taken.flow.diverged {
            assert(!unusable(unseen(before, taken.flow), place));
            if unusable(along(before, taken.flow), place) {
                law_a_join_adds_no_move(unseen(before, taken.flow), taken.flow, place);
            }
            law_a_join_adds_no_move(none, along(before, taken.flow), place);
        }
    }
}

/// Behind a loop that only `break` leaves, a binding can be used that was written anew before every
/// `break`, whatever had moved before.
pub proof fn law_a_write_before_every_break_revives(before: FlowV, after: WorldV, place: PlaceV)
    requires
        after.exits.len() > 0,
        after.exits.last().reached,
        after.exits.last().state.in_sight.contains(place.root),
        !unusable(after.exits.last().state, place),
    ensures
        !unusable(after_loop(before, after, false), place),
{
    let exit = after.exits.last().state;
    assert(!unusable(unseen(before, exit), place));
    if unusable(along(before, exit), place) {
        law_a_join_adds_no_move(unseen(before, exit), exit, place);
    }
}

/// Consuming a place that may not be moved out of is reported, the first time included, and leaves
/// it where it was: an element of an array, a part of a value with a destructor, or what is behind
/// a reference.
pub proof fn law_a_banned_move_is_reported(
    cx: Cx,
    place: PlaceV,
    root_ty: TypeV,
    span: SpanV,
    cause: MoveCause,
    w: WorldV,
)
    requires
        !is_copy(cx, w.envs, type_at(cx, place, root_ty)),
        w.flow.borrowed.contains(place.root) || through_index(place.projections) || through_drop(
            cx,
            w.envs,
            root_ty,
            place.projections,
        ) || through_reference(cx, root_ty, place.projections),
    ensures
        ({
            let after = consume_place(cx, place, root_ty, span, cause, w);
            &&& after.report.violations.len() == w.report.violations.len() + 1
            &&& after.report.violations.last().use_place == place
            &&& after.report.violations.last().use_span == span
            &&& after.flow == w.flow
        }),
{
}

} // verus!
