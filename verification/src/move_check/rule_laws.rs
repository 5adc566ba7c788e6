//! Which values are copied, which may not be moved, and what the parts of a body do to each other.
use vstd::prelude::*;
use crate::infer::{lifted, substituted, InferTypeV, TypeVar};
use crate::place::{PlaceV, ProjectionV};
use crate::registry::{all_satisfy, args_meet, named_satisfies, resolved_name, satisfies};
use crate::registry::{some_impl_met, AspectImpl, TypeDefinitionRegistry};
use crate::span::SpanV;
use crate::typed_ast::{TypedBlock, TypedExpr, TypedFunDecl};
use crate::types::{peeled, TypeV};
use super::flow::{along, moves_of, unseen, FlowV, MoveCause};
use super::flow_laws::{law_a_join_keeps_moves, rooted, unusable};
use super::report::MoveViolationKind;
use super::walk::{bind_element, consume_place, is_copy, is_drop, join_branches, join_single_branch};
use super::walk::{joined_with, observe, observe_within, on_flow, path_type, through_drop};
use super::walk::{through_index, through_reference, type_at, unmoved, walk_block, walk_fun};
use super::walk::{zip_len, zipped, Cx, WorldV};

verus! {

/// Numbers, truth values, characters, `()`, `!` and shared references are copied; `&var`
/// references, array views and records are not; functions are. Strings are copied only if an impl
/// says so.
pub proof fn law_which_built_in_types_are_copied(
    cx: Cx,
    t: TypeV,
    item: TypeV,
    fields: Seq<(Seq<char>, TypeV)>,
    params: Seq<TypeV>,
)
    ensures
        ({
            let copied = |t: TypeV| is_copy(cx, Seq::empty(), t);
            &&& copied(TypeV::I8) && copied(TypeV::I16) && copied(TypeV::I32) && copied(TypeV::I64)
            &&& copied(TypeV::U8) && copied(TypeV::U16) && copied(TypeV::U32) && copied(TypeV::U64)
            &&& copied(TypeV::F32) && copied(TypeV::F64)
            &&& copied(TypeV::Boolean) && copied(TypeV::Char)
            &&& copied(TypeV::Unit) && copied(TypeV::Never)
            &&& copied(TypeV::Reference(Box::new(item)))
            &&& copied(TypeV::Fun(params, Box::new(item)))
            &&& !(peeled(item) is Fun) ==> !copied(TypeV::MutReference(Box::new(item)))
            &&& !copied(TypeV::Array(Box::new(item)))
            &&& !copied(TypeV::Record(fields))
            &&& copied(TypeV::Str) <==> exists|k: int|
                0 <= k < cx.reg.impls@.len() && (#[trigger] cx.reg.impls@[k]).owner@ == "String"@
                    && cx.reg.impls@[k].aspect@ == "Copy"@
        }),
{
    reveal_strlit("Copy");
    if is_copy(cx, Seq::empty(), TypeV::Str) {
        let impls = cx.reg.impls@;
        let k = choose|k: int|
            0 <= k < impls.len() && crate::registry::impl_is(
                #[trigger] impls[k],
                "String"@,
                "Copy"@,
            );
        assert(cx.reg.impls@[k].owner@ == "String"@);
    }
    if exists|k: int|
        0 <= k < cx.reg.impls@.len() && (#[trigger] cx.reg.impls@[k]).owner@ == "String"@
            && cx.reg.impls@[k].aspect@ == "Copy"@ {
        let k = choose|k: int|
            0 <= k < cx.reg.impls@.len() && (#[trigger] cx.reg.impls@[k]).owner@ == "String"@
                && cx.reg.impls@[k].aspect@ == "Copy"@;
        assert(crate::registry::impl_is(cx.reg.impls@[k], "String"@, "Copy"@));
    }
}

/// A tuple is copied just if every element is, and an array of a fixed length just if its elements
/// are.
pub proof fn law_parts_decide_whether_a_whole_is_copied(
    reg: TypeDefinitionRegistry,
    extra: Seq<AspectImpl>,
    module: Seq<Seq<char>>,
    items: Seq<TypeV>,
    item: TypeV,
    n: u64,
)
    ensures
        satisfies(reg, extra, module, TypeV::Tuple(items), "Copy"@) <==> forall|i: int|
            0 <= i < items.len() ==> satisfies(reg, extra, module, #[trigger] items[i], "Copy"@),
        satisfies(reg, extra, module, TypeV::SizedArray(Box::new(item), n), "Copy"@) <==> satisfies(
            reg,
            extra,
            module,
            item,
            "Copy"@,
        ),
{
    assert(satisfies(reg, extra, module, TypeV::Tuple(items), "Copy"@) == all_satisfy(
        reg,
        extra,
        module,
        items,
        "Copy"@,
    ));
}

/// A named type has an aspect just if some impl of the aspect for it, declared or known in this
/// place only, has what it asks of the type arguments at their positions.
pub proof fn law_named_types_have_the_aspects_of_their_impls(
    reg: TypeDefinitionRegistry,
    extra: Seq<AspectImpl>,
    module: Seq<Seq<char>>,
    name: Seq<char>,
    args: Seq<TypeV>,
    aspect: Seq<char>,
)
    ensures
        satisfies(reg, extra, module, TypeV::Named(name, args), aspect) <==> exists|e: AspectImpl| {
            &&& reg.impls@.contains(e) || extra.contains(e)
            &&& e.owner@ == resolved_name(reg, module, name)
            &&& e.aspect@ == aspect
            &&& #[trigger] asks_no_more(reg, extra, module, args, e)
        },
{
    let owner = resolved_name(reg, module, name);
    assert(satisfies(reg, extra, module, TypeV::Named(name, args), aspect) == named_satisfies(
        reg,
        extra,
        module,
        name,
        args,
        aspect,
    ));
    assert(named_satisfies(reg, extra, module, name, args, aspect) == (some_impl_met(
        reg,
        extra,
        module,
        reg.impls@,
        name,
        args,
        aspect,
    ) || some_impl_met(reg, extra, module, extra, name, args, aspect)));
    if satisfies(reg, extra, module, TypeV::Named(name, args), aspect) {
        if some_impl_met(reg, extra, module, reg.impls@, name, args, aspect) {
            let k = choose|k: int|
                0 <= k < reg.impls@.len() && crate::registry::impl_is(
                    #[trigger] reg.impls@[k],
                    owner,
                    aspect,
                ) && args_meet(reg, extra, module, args, reg.impls@[k].arg_bounds@);
            let e = reg.impls@[k];
            assert(reg.impls@.contains(e));
            lemma_asks(reg, extra, module, args, e);
        } else {
            let k = choose|k: int|
                0 <= k < extra.len() && crate::registry::impl_is(#[trigger] extra[k], owner, aspect)
                    && args_meet(reg, extra, module, args, extra[k].arg_bounds@);
            let e = extra[k];
            assert(extra.contains(e));
            lemma_asks(reg, extra, module, args, e);
        }
    }
    if exists|e: AspectImpl| {
        &&& reg.impls@.contains(e) || extra.contains(e)
        &&& e.owner@ == owner
        &&& e.aspect@ == aspect
        &&& #[trigger] asks_no_more(reg, extra, module, args, e)
    } {
        let e = choose|e: AspectImpl| {
            &&& reg.impls@.contains(e) || extra.contains(e)
            &&& e.owner@ == owner
            &&& e.aspect@ == aspect
            &&& #[trigger] asks_no_more(reg, extra, module, args, e)
        };
        lemma_asks(reg, extra, module, args, e);
        assert(crate::registry::impl_is(e, owner, aspect));
        if reg.impls@.contains(e) {
            let k = choose|k: int| 0 <= k < reg.impls@.len() && reg.impls@[k] == e;
            assert(crate::registry::impl_is(reg.impls@[k], owner, aspect));
        } else {
            let k = choose|k: int| 0 <= k < extra.len() && extra[k] == e;
            assert(crate::registry::impl_is(extra[k], owner, aspect));
        }
    }
}

/// Whether each type argument has every aspect that an impl asks of its position.
pub open spec fn asks_no_more(
    reg: TypeDefinitionRegistry,
    extra: Seq<AspectImpl>,
    module: Seq<Seq<char>>,
    args: Seq<TypeV>,
    e: AspectImpl,
) -> bool {
    forall|i: int, j: int|
        0 <= i < args.len() && 0 <= i < e.arg_bounds@.len() && 0 <= j < e.arg_bounds@[i]@.len()
            ==> satisfies(
            reg,
            extra,
            module,
            #[trigger] args[i],
            (#[trigger] e.arg_bounds@[i]@[j])@,
        )
}

proof fn lemma_asks(
    reg: TypeDefinitionRegistry,
    extra: Seq<AspectImpl>,
    module: Seq<Seq<char>>,
    args: Seq<TypeV>,
    e: AspectImpl,
)
    ensures
        asks_no_more(reg, extra, module, args, e) == args_meet(
            reg,
            extra,
            module,
            args,
            e.arg_bounds@,
        ),
{
}

/// Nothing that is not copied is moved out of an element of an array, at whatever depth.
pub proof fn law_nothing_moves_out_of_an_array(
    cx: Cx,
    place: PlaceV,
    i: int,
    root_ty: TypeV,
    span: SpanV,
    cause: MoveCause,
    w: WorldV,
)
    requires
        0 <= i < place.projections.len(),
        place.projections[i] == ProjectionV::OpaqueIndex,
        !is_copy(cx, w.envs, type_at(cx, place, root_ty)),
        !w.flow.borrowed.contains(place.root),
    ensures
        refused(
            w,
            consume_place(cx, place, root_ty, span, cause, w),
            place,
            span,
            MoveViolationKind::ArrayElementMove,
        ),
{
    assert(through_index(place.projections));
}

/// Whether a move was reported as one that is not allowed, and did not take place.
pub open spec fn refused(
    before: WorldV,
    after: WorldV,
    place: PlaceV,
    span: SpanV,
    kind: MoveViolationKind,
) -> bool {
    let n = before.report.violations.len() as int;
    &&& after.flow == before.flow
    &&& after.report.violations.len() == n + 1
    &&& after.report.violations[n].use_place == place
    &&& after.report.violations[n].use_span == span
    &&& after.report.violations[n].binding == place.root
    &&& after.report.violations[n].kind == kind
}

/// No part that is not copied is moved out of a value with a destructor.
pub proof fn law_no_part_moves_out_of_a_value_with_a_destructor(
    cx: Cx,
    place: PlaceV,
    root_ty: TypeV,
    span: SpanV,
    cause: MoveCause,
    w: WorldV,
)
    requires
        place.projections.len() > 0,
        is_drop(cx, w.envs, root_ty),
        forall|i: int|
            0 <= i < place.projections.len() ==> !((#[trigger] place.projections[i])
                is OpaqueIndex),
        !is_copy(cx, w.envs, type_at(cx, place, root_ty)),
        !w.flow.borrowed.contains(place.root),
    ensures
        refused(
            w,
            consume_place(cx, place, root_ty, span, cause, w),
            place,
            span,
            MoveViolationKind::PartialMoveOfDropType,
        ),
{
    assert(through_drop(cx, w.envs, root_ty, place.projections));
}

/// Nothing that is not copied is moved out of what a reference refers to.
pub proof fn law_nothing_moves_out_of_a_reference(
    cx: Cx,
    place: PlaceV,
    root_ty: TypeV,
    span: SpanV,
    cause: MoveCause,
    w: WorldV,
)
    requires
        place.projections.len() > 0,
        root_ty is Reference || root_ty is MutReference || place.projections[0]
            == ProjectionV::Deref,
        !is_copy(cx, w.envs, type_at(cx, place, root_ty)),
    ensures
        consume_place(cx, place, root_ty, span, cause, w).flow == w.flow,
        consume_place(cx, place, root_ty, span, cause, w).report.violations.len()
            == w.report.violations.len() + 1,
        consume_place(cx, place, root_ty, span, cause, w).report.violations.last().use_place
            == place,
{
    assert(through_reference(cx, root_ty, place.projections));
}

/// A binding as a whole may always be moved, unless it is an element of a borrowed array.
pub proof fn law_a_whole_binding_may_be_moved(
    cx: Cx,
    name: Seq<char>,
    ty: TypeV,
    span: SpanV,
    cause: MoveCause,
    w: WorldV,
)
    requires
        !w.flow.borrowed.contains(name),
    ensures
        ({
            let place = PlaceV { root: name, projections: Seq::empty() };
            let after = consume_place(cx, place, ty, span, cause, w);
            &&& !unusable(w.flow, place) ==> after.report == w.report
            &&& is_copy(cx, w.envs, ty) ==> after.flow == w.flow
            &&& !is_copy(cx, w.envs, ty) ==> moves_of(after.flow, name).len() == 1 && moves_of(
                after.flow,
                name,
            )[0].place == place && moves_of(after.flow, name)[0].moved_span == span
        }),
{
    let place = PlaceV { root: name, projections: Seq::empty() };
    assert(type_at(cx, place, ty) == ty);
}

/// The variable of a loop over an array view is borrowed: what is not copied cannot be moved out of
/// it. That of a loop over an array of fixed length can.
pub proof fn law_loop_variables_over_views_are_borrowed(
    cx: Cx,
    name: Seq<char>,
    item: TypeV,
    n: u64,
    span: SpanV,
    cause: MoveCause,
    w: WorldV,
)
    requires
        !is_copy(cx, w.envs, item),
    ensures
        ({
            let place = PlaceV { root: name, projections: Seq::empty() };
            let lent = on_flow(w, bind_element(w.flow, name, TypeV::Array(Box::new(item))));
            let owned = on_flow(w, bind_element(w.flow, name, TypeV::SizedArray(Box::new(item), n)));
            &&& lent.flow.binding_types[name] == item
            &&& owned.flow.binding_types[name] == item
            &&& refused(
                lent,
                consume_place(cx, place, item, span, cause, lent),
                place,
                span,
                MoveViolationKind::BorrowedArrayElementMove,
            )
            &&& consume_place(cx, place, item, span, cause, owned).report == w.report
            &&& unusable(consume_place(cx, place, item, span, cause, owned).flow, place)
        }),
{
    let place = PlaceV { root: name, projections: Seq::empty() };
    assert(type_at(cx, place, item) == item);
    let owned = on_flow(w, bind_element(w.flow, name, TypeV::SizedArray(Box::new(item), n)));
    crate::place::law_prefix_is_reflexive(place);
    super::flow_laws::law_a_move_is_seen(
        owned.flow,
        place,
        span,
        cause,
        super::report::bucket(item),
        place,
    );
}

/// The type at a place is found step by step: an element of a tuple by its position, an element of
/// an array by the array, a field of a record by its name, and through references as if they were
/// not there.
pub proof fn law_places_have_the_types_of_their_parts(
    cx: Cx,
    t: TypeV,
    items: Seq<TypeV>,
    i: usize,
    n: u64,
    rest: Seq<ProjectionV>,
)
    ensures
        path_type(cx, t, Seq::empty()) == Some(t),
        i < items.len() ==> path_type(
            cx,
            TypeV::Tuple(items),
            seq![ProjectionV::TupleIndex(i)] + rest,
        ) == path_type(cx, items[i as int], rest),
        path_type(cx, TypeV::Array(Box::new(t)), seq![ProjectionV::OpaqueIndex] + rest)
            == path_type(cx, t, rest),
        path_type(cx, TypeV::SizedArray(Box::new(t), n), seq![ProjectionV::OpaqueIndex] + rest)
            == path_type(cx, t, rest),
        path_type(cx, TypeV::Reference(Box::new(t)), seq![ProjectionV::Deref] + rest) == path_type(
            cx,
            peeled(t),
            rest,
        ),
        i < items.len() ==> path_type(
            cx,
            TypeV::Reference(Box::new(TypeV::Tuple(items))),
            seq![ProjectionV::TupleIndex(i)] + rest,
        ) == path_type(cx, items[i as int], rest),
{
    assert((seq![ProjectionV::TupleIndex(i)] + rest).skip(1) =~= rest);
    assert((seq![ProjectionV::OpaqueIndex] + rest).skip(1) =~= rest);
    assert((seq![ProjectionV::Deref] + rest).skip(1) =~= rest);
    assert((seq![ProjectionV::TupleIndex(i)] + rest)[0] == ProjectionV::TupleIndex(i));
    assert((seq![ProjectionV::OpaqueIndex] + rest)[0] == ProjectionV::OpaqueIndex);
    assert((seq![ProjectionV::Deref] + rest)[0] == ProjectionV::Deref);
}

/// The type parameter at a position stands for the type argument at that position.
pub proof fn law_type_arguments_go_by_position(params: Seq<TypeVar>, args: Seq<TypeV>, i: int)
    requires
        params.len() == args.len(),
        params.no_duplicates(),
        0 <= i < params.len(),
    ensures
        substituted(zipped(params, args, zip_len(params, args)), InferTypeV::Var(params[i]))
            == lifted(args[i]),
{
    lemma_zipped(params, args, i, params.len() as int);
}

proof fn lemma_zipped(params: Seq<TypeVar>, args: Seq<TypeV>, i: int, n: int)
    requires
        params.len() == args.len(),
        params.no_duplicates(),
        0 <= i < n <= params.len(),
    ensures
        zipped(params, args, n).dom().contains(params[i]),
        zipped(params, args, n)[params[i]] == lifted(args[i]),
    decreases n,
{
    if i < n - 1 {
        lemma_zipped(params, args, i, n - 1);
        assert(params[i] != params[n - 1]);
    }
}

/// What has moved in the branch of an `if` has moved behind it, unless the branch leaves; and
/// what moved before is still gone.
pub proof fn law_a_branch_counts(
    before: FlowV,
    taken: WorldV,
    place: PlaceV,
)
    requires
        rooted(before),
        rooted(taken.flow),
        rooted(along(before, taken.flow)),
    ensures
        !taken.flow.diverged && unusable(taken.flow, place) ==> unusable(
            join_single_branch(before, taken).flow,
            place,
        ),
        unusable(before, place) ==> unusable(join_single_branch(before, taken).flow, place),
        taken.flow.diverged ==> join_single_branch(before, taken).flow == before,
{
    lemma_unseen(before, taken.flow);
    if !taken.flow.diverged && unusable(taken.flow, place) {
        law_a_join_keeps_moves(unseen(before, taken.flow), taken.flow, place);
        law_a_join_keeps_moves(before, along(before, taken.flow), place);
    }
    if unusable(before, place) && !taken.flow.diverged {
        law_a_join_keeps_moves(before, along(before, taken.flow), place);
    }
}

pub(super) proof fn lemma_unseen(before: FlowV, path: FlowV)
    requires
        rooted(before),
    ensures
        rooted(unseen(before, path)),
{
    let g = unseen(before, path);
    assert forall|root: Seq<char>, i: int|
        #![trigger g.moved[root][i]]
        g.moved.dom().contains(root) && 0 <= i < g.moved[root].len() implies g.moved[root][i].place.root
        == root by {
        assert(before.moved[root][i].place.root == root);
    }
}

/// What has moved on one of two branches has moved behind them, unless that branch leaves.
pub proof fn law_either_branch_counts(before: FlowV, taken: WorldV, other: WorldV, place: PlaceV)
    requires
        rooted(taken.flow),
        rooted(other.flow),
        rooted(before),
        rooted(along(before, taken.flow)),
        rooted(along(before, other.flow)),
        rooted(joined_with(unmoved(before), before, taken.flow)),
        !taken.flow.diverged && unusable(taken.flow, place) || !other.flow.diverged && unusable(
            other.flow,
            place,
        ),
    ensures
        unusable(join_branches(before, taken, other).flow, place),
{
    let none = unmoved(before);
    let first = joined_with(none, before, taken.flow);
    lemma_unseen(before, taken.flow);
    lemma_unseen(before, other.flow);
    assert(rooted(none));
    if !taken.flow.diverged && unusable(taken.flow, place) {
        law_a_join_keeps_moves(unseen(before, taken.flow), taken.flow, place);
        law_a_join_keeps_moves(none, along(before, taken.flow), place);
        if !other.flow.diverged {
            law_a_join_keeps_moves(first, along(before, other.flow), place);
        }
    } else {
        law_a_join_keeps_moves(unseen(before, other.flow), other.flow, place);
        law_a_join_keeps_moves(first, along(before, other.flow), place);
    }
}

/// An `if` reads its condition, walks its branch from there, and joins the branch with the way
/// around it; with `else` it joins the two branches, which start from the same state.
pub proof fn law_conditionals_join_their_branches(
    cx: Cx,
    e: TypedExpr,
    condition: TypedExpr,
    taken: TypedBlock,
    other: Option<TypedBlock>,
    w: WorldV,
    place: PlaceV,
)
    requires
        e matches TypedExpr::If { condition: c, then_branch, else_branch, .. } && *c == condition
            && then_branch == taken && else_branch == other,
        ({
            let w1 = observe(cx, condition, w);
            let w2 = walk_block(cx, taken, w1);
            &&& rooted(w1.flow)
            &&& rooted(w2.flow)
            &&& rooted(along(w1.flow, w2.flow))
            &&& !w2.flow.diverged
            &&& unusable(w2.flow, place)
        }),
        other is None,
    ensures
        unusable(observe(cx, e, w).flow, place),
{
    let w1 = observe(cx, condition, w);
    let w2 = walk_block(cx, taken, w1);
    assert(observe(cx, e, w) == observe_within(cx, e, w));
    assert(observe_within(cx, e, w) == join_single_branch(w1.flow, w2));
    law_a_branch_counts(w1.flow, w2, place);
}

/// The body of a function starts afresh, and what moves in it is nothing to the code around it.
pub proof fn law_functions_keep_their_moves_to_themselves(cx: Cx, f: TypedFunDecl, w: WorldV)
    ensures
        f.body is Typed || f.body is Native ==> walk_fun(cx, f, w).flow == w.flow,
{
}

/// `return` and `break` leave, and so does `continue`.
pub proof fn law_jumps_leave(cx: Cx, e: TypedExpr, w: WorldV)
    requires
        e is Return || e is Break || e is Continue,
    ensures
        observe(cx, e, w).flow.diverged,
{
    assert(observe(cx, e, w) == observe_within(cx, e, w));
}

} // verus!
