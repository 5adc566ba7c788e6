//! What the move checker does to its state at every node of a typed body.
//!
//! The functions here are the meaning of the analysis: each takes the state before a node and
//! gives the state after it. Observing an expression reads it; consuming one moves its value out
//! where the value is not `Copy`.
use vstd::prelude::*;
use crate::ast::{Param, Pattern, ReceiverKind};
use crate::infer::{lifted, lowered, resolved, substituted, InferTypeV, TypeVar};
use crate::lookup::{enum_of, field_named, variant_of};
use crate::place::{expr_place, projected, target_place, PlaceV, ProjectionV};
use crate::registry::{array_method_of, method_type_of, first_where, infer_satisfies, method_of, resolved_name};
use crate::registry::{satisfies, struct_of, TypeDefinitionRegistry};
use crate::span::SpanV;
use crate::text::texts;
use crate::typed_ast::{span_of, ty_of, FunBody, GenericBody, GenericMoveEnv, SymbolicBody};
use crate::typed_ast::{TypedBlock, TypedDecl, TypedExpr, TypedForInStmt, TypedForInit};
use crate::typed_ast::{TypedForStmt, TypedFunDecl, TypedMatchArm, TypedPlace, TypedStmt};
use crate::typed_ast::TypedWhileStmt;
use crate::types::{peeled, primitive_name, types_view, Type, TypeV};
use super::flow::{along, bind, bind_all, bind_borrowed, bind_typed, carried, empty_flow};
use super::flow::{fingerprint, outer};
use super::flow::{move_above, move_touching, moves_of, pop_scope, push_scope, record_move};
use super::flow::{reinitialized, union, FlowV, MoveCause, MoveRecordV};
use super::free_roots::{free_roots, param_names, pattern_names, CapturedV};
use super::generics::{arg_types, opened, symbolic_arg_types, symbolic_method, symbolic_of};
use super::report::{bucket, mark_of, rewound, with_skipped, with_violation, MoveCheckReportV};
use super::report::{MoveViolationKind, MoveViolationV};

verus! {

/// What a walk is made in: the declared types, and the module that is walked.
pub ghost struct Cx {
    pub reg: TypeDefinitionRegistry,
    pub module: Seq<Seq<char>>,
}

/// What the `break`s of one loop body contributed.
pub ghost struct LoopExitV {
    pub reached: bool,
    pub state: FlowV,
    /// How many scopes were open where the loop began.
    pub depth: nat,
}

/// The whole state of a walk.
pub ghost struct WorldV {
    pub report: MoveCheckReportV,
    /// The generic bodies being walked, innermost last.
    pub envs: Seq<GenericMoveEnv>,
    /// What reaches the back edge of each loop being walked through `continue`, innermost last.
    pub back_edges: Seq<FlowV>,
    /// What leaves each loop being walked through `break`, innermost last.
    pub exits: Seq<LoopExitV>,
    pub flow: FlowV,
}

/// The walk with another flow.
pub open spec fn on_flow(w: WorldV, flow: FlowV) -> WorldV {
    WorldV { flow, ..w }
}

/// The walk on a path that goes no further.
pub open spec fn diverging(w: WorldV) -> WorldV {
    on_flow(w, FlowV { diverged: true, ..w.flow })
}

/// A sequence without its last element.
pub open spec fn popped<T>(s: Seq<T>) -> Seq<T> {
    if s.len() == 0 {
        s
    } else {
        s.drop_last()
    }
}

/// Whether a type satisfies an aspect where the walk stands: inside a generic body a symbolic
/// type has the aspects assumed of it.
pub open spec fn holds(cx: Cx, envs: Seq<GenericMoveEnv>, t: TypeV, aspect: Seq<char>) -> bool {
    if envs.len() == 0 {
        satisfies(cx.reg, Seq::empty(), cx.module, t, aspect)
    } else {
        let env = envs.last();
        symbolic_holds(env, t, aspect) || infer_satisfies(
            cx.reg,
            cx.module,
            env.assumptions@,
            opened(env.placeholders@, t),
            aspect,
        )
    }
}

/// Whether a symbolic type is assumed to have an aspect.
pub open spec fn symbolic_holds(env: GenericMoveEnv, t: TypeV, aspect: Seq<char>) -> bool {
    match peeled(t) {
        TypeV::Named(name, args) => args.len() == 0 && match symbolic_of(env, name) {
            Some(e) => texts(e.aspects@).contains(aspect),
            None => false,
        },
        _ => false,
    }
}

/// Whether a value of the type is copied rather than moved. Functions are.
pub open spec fn is_copy(cx: Cx, envs: Seq<GenericMoveEnv>, t: TypeV) -> bool {
    peeled(t) is Fun || holds(cx, envs, t, "Copy"@)
}

/// Whether the type has a destructor.
pub open spec fn is_drop(cx: Cx, envs: Seq<GenericMoveEnv>, t: TypeV) -> bool {
    holds(cx, envs, t, "Drop"@)
}

/// Type parameters bound to type arguments by position, the first `n` of them.
pub open spec fn zipped(params: Seq<TypeVar>, args: Seq<TypeV>, n: int) -> Map<TypeVar, InferTypeV>
    decreases n,
{
    if n <= 0 || n > params.len() || n > args.len() {
        Map::empty()
    } else {
        zipped(params, args, n - 1).insert(params[n - 1], lifted(args[n - 1]))
    }
}

/// How many type parameters have a type argument.
pub open spec fn zip_len(params: Seq<TypeVar>, args: Seq<TypeV>) -> int {
    if params.len() <= args.len() {
        params.len() as int
    } else {
        args.len() as int
    }
}

/// The type of a field of a named type, for the type arguments given.
pub open spec fn struct_field_type(cx: Cx, name: Seq<char>, args: Seq<TypeV>, field: Seq<char>) -> Option<
    TypeV,
> {
    match struct_of(cx.reg, resolved_name(cx.reg, cx.module, name)) {
        Some(info) => match field_named(info.fields@, field) {
            Some(entry) => {
                let ty = match info.type_params {
                    Some(params) => substituted(
                        zipped(params@, args, zip_len(params@, args)),
                        entry.ty@,
                    ),
                    None => entry.ty@,
                };
                if resolved(ty) {
                    Some(lowered(ty))
                } else {
                    None
                }
            },
            None => None,
        },
        None => None,
    }
}

/// The type of a field of an enum's variant, for the type arguments given.
pub open spec fn variant_field_type(
    cx: Cx,
    name: Seq<char>,
    args: Seq<TypeV>,
    variant: Seq<char>,
    field: Seq<char>,
) -> Option<TypeV> {
    match enum_of(cx.reg, resolved_name(cx.reg, cx.module, name)) {
        Some(info) => match variant_of(info, variant) {
            Some(v) => match field_named(v.fields@, field) {
                Some(entry) => {
                    let params = info.type_params@;
                    let ty = substituted(zipped(params, args, zip_len(params, args)), entry.ty@);
                    if resolved(ty) {
                        Some(lowered(ty))
                    } else {
                        None
                    }
                },
                None => None,
            },
            None => None,
        },
        None => None,
    }
}

/// Whether a field that a pattern binds is moved, for a value of a type: it is not known to be
/// copied.
pub open spec fn field_moves(
    cx: Cx,
    envs: Seq<GenericMoveEnv>,
    t: TypeV,
    path: Seq<Seq<char>>,
    field: Seq<char>,
) -> bool {
    match peeled(t) {
        TypeV::Named(name, args) => if path.len() == 0 {
            true
        } else {
            match variant_field_type(cx, name, args, path.last(), field) {
                Some(ty) => !is_copy(cx, envs, ty),
                None => true,
            }
        },
        _ => true,
    }
}

/// The place that a pattern takes the fields of a variant from: from behind a reference, where the
/// place holds one and a field moves.
pub open spec fn variant_place(
    cx: Cx,
    envs: Seq<GenericMoveEnv>,
    place: PlaceV,
    root_ty: TypeV,
    path: Seq<Seq<char>>,
    fields: Seq<Seq<char>>,
) -> PlaceV {
    let t = type_at(cx, place, root_ty);
    if (t is Reference || t is MutReference) && exists|i: int|
        0 <= i < fields.len() && field_moves(cx, envs, t, path, #[trigger] fields[i]) {
        projected(place, ProjectionV::Deref)
    } else {
        place
    }
}

/// The type of a record field.
pub open spec fn record_field_type(fields: Seq<(Seq<char>, TypeV)>, name: Seq<char>) -> Option<
    TypeV,
> {
    match first_where(fields, |e: (Seq<char>, TypeV)| e.0 == name) {
        Some(e) => Some(e.1),
        None => None,
    }
}

/// The type one step further along a place, seen through references.
pub open spec fn step_type(cx: Cx, t: TypeV, step: ProjectionV) -> Option<TypeV> {
    match step {
        ProjectionV::TupleIndex(index) => match peeled(t) {
            TypeV::Tuple(items) => if index < items.len() {
                Some(items[index as int])
            } else {
                None
            },
            _ => None,
        },
        ProjectionV::OpaqueIndex => match peeled(t) {
            TypeV::Array(item) => Some(*item),
            TypeV::SizedArray(item, _) => Some(*item),
            _ => None,
        },
        ProjectionV::Deref => Some(peeled(t)),
        ProjectionV::Field(field) => match peeled(t) {
            TypeV::Record(fields) => record_field_type(fields, field),
            TypeV::Named(name, args) => struct_field_type(cx, name, args, field),
            _ => None,
        },
    }
}

/// The type at the end of a path of steps.
pub open spec fn path_type(cx: Cx, t: TypeV, steps: Seq<ProjectionV>) -> Option<TypeV>
    decreases steps.len(),
{
    if steps.len() == 0 {
        Some(t)
    } else {
        match step_type(cx, t, steps[0]) {
            Some(next) => path_type(cx, next, steps.skip(1)),
            None => None,
        }
    }
}

/// Whether a path passes through a type with a destructor before its last step.
pub open spec fn through_drop(
    cx: Cx,
    envs: Seq<GenericMoveEnv>,
    t: TypeV,
    steps: Seq<ProjectionV>,
) -> bool
    decreases steps.len(),
{
    if steps.len() == 0 {
        false
    } else if is_drop(cx, envs, t) {
        true
    } else {
        match step_type(cx, t, steps[0]) {
            Some(next) => through_drop(cx, envs, next, steps.skip(1)),
            None => false,
        }
    }
}

/// Whether a path passes through a dynamic index.
pub open spec fn through_index(steps: Seq<ProjectionV>) -> bool {
    exists|i: int| 0 <= i < steps.len() && (#[trigger] steps[i]) is OpaqueIndex
}

/// Whether a path passes through a reference.
pub open spec fn through_reference(cx: Cx, t: TypeV, steps: Seq<ProjectionV>) -> bool
    decreases steps.len(),
{
    if steps.len() == 0 {
        false
    } else if t is Reference || t is MutReference || steps[0] is Deref {
        true
    } else {
        match step_type(cx, t, steps[0]) {
            Some(next) => through_reference(cx, next, steps.skip(1)),
            None => false,
        }
    }
}

/// The rule that bans a move out of a place, if one does.
pub open spec fn ban(
    cx: Cx,
    envs: Seq<GenericMoveEnv>,
    place: PlaceV,
    root_ty: TypeV,
    place_ty: TypeV,
) -> Option<MoveViolationKind> {
    if is_copy(cx, envs, place_ty) {
        None
    } else if through_index(place.projections) {
        Some(MoveViolationKind::ArrayElementMove)
    } else if through_drop(cx, envs, root_ty, place.projections) {
        Some(MoveViolationKind::PartialMoveOfDropType)
    } else if through_reference(cx, root_ty, place.projections) {
        Some(MoveViolationKind::MoveOutOfReference)
    } else {
        None
    }
}

/// Why using `place` is wrong after the recorded move.
pub open spec fn kind_of_use(place: PlaceV, r: MoveRecordV) -> MoveViolationKind {
    if r.moved_type == "&var T"@ && r.cause != MoveCause::ByValueReceiver {
        MoveViolationKind::MovedMutReferenceWithoutReborrow
    } else if place.projections.len() == 0 && r.place.projections.len() != 0 {
        MoveViolationKind::PartialMoveUsedAsWhole
    } else {
        MoveViolationKind::UseAfterMove
    }
}

/// The violation of using a place after a recorded move.
pub open spec fn use_violation(place: PlaceV, r: MoveRecordV, span: SpanV) -> MoveViolationV {
    MoveViolationV {
        binding: place.root,
        use_place: place,
        moved_place: r.place,
        kind: kind_of_use(place, r),
        moved_by_value_receiver: r.cause == MoveCause::ByValueReceiver,
        moved_type: r.moved_type,
        moved_in_previous_iteration: r.from_previous_iteration,
        use_span: span,
        moved_span: r.moved_span,
    }
}

/// The violation of moving out of a place that may not be moved out of.
pub open spec fn ban_violation(
    place: PlaceV,
    span: SpanV,
    moved_type: Seq<char>,
    kind: MoveViolationKind,
) -> MoveViolationV {
    MoveViolationV {
        binding: place.root,
        use_place: place,
        moved_place: place,
        kind,
        moved_by_value_receiver: false,
        moved_type,
        moved_in_previous_iteration: false,
        use_span: span,
        moved_span: SpanV {
            start: 0,
            end: 0,
            filename: "<place:"@ + place.root + ">"@,
            line: 0,
            col: 0,
        },
    }
}

/// The walk after a place was used as a whole: a violation where part of it, or what it is part
/// of, has moved.
pub open spec fn whole_use(place: PlaceV, span: SpanV, w: WorldV) -> WorldV {
    match move_touching(moves_of(w.flow, place.root), place) {
        Some(r) => WorldV { report: with_violation(w.report, use_violation(place, r, span)), ..w },
        None => w,
    }
}

/// Whether a place, or what it is part of, has moved.
pub open spec fn gone(place: PlaceV, w: WorldV) -> bool {
    move_above(moves_of(w.flow, place.root), place) is Some
}

/// The walk after a place was used as the base of a longer one.
pub open spec fn base_use(place: PlaceV, span: SpanV, w: WorldV) -> WorldV {
    match move_above(moves_of(w.flow, place.root), place) {
        Some(r) => WorldV { report: with_violation(w.report, use_violation(place, r, span)), ..w },
        None => w,
    }
}

/// The type at a place, or the type of its root where the path leads nowhere.
pub open spec fn type_at(cx: Cx, place: PlaceV, root_ty: TypeV) -> TypeV {
    match path_type(cx, root_ty, place.projections) {
        Some(t) => t,
        None => root_ty,
    }
}

/// The place that a value is taken from: a method that takes its receiver by value takes it from
/// behind a reference, where the place holds one to a value that is not copied.
pub open spec fn source_place(
    cx: Cx,
    envs: Seq<GenericMoveEnv>,
    place: PlaceV,
    root_ty: TypeV,
    cause: MoveCause,
) -> PlaceV {
    let t = type_at(cx, place, root_ty);
    if cause == MoveCause::ByValueReceiver && (t is Reference || t is MutReference) && !is_copy(
        cx,
        envs,
        peeled(t),
    ) {
        projected(place, ProjectionV::Deref)
    } else {
        place
    }
}

/// The walk after the value of a place was consumed.
pub open spec fn consume_place(
    cx: Cx,
    place: PlaceV,
    root_ty: TypeV,
    span: SpanV,
    cause: MoveCause,
    w: WorldV,
) -> WorldV {
    let place_ty = type_at(cx, place, root_ty);
    if w.flow.borrowed.contains(place.root) && !is_copy(cx, w.envs, place_ty) {
        WorldV {
            report: with_violation(
                w.report,
                ban_violation(
                    place,
                    span,
                    bucket(place_ty),
                    MoveViolationKind::BorrowedArrayElementMove,
                ),
            ),
            ..w
        }
    } else {
        match ban(cx, w.envs, place, root_ty, place_ty) {
            Some(kind) => WorldV {
                report: with_violation(
                    w.report,
                    ban_violation(place, span, bucket(place_ty), kind),
                ),
                ..w
            },
            None => {
                let used = whole_use(place, span, w);
                if is_copy(cx, w.envs, place_ty) {
                    used
                } else {
                    on_flow(used, record_move(used.flow, place, span, cause, bucket(place_ty)))
                }
            },
        }
    }
}

/// The walk after a write to an assignment target.
pub open spec fn written(target: TypedPlace, w: WorldV) -> WorldV {
    match target_place(target) {
        Some(place) => on_flow(w, reinitialized(w.flow, place)),
        None => w,
    }
}

/// The type of the binding that a place expression starts from.
pub open spec fn root_type(e: TypedExpr) -> Option<Type>
    decreases e,
{
    match e {
        TypedExpr::Ident(_, ty, _) => Some(ty),
        TypedExpr::FieldAccess { object, .. } => root_type(*object),
        TypedExpr::TupleAccess { object, .. } => root_type(*object),
        TypedExpr::Index { object, .. } => root_type(*object),
        _ => None,
    }
}

/// The type of the binding that a place expression starts from, or the expression's own type.
pub open spec fn root_type_or_own(e: TypedExpr) -> TypeV {
    match root_type(e) {
        Some(t) => t@,
        None => ty_of(e)@,
    }
}

/// The symbolic method that a call on the type means.
pub open spec fn symbolic_callee(
    cx: Cx,
    envs: Seq<GenericMoveEnv>,
    t: TypeV,
    method: Seq<char>,
) -> Option<(crate::registry::AspectInfo, crate::ast::AspectMethod, Seq<char>)> {
    if envs.len() == 0 {
        None
    } else {
        match peeled(t) {
            TypeV::Named(name, args) => if args.len() == 0 {
                match symbolic_method(cx.reg, envs.last(), name, method) {
                    Some(hit) => Some((hit.0, hit.1, name)),
                    None => None,
                }
            } else {
                None
            },
            _ => None,
        }
    }
}

/// How a method takes a receiver of the type.
pub open spec fn receiver_kind(
    cx: Cx,
    envs: Seq<GenericMoveEnv>,
    t: TypeV,
    method: Seq<char>,
) -> Option<ReceiverKind> {
    match symbolic_callee(cx, envs, t, method) {
        Some(hit) => if hit.1.params@.len() == 0 {
            None
        } else {
            hit.1.params@[0].receiver
        },
        None => match peeled(t) {
            TypeV::Array(_) => match array_method_of(cx.reg, method) {
                Some(e) => e.receiver,
                None => None,
            },
            TypeV::Named(name, _) => match method_of(cx.reg, name, method) {
                Some(e) => e.receiver,
                None => None,
            },
            other => match primitive_name(other) {
                Some(name) => match method_of(cx.reg, name, method) {
                    Some(e) => e.receiver,
                    None => None,
                },
                None => None,
            },
        },
    }
}

/// The parameter types of a method of the type, without its receiver.
pub open spec fn method_params(
    cx: Cx,
    envs: Seq<GenericMoveEnv>,
    t: TypeV,
    method: Seq<char>,
) -> Option<Seq<TypeV>> {
    match symbolic_callee(cx, envs, t, method) {
        Some(hit) => symbolic_arg_types(hit.0, hit.1, hit.2),
        None => match peeled(t) {
            TypeV::Array(_) => match array_method_of(cx.reg, method) {
                Some(e) => arg_types(e.ty@),
                None => None,
            },
            TypeV::Named(name, _) => match method_type_of(cx.reg, name, method) {
                Some(t) => arg_types(t),
                None => None,
            },
            other => match primitive_name(other) {
                Some(name) => match method_type_of(cx.reg, name, method) {
                    Some(t) => arg_types(t),
                    None => None,
                },
                None => None,
            },
        },
    }
}

/// The parameter types of a function type.
pub open spec fn function_params(t: TypeV) -> Option<Seq<TypeV>> {
    match t {
        TypeV::Fun(params, _) => Some(params),
        _ => None,
    }
}

/// Whether the `i`-th argument is passed on as a reborrow: a `&var` for a `&var`.
pub open spec fn reborrows(arg: TypedExpr, params: Option<Seq<TypeV>>, i: int) -> bool {
    match params {
        Some(types) => 0 <= i < types.len() && ty_of(arg)@ is MutReference
            && types[i] is MutReference,
        None => false,
    }
}

/// The walk after the fields of a record pattern were bound: each takes its part of the place.
pub open spec fn bind_fields(
    cx: Cx,
    fields: Seq<Seq<char>>,
    place: PlaceV,
    root_ty: TypeV,
    span: SpanV,
    w: WorldV,
) -> WorldV
    decreases fields.len(),
{
    if fields.len() == 0 {
        w
    } else {
        let before = bind_fields(cx, fields.drop_last(), place, root_ty, span, w);
        let taken = consume_place(
            cx,
            projected(place, ProjectionV::Field(fields.last())),
            root_ty,
            span,
            MoveCause::Other,
            before,
        );
        on_flow(taken, bind(taken.flow, fields.last()))
    }
}

/// The walk after a pattern took its parts out of a place.
pub open spec fn take_pattern(
    cx: Cx,
    p: Pattern,
    place: PlaceV,
    root_ty: TypeV,
    span: SpanV,
    w: WorldV,
) -> WorldV
    decreases p,
{
    match p {
        Pattern::Wildcard(_) => w,
        Pattern::Literal(_, _) => w,
        Pattern::Binding(name, _) => {
            let taken = consume_place(cx, place, root_ty, span, MoveCause::Other, w);
            on_flow(taken, bind(taken.flow, name@))
        },
        Pattern::Tuple(items, _) => take_items(cx, items@, place, root_ty, span, false, w),
        Pattern::Record { fields, .. } => bind_fields(cx, texts(fields@), place, root_ty, span, w),
        Pattern::Struct { fields, .. } => bind_fields(cx, texts(fields@), place, root_ty, span, w),
        Pattern::EnumVariant { path, fields, .. } => if fields@.len() == 0 {
            w
        } else {
            let source = variant_place(
                cx,
                w.envs,
                place,
                root_ty,
                texts(path@),
                texts(fields@),
            );
            let taken = consume_place(cx, source, root_ty, span, MoveCause::Other, w);
            on_flow(taken, bind_all(taken.flow, texts(fields@)))
        },
        Pattern::Array { elems, rest, .. } => {
            let taken = take_items(cx, elems@, place, root_ty, span, true, w);
            match rest {
                Some(name) => on_flow(taken, bind(taken.flow, name@)),
                None => taken,
            }
        },
    }
}

/// The walk after the patterns of a tuple or an array took their elements.
pub open spec fn take_items(
    cx: Cx,
    s: Seq<Pattern>,
    place: PlaceV,
    root_ty: TypeV,
    span: SpanV,
    array: bool,
    w: WorldV,
) -> WorldV
    decreases s,
{
    if s.len() == 0 {
        w
    } else {
        let i = s.len() - 1;
        let before = take_items(cx, s.subrange(0, i), place, root_ty, span, array, w);
        let step = if array {
            ProjectionV::OpaqueIndex
        } else {
            ProjectionV::TupleIndex(i as usize)
        };
        take_pattern(cx, s[i], projected(place, step), root_ty, span, before)
    }
}

/// The walk after a pattern was matched against a value.
pub open spec fn match_pattern(cx: Cx, p: Pattern, scrutinee: TypedExpr, w: WorldV) -> WorldV {
    match expr_place(scrutinee) {
        Some(place) => take_pattern(
            cx,
            p,
            place,
            root_type_or_own(scrutinee),
            span_of(scrutinee)@,
            w,
        ),
        None => on_flow(w, bind_all(w.flow, pattern_names(p))),
    }
}

/// The walk after a closure took its captures: each captured binding whose type is known moves
/// into the closure.
pub open spec fn take_captures(cx: Cx, captures: Seq<CapturedV>, span: SpanV, w: WorldV) -> WorldV
    decreases captures.len(),
{
    if captures.len() == 0 {
        w
    } else {
        let before = take_captures(cx, captures.drop_last(), span, w);
        let capture = captures.last();
        let ty = match capture.ty {
            Some(t) => Some(t),
            None => if before.flow.binding_types.dom().contains(capture.name) {
                Some(before.flow.binding_types[capture.name])
            } else {
                None
            },
        };
        match ty {
            Some(t) => consume_place(
                Cx { module: Seq::empty(), ..cx },
                PlaceV { root: capture.name, projections: Seq::empty() },
                t,
                span,
                MoveCause::Other,
                before,
            ),
            None => before,
        }
    }
}

/// The names of captures.
pub open spec fn capture_names(s: Seq<CapturedV>) -> Seq<Seq<char>> {
    Seq::new(s.len(), |i: int| s[i].name)
}

/// The flow at the start of a closure body.
pub open spec fn closure_flow(body: TypedBlock) -> FlowV {
    bind_all(push_scope(empty_flow()), capture_names(free_roots(body, Set::empty())))
}

/// Parameters bound with their types by position, the first `n` of them.
pub open spec fn bind_params(f: FlowV, params: Seq<Param>, types: Seq<TypeV>, n: int) -> FlowV
    decreases n,
{
    if n <= 0 || n > params.len() || n > types.len() {
        f
    } else {
        bind_typed(bind_params(f, params, types, n - 1), params[n - 1].name@, types[n - 1])
    }
}

/// How many parameters have a type.
pub open spec fn params_len(params: Seq<Param>, types: Seq<TypeV>) -> int {
    if params.len() <= types.len() {
        params.len() as int
    } else {
        types.len() as int
    }
}

/// The walk on its way into a loop body.
pub open spec fn pass_start(entry: FlowV, w: WorldV) -> WorldV {
    WorldV {
        back_edges: w.back_edges.push(empty_flow()),
        exits: w.exits.push(
            LoopExitV { reached: false, state: empty_flow(), depth: entry.scopes.len() },
        ),
        flow: FlowV { diverged: false, ..entry },
        ..w
    }
}

/// What reaches the back edge after a pass: every `continue`, and the end of the body where the
/// path falls through it.
pub open spec fn back_edge(w: WorldV) -> FlowV {
    let continued = if w.back_edges.len() == 0 {
        empty_flow()
    } else {
        w.back_edges.last()
    };
    if w.flow.diverged {
        continued
    } else {
        union(continued, w.flow)
    }
}

/// The entry state of a loop once the back edge is folded into it.
pub open spec fn widened(entry: FlowV, w: WorldV) -> FlowV {
    union(entry, back_edge(w))
}

/// Whether a pass saw everything that a further pass would see.
pub open spec fn settled(entry: FlowV, w: WorldV) -> bool {
    fingerprint(widened(entry, w).moved) == fingerprint(entry.moved)
}

/// The flow after a loop: as before it, out of the bottom of the body where it is reached, and
/// through every `break`. Out of a loop that only `break` leaves there is no other way, and it
/// diverges where no `break` is reached.
pub open spec fn after_loop(before: FlowV, w: WorldV, exits_without_break: bool) -> FlowV {
    let exit = if w.exits.len() == 0 {
        LoopExitV { reached: false, state: empty_flow(), depth: 0 }
    } else {
        w.exits.last()
    };
    let fallen = if w.flow.diverged {
        before
    } else {
        union(before, w.flow)
    };
    if exits_without_break {
        union(fallen, exit.state)
    } else if exit.reached {
        FlowV { moved: along(before, exit.state).moved, ..before }
    } else {
        FlowV { diverged: true, ..fallen }
    }
}

/// The walk after the last pass of a loop.
pub open spec fn pass_end(before: FlowV, w: WorldV, exits_without_break: bool) -> WorldV {
    WorldV {
        back_edges: popped(w.back_edges),
        exits: popped(w.exits),
        flow: after_loop(before, w, exits_without_break),
        ..w
    }
}

/// The walk before a further pass of a loop: what the last one reported is dropped.
pub open spec fn pass_again(
    before: FlowV,
    mark: (nat, usize, usize, nat),
    w: WorldV,
) -> WorldV {
    WorldV {
        report: rewound(w.report, mark),
        back_edges: popped(w.back_edges),
        exits: popped(w.exits),
        flow: before,
        ..w
    }
}

/// How many times a loop body may be walked while its entry state grows.
///
/// Widening is monotone, so a body settles in one extra pass unless moves
/// cascade through several bindings. Stopping at the cap can only lose a
/// violation the next pass would have found, never invent one.
pub const MAX_LOOP_PASSES: usize = 8;

/// The walk after a loop whose body is walked by `step`: the body is walked until the state
/// entering it stops growing, and only the last pass reports.
pub open spec fn loop_passes(
    step: spec_fn(WorldV) -> WorldV,
    exits_without_break: bool,
    entry: FlowV,
    n: nat,
    w: WorldV,
) -> WorldV
    decreases n,
{
    let after = step(pass_start(entry, w));
    if n <= 1 || settled(entry, after) {
        pass_end(w.flow, after, exits_without_break)
    } else {
        loop_passes(
            step,
            exits_without_break,
            carried(widened(entry, after), entry),
            (n - 1) as nat,
            pass_again(w.flow, mark_of(w.report), after),
        )
    }
}

/// The walk after a loop, from the state before it.
pub open spec fn walk_loop(
    step: spec_fn(WorldV) -> WorldV,
    exits_without_break: bool,
    w: WorldV,
) -> WorldV {
    loop_passes(step, exits_without_break, w.flow, MAX_LOOP_PASSES as nat, w)
}

/// A loop is walked the same by two descriptions of its body that agree everywhere.
pub broadcast proof fn lemma_walk_loop_congruent(
    one: spec_fn(WorldV) -> WorldV,
    other: spec_fn(WorldV) -> WorldV,
    exits_without_break: bool,
    w: WorldV,
)
    requires
        forall|v: WorldV| #[trigger] one(v) == other(v),
    ensures
        #[trigger] walk_loop(one, exits_without_break, w) == #[trigger] walk_loop(
            other,
            exits_without_break,
            w,
        ),
{
    assert(one =~= other);
}

/// The walk after a block.
pub open spec fn walk_block(cx: Cx, b: TypedBlock, w: WorldV) -> WorldV
    decreases b, 0int,
{
    let w1 = walk_decls(cx, b.stmts@, on_flow(w, push_scope(w.flow)));
    let w2 = match b.tail {
        Some(e) => consume(cx, *e, MoveCause::Other, w1),
        None => w1,
    };
    on_flow(w2, pop_scope(w2.flow))
}

/// The walk after declarations, one after the other.
pub open spec fn walk_decls(cx: Cx, s: Seq<TypedDecl>, w: WorldV) -> WorldV
    decreases s, 0int,
{
    if s.len() == 0 {
        w
    } else {
        walk_decl(cx, s[s.len() - 1], walk_decls(cx, s.subrange(0, s.len() - 1), w))
    }
}

/// The walk after a declaration.
pub open spec fn walk_decl(cx: Cx, d: TypedDecl, w: WorldV) -> WorldV
    decreases d, 0int,
{
    match d {
        TypedDecl::Let(decl) => {
            let w1 = consume(cx, decl.value, MoveCause::Other, w);
            on_flow(w1, bind_typed(w1.flow, decl.name@, ty_of(decl.value)@))
        },
        TypedDecl::Mut(decl) => {
            let w1 = consume(cx, decl.value, MoveCause::Other, w);
            on_flow(w1, bind_typed(w1.flow, decl.name@, ty_of(decl.value)@))
        },
        TypedDecl::Fun(fun) => walk_fun(cx, fun, on_flow(w, bind(w.flow, fun.name@))),
        TypedDecl::Stmt(stmt) => walk_stmt(cx, *stmt, w),
        TypedDecl::Impl(ib) => walk_funs(cx, ib.methods@, w),
        TypedDecl::Struct(_) => w,
        TypedDecl::Enum(_) => w,
        TypedDecl::Aspect(_) => w,
    }
}

/// The walk after the bodies of methods, one after the other.
pub open spec fn walk_funs(cx: Cx, s: Seq<TypedFunDecl>, w: WorldV) -> WorldV
    decreases s, 0int,
{
    if s.len() == 0 {
        w
    } else {
        walk_fun(cx, s[s.len() - 1], walk_funs(cx, s.subrange(0, s.len() - 1), w))
    }
}

/// The walk after the body of a function, which starts from a flow of its own.
pub open spec fn walk_fun(cx: Cx, fun: TypedFunDecl, w: WorldV) -> WorldV
    decreases fun, 0int,
{
    match fun.body {
        FunBody::Typed(body) => on_flow(
            walk_block(
                cx,
                body,
                on_flow(w, bind_all(push_scope(empty_flow()), param_names(fun.params@))),
            ),
            w.flow,
        ),
        FunBody::Generic(body) => walk_generic(cx, body, fun.params@, fun.span@, w),
        FunBody::Native(_) => w,
    }
}

/// The walk after a generic body, which is walked in its symbolic form or else passed over.
pub open spec fn walk_generic(
    cx: Cx,
    body: GenericBody,
    params: Seq<Param>,
    span: SpanV,
    w: WorldV,
) -> WorldV
    decreases body, 0int,
{
    match body.symbolic {
        None => WorldV {
            report: with_skipped(w.report, span, "type context was unavailable"@),
            ..w
        },
        Some(symbolic) => match *symbolic {
            SymbolicBody::Unavailable { reason } => WorldV {
                report: with_skipped(w.report, span, reason@),
                ..w
            },
            SymbolicBody::Elaborated { body: typed, env } => {
                let types = types_view(env.arg_types@);
                let w1 = walk_block(
                    cx,
                    typed,
                    WorldV {
                        envs: w.envs.push(env),
                        flow: bind_params(
                            push_scope(empty_flow()),
                            params,
                            types,
                            params_len(params, types),
                        ),
                        ..w
                    },
                );
                WorldV { envs: popped(w1.envs), flow: w.flow, ..w1 }
            },
        },
    }
}

/// The walk after a statement.
pub open spec fn walk_stmt(cx: Cx, s: TypedStmt, w: WorldV) -> WorldV
    decreases s, 0int,
{
    match s {
        TypedStmt::Expr(e) => observe(cx, e, w),
        TypedStmt::While(stmt) => walk_loop(|v: WorldV| while_step(cx, stmt, v), true, w),
        TypedStmt::For(stmt) => {
            let w1 = on_flow(w, push_scope(w.flow));
            let w2 = match stmt.init {
                Some(init) => walk_init(cx, init, w1),
                None => w1,
            };
            let w3 = walk_loop(|v: WorldV| for_step(cx, *stmt, v), true, w2);
            on_flow(w3, pop_scope(w3.flow))
        },
        TypedStmt::ForIn(stmt) => walk_loop(
            |v: WorldV| for_in_step(cx, *stmt, v),
            true,
            observe(cx, stmt.iterable, w),
        ),
    }
}

/// The walk once control goes back to the head of the innermost loop, as `continue` makes it do.
pub open spec fn reach_back_edge(w: WorldV) -> WorldV {
    diverging(
        if w.back_edges.len() == 0 {
            w
        } else {
            WorldV {
                back_edges: w.back_edges.drop_last().push(union(w.back_edges.last(), w.flow)),
                ..w
            }
        },
    )
}

/// The exit of a loop once control leaves it with a flow, as known outside the loop.
pub open spec fn left_with(exit: LoopExitV, flow: FlowV) -> LoopExitV {
    let f = outer(flow, exit.depth);
    LoopExitV {
        reached: true,
        state: if exit.reached {
            FlowV {
                in_sight: exit.state.in_sight.intersect(f.in_sight),
                ..union(exit.state, f)
            }
        } else {
            f
        },
        ..exit
    }
}

/// The walk once control leaves the innermost loop, as `break` makes it do.
pub open spec fn reach_exit(w: WorldV) -> WorldV {
    diverging(
        if w.exits.len() == 0 {
            w
        } else {
            WorldV {
                exits: w.exits.drop_last().push(left_with(w.exits.last(), w.flow)),
                ..w
            }
        },
    )
}

/// The flow in which nothing has moved.
pub open spec fn unmoved(f: FlowV) -> FlowV {
    FlowV { moved: Map::empty(), ..f }
}

/// The flow joined with that of a branch, which contributes nothing where it diverged.
pub open spec fn joined_with(f: FlowV, before: FlowV, branch: FlowV) -> FlowV {
    if branch.diverged {
        f
    } else {
        union(f, along(before, branch))
    }
}

/// The walk after an `if` without `else`, from the flow before its branch and the walk after it.
/// The false path always falls through.
pub open spec fn join_single_branch(before: FlowV, taken: WorldV) -> WorldV {
    on_flow(taken, joined_with(before, before, taken.flow))
}

/// The flow behind branches of which one is taken: what has moved at the end of one that falls
/// through, where one does.
pub open spec fn behind(before: FlowV, joined: FlowV, falls: bool) -> FlowV {
    FlowV {
        moved: if falls {
            joined.moved
        } else {
            before.moved
        },
        ..before
    }
}

/// The walk after an `if` with both branches: it diverts control only where both do.
pub open spec fn join_branches(before: FlowV, taken: WorldV, other: WorldV) -> WorldV {
    let falls = !taken.flow.diverged || !other.flow.diverged;
    let joined = joined_with(
        joined_with(unmoved(before), before, taken.flow),
        before,
        other.flow,
    );
    on_flow(
        other,
        FlowV { diverged: before.diverged || !falls, ..behind(before, joined, falls) },
    )
}

/// The walk after a `match`, from the flow before its arms and the fold over them. A match
/// without arms cannot be entered, and diverts nothing.
pub open spec fn after_match(before: FlowV, arms: ArmsV, is_empty: bool) -> WorldV {
    on_flow(
        arms.world,
        FlowV {
            diverged: before.diverged || (!is_empty && !arms.falls),
            ..behind(before, arms.joined, arms.falls)
        },
    )
}

/// The walk after one iteration of a `while`.
pub open spec fn while_step(cx: Cx, stmt: TypedWhileStmt, v: WorldV) -> WorldV
    decreases stmt, 0int,
{
    walk_block(cx, stmt.body, observe(cx, stmt.condition, v))
}

/// The walk after one iteration of a counted loop.
pub open spec fn for_step(cx: Cx, stmt: TypedForStmt, v: WorldV) -> WorldV
    decreases stmt, 0int,
{
    let v1 = match stmt.condition {
        Some(e) => observe(cx, e, v),
        None => v,
    };
    let v2 = walk_block(cx, stmt.body, v1);
    match stmt.step {
        Some(e) => observe(cx, e, v2),
        None => v2,
    }
}

/// The walk after one iteration over the elements of an iterable.
pub open spec fn for_in_step(cx: Cx, stmt: TypedForInStmt, v: WorldV) -> WorldV
    decreases stmt, 0int,
{
    let v1 = walk_block(
        cx,
        stmt.body,
        on_flow(v, bind_element(push_scope(v.flow), stmt.binding@, ty_of(stmt.iterable)@)),
    );
    on_flow(v1, pop_scope(v1.flow))
}

/// The flow once a loop variable is bound: to a borrowed element of an array view, to an element
/// of a fixed-size array, or to a value of another iterable.
pub open spec fn bind_element(f: FlowV, name: Seq<char>, iterable: TypeV) -> FlowV {
    match peeled(iterable) {
        TypeV::Array(item) => bind_borrowed(f, name, *item),
        TypeV::SizedArray(item, _) => bind_typed(f, name, *item),
        _ => bind(f, name),
    }
}

/// The walk after the start of a counted loop.
pub open spec fn walk_init(cx: Cx, i: TypedForInit, w: WorldV) -> WorldV
    decreases i, 0int,
{
    match i {
        TypedForInit::Let(decl) => {
            let w1 = consume(cx, decl.value, MoveCause::Other, w);
            on_flow(w1, bind_typed(w1.flow, decl.name@, ty_of(decl.value)@))
        },
        TypedForInit::Mut(decl) => {
            let w1 = consume(cx, decl.value, MoveCause::Other, w);
            on_flow(w1, bind_typed(w1.flow, decl.name@, ty_of(decl.value)@))
        },
        TypedForInit::Expr(e) => observe(cx, e, w),
    }
}

/// The walk after expressions were observed, one after the other.
pub open spec fn observe_all(cx: Cx, s: Seq<TypedExpr>, w: WorldV) -> WorldV
    decreases s, 0int,
{
    if s.len() == 0 {
        w
    } else {
        observe(cx, s[s.len() - 1], observe_all(cx, s.subrange(0, s.len() - 1), w))
    }
}

/// The walk after expressions were consumed, one after the other.
pub open spec fn consume_all(cx: Cx, s: Seq<TypedExpr>, cause: MoveCause, w: WorldV) -> WorldV
    decreases s, 0int,
{
    if s.len() == 0 {
        w
    } else {
        consume(cx, s[s.len() - 1], cause, consume_all(cx, s.subrange(0, s.len() - 1), cause, w))
    }
}

/// The walk after field values were consumed, one after the other.
pub open spec fn consume_fields(cx: Cx, s: Seq<(String, TypedExpr)>, w: WorldV) -> WorldV
    decreases s, 0int,
{
    if s.len() == 0 {
        w
    } else {
        consume(
            cx,
            s[s.len() - 1].1,
            MoveCause::Other,
            consume_fields(cx, s.subrange(0, s.len() - 1), w),
        )
    }
}

/// The walk after the arguments of a call: a reborrowed argument is only read.
pub open spec fn walk_args(
    cx: Cx,
    s: Seq<TypedExpr>,
    params: Option<Seq<TypeV>>,
    w: WorldV,
) -> WorldV
    decreases s, 0int,
{
    if s.len() == 0 {
        w
    } else {
        let i = s.len() - 1;
        let before = walk_args(cx, s.subrange(0, i), params, w);
        if reborrows(s[i], params, i) {
            observe(cx, s[i], before)
        } else {
            consume(cx, s[i], MoveCause::Other, before)
        }
    }
}

/// The state after some arms of a match: the walk, the flow joined from the arms that fall out of
/// the match, and whether one of them does.
pub ghost struct ArmsV {
    pub world: WorldV,
    pub joined: FlowV,
    pub falls: bool,
}

/// The walk after the arms of a match, each from the flow before the match.
pub open spec fn walk_arms(
    cx: Cx,
    scrutinee: TypedExpr,
    s: Seq<TypedMatchArm>,
    start: ArmsV,
) -> ArmsV
    decreases s, 0int,
{
    if s.len() == 0 {
        start
    } else {
        let before = walk_arms(cx, scrutinee, s.subrange(0, s.len() - 1), start);
        let w = before.world;
        let w1 = walk_arm(cx, scrutinee, s[s.len() - 1], w);
        ArmsV {
            world: on_flow(w1, w.flow),
            joined: joined_with(before.joined, w.flow, w1.flow),
            falls: before.falls || !w1.flow.diverged,
        }
    }
}

/// The walk after one arm of a match.
pub open spec fn walk_arm(cx: Cx, scrutinee: TypedExpr, arm: TypedMatchArm, w: WorldV) -> WorldV
    decreases arm, 0int,
{
    let w1 = match_pattern(cx, arm.pattern, scrutinee, on_flow(w, push_scope(w.flow)));
    let w2 = match arm.guard {
        Some(e) => observe(cx, e, w1),
        None => w1,
    };
    let w3 = walk_block(cx, arm.body, w2);
    on_flow(w3, pop_scope(w3.flow))
}

/// The walk after an expression was observed: its value is read, not moved.
pub open spec fn observe(cx: Cx, e: TypedExpr, w: WorldV) -> WorldV
    decreases e, 1int,
{
    let w0 = match expr_place(e) {
        Some(place) => whole_use(place, span_of(e)@, w),
        None => w,
    };
    observe_within(cx, e, w0)
}

/// The walk after what an expression itself does, once the place it names was looked at.
pub open spec fn observe_within(cx: Cx, e: TypedExpr, w0: WorldV) -> WorldV
    decreases e, 0int,
{
    match e {
        TypedExpr::Literal(_, _, _) => w0,
        TypedExpr::Ident(_, _, _) => w0,
        TypedExpr::Path(_, _, _) => w0,
        TypedExpr::Continue(_) => reach_back_edge(w0),
        TypedExpr::Tuple(items, _, _) => observe_all(cx, items@, w0),
        TypedExpr::Array(items, _, _) => observe_all(cx, items@, w0),
        TypedExpr::RecordLiteral { fields, .. } => consume_fields(cx, fields@, w0),
        TypedExpr::StructLiteral { fields, .. } => consume_fields(cx, fields@, w0),
        TypedExpr::RepeatArray(value, _, _, _) => consume(cx, *value, MoveCause::Other, w0),
        TypedExpr::BinOp(left, _, right, _, _) => observe(cx, *right, observe(cx, *left, w0)),
        TypedExpr::UnaryOp(_, inner, _, _) => observe(cx, *inner, w0),
        TypedExpr::RefTemp { init, .. } => consume(cx, *init, MoveCause::Other, w0),
        TypedExpr::Assign { target, value, .. } => written(
            target,
            consume(cx, *value, MoveCause::Other, observe_target(cx, target, w0)),
        ),
        TypedExpr::Call { callee, args, .. } => walk_args(
            cx,
            args@,
            function_params(ty_of(*callee)@),
            observe(cx, *callee, w0),
        ),
        TypedExpr::MethodCall { receiver, method, args, .. } => {
            let w1 = if receiver_kind(cx, w0.envs, ty_of(*receiver)@, method@) == Some(
                ReceiverKind::Value,
            ) {
                consume(cx, *receiver, MoveCause::ByValueReceiver, w0)
            } else {
                observe(cx, *receiver, w0)
            };
            walk_args(cx, args@, method_params(cx, w1.envs, ty_of(*receiver)@, method@), w1)
        },
        TypedExpr::FieldAccess { object, .. } => observe_base(cx, *object, w0),
        TypedExpr::TupleAccess { object, .. } => observe_base(cx, *object, w0),
        TypedExpr::Index { object, index, .. } => observe(cx, *index, observe_base(cx, *object, w0)),
        TypedExpr::Cast { expr, .. } => observe(cx, *expr, w0),
        TypedExpr::SingletonCoerce { inner, .. } => observe(cx, *inner, w0),
        TypedExpr::Match(m) => {
            let w1 = observe(cx, *m.scrutinee, w0);
            let arms = walk_arms(
                cx,
                *m.scrutinee,
                m.arms@,
                ArmsV { world: w1, joined: unmoved(w1.flow), falls: false },
            );
            after_match(w1.flow, arms, m.arms@.len() == 0)
        },
        TypedExpr::If { condition, then_branch, else_branch, .. } => {
            let w1 = observe(cx, *condition, w0);
            let w2 = walk_block(cx, then_branch, w1);
            match else_branch {
                Some(b) => join_branches(w1.flow, w2, walk_block(cx, b, on_flow(w2, w1.flow))),
                None => join_single_branch(w1.flow, w2),
            }
        },
        TypedExpr::Loop { body, .. } => walk_loop(
            |v: WorldV| walk_block(cx, body, v),
            false,
            w0,
        ),
        TypedExpr::Closure { params, body, span, .. } => {
            let w1 = take_captures(
                cx,
                free_roots(body, param_names(params@).to_set()),
                span@,
                w0,
            );
            on_flow(
                walk_block(
                    cx,
                    body,
                    on_flow(w1, bind_all(closure_flow(body), param_names(params@))),
                ),
                w1.flow,
            )
        },
        TypedExpr::GenericClosure { name, params, body, span, .. } => match name {
            None => WorldV {
                report: with_skipped(
                    w0.report,
                    span@,
                    "anonymous generic closure has no type scheme lookup key"@,
                ),
                ..w0
            },
            Some(_) => walk_generic_closure(cx, body, params@, span@, w0),
        },
        TypedExpr::Return(r) => diverging(
            match r.value {
                Some(v) => consume(cx, *v, MoveCause::Other, w0),
                None => w0,
            },
        ),
        TypedExpr::Break(b) => {
            let w1 = match b.value {
                Some(v) => consume(cx, *v, MoveCause::Other, w0),
                None => w0,
            };
            reach_exit(w1)
        },
    }
}

/// The walk after a generic closure: its captures move into it, and its body is walked in its
/// symbolic form.
pub open spec fn walk_generic_closure(
    cx: Cx,
    body: GenericBody,
    params: Seq<Param>,
    span: SpanV,
    w: WorldV,
) -> WorldV
    decreases body, 0int,
{
    match body.symbolic {
        None => WorldV {
            report: with_skipped(w.report, span, "type context was unavailable"@),
            ..w
        },
        Some(symbolic) => match *symbolic {
            SymbolicBody::Unavailable { reason } => WorldV {
                report: with_skipped(w.report, span, reason@),
                ..w
            },
            SymbolicBody::Elaborated { body: typed, env } => {
                let types = types_view(env.arg_types@);
                let w1 = take_captures(
                    cx,
                    free_roots(typed, param_names(params).to_set()),
                    span,
                    w,
                );
                let w2 = walk_block(
                    cx,
                    typed,
                    WorldV {
                        envs: w1.envs.push(env),
                        flow: bind_params(
                            closure_flow(typed),
                            params,
                            types,
                            params_len(params, types),
                        ),
                        ..w1
                    },
                );
                WorldV { envs: popped(w2.envs), flow: w1.flow, ..w2 }
            },
        },
    }
}

/// The walk after an expression was consumed: its value moves out of the place it names. A tuple
/// or array literal consumes its elements.
pub open spec fn consume(cx: Cx, e: TypedExpr, cause: MoveCause, w: WorldV) -> WorldV
    decreases e, 2int,
{
    match expr_place(e) {
        Some(place) => {
            let root_ty = if w.flow.binding_types.dom().contains(place.root) {
                w.flow.binding_types[place.root]
            } else {
                root_type_or_own(e)
            };
            let source = source_place(cx, w.envs, place, root_ty, cause);
            let w1 = consume_place(cx, source, root_ty, span_of(e)@, cause, w);
            match e {
                TypedExpr::Index { index, .. } => observe(cx, *index, w1),
                TypedExpr::FieldAccess { object, .. } => observe_base(cx, *object, w1),
                TypedExpr::TupleAccess { object, .. } => observe_base(cx, *object, w1),
                _ => w1,
            }
        },
        None => match e {
            TypedExpr::Tuple(items, _, _) => consume_all(cx, items@, cause, w),
            TypedExpr::Array(items, _, _) => consume_all(cx, items@, cause, w),
            _ => observe(cx, e, w),
        },
    }
}

/// The walk after the base of a longer place was observed: only a move of the base itself, or of
/// what it is part of, makes the longer place unusable.
pub open spec fn observe_base(cx: Cx, e: TypedExpr, w: WorldV) -> WorldV
    decreases e, 2int,
{
    match expr_place(e) {
        Some(place) => if gone(place, w) {
            base_use(place, span_of(e)@, w)
        } else {
            match e {
                TypedExpr::FieldAccess { object, .. } => observe_base(cx, *object, w),
                TypedExpr::TupleAccess { object, .. } => observe_base(cx, *object, w),
                TypedExpr::Index { object, index, .. } => observe(
                    cx,
                    *index,
                    observe_base(cx, *object, w),
                ),
                _ => w,
            }
        },
        None => observe(cx, e, w),
    }
}

/// Where an assignment target stands in the source.
pub open spec fn target_span(p: TypedPlace) -> SpanV {
    match p {
        TypedPlace::Ident(_, span) => span@,
        TypedPlace::Field { span, .. } => span@,
        TypedPlace::Tuple { span, .. } => span@,
        TypedPlace::Index { span, .. } => span@,
        TypedPlace::Deref { span, .. } => span@,
    }
}

/// The walk after what an assignment reads: everything below the last step of its target, but not
/// the target itself.
pub open spec fn observe_target(cx: Cx, p: TypedPlace, w: WorldV) -> WorldV
    decreases p, 0int,
{
    match p {
        TypedPlace::Ident(_, _) => w,
        TypedPlace::Deref { object, .. } => observe(cx, *object, w),
        TypedPlace::Field { object, .. } => observe_target_base(cx, *object, w),
        TypedPlace::Tuple { object, .. } => observe_target_base(cx, *object, w),
        TypedPlace::Index { object, index, .. } => observe(
            cx,
            *index,
            observe_target_base(cx, *object, w),
        ),
    }
}

/// The walk after the base of an assignment target was observed.
pub open spec fn observe_target_base(cx: Cx, p: TypedPlace, w: WorldV) -> WorldV
    decreases p, 0int,
{
    if target_place(p) is Some && gone(target_place(p)->0, w) {
        base_use(target_place(p)->0, target_span(p), w)
    } else {
        match p {
            TypedPlace::Ident(_, _) => w,
            TypedPlace::Deref { object, .. } => observe(cx, *object, w),
            TypedPlace::Field { object, .. } => observe_target_base(cx, *object, w),
            TypedPlace::Tuple { object, .. } => observe_target_base(cx, *object, w),
            TypedPlace::Index { object, index, .. } => observe(
                cx,
                *index,
                observe_target_base(cx, *object, w),
            ),
        }
    }
}

} // verus!
