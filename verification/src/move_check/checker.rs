//! The walk of the move checker over typed bodies.
use vstd::prelude::*;
use crate::ast::{Param, Pattern, ReceiverKind};
use crate::infer::{infer_to_type, type_to_infer, InferType, Substitution, TypeVar};
use crate::lookup::{find_field, find_variant};
use crate::names::{NameMap, NameSet};
use crate::place::{from_expr, from_typed_place, projections_view};
use crate::place::{target_place, Place, Projection};
use crate::registry::{first_where, lemma_first_where_skip, EnumInfo, FieldEntry, StructInfo};
use crate::registry::{TypeDefinitionRegistry, VariantInfo};
use crate::span::Span;
use crate::text::{has_text, joined3, same_text, texts};
use crate::typed_ast::{FunBody, GenericBody, GenericMoveEnv, SymbolicBody};
use crate::typed_ast::{TypedBlock, TypedDecl, TypedExpr, TypedForInStmt, TypedForInit, TypedForStmt};
use crate::typed_ast::{TypedFunDecl, TypedMatchArm, TypedPlace, TypedStmt};
use crate::typed_ast::TypedWhileStmt;
use crate::types::{named_types_view, peel_type_references, primitive_type_name, type_view};
use crate::types::{types_view, Type, TypeV};
use super::flow::{bind_all, empty_flow, moves_of, outer, push_scope, union};
use super::flow::{FlowState, FlowV, MoveCause, MoveRecord};
use super::free_roots::{captures_view, collect_free_roots_from_typed_block, free_roots};
use super::free_roots::{param_names, pattern_bindings, CapturedRoot};
use super::generics::{find_symbolic, find_symbolic_method, infer_method_arg_types, opt_types};
use super::generics::{symbolic_method_arg_types, type_to_infer_under_generic_env};
use super::report::{empty_report, type_bucket, MoveCheckReport, MoveViolation};
use super::report::{MoveViolationKind, ReportMark};
use super::walk::lemma_walk_loop_congruent;
use super::walk::{after_loop, back_edge, ban, bind_fields, bind_params};
use super::walk::{capture_names, closure_flow, consume, consume_all, consume_fields};
use super::walk::{consume_place, Cx, for_in_step, for_step, gone};
use super::walk::{holds, is_copy, is_drop, kind_of_use, loop_passes, match_pattern};
use super::walk::{method_params, observe, observe_all, observe_base, observe_target};
use super::walk::{observe_target_base, observe_within, params_len, pass_again, pass_end};
use super::walk::{pass_start, path_type, popped, reach_back_edge, reach_exit, reborrows};
use super::walk::{receiver_kind, record_field_type, root_type, settled, step_type};
use super::walk::{struct_field_type, symbolic_callee, take_captures, take_items, take_pattern};
use super::walk::{left_with, source_place, target_span, through_drop, through_index};
use super::walk::through_reference;
use super::walk::{field_moves, type_at, variant_field_type, variant_place, walk_arm, walk_arms};
use super::walk::walk_args;
use super::walk::{walk_block, walk_decl, walk_decls, walk_fun, walk_funs, walk_generic};
use super::walk::{walk_generic_closure, walk_init, walk_loop, walk_stmt, while_step, widened};
use super::walk::{zip_len, zipped, ArmsV, LoopExitV, WorldV, MAX_LOOP_PASSES};

verus! {

/// What the `break`s in one loop body contributed.
///
/// `reached` is not the same as `state` being non-empty: a `break` that moved
/// nothing still means the loop can be left, which is what decides whether a
/// `loop` hands control back at all.
pub struct LoopExit {
    pub reached: bool,
    pub state: FlowState,
    /// How many scopes were open where the loop began.
    pub depth: usize,
}

impl View for LoopExit {
    type V = LoopExitV;

    open spec fn view(&self) -> LoopExitV {
        LoopExitV { reached: self.reached, state: self.state@, depth: self.depth as nat }
    }
}

/// The state of a walk, but for the flow, which is handed from node to node.
pub struct Checker<'a> {
    pub registry: &'a TypeDefinitionRegistry,
    pub report: MoveCheckReport,
    pub generic_envs: Vec<&'a GenericMoveEnv>,
    /// One accumulator per enclosing loop body currently being walked, innermost
    /// last. A `continue` merges the state it reaches into the innermost one,
    /// because that state reaches the loop's back edge without falling out of
    /// the bottom of the body.
    pub loop_back_edges: Vec<FlowState>,
    /// The mirror of `loop_back_edges` for the way out: a `break` merges its
    /// state into the innermost one. Those moves are invisible to the next
    /// iteration but visible after the loop, so they are kept apart from the
    /// state that keeps flowing through the body.
    pub loop_exits: Vec<LoopExit>,
}

/// The generic environments of a walk.
pub open spec fn envs_view(s: Seq<&GenericMoveEnv>) -> Seq<GenericMoveEnv> {
    Seq::new(s.len(), |i: int| *s[i])
}

/// The back edges of a walk.
pub open spec fn flows_view(s: Seq<FlowState>) -> Seq<FlowV> {
    Seq::new(s.len(), |i: int| s[i]@)
}

/// The loop exits of a walk.
pub open spec fn exits_view(s: Seq<LoopExit>) -> Seq<LoopExitV> {
    Seq::new(s.len(), |i: int| s[i]@)
}

impl<'a> Checker<'a> {
    /// The walk that a checker and a flow stand for.
    pub open spec fn world(&self, flow: FlowV) -> WorldV {
        WorldV {
            report: self.report@,
            envs: envs_view(self.generic_envs@),
            back_edges: flows_view(self.loop_back_edges@),
            exits: exits_view(self.loop_exits@),
            flow,
        }
    }

    /// What the checker walks in.
    pub open spec fn cx(&self, module: &Vec<String>) -> Cx {
        Cx { reg: *self.registry, module: texts(module@) }
    }

    /// Every collected flow is well-formed.
    pub open spec fn wf(&self) -> bool {
        &&& forall|i: int| 0 <= i < self.loop_back_edges@.len() ==> (
        #[trigger] self.loop_back_edges@[i]).wf()
        &&& forall|i: int| 0 <= i < self.loop_exits@.len() ==> (
        #[trigger] self.loop_exits@[i]).state.wf()
    }

    /// The checker at its start.
    pub fn new(registry: &'a TypeDefinitionRegistry) -> (r: Self)
        ensures
            r.wf(),
            r.registry == registry,
            r.world(empty_flow()) == (WorldV {
                report: empty_report(),
                envs: Seq::empty(),
                back_edges: Seq::empty(),
                exits: Seq::empty(),
                flow: empty_flow(),
            }),
    {
        let r = Checker {
            registry,
            report: MoveCheckReport::empty(),
            generic_envs: Vec::new(),
            loop_back_edges: Vec::new(),
            loop_exits: Vec::new(),
        };
        proof {
            assert(envs_view(r.generic_envs@) =~= Seq::empty());
            assert(flows_view(r.loop_back_edges@) =~= Seq::empty());
            assert(exits_view(r.loop_exits@) =~= Seq::empty());
        }
        r
    }

    fn type_satisfies_aspect(&self, module: &Vec<String>, ty: &Type, aspect: &str) -> (r: bool)
        ensures
            r == holds(self.cx(module), envs_view(self.generic_envs@), ty@, aspect@),
    {
        assert(envs_view(self.generic_envs@).len() == self.generic_envs@.len());
        if self.generic_envs.len() == 0 {
            return self.registry.type_satisfies_aspect(module, ty, aspect);
        }
        let env: &GenericMoveEnv = self.generic_envs[self.generic_envs.len() - 1];
        assert(envs_view(self.generic_envs@).last() == *env);
        if let Type::Named(name, args) = peel_type_references(ty) {
            assert(types_view(args@).len() == args@.len());
            if args.len() == 0 {
                if let Some(entry) = find_symbolic(env, name.as_str()) {
                    if has_text(&entry.aspects, aspect) {
                        return true;
                    }
                }
            }
        }
        let infer_ty: InferType = type_to_infer_under_generic_env(ty, &env.placeholders);
        self.registry.infer_type_satisfies_aspect(module, &infer_ty, aspect, &env.assumptions)
    }

    fn is_copy(&self, module: &Vec<String>, ty: &Type) -> (r: bool)
        ensures
            r == is_copy(self.cx(module), envs_view(self.generic_envs@), ty@),
    {
        matches!(peel_type_references(ty), Type::Fun(_, _)) || self.type_satisfies_aspect(
            module,
            ty,
            "Copy",
        )
    }

    fn is_drop(&self, module: &Vec<String>, ty: &Type) -> (r: bool)
        ensures
            r == is_drop(self.cx(module), envs_view(self.generic_envs@), ty@),
    {
        self.type_satisfies_aspect(module, ty, "Drop")
    }

    fn find_record_field(fields: &Vec<(String, Type)>, name: &str) -> (r: Option<Type>)
        ensures
            match r {
                Some(ty) => record_field_type(named_types_view(fields@), name@) == Some(ty@),
                None => record_field_type(named_types_view(fields@), name@) is None,
            },
    {
        let ghost views = named_types_view(fields@);
        let ghost p = |e: (Seq<char>, TypeV)| e.0 == name@;
        assert(views.len() == fields@.len());
        assert(views.skip(0) =~= views);
        let mut i: usize = 0;
        while i < fields.len()
            invariant
                i <= fields@.len(),
                views == named_types_view(fields@),
                views.len() == fields@.len(),
                p == (|e: (Seq<char>, TypeV)| e.0 == name@),
                first_where(views, p) == first_where(views.skip(i as int), p),
            decreases fields@.len() - i,
        {
            proof {
                lemma_first_where_skip(views, p, i as int);
                assert(views[i as int] == (fields@[i as int].0@, type_view(fields@[i as int].1)));
            }
            if same_text(fields[i].0.as_str(), name) {
                return Some(fields[i].1.copy());
            }
            i += 1;
        }
        None
    }

    fn struct_field_type(
        &self,
        module: &Vec<String>,
        name: &str,
        args: &Vec<Type>,
        field: &str,
    ) -> (r: Option<Type>)
        ensures
            match r {
                Some(ty) => struct_field_type(self.cx(module), name@, types_view(args@), field@)
                    == Some(ty@),
                None => struct_field_type(self.cx(module), name@, types_view(args@), field@) is None,
            },
    {
        let target: String = self.registry.resolve_type_name(module, name);
        let info: &StructInfo = match self.registry.struct_info(target.as_str()) {
            Some(info) => info,
            None => {
                return None;
            },
        };
        let entry: &FieldEntry = match find_field(&info.fields, field) {
            Some(entry) => entry,
            None => {
                return None;
            },
        };
        match &info.type_params {
            Some(params) => {
                let ghost types = types_view(args@);
                assert(types.len() == args@.len());
                let mut remap: Substitution = Substitution::new();
                let mut i: usize = 0;
                while i < params.len() && i < args.len()
                    invariant
                        i <= params@.len(),
                        i <= args@.len(),
                        types == types_view(args@),
                        types.len() == args@.len(),
                        remap@ == zipped(params@, types, i as int),
                    decreases params@.len() - i,
                {
                    assert(types[i as int] == type_view(args@[i as int]));
                    remap.bind(params[i], type_to_infer(&args[i]));
                    i += 1;
                }
                assert(i == zip_len(params@, types));
                let ty: InferType = remap.apply(&entry.ty);
                infer_to_type(&ty)
            },
            None => infer_to_type(&entry.ty),
        }
    }

    fn variant_field_type(
        &self,
        module: &Vec<String>,
        name: &str,
        args: &Vec<Type>,
        variant: &str,
        field: &str,
    ) -> (r: Option<Type>)
        ensures
            match r {
                Some(ty) => variant_field_type(
                    self.cx(module),
                    name@,
                    types_view(args@),
                    variant@,
                    field@,
                ) == Some(ty@),
                None => variant_field_type(
                    self.cx(module),
                    name@,
                    types_view(args@),
                    variant@,
                    field@,
                ) is None,
            },
    {
        let target: String = self.registry.resolve_type_name(module, name);
        let info: &EnumInfo = match self.registry.enum_info(target.as_str()) {
            Some(info) => info,
            None => {
                return None;
            },
        };
        let found: &VariantInfo = match find_variant(info, variant) {
            Some(v) => v,
            None => {
                return None;
            },
        };
        let entry: &FieldEntry = match find_field(&found.fields, field) {
            Some(entry) => entry,
            None => {
                return None;
            },
        };
        let params: &Vec<TypeVar> = &info.type_params;
        let ghost types = types_view(args@);
        assert(types.len() == args@.len());
        let mut remap: Substitution = Substitution::new();
        let mut i: usize = 0;
        while i < params.len() && i < args.len()
            invariant
                i <= params@.len(),
                i <= args@.len(),
                types == types_view(args@),
                types.len() == args@.len(),
                remap@ == zipped(params@, types, i as int),
            decreases params@.len() - i,
        {
            assert(types[i as int] == type_view(args@[i as int]));
            remap.bind(params[i], type_to_infer(&args[i]));
            i += 1;
        }
        assert(i == zip_len(params@, types));
        let ty: InferType = remap.apply(&entry.ty);
        infer_to_type(&ty)
    }

    fn does_field_move(&self, t: &Type, path: &Vec<String>, field: &str, module: &Vec<String>) -> (r:
        bool)
        ensures
            r == field_moves(
                self.cx(module),
                envs_view(self.generic_envs@),
                t@,
                texts(path@),
                field@,
            ),
    {
        assert(texts(path@).len() == path@.len());
        match peel_type_references(t) {
            Type::Named(name, args) => {
                let n: usize = path.len();
                if n == 0 {
                    return true;
                }
                assert(texts(path@).last() == path@[n - 1]@);
                match self.variant_field_type(
                    module,
                    name.as_str(),
                    args,
                    path[n - 1].as_str(),
                    field,
                ) {
                    Some(ty) => !self.is_copy(module, &ty),
                    None => true,
                }
            },
            _ => true,
        }
    }

    fn variant_source(
        &self,
        place: &Place,
        root_ty: &Type,
        path: &Vec<String>,
        fields: &Vec<String>,
        module: &Vec<String>,
    ) -> (r: Place)
        ensures
            r@ == variant_place(
                self.cx(module),
                envs_view(self.generic_envs@),
                place@,
                root_ty@,
                texts(path@),
                texts(fields@),
            ),
    {
        let ty: Type = match self.type_of_place(root_ty, place, module) {
            Some(ty) => ty,
            None => root_ty.copy(),
        };
        let ghost t = ty@;
        let ghost cx = self.cx(module);
        let ghost envs = envs_view(self.generic_envs@);
        let ghost names = texts(fields@);
        assert(names.len() == fields@.len());
        if matches!(ty, Type::Reference(_) | Type::MutReference(_)) {
            let mut i: usize = 0;
            while i < fields.len()
                invariant
                    i <= fields@.len(),
                    t == ty@,
                    t is Reference || t is MutReference,
                    t == type_at(cx, place@, root_ty@),
                    cx == self.cx(module),
                    envs == envs_view(self.generic_envs@),
                    names == texts(fields@),
                    names.len() == fields@.len(),
                    forall|k: int|
                        0 <= k < i ==> !field_moves(cx, envs, t, texts(path@), #[trigger] names[k]),
                decreases fields@.len() - i,
            {
                assert(names[i as int] == fields@[i as int]@);
                if self.does_field_move(&ty, path, fields[i].as_str(), module) {
                    return place.copy().with_projection(Projection::Deref);
                }
                i += 1;
            }
        }
        place.copy()
    }

    fn project_type(
        &self,
        base_ty: &Type,
        projection: &Projection,
        module: &Vec<String>,
    ) -> (r: Option<Type>)
        ensures
            match r {
                Some(ty) => step_type(self.cx(module), base_ty@, projection@) == Some(ty@),
                None => step_type(self.cx(module), base_ty@, projection@) is None,
            },
    {
        let base: &Type = peel_type_references(base_ty);
        match projection {
            Projection::TupleIndex(index) => match base {
                Type::Tuple(items) => {
                    assert(types_view(items@).len() == items@.len());
                    if *index < items.len() {
                        assert(types_view(items@)[*index as int] == type_view(
                            items@[*index as int],
                        ));
                        Some(items[*index].copy())
                    } else {
                        None
                    }
                },
                _ => None,
            },
            Projection::OpaqueIndex => match base {
                Type::Array(item) => Some(item.copy()),
                Type::SizedArray(item, _) => Some(item.copy()),
                _ => None,
            },
            // The references are stripped already, so what is left is the pointee.
            Projection::Deref => Some(base.copy()),
            Projection::Field(field) => match base {
                Type::Record(fields) => Self::find_record_field(fields, field.as_str()),
                Type::Named(name, args) => self.struct_field_type(
                    module,
                    name.as_str(),
                    args,
                    field.as_str(),
                ),
                _ => None,
            },
        }
    }

    fn type_of_place(&self, root_ty: &Type, place: &Place, module: &Vec<String>) -> (r: Option<Type>)
        ensures
            match r {
                Some(ty) => path_type(self.cx(module), root_ty@, place@.projections) == Some(ty@),
                None => path_type(self.cx(module), root_ty@, place@.projections) is None,
            },
    {
        let ghost cx = self.cx(module);
        let ghost steps = place@.projections;
        assert(steps.len() == place.projections@.len());
        assert(steps.skip(0) =~= steps);
        let mut ty: Type = root_ty.copy();
        let mut i: usize = 0;
        while i < place.projections.len()
            invariant
                cx == self.cx(module),
                steps == projections_view(place.projections@),
                steps.len() == place.projections@.len(),
                i <= steps.len(),
                path_type(cx, root_ty@, steps) == path_type(cx, ty@, steps.skip(i as int)),
            decreases steps.len() - i,
        {
            assert(steps.skip(i as int)[0] == place.projections@[i as int]@);
            assert(steps.skip(i as int).skip(1) =~= steps.skip(i + 1));
            match self.project_type(&ty, &place.projections[i], module) {
                Some(next) => {
                    ty = next;
                },
                None => {
                    return None;
                },
            }
            i += 1;
        }
        Some(ty)
    }

    fn passes_through_drop(
        &self,
        root_ty: &Type,
        place: &Place,
        module: &Vec<String>,
    ) -> (r: bool)
        ensures
            r == through_drop(
                self.cx(module),
                envs_view(self.generic_envs@),
                root_ty@,
                place@.projections,
            ),
    {
        let ghost cx = self.cx(module);
        let ghost envs = envs_view(self.generic_envs@);
        let ghost steps = place@.projections;
        assert(steps.len() == place.projections@.len());
        assert(steps.skip(0) =~= steps);
        let mut ty: Type = root_ty.copy();
        let mut i: usize = 0;
        while i < place.projections.len()
            invariant
                cx == self.cx(module),
                envs == envs_view(self.generic_envs@),
                steps == projections_view(place.projections@),
                steps.len() == place.projections@.len(),
                i <= steps.len(),
                through_drop(cx, envs, root_ty@, steps) == through_drop(
                    cx,
                    envs,
                    ty@,
                    steps.skip(i as int),
                ),
            decreases steps.len() - i,
        {
            assert(steps.skip(i as int)[0] == place.projections@[i as int]@);
            assert(steps.skip(i as int).skip(1) =~= steps.skip(i + 1));
            if self.is_drop(module, &ty) {
                return true;
            }
            match self.project_type(&ty, &place.projections[i], module) {
                Some(next) => {
                    ty = next;
                },
                None => {
                    return false;
                },
            }
            i += 1;
        }
        false
    }

    fn passes_through_reference(&self, root_ty: &Type, place: &Place, module: &Vec<String>) -> (r:
        bool)
        ensures
            r == through_reference(self.cx(module), root_ty@, place@.projections),
    {
        let ghost cx = self.cx(module);
        let ghost steps = place@.projections;
        assert(steps.len() == place.projections@.len());
        assert(steps.skip(0) =~= steps);
        let mut ty: Type = root_ty.copy();
        let mut i: usize = 0;
        while i < place.projections.len()
            invariant
                cx == self.cx(module),
                steps == projections_view(place.projections@),
                steps.len() == place.projections@.len(),
                i <= steps.len(),
                through_reference(cx, root_ty@, steps) == through_reference(
                    cx,
                    ty@,
                    steps.skip(i as int),
                ),
            decreases steps.len() - i,
        {
            assert(steps.skip(i as int)[0] == place.projections@[i as int]@);
            assert(steps.skip(i as int).skip(1) =~= steps.skip(i + 1));
            if let Type::Reference(_) | Type::MutReference(_) = &ty {
                return true;
            }
            if let Projection::Deref = &place.projections[i] {
                return true;
            }
            match self.project_type(&ty, &place.projections[i], module) {
                Some(next) => {
                    ty = next;
                },
                None => {
                    return false;
                },
            }
            i += 1;
        }
        false
    }

    fn passes_through_index(place: &Place) -> (r: bool)
        ensures
            r == through_index(place@.projections),
    {
        let ghost steps = place@.projections;
        assert(steps.len() == place.projections@.len());
        let mut i: usize = 0;
        while i < place.projections.len()
            invariant
                steps == projections_view(place.projections@),
                steps.len() == place.projections@.len(),
                i <= steps.len(),
                forall|k: int| 0 <= k < i ==> !((#[trigger] steps[k]) is OpaqueIndex),
            decreases steps.len() - i,
        {
            assert(steps[i as int] == place.projections@[i as int]@);
            if let Projection::OpaqueIndex = &place.projections[i] {
                return true;
            }
            i += 1;
        }
        false
    }

    fn illegal_move_kind(
        &self,
        place: &Place,
        root_ty: &Type,
        place_ty: &Type,
        module: &Vec<String>,
    ) -> (r: Option<MoveViolationKind>)
        ensures
            r == ban(
                self.cx(module),
                envs_view(self.generic_envs@),
                place@,
                root_ty@,
                place_ty@,
            ),
    {
        if self.is_copy(module, place_ty) {
            return None;
        }
        if Self::passes_through_index(place) {
            return Some(MoveViolationKind::ArrayElementMove);
        }
        if self.passes_through_drop(root_ty, place, module) {
            return Some(MoveViolationKind::PartialMoveOfDropType);
        }
        if self.passes_through_reference(root_ty, place, module) {
            return Some(MoveViolationKind::MoveOutOfReference);
        }
        None
    }

    fn violation_kind(place: &Place, record: &MoveRecord) -> (r: MoveViolationKind)
        ensures
            r == kind_of_use(place@, record@),
    {
        assert(place@.projections.len() == place.projections@.len());
        assert(record@.place.projections.len() == record.place.projections@.len());
        if same_text(record.moved_type.as_str(), "&var T") && record.cause
            != MoveCause::ByValueReceiver {
            return MoveViolationKind::MovedMutReferenceWithoutReborrow;
        }
        if place.projections().len() == 0 && record.place.projections().len() != 0 {
            return MoveViolationKind::PartialMoveUsedAsWhole;
        }
        MoveViolationKind::UseAfterMove
    }

    fn report_use(&mut self, place: &Place, record: &MoveRecord, use_span: &Span)
        requires
            old(self).wf(),
        ensures
            final(self).wf(),
            final(self).registry == old(self).registry,
            forall|f: FlowV| #[trigger]
                final(self).world(f) == (WorldV {
                    report: super::report::with_violation(
                        old(self).report@,
                        super::walk::use_violation(place@, record@, use_span@),
                    ),
                    ..old(self).world(f)
                }),
    {
        let violation = MoveViolation {
            binding: place.root().to_owned(),
            use_place: place.copy(),
            moved_place: record.place.copy(),
            kind: Self::violation_kind(place, record),
            moved_by_value_receiver: record.cause == MoveCause::ByValueReceiver,
            moved_type: record.moved_type.clone(),
            moved_in_previous_iteration: record.from_previous_iteration,
            use_span: use_span.copy(),
            moved_span: record.moved_span.copy(),
        };
        self.report.push_violation(violation);
    }

    fn record_whole_use_if_moved(&mut self, place: &Place, use_span: &Span, state: &FlowState)
        requires
            old(self).wf(),
            state.wf(),
        ensures
            final(self).wf(),
            final(self).registry == old(self).registry,
            final(self).world(state@) == super::walk::whole_use(
                place@,
                use_span@,
                old(self).world(state@),
            ),
    {
        if let Some(record) = state.moved_record_for_whole_use(place) {
            self.report_use(place, record, use_span);
        }
    }

    fn record_descendant_use_if_moved(
        &mut self,
        place: &Place,
        use_span: &Span,
        state: &FlowState,
    ) -> (r: bool)
        requires
            old(self).wf(),
            state.wf(),
        ensures
            final(self).wf(),
            final(self).registry == old(self).registry,
            r == gone(place@, old(self).world(state@)),
            final(self).world(state@) == super::walk::base_use(
                place@,
                use_span@,
                old(self).world(state@),
            ),
    {
        if let Some(record) = state.moved_record_for_descendant_use(place) {
            self.report_use(place, record, use_span);
            return true;
        }
        false
    }

    fn report_illegal_move(
        &mut self,
        place: &Place,
        use_span: &Span,
        moved_type: String,
        kind: MoveViolationKind,
    )
        requires
            old(self).wf(),
        ensures
            final(self).wf(),
            final(self).registry == old(self).registry,
            forall|f: FlowV| #[trigger]
                final(self).world(f) == (WorldV {
                    report: super::report::with_violation(
                        old(self).report@,
                        super::walk::ban_violation(place@, use_span@, moved_type@, kind),
                    ),
                    ..old(self).world(f)
                }),
    {
        let moved_span = Span {
            start: 0,
            end: 0,
            filename: joined3("<place:", place.root(), ">"),
            line: 0,
            col: 0,
        };
        let violation = MoveViolation {
            binding: place.root().to_owned(),
            use_place: place.copy(),
            moved_place: place.copy(),
            kind,
            moved_by_value_receiver: false,
            moved_type,
            moved_in_previous_iteration: false,
            use_span: use_span.copy(),
            moved_span,
        };
        self.report.push_violation(violation);
    }

    fn source_of(&self, place: Place, root_ty: &Type, module: &Vec<String>, cause: MoveCause) -> (r:
        Place)
        ensures
            r@ == source_place(
                self.cx(module),
                envs_view(self.generic_envs@),
                place@,
                root_ty@,
                cause,
            ),
    {
        let place_ty: Type = match self.type_of_place(root_ty, &place, module) {
            Some(ty) => ty,
            None => root_ty.copy(),
        };
        let reference: bool = matches!(place_ty, Type::Reference(_) | Type::MutReference(_));
        if cause == MoveCause::ByValueReceiver && reference && !self.is_copy(
            module,
            peel_type_references(&place_ty),
        ) {
            place.with_projection(Projection::Deref)
        } else {
            place
        }
    }

    fn consume_place(
        &mut self,
        place: &Place,
        root_ty: &Type,
        use_span: &Span,
        module: &Vec<String>,
        state: &mut FlowState,
        cause: MoveCause,
    )
        requires
            old(self).wf(),
            old(state).wf(),
        ensures
            final(self).wf(),
            final(state).wf(),
            final(self).registry == old(self).registry,
            final(self).world(final(state)@) == consume_place(
                old(self).cx(module),
                place@,
                root_ty@,
                use_span@,
                cause,
                old(self).world(old(state)@),
            ),
    {
        let place_ty: Type = match self.type_of_place(root_ty, place, module) {
            Some(ty) => ty,
            None => root_ty.copy(),
        };
        if state.is_borrowed_array_element(place) && !self.is_copy(module, &place_ty) {
            self.report_illegal_move(
                place,
                use_span,
                type_bucket(&place_ty),
                MoveViolationKind::BorrowedArrayElementMove,
            );
            return;
        }
        if let Some(kind) = self.illegal_move_kind(place, root_ty, &place_ty, module) {
            self.report_illegal_move(place, use_span, type_bucket(&place_ty), kind);
            return;
        }
        self.record_whole_use_if_moved(place, use_span, state);
        if !self.is_copy(module, &place_ty) {
            state.record_move(place.copy(), use_span.copy(), cause, type_bucket(&place_ty));
        }
    }

    fn bind_names(state: &mut FlowState, names: &Vec<String>)
        requires
            old(state).wf(),
        ensures
            final(state).wf(),
            final(state)@ == bind_all(old(state)@, texts(names@)),
    {
        let ghost views = texts(names@);
        let ghost start = state@;
        let mut i: usize = 0;
        while i < names.len()
            invariant
                i <= names@.len(),
                views == texts(names@),
                state.wf(),
                state@ == bind_all(start, views.take(i as int)),
            decreases names@.len() - i,
        {
            assert(views.take(i + 1).drop_last() =~= views.take(i as int));
            assert(views.take(i + 1).last() == names@[i as int]@);
            state.bind(names[i].as_str());
            i += 1;
        }
        assert(views.take(i as int) =~= views);
    }

    fn names_of(params: &Vec<Param>) -> (r: Vec<String>)
        ensures
            texts(r@) == param_names(params@),
    {
        let mut out: Vec<String> = Vec::new();
        let mut i: usize = 0;
        while i < params.len()
            invariant
                i <= params@.len(),
                out@.len() == i,
                forall|k: int| 0 <= k < i ==> (#[trigger] out@[k])@ == params@[k].name@,
            decreases params@.len() - i,
        {
            out.push(params[i].name.clone());
            i += 1;
        }
        assert(texts(out@) =~= param_names(params@));
        out
    }

    fn bind_typed_params(state: &mut FlowState, params: &Vec<Param>, types: &Vec<Type>)
        requires
            old(state).wf(),
        ensures
            final(state).wf(),
            final(state)@ == bind_params(
                old(state)@,
                params@,
                types_view(types@),
                params_len(params@, types_view(types@)),
            ),
    {
        let ghost views = types_view(types@);
        let ghost start = state@;
        assert(views.len() == types@.len());
        let mut i: usize = 0;
        while i < params.len() && i < types.len()
            invariant
                i <= params@.len(),
                i <= types@.len(),
                views == types_view(types@),
                views.len() == types@.len(),
                state.wf(),
                state@ == bind_params(start, params@, views, i as int),
            decreases params@.len() - i,
        {
            assert(views[i as int] == type_view(types@[i as int]));
            state.bind_typed(params[i].name.as_str(), &types[i]);
            i += 1;
        }
        assert(i == params_len(params@, views));
    }

    fn bind_record_fields(
        &mut self,
        fields: &Vec<String>,
        place: &Place,
        root_ty: &Type,
        use_span: &Span,
        module: &Vec<String>,
        state: &mut FlowState,
    )
        requires
            old(self).wf(),
            old(state).wf(),
        ensures
            final(self).wf(),
            final(state).wf(),
            final(self).registry == old(self).registry,
            final(self).world(final(state)@) == bind_fields(
                old(self).cx(module),
                texts(fields@),
                place@,
                root_ty@,
                use_span@,
                old(self).world(old(state)@),
            ),
    {
        let ghost cx = self.cx(module);
        let ghost views = texts(fields@);
        let ghost start = self.world(state@);
        let mut i: usize = 0;
        while i < fields.len()
            invariant
                i <= fields@.len(),
                views == texts(fields@),
                self.wf(),
                state.wf(),
                cx == self.cx(module),
                self.registry == old(self).registry,
                self.world(state@) == bind_fields(
                    cx,
                    views.take(i as int),
                    place@,
                    root_ty@,
                    use_span@,
                    start,
                ),
            decreases fields@.len() - i,
        {
            assert(views.take(i + 1).drop_last() =~= views.take(i as int));
            assert(views.take(i + 1).last() == fields@[i as int]@);
            let child: Place = place.copy().with_projection(Projection::Field(fields[i].clone()));
            self.consume_place(&child, root_ty, use_span, module, state, MoveCause::Other);
            state.bind(fields[i].as_str());
            i += 1;
        }
        assert(views.take(i as int) =~= views);
    }

    fn apply_pattern_place_move(
        &mut self,
        pattern: &Pattern,
        place: &Place,
        root_ty: &Type,
        use_span: &Span,
        module: &Vec<String>,
        state: &mut FlowState,
    )
        requires
            old(self).wf(),
            old(state).wf(),
        ensures
            final(self).wf(),
            final(state).wf(),
            final(self).registry == old(self).registry,
            final(self).world(final(state)@) == take_pattern(
                old(self).cx(module),
                *pattern,
                place@,
                root_ty@,
                use_span@,
                old(self).world(old(state)@),
            ),
        decreases *pattern,
    {
        match pattern {
            Pattern::Wildcard(_) => {},
            Pattern::Literal(_, _) => {},
            Pattern::Binding(name, _) => {
                self.consume_place(place, root_ty, use_span, module, state, MoveCause::Other);
                state.bind(name.as_str());
            },
            Pattern::Tuple(items, _) => {
                self.apply_pattern_items(items, place, root_ty, use_span, false, module, state);
            },
            Pattern::Record { fields, .. } => {
                self.bind_record_fields(fields, place, root_ty, use_span, module, state);
            },
            Pattern::Struct { fields, .. } => {
                self.bind_record_fields(fields, place, root_ty, use_span, module, state);
            },
            Pattern::EnumVariant { path, fields, .. } => {
                if fields.len() > 0 {
                    let source: Place = self.variant_source(place, root_ty, path, fields, module);
                    self.consume_place(&source, root_ty, use_span, module, state, MoveCause::Other);
                    Self::bind_names(state, fields);
                }
            },
            Pattern::Array { elems, rest, .. } => {
                self.apply_pattern_items(elems, place, root_ty, use_span, true, module, state);
                if let Some(name) = rest {
                    state.bind(name.as_str());
                }
            },
        }
    }

    fn apply_pattern_items(
        &mut self,
        items: &Vec<Pattern>,
        place: &Place,
        root_ty: &Type,
        use_span: &Span,
        array: bool,
        module: &Vec<String>,
        state: &mut FlowState,
    )
        requires
            old(self).wf(),
            old(state).wf(),
        ensures
            final(self).wf(),
            final(state).wf(),
            final(self).registry == old(self).registry,
            final(self).world(final(state)@) == take_items(
                old(self).cx(module),
                items@,
                place@,
                root_ty@,
                use_span@,
                array,
                old(self).world(old(state)@),
            ),
        decreases items@,
    {
        let ghost cx = self.cx(module);
        let ghost start = self.world(state@);
        let mut i: usize = 0;
        while i < items.len()
            invariant
                i <= items@.len(),
                self.wf(),
                state.wf(),
                cx == self.cx(module),
                self.registry == old(self).registry,
                self.world(state@) == take_items(
                    cx,
                    items@.subrange(0, i as int),
                    place@,
                    root_ty@,
                    use_span@,
                    array,
                    start,
                ),
            decreases items@.len() - i,
        {
            let ghost after = items@.subrange(0, i + 1);
            assert(after.subrange(0, after.len() - 1) =~= items@.subrange(0, i as int));
            let step: Projection = if array {
                Projection::OpaqueIndex
            } else {
                Projection::TupleIndex(i)
            };
            let child: Place = place.copy().with_projection(step);
            self.apply_pattern_place_move(&items[i], &child, root_ty, use_span, module, state);
            i += 1;
        }
        assert(items@.subrange(0, i as int) =~= items@);
    }

    fn root_place_ty<'b>(expr: &'b TypedExpr) -> (r: Option<&'b Type>)
        ensures
            match r {
                Some(ty) => root_type(*expr) == Some(*ty),
                None => root_type(*expr) is None,
            },
        decreases *expr,
    {
        match expr {
            TypedExpr::Ident(_, ty, _) => Some(ty),
            TypedExpr::FieldAccess { object, .. } => Self::root_place_ty(object),
            TypedExpr::TupleAccess { object, .. } => Self::root_place_ty(object),
            TypedExpr::Index { object, .. } => Self::root_place_ty(object),
            _ => None,
        }
    }

    fn apply_pattern_moves(
        &mut self,
        pattern: &Pattern,
        scrutinee: &TypedExpr,
        module: &Vec<String>,
        state: &mut FlowState,
    )
        requires
            old(self).wf(),
            old(state).wf(),
        ensures
            final(self).wf(),
            final(state).wf(),
            final(self).registry == old(self).registry,
            final(self).world(final(state)@) == match_pattern(
                old(self).cx(module),
                *pattern,
                *scrutinee,
                old(self).world(old(state)@),
            ),
    {
        match from_expr(scrutinee) {
            Some(place) => {
                // The type of the root, not of the scrutinee: the walk along the place looks for
                // a `Drop` ancestor from the root on.
                let root_ty: &Type = match Self::root_place_ty(scrutinee) {
                    Some(ty) => ty,
                    None => scrutinee.ty(),
                };
                self.apply_pattern_place_move(
                    pattern,
                    &place,
                    root_ty,
                    scrutinee.span(),
                    module,
                    state,
                );
            },
            None => {
                let names: Vec<String> = pattern_bindings(pattern);
                Self::bind_names(state, &names);
            },
        }
    }

    fn symbolic_aspect_method(&self, receiver_ty: &Type, method: &str) -> (r: Option<
        (&'a crate::registry::AspectInfo, &'a crate::ast::AspectMethod, String),
    >)
        ensures
            forall|module: Seq<Seq<char>>|
                match r {
                    Some(hit) => #[trigger] symbolic_callee(
                        Cx { reg: *self.registry, module },
                        envs_view(self.generic_envs@),
                        receiver_ty@,
                        method@,
                    ) == Some((*hit.0, *hit.1, hit.2@)),
                    None => symbolic_callee(
                        Cx { reg: *self.registry, module },
                        envs_view(self.generic_envs@),
                        receiver_ty@,
                        method@,
                    ) is None,
                },
    {
        assert(envs_view(self.generic_envs@).len() == self.generic_envs@.len());
        if self.generic_envs.len() == 0 {
            return None;
        }
        let env: &GenericMoveEnv = self.generic_envs[self.generic_envs.len() - 1];
        assert(envs_view(self.generic_envs@).last() == *env);
        match peel_type_references(receiver_ty) {
            Type::Named(placeholder, args) => {
                assert(types_view(args@).len() == args@.len());
                if args.len() != 0 {
                    return None;
                }
                match find_symbolic_method(self.registry, env, placeholder.as_str(), method) {
                    Some(hit) => Some((hit.0, hit.1, placeholder.clone())),
                    None => None,
                }
            },
            _ => None,
        }
    }

    fn method_receiver_kind(&self, receiver_ty: &Type, method: &str, module: &Vec<String>) -> (r:
        Option<ReceiverKind>)
        ensures
            r == receiver_kind(
                self.cx(module),
                envs_view(self.generic_envs@),
                receiver_ty@,
                method@,
            ),
    {
        let symbolic: Option<
            (&'a crate::registry::AspectInfo, &'a crate::ast::AspectMethod, String),
        > = self.symbolic_aspect_method(receiver_ty, method);
        assert(self.cx(module) == (Cx { reg: *self.registry, module: texts(module@) }));
        if let Some(hit) = symbolic {
            if hit.1.params.len() == 0 {
                return None;
            }
            return hit.1.params[0].receiver;
        }
        let base: &Type = peel_type_references(receiver_ty);
        match base {
            Type::Array(_) => self.registry.array_method_receiver_kind(method),
            Type::Named(name, _) => self.registry.method_receiver_kind(name.as_str(), method),
            _ => match primitive_type_name(base) {
                Some(name) => self.registry.method_receiver_kind(name.as_str(), method),
                None => None,
            },
        }
    }

    fn method_param_types(&self, receiver_ty: &Type, method: &str, module: &Vec<String>) -> (r:
        Option<Vec<Type>>)
        ensures
            opt_types(r) == method_params(
                self.cx(module),
                envs_view(self.generic_envs@),
                receiver_ty@,
                method@,
            ),
    {
        let symbolic: Option<
            (&'a crate::registry::AspectInfo, &'a crate::ast::AspectMethod, String),
        > = self.symbolic_aspect_method(receiver_ty, method);
        assert(self.cx(module) == (Cx { reg: *self.registry, module: texts(module@) }));
        if let Some(hit) = symbolic {
            return symbolic_method_arg_types(hit.0, hit.1, hit.2.as_str());
        }
        let base: &Type = peel_type_references(receiver_ty);
        let fun_ty: Option<&InferType> = match base {
            Type::Array(_) => self.registry.array_method_type(method),
            Type::Named(name, _) => self.registry.method_type(name.as_str(), method),
            _ => match primitive_type_name(base) {
                Some(name) => self.registry.method_type(name.as_str(), method),
                None => None,
            },
        };
        match fun_ty {
            Some(ty) => infer_method_arg_types(ty),
            None => None,
        }
    }

    fn capture_closure(
        &mut self,
        body: &TypedBlock,
        params: &Vec<Param>,
        span: &Span,
        state: &mut FlowState,
    )
        requires
            old(self).wf(),
            old(state).wf(),
        ensures
            final(self).wf(),
            final(state).wf(),
            final(self).registry == old(self).registry,
            forall|module: Seq<Seq<char>>|
                final(self).world(final(state)@) == #[trigger] take_captures(
                    Cx { reg: *old(self).registry, module },
                    free_roots(*body, param_names(params@).to_set()),
                    span@,
                    old(self).world(old(state)@),
                ),
    {
        let names: Vec<String> = Self::names_of(params);
        let locals = NameSet { items: names };
        proof {
            let set = param_names(params@).to_set();
            assert forall|k: Seq<char>| locals@.contains(k) <==> set.contains(k) by {
                if locals@.contains(k) {
                    let i = choose|i: int| 0 <= i < names@.len() && (#[trigger] names@[i])@ == k;
                    assert(texts(names@)[i] == k);
                }
                if set.contains(k) {
                    let i = choose|i: int|
                        0 <= i < param_names(params@).len() && param_names(params@)[i] == k;
                    assert(texts(names@)[i] == names@[i]@);
                }
            }
            assert(locals@ =~= set);
        }
        let captures: Vec<CapturedRoot> = collect_free_roots_from_typed_block(body, locals);
        let no_module: Vec<String> = Vec::new();
        let ghost views = captures_view(captures@);
        let ghost start = self.world(state@);
        let ghost reg = *self.registry;
        assert(texts(no_module@) =~= Seq::empty());
        let mut i: usize = 0;
        while i < captures.len()
            invariant
                i <= captures@.len(),
                views == captures_view(captures@),
                self.wf(),
                state.wf(),
                texts(no_module@) == Seq::<Seq<char>>::empty(),
                self.registry == old(self).registry,
                reg == *old(self).registry,
                forall|module: Seq<Seq<char>>|
                    self.world(state@) == #[trigger] take_captures(
                        Cx { reg, module },
                        views.take(i as int),
                        span@,
                        start,
                    ),
            decreases captures@.len() - i,
        {
            assert(views.take(i + 1).drop_last() =~= views.take(i as int));
            assert(views.take(i + 1).last() == captures@[i as int]@);
            let ghost before = self.world(state@);
            let name: &str = captures[i].name.as_str();
            let known: Option<Type> = match &captures[i].ty {
                Some(ty) => Some(ty.copy()),
                None => match state.binding_type(name) {
                    Some(ty) => Some(ty.copy()),
                    None => None,
                },
            };
            if let Some(ty) = known {
                let place: Place = Place::new(name.to_owned());
                self.consume_place(&place, &ty, span, &no_module, state, MoveCause::Other);
            }
            assert forall|module: Seq<Seq<char>>| self.world(state@) == #[trigger] take_captures(
                Cx { reg, module },
                views.take(i + 1),
                span@,
                start,
            ) by {
                assert(before == take_captures(
                    Cx { reg, module },
                    views.take(i as int),
                    span@,
                    start,
                ));
            }
            i += 1;
        }
        assert(views.take(i as int) =~= views);
    }

    fn closure_state(body: &TypedBlock) -> (r: FlowState)
        ensures
            r.wf(),
            r@ == closure_flow(*body),
    {
        let mut state: FlowState = FlowState::new();
        state.push_scope();
        let captures: Vec<CapturedRoot> = collect_free_roots_from_typed_block(
            body,
            NameSet::new(),
        );
        let mut names: Vec<String> = Vec::new();
        let mut i: usize = 0;
        while i < captures.len()
            invariant
                i <= captures@.len(),
                names@.len() == i,
                forall|k: int| 0 <= k < i ==> (#[trigger] names@[k])@ == captures@[k].name@,
            decreases captures@.len() - i,
        {
            names.push(captures[i].name.clone());
            i += 1;
        }
        assert(texts(names@) =~= capture_names(captures_view(captures@)));
        Self::bind_names(&mut state, &names);
        state
    }

    fn begin_pass(&mut self, entry: &FlowState) -> (r: FlowState)
        requires
            old(self).wf(),
            entry.wf(),
        ensures
            final(self).wf(),
            r.wf(),
            final(self).registry == old(self).registry,
            forall|f: FlowV|
                final(self).world(r@) == #[trigger] pass_start(entry@, old(self).world(f)),
    {
        let mut body_state: FlowState = entry.copy();
        body_state.diverged = false;
        self.loop_back_edges.push(FlowState::new());
        let depth: usize = entry.scopes.len();
        assert(entry@.scopes.len() == depth);
        self.loop_exits.push(LoopExit { reached: false, state: FlowState::new(), depth });
        proof {
            assert(flows_view(self.loop_back_edges@) =~= flows_view(old(self).loop_back_edges@).push(
                empty_flow(),
            ));
            assert(exits_view(self.loop_exits@) =~= exits_view(old(self).loop_exits@).push(
                LoopExitV { reached: false, state: empty_flow(), depth: depth as nat },
            ));
        }
        body_state
    }

    /// Close a pass over a loop body. Where nothing is left to find, or no further pass is
    /// allowed, the loop is left; otherwise what the pass reported is dropped and the entry state
    /// is widened.
    fn end_pass(
        &mut self,
        mark: ReportMark,
        entry: &mut FlowState,
        body_state: &FlowState,
        state: &mut FlowState,
        exits_without_break: bool,
        last: bool,
    ) -> (r: bool)
        requires
            old(self).wf(),
            old(entry).wf(),
            body_state.wf(),
            old(state).wf(),
        ensures
            final(self).wf(),
            final(entry).wf(),
            final(state).wf(),
            final(self).registry == old(self).registry,
            r == (last || settled(old(entry)@, old(self).world(body_state@))),
            r ==> final(self).world(final(state)@) == pass_end(
                old(state)@,
                old(self).world(body_state@),
                exits_without_break,
            ),
            !r ==> final(state)@ == old(state)@ && final(entry)@ == super::flow::carried(
                widened(old(entry)@, old(self).world(body_state@)),
                old(entry)@,
            ) && final(self).world(final(state)@) == pass_again(
                old(state)@,
                (
                    mark.violations as nat,
                    mark.skipped_user,
                    mark.skipped_embedded_std,
                    mark.unchecked as nat,
                ),
                old(self).world(body_state@),
            ),
    {
        let ghost w = self.world(body_state@);
        assert(w.back_edges.len() == self.loop_back_edges@.len());
        assert(w.exits.len() == self.loop_exits@.len());
        let mut reached: FlowState = match self.loop_back_edges.pop() {
            Some(edge) => edge,
            None => FlowState::new(),
        };
        let exit: LoopExit = match self.loop_exits.pop() {
            Some(exit) => exit,
            None => LoopExit { reached: false, state: FlowState::new(), depth: 0 },
        };
        proof {
            if w.back_edges.len() > 0 {
                assert(flows_view(self.loop_back_edges@) =~= w.back_edges.drop_last());
            } else {
                assert(flows_view(self.loop_back_edges@) =~= w.back_edges);
            }
            if w.exits.len() > 0 {
                assert(exits_view(self.loop_exits@) =~= w.exits.drop_last());
            } else {
                assert(exits_view(self.loop_exits@) =~= w.exits);
            }
        }
        if !body_state.diverged {
            reached.union_from(body_state);
        }
        assert(reached@ == back_edge(w));
        let mut wider: FlowState = entry.copy();
        wider.union_from(&reached);
        if wider.same_moves(entry) || last {
            if !exits_without_break && exit.reached {
                // Only a `break` leads out of a `loop`.
                let left: FlowState = FlowState::along(state, &exit.state);
                state.moved = left.moved;
                assert(state@ == after_loop(old(state)@, w, exits_without_break));
                return true;
            }
            if !body_state.diverged {
                state.union_from(body_state);
            }
            if exits_without_break {
                state.union_from(&exit.state);
            } else {
                // A `loop` with no reachable `break` never hands control back,
                // so the code around it inherits that. Without this, an outer
                // loop treats its own back edge as live even though an inner
                // `loop { return; }` guarantees it is never taken.
                state.diverged = true;
            }
            assert(state@ == after_loop(old(state)@, w, exits_without_break));
            return true;
        }
        self.report.rewind_to(mark);
        wider.mark_moves_as_carried_from(entry);
        *entry = wider;
        false
    }

    /// Walk a block in a scope of its own.
    pub fn check_block(&mut self, block: &'a TypedBlock, module: &Vec<String>, state: &mut FlowState)
        requires
            old(self).wf(),
            old(state).wf(),
        ensures
            final(self).wf(),
            final(state).wf(),
            final(self).registry == old(self).registry,
            final(self).world(final(state)@) == walk_block(
                old(self).cx(module),
                *block,
                old(self).world(old(state)@),
            ),
        decreases *block, 0int,
    {
        state.push_scope();
        self.check_decls(&block.stmts, module, state);
        if let Some(tail) = &block.tail {
            self.consume_expr(tail, module, state, MoveCause::Other);
        }
        state.pop_scope();
    }

    /// Walk declarations one after the other.
    pub fn check_decls(
        &mut self,
        decls: &'a Vec<TypedDecl>,
        module: &Vec<String>,
        state: &mut FlowState,
    )
        requires
            old(self).wf(),
            old(state).wf(),
        ensures
            final(self).wf(),
            final(state).wf(),
            final(self).registry == old(self).registry,
            final(self).world(final(state)@) == walk_decls(
                old(self).cx(module),
                decls@,
                old(self).world(old(state)@),
            ),
        decreases decls@, 0int,
    {
        let ghost cx = self.cx(module);
        let ghost start = self.world(state@);
        let mut i: usize = 0;
        while i < decls.len()
            invariant
                i <= decls@.len(),
                self.wf(),
                state.wf(),
                cx == self.cx(module),
                self.registry == old(self).registry,
                self.world(state@) == walk_decls(cx, decls@.subrange(0, i as int), start),
            decreases decls@.len() - i,
        {
            let ghost after = decls@.subrange(0, i + 1);
            assert(after.subrange(0, after.len() - 1) =~= decls@.subrange(0, i as int));
            self.check_decl(&decls[i], module, state);
            i += 1;
        }
        assert(decls@.subrange(0, i as int) =~= decls@);
    }

    fn check_decl(&mut self, decl: &'a TypedDecl, module: &Vec<String>, state: &mut FlowState)
        requires
            old(self).wf(),
            old(state).wf(),
        ensures
            final(self).wf(),
            final(state).wf(),
            final(self).registry == old(self).registry,
            final(self).world(final(state)@) == walk_decl(
                old(self).cx(module),
                *decl,
                old(self).world(old(state)@),
            ),
        decreases *decl, 0int,
    {
        match decl {
            TypedDecl::Let(let_decl) => {
                self.consume_expr(&let_decl.value, module, state, MoveCause::Other);
                state.bind_typed(let_decl.name.as_str(), let_decl.value.ty());
            },
            TypedDecl::Mut(mut_decl) => {
                self.consume_expr(&mut_decl.value, module, state, MoveCause::Other);
                state.bind_typed(mut_decl.name.as_str(), mut_decl.value.ty());
            },
            TypedDecl::Fun(fun) => {
                state.bind(fun.name.as_str());
                self.check_fun(fun, module, state);
            },
            TypedDecl::Stmt(stmt) => {
                self.check_stmt(stmt, module, state);
            },
            TypedDecl::Impl(ib) => {
                self.check_funs(&ib.methods, module, state);
            },
            TypedDecl::Struct(_) => {},
            TypedDecl::Enum(_) => {},
            TypedDecl::Aspect(_) => {},
        }
    }

    fn check_funs(
        &mut self,
        funs: &'a Vec<TypedFunDecl>,
        module: &Vec<String>,
        state: &mut FlowState,
    )
        requires
            old(self).wf(),
            old(state).wf(),
        ensures
            final(self).wf(),
            final(state).wf(),
            final(self).registry == old(self).registry,
            final(self).world(final(state)@) == walk_funs(
                old(self).cx(module),
                funs@,
                old(self).world(old(state)@),
            ),
        decreases funs@, 0int,
    {
        let ghost cx = self.cx(module);
        let ghost start = self.world(state@);
        let mut i: usize = 0;
        while i < funs.len()
            invariant
                i <= funs@.len(),
                self.wf(),
                state.wf(),
                cx == self.cx(module),
                self.registry == old(self).registry,
                self.world(state@) == walk_funs(cx, funs@.subrange(0, i as int), start),
            decreases funs@.len() - i,
        {
            let ghost after = funs@.subrange(0, i + 1);
            assert(after.subrange(0, after.len() - 1) =~= funs@.subrange(0, i as int));
            self.check_fun(&funs[i], module, state);
            i += 1;
        }
        assert(funs@.subrange(0, i as int) =~= funs@);
    }

    fn check_fun(&mut self, fun: &'a TypedFunDecl, module: &Vec<String>, state: &mut FlowState)
        requires
            old(self).wf(),
            old(state).wf(),
        ensures
            final(self).wf(),
            final(state).wf(),
            final(self).registry == old(self).registry,
            final(self).world(final(state)@) == walk_fun(
                old(self).cx(module),
                *fun,
                old(self).world(old(state)@),
            ),
        decreases *fun, 0int,
    {
        match &fun.body {
            FunBody::Typed(body) => {
                let mut fn_state: FlowState = FlowState::new();
                fn_state.push_scope();
                let names: Vec<String> = Self::names_of(&fun.params);
                Self::bind_names(&mut fn_state, &names);
                self.check_block(body, module, &mut fn_state);
            },
            FunBody::Generic(body) => {
                self.check_generic_body(body, &fun.params, &fun.span, module, state);
            },
            FunBody::Native(_) => {},
        }
    }

    fn check_generic_body(
        &mut self,
        body: &'a GenericBody,
        params: &Vec<Param>,
        span: &Span,
        module: &Vec<String>,
        state: &mut FlowState,
    )
        requires
            old(self).wf(),
            old(state).wf(),
        ensures
            final(self).wf(),
            final(state).wf(),
            final(self).registry == old(self).registry,
            final(self).world(final(state)@) == walk_generic(
                old(self).cx(module),
                *body,
                params@,
                span@,
                old(self).world(old(state)@),
            ),
        decreases *body, 0int,
    {
        match &body.symbolic {
            None => {
                self.report.record_skipped(span, "type context was unavailable");
            },
            Some(symbolic) => match &**symbolic {
                SymbolicBody::Unavailable { reason } => {
                    self.report.record_skipped(span, reason.as_str());
                },
                SymbolicBody::Elaborated { body: typed, env } => {
                    let mut fn_state: FlowState = FlowState::new();
                    fn_state.push_scope();
                    Self::bind_typed_params(&mut fn_state, params, &env.arg_types);
                    let ghost before = envs_view(self.generic_envs@);
                    self.generic_envs.push(env);
                    assert(envs_view(self.generic_envs@) =~= before.push(*env));
                    self.check_block(typed, module, &mut fn_state);
                    let ghost within = envs_view(self.generic_envs@);
                    assert(within.len() == self.generic_envs@.len());
                    let _ = self.generic_envs.pop();
                    assert(envs_view(self.generic_envs@) =~= popped(within));
                },
            },
        }
    }

    fn check_stmt(&mut self, stmt: &'a TypedStmt, module: &Vec<String>, state: &mut FlowState)
        requires
            old(self).wf(),
            old(state).wf(),
        ensures
            final(self).wf(),
            final(state).wf(),
            final(self).registry == old(self).registry,
            final(self).world(final(state)@) == walk_stmt(
                old(self).cx(module),
                *stmt,
                old(self).world(old(state)@),
            ),
        decreases *stmt, 0int,
    {
        broadcast use lemma_walk_loop_congruent;

        match stmt {
            TypedStmt::Expr(expr) => {
                self.observe_expr(expr, module, state);
            },
            TypedStmt::While(while_stmt) => {
                self.check_while(while_stmt, module, state);
            },
            TypedStmt::For(for_stmt) => {
                state.push_scope();
                if let Some(init) = &for_stmt.init {
                    self.check_init(init, module, state);
                }
                // `init` ran once above; condition, body and step all repeat.
                self.check_for(for_stmt, module, state);
                state.pop_scope();
            },
            TypedStmt::ForIn(for_in) => {
                // The iterable is evaluated once, before any iteration.
                self.observe_expr(&for_in.iterable, module, state);
                self.check_for_in(for_in, module, state);
            },
        }
    }

    fn check_init(&mut self, init: &'a TypedForInit, module: &Vec<String>, state: &mut FlowState)
        requires
            old(self).wf(),
            old(state).wf(),
        ensures
            final(self).wf(),
            final(state).wf(),
            final(self).registry == old(self).registry,
            final(self).world(final(state)@) == walk_init(
                old(self).cx(module),
                *init,
                old(self).world(old(state)@),
            ),
        decreases *init, 0int,
    {
        match init {
            TypedForInit::Let(let_decl) => {
                self.consume_expr(&let_decl.value, module, state, MoveCause::Other);
                state.bind_typed(let_decl.name.as_str(), let_decl.value.ty());
            },
            TypedForInit::Mut(mut_decl) => {
                self.consume_expr(&mut_decl.value, module, state, MoveCause::Other);
                state.bind_typed(mut_decl.name.as_str(), mut_decl.value.ty());
            },
            TypedForInit::Expr(expr) => {
                self.observe_expr(expr, module, state);
            },
        }
    }

    fn check_while(
        &mut self,
        stmt: &'a TypedWhileStmt,
        module: &Vec<String>,
        state: &mut FlowState,
    )
        requires
            old(self).wf(),
            old(state).wf(),
        ensures
            final(self).wf(),
            final(state).wf(),
            final(self).registry == old(self).registry,
            final(self).world(final(state)@) == walk_loop(
                |v: WorldV| while_step(old(self).cx(module), *stmt, v),
                true,
                old(self).world(old(state)@),
            ),
        decreases *stmt, 0int,
    {
        let ghost cx = self.cx(module);
        let ghost step = |v: WorldV| while_step(cx, *stmt, v);
        let ghost target = walk_loop(step, true, self.world(state@));
        let mut entry: FlowState = state.copy();
        let mut left: usize = MAX_LOOP_PASSES;
        while left > 0
            invariant
                left <= MAX_LOOP_PASSES,
                self.wf(),
                state.wf(),
                entry.wf(),
                cx == self.cx(module),
                self.registry == old(self).registry,
                step == (|v: WorldV| while_step(cx, *stmt, v)),
                left > 0 ==> target == loop_passes(
                    step,
                    true,
                    entry@,
                    left as nat,
                    self.world(state@),
                ),
                left == 0 ==> target == self.world(state@),
            decreases left,
        {
            let ghost before = self.world(state@);
            let mark: ReportMark = self.report.mark();
            let mut body_state: FlowState = self.begin_pass(&entry);
            assert(self.world(body_state@) == pass_start(entry@, before));
            // The condition is walked in every pass because the back edge returns to it:
            // `while (peek(s)) { eat(s); }` reads `s` after the first iteration moved it.
            self.observe_expr(&stmt.condition, module, &mut body_state);
            self.check_block(&stmt.body, module, &mut body_state);
            assert(self.world(body_state@) == step(pass_start(entry@, before)));
            if self.end_pass(mark, &mut entry, &body_state, state, true, left == 1) {
                left = 0;
            } else {
                left -= 1;
            }
        }
    }

    fn check_for(&mut self, stmt: &'a TypedForStmt, module: &Vec<String>, state: &mut FlowState)
        requires
            old(self).wf(),
            old(state).wf(),
        ensures
            final(self).wf(),
            final(state).wf(),
            final(self).registry == old(self).registry,
            final(self).world(final(state)@) == walk_loop(
                |v: WorldV| for_step(old(self).cx(module), *stmt, v),
                true,
                old(self).world(old(state)@),
            ),
        decreases *stmt, 0int,
    {
        let ghost cx = self.cx(module);
        let ghost step = |v: WorldV| for_step(cx, *stmt, v);
        let ghost target = walk_loop(step, true, self.world(state@));
        let mut entry: FlowState = state.copy();
        let mut left: usize = MAX_LOOP_PASSES;
        while left > 0
            invariant
                left <= MAX_LOOP_PASSES,
                self.wf(),
                state.wf(),
                entry.wf(),
                cx == self.cx(module),
                self.registry == old(self).registry,
                step == (|v: WorldV| for_step(cx, *stmt, v)),
                left > 0 ==> target == loop_passes(
                    step,
                    true,
                    entry@,
                    left as nat,
                    self.world(state@),
                ),
                left == 0 ==> target == self.world(state@),
            decreases left,
        {
            let ghost before = self.world(state@);
            let mark: ReportMark = self.report.mark();
            let mut body_state: FlowState = self.begin_pass(&entry);
            assert(self.world(body_state@) == pass_start(entry@, before));
            if let Some(condition) = &stmt.condition {
                self.observe_expr(condition, module, &mut body_state);
            }
            self.check_block(&stmt.body, module, &mut body_state);
            if let Some(e) = &stmt.step {
                self.observe_expr(e, module, &mut body_state);
            }
            assert(self.world(body_state@) == step(pass_start(entry@, before)));
            if self.end_pass(mark, &mut entry, &body_state, state, true, left == 1) {
                left = 0;
            } else {
                left -= 1;
            }
        }
    }

    fn check_for_in(
        &mut self,
        stmt: &'a TypedForInStmt,
        module: &Vec<String>,
        state: &mut FlowState,
    )
        requires
            old(self).wf(),
            old(state).wf(),
        ensures
            final(self).wf(),
            final(state).wf(),
            final(self).registry == old(self).registry,
            final(self).world(final(state)@) == walk_loop(
                |v: WorldV| for_in_step(old(self).cx(module), *stmt, v),
                true,
                old(self).world(old(state)@),
            ),
        decreases *stmt, 0int,
    {
        let ghost cx = self.cx(module);
        let ghost step = |v: WorldV| for_in_step(cx, *stmt, v);
        let ghost target = walk_loop(step, true, self.world(state@));
        let mut entry: FlowState = state.copy();
        let mut left: usize = MAX_LOOP_PASSES;
        while left > 0
            invariant
                left <= MAX_LOOP_PASSES,
                self.wf(),
                state.wf(),
                entry.wf(),
                cx == self.cx(module),
                self.registry == old(self).registry,
                step == (|v: WorldV| for_in_step(cx, *stmt, v)),
                left > 0 ==> target == loop_passes(
                    step,
                    true,
                    entry@,
                    left as nat,
                    self.world(state@),
                ),
                left == 0 ==> target == self.world(state@),
            decreases left,
        {
            let ghost before = self.world(state@);
            let mark: ReportMark = self.report.mark();
            let mut body_state: FlowState = self.begin_pass(&entry);
            assert(self.world(body_state@) == pass_start(entry@, before));
            body_state.push_scope();
            match peel_type_references(stmt.iterable.ty()) {
                Type::Array(element_ty) => {
                    body_state.bind_borrowed_array_element(stmt.binding.as_str(), element_ty);
                },
                Type::SizedArray(element_ty, _) => {
                    body_state.bind_typed(stmt.binding.as_str(), element_ty);
                },
                _ => {
                    body_state.bind(stmt.binding.as_str());
                },
            }
            self.check_block(&stmt.body, module, &mut body_state);
            body_state.pop_scope();
            assert(self.world(body_state@) == step(pass_start(entry@, before)));
            if self.end_pass(mark, &mut entry, &body_state, state, true, left == 1) {
                left = 0;
            } else {
                left -= 1;
            }
        }
    }

    fn observe_loop_expr(&mut self, body: &'a TypedBlock, module: &Vec<String>, state: &mut FlowState)
        requires
            old(self).wf(),
            old(state).wf(),
        ensures
            final(self).wf(),
            final(state).wf(),
            final(self).registry == old(self).registry,
            final(self).world(final(state)@) == walk_loop(
                |v: WorldV| walk_block(old(self).cx(module), *body, v),
                false,
                old(self).world(old(state)@),
            ),
        decreases *body, 1int,
    {
        let ghost cx = self.cx(module);
        let ghost step = |v: WorldV| walk_block(cx, *body, v);
        let ghost target = walk_loop(step, false, self.world(state@));
        let mut entry: FlowState = state.copy();
        let mut left: usize = MAX_LOOP_PASSES;
        while left > 0
            invariant
                left <= MAX_LOOP_PASSES,
                self.wf(),
                state.wf(),
                entry.wf(),
                cx == self.cx(module),
                self.registry == old(self).registry,
                step == (|v: WorldV| walk_block(cx, *body, v)),
                left > 0 ==> target == loop_passes(
                    step,
                    false,
                    entry@,
                    left as nat,
                    self.world(state@),
                ),
                left == 0 ==> target == self.world(state@),
            decreases left,
        {
            let ghost before = self.world(state@);
            let mark: ReportMark = self.report.mark();
            let mut body_state: FlowState = self.begin_pass(&entry);
            assert(self.world(body_state@) == pass_start(entry@, before));
            self.check_block(body, module, &mut body_state);
            assert(self.world(body_state@) == step(pass_start(entry@, before)));
            if self.end_pass(mark, &mut entry, &body_state, state, false, left == 1) {
                left = 0;
            } else {
                left -= 1;
            }
        }
    }

    fn observe_exprs(
        &mut self,
        items: &'a Vec<TypedExpr>,
        module: &Vec<String>,
        state: &mut FlowState,
    )
        requires
            old(self).wf(),
            old(state).wf(),
        ensures
            final(self).wf(),
            final(state).wf(),
            final(self).registry == old(self).registry,
            final(self).world(final(state)@) == observe_all(
                old(self).cx(module),
                items@,
                old(self).world(old(state)@),
            ),
        decreases items@, 0int,
    {
        let ghost cx = self.cx(module);
        let ghost start = self.world(state@);
        let mut i: usize = 0;
        while i < items.len()
            invariant
                i <= items@.len(),
                self.wf(),
                state.wf(),
                cx == self.cx(module),
                self.registry == old(self).registry,
                self.world(state@) == observe_all(cx, items@.subrange(0, i as int), start),
            decreases items@.len() - i,
        {
            let ghost after = items@.subrange(0, i + 1);
            assert(after.subrange(0, after.len() - 1) =~= items@.subrange(0, i as int));
            self.observe_expr(&items[i], module, state);
            i += 1;
        }
        assert(items@.subrange(0, i as int) =~= items@);
    }

    fn consume_exprs(
        &mut self,
        items: &'a Vec<TypedExpr>,
        module: &Vec<String>,
        state: &mut FlowState,
        cause: MoveCause,
    )
        requires
            old(self).wf(),
            old(state).wf(),
        ensures
            final(self).wf(),
            final(state).wf(),
            final(self).registry == old(self).registry,
            final(self).world(final(state)@) == consume_all(
                old(self).cx(module),
                items@,
                cause,
                old(self).world(old(state)@),
            ),
        decreases items@, 0int,
    {
        let ghost cx = self.cx(module);
        let ghost start = self.world(state@);
        let mut i: usize = 0;
        while i < items.len()
            invariant
                i <= items@.len(),
                self.wf(),
                state.wf(),
                cx == self.cx(module),
                self.registry == old(self).registry,
                self.world(state@) == consume_all(cx, items@.subrange(0, i as int), cause, start),
            decreases items@.len() - i,
        {
            let ghost after = items@.subrange(0, i + 1);
            assert(after.subrange(0, after.len() - 1) =~= items@.subrange(0, i as int));
            self.consume_expr(&items[i], module, state, cause);
            i += 1;
        }
        assert(items@.subrange(0, i as int) =~= items@);
    }

    fn consume_field_values(
        &mut self,
        fields: &'a Vec<(String, TypedExpr)>,
        module: &Vec<String>,
        state: &mut FlowState,
    )
        requires
            old(self).wf(),
            old(state).wf(),
        ensures
            final(self).wf(),
            final(state).wf(),
            final(self).registry == old(self).registry,
            final(self).world(final(state)@) == consume_fields(
                old(self).cx(module),
                fields@,
                old(self).world(old(state)@),
            ),
        decreases fields@, 0int,
    {
        let ghost cx = self.cx(module);
        let ghost start = self.world(state@);
        let mut i: usize = 0;
        while i < fields.len()
            invariant
                i <= fields@.len(),
                self.wf(),
                state.wf(),
                cx == self.cx(module),
                self.registry == old(self).registry,
                self.world(state@) == consume_fields(cx, fields@.subrange(0, i as int), start),
            decreases fields@.len() - i,
        {
            let ghost after = fields@.subrange(0, i + 1);
            assert(after.subrange(0, after.len() - 1) =~= fields@.subrange(0, i as int));
            self.consume_expr(&fields[i].1, module, state, MoveCause::Other);
            i += 1;
        }
        assert(fields@.subrange(0, i as int) =~= fields@);
    }

    fn observe_call_args(
        &mut self,
        args: &'a Vec<TypedExpr>,
        param_types: Option<&Vec<Type>>,
        module: &Vec<String>,
        state: &mut FlowState,
    )
        requires
            old(self).wf(),
            old(state).wf(),
        ensures
            final(self).wf(),
            final(state).wf(),
            final(self).registry == old(self).registry,
            final(self).world(final(state)@) == walk_args(
                old(self).cx(module),
                args@,
                match param_types {
                    Some(types) => Some(types_view(types@)),
                    None => None,
                },
                old(self).world(old(state)@),
            ),
        decreases args@, 0int,
    {
        let ghost cx = self.cx(module);
        let ghost start = self.world(state@);
        let ghost params = match param_types {
            Some(types) => Some(types_view(types@)),
            None => None,
        };
        let mut i: usize = 0;
        while i < args.len()
            invariant
                i <= args@.len(),
                self.wf(),
                state.wf(),
                cx == self.cx(module),
                self.registry == old(self).registry,
                params == (match param_types {
                    Some(types) => Some(types_view(types@)),
                    None => None,
                }),
                self.world(state@) == walk_args(cx, args@.subrange(0, i as int), params, start),
            decreases args@.len() - i,
        {
            let ghost after = args@.subrange(0, i + 1);
            assert(after.subrange(0, after.len() - 1) =~= args@.subrange(0, i as int));
            let reborrow: bool = match param_types {
                Some(types) => {
                    assert(types_view(types@).len() == types@.len());
                    if i < types.len() {
                        assert(types_view(types@)[i as int] == type_view(types@[i as int]));
                        matches!(args[i].ty(), Type::MutReference(_)) && matches!(
                            &types[i],
                            Type::MutReference(_)
                        )
                    } else {
                        false
                    }
                },
                None => false,
            };
            assert(reborrow == reborrows(args@[i as int], params, i as int));
            if reborrow {
                self.observe_expr(&args[i], module, state);
            } else {
                self.consume_expr(&args[i], module, state, MoveCause::Other);
            }
            i += 1;
        }
        assert(args@.subrange(0, i as int) =~= args@);
    }

    fn check_arm(
        &mut self,
        scrutinee: &TypedExpr,
        arm: &'a TypedMatchArm,
        module: &Vec<String>,
        state: &mut FlowState,
    )
        requires
            old(self).wf(),
            old(state).wf(),
        ensures
            final(self).wf(),
            final(state).wf(),
            final(self).registry == old(self).registry,
            final(self).world(final(state)@) == walk_arm(
                old(self).cx(module),
                *scrutinee,
                *arm,
                old(self).world(old(state)@),
            ),
        decreases *arm, 0int,
    {
        state.push_scope();
        self.apply_pattern_moves(&arm.pattern, scrutinee, module, state);
        if let Some(guard) = &arm.guard {
            self.observe_expr(guard, module, state);
        }
        self.check_block(&arm.body, module, state);
        state.pop_scope();
    }

    fn check_arms(
        &mut self,
        scrutinee: &TypedExpr,
        arms: &'a Vec<TypedMatchArm>,
        module: &Vec<String>,
        state: &FlowState,
        joined: &mut FlowState,
    ) -> (r: bool)
        requires
            old(self).wf(),
            state.wf(),
            old(joined).wf(),
        ensures
            final(self).wf(),
            final(joined).wf(),
            final(self).registry == old(self).registry,
            walk_arms(
                old(self).cx(module),
                *scrutinee,
                arms@,
                ArmsV { world: old(self).world(state@), joined: old(joined)@, falls: false },
            ) == (ArmsV { world: final(self).world(state@), joined: final(joined)@, falls: r }),
        decreases arms@, 0int,
    {
        let ghost cx = self.cx(module);
        let ghost start = ArmsV { world: self.world(state@), joined: joined@, falls: false };
        let mut falls: bool = false;
        let mut i: usize = 0;
        while i < arms.len()
            invariant
                i <= arms@.len(),
                self.wf(),
                state.wf(),
                joined.wf(),
                cx == self.cx(module),
                self.registry == old(self).registry,
                walk_arms(cx, *scrutinee, arms@.subrange(0, i as int), start) == (ArmsV {
                    world: self.world(state@),
                    joined: joined@,
                    falls,
                }),
            decreases arms@.len() - i,
        {
            let ghost after = arms@.subrange(0, i + 1);
            assert(after.subrange(0, after.len() - 1) =~= arms@.subrange(0, i as int));
            let mut arm_state: FlowState = state.copy();
            self.check_arm(scrutinee, &arms[i], module, &mut arm_state);
            if !arm_state.diverged {
                joined.join_path(state, &arm_state);
                falls = true;
            }
            i += 1;
        }
        assert(arms@.subrange(0, i as int) =~= arms@);
        falls
    }

    fn observe_match_expr(
        &mut self,
        expr: &'a TypedExpr,
        module: &Vec<String>,
        state: &mut FlowState,
    )
        requires
            old(self).wf(),
            old(state).wf(),
            expr is Match,
        ensures
            final(self).wf(),
            final(state).wf(),
            final(self).registry == old(self).registry,
            final(self).world(final(state)@) == observe_within(
                old(self).cx(module),
                *expr,
                old(self).world(old(state)@),
            ),
        decreases *expr, 0int,
    {
        if let TypedExpr::Match(m) = expr {
            self.observe_expr(&m.scrutinee, module, state);
            let mut joined: FlowState = state.copy();
            joined.moved = NameMap::new();
            assert(joined@.moved =~= Map::empty());
            let falls: bool = self.check_arms(&m.scrutinee, &m.arms, module, state, &mut joined);
            // Control reaches the code after a `match` only if some arm falls out of
            // it. An empty match has no arm to fall out of, but it also cannot be
            // entered, so it counts as not diverging.
            if falls {
                state.moved = joined.moved;
            } else if m.arms.len() > 0 {
                state.diverged = true;
            }
        }
    }

    /// Walk an expression whose value is read, not moved.
    pub fn observe_expr(&mut self, expr: &'a TypedExpr, module: &Vec<String>, state: &mut FlowState)
        requires
            old(self).wf(),
            old(state).wf(),
        ensures
            final(self).wf(),
            final(state).wf(),
            final(self).registry == old(self).registry,
            final(self).world(final(state)@) == observe(
                old(self).cx(module),
                *expr,
                old(self).world(old(state)@),
            ),
        decreases *expr, 2int,
    {
        if let Some(place) = from_expr(expr) {
            self.record_whole_use_if_moved(&place, expr.span(), state);
        }
        self.observe_within(expr, module, state);
    }

    #[verifier::rlimit(40)]
    fn observe_within(&mut self, expr: &'a TypedExpr, module: &Vec<String>, state: &mut FlowState)
        requires
            old(self).wf(),
            old(state).wf(),
        ensures
            final(self).wf(),
            final(state).wf(),
            final(self).registry == old(self).registry,
            final(self).world(final(state)@) == observe_within(
                old(self).cx(module),
                *expr,
                old(self).world(old(state)@),
            ),
        decreases *expr, 1int,
    {
        broadcast use lemma_walk_loop_congruent;

        match expr {
            TypedExpr::Literal(_, _, _) => {},
            TypedExpr::Ident(_, _, _) => {},
            TypedExpr::Path(_, _, _) => {},
            TypedExpr::Continue(_) => {
                self.reach_back_edge(state);
            },
            TypedExpr::Tuple(items, _, _) => {
                self.observe_exprs(items, module, state);
            },
            TypedExpr::Array(items, _, _) => {
                self.observe_exprs(items, module, state);
            },
            TypedExpr::RecordLiteral { fields, .. } => {
                self.consume_field_values(fields, module, state);
            },
            TypedExpr::StructLiteral { fields, .. } => {
                self.consume_field_values(fields, module, state);
            },
            TypedExpr::RepeatArray(value, _, _, _) => {
                self.consume_expr(value, module, state, MoveCause::Other);
            },
            TypedExpr::BinOp(left, _, right, _, _) => {
                self.observe_expr(left, module, state);
                self.observe_expr(right, module, state);
            },
            TypedExpr::UnaryOp(_, inner, _, _) => {
                self.observe_expr(inner, module, state);
            },
            // The value is moved into the fresh cell that the temporary reference
            // wraps; it is not itself a place being read.
            TypedExpr::RefTemp { init, .. } => {
                self.consume_expr(init, module, state, MoveCause::Other);
            },
            TypedExpr::Assign { target, value, .. } => {
                self.observe_assignment_target(target, module, state);
                self.consume_expr(value, module, state, MoveCause::Other);
                Self::reinitialize_assigned_place(target, state);
            },
            TypedExpr::Call { .. } => {
                self.observe_call_expr(expr, module, state);
            },
            TypedExpr::MethodCall { .. } => {
                self.observe_method_call_expr(expr, module, state);
            },
            TypedExpr::FieldAccess { object, .. } => {
                self.observe_projection_base_expr(object, module, state);
            },
            TypedExpr::TupleAccess { object, .. } => {
                self.observe_projection_base_expr(object, module, state);
            },
            TypedExpr::Index { object, index, .. } => {
                self.observe_projection_base_expr(object, module, state);
                self.observe_expr(index, module, state);
            },
            TypedExpr::Cast { expr: inner, .. } => {
                self.observe_expr(inner, module, state);
            },
            TypedExpr::SingletonCoerce { inner, .. } => {
                self.observe_expr(inner, module, state);
            },
            TypedExpr::Match(_) => {
                self.observe_match_expr(expr, module, state);
            },
            TypedExpr::If { .. } => {
                self.observe_if_expr(expr, module, state);
            },
            TypedExpr::Loop { body, .. } => {
                self.observe_loop_expr(body, module, state);
            },
            TypedExpr::Closure { .. } => {
                self.observe_closure_expr(expr, module, state);
            },
            TypedExpr::GenericClosure { name, params, body, span, .. } => {
                if name.is_some() {
                    self.observe_generic_closure_expr(body, params, span, module, state);
                } else {
                    self.report.record_skipped(
                        span,
                        "anonymous generic closure has no type scheme lookup key",
                    );
                }
            },
            // `return` and `break` both leave the loop iteration, so whatever
            // they moved never reaches a following iteration.
            TypedExpr::Return(ret) => {
                if let Some(value) = &ret.value {
                    self.consume_expr(value, module, state, MoveCause::Other);
                }
                state.diverged = true;
            },
            TypedExpr::Break(brk) => {
                if let Some(value) = &brk.value {
                    self.consume_expr(value, module, state, MoveCause::Other);
                }
                self.reach_exit(state);
            },
        }
    }

    fn observe_call_expr(&mut self, expr: &'a TypedExpr, module: &Vec<String>, state: &mut FlowState)
        requires
            old(self).wf(),
            old(state).wf(),
            expr is Call,
        ensures
            final(self).wf(),
            final(state).wf(),
            final(self).registry == old(self).registry,
            final(self).world(final(state)@) == observe_within(
                old(self).cx(module),
                *expr,
                old(self).world(old(state)@),
            ),
        decreases *expr, 0int,
    {
        if let TypedExpr::Call { callee, args, .. } = expr {
            self.observe_expr(callee, module, state);
            let param_types: Option<&Vec<Type>> = match callee.ty() {
                Type::Fun(params, _) => Some(params),
                _ => None,
            };
            self.observe_call_args(args, param_types, module, state);
        }
    }

    fn observe_method_call_expr(&mut self, expr: &'a TypedExpr, module: &Vec<String>, state: &mut FlowState)
        requires
            old(self).wf(),
            old(state).wf(),
            expr is MethodCall,
        ensures
            final(self).wf(),
            final(state).wf(),
            final(self).registry == old(self).registry,
            final(self).world(final(state)@) == observe_within(
                old(self).cx(module),
                *expr,
                old(self).world(old(state)@),
            ),
        decreases *expr, 0int,
    {
        if let TypedExpr::MethodCall { receiver, method, args, .. } = expr {
            let kind: Option<ReceiverKind> = self.method_receiver_kind(
                receiver.ty(),
                method.as_str(),
                module,
            );
            match kind {
                Some(ReceiverKind::Value) => {
                    self.consume_expr(receiver, module, state, MoveCause::ByValueReceiver);
                },
                _ => {
                    self.observe_expr(receiver, module, state);
                },
            }
            let param_types: Option<Vec<Type>> = self.method_param_types(
                receiver.ty(),
                method.as_str(),
                module,
            );
            self.observe_call_args(args, param_types.as_ref(), module, state);
        }
    }

    fn observe_if_expr(&mut self, expr: &'a TypedExpr, module: &Vec<String>, state: &mut FlowState)
        requires
            old(self).wf(),
            old(state).wf(),
            expr is If,
        ensures
            final(self).wf(),
            final(state).wf(),
            final(self).registry == old(self).registry,
            final(self).world(final(state)@) == observe_within(
                old(self).cx(module),
                *expr,
                old(self).world(old(state)@),
            ),
        decreases *expr, 0int,
    {
        if let TypedExpr::If { condition, then_branch, else_branch, .. } = expr {
            self.observe_expr(condition, module, state);
            let mut then_state: FlowState = state.copy();
            self.check_block(then_branch, module, &mut then_state);
            // A branch that ends in `break`, `continue` or `return` never reaches
            // the code after the `if`, so what it moved is not joined into it. Its
            // moves were already routed to the loop's exit or back edge.
            if let Some(branch) = else_branch {
                let mut else_state: FlowState = state.copy();
                self.check_block(branch, module, &mut else_state);
                let mut joined: FlowState = state.copy();
                joined.moved = NameMap::new();
                assert(joined@.moved =~= Map::empty());
                if !then_state.diverged {
                    joined.join_path(state, &then_state);
                }
                if !else_state.diverged {
                    joined.join_path(state, &else_state);
                }
                if then_state.diverged && else_state.diverged {
                    state.diverged = true;
                } else {
                    state.moved = joined.moved;
                }
            } else if !then_state.diverged {
                // Without an `else`, the false path always falls through, so the `if` as
                // a whole cannot divert control.
                let before: FlowState = state.copy();
                state.join_path(&before, &then_state);
            }
        }
    }

    fn observe_closure_expr(&mut self, expr: &'a TypedExpr, module: &Vec<String>, state: &mut FlowState)
        requires
            old(self).wf(),
            old(state).wf(),
            expr is Closure,
        ensures
            final(self).wf(),
            final(state).wf(),
            final(self).registry == old(self).registry,
            final(self).world(final(state)@) == observe_within(
                old(self).cx(module),
                *expr,
                old(self).world(old(state)@),
            ),
        decreases *expr, 0int,
    {
        if let TypedExpr::Closure { params, body, span, .. } = expr {
            assert(self.cx(module) == (Cx { reg: *self.registry, module: texts(module@) }));
            self.capture_closure(body, params, span, state);
            let mut closure_state: FlowState = Self::closure_state(body);
            let names: Vec<String> = Self::names_of(params);
            Self::bind_names(&mut closure_state, &names);
            self.check_block(body, module, &mut closure_state);
        }
    }

    /// Route the current state to the innermost loop's back edge, as `continue`
    /// does: it reaches the next iteration without falling out of the bottom of
    /// the body, and then this path goes no further.
    fn reach_back_edge(&mut self, state: &mut FlowState)
        requires
            old(self).wf(),
            old(state).wf(),
        ensures
            final(self).wf(),
            final(state).wf(),
            final(self).registry == old(self).registry,
            final(self).world(final(state)@) == reach_back_edge(old(self).world(old(state)@)),
    {
        let ghost edges = flows_view(self.loop_back_edges@);
        assert(edges.len() == self.loop_back_edges@.len());
        match self.loop_back_edges.pop() {
            Some(edge) => {
                let mut back_edge: FlowState = edge;
                back_edge.union_from(state);
                self.loop_back_edges.push(back_edge);
                assert(flows_view(self.loop_back_edges@) =~= edges.drop_last().push(
                    union(edges.last(), state@),
                ));
            },
            None => {
                assert(flows_view(self.loop_back_edges@) =~= edges);
            },
        }
        state.diverged = true;
    }

    /// Route the current state to the innermost loop's exit, as `break` does.
    fn reach_exit(&mut self, state: &mut FlowState)
        requires
            old(self).wf(),
            old(state).wf(),
        ensures
            final(self).wf(),
            final(state).wf(),
            final(self).registry == old(self).registry,
            final(self).world(final(state)@) == reach_exit(old(self).world(old(state)@)),
    {
        let ghost exits = exits_view(self.loop_exits@);
        assert(exits.len() == self.loop_exits@.len());
        match self.loop_exits.pop() {
            Some(exit) => {
                let ghost before = exits.last();
                assert(before == exit@);
                let mut left: FlowState = state.copy();
                left.forget_inner(exit.depth);
                let ghost f = left@;
                assert(f == outer(state@, before.depth));
                let depth: usize = exit.depth;
                let merged: FlowState = if exit.reached {
                    let mut known: FlowState = exit.state;
                    known.keep_seen(&left);
                    let ghost narrowed = known@;
                    known.union_from(&left);
                    proof {
                        assert forall|k: Seq<char>| moves_of(narrowed, k) == moves_of(
                            before.state,
                            k,
                        ) by {}
                        assert(known@.moved =~= union(before.state, f).moved);
                    }
                    known
                } else {
                    left
                };
                assert(merged@ == left_with(before, state@).state);
                self.loop_exits.push(LoopExit { reached: true, state: merged, depth });
                assert(exits_view(self.loop_exits@) =~= exits.drop_last().push(
                    left_with(exits.last(), state@),
                ));
            },
            None => {
                assert(exits_view(self.loop_exits@) =~= exits);
            },
        }
        state.diverged = true;
    }

    fn observe_generic_closure_expr(
        &mut self,
        body: &'a GenericBody,
        params: &Vec<Param>,
        span: &Span,
        module: &Vec<String>,
        state: &mut FlowState,
    )
        requires
            old(self).wf(),
            old(state).wf(),
        ensures
            final(self).wf(),
            final(state).wf(),
            final(self).registry == old(self).registry,
            final(self).world(final(state)@) == walk_generic_closure(
                old(self).cx(module),
                *body,
                params@,
                span@,
                old(self).world(old(state)@),
            ),
        decreases *body, 0int,
    {
        match &body.symbolic {
            None => {
                self.report.record_skipped(span, "type context was unavailable");
            },
            Some(symbolic) => match &**symbolic {
                SymbolicBody::Unavailable { reason } => {
                    self.report.record_skipped(span, reason.as_str());
                },
                SymbolicBody::Elaborated { body: typed, env } => {
                    assert(self.cx(module) == (Cx { reg: *self.registry, module: texts(module@) }));
                    self.capture_closure(typed, params, span, state);
                    let mut closure_state: FlowState = Self::closure_state(typed);
                    Self::bind_typed_params(&mut closure_state, params, &env.arg_types);
                    let ghost before = envs_view(self.generic_envs@);
                    self.generic_envs.push(env);
                    assert(envs_view(self.generic_envs@) =~= before.push(*env));
                    self.check_block(typed, module, &mut closure_state);
                    let ghost within = envs_view(self.generic_envs@);
                    assert(within.len() == self.generic_envs@.len());
                    let _ = self.generic_envs.pop();
                    assert(envs_view(self.generic_envs@) =~= popped(within));
                },
            },
        }
    }

    /// Walk an expression whose value moves out of the place it names.
    pub fn consume_expr(
        &mut self,
        expr: &'a TypedExpr,
        module: &Vec<String>,
        state: &mut FlowState,
        cause: MoveCause,
    )
        requires
            old(self).wf(),
            old(state).wf(),
        ensures
            final(self).wf(),
            final(state).wf(),
            final(self).registry == old(self).registry,
            final(self).world(final(state)@) == consume(
                old(self).cx(module),
                *expr,
                cause,
                old(self).world(old(state)@),
            ),
        decreases *expr, 3int,
    {
        if let Some(place) = from_expr(expr) {
            let root_ty: Type = match state.binding_type(place.root()) {
                Some(ty) => ty.copy(),
                None => match Self::root_place_ty(expr) {
                    Some(ty) => ty.copy(),
                    None => expr.ty().copy(),
                },
            };
            let source: Place = self.source_of(place, &root_ty, module, cause);
            self.consume_place(&source, &root_ty, expr.span(), module, state, cause);
            match expr {
                TypedExpr::Index { index, .. } => {
                    self.observe_expr(index, module, state);
                },
                TypedExpr::FieldAccess { object, .. } => {
                    self.observe_projection_base_expr(object, module, state);
                },
                TypedExpr::TupleAccess { object, .. } => {
                    self.observe_projection_base_expr(object, module, state);
                },
                _ => {},
            }
            return;
        }
        // A tuple or array literal takes ownership of its elements, so building
        // one consumes them.
        match expr {
            TypedExpr::Tuple(items, _, _) => {
                self.consume_exprs(items, module, state, cause);
            },
            TypedExpr::Array(items, _, _) => {
                self.consume_exprs(items, module, state, cause);
            },
            _ => {
                self.observe_expr(expr, module, state);
            },
        }
    }

    fn observe_projection_base_expr(
        &mut self,
        expr: &'a TypedExpr,
        module: &Vec<String>,
        state: &mut FlowState,
    )
        requires
            old(self).wf(),
            old(state).wf(),
        ensures
            final(self).wf(),
            final(state).wf(),
            final(self).registry == old(self).registry,
            final(self).world(final(state)@) == observe_base(
                old(self).cx(module),
                *expr,
                old(self).world(old(state)@),
            ),
        decreases *expr, 3int,
    {
        if let Some(place) = from_expr(expr) {
            if self.record_descendant_use_if_moved(&place, expr.span(), state) {
                return;
            }
            match expr {
                TypedExpr::FieldAccess { object, .. } => {
                    self.observe_projection_base_expr(object, module, state);
                },
                TypedExpr::TupleAccess { object, .. } => {
                    self.observe_projection_base_expr(object, module, state);
                },
                TypedExpr::Index { object, index, .. } => {
                    self.observe_projection_base_expr(object, module, state);
                    self.observe_expr(index, module, state);
                },
                _ => {},
            }
            return;
        }
        self.observe_expr(expr, module, state);
    }

    /// Check what an assignment reads, which is everything under the final
    /// step but not the target itself.
    ///
    /// Writing to a place does not read it: that is how a moved binding is
    /// made valid again (`let moved = s; s = "again";`). What must still hold
    /// is that the write can be reached: `p.f = v` requires a valid `p`, and
    /// `*p = v` a valid `p`.
    fn observe_assignment_target(
        &mut self,
        typed_place: &'a TypedPlace,
        module: &Vec<String>,
        state: &mut FlowState,
    )
        requires
            old(self).wf(),
            old(state).wf(),
        ensures
            final(self).wf(),
            final(state).wf(),
            final(self).registry == old(self).registry,
            final(self).world(final(state)@) == observe_target(
                old(self).cx(module),
                *typed_place,
                old(self).world(old(state)@),
            ),
        decreases *typed_place, 0int,
    {
        match typed_place {
            TypedPlace::Ident(_, _) => {},
            TypedPlace::Deref { object, .. } => {
                self.observe_expr(object, module, state);
            },
            TypedPlace::Field { object, .. } => {
                self.observe_projection_base_typed_place(object, module, state);
            },
            TypedPlace::Tuple { object, .. } => {
                self.observe_projection_base_typed_place(object, module, state);
            },
            TypedPlace::Index { object, index, .. } => {
                self.observe_projection_base_typed_place(object, module, state);
                self.observe_expr(index, module, state);
            },
        }
    }

    fn typed_place_span<'b>(place: &'b TypedPlace) -> (r: &'b Span)
        ensures
            r@ == target_span(*place),
    {
        match place {
            TypedPlace::Ident(_, span) => span,
            TypedPlace::Field { span, .. } => span,
            TypedPlace::Tuple { span, .. } => span,
            TypedPlace::Index { span, .. } => span,
            TypedPlace::Deref { span, .. } => span,
        }
    }

    fn observe_projection_base_typed_place(
        &mut self,
        typed_place: &'a TypedPlace,
        module: &Vec<String>,
        state: &mut FlowState,
    )
        requires
            old(self).wf(),
            old(state).wf(),
        ensures
            final(self).wf(),
            final(state).wf(),
            final(self).registry == old(self).registry,
            final(self).world(final(state)@) == observe_target_base(
                old(self).cx(module),
                *typed_place,
                old(self).world(old(state)@),
            ),
        decreases *typed_place, 0int,
    {
        if let Some(place) = from_typed_place(typed_place) {
            if self.record_descendant_use_if_moved(
                &place,
                Self::typed_place_span(typed_place),
                state,
            ) {
                return;
            }
        }
        match typed_place {
            TypedPlace::Ident(_, _) => {},
            TypedPlace::Deref { object, .. } => {
                self.observe_expr(object, module, state);
            },
            TypedPlace::Field { object, .. } => {
                self.observe_projection_base_typed_place(object, module, state);
            },
            TypedPlace::Tuple { object, .. } => {
                self.observe_projection_base_typed_place(object, module, state);
            },
            TypedPlace::Index { object, index, .. } => {
                self.observe_projection_base_typed_place(object, module, state);
                self.observe_expr(index, module, state);
            },
        }
    }

    /// A write makes its target valid again, along with everything under it:
    /// assigning `p.f` replaces `p.f.g` too.
    fn reinitialize_assigned_place(typed_place: &TypedPlace, state: &mut FlowState)
        requires
            old(state).wf(),
        ensures
            final(state).wf(),
            final(state)@ == (match target_place(*typed_place) {
                Some(place) => super::flow::reinitialized(old(state)@, place),
                None => old(state)@,
            }),
    {
        if let Some(place) = from_typed_place(typed_place) {
            state.reinitialize(&place);
        }
    }
}

} // verus!
