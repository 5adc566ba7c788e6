//! Elaboration: from the syntax tree of a checked module to its typed tree.
use vstd::prelude::*;
use crate::ast::{AssignTarget, Expr};
use crate::ast::{SymbolId, UnaryOp};
use crate::error::{MetelError, MetelErrorV, TypeErrorCode};
use crate::span::{Span, SpanV};
use crate::text::{decimal_text, join_texts, joined, joined3};
use crate::text::{opt_text, texts};
use crate::typed_ast::{ty_of, TypedBlock};
use crate::typed_ast::{TypedBreakExpr, TypedExpr};
use crate::typed_ast::{TypedPlace, TypedReturnExpr};
use crate::types::{copy_named_types, named_types_view, peel_type_references};
use crate::types::{type_view, types_view, Type};
use crate::types::TypeV;
use super::bounds::find_label;
use super::calls::hints_view;
use super::coerce::fit;
use super::fields::{cannot_write_through, tuple_element_ty};
use super::literals::{construct_enum_literal_ty, construct_path, construct_struct_literal_ty};
use super::rules::{binop_result, block_result_type, block_type};
use super::rules::{construct_literal_type, find_loop_break_type};
use super::rules::{merge_branch_types, reject_dynamic_array_where_sized_expected};
use super::schemes::shorter;
use super::shapes::{apply_unary, hint_operand};
use super::shapes::{indexed_type, propagate, read_element_type};
use super::shapes::wrong_index;
use super::state::{LocalField, hint_view, local_fields_view, opt_type};
use super::state::{Elaborator, Facts};
use super::state::{lemma_bound_params_keep, lemma_pushed_keeps, pushed};
use super::state::StateV;
use super::steps::args_step;
use super::steps::{array_step, assign_step};
use super::steps::binop_step;
use super::steps::closure_step;
use super::steps::{expr_step, exprs_step};
use super::steps::field_types;
use super::steps::{guard_step, hint_at, hint_under};
use super::steps::{if_step, index_step};
use super::steps::{item_hint, last_name};
use super::steps::{left_step, loop_step};
use super::steps::named_step;
use super::steps::operands_step;
use super::steps::place_step;
use super::steps::{projected_fields, projection_step, record_step};
use super::steps::{struct_hints, struct_step, target_hint};
use super::steps::{target_step, tuple_place, Step};
use super::tree::{block_tree, expr_result, expr_tree};
use super::tree::{expr_trees, exprs_result, field_trees};
use super::tree::{lemma_tree_ty, place_tree, tree_ty, tree_types, BlockT};
use super::tree::{ExprT, PlaceT};

verus! {

/// An elaborated place, or what went wrong, as a mathematical object.
pub open spec fn place_result(r: Result<TypedPlace, MetelError>) -> Result<PlaceT, MetelErrorV> {
    match r {
        Ok(p) => Ok(place_tree(p)),
        Err(e) => Err(e@),
    }
}

/// An elaborated block, or what went wrong, as a mathematical object.
pub open spec fn block_result(r: Result<TypedBlock, MetelError>) -> Result<BlockT, MetelErrorV> {
    match r {
        Ok(b) => Ok(block_tree(b)),
        Err(e) => Err(e@),
    }
}

/// Elaborated fields, or what went wrong, as a mathematical object.
pub open spec fn fields_result(r: Result<Vec<(String, TypedExpr)>, MetelError>) -> Result<
    Seq<(Seq<char>, ExprT)>,
    MetelErrorV,
> {
    match r {
        Ok(v) => Ok(field_trees(v@)),
        Err(e) => Err(e@),
    }
}

/// The value that leaves a construct, or what went wrong, as a mathematical object.
pub open spec fn left_result(r: Result<Option<Box<TypedExpr>>, MetelError>) -> Result<
    Option<Box<ExprT>>,
    MetelErrorV,
> {
    match r {
        Ok(Some(e)) => Ok(Some(Box::new(expr_tree(*e)))),
        Ok(None) => Ok(None),
        Err(e) => Err(e@),
    }
}

/// An expression that may be missing, as a mathematical object.
pub open spec fn opt_expr(x: Option<TypedExpr>) -> Option<ExprT> {
    match x {
        Some(e) => Some(expr_tree(e)),
        None => None,
    }
}

/// An expression that may be missing, or what went wrong, as a mathematical object.
pub open spec fn guard_result(r: Result<Option<TypedExpr>, MetelError>) -> Result<
    Option<ExprT>,
    MetelErrorV,
> {
    match r {
        Ok(x) => Ok(opt_expr(x)),
        Err(e) => Err(e@),
    }
}

/// What an unfinished list has come to.
pub open spec fn exprs_so_far(v: Seq<TypedExpr>, f: Option<MetelError>) -> Result<
    Seq<ExprT>,
    MetelErrorV,
> {
    match f {
        Some(e) => Err(e@),
        None => Ok(expr_trees(v)),
    }
}

/// What an unfinished list of fields has come to.
pub open spec fn fields_so_far(v: Seq<(String, TypedExpr)>, f: Option<MetelError>) -> Result<
    Seq<(Seq<char>, ExprT)>,
    MetelErrorV,
> {
    match f {
        Some(e) => Err(e@),
        None => Ok(field_trees(v)),
    }
}

/// The error of a part of the syntax that stands where it cannot.
pub fn misplaced() -> (r: MetelError)
    ensures
        r@ == super::fields::fault("misplaced syntax"@),
{
    MetelError::internal("misplaced syntax".to_owned())
}

/// The types of expressions.
pub fn types_of(v: &Vec<TypedExpr>) -> (r: Vec<Type>)
    ensures
        types_view(r@) == tree_types(expr_trees(v@)),
{
    broadcast use lemma_tree_ty;

    let mut out: Vec<Type> = Vec::new();
    let mut i: usize = 0;
    while i < v.len()
        invariant
            i <= v@.len(),
            out@.len() == i,
            forall|k: int|
                0 <= k < i ==> type_view(#[trigger] out@[k]) == tree_ty(expr_tree(v@[k])),
        decreases v@.len() - i,
    {
        assert(tree_ty(expr_tree(v@[i as int])) == ty_of(v@[i as int])@);
        out.push(v[i].ty().copy());
        i += 1;
    }
    assert(types_view(out@) =~= tree_types(expr_trees(v@)));
    out
}

fn field_types_of(v: &Vec<(String, TypedExpr)>) -> (r: Vec<(String, Type)>)
    ensures
        named_types_view(r@) == field_types(field_trees(v@)),
{
    broadcast use lemma_tree_ty;

    let mut out: Vec<(String, Type)> = Vec::new();
    let mut i: usize = 0;
    while i < v.len()
        invariant
            i <= v@.len(),
            out@.len() == i,
            forall|k: int|
                0 <= k < i ==> (#[trigger] out@[k]).0@ == v@[k].0@ && type_view(out@[k].1)
                    == tree_ty(expr_tree(v@[k].1)),
        decreases v@.len() - i,
    {
        assert(tree_ty(expr_tree(v@[i as int].1)) == ty_of(v@[i as int].1)@);
        out.push((v[i].0.clone(), v[i].1.ty().copy()));
        i += 1;
    }
    assert(named_types_view(out@) =~= field_types(field_trees(v@)));
    out
}

impl<'a, 'c> Elaborator<'a, 'c> {
    pub fn swap_return(&mut self, ty: Option<Type>) -> (r: Option<Type>)
        ensures
            final(self).fx == old(self).fx,
            final(self).budget == old(self).budget,
            opt_type(r) == old(self).st().ret,
            final(self).st() == (StateV { ret: opt_type(ty), ..old(self).st() }),
    {
        let mut other: Option<Type> = ty;
        std::mem::swap(&mut self.return_ty, &mut other);
        other
    }

    fn swap_break(&mut self, ty: Option<Type>) -> (r: Option<Type>)
        ensures
            final(self).fx == old(self).fx,
            final(self).budget == old(self).budget,
            opt_type(r) == old(self).st().brk,
            final(self).st() == (StateV { brk: opt_type(ty), ..old(self).st() }),
    {
        let mut other: Option<Type> = ty;
        std::mem::swap(&mut self.break_ty, &mut other);
        other
    }

    pub fn swap_self_name(&mut self, name: Option<String>) -> (r: Option<String>)
        ensures
            final(self).fx == old(self).fx,
            final(self).budget == old(self).budget,
            opt_text(r) == old(self).st().self_name,
            final(self).st() == (StateV { self_name: opt_text(name), ..old(self).st() }),
    {
        let mut other: Option<String> = name;
        std::mem::swap(&mut self.self_name, &mut other);
        other
    }

    /// Elaborate an expression, where a type may be expected of it.
    #[verifier::rlimit(40)]
    pub fn construct_expr(&mut self, e: &'a Expr, hint: Option<&Type>) -> (r: Result<
        TypedExpr<'a>,
        MetelError,
    >)
        ensures
            final(self).fx == old(self).fx,
            final(self).budget == old(self).budget,
            expr_step(
                old(self).fx,
                old(self).budget as nat,
                *e,
                hint_view(hint),
                old(self).st(),
            ) == (Step { out: expr_result(r), st: final(self).st() }),
        decreases old(self).budget, *e, 5int, 0int,
    {
        match e {
            Expr::Literal(lit, span) => match construct_literal_type(lit, hint, span) {
                Ok(t) => Ok(TypedExpr::Literal(lit.copy(), t, span.copy())),
                Err(x) => Err(x),
            },
            Expr::Ident(name, span) => self.construct_ident(name.as_str(), hint, span),
            Expr::ResolvedPath { resolved, original, span, .. } => match self.lookup(
                resolved.as_str(),
            ) {
                Some(t) => Ok(TypedExpr::Ident(resolved.clone(), t, span.copy())),
                None => Err(
                    MetelError::type_error(
                        TypeErrorCode::T0003,
                        joined3("undefined name `", join_texts(original, "::").as_str(), "`"),
                        span,
                    ),
                ),
            },
            Expr::Path(path, span) => construct_path(&self.fx, path, span),
            Expr::BinOp(_, _, _, _) => self.construct_binop(e),
            Expr::UnaryOp(_, _, _) => self.construct_unaryop(e, hint),
            Expr::Tuple(_, _) => self.construct_tuple(e, hint),
            Expr::RecordLiteral { .. } => self.construct_record(e, hint),
            Expr::Array(_, _) => self.construct_array(e, hint),
            Expr::RepeatArray(_, _, _) => self.construct_repeat(e, hint),
            Expr::Call { .. } => self.construct_call(e, hint),
            Expr::Index { .. } => self.construct_index(e),
            Expr::If { .. } => self.construct_if(e, hint),
            Expr::Assign { .. } => self.construct_assign(e),
            Expr::FieldAccess { .. } => self.construct_field(e, hint),
            Expr::TupleAccess { .. } => self.construct_tuple_access(e, hint),
            Expr::MethodCall { .. } => self.construct_method_call(e),
            Expr::StructLiteral { .. } => self.construct_struct_literal(e, hint),
            Expr::RecordProjection { path, fields, span } => self.construct_projection(
                path,
                fields,
                span,
            ),
            Expr::Closure { .. } => self.construct_closure(e),
            Expr::Match(_) => self.construct_match(e, hint),
            Expr::PropagateError { .. } => self.construct_propagate_error(e, hint),
            Expr::Ascribe { .. } => self.construct_ascribe(e, hint),
            Expr::Cast { .. } => self.construct_cast(e, hint),
            Expr::Loop { .. } => self.construct_loop(e, hint),
            Expr::Return(_) => self.construct_return(e, hint),
            Expr::Break(_) => self.construct_break(e, hint),
            Expr::Continue(span) => {
                if self.loop_depth == 0 {
                    return Err(
                        MetelError::type_error(
                            TypeErrorCode::T0021,
                            "`continue` used with no enclosing loop".to_owned(),
                            span,
                        ),
                    );
                }
                Ok(TypedExpr::Continue(span.copy()))
            },
        }
    }

    fn construct_unaryop(&mut self, e: &'a Expr, hint: Option<&Type>) -> (r: Result<
        TypedExpr<'a>,
        MetelError,
    >)
        requires
            *e is UnaryOp,
        ensures
            final(self).fx == old(self).fx,
            final(self).budget == old(self).budget,
            expr_step(
                old(self).fx,
                old(self).budget as nat,
                *e,
                hint_view(hint),
                old(self).st(),
            ) == (Step { out: expr_result(r), st: final(self).st() }),
        decreases old(self).budget, *e, 4int, 0int,
    {
        match e {
            Expr::UnaryOp(op, operand, span) => match self.construct_expr(
                operand,
                hint_operand(*op, hint),
            ) {
                Ok(t) => apply_unary(*op, t, span),
                Err(f) => Err(f),
            },
            _ => Err(misplaced()),
        }
    }

    fn construct_tuple(&mut self, e: &'a Expr, hint: Option<&Type>) -> (r: Result<
        TypedExpr<'a>,
        MetelError,
    >)
        requires
            *e is Tuple,
        ensures
            final(self).fx == old(self).fx,
            final(self).budget == old(self).budget,
            expr_step(
                old(self).fx,
                old(self).budget as nat,
                *e,
                hint_view(hint),
                old(self).st(),
            ) == (Step { out: expr_result(r), st: final(self).st() }),
        decreases old(self).budget, *e, 4int, 0int,
    {
        match e {
            Expr::Tuple(items, span) => match self.construct_exprs(items, None) {
                Ok(v) => {
                    let types: Vec<Type> = types_of(&v);
                    Ok(TypedExpr::Tuple(v, Type::Tuple(types), span.copy()))
                },
                Err(f) => Err(f),
            },
            _ => Err(misplaced()),
        }
    }

    fn construct_repeat(&mut self, e: &'a Expr, hint: Option<&Type>) -> (r: Result<
        TypedExpr<'a>,
        MetelError,
    >)
        requires
            *e is RepeatArray,
        ensures
            final(self).fx == old(self).fx,
            final(self).budget == old(self).budget,
            expr_step(
                old(self).fx,
                old(self).budget as nat,
                *e,
                hint_view(hint),
                old(self).st(),
            ) == (Step { out: expr_result(r), st: final(self).st() }),
        decreases old(self).budget, *e, 4int, 0int,
    {
        broadcast use lemma_tree_ty;

        match e {
            Expr::RepeatArray(item, count, span) => match self.construct_expr(
                item,
                hint_item(hint),
            ) {
                Ok(t) => {
                    assert(tree_ty(expr_tree(t)) == ty_of(t)@);
                    let ty: Type = Type::SizedArray(Box::new(t.ty().copy()), *count);
                    Ok(TypedExpr::RepeatArray(Box::new(t), *count, ty, span.copy()))
                },
                Err(f) => Err(f),
            },
            _ => Err(misplaced()),
        }
    }

    fn construct_field(&mut self, e: &'a Expr, hint: Option<&Type>) -> (r: Result<
        TypedExpr<'a>,
        MetelError,
    >)
        requires
            *e is FieldAccess,
        ensures
            final(self).fx == old(self).fx,
            final(self).budget == old(self).budget,
            expr_step(
                old(self).fx,
                old(self).budget as nat,
                *e,
                hint_view(hint),
                old(self).st(),
            ) == (Step { out: expr_result(r), st: final(self).st() }),
        decreases old(self).budget, *e, 4int, 0int,
    {
        broadcast use lemma_tree_ty;

        match e {
            Expr::FieldAccess { object, field, span } => match self.construct_expr(object, None) {
                Ok(t) => {
                    assert(tree_ty(expr_tree(t)) == ty_of(t)@);
                    match self.read_field_ty(t.ty(), field.as_str(), span) {
                        Ok(ty) => Ok(
                            TypedExpr::FieldAccess {
                                object: Box::new(t),
                                field: field.clone(),
                                ty,
                                span: span.copy(),
                            },
                        ),
                        Err(f) => Err(f),
                    }
                },
                Err(f) => Err(f),
            },
            _ => Err(misplaced()),
        }
    }

    fn construct_tuple_access(&mut self, e: &'a Expr, hint: Option<&Type>) -> (r: Result<
        TypedExpr<'a>,
        MetelError,
    >)
        requires
            *e is TupleAccess,
        ensures
            final(self).fx == old(self).fx,
            final(self).budget == old(self).budget,
            expr_step(
                old(self).fx,
                old(self).budget as nat,
                *e,
                hint_view(hint),
                old(self).st(),
            ) == (Step { out: expr_result(r), st: final(self).st() }),
        decreases old(self).budget, *e, 4int, 0int,
    {
        broadcast use lemma_tree_ty;

        match e {
            Expr::TupleAccess { object, index, span } => match self.construct_expr(object, None) {
                Ok(t) => {
                    assert(tree_ty(expr_tree(t)) == ty_of(t)@);
                    match read_element_type(t.ty(), *index, span) {
                        Ok(ty) => Ok(
                            TypedExpr::TupleAccess {
                                object: Box::new(t),
                                index: *index,
                                ty,
                                span: span.copy(),
                            },
                        ),
                        Err(f) => Err(f),
                    }
                },
                Err(f) => Err(f),
            },
            _ => Err(misplaced()),
        }
    }

    fn construct_propagate_error(&mut self, e: &'a Expr, hint: Option<&Type>) -> (r: Result<
        TypedExpr<'a>,
        MetelError,
    >)
        requires
            *e is PropagateError,
        ensures
            final(self).fx == old(self).fx,
            final(self).budget == old(self).budget,
            expr_step(
                old(self).fx,
                old(self).budget as nat,
                *e,
                hint_view(hint),
                old(self).st(),
            ) == (Step { out: expr_result(r), st: final(self).st() }),
        decreases old(self).budget, *e, 4int, 0int,
    {
        match e {
            Expr::PropagateError { expr, span } => match self.construct_expr(expr, None) {
                Ok(t) => propagate(t, &self.return_ty, span),
                Err(f) => Err(f),
            },
            _ => Err(misplaced()),
        }
    }

    fn construct_ascribe(&mut self, e: &'a Expr, hint: Option<&Type>) -> (r: Result<
        TypedExpr<'a>,
        MetelError,
    >)
        requires
            *e is Ascribe,
        ensures
            final(self).fx == old(self).fx,
            final(self).budget == old(self).budget,
            expr_step(
                old(self).fx,
                old(self).budget as nat,
                *e,
                hint_view(hint),
                old(self).st(),
            ) == (Step { out: expr_result(r), st: final(self).st() }),
        decreases old(self).budget, *e, 4int, 0int,
    {
        match e {
            Expr::Ascribe { expr, ann, span } => match self.annotated(ann, span) {
                Ok(ty) => match self.construct_expr(expr, Some(&ty)) {
                    Ok(t) => fit(&self.fx, Some(&ty), t, span),
                    Err(f) => Err(f),
                },
                Err(f) => Err(f),
            },
            _ => Err(misplaced()),
        }
    }

    fn construct_cast(&mut self, e: &'a Expr, hint: Option<&Type>) -> (r: Result<
        TypedExpr<'a>,
        MetelError,
    >)
        requires
            *e is Cast,
        ensures
            final(self).fx == old(self).fx,
            final(self).budget == old(self).budget,
            expr_step(
                old(self).fx,
                old(self).budget as nat,
                *e,
                hint_view(hint),
                old(self).st(),
            ) == (Step { out: expr_result(r), st: final(self).st() }),
        decreases old(self).budget, *e, 4int, 0int,
    {
        match e {
            Expr::Cast { expr, target_type, span } => match self.construct_expr(expr, None) {
                Ok(t) => match self.annotated(target_type, span) {
                    Ok(ty) => Ok(
                        TypedExpr::Cast {
                            expr: Box::new(t),
                            target_type: target_type.copy(),
                            ty,
                            span: span.copy(),
                        },
                    ),
                    Err(f) => Err(f),
                },
                Err(f) => Err(f),
            },
            _ => Err(misplaced()),
        }
    }

    fn construct_return(&mut self, e: &'a Expr, hint: Option<&Type>) -> (r: Result<
        TypedExpr<'a>,
        MetelError,
    >)
        requires
            *e is Return,
        ensures
            final(self).fx == old(self).fx,
            final(self).budget == old(self).budget,
            expr_step(
                old(self).fx,
                old(self).budget as nat,
                *e,
                hint_view(hint),
                old(self).st(),
            ) == (Step { out: expr_result(r), st: final(self).st() }),
        decreases old(self).budget, *e, 4int, 0int,
    {
        match e {
            Expr::Return(x) => {
                let ty: Option<Type> = copy_opt_type(&self.return_ty);
                match self.construct_left(&x.value, ty.as_ref()) {
                    Ok(value) => Ok(
                        TypedExpr::Return(TypedReturnExpr { value, span: x.span.copy() }),
                    ),
                    Err(f) => Err(f),
                }
            },
            _ => Err(misplaced()),
        }
    }

    fn construct_break(&mut self, e: &'a Expr, hint: Option<&Type>) -> (r: Result<
        TypedExpr<'a>,
        MetelError,
    >)
        requires
            *e is Break,
        ensures
            final(self).fx == old(self).fx,
            final(self).budget == old(self).budget,
            expr_step(
                old(self).fx,
                old(self).budget as nat,
                *e,
                hint_view(hint),
                old(self).st(),
            ) == (Step { out: expr_result(r), st: final(self).st() }),
        decreases old(self).budget, *e, 4int, 0int,
    {
        match e {
            Expr::Break(x) => {
                if self.loop_depth == 0 {
                    return Err(
                        MetelError::type_error(
                            TypeErrorCode::T0021,
                            "`break` used with no enclosing loop".to_owned(),
                            &x.span,
                        ),
                    );
                }
                let ty: Option<Type> = copy_opt_type(&self.break_ty);
                match self.construct_left(&x.value, ty.as_ref()) {
                    Ok(value) => Ok(TypedExpr::Break(TypedBreakExpr { value, span: x.span.copy() })),
                    Err(f) => Err(f),
                }
            },
            _ => Err(misplaced()),
        }
    }

    pub fn construct_left(&mut self, value: &'a Option<Box<Expr>>, ty: Option<&Type>) -> (r: Result<
        Option<Box<TypedExpr<'a>>>,
        MetelError,
    >)
        ensures
            final(self).fx == old(self).fx,
            final(self).budget == old(self).budget,
            left_step(
                old(self).fx,
                old(self).budget as nat,
                *value,
                hint_view(ty),
                old(self).st(),
            ) == (Step { out: left_result(r), st: final(self).st() }),
        decreases old(self).budget, *value, 1int, 0int,
    {
        match value {
            None => Ok(None),
            Some(e) => match self.construct_expr(e, ty) {
                Ok(t) => match fit(&self.fx, ty, t, e.span()) {
                    Ok(v) => Ok(Some(Box::new(v))),
                    Err(f) => Err(f),
                },
                Err(f) => Err(f),
            },
        }
    }

    pub fn construct_guard(&mut self, value: &'a Option<Expr>) -> (r: Result<
        Option<TypedExpr<'a>>,
        MetelError,
    >)
        ensures
            final(self).fx == old(self).fx,
            final(self).budget == old(self).budget,
            guard_step(old(self).fx, old(self).budget as nat, *value, old(self).st()) == (Step {
                out: guard_result(r),
                st: final(self).st(),
            }),
        decreases old(self).budget, *value, 1int, 0int,
    {
        match value {
            None => Ok(None),
            Some(e) => match self.construct_expr(e, None) {
                Ok(t) => Ok(Some(t)),
                Err(f) => Err(f),
            },
        }
    }

    pub fn construct_exprs(&mut self, v: &'a Vec<Expr>, hint: Option<&Type>) -> (r: Result<
        Vec<TypedExpr<'a>>,
        MetelError,
    >)
        ensures
            final(self).fx == old(self).fx,
            final(self).budget == old(self).budget,
            exprs_step(
                old(self).fx,
                old(self).budget as nat,
                v@,
                hint_view(hint),
                old(self).st(),
                v@.len() as int,
            ) == (Step { out: exprs_result(r), st: final(self).st() }),
            r matches Ok(out) ==> out@.len() == v@.len(),
        decreases old(self).budget, v@, 1int, 0int,
    {
        let ghost start = self.st();
        let mut out: Vec<TypedExpr<'a>> = Vec::new();
        assert(expr_trees(out@) =~= Seq::empty());
        let mut stopped: Option<MetelError> = None;
        let mut i: usize = 0;
        while i < v.len()
            invariant
                i <= v@.len(),
                self.fx == old(self).fx,
                self.budget == old(self).budget,
                stopped is None ==> out@.len() == i,
                exprs_step(
                    self.fx,
                    self.budget as nat,
                    v@,
                    hint_view(hint),
                    start,
                    i as int,
                ) == (Step { out: exprs_so_far(out@, stopped), st: self.st() }),
            decreases v@.len() - i,
        {
            if stopped.is_none() {
                let ghost before = out@;
                match self.construct_expr(&v[i], hint) {
                    Ok(t) => {
                        out.push(t);
                        assert(expr_trees(out@) =~= expr_trees(before).push(expr_tree(t)));
                    },
                    Err(f) => {
                        stopped = Some(f);
                    },
                }
            }
            i += 1;
        }
        match stopped {
            Some(f) => Err(f),
            None => Ok(out),
        }
    }

    pub fn construct_args(
        &mut self,
        v: &'a Vec<Expr>,
        hints: &Vec<Option<Type>>,
        strict: bool,
    ) -> (r: Result<Vec<TypedExpr<'a>>, MetelError>)
        ensures
            final(self).fx == old(self).fx,
            final(self).budget == old(self).budget,
            args_step(
                old(self).fx,
                old(self).budget as nat,
                v@,
                hints_view(hints@),
                strict,
                old(self).st(),
                v@.len() as int,
            ) == (Step { out: exprs_result(r), st: final(self).st() }),
        decreases old(self).budget, v@, 1int, 0int,
    {
        let ghost start = self.st();
        let ghost hs = hints_view(hints@);
        let mut out: Vec<TypedExpr<'a>> = Vec::new();
        assert(expr_trees(out@) =~= Seq::empty());
        let mut stopped: Option<MetelError> = None;
        let mut i: usize = 0;
        while i < v.len()
            invariant
                i <= v@.len(),
                self.fx == old(self).fx,
                self.budget == old(self).budget,
                hs == hints_view(hints@),
                args_step(
                    self.fx,
                    self.budget as nat,
                    v@,
                    hs,
                    strict,
                    start,
                    i as int,
                ) == (Step { out: exprs_so_far(out@, stopped), st: self.st() }),
            decreases v@.len() - i,
        {
            if stopped.is_none() {
                let ghost before = out@;
                let hint: Option<&Type> = if i < hints.len() {
                    hints[i].as_ref()
                } else {
                    None
                };
                assert(hint_view(hint) == hint_at(hs, i as int));
                match self.construct_expr(&v[i], hint) {
                    Ok(t) => {
                        let found: Option<MetelError> = if strict {
                            reject_dynamic_array_where_sized_expected(hint, &t)
                        } else {
                            None
                        };
                        if found.is_some() {
                            stopped = found;
                        } else {
                            out.push(t);
                            assert(expr_trees(out@) =~= expr_trees(before).push(expr_tree(t)));
                        }
                    },
                    Err(f) => {
                        stopped = Some(f);
                    },
                }
            }
            i += 1;
        }
        match stopped {
            Some(f) => Err(f),
            None => Ok(out),
        }
    }

    fn construct_named(&mut self, v: &'a Vec<(String, Expr)>, hints: &Vec<(String, Type)>) -> (r:
        Result<Vec<(String, TypedExpr<'a>)>, MetelError>)
        ensures
            final(self).fx == old(self).fx,
            final(self).budget == old(self).budget,
            named_step(
                old(self).fx,
                old(self).budget as nat,
                v@,
                named_types_view(hints@),
                old(self).st(),
                v@.len() as int,
            ) == (Step { out: fields_result(r), st: final(self).st() }),
        decreases old(self).budget, v@, 1int, 0int,
    {
        let ghost start = self.st();
        let ghost hs = named_types_view(hints@);
        let mut out: Vec<(String, TypedExpr<'a>)> = Vec::new();
        assert(field_trees(out@) =~= Seq::empty());
        let mut stopped: Option<MetelError> = None;
        let mut i: usize = 0;
        while i < v.len()
            invariant
                i <= v@.len(),
                self.fx == old(self).fx,
                self.budget == old(self).budget,
                hs == named_types_view(hints@),
                named_step(self.fx, self.budget as nat, v@, hs, start, i as int) == (Step {
                    out: fields_so_far(out@, stopped),
                    st: self.st(),
                }),
            decreases v@.len() - i,
        {
            if stopped.is_none() {
                let ghost before = out@;
                let hint: Option<&Type> = find_label(hints, v[i].0.as_str());
                assert(hint_view(hint) == hint_under(hs, v@[i as int].0@));
                match self.construct_expr(&v[i].1, hint) {
                    Ok(t) => {
                        out.push((v[i].0.clone(), t));
                        assert(field_trees(out@) =~= field_trees(before).push(
                            (v@[i as int].0@, expr_tree(t)),
                        ));
                    },
                    Err(f) => {
                        stopped = Some(f);
                    },
                }
            }
            i += 1;
        }
        match stopped {
            Some(f) => Err(f),
            None => Ok(out),
        }
    }

    fn construct_operands(&mut self, e: &'a Expr) -> (r: Result<
        (TypedExpr<'a>, TypedExpr<'a>),
        MetelError,
    >)
        requires
            *e is BinOp,
        ensures
            final(self).fx == old(self).fx,
            final(self).budget == old(self).budget,
            operands_step(old(self).fx, old(self).budget as nat, *e, old(self).st()) == (Step {
                out: match r {
                    Ok(p) => Ok((expr_tree(p.0), expr_tree(p.1))),
                    Err(f) => Err(f@),
                },
                st: final(self).st(),
            }),
        decreases old(self).budget, *e, 1int, 0int,
    {
        broadcast use lemma_tree_ty;

        match e {
            Expr::BinOp(left, _, right, _) => {
                let l: TypedExpr<'a> = match self.construct_expr(left, None) {
                    Ok(x) => x,
                    Err(f) => {
                        return Err(f);
                    },
                };
                let x: TypedExpr<'a> = match self.construct_expr(right, None) {
                    Ok(x) => x,
                    Err(f) => {
                        return Err(f);
                    },
                };
                assert(tree_ty(expr_tree(l)) == ty_of(l)@);
                assert(tree_ty(expr_tree(x)) == ty_of(x)@);
                if matches!(l.ty(), Type::I64 | Type::F64) && x.ty().is_numeric() && !x.ty().same(
                    l.ty(),
                ) {
                    return match self.construct_expr(left, Some(x.ty())) {
                        Ok(again) => Ok((again, x)),
                        Err(f) => Err(f),
                    };
                }
                if matches!(x.ty(), Type::I64 | Type::F64) && l.ty().is_numeric() && !l.ty().same(
                    x.ty(),
                ) {
                    return match self.construct_expr(right, Some(l.ty())) {
                        Ok(again) => Ok((l, again)),
                        Err(f) => Err(f),
                    };
                }
                Ok((l, x))
            },
            _ => Err(misplaced()),
        }
    }

    fn construct_binop(&mut self, e: &'a Expr) -> (r: Result<TypedExpr<'a>, MetelError>)
        requires
            *e is BinOp,
        ensures
            final(self).fx == old(self).fx,
            final(self).budget == old(self).budget,
            binop_step(old(self).fx, old(self).budget as nat, *e, old(self).st()) == (Step {
                out: expr_result(r),
                st: final(self).st(),
            }),
        decreases old(self).budget, *e, 2int, 0int,
    {
        broadcast use lemma_tree_ty;

        match e {
            Expr::BinOp(_, op, _, span) => match self.construct_operands(e) {
                Ok((l, x)) => {
                    assert(tree_ty(expr_tree(l)) == ty_of(l)@);
                    match binop_result(*op, l.ty(), span) {
                        Ok(t) => Ok(
                            TypedExpr::BinOp(Box::new(l), *op, Box::new(x), t, span.copy()),
                        ),
                        Err(f) => Err(f),
                    }
                },
                Err(f) => Err(f),
            },
            _ => Err(misplaced()),
        }
    }

    fn construct_record(&mut self, e: &'a Expr, hint: Option<&Type>) -> (r: Result<
        TypedExpr<'a>,
        MetelError,
    >)
        requires
            *e is RecordLiteral,
        ensures
            final(self).fx == old(self).fx,
            final(self).budget == old(self).budget,
            record_step(
                old(self).fx,
                old(self).budget as nat,
                *e,
                hint_view(hint),
                old(self).st(),
            ) == (Step { out: expr_result(r), st: final(self).st() }),
        decreases old(self).budget, *e, 4int, 0int,
    {
        match e {
            Expr::RecordLiteral { fields, span } => {
                let hints: Vec<(String, Type)> = match hint {
                    Some(Type::Record(s)) => copy_named_types(s),
                    _ => Vec::new(),
                };
                assert(named_types_view(hints@) =~= match hint_view(hint) {
                    Some(TypeV::Record(s)) => s,
                    _ => Seq::empty(),
                });
                match self.construct_named(fields, &hints) {
                    Ok(v) => {
                        let ty: Type = match hint {
                            Some(Type::Record(_)) => Type::Record(hints),
                            _ => Type::Record(field_types_of(&v)),
                        };
                        Ok(TypedExpr::RecordLiteral { fields: v, ty, span: span.copy() })
                    },
                    Err(f) => Err(f),
                }
            },
            _ => Err(misplaced()),
        }
    }

    #[verifier::rlimit(30)]
    fn construct_array(&mut self, e: &'a Expr, hint: Option<&Type>) -> (r: Result<
        TypedExpr<'a>,
        MetelError,
    >)
        requires
            *e is Array,
        ensures
            final(self).fx == old(self).fx,
            final(self).budget == old(self).budget,
            array_step(
                old(self).fx,
                old(self).budget as nat,
                *e,
                hint_view(hint),
                old(self).st(),
            ) == (Step { out: expr_result(r), st: final(self).st() }),
        decreases old(self).budget, *e, 4int, 0int,
    {
        broadcast use lemma_tree_ty;

        match e {
            Expr::Array(items, span) => {
                if items.len() == 0 {
                    return match hint {
                        Some(t) => {
                            let none: Vec<TypedExpr<'a>> = Vec::new();
                            assert(expr_trees(none@) =~= Seq::empty());
                            Ok(TypedExpr::Array(none, t.copy(), span.copy()))
                        },
                        None => Err(
                            MetelError::type_error(
                                TypeErrorCode::T0002,
                                "cannot infer element type of empty array; add a type annotation".to_owned(),
                                span,
                            ),
                        ),
                    };
                }
                if let Some(Type::SizedArray(_, count)) = hint {
                    if items.len() as u64 != *count {
                        let mut out: String = joined3(
                            "expected array of ",
                            decimal_text(*count).as_str(),
                            " element(s), got ",
                        );
                        out.append(decimal_text(items.len() as u64).as_str());
                        return Err(MetelError::type_error(TypeErrorCode::T0001, out, span));
                    }
                }
                match self.construct_exprs(items, hint_item(hint)) {
                    Ok(v) => {
                        assert(expr_trees(v@).len() == v@.len());
                        assert(expr_trees(v@)[0] == expr_tree(v@[0]));
                        assert(tree_ty(expr_tree(v@[0])) == ty_of(v@[0])@);
                        let ty: Type = match hint {
                            Some(Type::SizedArray(item, count)) => Type::SizedArray(
                                Box::new(item.copy()),
                                *count,
                            ),
                            Some(Type::Array(item)) => Type::Array(Box::new(item.copy())),
                            _ => Type::Array(Box::new(v[0].ty().copy())),
                        };
                        Ok(TypedExpr::Array(v, ty, span.copy()))
                    },
                    Err(f) => Err(f),
                }
            },
            _ => Err(misplaced()),
        }
    }

    fn construct_index(&mut self, e: &'a Expr) -> (r: Result<TypedExpr<'a>, MetelError>)
        requires
            *e is Index,
        ensures
            final(self).fx == old(self).fx,
            final(self).budget == old(self).budget,
            index_step(old(self).fx, old(self).budget as nat, *e, old(self).st()) == (Step {
                out: expr_result(r),
                st: final(self).st(),
            }),
        decreases old(self).budget, *e, 4int, 0int,
    {
        broadcast use lemma_tree_ty;

        match e {
            Expr::Index { object, index, span } => {
                let o: TypedExpr<'a> = match self.construct_expr(object, None) {
                    Ok(x) => x,
                    Err(f) => {
                        return Err(f);
                    },
                };
                let i: TypedExpr<'a> = match self.construct_expr(index, Some(&Type::U64)) {
                    Ok(x) => x,
                    Err(f) => {
                        return Err(f);
                    },
                };
                assert(tree_ty(expr_tree(o)) == ty_of(o)@);
                assert(tree_ty(expr_tree(i)) == ty_of(i)@);
                match indexed_type(o.ty(), i.ty(), index, span) {
                    Ok(ty) => Ok(
                        TypedExpr::Index {
                            object: Box::new(o),
                            index: Box::new(i),
                            ty,
                            span: span.copy(),
                        },
                    ),
                    Err(f) => Err(f),
                }
            },
            _ => Err(misplaced()),
        }
    }

    fn construct_if(&mut self, e: &'a Expr, hint: Option<&Type>) -> (r: Result<
        TypedExpr<'a>,
        MetelError,
    >)
        requires
            *e is If,
        ensures
            final(self).fx == old(self).fx,
            final(self).budget == old(self).budget,
            if_step(
                old(self).fx,
                old(self).budget as nat,
                *e,
                hint_view(hint),
                old(self).st(),
            ) == (Step { out: expr_result(r), st: final(self).st() }),
        decreases old(self).budget, *e, 4int, 0int,
    {
        match e {
            Expr::If { condition, then_branch, else_branch, span } => {
                let c: TypedExpr<'a> = match self.construct_expr(condition, None) {
                    Ok(x) => x,
                    Err(f) => {
                        return Err(f);
                    },
                };
                let taken: TypedBlock<'a> = match self.construct_block(then_branch, hint) {
                    Ok(x) => x,
                    Err(f) => {
                        return Err(f);
                    },
                };
                match else_branch {
                    None => Ok(
                        TypedExpr::If {
                            condition: Box::new(c),
                            then_branch: taken,
                            else_branch: None,
                            ty: Type::Unit,
                            span: span.copy(),
                        },
                    ),
                    Some(block) => match self.construct_block(block, hint) {
                        Ok(other) => {
                            let mut types: Vec<Type> = Vec::new();
                            types.push(block_result_type(&taken));
                            types.push(block_result_type(&other));
                            assert(types_view(types@) =~= seq![
                                block_type(block_tree(taken)),
                                block_type(block_tree(other)),
                            ]);
                            let ty: Type = merge_branch_types(&types);
                            Ok(
                                TypedExpr::If {
                                    condition: Box::new(c),
                                    then_branch: taken,
                                    else_branch: Some(other),
                                    ty,
                                    span: span.copy(),
                                },
                            )
                        },
                        Err(f) => Err(f),
                    },
                }
            },
            _ => Err(misplaced()),
        }
    }

    fn construct_loop(&mut self, e: &'a Expr, hint: Option<&Type>) -> (r: Result<
        TypedExpr<'a>,
        MetelError,
    >)
        requires
            *e is Loop,
        ensures
            final(self).fx == old(self).fx,
            final(self).budget == old(self).budget,
            loop_step(
                old(self).fx,
                old(self).budget as nat,
                *e,
                hint_view(hint),
                old(self).st(),
            ) == (Step { out: expr_result(r), st: final(self).st() }),
        decreases old(self).budget, *e, 4int, 0int,
    {
        match e {
            Expr::Loop { body, span } => {
                let expected: Option<Type> = match hint {
                    Some(t) => Some(t.copy()),
                    None => None,
                };
                let saved: Option<Type> = self.swap_break(expected);
                self.enter_loop();
                match self.construct_block(body, None) {
                    Ok(b) => {
                        self.exit_loop();
                        let _ = self.swap_break(saved);
                        let ty: Type = match find_loop_break_type(&b) {
                            Some(t) => t,
                            None => Type::Never,
                        };
                        Ok(TypedExpr::Loop { body: b, ty, span: span.copy() })
                    },
                    Err(f) => Err(f),
                }
            },
            _ => Err(misplaced()),
        }
    }

    fn construct_closure(&mut self, e: &'a Expr) -> (r: Result<TypedExpr<'a>, MetelError>)
        requires
            *e is Closure,
        ensures
            final(self).fx == old(self).fx,
            final(self).budget == old(self).budget,
            closure_step(old(self).fx, old(self).budget as nat, *e, old(self).st()) == (Step {
                out: expr_result(r),
                st: final(self).st(),
            }),
        decreases old(self).budget, *e, 4int, 0int,
    {
        let ghost start = self.st();
        match e {
            Expr::Closure { params, return_type, body, span } => {
                let types: Vec<Type> = match self.closure_param_types(params) {
                    Ok(t) => t,
                    Err(f) => {
                        return Err(f);
                    },
                };
                let ret: Type = match self.closure_return_type(return_type, span) {
                    Ok(t) => t,
                    Err(f) => {
                        return Err(f);
                    },
                };
                self.push_scope();
                self.bind_params(params, &types);
                proof {
                    lemma_pushed_keeps(start);
                    lemma_bound_params_keep(
                        pushed(start),
                        params@,
                        types_view(types@),
                        shorter(params@.len(), types_view(types@).len()),
                    );
                }
                assert(self.st().ret == start.ret && self.st().depth == start.depth);
                let saved: Option<Type> = self.swap_return(Some(ret.copy()));
                let depth: usize = self.loop_depth;
                self.loop_depth = 0;
                match self.construct_block(body, Some(&ret)) {
                    Ok(b) => {
                        self.loop_depth = depth;
                        let _ = self.swap_return(saved);
                        self.pop_scope();
                        Ok(
                            TypedExpr::Closure {
                                params,
                                return_type,
                                body: b,
                                ty: Type::Fun(types, Box::new(ret)),
                                span: span.copy(),
                            },
                        )
                    },
                    Err(f) => Err(f),
                }
            },
            _ => Err(misplaced()),
        }
    }

    fn construct_base(&mut self, path: &Vec<String>, span: &Span) -> (r: Result<
        TypedExpr<'a>,
        MetelError,
    >)
        ensures
            final(self).fx == old(self).fx,
            final(self).budget == old(self).budget,
            ({
                let names = texts(path@);
                let base = if names.len() == 1 {
                    super::literals::ident_expr(old(self).fx, old(self).st(), names[0], None, span@)
                } else {
                    (super::literals::path_expr(old(self).fx, names, span@), old(self).st().next)
                };
                &&& expr_result(r) == base.0
                &&& final(self).st() == (StateV { next: base.1, ..old(self).st() })
            }),
    {
        assert(texts(path@).len() == path@.len());
        if path.len() == 1 {
            assert(texts(path@)[0] == path@[0]@);
            self.construct_ident(path[0].as_str(), None, span)
        } else {
            construct_path(&self.fx, path, span)
        }
    }
}

/// What is expected of the element of an array that is expected.
fn hint_item(hint: Option<&Type>) -> (r: Option<&Type>)
    ensures
        hint_view(r) == item_hint(hint_view(hint)),
{
    match hint {
        Some(Type::SizedArray(item, _)) => Some(item),
        Some(Type::Array(item)) => Some(item),
        _ => None,
    }
}

pub fn copy_opt_type(t: &Option<Type>) -> (r: Option<Type>)
    ensures
        opt_type(r) == opt_type(*t),
{
    match t {
        Some(t) => Some(t.copy()),
        None => None,
    }
}


/// Without an expected type, a name takes no fresh variable.
proof fn lemma_ident_keeps_counter(fx: Facts, st: StateV, name: Seq<char>, span: SpanV)
    ensures
        super::literals::ident_expr(fx, st, name, None, span).1 == st.next,
{
}

impl<'a, 'c> Elaborator<'a, 'c> {
    fn construct_projection(&mut self, path: &'a Vec<String>, fields: &'a Vec<String>, span: &Span) -> (r:
        Result<TypedExpr<'a>, MetelError>)
        ensures
            final(self).fx == old(self).fx,
            final(self).budget == old(self).budget,
            projection_step(old(self).fx, texts(path@), texts(fields@), span@, old(self).st()) == (
            Step { out: expr_result(r), st: final(self).st() }),
    {
        broadcast use lemma_tree_ty;

        let ghost start = self.st();
        let ghost names = texts(fields@);
        assert(names.len() == fields@.len());
        proof {
            lemma_ident_keeps_counter(self.fx, start, texts(path@)[0], span@);
        }
        let first: TypedExpr<'a> = match self.construct_base(path, span) {
            Ok(x) => x,
            Err(f) => {
                return Err(f);
            },
        };
        let ghost base = expr_tree(first);
        assert(self.st() == start);
        assert(tree_ty(base) == ty_of(first)@);
        match peel_type_references(first.ty()) {
            Type::Named(name, args) => {
                let mut out: Vec<(String, TypedExpr<'a>)> = Vec::new();
                assert(field_trees(out@) =~= Seq::empty());
                let mut stopped: Option<MetelError> = None;
                let mut i: usize = 0;
                while i < fields.len()
                    invariant
                        i <= fields@.len(),
                        names == texts(fields@),
                        names.len() == fields@.len(),
                        self.fx == old(self).fx,
                        self.budget == old(self).budget,
                        self.st() == start,
                        super::literals::ident_expr(self.fx, start, texts(path@)[0], None, span@).1
                            == start.next,
                        (if texts(path@).len() == 1 {
                            super::literals::ident_expr(
                                self.fx,
                                start,
                                texts(path@)[0],
                                None,
                                span@,
                            ).0
                        } else {
                            super::literals::path_expr(self.fx, texts(path@), span@)
                        }) == Ok::<ExprT, MetelErrorV>(base),
                        projected_fields(
                            self.fx,
                            start,
                            base,
                            name@,
                            types_view(args@),
                            names,
                            span@,
                            i as int,
                        ) == fields_so_far(out@, stopped),
                    decreases fields@.len() - i,
                {
                    assert(names[i as int] == fields@[i as int]@);
                    if stopped.is_none() {
                        let ghost before = out@;
                        match self.projected_field_ty(name.as_str(), args, fields[i].as_str(), span) {
                            Ok(ty) => match self.construct_base(path, span) {
                                Ok(object) => {
                                    let one: TypedExpr<'a> = TypedExpr::FieldAccess {
                                        object: Box::new(object),
                                        field: fields[i].clone(),
                                        ty,
                                        span: span.copy(),
                                    };
                                    out.push((fields[i].clone(), one));
                                    assert(field_trees(out@) =~= field_trees(before).push(
                                        (names[i as int], expr_tree(one)),
                                    ));
                                },
                                Err(f) => {
                                    stopped = Some(f);
                                },
                            },
                            Err(f) => {
                                stopped = Some(f);
                            },
                        }
                    }
                    i += 1;
                }
                if let Some(f) = stopped {
                    return Err(f);
                }
                let ty: Type = Type::Record(field_types_of(&out));
                Ok(TypedExpr::RecordLiteral { fields: out, ty, span: span.copy() })
            },
            other => Err(
                MetelError::type_error(
                    TypeErrorCode::T0002,
                    joined(
                        "record projection requires a nominal struct value, got ",
                        other.describe().as_str(),
                    ),
                    span,
                ),
            ),
        }
    }

    fn struct_hints_of(&self, name: &str) -> (r: Vec<(String, Type)>)
        ensures
            named_types_view(r@) == struct_hints(self.st(), name@),
    {
        let mut out: Vec<(String, Type)> = Vec::new();
        match self.get_struct_fields(name) {
            Some(fields) => {
                let ghost views = local_fields_view(fields@);
                let n: usize = fields.len();
                let mut i: usize = 0;
                while i < n
                    invariant
                        i <= n,
                        n == fields@.len(),
                        out@.len() == i,
                        views == local_fields_view(fields@),
                        forall|k: int|
                            0 <= k < i ==> (#[trigger] out@[k]).0@ == views[n - 1 - k].name
                                && type_view(out@[k].1) == views[n - 1 - k].ty,
                    decreases n - i,
                {
                    let f: &LocalField = &fields[n - 1 - i];
                    out.push((f.name.clone(), f.ty.copy()));
                    i += 1;
                }
                assert(named_types_view(out@) =~= struct_hints(self.st(), name@));
            },
            None => {
                assert(named_types_view(out@) =~= Seq::empty());
            },
        }
        out
    }

    #[verifier::rlimit(30)]
    fn construct_struct_literal(&mut self, e: &'a Expr, hint: Option<&Type>) -> (r: Result<
        TypedExpr<'a>,
        MetelError,
    >)
        requires
            *e is StructLiteral,
        ensures
            final(self).fx == old(self).fx,
            final(self).budget == old(self).budget,
            struct_step(
                old(self).fx,
                old(self).budget as nat,
                *e,
                hint_view(hint),
                old(self).st(),
            ) == (Step { out: expr_result(r), st: final(self).st() }),
        decreases old(self).budget, *e, 4int, 0int,
    {
        match e {
            Expr::StructLiteral { path, fields, symbol_id, span } => {
                let p: Vec<String> = match self.resolve_literal_path(path, hint, span) {
                    Ok(p) => p,
                    Err(f) => {
                        return Err(f);
                    },
                };
                let ghost names = texts(p@);
                assert(names.len() == p@.len());
                let name: String = last_of(&p);
                let hints: Vec<(String, Type)> = self.struct_hints_of(name.as_str());
                let v: Vec<(String, TypedExpr<'a>)> = match self.construct_named(fields, &hints) {
                    Ok(v) => v,
                    Err(f) => {
                        return Err(f);
                    },
                };
                let two: bool = p.len() == 2;
                let typed: Result<Type, MetelError> = if two {
                    assert(names[0] == p@[0]@ && names[1] == p@[1]@);
                    construct_enum_literal_ty(
                        &self.fx,
                        p[0].as_str(),
                        p[1].as_str(),
                        &v,
                        hint,
                        span,
                        &mut self.gen,
                    )
                } else {
                    construct_struct_literal_ty(&self.fx, name.as_str(), &v, span)
                };
                match typed {
                    Ok(ty) => {
                        let type_id: Option<SymbolId> = match symbol_id {
                            Some(id) => Some(*id),
                            None => if two {
                                self.fx.type_symbol_id(p[0].as_str())
                            } else {
                                self.fx.type_symbol_id(name.as_str())
                            },
                        };
                        Ok(
                            TypedExpr::StructLiteral {
                                path: p,
                                fields: v,
                                ty,
                                type_id,
                                span: span.copy(),
                            },
                        )
                    },
                    Err(f) => Err(f),
                }
            },
            _ => Err(misplaced()),
        }
    }

    fn finish_tuple_place(&self, p: TypedPlace<'a>, index: usize, span: &Span) -> (r: Result<
        TypedPlace<'a>,
        MetelError,
    >)
        ensures
            place_result(r) == tuple_place(self.fx, self.st(), place_tree(p), index, span@),
    {
        match self.typed_place_ty(&p, span) {
            Ok(t) => match tuple_element_ty(&t, index, span) {
                Ok(_) => Ok(TypedPlace::Tuple { object: Box::new(p), index, span: span.copy() }),
                Err(f) => Err(f),
            },
            Err(f) => Err(f),
        }
    }

    #[verifier::rlimit(30)]
    fn expr_to_typed_place(&mut self, e: &'a Expr) -> (r: Result<TypedPlace<'a>, MetelError>)
        ensures
            final(self).fx == old(self).fx,
            final(self).budget == old(self).budget,
            place_step(old(self).fx, old(self).budget as nat, *e, old(self).st()) == (Step {
                out: place_result(r),
                st: final(self).st(),
            }),
        decreases old(self).budget, *e, 4int, 0int,
    {
        broadcast use lemma_tree_ty;

        match e {
            Expr::Ident(name, span) => Ok(TypedPlace::Ident(name.clone(), span.copy())),
            Expr::FieldAccess { object, field, span } => match self.expr_to_typed_place(object) {
                Ok(p) => Ok(
                    TypedPlace::Field {
                        object: Box::new(p),
                        field: field.clone(),
                        span: span.copy(),
                    },
                ),
                Err(f) => Err(f),
            },
            Expr::TupleAccess { object, index, span } => match self.expr_to_typed_place(object) {
                Ok(p) => self.finish_tuple_place(p, *index, span),
                Err(f) => Err(f),
            },
            Expr::Index { object, index, span } => {
                let i: TypedExpr<'a> = match self.construct_expr(index, Some(&Type::U64)) {
                    Ok(x) => x,
                    Err(f) => {
                        return Err(f);
                    },
                };
                assert(tree_ty(expr_tree(i)) == ty_of(i)@);
                if !matches!(i.ty(), Type::U64) {
                    return Err(wrong_index(i.ty(), span));
                }
                match self.expr_to_typed_place(object) {
                    Ok(p) => Ok(
                        TypedPlace::Index {
                            object: Box::new(p),
                            index: Box::new(i),
                            span: span.copy(),
                        },
                    ),
                    Err(f) => Err(f),
                }
            },
            Expr::UnaryOp(op, inner, span) => {
                if *op != UnaryOp::Deref {
                    return Err(
                        MetelError::internal(
                            "invalid sub-expression in assignment target".to_owned(),
                        ),
                    );
                }
                match self.construct_expr(inner, None) {
                    Ok(t) => Ok(TypedPlace::Deref { object: Box::new(t), span: span.copy() }),
                    Err(f) => Err(f),
                }
            },
            _ => Err(
                MetelError::internal("invalid sub-expression in assignment target".to_owned()),
            ),
        }
    }

    #[verifier::rlimit(30)]
    fn assign_target_to_typed_place(&mut self, t: &'a AssignTarget) -> (r: Result<
        TypedPlace<'a>,
        MetelError,
    >)
        ensures
            final(self).fx == old(self).fx,
            final(self).budget == old(self).budget,
            target_step(old(self).fx, old(self).budget as nat, *t, old(self).st()) == (Step {
                out: place_result(r),
                st: final(self).st(),
            }),
        decreases old(self).budget, *t, 4int, 0int,
    {
        broadcast use lemma_tree_ty;

        match t {
            AssignTarget::Ident(name, span) => Ok(TypedPlace::Ident(name.clone(), span.copy())),
            AssignTarget::FieldAccess { object, field, span } => match self.expr_to_typed_place(
                object,
            ) {
                Ok(p) => Ok(
                    TypedPlace::Field {
                        object: Box::new(p),
                        field: field.clone(),
                        span: span.copy(),
                    },
                ),
                Err(f) => Err(f),
            },
            AssignTarget::TupleAccess { object, index, span } => match self.expr_to_typed_place(
                object,
            ) {
                Ok(p) => self.finish_tuple_place(p, *index, span),
                Err(f) => Err(f),
            },
            AssignTarget::Index { object, index, span } => {
                let i: TypedExpr<'a> = match self.construct_expr(index, Some(&Type::U64)) {
                    Ok(x) => x,
                    Err(f) => {
                        return Err(f);
                    },
                };
                assert(tree_ty(expr_tree(i)) == ty_of(i)@);
                if !matches!(i.ty(), Type::U64) {
                    return Err(wrong_index(i.ty(), span));
                }
                match self.expr_to_typed_place(object) {
                    Ok(p) => Ok(
                        TypedPlace::Index {
                            object: Box::new(p),
                            index: Box::new(i),
                            span: span.copy(),
                        },
                    ),
                    Err(f) => Err(f),
                }
            },
            AssignTarget::Deref { object, span } => match self.construct_expr(object, None) {
                Ok(o) => {
                    assert(tree_ty(expr_tree(o)) == ty_of(o)@);
                    if !matches!(o.ty(), Type::MutReference(_)) {
                        return Err(cannot_write_through(o.ty(), span));
                    }
                    Ok(TypedPlace::Deref { object: Box::new(o), span: span.copy() })
                },
                Err(f) => Err(f),
            },
        }
    }

    fn hint_target(&mut self, t: &'a AssignTarget) -> (r: Option<Type>)
        ensures
            final(self).fx == old(self).fx,
            final(self).budget == old(self).budget,
            target_hint(old(self).fx, old(self).budget as nat, *t, old(self).st()) == (
                opt_type(r),
                final(self).st(),
            ),
        decreases old(self).budget, *t, 3int, 0int,
    {
        broadcast use lemma_tree_ty;

        match t {
            AssignTarget::Ident(name, _) => self.lookup(name.as_str()),
            AssignTarget::Deref { object, .. } => match self.construct_expr(object, None) {
                Ok(o) => {
                    assert(tree_ty(expr_tree(o)) == ty_of(o)@);
                    match o.ty() {
                        Type::MutReference(inner) => Some(inner.copy()),
                        _ => None,
                    }
                },
                Err(_) => None,
            },
            _ => None,
        }
    }

    fn construct_assign(&mut self, e: &'a Expr) -> (r: Result<TypedExpr<'a>, MetelError>)
        requires
            *e is Assign,
        ensures
            final(self).fx == old(self).fx,
            final(self).budget == old(self).budget,
            assign_step(old(self).fx, old(self).budget as nat, *e, old(self).st()) == (Step {
                out: expr_result(r),
                st: final(self).st(),
            }),
        decreases old(self).budget, *e, 4int, 0int,
    {
        match e {
            Expr::Assign { target, op, value, span } => {
                let hint: Option<Type> = self.hint_target(target);
                let v: TypedExpr<'a> = match self.construct_expr(value, hint.as_ref()) {
                    Ok(x) => x,
                    Err(f) => {
                        return Err(f);
                    },
                };
                let p: TypedPlace<'a> = match self.assign_target_to_typed_place(target) {
                    Ok(p) => p,
                    Err(f) => {
                        return Err(f);
                    },
                };
                match self.typed_place_ty(&p, span) {
                    Ok(_) => Ok(
                        TypedExpr::Assign {
                            target: p,
                            op: *op,
                            value: Box::new(v),
                            ty: Type::Unit,
                            span: span.copy(),
                        },
                    ),
                    Err(f) => Err(f),
                }
            },
            _ => Err(misplaced()),
        }
    }
}

/// The last segment of a path, or the empty name.
pub fn last_of(path: &Vec<String>) -> (r: String)
    ensures
        r@ == last_name(texts(path@)),
{
    assert(texts(path@).len() == path@.len());
    if path.len() == 0 {
        String::new()
    } else {
        assert(texts(path@).last() == path@[path@.len() - 1]@);
        path[path.len() - 1].clone()
    }
}


} // verus!
