//! Elaboration of blocks, declarations, statements and matches.
use vstd::prelude::*;
use crate::ast::{AspectMethod, Block, Decl, Expr, FieldDecl, FunDecl, ImplBlock};
use crate::ast::MatchArm;
use crate::ast::{NativeBinding, Param, Polarity, Stmt, SymbolId, TypeExpr};
use crate::error::{opt_error, MetelError, MetelErrorV, TypeErrorCode};
use crate::infer::{infer_type_view, infer_types_view, InferType, InferTypeV, Substitution, TypeVar};
use crate::scheme::TypeScheme;
use crate::span::Span;
use crate::text::{join_texts, joined3, same_text, texts};
use crate::typed_ast::{ty_of, FunBody, GenericBody, TypedAspectDecl, TypedBlock, TypedDecl};
use crate::typed_ast::{TypedEnumDecl, TypedExpr, TypedForInit};
use crate::typed_ast::{TypedFunDecl, TypedImplBlock, TypedLetDecl, TypedMatchArm, TypedMatchExpr};
use crate::typed_ast::{TypedMutDecl, TypedStmt, TypedStructDecl, TypedWhileStmt};
use crate::types::{peel_type_references, type_view, types_view, Type};
use super::calls::resolve_aspect_id;
use super::coerce::fit;
use super::construct::{block_result, copy_opt_type, misplaced};
use super::fields::Bound;
use super::literals::{lower_signature, method_param_types, method_return_type};
use super::rules::{block_result_type, block_type, check_match_exhaustiveness};
use super::rules::{fun_body_diverges, merge_branch_types, native_key_for};
use super::schemes::shorter;
use super::shapes::{impl_defers_method_bodies, impl_target_head};
use super::shapes::{reject_inert_destructor, resolve_pattern};
use super::state::{lemma_bound_params_keep, lemma_pushed_keeps, pushed};
use super::state::{hint_view, local_fields_view, opt_type, Elaborator};
use super::state::{Facts, LocalField, LocalFieldV, LocalStruct, OverloadEntry};
use super::steps::{all_opaque, arm_step, arm_types, arms_step, binding_step, block_step, body_step};
use super::steps::{decl_step, decls_step, default_step, defaults_step, eager_type, first_at};
use super::steps::{ fun_step, generic_value, has_type_params, hoisted_funs};
use super::steps::{hoisted_structs, impl_step, inherited, is_generic, local_fields};
use super::steps::{loop_body_step, match_step, method_body_step, method_decl_step};
use super::steps::{method_decls_step, opaque_bindings, overload_type, provides};
use super::steps::{stmt_step, unknown_native, Step};
use super::tree::{arm_tree, arm_trees, block_tree, decl_tree, decl_trees, expr_result, expr_tree};
use super::tree::{fun_tree, fun_trees, init_tree, lemma_tree_ty, stmt_tree, tree_ty, ArmT, BindingT};
use super::tree::{DeclT, FunT, InitT, StmtT};

verus! {

/// An elaborated declaration, or what went wrong, as a mathematical object.
pub open spec fn decl_result(r: Result<TypedDecl, MetelError>) -> Result<DeclT, MetelErrorV> {
    match r {
        Ok(d) => Ok(decl_tree(d)),
        Err(e) => Err(e@),
    }
}

/// Elaborated declarations, or what went wrong, as a mathematical object.
pub open spec fn decls_result(r: Result<Vec<TypedDecl>, MetelError>) -> Result<
    Seq<DeclT>,
    MetelErrorV,
> {
    match r {
        Ok(v) => Ok(decl_trees(v@)),
        Err(e) => Err(e@),
    }
}

/// An elaborated function, or what went wrong, as a mathematical object.
pub open spec fn fun_result(r: Result<TypedFunDecl, MetelError>) -> Result<FunT, MetelErrorV> {
    match r {
        Ok(f) => Ok(fun_tree(f)),
        Err(e) => Err(e@),
    }
}

/// Elaborated functions, or what went wrong, as a mathematical object.
pub open spec fn funs_result(r: Result<Vec<TypedFunDecl>, MetelError>) -> Result<
    Seq<FunT>,
    MetelErrorV,
> {
    match r {
        Ok(v) => Ok(fun_trees(v@)),
        Err(e) => Err(e@),
    }
}

/// An elaborated statement, or what went wrong, as a mathematical object.
pub open spec fn stmt_result(r: Result<TypedStmt, MetelError>) -> Result<StmtT, MetelErrorV> {
    match r {
        Ok(s) => Ok(stmt_tree(s)),
        Err(e) => Err(e@),
    }
}

/// What a counted loop starts with, as a mathematical object.
#[verifier::opaque]
pub open spec fn opt_init(x: Option<TypedForInit>) -> Option<InitT> {
    match x {
        Some(i) => Some(init_tree(i)),
        None => None,
    }
}

/// What a counted loop starts with, or what went wrong, as a mathematical object.
pub open spec fn init_result(r: Result<Option<TypedForInit>, MetelError>) -> Result<
    Option<InitT>,
    MetelErrorV,
> {
    match r {
        Ok(x) => Ok(opt_init(x)),
        Err(e) => Err(e@),
    }
}

/// What an unfinished list of declarations has come to.
pub open spec fn decls_so_far(v: Seq<TypedDecl>, f: Option<MetelError>) -> Result<
    Seq<DeclT>,
    MetelErrorV,
> {
    match f {
        Some(e) => Err(e@),
        None => Ok(decl_trees(v)),
    }
}

/// What an unfinished list of functions has come to.
pub open spec fn funs_so_far(v: Seq<TypedFunDecl>, f: Option<MetelError>) -> Result<
    Seq<FunT>,
    MetelErrorV,
> {
    match f {
        Some(e) => Err(e@),
        None => Ok(fun_trees(v)),
    }
}

/// What an unfinished list of arms has come to.
pub open spec fn arms_so_far(v: Seq<TypedMatchArm>, f: Option<MetelError>) -> Result<
    Seq<ArmT>,
    MetelErrorV,
> {
    match f {
        Some(e) => Err(e@),
        None => Ok(arm_trees(v)),
    }
}

/// What an unfinished list of local fields has come to.
pub open spec fn locals_so_far(v: Seq<LocalField>, f: Option<MetelError>) -> Result<
    Seq<LocalFieldV>,
    MetelErrorV,
> {
    match f {
        Some(e) => Err(e@),
        None => Ok(local_fields_view(v)),
    }
}

/// A binding as a mathematical object.
pub open spec fn let_tree(x: TypedLetDecl) -> BindingT {
    BindingT {
        name: x.name@,
        type_ann: *x.type_ann,
        value: expr_tree(x.value),
        def_id: x.def_id,
        span: x.span@,
    }
}

fn arm_block_types(arms: &Vec<TypedMatchArm>) -> (r: Vec<Type>)
    ensures
        types_view(r@) == arm_types(arm_trees(arms@)),
{
    let mut out: Vec<Type> = Vec::new();
    let mut i: usize = 0;
    while i < arms.len()
        invariant
            i <= arms@.len(),
            out@.len() == i,
            forall|k: int|
                0 <= k < i ==> type_view(#[trigger] out@[k]) == block_type(
                    block_tree(arms@[k].body),
                ),
        decreases arms@.len() - i,
    {
        out.push(block_result_type(&arms[i].body));
        i += 1;
    }
    assert forall|k: int| 0 <= k < arms@.len() implies #[trigger] types_view(out@)[k] == arm_types(
        arm_trees(arms@),
    )[k] by {
        assert(arm_trees(arms@)[k] == arm_tree(arms@[k]));
        assert(type_view(out@[k]) == block_type(block_tree(arms@[k].body)));
    }
    assert(types_view(out@) =~= arm_types(arm_trees(arms@)));
    out
}

fn unknown_binding(binding: &NativeBinding) -> (r: MetelError)
    ensures
        r@ == unknown_native(texts(binding.key_path@), binding.span@),
{
    MetelError::type_error(
        TypeErrorCode::T0003,
        joined3(
            "unknown native binding `@",
            join_texts(&binding.key_path, ".").as_str(),
            "`; no host implementation is registered for it",
        ),
        &binding.span,
    )
}

fn with_body<'a>(f: &'a FunDecl, body: FunBody<'a>, symbol_id: Option<SymbolId>) -> (r: TypedFunDecl<'a>)
    ensures
        r.name@ == f.name@,
        *r.generics == f.generics,
        *r.params == f.params,
        *r.return_type == f.return_type,
        r.body == body,
        r.symbol_id == symbol_id,
        r.def_id is None,
        r.span@ == f.span@,
{
    TypedFunDecl {
        name: f.name.clone(),
        generics: &f.generics,
        params: &f.params,
        return_type: &f.return_type,
        body,
        symbol_id,
        def_id: None,
        span: f.span.copy(),
    }
}

fn provides_method(ib: &ImplBlock, name: &str) -> (r: bool)
    ensures
        r == provides(*ib, name@),
{
    let mut i: usize = 0;
    while i < ib.methods.len()
        invariant
            i <= ib.methods@.len(),
            forall|k: int| 0 <= k < i ==> (#[trigger] ib.methods@[k]).name@ != name@,
        decreases ib.methods@.len() - i,
    {
        if same_text(ib.methods[i].name.as_str(), name) {
            return true;
        }
        i += 1;
    }
    false
}

fn find_first(s: &Vec<TypeVar>, v: TypeVar) -> (r: usize)
    ensures
        r == first_at(s@, v),
        r <= s@.len(),
{
    assert(s@.skip(0) =~= s@);
    let mut i: usize = 0;
    while i < s.len()
        invariant
            i <= s@.len(),
            first_at(s@, v) == i + first_at(s@.skip(i as int), v),
        decreases s@.len() - i,
    {
        assert(s@.skip(i as int)[0] == s@[i as int]);
        assert(s@.skip(i as int).skip(1) =~= s@.skip(i + 1));
        if s[i] == v {
            return i;
        }
        i += 1;
    }
    i
}

fn is_all_opaque(scheme: &TypeScheme) -> (r: bool)
    ensures
        r == all_opaque(*scheme),
{
    let mut some: bool = false;
    let mut i: usize = 0;
    while i < scheme.opaque_returns.len()
        invariant
            i <= scheme.opaque_returns@.len(),
            some == exists|k: int| 0 <= k < i && (#[trigger] scheme.opaque_returns@[k]) is Some,
        decreases scheme.opaque_returns@.len() - i,
    {
        if scheme.opaque_returns[i].is_some() {
            some = true;
        }
        i += 1;
    }
    if !some {
        return false;
    }
    let mut j: usize = 0;
    while j < scheme.quantified_vars.len()
        invariant
            j <= scheme.quantified_vars@.len(),
            forall|k: int|
                0 <= k < j ==> first_at(
                    scheme.quantified_vars@,
                    #[trigger] scheme.quantified_vars@[k],
                ) < scheme.opaque_returns@.len(),
        decreases scheme.quantified_vars@.len() - j,
    {
        if find_first(&scheme.quantified_vars, scheme.quantified_vars[j])
            >= scheme.opaque_returns.len() {
            return false;
        }
        j += 1;
    }
    true
}

fn bind_opaque(scheme: &TypeScheme) -> (r: Substitution)
    ensures
        r@ == opaque_bindings(*scheme, scheme.quantified_vars@.len() as int),
{
    let mut out: Substitution = Substitution::new();
    let mut i: usize = 0;
    while i < scheme.quantified_vars.len()
        invariant
            i <= scheme.quantified_vars@.len(),
            out@ == opaque_bindings(*scheme, i as int),
        decreases scheme.quantified_vars@.len() - i,
    {
        if i < scheme.opaque_returns.len() {
            if let Some(o) = &scheme.opaque_returns[i] {
                out.bind(scheme.quantified_vars[i], InferType::Concrete(o.ty.copy()));
            }
        }
        i += 1;
    }
    out
}

fn type_of_overload(entry: &OverloadEntry) -> (r: InferType)
    ensures
        r@ == overload_type(*entry),
{
    let mut params: Vec<InferType> = Vec::new();
    let mut i: usize = 0;
    while i < entry.params.len()
        invariant
            i <= entry.params@.len(),
            params@.len() == i,
            forall|k: int|
                0 <= k < i ==> infer_type_view(#[trigger] params@[k]) == InferTypeV::Concrete(
                    entry.params@[k]@,
                ),
        decreases entry.params@.len() - i,
    {
        params.push(InferType::Concrete(entry.params[i].copy()));
        i += 1;
    }
    assert(infer_types_view(params@) =~= Seq::new(
        entry.params@.len(),
        |i: int| InferTypeV::Concrete(entry.params@[i]@),
    ));
    let ret: InferType = InferType::Concrete(entry.ret.copy());
    assert(ret@ == InferTypeV::Concrete(entry.ret@));
    InferType::Fun(params, Box::new(ret))
}

/// The type by which the body of a function is elaborated at once, if it is.
pub fn eager_type_of(fx: &Facts, f: &FunDecl) -> (r: Result<Option<InferType>, MetelError>)
    ensures
        match eager_type(*fx, *f) {
            Ok(Some(t)) => r matches Ok(Some(x)) && x@ == t,
            Ok(None) => r matches Ok(None),
            Err(e) => r matches Err(x) && x@ == e,
        },
{
    if let Some(entry) = fx.entry_for_decl(f) {
        return Ok(Some(type_of_overload(entry)));
    }
    match fx.scheme(f.name.as_str()) {
        None => Err(
            MetelError::internal(joined3("missing type for fn `", f.name.as_str(), "`")),
        ),
        Some(scheme) => {
            if scheme.quantified_vars.len() == 0 {
                Ok(Some(fx.subst.apply(&scheme.ty)))
            } else if is_all_opaque(scheme) {
                Ok(Some(bind_opaque(scheme).apply(&scheme.ty)))
            } else {
                Ok(None)
            }
        },
    }
}

impl<'a, 'c> Elaborator<'a, 'c> {
    fn local_fields_of(&self, s: &Vec<FieldDecl>) -> (r: Result<Vec<LocalField>, MetelError>)
        ensures
            match local_fields(self.fx, self.st(), s@, s@.len() as int) {
                Ok(f) => r matches Ok(x) && local_fields_view(x@) == f,
                Err(e) => r matches Err(x) && x@ == e,
            },
    {
        let mut out: Vec<LocalField> = Vec::new();
        assert(local_fields_view(out@) =~= Seq::empty());
        let mut stopped: Option<MetelError> = None;
        let mut i: usize = 0;
        while i < s.len()
            invariant
                i <= s@.len(),
                local_fields(self.fx, self.st(), s@, i as int) == locals_so_far(out@, stopped),
            decreases s@.len() - i,
        {
            if stopped.is_none() {
                let ghost before = out@;
                match self.annotated(&s[i].type_ann, &s[i].span) {
                    Ok(ty) => {
                        let ghost t = ty@;
                        out.push(
                            LocalField { name: s[i].name.clone(), ty, span: s[i].span.copy() },
                        );
                        assert(local_fields_view(out@) =~= local_fields_view(before).push(
                            LocalFieldV {
                                name: s@[i as int].name@,
                                ty: t,
                                span: s@[i as int].span@,
                            },
                        ));
                    },
                    Err(f) => {
                        stopped = Some(f);
                    },
                }
            }
            i += 1;
        }
        match stopped {
            Some(f) => Err(f),
            None => Ok(out),
        }
    }

    fn hoist_structs(&mut self, s: &Vec<Decl>) -> (r: Option<MetelError>)
        ensures
            final(self).fx == old(self).fx,
            final(self).budget == old(self).budget,
            hoisted_structs(old(self).fx, s@, old(self).st(), s@.len() as int) == (Bound {
                err: opt_error(r),
                st: final(self).st(),
            }),
    {
        let ghost start = self.st();
        let mut stopped: Option<MetelError> = None;
        let mut i: usize = 0;
        while i < s.len()
            invariant
                i <= s@.len(),
                self.fx == old(self).fx,
                self.budget == old(self).budget,
                hoisted_structs(self.fx, s@, start, i as int) == (Bound {
                    err: opt_error(stopped),
                    st: self.st(),
                }),
            decreases s@.len() - i,
        {
            if stopped.is_none() {
                if let Decl::Struct(sd) = &s[i] {
                    match self.local_fields_of(&sd.fields) {
                        Ok(fields) => {
                            self.register_local_struct(
                                LocalStruct { name: sd.name.clone(), fields },
                            );
                        },
                        Err(f) => {
                            stopped = Some(f);
                        },
                    }
                }
            }
            i += 1;
        }
        stopped
    }

    /// Declare the functions among declarations.
    pub fn hoist_funs(&mut self, s: &'a Vec<Decl>)
        ensures
            final(self).fx == old(self).fx,
            final(self).budget == old(self).budget,
            final(self).st() == hoisted_funs(s@, old(self).st(), s@.len() as int),
    {
        let ghost start = self.st();
        let mut i: usize = 0;
        while i < s.len()
            invariant
                i <= s@.len(),
                self.fx == old(self).fx,
                self.budget == old(self).budget,
                self.st() == hoisted_funs(s@, start, i as int),
            decreases s@.len() - i,
        {
            if let Decl::Fun(f) = &s[i] {
                self.register_fn_decl(f);
            }
            i += 1;
        }
    }

    /// Elaborate a block, where a type may be expected of its value.
    pub fn construct_block(&mut self, b: &'a Block, hint: Option<&Type>) -> (r: Result<
        TypedBlock<'a>,
        MetelError,
    >)
        ensures
            final(self).fx == old(self).fx,
            final(self).budget == old(self).budget,
            block_step(
                old(self).fx,
                old(self).budget as nat,
                *b,
                hint_view(hint),
                old(self).st(),
            ) == (Step { out: block_result(r), st: final(self).st() }),
        decreases old(self).budget, *b, 1int, 0int,
    {
        self.push_scope();
        self.push_struct_scope();
        if let Some(f) = self.hoist_structs(&b.stmts) {
            return Err(f);
        }
        self.hoist_funs(&b.stmts);
        let stmts: Vec<TypedDecl<'a>> = match self.construct_decls(&b.stmts) {
            Ok(v) => v,
            Err(f) => {
                return Err(f);
            },
        };
        let tail: Option<Box<TypedExpr<'a>>> = match self.construct_left(&b.tail, hint) {
            Ok(t) => t,
            Err(f) => {
                return Err(f);
            },
        };
        self.pop_struct_scope();
        self.pop_scope();
        Ok(TypedBlock { stmts, tail, span: b.span.copy() })
    }

    fn construct_decls(&mut self, v: &'a Vec<Decl>) -> (r: Result<Vec<TypedDecl<'a>>, MetelError>)
        ensures
            final(self).fx == old(self).fx,
            final(self).budget == old(self).budget,
            decls_step(
                old(self).fx,
                old(self).budget as nat,
                v@,
                old(self).st(),
                v@.len() as int,
            ) == (Step { out: decls_result(r), st: final(self).st() }),
        decreases old(self).budget, v@, 1int, 0int,
    {
        let ghost start = self.st();
        let mut out: Vec<TypedDecl<'a>> = Vec::new();
        assert(decl_trees(out@) =~= Seq::empty());
        let mut stopped: Option<MetelError> = None;
        let mut i: usize = 0;
        while i < v.len()
            invariant
                i <= v@.len(),
                self.fx == old(self).fx,
                self.budget == old(self).budget,
                decls_step(self.fx, self.budget as nat, v@, start, i as int) == (Step {
                    out: decls_so_far(out@, stopped),
                    st: self.st(),
                }),
            decreases v@.len() - i,
        {
            if stopped.is_none() {
                let ghost before = out@;
                match self.construct_decl(&v[i]) {
                    Ok(d) => {
                        out.push(d);
                        assert(decl_trees(out@) =~= decl_trees(before).push(decl_tree(d)));
                    },
                    Err(f) => {
                        stopped = Some(f);
                    },
                }
            }
            i += 1;
        }
        match stopped {
            Some(f) => Err(f),
            None => Ok(out),
        }
    }

    /// Elaborate a binding.
    pub fn construct_binding(
        &mut self,
        name: &'a String,
        ann: &'a Option<TypeExpr>,
        value: &'a Expr,
        span: &'a Span,
    ) -> (r: Result<TypedLetDecl<'a>, MetelError>)
        ensures
            final(self).fx == old(self).fx,
            final(self).budget == old(self).budget,
            binding_step(
                old(self).fx,
                old(self).budget as nat,
                name@,
                *ann,
                *value,
                span@,
                old(self).st(),
            ) == (Step {
                out: match r {
                    Ok(x) => Ok(let_tree(x)),
                    Err(f) => Err(f@),
                },
                st: final(self).st(),
            }),
        decreases old(self).budget, *value, 6int, 0int,
    {
        broadcast use lemma_tree_ty;

        let expected: Option<Type> = match self.opt_annotated(ann, span) {
            Ok(t) => t,
            Err(f) => {
                return Err(f);
            },
        };
        let x: TypedExpr<'a> = match self.construct_expr(value, expected.as_ref()) {
            Ok(x) => x,
            Err(f) => {
                return Err(f);
            },
        };
        let v: TypedExpr<'a> = match fit(&self.fx, expected.as_ref(), x, span) {
            Ok(v) => v,
            Err(f) => {
                return Err(f);
            },
        };
        assert(tree_ty(expr_tree(v)) == ty_of(v)@);
        let ty: Type = match expected {
            Some(t) => t,
            None => v.ty().copy(),
        };
        self.bind(name.as_str(), ty);
        Ok(
            TypedLetDecl {
                name: name.clone(),
                type_ann: ann,
                value: v,
                def_id: None,
                span: span.copy(),
            },
        )
    }

    fn generic_value_of(&self, name: &String, value: &'a Expr) -> (r: Option<TypedExpr<'a>>)
        ensures
            match r {
                Some(x) => generic_value(self.fx, self.st(), name@, *value) == Some(expr_tree(x)),
                None => generic_value(self.fx, self.st(), name@, *value) is None,
            },
    {
        let generic: bool = match self.fx.scheme(name.as_str()) {
            Some(scheme) => scheme.quantified_vars.len() > 0,
            None => false,
        };
        assert(generic == is_generic(self.fx, name@));
        if !generic {
            return None;
        }
        match value {
            Expr::Closure { params, return_type, body, span } => Some(
                TypedExpr::GenericClosure {
                    name: Some(name.clone()),
                    params,
                    return_type,
                    body: GenericBody { source: body, symbolic: None },
                    ty: Type::Unit,
                    span: span.copy(),
                },
            ),
            Expr::Ident(other, span) => match self.lookup_fn_decl(other.as_str()) {
                Some(f) => Some(
                    TypedExpr::GenericClosure {
                        name: Some(name.clone()),
                        params: &f.params,
                        return_type: &f.return_type,
                        body: GenericBody { source: &f.body, symbolic: None },
                        ty: Type::Unit,
                        span: span.copy(),
                    },
                ),
                None => None,
            },
            _ => None,
        }
    }

    /// Elaborate a declaration.
    #[verifier::rlimit(40)]
    pub fn construct_decl(&mut self, d: &'a Decl) -> (r: Result<TypedDecl<'a>, MetelError>)
        ensures
            final(self).fx == old(self).fx,
            final(self).budget == old(self).budget,
            decl_step(old(self).fx, old(self).budget as nat, *d, old(self).st()) == (Step {
                out: decl_result(r),
                st: final(self).st(),
            }),
        decreases old(self).budget, *d, 1int, 0int,
    {
        match d {
            Decl::Let(x) => match self.generic_value_of(&x.name, &x.value) {
                Some(value) => Ok(
                    TypedDecl::Let(
                        TypedLetDecl {
                            name: x.name.clone(),
                            type_ann: &x.type_ann,
                            value,
                            def_id: None,
                            span: x.span.copy(),
                        },
                    ),
                ),
                None => match self.construct_binding(&x.name, &x.type_ann, &x.value, &x.span) {
                    Ok(b) => Ok(TypedDecl::Let(b)),
                    Err(f) => Err(f),
                },
            },
            Decl::Mut(x) => match self.construct_binding(
                &x.name,
                &x.type_ann,
                &x.value,
                &x.span,
            ) {
                Ok(b) => Ok(TypedDecl::Mut(as_mut(b))),
                Err(f) => Err(f),
            },
            Decl::Fun(f) => match self.construct_fun_decl(f) {
                Ok(t) => Ok(TypedDecl::Fun(t)),
                Err(e) => Err(e),
            },
            Decl::Struct(x) => Ok(
                TypedDecl::Struct(
                    TypedStructDecl {
                        name: x.name.clone(),
                        generics: &x.generics,
                        fields: &x.fields,
                        span: x.span.copy(),
                    },
                ),
            ),
            Decl::Enum(x) => Ok(
                TypedDecl::Enum(
                    TypedEnumDecl {
                        name: x.name.clone(),
                        generics: &x.generics,
                        variants: &x.variants,
                        span: x.span.copy(),
                    },
                ),
            ),
            Decl::Impl(x) => self.construct_impl_decl(x),
            Decl::Aspect(x) => Ok(
                TypedDecl::Aspect(
                    TypedAspectDecl {
                        name: x.name.clone(),
                        generics: &x.generics,
                        methods: &x.methods,
                        span: x.span.copy(),
                    },
                ),
            ),
            Decl::Stmt(s) => match self.construct_stmt(s) {
                Ok(t) => Ok(TypedDecl::Stmt(Box::new(t))),
                Err(f) => Err(f),
            },
            Decl::TypeAlias(x) => Err(
                MetelError::internal(
                    joined3("type alias `", x.name.as_str(), "` was not expanded"),
                ),
            ),
        }
    }

    fn construct_body(
        &mut self,
        params: &'a Vec<Param>,
        types: &Vec<Type>,
        ret: &Option<Type>,
        body: &'a Block,
    ) -> (r: Result<TypedBlock<'a>, MetelError>)
        ensures
            final(self).fx == old(self).fx,
            final(self).budget == old(self).budget,
            body_step(
                old(self).fx,
                old(self).budget as nat,
                params@,
                types_view(types@),
                opt_type(*ret),
                *body,
                old(self).st(),
            ) == (Step { out: block_result(r), st: final(self).st() }),
        decreases old(self).budget, *body, 2int, 0int,
    {
        let ghost start = self.st();
        self.push_scope();
        self.bind_params(params, types);
        proof {
            lemma_pushed_keeps(start);
            lemma_bound_params_keep(
                pushed(start),
                params@,
                types_view(types@),
                shorter(params@.len(), types_view(types@).len()),
            );
        }
        assert(self.st().ret == start.ret);
        let saved: Option<Type> = self.swap_return(copy_opt_type(ret));
        match self.construct_block(body, ret.as_ref()) {
            Ok(b) => {
                let _ = self.swap_return(saved);
                self.pop_scope();
                Ok(b)
            },
            Err(f) => Err(f),
        }
    }

    /// Elaborate a function.
    #[verifier::rlimit(40)]
    pub fn construct_fun_decl(&mut self, f: &'a FunDecl) -> (r: Result<
        TypedFunDecl<'a>,
        MetelError,
    >)
        ensures
            final(self).fx == old(self).fx,
            final(self).budget == old(self).budget,
            fun_step(old(self).fx, old(self).budget as nat, *f, old(self).st()) == (Step {
                out: fun_result(r),
                st: final(self).st(),
            }),
        decreases old(self).budget, *f, 1int, 0int,
    {
        let symbol_id: Option<SymbolId> = match self.fx.entry_for_decl(f) {
            Some(entry) => Some(entry.symbol_id),
            None => None,
        };
        if let Some(binding) = &f.native {
            return match native_key_for(&binding.key_path) {
                Some(key) => Ok(with_body(f, FunBody::Native(key), symbol_id)),
                None => Err(unknown_binding(binding)),
            };
        }
        match eager_type_of(&self.fx, f) {
            Err(e) => Err(e),
            Ok(None) => Ok(
                with_body(
                    f,
                    FunBody::Generic(GenericBody { source: &f.body, symbolic: None }),
                    symbol_id,
                ),
            ),
            Ok(Some(t)) => match lower_signature(&t, f.name.as_str(), &f.span) {
                Err(e) => Err(e),
                Ok((types, ret)) => match self.construct_body(&f.params, &types, &ret, &f.body) {
                    Err(e) => Err(e),
                    Ok(b) => {
                        if matches!(ret, Some(Type::Never)) && !fun_body_diverges(&b) {
                            return Err(
                                MetelError::type_error(
                                    TypeErrorCode::T0016,
                                    joined3(
                                        "function `",
                                        f.name.as_str(),
                                        "` is declared `-> !` but does not diverge on all paths",
                                    ),
                                    &f.span,
                                ),
                            );
                        }
                        Ok(with_body(f, FunBody::Typed(b), symbol_id))
                    },
                },
            },
        }
    }

    fn construct_method_body(
        &mut self,
        target: &str,
        params: &'a Vec<Param>,
        return_type: &'a Option<TypeExpr>,
        span: &Span,
        body: &'a Block,
    ) -> (r: Result<TypedBlock<'a>, MetelError>)
        ensures
            final(self).fx == old(self).fx,
            final(self).budget == old(self).budget,
            method_body_step(
                old(self).fx,
                old(self).budget as nat,
                target@,
                params@,
                *return_type,
                span@,
                *body,
                old(self).st(),
            ) == (Step { out: block_result(r), st: final(self).st() }),
        decreases old(self).budget, *body, 3int, 0int,
    {
        let types: Vec<Type> = match method_param_types(&self.fx, target, params) {
            Ok(t) => t,
            Err(f) => {
                return Err(f);
            },
        };
        let ret: Option<Type> = match method_return_type(&self.fx, target, return_type, span) {
            Ok(t) => t,
            Err(f) => {
                return Err(f);
            },
        };
        let saved: Option<String> = self.swap_self_name(Some(target.to_owned()));
        match self.construct_body(params, &types, &ret, body) {
            Ok(b) => {
                let _ = self.swap_self_name(saved);
                Ok(b)
            },
            Err(f) => Err(f),
        }
    }

    fn construct_impl_method(&mut self, m: &'a FunDecl, target: &str, generic: bool) -> (r: Result<
        TypedFunDecl<'a>,
        MetelError,
    >)
        ensures
            final(self).fx == old(self).fx,
            final(self).budget == old(self).budget,
            method_decl_step(
                old(self).fx,
                old(self).budget as nat,
                *m,
                target@,
                generic,
                old(self).st(),
            ) == (Step { out: fun_result(r), st: final(self).st() }),
        decreases old(self).budget, *m, 1int, 0int,
    {
        if let Some(binding) = &m.native {
            return match native_key_for(&binding.key_path) {
                Some(key) => Ok(with_body(m, FunBody::Native(key), None)),
                None => Err(unknown_binding(binding)),
            };
        }
        let named: bool = match self.fx.registry.type_param_info(target) {
            Some(info) => info.names.len() > 0,
            None => false,
        };
        assert(named == has_type_params(self.fx, target@));
        if generic || m.generics.len() > 0 || named {
            return Ok(
                with_body(
                    m,
                    FunBody::Generic(GenericBody { source: &m.body, symbolic: None }),
                    None,
                ),
            );
        }
        match self.construct_method_body(target, &m.params, &m.return_type, &m.span, &m.body) {
            Ok(b) => Ok(with_body(m, FunBody::Typed(b), None)),
            Err(f) => Err(f),
        }
    }

    fn construct_impl_methods(&mut self, v: &'a Vec<FunDecl>, target: &str, generic: bool) -> (r: Result<
        Vec<TypedFunDecl<'a>>,
        MetelError,
    >)
        ensures
            final(self).fx == old(self).fx,
            final(self).budget == old(self).budget,
            method_decls_step(
                old(self).fx,
                old(self).budget as nat,
                v@,
                target@,
                generic,
                old(self).st(),
                v@.len() as int,
            ) == (Step { out: funs_result(r), st: final(self).st() }),
        decreases old(self).budget, v@, 1int, 0int,
    {
        let ghost start = self.st();
        let mut out: Vec<TypedFunDecl<'a>> = Vec::new();
        assert(fun_trees(out@) =~= Seq::empty());
        let mut stopped: Option<MetelError> = None;
        let mut i: usize = 0;
        while i < v.len()
            invariant
                i <= v@.len(),
                self.fx == old(self).fx,
                self.budget == old(self).budget,
                method_decls_step(
                    self.fx,
                    self.budget as nat,
                    v@,
                    target@,
                    generic,
                    start,
                    i as int,
                ) == (Step { out: funs_so_far(out@, stopped), st: self.st() }),
            decreases v@.len() - i,
        {
            if stopped.is_none() {
                let ghost before = out@;
                match self.construct_impl_method(&v[i], target, generic) {
                    Ok(m) => {
                        out.push(m);
                        assert(fun_trees(out@) =~= fun_trees(before).push(fun_tree(m)));
                    },
                    Err(f) => {
                        stopped = Some(f);
                    },
                }
            }
            i += 1;
        }
        match stopped {
            Some(f) => Err(f),
            None => Ok(out),
        }
    }

    fn construct_default_aspect_method(
        &mut self,
        ib: &'a ImplBlock,
        m: &'a AspectMethod,
        target: &str,
    ) -> (r: Result<TypedFunDecl<'a>, MetelError>)
        ensures
            final(self).fx == old(self).fx,
            final(self).budget == old(self).budget,
            default_step(
                old(self).fx,
                old(self).budget as nat,
                *ib,
                *m,
                target@,
                old(self).st(),
            ) == (Step { out: fun_result(r), st: final(self).st() }),
        decreases old(self).budget, *ib, 1int, 0int,
    {
        let body: &'a Block = match &m.default_body {
            Some(body) => body,
            None => {
                return Err(MetelError::internal("missing aspect default body".to_owned()));
            },
        };
        if self.budget == 0 {
            return Err(MetelError::internal("default methods nest too deeply".to_owned()));
        }
        self.budget -= 1;
        let made: Result<TypedBlock<'a>, MetelError> = self.construct_method_body(
            target,
            &m.params,
            &m.return_type,
            &m.span,
            body,
        );
        self.budget += 1;
        match made {
            Ok(b) => Ok(
                TypedFunDecl {
                    name: m.name.clone(),
                    generics: &m.generics,
                    params: &m.params,
                    return_type: &m.return_type,
                    body: FunBody::Typed(b),
                    symbol_id: None,
                    def_id: None,
                    span: m.span.copy(),
                },
            ),
            Err(f) => Err(f),
        }
    }

    fn construct_default_aspect_methods(
        &mut self,
        ib: &'a ImplBlock,
        s: &'a Vec<AspectMethod>,
        target: &str,
    ) -> (r: Result<Vec<TypedFunDecl<'a>>, MetelError>)
        ensures
            final(self).fx == old(self).fx,
            final(self).budget == old(self).budget,
            defaults_step(
                old(self).fx,
                old(self).budget as nat,
                *ib,
                s@,
                target@,
                old(self).st(),
                s@.len() as int,
            ) == (Step { out: funs_result(r), st: final(self).st() }),
        decreases old(self).budget, *ib, 2int, 0int,
    {
        let ghost start = self.st();
        let mut out: Vec<TypedFunDecl<'a>> = Vec::new();
        assert(fun_trees(out@) =~= Seq::empty());
        let mut stopped: Option<MetelError> = None;
        let mut i: usize = 0;
        while i < s.len()
            invariant
                i <= s@.len(),
                self.fx == old(self).fx,
                self.budget == old(self).budget,
                defaults_step(
                    self.fx,
                    self.budget as nat,
                    *ib,
                    s@,
                    target@,
                    start,
                    i as int,
                ) == (Step { out: funs_so_far(out@, stopped), st: self.st() }),
            decreases s@.len() - i,
        {
            if stopped.is_none() {
                if s[i].default_body.is_some() && !provides_method(ib, s[i].name.as_str()) {
                    let ghost before = out@;
                    match self.construct_default_aspect_method(ib, &s[i], target) {
                        Ok(m) => {
                            out.push(m);
                            assert(fun_trees(out@) =~= fun_trees(before).push(fun_tree(m)));
                        },
                        Err(f) => {
                            stopped = Some(f);
                        },
                    }
                }
            }
            i += 1;
        }
        match stopped {
            Some(f) => Err(f),
            None => Ok(out),
        }
    }

    fn construct_inherited(&mut self, ib: &'a ImplBlock, target: &str) -> (r: Result<
        Vec<TypedFunDecl<'a>>,
        MetelError,
    >)
        ensures
            final(self).fx == old(self).fx,
            final(self).budget == old(self).budget,
            defaults_step(
                old(self).fx,
                old(self).budget as nat,
                *ib,
                inherited(old(self).fx, *ib),
                target@,
                old(self).st(),
                inherited(old(self).fx, *ib).len() as int,
            ) == (Step { out: funs_result(r), st: final(self).st() }),
        decreases old(self).budget, *ib, 2int, 1int,
    {
        let registry = self.fx.registry;
        if !impl_defers_method_bodies(ib) && ib.polarity == Polarity::Positive {
            if let Some(name) = &ib.aspect_name {
                if let Some(info) = registry.aspect_info(name.as_str()) {
                    return self.construct_default_aspect_methods(ib, &info.methods, target);
                }
            }
        }
        let none: Vec<TypedFunDecl<'a>> = Vec::new();
        assert(fun_trees(none@) =~= Seq::empty());
        Ok(none)
    }

    /// Elaborate an impl block.
    pub fn construct_impl_decl(&mut self, ib: &'a ImplBlock) -> (r: Result<
        TypedDecl<'a>,
        MetelError,
    >)
        ensures
            final(self).fx == old(self).fx,
            final(self).budget == old(self).budget,
            impl_step(old(self).fx, old(self).budget as nat, *ib, old(self).st()) == (Step {
                out: decl_result(r),
                st: final(self).st(),
            }),
        decreases old(self).budget, *ib, 3int, 0int,
    {
        if let Some(f) = reject_inert_destructor(&self.fx, ib) {
            return Err(f);
        }
        if let Some(f) = self.fx.refusal(&ib.span) {
            return Err(f.copy());
        }
        let target: String = impl_target_head(ib);
        let defers: bool = impl_defers_method_bodies(ib);
        let mut own: Vec<TypedFunDecl<'a>> = match self.construct_impl_methods(
            &ib.methods,
            target.as_str(),
            defers,
        ) {
            Ok(v) => v,
            Err(f) => {
                return Err(f);
            },
        };
        let mut more: Vec<TypedFunDecl<'a>> = match self.construct_inherited(ib, target.as_str()) {
            Ok(v) => v,
            Err(f) => {
                return Err(f);
            },
        };
        let ghost a = own@;
        let ghost b = more@;
        own.append(&mut more);
        assert(own@ =~= a + b);
        assert(fun_trees(own@) =~= fun_trees(a) + fun_trees(b));
        let aspect_id: Option<SymbolId> = match &ib.aspect_name {
            Some(name) => resolve_aspect_id(&self.fx, name.as_str()),
            None => None,
        };
        Ok(
            TypedDecl::Impl(
                TypedImplBlock {
                    polarity: ib.polarity,
                    generics: &ib.generics,
                    aspect_name: &ib.aspect_name,
                    aspect_id,
                    target_type_id: self.fx.type_symbol_id(target.as_str()),
                    aspect_type_args: &ib.aspect_type_args,
                    target_type: &ib.target_type,
                    methods: own,
                    span: ib.span.copy(),
                },
            ),
        )
    }

    pub fn construct_loop_body(&mut self, b: &'a Block) -> (r: Result<TypedBlock<'a>, MetelError>)
        ensures
            final(self).fx == old(self).fx,
            final(self).budget == old(self).budget,
            loop_body_step(old(self).fx, old(self).budget as nat, *b, old(self).st()) == (Step {
                out: block_result(r),
                st: final(self).st(),
            }),
        decreases old(self).budget, *b, 2int, 0int,
    {
        self.enter_loop();
        match self.construct_block(b, None) {
            Ok(t) => {
                self.exit_loop();
                Ok(t)
            },
            Err(f) => Err(f),
        }
    }

    /// Elaborate a statement.
    pub fn construct_stmt(&mut self, s: &'a Stmt) -> (r: Result<TypedStmt<'a>, MetelError>)
        ensures
            final(self).fx == old(self).fx,
            final(self).budget == old(self).budget,
            stmt_step(old(self).fx, old(self).budget as nat, *s, old(self).st()) == (Step {
                out: stmt_result(r),
                st: final(self).st(),
            }),
        decreases old(self).budget, *s, 2int, 0int,
    {
        match s {
            Stmt::Expr(e) => match self.construct_expr(e, None) {
                Ok(t) => Ok(TypedStmt::Expr(t)),
                Err(f) => Err(f),
            },
            Stmt::While(x) => {
                let condition: TypedExpr<'a> = match self.construct_expr(&x.condition, None) {
                    Ok(t) => t,
                    Err(f) => {
                        return Err(f);
                    },
                };
                match self.construct_loop_body(&x.body) {
                    Ok(body) => Ok(
                        TypedStmt::While(
                            TypedWhileStmt { condition, body, span: x.span.copy() },
                        ),
                    ),
                    Err(f) => Err(f),
                }
            },
            Stmt::For(x) => self.construct_for(x),
            Stmt::ForIn(_) => self.construct_for_in(s),
        }
    }

    fn construct_arm(&mut self, a: &'a MatchArm, ty: &Type, hint: Option<&Type>) -> (r: Result<
        TypedMatchArm<'a>,
        MetelError,
    >)
        ensures
            final(self).fx == old(self).fx,
            final(self).budget == old(self).budget,
            arm_step(
                old(self).fx,
                old(self).budget as nat,
                *a,
                ty@,
                hint_view(hint),
                old(self).st(),
            ) == (Step {
                out: match r {
                    Ok(x) => Ok(arm_tree(x)),
                    Err(f) => Err(f@),
                },
                st: final(self).st(),
            }),
        decreases old(self).budget, *a, 1int, 0int,
    {
        let pattern = resolve_pattern(&self.fx, ty, &a.pattern);
        self.push_scope();
        if let Some(f) = self.construct_pattern_bindings(&pattern, ty) {
            return Err(f);
        }
        let guard: Option<TypedExpr<'a>> = match self.construct_guard(&a.guard) {
            Ok(g) => g,
            Err(f) => {
                return Err(f);
            },
        };
        match self.construct_block(&a.body, hint) {
            Ok(body) => {
                self.pop_scope();
                Ok(TypedMatchArm { pattern, guard, body, span: a.span.copy() })
            },
            Err(f) => Err(f),
        }
    }

    fn construct_arms(&mut self, v: &'a Vec<MatchArm>, ty: &Type, hint: Option<&Type>) -> (r: Result<
        Vec<TypedMatchArm<'a>>,
        MetelError,
    >)
        ensures
            final(self).fx == old(self).fx,
            final(self).budget == old(self).budget,
            arms_step(
                old(self).fx,
                old(self).budget as nat,
                v@,
                ty@,
                hint_view(hint),
                old(self).st(),
                v@.len() as int,
            ) == (Step {
                out: match r {
                    Ok(x) => Ok(arm_trees(x@)),
                    Err(f) => Err(f@),
                },
                st: final(self).st(),
            }),
        decreases old(self).budget, v@, 1int, 0int,
    {
        let ghost start = self.st();
        let mut out: Vec<TypedMatchArm<'a>> = Vec::new();
        assert(arm_trees(out@) =~= Seq::empty());
        let mut stopped: Option<MetelError> = None;
        let mut i: usize = 0;
        while i < v.len()
            invariant
                i <= v@.len(),
                self.fx == old(self).fx,
                self.budget == old(self).budget,
                arms_step(
                    self.fx,
                    self.budget as nat,
                    v@,
                    ty@,
                    hint_view(hint),
                    start,
                    i as int,
                ) == (Step { out: arms_so_far(out@, stopped), st: self.st() }),
            decreases v@.len() - i,
        {
            if stopped.is_none() {
                let ghost before = out@;
                match self.construct_arm(&v[i], ty, hint) {
                    Ok(a) => {
                        out.push(a);
                        assert(arm_trees(out@) =~= arm_trees(before).push(arm_tree(a)));
                    },
                    Err(f) => {
                        stopped = Some(f);
                    },
                }
            }
            i += 1;
        }
        match stopped {
            Some(f) => Err(f),
            None => Ok(out),
        }
    }

    /// Elaborate a match.
    pub fn construct_match(&mut self, e: &'a Expr, hint: Option<&Type>) -> (r: Result<
        TypedExpr<'a>,
        MetelError,
    >)
        requires
            *e is Match,
        ensures
            final(self).fx == old(self).fx,
            final(self).budget == old(self).budget,
            match_step(
                old(self).fx,
                old(self).budget as nat,
                *e,
                hint_view(hint),
                old(self).st(),
            ) == (Step { out: expr_result(r), st: final(self).st() }),
        decreases old(self).budget, *e, 4int, 0int,
    {
        broadcast use lemma_tree_ty;

        match e {
            Expr::Match(m) => {
                let scrutinee: TypedExpr<'a> = match self.construct_expr(&m.scrutinee, None) {
                    Ok(t) => t,
                    Err(f) => {
                        return Err(f);
                    },
                };
                assert(tree_ty(expr_tree(scrutinee)) == ty_of(scrutinee)@);
                let ty: Type = peel_type_references(scrutinee.ty()).copy();
                let arms: Vec<TypedMatchArm<'a>> = match self.construct_arms(&m.arms, &ty, hint) {
                    Ok(v) => v,
                    Err(f) => {
                        return Err(f);
                    },
                };
                if let Some(f) = check_match_exhaustiveness(
                    self.fx.registry,
                    &arms,
                    &ty,
                    &m.span,
                ) {
                    return Err(f);
                }
                let types: Vec<Type> = arm_block_types(&arms);
                let expr_type: Type = merge_branch_types(&types);
                Ok(
                    TypedExpr::Match(
                        TypedMatchExpr {
                            scrutinee: Box::new(scrutinee),
                            arms,
                            expr_type,
                            span: m.span.copy(),
                        },
                    ),
                )
            },
            _ => Err(misplaced()),
        }
    }
}

/// A binding as one that can be assigned to.
pub fn as_mut<'a>(x: TypedLetDecl<'a>) -> (r: TypedMutDecl<'a>)
    ensures
        r.name == x.name,
        r.type_ann == x.type_ann,
        r.value == x.value,
        r.def_id == x.def_id,
        r.span == x.span,
{
    TypedMutDecl {
        name: x.name,
        type_ann: x.type_ann,
        value: x.value,
        def_id: x.def_id,
        span: x.span,
    }
}

} // verus!
