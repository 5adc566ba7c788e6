//! Elaboration of calls.
use vstd::prelude::*;
use crate::ast::{Expr, ReceiverKind, TypeExpr};
use crate::error::{MetelError, MetelErrorV, TypeErrorCode};
use crate::infer::{InferType, Substitution};
use crate::registry::{ArrayMethodSchemes, MethodCandidate, MethodSchemes};
use crate::scheme::TypeScheme;
use crate::span::Span;
use crate::text::{copy_opt_text, copy_texts, decimal_text, join_texts, joined, joined3, joined5};
use crate::text::{opt_text, same_text, texts};
use crate::typed_ast::{ty_of, MethodDispatch, TypedExpr};
use crate::types::{copy_types, peel_type_references, primitive_type_name};
use crate::types::{same_types, types_view, Type, TypeV};
use super::calls::{bind_method, called_type, dispatch_for_resolved_method, hint_method};
use super::calls::{hints_view, instantiate_method, no_overload, overloaded_name, types_as_hints};
use super::construct::{last_of, misplaced, types_of};
use super::rules::type_chain_provides_mut_access;
use super::state::{hint_view, select_overload, Elaborator, Facts, OverloadEntry};
use super::steps::{array_method_step, array_needs_write, call_step, callee_step, candidate_step};
use super::steps::{candidates_step, complete_call, complete_method, finish_call};
use super::steps::{given_types, instance_step, known_hints, method_step, named_method_step};
use super::steps::{never_method_step, overload_call, path_scheme, plain_call_step};
use super::steps::{resolved_method_step, retyped_args, Step};
use super::tree::{expr_result, expr_tree, expr_trees, exprs_result, lemma_tree_ty, tree_ty};
use super::tree::{type_result, ExprT};

verus! {

/// Types that may be missing, as mathematical objects.
pub open spec fn opt_types(v: Option<Vec<Type>>) -> Option<Seq<TypeV>> {
    match v {
        Some(v) => Some(types_view(v@)),
        None => None,
    }
}

/// What a candidate yields, as a mathematical object.
pub open spec fn candidate_result(r: Result<(Type, Vec<TypedExpr>), MetelError>) -> Result<
    (TypeV, Seq<ExprT>),
    MetelErrorV,
> {
    match r {
        Ok(p) => Ok((p.0@, expr_trees(p.1@))),
        Err(e) => Err(e@),
    }
}

/// What the candidates yield, as a mathematical object.
pub open spec fn candidates_result(
    r: Result<(Type, Vec<TypedExpr>, Option<String>), MetelError>,
) -> Result<(TypeV, Seq<ExprT>, Option<Seq<char>>), MetelErrorV> {
    match r {
        Ok(p) => Ok((p.0@, expr_trees(p.1@), opt_text(p.2))),
        Err(e) => Err(e@),
    }
}

fn call_overload<'a>(
    name: &str,
    entry: &OverloadEntry,
    args: Vec<TypedExpr<'a>>,
    callee_span: &Span,
    span: &Span,
) -> (r: TypedExpr<'a>)
    ensures
        expr_tree(r) == overload_call(name@, *entry, expr_trees(args@), callee_span@, span@),
{
    let ret: Type = entry.ret.copy();
    let fun: Type = Type::Fun(copy_types(&entry.params), Box::new(ret));
    assert(fun@ == TypeV::Fun(types_view(entry.params@), Box::new(entry.ret@)));
    let callee: TypedExpr<'a> = TypedExpr::Ident(name.to_owned(), fun, callee_span.copy());
    assert(expr_tree(callee) == ExprT::Ident(
        name@,
        TypeV::Fun(types_view(entry.params@), Box::new(entry.ret@)),
        callee_span@,
    ));
    TypedExpr::Call {
        callee: Box::new(callee),
        args,
        ty: entry.ret.copy(),
        callee_id: Some(entry.symbol_id),
        span: span.copy(),
    }
}

fn finish_method<'a>(
    receiver: TypedExpr<'a>,
    method: &str,
    args: Vec<TypedExpr<'a>>,
    fun: Type,
    dispatch: MethodDispatch,
    fault_text: &str,
    span: &Span,
) -> (r: Result<TypedExpr<'a>, MetelError>)
    ensures
        expr_result(r) == complete_method(
            expr_tree(receiver),
            method@,
            expr_trees(args@),
            fun@,
            dispatch,
            fault_text@,
            span@,
        ),
{
    match fun {
        Type::Fun(_, ret) => Ok(
            TypedExpr::MethodCall {
                receiver: Box::new(receiver),
                method: method.to_owned(),
                args,
                ty: *ret,
                dispatch,
                span: span.copy(),
            },
        ),
        _ => Err(MetelError::internal(fault_text.to_owned())),
    }
}

fn finish_plain_call<'a>(
    fx: &Facts<'a, '_>,
    source: &Expr,
    callee: TypedExpr<'a>,
    args: Vec<TypedExpr<'a>>,
    explicit: bool,
    span: &Span,
) -> (r: Result<TypedExpr<'a>, MetelError>)
    ensures
        expr_result(r) == complete_call(
            *fx,
            *source,
            expr_tree(callee),
            super::calls::called(tree_ty(expr_tree(callee))),
            expr_trees(args@),
            explicit,
            span@,
        ),
{
    broadcast use lemma_tree_ty;

    assert(tree_ty(expr_tree(callee)) == ty_of(callee)@);
    let types: Vec<Type> = types_of(&args);
    assert(types_view(types@).len() == types@.len());
    assert(expr_trees(args@).len() == args@.len());
    let ret: Type = match called_type(callee.ty()) {
        Type::Fun(params, ret) => {
            assert(types_view(params@).len() == params@.len());
            if explicit && params.len() == args.len() && !same_types(&types, params) {
                return Err(
                    MetelError::type_error(
                        TypeErrorCode::T0001,
                        "argument type mismatch".to_owned(),
                        span,
                    ),
                );
            }
            if params.len() != args.len() {
                let mut out: String = joined3(
                    "expected ",
                    decimal_text(params.len() as u64).as_str(),
                    " argument(s), got ",
                );
                out.append(decimal_text(args.len() as u64).as_str());
                return Err(MetelError::type_error(TypeErrorCode::T0004, out, span));
            }
            ret.copy()
        },
        _ => {
            return Err(
                MetelError::type_error(
                    TypeErrorCode::T0001,
                    "called a non-function value".to_owned(),
                    span,
                ),
            );
        },
    };
    Ok(
        TypedExpr::Call {
            callee: Box::new(callee),
            args,
            ty: ret,
            callee_id: fx.resolved_callee_id(source),
            span: span.copy(),
        },
    )
}

impl<'a, 'c> Elaborator<'a, 'c> {
    fn resolve_given(&self, args: &Vec<TypeExpr>, span: &Span) -> (r: Result<
        Option<Vec<Type>>,
        MetelError,
    >)
        ensures
            match given_types(self.fx, self.st(), args@, span@) {
                Ok(t) => r matches Ok(x) && opt_types(x) == t,
                Err(e) => r matches Err(x) && x@ == e,
            },
    {
        if args.len() == 0 {
            return Ok(None);
        }
        match self.resolve_explicit(args, span) {
            Ok(types) => Ok(Some(types)),
            Err(f) => Err(f),
        }
    }

    /// Elaborate a call.
    #[verifier::rlimit(30)]
    pub fn construct_call(&mut self, e: &'a Expr, hint: Option<&Type>) -> (r: Result<
        TypedExpr<'a>,
        MetelError,
    >)
        requires
            *e is Call,
        ensures
            final(self).fx == old(self).fx,
            final(self).budget == old(self).budget,
            call_step(
                old(self).fx,
                old(self).budget as nat,
                *e,
                hint_view(hint),
                old(self).st(),
            ) == (Step { out: expr_result(r), st: final(self).st() }),
        decreases old(self).budget, *e, 4int, 0int,
    {
        match e {
            Expr::Call { callee, args, span, .. } => {
                let name: &String = match overloaded_name(callee) {
                    Some(name) => name,
                    None => {
                        return self.construct_plain_call(e, hint);
                    },
                };
                let entries: &Vec<OverloadEntry> = match self.fx.overloads_named(name.as_str()) {
                    Some(entries) => entries,
                    None => {
                        return self.construct_plain_call(e, hint);
                    },
                };
                let typed: Vec<TypedExpr<'a>> = match self.construct_exprs(args, None) {
                    Ok(v) => v,
                    Err(f) => {
                        return Err(f);
                    },
                };
                let types: Vec<Type> = types_of(&typed);
                match select_overload(entries, &types) {
                    Some(entry) => Ok(
                        call_overload(name.as_str(), entry, typed, callee.span(), span),
                    ),
                    None => {
                        if self.lookup(name.as_str()).is_some() || self.fx.scheme(
                            name.as_str(),
                        ).is_some() {
                            self.construct_plain_call(e, hint)
                        } else {
                            Err(no_overload(name.as_str(), &types, entries, span))
                        }
                    },
                }
            },
            _ => Err(misplaced()),
        }
    }

    fn construct_plain_call(&mut self, e: &'a Expr, hint: Option<&Type>) -> (r: Result<
        TypedExpr<'a>,
        MetelError,
    >)
        requires
            *e is Call,
        ensures
            final(self).fx == old(self).fx,
            final(self).budget == old(self).budget,
            plain_call_step(
                old(self).fx,
                old(self).budget as nat,
                *e,
                hint_view(hint),
                old(self).st(),
            ) == (Step { out: expr_result(r), st: final(self).st() }),
        decreases old(self).budget, *e, 3int, 0int,
    {
        match e {
            Expr::Call { callee, type_args, args, span } => {
                let hints: Vec<Option<Type>> = self.hint_call(callee, args.len());
                let typed: Vec<TypedExpr<'a>> = match self.construct_args(args, &hints, true) {
                    Ok(v) => v,
                    Err(f) => {
                        return Err(f);
                    },
                };
                let explicit: Option<Vec<Type>> = match self.resolve_given(type_args, span) {
                    Ok(t) => t,
                    Err(f) => {
                        return Err(f);
                    },
                };
                let types: Vec<Type> = types_of(&typed);
                match self.construct_callee(callee, &types, &explicit, hint, span) {
                    Ok(t) => self.finish_call(e, t, typed, explicit.is_some()),
                    Err(f) => Err(f),
                }
            },
            _ => Err(misplaced()),
        }
    }

    fn instantiate_callee(
        &mut self,
        name: &str,
        scheme: &TypeScheme,
        args: &Vec<Type>,
        explicit: &Option<Vec<Type>>,
        hint: Option<&Type>,
        span: &Span,
    ) -> (r: Result<Type, MetelError>)
        ensures
            final(self).fx == old(self).fx,
            final(self).budget == old(self).budget,
            instance_step(
                old(self).fx,
                name@,
                *scheme,
                types_view(args@),
                opt_types(*explicit),
                hint_view(hint),
                span@,
                old(self).st(),
            ) == (Step { out: type_result(r), st: final(self).st() }),
    {
        self.instantiate_named(name, scheme, args, explicit.as_ref(), hint, span)
    }

    fn find_path_scheme(&self, path: &Vec<String>) -> (r: Option<(String, &'c TypeScheme, bool)>)
        ensures
            match r {
                Some(x) => path_scheme(self.fx, self.st(), texts(path@)) == Some((x.0@, *x.1, x.2)),
                None => path_scheme(self.fx, self.st(), texts(path@)) is None,
            },
    {
        let ghost names = texts(path@);
        assert(names.len() == path@.len());
        let whole: String = join_texts(path, "::");
        if self.lookup(whole.as_str()).is_none() {
            if let Some(scheme) = self.fx.scheme(whole.as_str()) {
                return Some((whole, scheme, true));
            }
        }
        let last: String = last_of(path);
        if self.lookup(last.as_str()).is_none() {
            if let Some(scheme) = self.fx.scheme(last.as_str()) {
                if path.len() == 2 {
                    assert(names[0] == path@[0]@ && names[1] == path@[1]@);
                    if self.fx.concrete_method_type(path[0].as_str(), path[1].as_str()).is_some() {
                        return None;
                    }
                }
                return Some((last, scheme, false));
            }
        }
        None
    }

    #[verifier::rlimit(40)]
    fn construct_callee(
        &mut self,
        callee: &'a Expr,
        args: &Vec<Type>,
        explicit: &Option<Vec<Type>>,
        hint: Option<&Type>,
        span: &Span,
    ) -> (r: Result<TypedExpr<'a>, MetelError>)
        ensures
            final(self).fx == old(self).fx,
            final(self).budget == old(self).budget,
            callee_step(
                old(self).fx,
                old(self).budget as nat,
                *callee,
                types_view(args@),
                opt_types(*explicit),
                hint_view(hint),
                span@,
                old(self).st(),
            ) == (Step { out: expr_result(r), st: final(self).st() }),
        decreases old(self).budget, *callee, 6int, 0int,
    {
        match callee {
            Expr::Ident(name, at) => {
                if self.lookup(name.as_str()).is_some() {
                    return self.construct_expr(callee, None);
                }
                match self.fx.scheme(name.as_str()) {
                    None => Err(
                        MetelError::type_error(
                            TypeErrorCode::T0003,
                            joined3("undefined name `", name.as_str(), "`"),
                            at,
                        ),
                    ),
                    Some(scheme) => match self.instantiate_callee(
                        name.as_str(),
                        scheme,
                        args,
                        explicit,
                        hint,
                        span,
                    ) {
                        Ok(t) => Ok(TypedExpr::Ident(name.clone(), t, at.copy())),
                        Err(f) => Err(f),
                    },
                }
            },
            Expr::Path(path, at) => match self.find_path_scheme(path) {
                None => self.construct_expr(callee, None),
                Some((name, scheme, hinted)) => {
                    let expected: Option<&Type> = if hinted {
                        hint
                    } else {
                        None
                    };
                    match self.instantiate_callee(
                        name.as_str(),
                        scheme,
                        args,
                        explicit,
                        expected,
                        span,
                    ) {
                        Ok(t) => Ok(TypedExpr::Path(copy_texts(path), t, at.copy())),
                        Err(f) => Err(f),
                    }
                },
            },
            Expr::ResolvedPath { resolved, span: at, .. } => {
                if self.lookup(resolved.as_str()).is_some() {
                    return self.construct_expr(callee, None);
                }
                match self.fx.scheme(resolved.as_str()) {
                    None => self.construct_expr(callee, None),
                    Some(scheme) => match self.instantiate_callee(
                        resolved.as_str(),
                        scheme,
                        args,
                        explicit,
                        None,
                        span,
                    ) {
                        Ok(t) => Ok(TypedExpr::Ident(resolved.clone(), t, at.copy())),
                        Err(f) => Err(f),
                    },
                }
            },
            _ => self.construct_expr(callee, None),
        }
    }

    fn retype_args(&mut self, args: &'a Vec<Expr>, fun: &Type, typed: Vec<TypedExpr<'a>>) -> (r: Result<
        Vec<TypedExpr<'a>>,
        MetelError,
    >)
        ensures
            final(self).fx == old(self).fx,
            final(self).budget == old(self).budget,
            retyped_args(
                old(self).fx,
                old(self).budget as nat,
                args@,
                fun@,
                expr_trees(typed@),
                old(self).st(),
            ) == (Step { out: exprs_result(r), st: final(self).st() }),
        decreases old(self).budget, args@, 2int, 0int,
    {
        if let Type::Fun(params, _) = fun {
            assert(types_view(params@).len() == params@.len());
            assert(expr_trees(typed@).len() == typed@.len());
            if params.len() == typed.len() {
                let types: Vec<Type> = types_of(&typed);
                if !same_types(&types, params) {
                    let hints: Vec<Option<Type>> = types_as_hints(params);
                    return self.construct_args(args, &hints, false);
                }
            }
        }
        Ok(typed)
    }

    fn finish_call(
        &mut self,
        e: &'a Expr,
        callee: TypedExpr<'a>,
        typed: Vec<TypedExpr<'a>>,
        explicit: bool,
    ) -> (r: Result<TypedExpr<'a>, MetelError>)
        requires
            *e is Call,
        ensures
            final(self).fx == old(self).fx,
            final(self).budget == old(self).budget,
            finish_call(
                old(self).fx,
                old(self).budget as nat,
                *e,
                expr_tree(callee),
                expr_trees(typed@),
                explicit,
                old(self).st(),
            ) == (Step { out: expr_result(r), st: final(self).st() }),
        decreases old(self).budget, *e, 2int, 0int,
    {
        broadcast use lemma_tree_ty;

        match e {
            Expr::Call { callee: source, args, span, .. } => {
                assert(tree_ty(expr_tree(callee)) == ty_of(callee)@);
                match self.retype_args(args, called_type(callee.ty()), typed) {
                    Ok(v) => finish_plain_call(&self.fx, source, callee, v, explicit, span),
                    Err(f) => Err(f),
                }
            },
            _ => Err(misplaced()),
        }
    }

    /// Elaborate the arguments of a method call for one candidate.
    fn try_generic_method_scheme(
        &mut self,
        args: &'a Vec<Expr>,
        c: &MethodCandidate,
        targs: &Vec<Type>,
        explicit: &Option<Vec<Type>>,
        method: &str,
        span: &Span,
    ) -> (r: Result<(Type, Vec<TypedExpr<'a>>), MetelError>)
        ensures
            final(self).fx == old(self).fx,
            final(self).budget == old(self).budget,
            candidate_step(
                old(self).fx,
                old(self).budget as nat,
                args@,
                *c,
                types_view(targs@),
                opt_types(*explicit),
                method@,
                span@,
                old(self).st(),
            ) == (Step { out: candidate_result(r), st: final(self).st() }),
        decreases old(self).budget, args@, 2int, 0int,
    {
        let subst: Substitution = match bind_method(c, targs, explicit.as_ref(), span) {
            Ok(s) => s,
            Err(f) => {
                return Err(f);
            },
        };
        let params: Vec<InferType> = match subst.apply(&c.scheme.ty) {
            InferType::Fun(params, _) => params,
            _ => {
                return Err(
                    MetelError::internal("method scheme is not a function type".to_owned()),
                );
            },
        };
        let hints: Vec<Option<Type>> = hint_method(&subst, &params, args.len());
        let typed: Vec<TypedExpr<'a>> = match self.construct_args(args, &hints, true) {
            Ok(v) => v,
            Err(f) => {
                return Err(f);
            },
        };
        let types: Vec<Type> = types_of(&typed);
        match instantiate_method(&self.fx, &c.scheme, subst, params, &types, method, span) {
            Ok(t) => Ok((t, typed)),
            Err(f) => Err(f),
        }
    }

    /// Find the candidate that fits a method call.
    fn resolve_generic_method_call(
        &mut self,
        args: &'a Vec<Expr>,
        candidates: &Vec<MethodCandidate>,
        targs: &Vec<Type>,
        explicit: &Option<Vec<Type>>,
        method: &str,
        span: &Span,
    ) -> (r: Result<(Type, Vec<TypedExpr<'a>>, Option<String>), MetelError>)
        ensures
            final(self).fx == old(self).fx,
            final(self).budget == old(self).budget,
            candidates_step(
                old(self).fx,
                old(self).budget as nat,
                args@,
                candidates@,
                types_view(targs@),
                opt_types(*explicit),
                method@,
                span@,
                old(self).st(),
                candidates@.len() as int,
            ) == (Step { out: candidates_result(r), st: final(self).st() }),
        decreases old(self).budget, args@, 3int, 0int,
    {
        let ghost start = self.st();
        let mut found: Result<(Type, Vec<TypedExpr<'a>>, Option<String>), MetelError> = Err(
            MetelError::internal("no candidate".to_owned()),
        );
        let mut i: usize = 0;
        while i < candidates.len()
            invariant
                i <= candidates@.len(),
                self.fx == old(self).fx,
                self.budget == old(self).budget,
                candidates_step(
                    self.fx,
                    self.budget as nat,
                    args@,
                    candidates@,
                    types_view(targs@),
                    opt_types(*explicit),
                    method@,
                    span@,
                    start,
                    i as int,
                ) == (Step { out: candidates_result(found), st: self.st() }),
            decreases candidates@.len() - i,
        {
            if found.is_err() {
                found = match self.try_generic_method_scheme(
                    args,
                    &candidates[i],
                    targs,
                    explicit,
                    method,
                    span,
                ) {
                    Ok((t, typed)) => Ok((t, typed, copy_opt_text(&candidates[i].aspect))),
                    Err(f) => Err(f),
                };
            }
            i += 1;
        }
        found
    }

    fn construct_array_method(
        &mut self,
        e: &'a Expr,
        receiver: TypedExpr<'a>,
        item: Type,
        explicit: Option<Vec<Type>>,
    ) -> (r: Result<TypedExpr<'a>, MetelError>)
        requires
            *e is MethodCall,
        ensures
            final(self).fx == old(self).fx,
            final(self).budget == old(self).budget,
            array_method_step(
                old(self).fx,
                old(self).budget as nat,
                *e,
                expr_tree(receiver),
                item@,
                opt_types(explicit),
                old(self).st(),
            ) == (Step { out: expr_result(r), st: final(self).st() }),
        decreases old(self).budget, *e, 3int, 0int,
    {
        broadcast use lemma_tree_ty;

        match e {
            Expr::MethodCall { method, args, span, .. } => {
                let registry = self.fx.registry;
                let found: &ArrayMethodSchemes = match registry.array_method_schemes_for(
                    method.as_str(),
                ) {
                    Some(found) => found,
                    None => {
                        return Err(no_array_method(method.as_str(), span));
                    },
                };
                if found.candidates.len() == 0 {
                    return Err(no_array_method(method.as_str(), span));
                }
                let mut targs: Vec<Type> = Vec::new();
                targs.push(item);
                assert(types_view(targs@) =~= seq![item@]);
                match self.resolve_generic_method_call(
                    args,
                    &found.candidates,
                    &targs,
                    &explicit,
                    method.as_str(),
                    span,
                ) {
                    Ok((fun, typed, aspect)) => {
                        assert(tree_ty(expr_tree(receiver)) == ty_of(receiver)@);
                        let writes: bool = match registry.array_method_receiver_kind(
                            method.as_str(),
                        ) {
                            Some(ReceiverKind::RefMut) => true,
                            _ => false,
                        };
                        assert(writes == array_needs_write(self.fx, method@));
                        if writes && !type_chain_provides_mut_access(receiver.ty()) {
                            return Err(
                                MetelError::type_error(
                                    TypeErrorCode::T0008,
                                    joined3(
                                        "cannot call `&var self` method `",
                                        method.as_str(),
                                        "` through shared receiver",
                                    ),
                                    span,
                                ),
                            );
                        }
                        let dispatch: MethodDispatch = dispatch_for_resolved_method(
                            &self.fx,
                            &aspect,
                        );
                        finish_method(
                            receiver,
                            method.as_str(),
                            typed,
                            fun,
                            dispatch,
                            "array method type is not a function",
                            span,
                        )
                    },
                    Err(f) => Err(f),
                }
            },
            _ => Err(misplaced()),
        }
    }

    #[verifier::rlimit(30)]
    fn construct_named_method(
        &mut self,
        e: &'a Expr,
        receiver: TypedExpr<'a>,
        owner: &str,
        targs: &Vec<Type>,
        explicit: Option<Vec<Type>>,
    ) -> (r: Result<TypedExpr<'a>, MetelError>)
        requires
            *e is MethodCall,
        ensures
            final(self).fx == old(self).fx,
            final(self).budget == old(self).budget,
            named_method_step(
                old(self).fx,
                old(self).budget as nat,
                *e,
                expr_tree(receiver),
                owner@,
                types_view(targs@),
                opt_types(explicit),
                old(self).st(),
            ) == (Step { out: expr_result(r), st: final(self).st() }),
        decreases old(self).budget, *e, 3int, 0int,
    {
        match e {
            Expr::MethodCall { method, args, span, .. } => {
                let registry = self.fx.registry;
                if let Some(fun) = self.fx.concrete_method_type(owner, method.as_str()) {
                    if explicit.is_some() {
                        return Err(
                            MetelError::type_error(
                                TypeErrorCode::T0004,
                                joined5(
                                    "method `",
                                    method.as_str(),
                                    "` on `",
                                    owner,
                                    "` has no type parameters",
                                ),
                                span,
                            ),
                        );
                    }
                    let hints: Vec<Option<Type>> = hint_known(&fun);
                    return match self.construct_args(args, &hints, true) {
                        Ok(v) => finish_method(
                            receiver,
                            method.as_str(),
                            v,
                            fun,
                            MethodDispatch::Dynamic,
                            "method type is not a function",
                            span,
                        ),
                        Err(f) => Err(f),
                    };
                }
                let found: &MethodSchemes = match registry.known_schemes_for(
                    self.fx.extra,
                    owner,
                    method.as_str(),
                ) {
                    Some(found) => found,
                    None => {
                        return Err(no_method(owner, method.as_str()));
                    },
                };
                if found.candidates.len() == 0 {
                    return Err(no_method(owner, method.as_str()));
                }
                match self.resolve_generic_method_call(
                    args,
                    &found.candidates,
                    targs,
                    &explicit,
                    method.as_str(),
                    span,
                ) {
                    Ok((fun, typed, aspect)) => {
                        let dispatch: MethodDispatch = dispatch_for_resolved_method(
                            &self.fx,
                            &aspect,
                        );
                        finish_method(
                            receiver,
                            method.as_str(),
                            typed,
                            fun,
                            dispatch,
                            "method type is not a function",
                            span,
                        )
                    },
                    Err(f) => Err(f),
                }
            },
            _ => Err(misplaced()),
        }
    }

    fn construct_never_method(&mut self, e: &'a Expr, receiver: TypedExpr<'a>) -> (r: Result<
        TypedExpr<'a>,
        MetelError,
    >)
        requires
            *e is MethodCall,
        ensures
            final(self).fx == old(self).fx,
            final(self).budget == old(self).budget,
            never_method_step(
                old(self).fx,
                old(self).budget as nat,
                *e,
                expr_tree(receiver),
                old(self).st(),
            ) == (Step { out: expr_result(r), st: final(self).st() }),
        decreases old(self).budget, *e, 3int, 0int,
    {
        match e {
            Expr::MethodCall { method, args, span, .. } => match self.construct_exprs(args, None) {
                Ok(v) => Ok(
                    TypedExpr::MethodCall {
                        receiver: Box::new(receiver),
                        method: method.clone(),
                        args: v,
                        ty: Type::Never,
                        dispatch: MethodDispatch::Dynamic,
                        span: span.copy(),
                    },
                ),
                Err(f) => Err(f),
            },
            _ => Err(misplaced()),
        }
    }

    fn construct_resolved_method(
        &mut self,
        e: &'a Expr,
        receiver: TypedExpr<'a>,
        t: &Type,
        explicit: Option<Vec<Type>>,
    ) -> (r: Result<TypedExpr<'a>, MetelError>)
        requires
            *e is MethodCall,
        ensures
            final(self).fx == old(self).fx,
            final(self).budget == old(self).budget,
            resolved_method_step(
                old(self).fx,
                old(self).budget as nat,
                *e,
                expr_tree(receiver),
                t@,
                opt_types(explicit),
                old(self).st(),
            ) == (Step { out: expr_result(r), st: final(self).st() }),
        decreases old(self).budget, *e, 3int, 1int,
    {
        match t {
            Type::Array(item) => self.construct_array_method(e, receiver, item.copy(), explicit),
            Type::SizedArray(item, _) => self.construct_array_method(
                e,
                receiver,
                item.copy(),
                explicit,
            ),
            Type::Never => self.construct_never_method(e, receiver),
            Type::Named(owner, targs) => self.construct_named_method(
                e,
                receiver,
                owner.as_str(),
                targs,
                explicit,
            ),
            _ => match primitive_type_name(t) {
                Some(owner) => {
                    let none: Vec<Type> = Vec::new();
                    assert(types_view(none@) =~= Seq::empty());
                    self.construct_named_method(e, receiver, owner.as_str(), &none, explicit)
                },
                None => Err(
                    MetelError::internal(
                        joined("method call on non-struct type ", t.describe().as_str()),
                    ),
                ),
            },
        }
    }

    /// Elaborate a method call.
    pub fn construct_method_call(&mut self, e: &'a Expr) -> (r: Result<TypedExpr<'a>, MetelError>)
        requires
            *e is MethodCall,
        ensures
            final(self).fx == old(self).fx,
            final(self).budget == old(self).budget,
            method_step(old(self).fx, old(self).budget as nat, *e, old(self).st()) == (Step {
                out: expr_result(r),
                st: final(self).st(),
            }),
        decreases old(self).budget, *e, 4int, 0int,
    {
        broadcast use lemma_tree_ty;

        match e {
            Expr::MethodCall { receiver, method, type_args, args, span } => {
                let x: TypedExpr<'a> = match self.construct_expr(receiver, None) {
                    Ok(x) => x,
                    Err(f) => {
                        return Err(f);
                    },
                };
                assert(tree_ty(expr_tree(x)) == ty_of(x)@);
                let t: Type = peel_type_references(x.ty()).copy();
                assert((t@ is Array || t@ is SizedArray) == (t is Array || t is SizedArray));
                if matches!(t, Type::Array(_) | Type::SizedArray(_, _)) && args.len() == 0
                    && same_text(method.as_str(), "len") {
                    let none: Vec<TypedExpr<'a>> = Vec::new();
                    assert(expr_trees(none@) =~= Seq::empty());
                    return Ok(
                        TypedExpr::MethodCall {
                            receiver: Box::new(x),
                            method: method.clone(),
                            args: none,
                            ty: Type::I64,
                            dispatch: MethodDispatch::Dynamic,
                            span: span.copy(),
                        },
                    );
                }
                match self.resolve_given(type_args, span) {
                    Ok(explicit) => self.construct_resolved_method(e, x, &t, explicit),
                    Err(f) => Err(f),
                }
            },
            _ => Err(misplaced()),
        }
    }
}

fn no_array_method(method: &str, span: &Span) -> (r: MetelError)
    ensures
        r@ == crate::error::type_failure(
            TypeErrorCode::T0003,
            "no method `"@ + method@ + "` on array type"@,
            span@,
        ),
{
    MetelError::type_error(
        TypeErrorCode::T0003,
        joined3("no method `", method, "` on array type"),
        span,
    )
}

fn no_method(owner: &str, method: &str) -> (r: MetelError)
    ensures
        r@ == super::fields::fault("no method `"@ + method@ + "` on `"@ + owner@ + "`"@),
{
    MetelError::internal(joined5("no method `", method, "` on `", owner, "`"))
}

fn hint_known(fun: &Type) -> (r: Vec<Option<Type>>)
    ensures
        hints_view(r@) == known_hints(fun@),
{
    let none: Vec<Option<Type>> = Vec::new();
    assert(hints_view(none@) =~= Seq::empty());
    if let Type::Fun(params, _) = fun {
        let ghost ts = types_view(params@);
        assert(ts.len() == params@.len());
        if params.len() == 0 {
            return none;
        }
        let mut rest: Vec<Type> = copy_types(params);
        let _ = rest.remove(0);
        assert(types_view(rest@) =~= ts.skip(1));
        return types_as_hints(&rest);
    }
    none
}

} // verus!
