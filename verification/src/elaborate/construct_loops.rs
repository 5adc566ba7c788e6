//! Elaboration of counted loops and of loops over the elements of a value.
use vstd::prelude::*;
use crate::ast::{ForInit, ForStmt, Stmt};
use crate::error::MetelError;
use crate::span::Span;
use crate::typed_ast::{ty_of, TypedBlock, TypedExpr, TypedForInStmt, TypedForInit, TypedForStmt};
use crate::typed_ast::TypedStmt;
use crate::types::Type;
use super::construct::{misplaced, opt_expr};
use super::construct_decls::{as_mut, init_result, opt_init, stmt_result};
use super::literals::iterated_type;
use super::state::Elaborator;
use super::steps::{init_step, for_in_step, for_rest_step, for_start_step, for_step, Step};
use super::tree::{block_tree, expr_tree, lemma_tree_ty, stmt_tree, tree_ty};
use super::tree::StmtT;

verus! {

impl<'a, 'c> Elaborator<'a, 'c> {
    fn construct_init(&mut self, x: &'a ForStmt) -> (r: Result<
        Option<TypedForInit<'a>>,
        MetelError,
    >)
        ensures
            final(self).fx == old(self).fx,
            final(self).budget == old(self).budget,
            init_step(old(self).fx, old(self).budget as nat, *x, old(self).st()) == (Step {
                out: init_result(r),
                st: final(self).st(),
            }),
        decreases old(self).budget, *x, 0int, 0int,
    {
        reveal(opt_init);
        match &x.init {
            None => Ok(None),
            Some(ForInit::Let(d)) => match self.construct_binding(
                &d.name,
                &d.type_ann,
                &d.value,
                &d.span,
            ) {
                Ok(b) => Ok(Some(TypedForInit::Let(b))),
                Err(f) => Err(f),
            },
            Some(ForInit::Mut(d)) => match self.construct_binding(
                &d.name,
                &d.type_ann,
                &d.value,
                &d.span,
            ) {
                Ok(b) => Ok(Some(TypedForInit::Mut(as_mut(b)))),
                Err(f) => Err(f),
            },
            Some(ForInit::Expr(e)) => match self.construct_expr(e, None) {
                Ok(t) => Ok(Some(TypedForInit::Expr(t))),
                Err(f) => Err(f),
            },
        }
    }

    fn construct_for_start(&mut self, x: &'a ForStmt) -> (r: Result<
        (Option<TypedForInit<'a>>, Option<TypedExpr<'a>>),
        MetelError,
    >)
        ensures
            final(self).fx == old(self).fx,
            final(self).budget == old(self).budget,
            for_start_step(old(self).fx, old(self).budget as nat, *x, old(self).st()) == (Step {
                out: match r {
                    Ok(p) => Ok((opt_init(p.0), opt_expr(p.1))),
                    Err(e) => Err(e@),
                },
                st: final(self).st(),
            }),
        decreases old(self).budget, *x, 1int, 0int,
    {
        match self.construct_init(x) {
            Ok(init) => match self.construct_guard(&x.condition) {
                Ok(condition) => Ok((init, condition)),
                Err(f) => Err(f),
            },
            Err(f) => Err(f),
        }
    }

    fn construct_for_rest(&mut self, x: &'a ForStmt) -> (r: Result<
        (Option<TypedExpr<'a>>, TypedBlock<'a>),
        MetelError,
    >)
        ensures
            final(self).fx == old(self).fx,
            final(self).budget == old(self).budget,
            for_rest_step(old(self).fx, old(self).budget as nat, *x, old(self).st()) == (Step {
                out: match r {
                    Ok(p) => Ok((opt_expr(p.0), block_tree(p.1))),
                    Err(e) => Err(e@),
                },
                st: final(self).st(),
            }),
        decreases old(self).budget, *x, 1int, 0int,
    {
        match self.construct_guard(&x.step) {
            Ok(step) => match self.construct_loop_body(&x.body) {
                Ok(body) => Ok((step, body)),
                Err(f) => Err(f),
            },
            Err(f) => Err(f),
        }
    }

    /// Elaborate a counted loop.
    pub fn construct_for(&mut self, x: &'a ForStmt) -> (r: Result<TypedStmt<'a>, MetelError>)
        ensures
            final(self).fx == old(self).fx,
            final(self).budget == old(self).budget,
            for_step(old(self).fx, old(self).budget as nat, *x, old(self).st()) == (Step {
                out: stmt_result(r),
                st: final(self).st(),
            }),
        decreases old(self).budget, *x, 2int, 0int,
    {
        self.push_scope();
        match self.construct_for_start(x) {
            Ok((init, condition)) => match self.construct_for_rest(x) {
                Ok((step, body)) => {
                    self.pop_scope();
                    Ok(made_for(init, condition, step, body, &x.span))
                },
                Err(f) => Err(f),
            },
            Err(f) => Err(f),
        }
    }

    /// Elaborate a loop over the elements of a value.
    pub fn construct_for_in(&mut self, s: &'a Stmt) -> (r: Result<TypedStmt<'a>, MetelError>)
        requires
            *s is ForIn,
        ensures
            final(self).fx == old(self).fx,
            final(self).budget == old(self).budget,
            for_in_step(old(self).fx, old(self).budget as nat, *s, old(self).st()) == (Step {
                out: stmt_result(r),
                st: final(self).st(),
            }),
        decreases old(self).budget, *s, 1int, 0int,
    {
        broadcast use lemma_tree_ty;

        match s {
            Stmt::ForIn(x) => {
                let iterable: TypedExpr<'a> = match self.construct_expr(&x.iterable, None) {
                    Ok(t) => t,
                    Err(f) => {
                        return Err(f);
                    },
                };
                assert(tree_ty(expr_tree(iterable)) == ty_of(iterable)@);
                let item: Type = match iterated_type(&self.fx, iterable.ty()) {
                    Ok(t) => t,
                    Err(f) => {
                        return Err(f);
                    },
                };
                self.push_scope();
                self.bind(x.binding.as_str(), item);
                match self.construct_loop_body(&x.body) {
                    Ok(body) => {
                        self.pop_scope();
                        Ok(
                            TypedStmt::ForIn(
                                Box::new(
                                    TypedForInStmt {
                                        binding: x.binding.clone(),
                                        mutable: x.mutable,
                                        iterable,
                                        body,
                                        span: x.span.copy(),
                                    },
                                ),
                            ),
                        )
                    },
                    Err(f) => Err(f),
                }
            },
            _ => Err(misplaced()),
        }
    }
}

fn made_for<'a>(
    init: Option<TypedForInit<'a>>,
    condition: Option<TypedExpr<'a>>,
    step: Option<TypedExpr<'a>>,
    body: TypedBlock<'a>,
    span: &Span,
) -> (r: TypedStmt<'a>)
    ensures
        stmt_tree(r) == (StmtT::For {
            init: opt_init(init),
            condition: opt_expr(condition),
            step: opt_expr(step),
            body: block_tree(body),
            span: span@,
        }),
{
    reveal(opt_init);
    TypedStmt::For(Box::new(TypedForStmt { init, condition, step, body, span: span.copy() }))
}

} // verus!
