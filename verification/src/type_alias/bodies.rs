//! Rewriting of the types in declarations, statements and expressions.
use vstd::prelude::*;
use crate::ast::{AspectDecl, AspectMethod, AssignTarget, Block, Decl, EnumDecl, Expr};
use crate::ast::{ForInStmt, ForInit, ForStmt, FunDecl, ImplBlock, LetDecl, MatchArm};
use crate::ast::{MutDecl, Stmt, StructDecl, WhileStmt};
use crate::error::{MetelError, MetelErrorV};
use super::expansion::{aliases_view, AliasDef, AliasV};
use super::rewrite::{ann_fault, ann_rewritten, assocs_fault, assocs_rewritten, either};
use super::rewrite::{fields_fault, fields_rewritten, generics_fault, generics_rewritten};
use super::rewrite::{params_fault, params_rewritten, requirements_fault, requirements_rewritten};
use super::rewrite::{rewrite_ann, rewrite_assocs, rewrite_fields, rewrite_generics};
use super::rewrite::{rewrite_params, rewrite_requirements, rewrite_type, rewrite_types};
use super::rewrite::{rewrite_variants, rewrite_where, type_fault, type_rewritten, types_fault};
use super::rewrite::{types_rewritten, variants_fault, variants_rewritten, where_fault};
use super::rewrite::where_rewritten;

verus! {

/// What is wrong with the types of an expression that may be missing.
pub open spec fn tail_fault(al: Seq<AliasV>, t: Option<Box<Expr>>) -> Option<MetelErrorV>
    decreases t, 0int,
{
    match t {
        Some(e) => expr_fault(al, *e),
        None => None,
    }
}

/// Whether an expression that may be missing is another with its types expanded.
pub open spec fn tail_rewritten(al: Seq<AliasV>, t: Option<Box<Expr>>, u: Option<Box<Expr>>) -> bool
    decreases t,
{
    match (t, u) {
        (Some(e), Some(f)) => expr_rewritten(al, *e, *f),
        (None, None) => true,
        _ => false,
    }
}

/// What is wrong with the types of an expression that may be missing.
pub open spec fn part_fault(al: Seq<AliasV>, t: Option<Expr>) -> Option<MetelErrorV>
    decreases t, 0int,
{
    match t {
        Some(e) => expr_fault(al, e),
        None => None,
    }
}

/// Whether an expression that may be missing is another with its types expanded.
pub open spec fn part_rewritten(al: Seq<AliasV>, t: Option<Expr>, u: Option<Expr>) -> bool
    decreases t,
{
    match (t, u) {
        (Some(e), Some(f)) => expr_rewritten(al, e, f),
        (None, None) => true,
        _ => false,
    }
}

/// What is wrong with the types of a block.
pub open spec fn block_fault(al: Seq<AliasV>, b: Block) -> Option<MetelErrorV>
    decreases b, 0int,
{
    either(decls_fault(al, b.stmts@, b.stmts@.len() as int), tail_fault(al, b.tail))
}

/// Whether a block is another with its types expanded.
pub open spec fn block_rewritten(al: Seq<AliasV>, b: Block, c: Block) -> bool
    decreases b,
{
    decls_rewritten(al, b.stmts@, c.stmts@) && tail_rewritten(al, b.tail, c.tail) && c == (Block {
        stmts: c.stmts,
        tail: c.tail,
        ..b
    })
}

/// What is wrong with the types of a block that may be missing.
pub open spec fn option_fault(al: Seq<AliasV>, b: Option<Block>) -> Option<MetelErrorV>
    decreases b, 0int,
{
    match b {
        Some(b) => block_fault(al, b),
        None => None,
    }
}

/// Whether a block that may be missing is another with its types expanded.
pub open spec fn option_rewritten(al: Seq<AliasV>, b: Option<Block>, c: Option<Block>) -> bool
    decreases b,
{
    match (b, c) {
        (Some(b), Some(c)) => block_rewritten(al, b, c),
        (None, None) => true,
        _ => false,
    }
}

/// What is wrong with the types of a method that an aspect declares.
pub open spec fn signature_fault(al: Seq<AliasV>, m: AspectMethod) -> Option<MetelErrorV>
    decreases m, 0int,
{
    either(
        generics_fault(al, m.generics@, m.generics@.len() as int),
        either(
            params_fault(al, m.params@, m.params@.len() as int),
            either(ann_fault(al, m.return_type), option_fault(al, m.default_body)),
        ),
    )
}

/// Whether a method that an aspect declares is another with its types expanded.
pub open spec fn signature_rewritten(al: Seq<AliasV>, m: AspectMethod, n: AspectMethod) -> bool
    decreases m,
{
    generics_rewritten(al, m.generics@, n.generics@) && params_rewritten(al, m.params@, n.params@)
        && ann_rewritten(al, m.return_type, n.return_type) && option_rewritten(
        al,
        m.default_body,
        n.default_body,
    ) && n == (AspectMethod {
        generics: n.generics,
        params: n.params,
        return_type: n.return_type,
        default_body: n.default_body,
        ..m
    })
}

/// What is wrong with the types of a function.
pub open spec fn fun_fault(al: Seq<AliasV>, f: FunDecl) -> Option<MetelErrorV>
    decreases f, 0int,
{
    either(
        generics_fault(al, f.generics@, f.generics@.len() as int),
        either(
            params_fault(al, f.params@, f.params@.len() as int),
            either(ann_fault(al, f.return_type), block_fault(al, f.body)),
        ),
    )
}

/// Whether a function is another with its types expanded.
pub open spec fn fun_rewritten(al: Seq<AliasV>, f: FunDecl, g: FunDecl) -> bool
    decreases f,
{
    generics_rewritten(al, f.generics@, g.generics@) && params_rewritten(al, f.params@, g.params@)
        && ann_rewritten(al, f.return_type, g.return_type) && block_rewritten(al, f.body, g.body)
        && g == (FunDecl {
        generics: g.generics,
        params: g.params,
        return_type: g.return_type,
        body: g.body,
        ..f
    })
}

/// What is wrong with the types of an impl.
pub open spec fn impl_fault(al: Seq<AliasV>, ib: ImplBlock) -> Option<MetelErrorV>
    decreases ib, 0int,
{
    either(
        generics_fault(al, ib.generics@, ib.generics@.len() as int),
        either(
            type_fault(al, ib.target_type),
            either(
                types_fault(al, ib.aspect_type_args@, ib.aspect_type_args@.len() as int),
                either(
                    where_fault(al, ib.where_clause),
                    either(
                        assocs_fault(al, ib.assoc_type_defs@, ib.assoc_type_defs@.len() as int),
                        funs_fault(al, ib.methods@, ib.methods@.len() as int),
                    ),
                ),
            ),
        ),
    )
}

/// Whether an impl is another with its types expanded.
pub open spec fn impl_rewritten(al: Seq<AliasV>, a: ImplBlock, b: ImplBlock) -> bool
    decreases a,
{
    &&& generics_rewritten(al, a.generics@, b.generics@)
    &&& type_rewritten(al, a.target_type, b.target_type)
    &&& types_rewritten(al, a.aspect_type_args@, b.aspect_type_args@)
    &&& where_rewritten(al, a.where_clause, b.where_clause)
    &&& assocs_rewritten(al, a.assoc_type_defs@, b.assoc_type_defs@)
    &&& funs_rewritten(al, a.methods@, b.methods@)
    &&& b == (ImplBlock {
        generics: b.generics,
        target_type: b.target_type,
        aspect_type_args: b.aspect_type_args,
        where_clause: b.where_clause,
        assoc_type_defs: b.assoc_type_defs,
        methods: b.methods,
        ..a
    })
}

/// What is wrong with the types of a declaration. An alias inside a block is left alone.
pub open spec fn decl_fault(al: Seq<AliasV>, d: Decl) -> Option<MetelErrorV>
    decreases d, 0int,
{
    match d {
        Decl::Fun(f) => fun_fault(al, f),
        Decl::Struct(s) => either(
            generics_fault(al, s.generics@, s.generics@.len() as int),
            fields_fault(al, s.fields@, s.fields@.len() as int),
        ),
        Decl::Enum(e) => either(
            generics_fault(al, e.generics@, e.generics@.len() as int),
            variants_fault(al, e.variants@, e.variants@.len() as int),
        ),
        Decl::Impl(ib) => impl_fault(al, ib),
        Decl::Aspect(a) => either(
            generics_fault(al, a.generics@, a.generics@.len() as int),
            either(
                requirements_fault(al, a.assoc_types@, a.assoc_types@.len() as int),
                signatures_fault(al, a.methods@, a.methods@.len() as int),
            ),
        ),
        Decl::Let(x) => either(ann_fault(al, x.type_ann), expr_fault(al, x.value)),
        Decl::Mut(x) => either(ann_fault(al, x.type_ann), expr_fault(al, x.value)),
        Decl::Stmt(s) => stmt_fault(al, s),
        Decl::TypeAlias(_) => None,
    }
}

/// Whether a declaration is another with its types expanded.
pub open spec fn decl_rewritten(al: Seq<AliasV>, d: Decl, e: Decl) -> bool
    decreases d,
{
    match (d, e) {
        (Decl::Fun(f), Decl::Fun(g)) => fun_rewritten(al, f, g),
        (Decl::Struct(s), Decl::Struct(t)) => generics_rewritten(al, s.generics@, t.generics@)
            && fields_rewritten(al, s.fields@, t.fields@) && t == (StructDecl {
            generics: t.generics,
            fields: t.fields,
            ..s
        }),
        (Decl::Enum(s), Decl::Enum(t)) => generics_rewritten(al, s.generics@, t.generics@)
            && variants_rewritten(al, s.variants@, t.variants@) && t == (EnumDecl {
            generics: t.generics,
            variants: t.variants,
            ..s
        }),
        (Decl::Impl(a), Decl::Impl(b)) => impl_rewritten(al, a, b),
        (Decl::Aspect(a), Decl::Aspect(b)) => generics_rewritten(al, a.generics@, b.generics@)
            && requirements_rewritten(al, a.assoc_types@, b.assoc_types@) && signatures_rewritten(
            al,
            a.methods@,
            b.methods@,
        ) && b == (AspectDecl {
            generics: b.generics,
            assoc_types: b.assoc_types,
            methods: b.methods,
            ..a
        }),
        (Decl::Let(x), Decl::Let(y)) => ann_rewritten(al, x.type_ann, y.type_ann)
            && expr_rewritten(al, x.value, y.value) && y == (LetDecl {
            type_ann: y.type_ann,
            value: y.value,
            ..x
        }),
        (Decl::Mut(x), Decl::Mut(y)) => ann_rewritten(al, x.type_ann, y.type_ann)
            && expr_rewritten(al, x.value, y.value) && y == (MutDecl {
            type_ann: y.type_ann,
            value: y.value,
            ..x
        }),
        (Decl::Stmt(s), Decl::Stmt(t)) => stmt_rewritten(al, s, t),
        (Decl::TypeAlias(x), Decl::TypeAlias(y)) => x == y,
        _ => false,
    }
}

/// What is wrong with the types of the start of a counted loop.
pub open spec fn init_fault(al: Seq<AliasV>, i: Option<ForInit>) -> Option<MetelErrorV>
    decreases i, 0int,
{
    match i {
        Some(ForInit::Let(x)) => either(ann_fault(al, x.type_ann), expr_fault(al, x.value)),
        Some(ForInit::Mut(x)) => either(ann_fault(al, x.type_ann), expr_fault(al, x.value)),
        Some(ForInit::Expr(e)) => expr_fault(al, e),
        None => None,
    }
}

/// Whether the start of a counted loop is another with its types expanded.
pub open spec fn init_rewritten(al: Seq<AliasV>, i: Option<ForInit>, j: Option<ForInit>) -> bool
    decreases i,
{
    match (i, j) {
        (Some(ForInit::Let(x)), Some(ForInit::Let(y))) => ann_rewritten(al, x.type_ann, y.type_ann)
            && expr_rewritten(al, x.value, y.value) && y == (LetDecl {
            type_ann: y.type_ann,
            value: y.value,
            ..x
        }),
        (Some(ForInit::Mut(x)), Some(ForInit::Mut(y))) => ann_rewritten(al, x.type_ann, y.type_ann)
            && expr_rewritten(al, x.value, y.value) && y == (MutDecl {
            type_ann: y.type_ann,
            value: y.value,
            ..x
        }),
        (Some(ForInit::Expr(e)), Some(ForInit::Expr(f))) => expr_rewritten(al, e, f),
        (None, None) => true,
        _ => false,
    }
}

/// What is wrong with the types of a counted loop.
pub open spec fn counted_fault(al: Seq<AliasV>, x: ForStmt) -> Option<MetelErrorV>
    decreases x, 0int,
{
    either(
        init_fault(al, x.init),
        either(
            part_fault(al, x.condition),
            either(part_fault(al, x.step), block_fault(al, x.body)),
        ),
    )
}

/// Whether a counted loop is another with its types expanded.
pub open spec fn counted_rewritten(al: Seq<AliasV>, x: ForStmt, y: ForStmt) -> bool
    decreases x,
{
    &&& init_rewritten(al, x.init, y.init)
    &&& part_rewritten(al, x.condition, y.condition)
    &&& part_rewritten(al, x.step, y.step)
    &&& block_rewritten(al, x.body, y.body)
    &&& y == (ForStmt {
        init: y.init,
        condition: y.condition,
        step: y.step,
        body: y.body,
        ..x
    })
}

/// What is wrong with the types of a statement.
pub open spec fn stmt_fault(al: Seq<AliasV>, s: Stmt) -> Option<MetelErrorV>
    decreases s, 0int,
{
    match s {
        Stmt::Expr(e) => expr_fault(al, e),
        Stmt::While(x) => either(expr_fault(al, x.condition), block_fault(al, x.body)),
        Stmt::For(x) => counted_fault(al, *x),
        Stmt::ForIn(x) => either(expr_fault(al, x.iterable), block_fault(al, x.body)),
    }
}

/// Whether a statement is another with its types expanded.
pub open spec fn stmt_rewritten(al: Seq<AliasV>, s: Stmt, t: Stmt) -> bool
    decreases s,
{
    match (s, t) {
        (Stmt::Expr(e), Stmt::Expr(f)) => expr_rewritten(al, e, f),
        (Stmt::While(x), Stmt::While(y)) => expr_rewritten(al, x.condition, y.condition)
            && block_rewritten(al, x.body, y.body) && y == (WhileStmt {
            condition: y.condition,
            body: y.body,
            ..x
        }),
        (Stmt::For(x), Stmt::For(y)) => counted_rewritten(al, *x, *y),
        (Stmt::ForIn(x), Stmt::ForIn(y)) => expr_rewritten(al, x.iterable, y.iterable)
            && block_rewritten(al, x.body, y.body) && *y == (ForInStmt {
            iterable: y.iterable,
            body: y.body,
            ..*x
        }),
        _ => false,
    }
}

/// What is wrong with the types of an arm.
pub open spec fn arm_fault(al: Seq<AliasV>, a: MatchArm) -> Option<MetelErrorV>
    decreases a, 0int,
{
    either(part_fault(al, a.guard), block_fault(al, a.body))
}

/// Whether an arm is another with its types expanded.
pub open spec fn arm_rewritten(al: Seq<AliasV>, a: MatchArm, b: MatchArm) -> bool
    decreases a,
{
    part_rewritten(al, a.guard, b.guard) && block_rewritten(al, a.body, b.body) && b == (MatchArm {
        guard: b.guard,
        body: b.body,
        ..a
    })
}

/// What is wrong with the types of a field's value.
pub open spec fn entry_fault(al: Seq<AliasV>, x: (String, Expr)) -> Option<MetelErrorV>
    decreases x, 0int,
{
    expr_fault(al, x.1)
}

/// Whether a field's value is another with its types expanded.
pub open spec fn entry_rewritten(al: Seq<AliasV>, x: (String, Expr), y: (String, Expr)) -> bool
    decreases x,
{
    x.0 == y.0 && expr_rewritten(al, x.1, y.1)
}

/// What is wrong with the types of an assignment target.
pub open spec fn target_fault(al: Seq<AliasV>, t: AssignTarget) -> Option<MetelErrorV>
    decreases t, 0int,
{
    match t {
        AssignTarget::Ident(_, _) => None,
        AssignTarget::FieldAccess { object, .. } => expr_fault(al, *object),
        AssignTarget::TupleAccess { object, .. } => expr_fault(al, *object),
        AssignTarget::Index { object, index, .. } => either(
            expr_fault(al, *object),
            expr_fault(al, *index),
        ),
        AssignTarget::Deref { object, .. } => expr_fault(al, *object),
    }
}

/// Whether an assignment target is another with its types expanded.
pub open spec fn target_rewritten(al: Seq<AliasV>, t: AssignTarget, u: AssignTarget) -> bool
    decreases t,
{
    match (t, u) {
        (AssignTarget::Ident(x, a), AssignTarget::Ident(y, b)) => x == y && a == b,
        (
            AssignTarget::FieldAccess { object: x, field: m, span: a },
            AssignTarget::FieldAccess { object: y, field: n, span: b },
        ) => expr_rewritten(al, *x, *y) && m == n && a == b,
        (
            AssignTarget::TupleAccess { object: x, index: m, span: a },
            AssignTarget::TupleAccess { object: y, index: n, span: b },
        ) => expr_rewritten(al, *x, *y) && m == n && a == b,
        (
            AssignTarget::Index { object: x, index: m, span: a },
            AssignTarget::Index { object: y, index: n, span: b },
        ) => expr_rewritten(al, *x, *y) && expr_rewritten(al, *m, *n) && a == b,
        (
            AssignTarget::Deref { object: x, span: a },
            AssignTarget::Deref { object: y, span: b },
        ) => expr_rewritten(al, *x, *y) && a == b,
        _ => false,
    }
}

/// What is wrong with the types of an expression. The annotations of a closure's parameters are
/// left alone.
pub open spec fn expr_fault(al: Seq<AliasV>, e: Expr) -> Option<MetelErrorV>
    decreases e, 0int,
{
    match e {
        Expr::Literal(_, _) => None,
        Expr::Ident(_, _) => None,
        Expr::ResolvedPath { .. } => None,
        Expr::Path(_, _) => None,
        Expr::RecordProjection { .. } => None,
        Expr::Continue(_) => None,
        Expr::BinOp(x, _, y, _) => either(expr_fault(al, *x), expr_fault(al, *y)),
        Expr::UnaryOp(_, x, _) => expr_fault(al, *x),
        Expr::Tuple(s, _) => exprs_fault(al, s@, s@.len() as int),
        Expr::Array(s, _) => exprs_fault(al, s@, s@.len() as int),
        Expr::RecordLiteral { fields, .. } => entries_fault(al, fields@, fields@.len() as int),
        Expr::StructLiteral { fields, .. } => entries_fault(al, fields@, fields@.len() as int),
        Expr::RepeatArray(x, _, _) => expr_fault(al, *x),
        Expr::Call { callee, type_args, args, .. } => either(
            expr_fault(al, *callee),
            either(
                types_fault(al, type_args@, type_args@.len() as int),
                exprs_fault(al, args@, args@.len() as int),
            ),
        ),
        Expr::MethodCall { receiver, type_args, args, .. } => either(
            expr_fault(al, *receiver),
            either(
                types_fault(al, type_args@, type_args@.len() as int),
                exprs_fault(al, args@, args@.len() as int),
            ),
        ),
        Expr::Index { object, index, .. } => either(
            expr_fault(al, *object),
            expr_fault(al, *index),
        ),
        Expr::If { condition, then_branch, else_branch, .. } => either(
            expr_fault(al, *condition),
            either(block_fault(al, then_branch), option_fault(al, else_branch)),
        ),
        Expr::Assign { target, value, .. } => either(
            target_fault(al, target),
            expr_fault(al, *value),
        ),
        Expr::FieldAccess { object, .. } => expr_fault(al, *object),
        Expr::TupleAccess { object, .. } => expr_fault(al, *object),
        Expr::Closure { return_type, body, .. } => either(
            ann_fault(al, return_type),
            block_fault(al, body),
        ),
        Expr::Match(m) => either(
            expr_fault(al, *m.scrutinee),
            arms_fault(al, m.arms@, m.arms@.len() as int),
        ),
        Expr::PropagateError { expr, .. } => expr_fault(al, *expr),
        Expr::Ascribe { expr, ann, .. } => either(expr_fault(al, *expr), type_fault(al, ann)),
        Expr::Cast { expr, target_type, .. } => either(
            expr_fault(al, *expr),
            type_fault(al, target_type),
        ),
        Expr::Loop { body, .. } => block_fault(al, body),
        Expr::Return(x) => tail_fault(al, x.value),
        Expr::Break(x) => tail_fault(al, x.value),
    }
}

/// Whether an expression holds no type and no further expression.
pub open spec fn is_leaf(e: Expr) -> bool {
    e is Literal || e is Ident || e is ResolvedPath || e is Path || e is RecordProjection
        || e is Continue
}

/// Whether an expression is another with its types expanded.
pub open spec fn expr_rewritten(al: Seq<AliasV>, e: Expr, f: Expr) -> bool
    decreases e,
{
    match (e, f) {
        (Expr::BinOp(x, o, y, a), Expr::BinOp(z, p, w, b)) => expr_rewritten(al, *x, *z)
            && expr_rewritten(al, *y, *w) && o == p && a == b,
        (Expr::UnaryOp(o, x, a), Expr::UnaryOp(p, y, b)) => expr_rewritten(al, *x, *y) && o == p
            && a == b,
        (Expr::Tuple(s, a), Expr::Tuple(t, b)) => exprs_rewritten(al, s@, t@) && a == b,
        (Expr::Array(s, a), Expr::Array(t, b)) => exprs_rewritten(al, s@, t@) && a == b,
        (
            Expr::RecordLiteral { fields: s, span: a },
            Expr::RecordLiteral { fields: t, span: b },
        ) => entries_rewritten(al, s@, t@) && a == b,
        (
            Expr::StructLiteral { path: p, fields: s, symbol_id: m, span: a },
            Expr::StructLiteral { path: q, fields: t, symbol_id: n, span: b },
        ) => entries_rewritten(al, s@, t@) && p == q && m == n && a == b,
        (Expr::RepeatArray(x, m, a), Expr::RepeatArray(y, n, b)) => expr_rewritten(al, *x, *y)
            && m == n && a == b,
        (
            Expr::Call { callee: x, type_args: k, args: s, span: a },
            Expr::Call { callee: y, type_args: l, args: t, span: b },
        ) => expr_rewritten(al, *x, *y) && types_rewritten(al, k@, l@) && exprs_rewritten(
            al,
            s@,
            t@,
        ) && a == b,
        (
            Expr::MethodCall { receiver: x, method: m, type_args: k, args: s, span: a },
            Expr::MethodCall { receiver: y, method: n, type_args: l, args: t, span: b },
        ) => expr_rewritten(al, *x, *y) && types_rewritten(al, k@, l@) && exprs_rewritten(
            al,
            s@,
            t@,
        ) && m == n && a == b,
        (
            Expr::Index { object: x, index: m, span: a },
            Expr::Index { object: y, index: n, span: b },
        ) => expr_rewritten(al, *x, *y) && expr_rewritten(al, *m, *n) && a == b,
        (
            Expr::If { condition: x, then_branch: m, else_branch: o, span: a },
            Expr::If { condition: y, then_branch: n, else_branch: p, span: b },
        ) => expr_rewritten(al, *x, *y) && block_rewritten(al, m, n) && option_rewritten(al, o, p)
            && a == b,
        (
            Expr::Assign { target: t, op: o, value: x, span: a },
            Expr::Assign { target: u, op: p, value: y, span: b },
        ) => target_rewritten(al, t, u) && expr_rewritten(al, *x, *y) && o == p && a == b,
        (
            Expr::FieldAccess { object: x, field: m, span: a },
            Expr::FieldAccess { object: y, field: n, span: b },
        ) => expr_rewritten(al, *x, *y) && m == n && a == b,
        (
            Expr::TupleAccess { object: x, index: m, span: a },
            Expr::TupleAccess { object: y, index: n, span: b },
        ) => expr_rewritten(al, *x, *y) && m == n && a == b,
        (
            Expr::Closure { params: k, return_type: t, body: m, span: a },
            Expr::Closure { params: l, return_type: u, body: n, span: b },
        ) => ann_rewritten(al, t, u) && block_rewritten(al, m, n) && k == l && a == b,
        (Expr::Match(m), Expr::Match(n)) => expr_rewritten(al, *m.scrutinee, *n.scrutinee)
            && arms_rewritten(al, m.arms@, n.arms@) && m.span == n.span,
        (
            Expr::PropagateError { expr: x, span: a },
            Expr::PropagateError { expr: y, span: b },
        ) => expr_rewritten(al, *x, *y) && a == b,
        (
            Expr::Ascribe { expr: x, ann: t, span: a },
            Expr::Ascribe { expr: y, ann: u, span: b },
        ) => expr_rewritten(al, *x, *y) && type_rewritten(al, t, u) && a == b,
        (
            Expr::Cast { expr: x, target_type: t, span: a },
            Expr::Cast { expr: y, target_type: u, span: b },
        ) => expr_rewritten(al, *x, *y) && type_rewritten(al, t, u) && a == b,
        (Expr::Loop { body: m, span: a }, Expr::Loop { body: n, span: b }) => block_rewritten(
            al,
            m,
            n,
        ) && a == b,
        (Expr::Return(x), Expr::Return(y)) => tail_rewritten(al, x.value, y.value) && x.span
            == y.span,
        (Expr::Break(x), Expr::Break(y)) => tail_rewritten(al, x.value, y.value) && x.span
            == y.span,
        _ => is_leaf(e) && e == f,
    }
}

/// What is wrong with the types of the first `k` of a list.
pub open spec fn signatures_fault(al: Seq<AliasV>, s: Seq<AspectMethod>, k: int) -> Option<MetelErrorV>
    decreases s, k,
{
    if k <= 0 || k > s.len() {
        None
    } else {
        match signatures_fault(al, s, k - 1) {
            Some(e) => Some(e),
            None => signature_fault(al, s[k - 1]),
        }
    }
}

/// Whether a list is another with its types expanded.
pub open spec fn signatures_rewritten(al: Seq<AliasV>, s: Seq<AspectMethod>, t: Seq<AspectMethod>) -> bool
    decreases s,
{
    s.len() == t.len() && forall|i: int|
        0 <= i < s.len() ==> signature_rewritten(al, s[i], #[trigger] t[i])
}

/// What is wrong with the types of the first `k` of a list.
pub open spec fn funs_fault(al: Seq<AliasV>, s: Seq<FunDecl>, k: int) -> Option<MetelErrorV>
    decreases s, k,
{
    if k <= 0 || k > s.len() {
        None
    } else {
        match funs_fault(al, s, k - 1) {
            Some(e) => Some(e),
            None => fun_fault(al, s[k - 1]),
        }
    }
}

/// Whether a list is another with its types expanded.
pub open spec fn funs_rewritten(al: Seq<AliasV>, s: Seq<FunDecl>, t: Seq<FunDecl>) -> bool
    decreases s,
{
    s.len() == t.len() && forall|i: int|
        0 <= i < s.len() ==> fun_rewritten(al, s[i], #[trigger] t[i])
}

/// What is wrong with the types of the first `k` of a list.
pub open spec fn decls_fault(al: Seq<AliasV>, s: Seq<Decl>, k: int) -> Option<MetelErrorV>
    decreases s, k,
{
    if k <= 0 || k > s.len() {
        None
    } else {
        match decls_fault(al, s, k - 1) {
            Some(e) => Some(e),
            None => decl_fault(al, s[k - 1]),
        }
    }
}

/// Whether a list is another with its types expanded.
pub open spec fn decls_rewritten(al: Seq<AliasV>, s: Seq<Decl>, t: Seq<Decl>) -> bool
    decreases s,
{
    s.len() == t.len() && forall|i: int|
        0 <= i < s.len() ==> decl_rewritten(al, s[i], #[trigger] t[i])
}

/// What is wrong with the types of the first `k` of a list.
pub open spec fn exprs_fault(al: Seq<AliasV>, s: Seq<Expr>, k: int) -> Option<MetelErrorV>
    decreases s, k,
{
    if k <= 0 || k > s.len() {
        None
    } else {
        match exprs_fault(al, s, k - 1) {
            Some(e) => Some(e),
            None => expr_fault(al, s[k - 1]),
        }
    }
}

/// Whether a list is another with its types expanded.
pub open spec fn exprs_rewritten(al: Seq<AliasV>, s: Seq<Expr>, t: Seq<Expr>) -> bool
    decreases s,
{
    s.len() == t.len() && forall|i: int|
        0 <= i < s.len() ==> expr_rewritten(al, s[i], #[trigger] t[i])
}

/// What is wrong with the types of the first `k` of a list.
pub open spec fn entries_fault(al: Seq<AliasV>, s: Seq<(String, Expr)>, k: int) -> Option<MetelErrorV>
    decreases s, k,
{
    if k <= 0 || k > s.len() {
        None
    } else {
        match entries_fault(al, s, k - 1) {
            Some(e) => Some(e),
            None => entry_fault(al, s[k - 1]),
        }
    }
}

/// Whether a list is another with its types expanded.
pub open spec fn entries_rewritten(al: Seq<AliasV>, s: Seq<(String, Expr)>, t: Seq<(String, Expr)>) -> bool
    decreases s,
{
    s.len() == t.len() && forall|i: int|
        0 <= i < s.len() ==> entry_rewritten(al, s[i], #[trigger] t[i])
}

/// What is wrong with the types of the first `k` of a list.
pub open spec fn arms_fault(al: Seq<AliasV>, s: Seq<MatchArm>, k: int) -> Option<MetelErrorV>
    decreases s, k,
{
    if k <= 0 || k > s.len() {
        None
    } else {
        match arms_fault(al, s, k - 1) {
            Some(e) => Some(e),
            None => arm_fault(al, s[k - 1]),
        }
    }
}

/// Whether a list is another with its types expanded.
pub open spec fn arms_rewritten(al: Seq<AliasV>, s: Seq<MatchArm>, t: Seq<MatchArm>) -> bool
    decreases s,
{
    s.len() == t.len() && forall|i: int|
        0 <= i < s.len() ==> arm_rewritten(al, s[i], #[trigger] t[i])
}

fn rewrite_tail(al: &Vec<AliasDef>, t: &mut Option<Box<Expr>>) -> (r: Option<MetelError>)
    ensures
        match tail_fault(aliases_view(al@), *old(t)) {
            Some(e) => r matches Some(x) && x@ == e,
            None => r is None && tail_rewritten(aliases_view(al@), *old(t), *final(t)),
        },
    decreases *old(t),
{
    match t {
        Some(e) => rewrite_expr(al, e),
        None => None,
    }
}

fn rewrite_part(al: &Vec<AliasDef>, t: &mut Option<Expr>) -> (r: Option<MetelError>)
    ensures
        match part_fault(aliases_view(al@), *old(t)) {
            Some(e) => r matches Some(x) && x@ == e,
            None => r is None && part_rewritten(aliases_view(al@), *old(t), *final(t)),
        },
    decreases *old(t),
{
    match t {
        Some(e) => rewrite_expr(al, e),
        None => None,
    }
}

fn rewrite_block(al: &Vec<AliasDef>, b: &mut Block) -> (r: Option<MetelError>)
    ensures
        match block_fault(aliases_view(al@), *old(b)) {
            Some(e) => r matches Some(x) && x@ == e,
            None => r is None && block_rewritten(aliases_view(al@), *old(b), *final(b)),
        },
    decreases *old(b),
{
    let stopped: Option<MetelError> = rewrite_decls(al, &mut b.stmts);
    if stopped.is_some() {
        return stopped;
    }
    rewrite_tail(al, &mut b.tail)
}

fn rewrite_option(al: &Vec<AliasDef>, b: &mut Option<Block>) -> (r: Option<MetelError>)
    ensures
        match option_fault(aliases_view(al@), *old(b)) {
            Some(e) => r matches Some(x) && x@ == e,
            None => r is None && option_rewritten(aliases_view(al@), *old(b), *final(b)),
        },
    decreases *old(b),
{
    match b {
        Some(b) => rewrite_block(al, b),
        None => None,
    }
}

fn rewrite_signature(al: &Vec<AliasDef>, m: &mut AspectMethod) -> (r: Option<MetelError>)
    ensures
        match signature_fault(aliases_view(al@), *old(m)) {
            Some(e) => r matches Some(x) && x@ == e,
            None => r is None && signature_rewritten(aliases_view(al@), *old(m), *final(m)),
        },
    decreases *old(m),
{
    let stopped: Option<MetelError> = rewrite_generics(al, &mut m.generics);
    if stopped.is_some() {
        return stopped;
    }
    let stopped: Option<MetelError> = rewrite_params(al, &mut m.params);
    if stopped.is_some() {
        return stopped;
    }
    let stopped: Option<MetelError> = rewrite_ann(al, &mut m.return_type);
    if stopped.is_some() {
        return stopped;
    }
    rewrite_option(al, &mut m.default_body)
}

fn rewrite_fun(al: &Vec<AliasDef>, f: &mut FunDecl) -> (r: Option<MetelError>)
    ensures
        match fun_fault(aliases_view(al@), *old(f)) {
            Some(e) => r matches Some(x) && x@ == e,
            None => r is None && fun_rewritten(aliases_view(al@), *old(f), *final(f)),
        },
    decreases *old(f),
{
    let stopped: Option<MetelError> = rewrite_generics(al, &mut f.generics);
    if stopped.is_some() {
        return stopped;
    }
    let stopped: Option<MetelError> = rewrite_params(al, &mut f.params);
    if stopped.is_some() {
        return stopped;
    }
    let stopped: Option<MetelError> = rewrite_ann(al, &mut f.return_type);
    if stopped.is_some() {
        return stopped;
    }
    rewrite_block(al, &mut f.body)
}

fn rewrite_impl(al: &Vec<AliasDef>, ib: &mut ImplBlock) -> (r: Option<MetelError>)
    ensures
        match impl_fault(aliases_view(al@), *old(ib)) {
            Some(e) => r matches Some(x) && x@ == e,
            None => r is None && impl_rewritten(aliases_view(al@), *old(ib), *final(ib)),
        },
    decreases *old(ib),
{
    let stopped: Option<MetelError> = rewrite_generics(al, &mut ib.generics);
    if stopped.is_some() {
        return stopped;
    }
    let stopped: Option<MetelError> = rewrite_type(al, &mut ib.target_type);
    if stopped.is_some() {
        return stopped;
    }
    let stopped: Option<MetelError> = rewrite_types(al, &mut ib.aspect_type_args);
    if stopped.is_some() {
        return stopped;
    }
    let stopped: Option<MetelError> = rewrite_where(al, &mut ib.where_clause);
    if stopped.is_some() {
        return stopped;
    }
    let stopped: Option<MetelError> = rewrite_assocs(al, &mut ib.assoc_type_defs);
    if stopped.is_some() {
        return stopped;
    }
    rewrite_funs(al, &mut ib.methods)
}

pub(super) fn rewrite_decl(al: &Vec<AliasDef>, d: &mut Decl) -> (r: Option<MetelError>)
    ensures
        match decl_fault(aliases_view(al@), *old(d)) {
            Some(e) => r matches Some(x) && x@ == e,
            None => r is None && decl_rewritten(aliases_view(al@), *old(d), *final(d)),
        },
    decreases *old(d),
{
    match d {
        Decl::Fun(f) => rewrite_fun(al, f),
        Decl::Struct(s) => {
            let stopped: Option<MetelError> = rewrite_generics(al, &mut s.generics);
            if stopped.is_some() {
                return stopped;
            }
            rewrite_fields(al, &mut s.fields)
        },
        Decl::Enum(e) => {
            let stopped: Option<MetelError> = rewrite_generics(al, &mut e.generics);
            if stopped.is_some() {
                return stopped;
            }
            rewrite_variants(al, &mut e.variants)
        },
        Decl::Impl(ib) => rewrite_impl(al, ib),
        Decl::Aspect(a) => {
            let stopped: Option<MetelError> = rewrite_generics(al, &mut a.generics);
            if stopped.is_some() {
                return stopped;
            }
            let stopped: Option<MetelError> = rewrite_requirements(al, &mut a.assoc_types);
            if stopped.is_some() {
                return stopped;
            }
            rewrite_signatures(al, &mut a.methods)
        },
        Decl::Let(x) => {
            let stopped: Option<MetelError> = rewrite_ann(al, &mut x.type_ann);
            if stopped.is_some() {
                return stopped;
            }
            rewrite_expr(al, &mut x.value)
        },
        Decl::Mut(x) => {
            let stopped: Option<MetelError> = rewrite_ann(al, &mut x.type_ann);
            if stopped.is_some() {
                return stopped;
            }
            rewrite_expr(al, &mut x.value)
        },
        Decl::Stmt(s) => rewrite_stmt(al, s),
        Decl::TypeAlias(_) => None,
    }
}

fn rewrite_init(al: &Vec<AliasDef>, i: &mut Option<ForInit>) -> (r: Option<MetelError>)
    ensures
        match init_fault(aliases_view(al@), *old(i)) {
            Some(e) => r matches Some(x) && x@ == e,
            None => r is None && init_rewritten(aliases_view(al@), *old(i), *final(i)),
        },
    decreases *old(i),
{
    match i {
        Some(ForInit::Let(x)) => {
            let stopped: Option<MetelError> = rewrite_ann(al, &mut x.type_ann);
            if stopped.is_some() {
                return stopped;
            }
            rewrite_expr(al, &mut x.value)
        },
        Some(ForInit::Mut(x)) => {
            let stopped: Option<MetelError> = rewrite_ann(al, &mut x.type_ann);
            if stopped.is_some() {
                return stopped;
            }
            rewrite_expr(al, &mut x.value)
        },
        Some(ForInit::Expr(e)) => rewrite_expr(al, e),
        None => None,
    }
}

fn rewrite_counted(al: &Vec<AliasDef>, x: &mut ForStmt) -> (r: Option<MetelError>)
    ensures
        match counted_fault(aliases_view(al@), *old(x)) {
            Some(e) => r matches Some(x) && x@ == e,
            None => r is None && counted_rewritten(aliases_view(al@), *old(x), *final(x)),
        },
    decreases *old(x),
{
    let stopped: Option<MetelError> = rewrite_init(al, &mut x.init);
    if stopped.is_some() {
        return stopped;
    }
    let stopped: Option<MetelError> = rewrite_part(al, &mut x.condition);
    if stopped.is_some() {
        return stopped;
    }
    let stopped: Option<MetelError> = rewrite_part(al, &mut x.step);
    if stopped.is_some() {
        return stopped;
    }
    rewrite_block(al, &mut x.body)
}

fn rewrite_stmt(al: &Vec<AliasDef>, s: &mut Stmt) -> (r: Option<MetelError>)
    ensures
        match stmt_fault(aliases_view(al@), *old(s)) {
            Some(e) => r matches Some(x) && x@ == e,
            None => r is None && stmt_rewritten(aliases_view(al@), *old(s), *final(s)),
        },
    decreases *old(s),
{
    match s {
        Stmt::Expr(e) => rewrite_expr(al, e),
        Stmt::While(x) => {
            let stopped: Option<MetelError> = rewrite_expr(al, &mut x.condition);
            if stopped.is_some() {
                return stopped;
            }
            rewrite_block(al, &mut x.body)
        },
        Stmt::For(x) => rewrite_counted(al, x),
        Stmt::ForIn(x) => {
            let stopped: Option<MetelError> = rewrite_expr(al, &mut x.iterable);
            if stopped.is_some() {
                return stopped;
            }
            rewrite_block(al, &mut x.body)
        },
    }
}

fn rewrite_arm(al: &Vec<AliasDef>, a: &mut MatchArm) -> (r: Option<MetelError>)
    ensures
        match arm_fault(aliases_view(al@), *old(a)) {
            Some(e) => r matches Some(x) && x@ == e,
            None => r is None && arm_rewritten(aliases_view(al@), *old(a), *final(a)),
        },
    decreases *old(a),
{
    let stopped: Option<MetelError> = rewrite_part(al, &mut a.guard);
    if stopped.is_some() {
        return stopped;
    }
    rewrite_block(al, &mut a.body)
}

fn rewrite_entry(al: &Vec<AliasDef>, x: &mut (String, Expr)) -> (r: Option<MetelError>)
    ensures
        match entry_fault(aliases_view(al@), *old(x)) {
            Some(e) => r matches Some(x) && x@ == e,
            None => r is None && entry_rewritten(aliases_view(al@), *old(x), *final(x)),
        },
    decreases *old(x),
{
    rewrite_expr(al, &mut x.1)
}

fn rewrite_target(al: &Vec<AliasDef>, t: &mut AssignTarget) -> (r: Option<MetelError>)
    ensures
        match target_fault(aliases_view(al@), *old(t)) {
            Some(e) => r matches Some(x) && x@ == e,
            None => r is None && target_rewritten(aliases_view(al@), *old(t), *final(t)),
        },
    decreases *old(t),
{
    match t {
        AssignTarget::Ident(_, _) => None,
        AssignTarget::FieldAccess { object, .. } => rewrite_expr(al, object),
        AssignTarget::TupleAccess { object, .. } => rewrite_expr(al, object),
        AssignTarget::Index { object, index, .. } => {
            let stopped: Option<MetelError> = rewrite_expr(al, object);
            if stopped.is_some() {
                return stopped;
            }
            rewrite_expr(al, index)
        },
        AssignTarget::Deref { object, .. } => rewrite_expr(al, object),
    }
}

fn rewrite_expr(al: &Vec<AliasDef>, e: &mut Expr) -> (r: Option<MetelError>)
    ensures
        match expr_fault(aliases_view(al@), *old(e)) {
            Some(e) => r matches Some(x) && x@ == e,
            None => r is None && expr_rewritten(aliases_view(al@), *old(e), *final(e)),
        },
    decreases *old(e),
{
    match e {
        Expr::Literal(_, _) => None,
        Expr::Ident(_, _) => None,
        Expr::ResolvedPath { .. } => None,
        Expr::Path(_, _) => None,
        Expr::RecordProjection { .. } => None,
        Expr::Continue(_) => None,
        Expr::BinOp(x, _, y, _) => {
            let stopped: Option<MetelError> = rewrite_expr(al, x);
            if stopped.is_some() {
                return stopped;
            }
            rewrite_expr(al, y)
        },
        Expr::UnaryOp(_, x, _) => rewrite_expr(al, x),
        Expr::Tuple(s, _) => rewrite_exprs(al, s),
        Expr::Array(s, _) => rewrite_exprs(al, s),
        Expr::RecordLiteral { fields, .. } => rewrite_entries(al, fields),
        Expr::StructLiteral { fields, .. } => rewrite_entries(al, fields),
        Expr::RepeatArray(x, _, _) => rewrite_expr(al, x),
        Expr::Call { callee, type_args, args, .. } => {
            let stopped: Option<MetelError> = rewrite_expr(al, callee);
            if stopped.is_some() {
                return stopped;
            }
            let stopped: Option<MetelError> = rewrite_types(al, type_args);
            if stopped.is_some() {
                return stopped;
            }
            rewrite_exprs(al, args)
        },
        Expr::MethodCall { receiver, type_args, args, .. } => {
            let stopped: Option<MetelError> = rewrite_expr(al, receiver);
            if stopped.is_some() {
                return stopped;
            }
            let stopped: Option<MetelError> = rewrite_types(al, type_args);
            if stopped.is_some() {
                return stopped;
            }
            rewrite_exprs(al, args)
        },
        Expr::Index { object, index, .. } => {
            let stopped: Option<MetelError> = rewrite_expr(al, object);
            if stopped.is_some() {
                return stopped;
            }
            rewrite_expr(al, index)
        },
        Expr::If { condition, then_branch, else_branch, .. } => {
            let stopped: Option<MetelError> = rewrite_expr(al, condition);
            if stopped.is_some() {
                return stopped;
            }
            let stopped: Option<MetelError> = rewrite_block(al, then_branch);
            if stopped.is_some() {
                return stopped;
            }
            rewrite_option(al, else_branch)
        },
        Expr::Assign { target, value, .. } => {
            let stopped: Option<MetelError> = rewrite_target(al, target);
            if stopped.is_some() {
                return stopped;
            }
            rewrite_expr(al, value)
        },
        Expr::FieldAccess { object, .. } => rewrite_expr(al, object),
        Expr::TupleAccess { object, .. } => rewrite_expr(al, object),
        Expr::Closure { return_type, body, .. } => {
            let stopped: Option<MetelError> = rewrite_ann(al, return_type);
            if stopped.is_some() {
                return stopped;
            }
            rewrite_block(al, body)
        },
        Expr::Match(m) => {
            let stopped: Option<MetelError> = rewrite_expr(al, &mut m.scrutinee);
            if stopped.is_some() {
                return stopped;
            }
            rewrite_arms(al, &mut m.arms)
        },
        Expr::PropagateError { expr, .. } => rewrite_expr(al, expr),
        Expr::Ascribe { expr, ann, .. } => {
            let stopped: Option<MetelError> = rewrite_expr(al, expr);
            if stopped.is_some() {
                return stopped;
            }
            rewrite_type(al, ann)
        },
        Expr::Cast { expr, target_type, .. } => {
            let stopped: Option<MetelError> = rewrite_expr(al, expr);
            if stopped.is_some() {
                return stopped;
            }
            rewrite_type(al, target_type)
        },
        Expr::Loop { body, .. } => rewrite_block(al, body),
        Expr::Return(x) => rewrite_tail(al, &mut x.value),
        Expr::Break(x) => rewrite_tail(al, &mut x.value),
    }
}

fn rewrite_signatures(al: &Vec<AliasDef>, v: &mut Vec<AspectMethod>) -> (r: Option<MetelError>)
    ensures
        match signatures_fault(aliases_view(al@), old(v)@, old(v)@.len() as int) {
            Some(e) => r matches Some(x) && x@ == e,
            None => r is None && signatures_rewritten(aliases_view(al@), old(v)@, final(v)@),
        },
    decreases old(v)@,
{
    let ghost views = aliases_view(al@);
    let ghost before = v@;
    let n: usize = v.len();
    let mut i: usize = 0;
    while i < n
        invariant
            i <= n,
            n == before.len(),
            views == aliases_view(al@),
            before == old(v)@,
            v@.len() == before.len(),
            signatures_fault(views, before, i as int) is None,
            forall|k: int| 0 <= k < i ==> signature_rewritten(views, before[k], #[trigger] v@[k]),
            forall|k: int| i <= k < n ==> #[trigger] v@[k] == before[k],
        decreases n - i,
    {
        let stopped: Option<MetelError> = rewrite_signature(al, &mut v[i]);
        if let Some(e) = stopped {
            proof {
                lemma_signatures_fault(views, before, i + 1, n as int);
            }
            return Some(e);
        }
        i += 1;
    }
    None
}

proof fn lemma_signatures_fault(al: Seq<AliasV>, s: Seq<AspectMethod>, j: int, k: int)
    requires
        0 <= j <= k <= s.len(),
        signatures_fault(al, s, j) is Some,
    ensures
        signatures_fault(al, s, k) == signatures_fault(al, s, j),
    decreases k - j,
{
    if j < k {
        lemma_signatures_fault(al, s, j, k - 1);
    }
}

fn rewrite_funs(al: &Vec<AliasDef>, v: &mut Vec<FunDecl>) -> (r: Option<MetelError>)
    ensures
        match funs_fault(aliases_view(al@), old(v)@, old(v)@.len() as int) {
            Some(e) => r matches Some(x) && x@ == e,
            None => r is None && funs_rewritten(aliases_view(al@), old(v)@, final(v)@),
        },
    decreases old(v)@,
{
    let ghost views = aliases_view(al@);
    let ghost before = v@;
    let n: usize = v.len();
    let mut i: usize = 0;
    while i < n
        invariant
            i <= n,
            n == before.len(),
            views == aliases_view(al@),
            before == old(v)@,
            v@.len() == before.len(),
            funs_fault(views, before, i as int) is None,
            forall|k: int| 0 <= k < i ==> fun_rewritten(views, before[k], #[trigger] v@[k]),
            forall|k: int| i <= k < n ==> #[trigger] v@[k] == before[k],
        decreases n - i,
    {
        let stopped: Option<MetelError> = rewrite_fun(al, &mut v[i]);
        if let Some(e) = stopped {
            proof {
                lemma_funs_fault(views, before, i + 1, n as int);
            }
            return Some(e);
        }
        i += 1;
    }
    None
}

proof fn lemma_funs_fault(al: Seq<AliasV>, s: Seq<FunDecl>, j: int, k: int)
    requires
        0 <= j <= k <= s.len(),
        funs_fault(al, s, j) is Some,
    ensures
        funs_fault(al, s, k) == funs_fault(al, s, j),
    decreases k - j,
{
    if j < k {
        lemma_funs_fault(al, s, j, k - 1);
    }
}

fn rewrite_decls(al: &Vec<AliasDef>, v: &mut Vec<Decl>) -> (r: Option<MetelError>)
    ensures
        match decls_fault(aliases_view(al@), old(v)@, old(v)@.len() as int) {
            Some(e) => r matches Some(x) && x@ == e,
            None => r is None && decls_rewritten(aliases_view(al@), old(v)@, final(v)@),
        },
    decreases old(v)@,
{
    let ghost views = aliases_view(al@);
    let ghost before = v@;
    let n: usize = v.len();
    let mut i: usize = 0;
    while i < n
        invariant
            i <= n,
            n == before.len(),
            views == aliases_view(al@),
            before == old(v)@,
            v@.len() == before.len(),
            decls_fault(views, before, i as int) is None,
            forall|k: int| 0 <= k < i ==> decl_rewritten(views, before[k], #[trigger] v@[k]),
            forall|k: int| i <= k < n ==> #[trigger] v@[k] == before[k],
        decreases n - i,
    {
        let stopped: Option<MetelError> = rewrite_decl(al, &mut v[i]);
        if let Some(e) = stopped {
            proof {
                lemma_decls_fault(views, before, i + 1, n as int);
            }
            return Some(e);
        }
        i += 1;
    }
    None
}

pub(super) proof fn lemma_decls_fault(al: Seq<AliasV>, s: Seq<Decl>, j: int, k: int)
    requires
        0 <= j <= k <= s.len(),
        decls_fault(al, s, j) is Some,
    ensures
        decls_fault(al, s, k) == decls_fault(al, s, j),
    decreases k - j,
{
    if j < k {
        lemma_decls_fault(al, s, j, k - 1);
    }
}

fn rewrite_exprs(al: &Vec<AliasDef>, v: &mut Vec<Expr>) -> (r: Option<MetelError>)
    ensures
        match exprs_fault(aliases_view(al@), old(v)@, old(v)@.len() as int) {
            Some(e) => r matches Some(x) && x@ == e,
            None => r is None && exprs_rewritten(aliases_view(al@), old(v)@, final(v)@),
        },
    decreases old(v)@,
{
    let ghost views = aliases_view(al@);
    let ghost before = v@;
    let n: usize = v.len();
    let mut i: usize = 0;
    while i < n
        invariant
            i <= n,
            n == before.len(),
            views == aliases_view(al@),
            before == old(v)@,
            v@.len() == before.len(),
            exprs_fault(views, before, i as int) is None,
            forall|k: int| 0 <= k < i ==> expr_rewritten(views, before[k], #[trigger] v@[k]),
            forall|k: int| i <= k < n ==> #[trigger] v@[k] == before[k],
        decreases n - i,
    {
        let stopped: Option<MetelError> = rewrite_expr(al, &mut v[i]);
        if let Some(e) = stopped {
            proof {
                lemma_exprs_fault(views, before, i + 1, n as int);
            }
            return Some(e);
        }
        i += 1;
    }
    None
}

proof fn lemma_exprs_fault(al: Seq<AliasV>, s: Seq<Expr>, j: int, k: int)
    requires
        0 <= j <= k <= s.len(),
        exprs_fault(al, s, j) is Some,
    ensures
        exprs_fault(al, s, k) == exprs_fault(al, s, j),
    decreases k - j,
{
    if j < k {
        lemma_exprs_fault(al, s, j, k - 1);
    }
}

fn rewrite_entries(al: &Vec<AliasDef>, v: &mut Vec<(String, Expr)>) -> (r: Option<MetelError>)
    ensures
        match entries_fault(aliases_view(al@), old(v)@, old(v)@.len() as int) {
            Some(e) => r matches Some(x) && x@ == e,
            None => r is None && entries_rewritten(aliases_view(al@), old(v)@, final(v)@),
        },
    decreases old(v)@,
{
    let ghost views = aliases_view(al@);
    let ghost before = v@;
    let n: usize = v.len();
    let mut i: usize = 0;
    while i < n
        invariant
            i <= n,
            n == before.len(),
            views == aliases_view(al@),
            before == old(v)@,
            v@.len() == before.len(),
            entries_fault(views, before, i as int) is None,
            forall|k: int| 0 <= k < i ==> entry_rewritten(views, before[k], #[trigger] v@[k]),
            forall|k: int| i <= k < n ==> #[trigger] v@[k] == before[k],
        decreases n - i,
    {
        let stopped: Option<MetelError> = rewrite_entry(al, &mut v[i]);
        if let Some(e) = stopped {
            proof {
                lemma_entries_fault(views, before, i + 1, n as int);
            }
            return Some(e);
        }
        i += 1;
    }
    None
}

proof fn lemma_entries_fault(al: Seq<AliasV>, s: Seq<(String, Expr)>, j: int, k: int)
    requires
        0 <= j <= k <= s.len(),
        entries_fault(al, s, j) is Some,
    ensures
        entries_fault(al, s, k) == entries_fault(al, s, j),
    decreases k - j,
{
    if j < k {
        lemma_entries_fault(al, s, j, k - 1);
    }
}

fn rewrite_arms(al: &Vec<AliasDef>, v: &mut Vec<MatchArm>) -> (r: Option<MetelError>)
    ensures
        match arms_fault(aliases_view(al@), old(v)@, old(v)@.len() as int) {
            Some(e) => r matches Some(x) && x@ == e,
            None => r is None && arms_rewritten(aliases_view(al@), old(v)@, final(v)@),
        },
    decreases old(v)@,
{
    let ghost views = aliases_view(al@);
    let ghost before = v@;
    let n: usize = v.len();
    let mut i: usize = 0;
    while i < n
        invariant
            i <= n,
            n == before.len(),
            views == aliases_view(al@),
            before == old(v)@,
            v@.len() == before.len(),
            arms_fault(views, before, i as int) is None,
            forall|k: int| 0 <= k < i ==> arm_rewritten(views, before[k], #[trigger] v@[k]),
            forall|k: int| i <= k < n ==> #[trigger] v@[k] == before[k],
        decreases n - i,
    {
        let stopped: Option<MetelError> = rewrite_arm(al, &mut v[i]);
        if let Some(e) = stopped {
            proof {
                lemma_arms_fault(views, before, i + 1, n as int);
            }
            return Some(e);
        }
        i += 1;
    }
    None
}

proof fn lemma_arms_fault(al: Seq<AliasV>, s: Seq<MatchArm>, j: int, k: int)
    requires
        0 <= j <= k <= s.len(),
        arms_fault(al, s, j) is Some,
    ensures
        arms_fault(al, s, k) == arms_fault(al, s, j),
    decreases k - j,
{
    if j < k {
        lemma_arms_fault(al, s, j, k - 1);
    }
}

} // verus!
