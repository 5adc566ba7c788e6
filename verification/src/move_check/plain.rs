//! Code without generic bodies.
use vstd::prelude::*;
use crate::typed_ast::{FunBody, TypedBlock, TypedDecl, TypedExpr, TypedForInit, TypedForStmt};
use crate::typed_ast::{TypedFunDecl, TypedMatchArm, TypedPlace, TypedStmt};
use super::filling::{filled_arm, filled_arms, filled_block, filled_decl, filled_decls, filled_expr};
use super::filling::{filled_exprs, filled_fields, filled_fun, filled_init, filled_method};
use super::filling::{filled_methods, filled_part, filled_place, filled_start, filled_stmt};
use super::filling::{filled_tail, Typing};
use super::generic_bodies::ImplSite;

verus! {

/// Whether a function has no generic body in it, and is not generic itself.
pub open spec fn plain_fun(f: TypedFunDecl) -> bool
    decreases f, 0int,
{
    match f.body {
        FunBody::Typed(b) => plain_block(b),
        FunBody::Generic(_) => false,
        FunBody::Native(_) => true,
    }
}

/// Whether functions have no generic body in them.
pub open spec fn plain_funs(s: Seq<TypedFunDecl>) -> bool
    decreases s, 0int,
{
    forall|i: int| 0 <= i < s.len() ==> plain_fun(#[trigger] s[i])
}

/// Whether a declaration has no generic body in it.
pub open spec fn plain_decl(d: TypedDecl) -> bool
    decreases d, 0int,
{
    match d {
        TypedDecl::Let(x) => plain_expr(x.value),
        TypedDecl::Mut(x) => plain_expr(x.value),
        TypedDecl::Fun(f) => plain_fun(f),
        TypedDecl::Impl(x) => plain_funs(x.methods@),
        TypedDecl::Stmt(s) => plain_stmt(*s),
        _ => true,
    }
}

/// Whether declarations have no generic body in them.
pub open spec fn plain_decls(s: Seq<TypedDecl>) -> bool
    decreases s, 0int,
{
    forall|i: int| 0 <= i < s.len() ==> plain_decl(#[trigger] s[i])
}

/// Whether an optional expression has no generic body in it.
pub open spec fn plain_part(e: Option<TypedExpr>) -> bool
    decreases e, 0int,
{
    match e {
        Some(x) => plain_expr(x),
        None => true,
    }
}

/// Whether an optional boxed expression has no generic body in it.
pub open spec fn plain_tail(e: Option<Box<TypedExpr>>) -> bool
    decreases e, 0int,
{
    match e {
        Some(x) => plain_expr(*x),
        None => true,
    }
}

/// Whether a block has no generic body in it.
pub open spec fn plain_block(b: TypedBlock) -> bool
    decreases b, 0int,
{
    plain_decls(b.stmts@) && plain_tail(b.tail)
}

/// Whether what a counted loop starts with has no generic body in it.
pub open spec fn plain_start(i: TypedForInit) -> bool
    decreases i, 0int,
{
    match i {
        TypedForInit::Let(x) => plain_expr(x.value),
        TypedForInit::Mut(x) => plain_expr(x.value),
        TypedForInit::Expr(e) => plain_expr(e),
    }
}

/// Whether what a counted loop may start with has no generic body in it.
pub open spec fn plain_init(i: Option<TypedForInit>) -> bool
    decreases i, 0int,
{
    match i {
        Some(x) => plain_start(x),
        None => true,
    }
}

/// Whether a statement has no generic body in it.
pub open spec fn plain_stmt(s: TypedStmt) -> bool
    decreases s, 0int,
{
    match s {
        TypedStmt::Expr(e) => plain_expr(e),
        TypedStmt::While(x) => plain_expr(x.condition) && plain_block(x.body),
        TypedStmt::For(x) => {
            &&& plain_init(x.init)
            &&& plain_part(x.condition)
            &&& plain_part(x.step)
            &&& plain_block(x.body)
        },
        TypedStmt::ForIn(x) => plain_expr(x.iterable) && plain_block(x.body),
    }
}

/// Whether a match arm has no generic body in it.
pub open spec fn plain_arm(a: TypedMatchArm) -> bool
    decreases a, 0int,
{
    plain_part(a.guard) && plain_block(a.body)
}

/// Whether match arms have no generic body in them.
pub open spec fn plain_arms(s: Seq<TypedMatchArm>) -> bool
    decreases s, 0int,
{
    forall|i: int| 0 <= i < s.len() ==> plain_arm(#[trigger] s[i])
}

/// Whether expressions have no generic body in them.
pub open spec fn plain_exprs(s: Seq<TypedExpr>) -> bool
    decreases s, 0int,
{
    forall|i: int| 0 <= i < s.len() ==> plain_expr(#[trigger] s[i])
}

/// Whether named expressions have no generic body in them.
pub open spec fn plain_fields(s: Seq<(String, TypedExpr)>) -> bool
    decreases s, 0int,
{
    forall|i: int| 0 <= i < s.len() ==> plain_expr((#[trigger] s[i]).1)
}

/// Whether an assignment target has no generic body in it.
pub open spec fn plain_place(p: TypedPlace) -> bool
    decreases p, 0int,
{
    match p {
        TypedPlace::Ident(_, _) => true,
        TypedPlace::Field { object, .. } => plain_place(*object),
        TypedPlace::Tuple { object, .. } => plain_place(*object),
        TypedPlace::Index { object, index, .. } => plain_place(*object) && plain_expr(*index),
        TypedPlace::Deref { object, .. } => plain_expr(*object),
    }
}

/// Whether an expression has no generic body in it that has a symbolic form.
pub open spec fn plain_expr(e: TypedExpr) -> bool
    decreases e, 0int,
{
    match e {
        TypedExpr::Literal(_, _, _) => true,
        TypedExpr::Ident(_, _, _) => true,
        TypedExpr::Path(_, _, _) => true,
        TypedExpr::Tuple(items, _, _) => plain_exprs(items@),
        TypedExpr::Array(items, _, _) => plain_exprs(items@),
        TypedExpr::RepeatArray(value, _, _, _) => plain_expr(*value),
        TypedExpr::RecordLiteral { fields, .. } => plain_fields(fields@),
        TypedExpr::StructLiteral { fields, .. } => plain_fields(fields@),
        TypedExpr::BinOp(left, _, right, _, _) => plain_expr(*left) && plain_expr(*right),
        TypedExpr::UnaryOp(_, inner, _, _) => plain_expr(*inner),
        TypedExpr::RefTemp { init, .. } => plain_expr(*init),
        TypedExpr::Assign { target, value, .. } => plain_place(target) && plain_expr(*value),
        TypedExpr::Call { callee, args, .. } => plain_expr(*callee) && plain_exprs(args@),
        TypedExpr::MethodCall { receiver, args, .. } => plain_expr(*receiver) && plain_exprs(args@),
        TypedExpr::FieldAccess { object, .. } => plain_expr(*object),
        TypedExpr::TupleAccess { object, .. } => plain_expr(*object),
        TypedExpr::Index { object, index, .. } => plain_expr(*object) && plain_expr(*index),
        TypedExpr::Cast { expr, .. } => plain_expr(*expr),
        TypedExpr::SingletonCoerce { inner, .. } => plain_expr(*inner),
        TypedExpr::Match(m) => plain_expr(*m.scrutinee) && plain_arms(m.arms@),
        TypedExpr::If { condition, then_branch, else_branch, .. } => {
            &&& plain_expr(*condition)
            &&& plain_block(then_branch)
            &&& match else_branch {
                Some(b) => plain_block(b),
                None => true,
            }
        },
        TypedExpr::Loop { body, .. } => plain_block(body),
        TypedExpr::Closure { body, .. } => plain_block(body),
        TypedExpr::GenericClosure { name, .. } => name is None,
        TypedExpr::Return(r) => plain_tail(r.value),
        TypedExpr::Break(b) => plain_tail(b.value),
        TypedExpr::Continue(_) => true,
    }
}

fn is_plain_fun(t: &Typing, x: &TypedFunDecl) -> (r: bool)
    ensures
        r == plain_fun(*x),
        r ==> filled_fun(t@, *x),
    decreases *x, 0int,
{
    match &x.body {
        FunBody::Typed(b) => is_plain_block(t, b),
        FunBody::Generic(_) => false,
        FunBody::Native(_) => true,
    }
}

fn is_plain_method(t: &Typing, site: &ImplSite, x: &TypedFunDecl) -> (r: bool)
    ensures
        r == plain_fun(*x),
        r ==> filled_method(t@, *site, *x),
    decreases *x, 0int,
{
    match &x.body {
        FunBody::Typed(b) => is_plain_block(t, b),
        FunBody::Generic(_) => false,
        FunBody::Native(_) => true,
    }
}

fn is_plain_methods(t: &Typing, site: &ImplSite, x: &Vec<TypedFunDecl>) -> (r: bool)
    ensures
        r == plain_funs(x@),
        r ==> filled_methods(t@, *site, x@),
    decreases x@, 0int,
{
    let mut i: usize = 0;
    while i < x.len()
        invariant
            i <= x@.len(),
            forall|k: int| 0 <= k < i ==> plain_fun((#[trigger] x@[k])),
            forall|k: int| 0 <= k < i ==> filled_method(t@, *site, (#[trigger] x@[k])),
        decreases x@.len() - i,
    {
        if !is_plain_method(t, site, &x[i]) {
            assert(!plain_fun((x@[i as int])));
            return false;
        }
        i += 1;
    }
    true
}

/// Whether a declaration has no generic body in it.
pub(super) fn is_plain_decl(t: &Typing, x: &TypedDecl) -> (r: bool)
    ensures
        r == plain_decl(*x),
        r ==> filled_decl(t@, *x),
    decreases *x, 0int,
{
    match x {
        TypedDecl::Let(d) => is_plain_expr(t, &d.value),
        TypedDecl::Mut(d) => is_plain_expr(t, &d.value),
        TypedDecl::Fun(f) => is_plain_fun(t, f),
        TypedDecl::Impl(b) => {
            let site: ImplSite = ImplSite {
                generics: b.generics,
                target_type: b.target_type,
                aspect_name: b.aspect_name,
            };
            is_plain_methods(t, &site, &b.methods)
        },
        TypedDecl::Stmt(s) => is_plain_stmt(t, s),
        TypedDecl::Struct(_) => true,
        TypedDecl::Enum(_) => true,
        TypedDecl::Aspect(_) => true,
    }
}

fn is_plain_decls(t: &Typing, x: &Vec<TypedDecl>) -> (r: bool)
    ensures
        r == plain_decls(x@),
        r ==> filled_decls(t@, x@),
    decreases x@, 0int,
{
    let mut i: usize = 0;
    while i < x.len()
        invariant
            i <= x@.len(),
            forall|k: int| 0 <= k < i ==> plain_decl((#[trigger] x@[k])),
            forall|k: int| 0 <= k < i ==> filled_decl(t@, (#[trigger] x@[k])),
        decreases x@.len() - i,
    {
        if !is_plain_decl(t, &x[i]) {
            assert(!plain_decl((x@[i as int])));
            return false;
        }
        i += 1;
    }
    true
}

fn is_plain_part(t: &Typing, x: &Option<TypedExpr>) -> (r: bool)
    ensures
        r == plain_part(*x),
        r ==> filled_part(t@, *x),
    decreases *x, 0int,
{
    match x {
        Some(e) => is_plain_expr(t, e),
        None => true,
    }
}

fn is_plain_tail(t: &Typing, x: &Option<Box<TypedExpr>>) -> (r: bool)
    ensures
        r == plain_tail(*x),
        r ==> filled_tail(t@, *x),
    decreases *x, 0int,
{
    match x {
        Some(e) => is_plain_expr(t, e),
        None => true,
    }
}

fn is_plain_block(t: &Typing, x: &TypedBlock) -> (r: bool)
    ensures
        r == plain_block(*x),
        r ==> filled_block(t@, *x),
    decreases *x, 0int,
{
    is_plain_decls(t, &x.stmts) && is_plain_tail(t, &x.tail)
}

fn is_plain_start(t: &Typing, x: &TypedForInit) -> (r: bool)
    ensures
        r == plain_start(*x),
        r ==> filled_start(t@, *x),
    decreases *x, 0int,
{
    match x {
        TypedForInit::Let(d) => is_plain_expr(t, &d.value),
        TypedForInit::Mut(d) => is_plain_expr(t, &d.value),
        TypedForInit::Expr(e) => is_plain_expr(t, e),
    }
}

fn is_plain_init(t: &Typing, x: &Option<TypedForInit>) -> (r: bool)
    ensures
        r == plain_init(*x),
        r ==> filled_init(t@, *x),
    decreases *x, 0int,
{
    match x {
        Some(i) => is_plain_start(t, i),
        None => true,
    }
}

fn is_plain_for(t: &Typing, x: &TypedForStmt) -> (r: bool)
    ensures
        r == (plain_init(x.init) && plain_part(x.condition) && plain_part(x.step) && plain_block(
            x.body,
        )),
        r ==> filled_init(t@, x.init) && filled_part(t@, x.condition) && filled_part(t@, x.step)
            && filled_block(t@, x.body),
    decreases *x, 0int,
{
    is_plain_init(t, &x.init) && is_plain_part(t, &x.condition) && is_plain_part(t, &x.step)
        && is_plain_block(t, &x.body)
}

fn is_plain_stmt(t: &Typing, x: &TypedStmt) -> (r: bool)
    ensures
        r == plain_stmt(*x),
        r ==> filled_stmt(t@, *x),
    decreases *x, 0int,
{
    match x {
        TypedStmt::Expr(e) => is_plain_expr(t, e),
        TypedStmt::While(s) => is_plain_expr(t, &s.condition) && is_plain_block(t, &s.body),
        TypedStmt::For(s) => is_plain_for(t, s),
        TypedStmt::ForIn(s) => is_plain_expr(t, &s.iterable) && is_plain_block(t, &s.body),
    }
}

fn is_plain_arm(t: &Typing, x: &TypedMatchArm) -> (r: bool)
    ensures
        r == plain_arm(*x),
        r ==> filled_arm(t@, *x),
    decreases *x, 0int,
{
    is_plain_part(t, &x.guard) && is_plain_block(t, &x.body)
}

fn is_plain_arms(t: &Typing, x: &Vec<TypedMatchArm>) -> (r: bool)
    ensures
        r == plain_arms(x@),
        r ==> filled_arms(t@, x@),
    decreases x@, 0int,
{
    let mut i: usize = 0;
    while i < x.len()
        invariant
            i <= x@.len(),
            forall|k: int| 0 <= k < i ==> plain_arm((#[trigger] x@[k])),
            forall|k: int| 0 <= k < i ==> filled_arm(t@, (#[trigger] x@[k])),
        decreases x@.len() - i,
    {
        if !is_plain_arm(t, &x[i]) {
            assert(!plain_arm((x@[i as int])));
            return false;
        }
        i += 1;
    }
    true
}

fn is_plain_exprs(t: &Typing, x: &Vec<TypedExpr>) -> (r: bool)
    ensures
        r == plain_exprs(x@),
        r ==> filled_exprs(t@, x@),
    decreases x@, 0int,
{
    let mut i: usize = 0;
    while i < x.len()
        invariant
            i <= x@.len(),
            forall|k: int| 0 <= k < i ==> plain_expr((#[trigger] x@[k])),
            forall|k: int| 0 <= k < i ==> filled_expr(t@, (#[trigger] x@[k])),
        decreases x@.len() - i,
    {
        if !is_plain_expr(t, &x[i]) {
            assert(!plain_expr((x@[i as int])));
            return false;
        }
        i += 1;
    }
    true
}

fn is_plain_fields(t: &Typing, x: &Vec<(String, TypedExpr)>) -> (r: bool)
    ensures
        r == plain_fields(x@),
        r ==> filled_fields(t@, x@),
    decreases x@, 0int,
{
    let mut i: usize = 0;
    while i < x.len()
        invariant
            i <= x@.len(),
            forall|k: int| 0 <= k < i ==> plain_expr((#[trigger] x@[k]).1),
            forall|k: int| 0 <= k < i ==> filled_expr(t@, (#[trigger] x@[k]).1),
        decreases x@.len() - i,
    {
        if !is_plain_expr(t, &x[i].1) {
            assert(!plain_expr((x@[i as int]).1));
            return false;
        }
        i += 1;
    }
    true
}

fn is_plain_place(t: &Typing, x: &TypedPlace) -> (r: bool)
    ensures
        r == plain_place(*x),
        r ==> filled_place(t@, *x),
    decreases *x, 0int,
{
    match x {
        TypedPlace::Ident(_, _) => true,
        TypedPlace::Field { object, .. } => is_plain_place(t, object),
        TypedPlace::Tuple { object, .. } => is_plain_place(t, object),
        TypedPlace::Index { object, index, .. } => is_plain_place(t, object) && is_plain_expr(
            t,
            index,
        ),
        TypedPlace::Deref { object, .. } => is_plain_expr(t, object),
    }
}

fn is_plain_expr(t: &Typing, x: &TypedExpr) -> (r: bool)
    ensures
        r == plain_expr(*x),
        r ==> filled_expr(t@, *x),
    decreases *x, 0int,
{
    match x {
        TypedExpr::Literal(_, _, _) => true,
        TypedExpr::Ident(_, _, _) => true,
        TypedExpr::Path(_, _, _) => true,
        TypedExpr::Tuple(items, _, _) => is_plain_exprs(t, items),
        TypedExpr::Array(items, _, _) => is_plain_exprs(t, items),
        TypedExpr::RepeatArray(value, _, _, _) => is_plain_expr(t, value),
        TypedExpr::RecordLiteral { fields, .. } => is_plain_fields(t, fields),
        TypedExpr::StructLiteral { fields, .. } => is_plain_fields(t, fields),
        TypedExpr::BinOp(left, _, right, _, _) => is_plain_expr(t, left) && is_plain_expr(t, right),
        TypedExpr::UnaryOp(_, inner, _, _) => is_plain_expr(t, inner),
        TypedExpr::RefTemp { init, .. } => is_plain_expr(t, init),
        TypedExpr::Assign { target, value, .. } => is_plain_place(t, target) && is_plain_expr(t, value),
        TypedExpr::Call { callee, args, .. } => is_plain_expr(t, callee) && is_plain_exprs(t, args),
        TypedExpr::MethodCall { receiver, args, .. } => is_plain_expr(t, receiver) && is_plain_exprs(t, args),
        TypedExpr::FieldAccess { object, .. } => is_plain_expr(t, object),
        TypedExpr::TupleAccess { object, .. } => is_plain_expr(t, object),
        TypedExpr::Index { object, index, .. } => is_plain_expr(t, object) && is_plain_expr(t, index),
        TypedExpr::Cast { expr, .. } => is_plain_expr(t, expr),
        TypedExpr::SingletonCoerce { inner, .. } => is_plain_expr(t, inner),
        TypedExpr::Match(m) => is_plain_expr(t, &m.scrutinee) && is_plain_arms(t, &m.arms),
        TypedExpr::If { condition, then_branch, else_branch, .. } => is_plain_expr(t, condition)
            && is_plain_block(t, then_branch) && match else_branch {
            Some(b) => is_plain_block(t, b),
            None => true,
        },
        TypedExpr::Loop { body, .. } => is_plain_block(t, body),
        TypedExpr::Closure { body, .. } => is_plain_block(t, body),
        TypedExpr::GenericClosure { name, .. } => name.is_none(),
        TypedExpr::Return(r) => is_plain_tail(t, &r.value),
        TypedExpr::Break(b) => is_plain_tail(t, &b.value),
        TypedExpr::Continue(_) => true,
    }
}

} // verus!
