//! What a closure captures.
use vstd::prelude::*;
use crate::typed_ast::{TypedBlock, TypedDecl, TypedExpr, TypedForInit, TypedMatchArm, TypedPlace};
use crate::typed_ast::TypedStmt;
use super::free_roots::{all_bound, bound, close_scope, free_roots, in_arm, in_arms, in_block};
use super::free_roots::{in_decl, in_decls, in_expr, in_exprs, in_fields, in_init, in_place};
use super::free_roots::{in_stmt, is_bound, open_scope, param_names, pattern_names, used, RootsV};

verus! {

/// Whether a name stands in some part of an expression.
pub open spec fn uses_expr(e: TypedExpr, name: Seq<char>) -> bool
    decreases e,
{
    match e {
        TypedExpr::Ident(n, _, _) => n@ == name,
        TypedExpr::Tuple(items, _, _) => uses_exprs(items@, name),
        TypedExpr::Array(items, _, _) => uses_exprs(items@, name),
        TypedExpr::RecordLiteral { fields, .. } => uses_fields(fields@, name),
        TypedExpr::StructLiteral { fields, .. } => uses_fields(fields@, name),
        TypedExpr::RepeatArray(value, _, _, _) => uses_expr(*value, name),
        TypedExpr::UnaryOp(_, value, _, _) => uses_expr(*value, name),
        TypedExpr::Cast { expr, .. } => uses_expr(*expr, name),
        TypedExpr::SingletonCoerce { inner, .. } => uses_expr(*inner, name),
        TypedExpr::RefTemp { init, .. } => uses_expr(*init, name),
        TypedExpr::BinOp(left, _, right, _, _) => uses_expr(*left, name) || uses_expr(*right, name),
        TypedExpr::Assign { target, value, .. } => uses_place(target, name) || uses_expr(*value, name),
        TypedExpr::Call { callee, args, .. } => uses_expr(*callee, name) || uses_exprs(args@, name),
        TypedExpr::MethodCall { receiver, args, .. } => uses_expr(*receiver, name) || uses_exprs(args@, name),
        TypedExpr::FieldAccess { object, .. } => uses_expr(*object, name),
        TypedExpr::TupleAccess { object, .. } => uses_expr(*object, name),
        TypedExpr::Index { object, index, .. } => uses_expr(*object, name) || uses_expr(*index, name),
        TypedExpr::Match(m) => uses_expr(*m.scrutinee, name) || uses_arms(m.arms@, name),
        TypedExpr::Loop { body, .. } => uses_block(body, name),
        TypedExpr::If { condition, then_branch, else_branch, .. } => uses_expr(*condition, name)
            || uses_block(then_branch, name) || match else_branch {
            Some(b) => uses_block(b, name),
            None => false,
        },
        TypedExpr::Closure { params, body, .. } => uses_block(body, name),
        TypedExpr::GenericClosure { params, .. } => false,
        TypedExpr::Return(r) => match r.value {
            Some(v) => uses_expr(*v, name),
            None => false,
        },
        TypedExpr::Break(b) => match b.value {
            Some(v) => uses_expr(*v, name),
            None => false,
        },
        _ => false,
    }
}

/// Whether a name stands in some part of expressions.
pub open spec fn uses_exprs(s: Seq<TypedExpr>, name: Seq<char>) -> bool
    decreases s,
{
    exists|i: int| 0 <= i < s.len() && uses_expr(#[trigger] s[i], name)
}

/// Whether a name stands in some part of field values.
pub open spec fn uses_fields(s: Seq<(String, TypedExpr)>, name: Seq<char>) -> bool
    decreases s,
{
    exists|i: int| 0 <= i < s.len() && uses_expr((#[trigger] s[i]).1, name)
}

/// Whether a name stands in some part of match arms.
pub open spec fn uses_arms(s: Seq<TypedMatchArm>, name: Seq<char>) -> bool
    decreases s,
{
    exists|i: int| 0 <= i < s.len() && uses_arm(#[trigger] s[i], name)
}

/// Whether a name stands in some part of a match arm.
pub open spec fn uses_arm(a: TypedMatchArm, name: Seq<char>) -> bool
    decreases a,
{
    uses_block(a.body, name) || match a.guard {
        Some(e) => uses_expr(e, name),
        None => false,
    }
}

/// Whether a name stands in some part of an assignment target.
pub open spec fn uses_place(p: TypedPlace, name: Seq<char>) -> bool
    decreases p,
{
    match p {
        TypedPlace::Ident(n, _) => n@ == name,
        TypedPlace::Deref { object, .. } => uses_expr(*object, name),
        TypedPlace::Field { object, .. } => uses_place(*object, name),
        TypedPlace::Tuple { object, .. } => uses_place(*object, name),
        TypedPlace::Index { object, index, .. } => uses_place(*object, name) || uses_expr(
            *index,
            name,
        ),
    }
}

/// Whether a name stands in some part of a block.
pub open spec fn uses_block(b: TypedBlock, name: Seq<char>) -> bool
    decreases b,
{
    uses_decls(b.stmts@, name) || match b.tail {
        Some(e) => uses_expr(*e, name),
        None => false,
    }
}

/// Whether a name stands in some part of declarations.
pub open spec fn uses_decls(s: Seq<TypedDecl>, name: Seq<char>) -> bool
    decreases s,
{
    exists|i: int| 0 <= i < s.len() && uses_decl(#[trigger] s[i], name)
}

/// Whether a name stands in some part of a declaration.
pub open spec fn uses_decl(d: TypedDecl, name: Seq<char>) -> bool
    decreases d,
{
    match d {
        TypedDecl::Let(x) => uses_expr(x.value, name),
        TypedDecl::Mut(x) => uses_expr(x.value, name),
        TypedDecl::Fun(f) => false,
        TypedDecl::Stmt(s) => uses_stmt(*s, name),
        _ => false,
    }
}

/// Whether a name stands in some part of a statement.
pub open spec fn uses_stmt(s: TypedStmt, name: Seq<char>) -> bool
    decreases s,
{
    match s {
        TypedStmt::Expr(e) => uses_expr(e, name),
        TypedStmt::While(x) => uses_expr(x.condition, name) || uses_block(x.body, name),
        TypedStmt::For(x) => {
            ||| match x.init {
                Some(i) => uses_init(i, name),
                None => false,
            }
            ||| match x.condition {
                Some(e) => uses_expr(e, name),
                None => false,
            }
            ||| match x.step {
                Some(e) => uses_expr(e, name),
                None => false,
            }
            ||| uses_block(x.body, name)
        },
        TypedStmt::ForIn(x) => uses_expr(x.iterable, name) || uses_block(
            x.body,
            name,
        ),
    }
}

/// Whether a name stands in some part of the start of a counted loop.
pub open spec fn uses_init(i: TypedForInit, name: Seq<char>) -> bool
    decreases i,
{
    match i {
        TypedForInit::Let(x) => uses_expr(x.value, name),
        TypedForInit::Mut(x) => uses_expr(x.value, name),
        TypedForInit::Expr(e) => uses_expr(e, name),
    }
}

/// Whether a name is bound in some part of an expression.
pub open spec fn binds_expr(e: TypedExpr, name: Seq<char>) -> bool
    decreases e,
{
    match e {
        TypedExpr::Tuple(items, _, _) => binds_exprs(items@, name),
        TypedExpr::Array(items, _, _) => binds_exprs(items@, name),
        TypedExpr::RecordLiteral { fields, .. } => binds_fields(fields@, name),
        TypedExpr::StructLiteral { fields, .. } => binds_fields(fields@, name),
        TypedExpr::RepeatArray(value, _, _, _) => binds_expr(*value, name),
        TypedExpr::UnaryOp(_, value, _, _) => binds_expr(*value, name),
        TypedExpr::Cast { expr, .. } => binds_expr(*expr, name),
        TypedExpr::SingletonCoerce { inner, .. } => binds_expr(*inner, name),
        TypedExpr::RefTemp { init, .. } => binds_expr(*init, name),
        TypedExpr::BinOp(left, _, right, _, _) => binds_expr(*left, name) || binds_expr(*right, name),
        TypedExpr::Assign { target, value, .. } => binds_place(target, name) || binds_expr(*value, name),
        TypedExpr::Call { callee, args, .. } => binds_expr(*callee, name) || binds_exprs(args@, name),
        TypedExpr::MethodCall { receiver, args, .. } => binds_expr(*receiver, name) || binds_exprs(args@, name),
        TypedExpr::FieldAccess { object, .. } => binds_expr(*object, name),
        TypedExpr::TupleAccess { object, .. } => binds_expr(*object, name),
        TypedExpr::Index { object, index, .. } => binds_expr(*object, name) || binds_expr(*index, name),
        TypedExpr::Match(m) => binds_expr(*m.scrutinee, name) || binds_arms(m.arms@, name),
        TypedExpr::Loop { body, .. } => binds_block(body, name),
        TypedExpr::If { condition, then_branch, else_branch, .. } => binds_expr(*condition, name)
            || binds_block(then_branch, name) || match else_branch {
            Some(b) => binds_block(b, name),
            None => false,
        },
        TypedExpr::Closure { params, body, .. } => param_names(params@).contains(name) || binds_block(body, name),
        TypedExpr::GenericClosure { params, .. } => param_names(params@).contains(name),
        TypedExpr::Return(r) => match r.value {
            Some(v) => binds_expr(*v, name),
            None => false,
        },
        TypedExpr::Break(b) => match b.value {
            Some(v) => binds_expr(*v, name),
            None => false,
        },
        _ => false,
    }
}

/// Whether a name is bound in some part of expressions.
pub open spec fn binds_exprs(s: Seq<TypedExpr>, name: Seq<char>) -> bool
    decreases s,
{
    exists|i: int| 0 <= i < s.len() && binds_expr(#[trigger] s[i], name)
}

/// Whether a name is bound in some part of field values.
pub open spec fn binds_fields(s: Seq<(String, TypedExpr)>, name: Seq<char>) -> bool
    decreases s,
{
    exists|i: int| 0 <= i < s.len() && binds_expr((#[trigger] s[i]).1, name)
}

/// Whether a name is bound in some part of match arms.
pub open spec fn binds_arms(s: Seq<TypedMatchArm>, name: Seq<char>) -> bool
    decreases s,
{
    exists|i: int| 0 <= i < s.len() && binds_arm(#[trigger] s[i], name)
}

/// Whether a name is bound in some part of a match arm.
pub open spec fn binds_arm(a: TypedMatchArm, name: Seq<char>) -> bool
    decreases a,
{
    pattern_names(a.pattern).contains(name) || binds_block(a.body, name) || match a.guard {
        Some(e) => binds_expr(e, name),
        None => false,
    }
}

/// Whether a name is bound in some part of an assignment target.
pub open spec fn binds_place(p: TypedPlace, name: Seq<char>) -> bool
    decreases p,
{
    match p {
        TypedPlace::Ident(_, _) => false,
        TypedPlace::Deref { object, .. } => binds_expr(*object, name),
        TypedPlace::Field { object, .. } => binds_place(*object, name),
        TypedPlace::Tuple { object, .. } => binds_place(*object, name),
        TypedPlace::Index { object, index, .. } => binds_place(*object, name) || binds_expr(
            *index,
            name,
        ),
    }
}

/// Whether a name is bound in some part of a block.
pub open spec fn binds_block(b: TypedBlock, name: Seq<char>) -> bool
    decreases b,
{
    binds_decls(b.stmts@, name) || match b.tail {
        Some(e) => binds_expr(*e, name),
        None => false,
    }
}

/// Whether a name is bound in some part of declarations.
pub open spec fn binds_decls(s: Seq<TypedDecl>, name: Seq<char>) -> bool
    decreases s,
{
    exists|i: int| 0 <= i < s.len() && binds_decl(#[trigger] s[i], name)
}

/// Whether a name is bound in some part of a declaration.
pub open spec fn binds_decl(d: TypedDecl, name: Seq<char>) -> bool
    decreases d,
{
    match d {
        TypedDecl::Let(x) => x.name@ == name || binds_expr(x.value, name),
        TypedDecl::Mut(x) => x.name@ == name || binds_expr(x.value, name),
        TypedDecl::Fun(f) => f.name@ == name,
        TypedDecl::Stmt(s) => binds_stmt(*s, name),
        _ => false,
    }
}

/// Whether a name is bound in some part of a statement.
pub open spec fn binds_stmt(s: TypedStmt, name: Seq<char>) -> bool
    decreases s,
{
    match s {
        TypedStmt::Expr(e) => binds_expr(e, name),
        TypedStmt::While(x) => binds_expr(x.condition, name) || binds_block(x.body, name),
        TypedStmt::For(x) => {
            ||| match x.init {
                Some(i) => binds_init(i, name),
                None => false,
            }
            ||| match x.condition {
                Some(e) => binds_expr(e, name),
                None => false,
            }
            ||| match x.step {
                Some(e) => binds_expr(e, name),
                None => false,
            }
            ||| binds_block(x.body, name)
        },
        TypedStmt::ForIn(x) => x.binding@ == name || binds_expr(x.iterable, name) || binds_block(
            x.body,
            name,
        ),
    }
}

/// Whether a name is bound in some part of the start of a counted loop.
pub open spec fn binds_init(i: TypedForInit, name: Seq<char>) -> bool
    decreases i,
{
    match i {
        TypedForInit::Let(x) => x.name@ == name || binds_expr(x.value, name),
        TypedForInit::Mut(x) => x.name@ == name || binds_expr(x.value, name),
        TypedForInit::Expr(e) => binds_expr(e, name),
    }
}

/// Whether a name is among the captures.
pub open spec fn captured(st: RootsV, name: Seq<char>) -> bool {
    exists|i: int| 0 <= i < st.captures.len() && (#[trigger] st.captures[i]).name == name
}

/// Whether every name that was seen is among the captures.
spec fn complete(st: RootsV) -> bool {
    forall|n: Seq<char>| #[trigger] st.seen.contains(n) ==> captured(st, n)
}

/// Whether a search went on from one state to another, as far as a name is concerned: nothing was
/// given up, and the name is bound in the same scopes.
spec fn went_on(a: RootsV, b: RootsV, name: Seq<char>, binds: bool) -> bool {
    &&& complete(a) ==> complete(b)
    &&& captured(a, name) ==> captured(b, name)
    &&& a.scopes.len() == b.scopes.len()
    &&& !binds ==> forall|i: int|
        0 <= i < a.scopes.len() ==> (#[trigger] b.scopes[i]).contains(name) == a.scopes[i].contains(
            name,
        )
}

/// Whether a search went on and, where the name is free and used, found it.
spec fn searched(a: RootsV, b: RootsV, name: Seq<char>, uses: bool, binds: bool) -> bool {
    &&& went_on(a, b, name, binds)
    &&& complete(a) && uses && !binds && !is_bound(a, name) ==> captured(b, name)
}

proof fn lemma_free_still(a: RootsV, b: RootsV, name: Seq<char>)
    requires
        went_on(a, b, name, false),
    ensures
        is_bound(a, name) == is_bound(b, name),
{
    if is_bound(a, name) {
        let i = choose|i: int| 0 <= i < a.scopes.len() && (#[trigger] a.scopes[i]).contains(name);
        assert(b.scopes[i].contains(name));
    }
    if is_bound(b, name) {
        let i = choose|i: int| 0 <= i < b.scopes.len() && (#[trigger] b.scopes[i]).contains(name);
        assert(a.scopes[i].contains(name));
    }
}

proof fn lemma_chain(
    a: RootsV,
    b: RootsV,
    c: RootsV,
    name: Seq<char>,
    u1: bool,
    b1: bool,
    u2: bool,
    b2: bool,
)
    requires
        searched(a, b, name, u1, b1),
        searched(b, c, name, u2, b2),
    ensures
        searched(a, c, name, u1 || u2, b1 || b2),
{
    if !b1 && !b2 {
        lemma_free_still(a, b, name);
        assert forall|i: int| 0 <= i < a.scopes.len() implies (#[trigger] c.scopes[i]).contains(name)
            == a.scopes[i].contains(name) by {
            assert(b.scopes[i].contains(name) == a.scopes[i].contains(name));
        }
    }
}

proof fn lemma_used(st: RootsV, n: Seq<char>, ty: Option<crate::types::TypeV>, name: Seq<char>)
    ensures
        searched(st, used(st, n, ty), name, n == name, false),
{
    let r = used(st, n, ty);
    if !(is_bound(st, n) || st.seen.contains(n)) {
        let k = st.captures.len() as int;
        assert(r.captures[k].name == n);
        if captured(st, name) {
            let i = choose|i: int|
                0 <= i < st.captures.len() && (#[trigger] st.captures[i]).name == name;
            assert(r.captures[i].name == name);
        }
        if complete(st) {
            assert forall|m: Seq<char>| #[trigger] r.seen.contains(m) implies captured(r, m) by {
                if m != n {
                    assert(st.seen.contains(m));
                    let i = choose|i: int|
                        0 <= i < st.captures.len() && (#[trigger] st.captures[i]).name == m;
                    assert(r.captures[i].name == m);
                }
            }
        }
    }
}

proof fn lemma_bound(st: RootsV, n: Seq<char>, name: Seq<char>)
    ensures
        searched(st, bound(st, n), name, false, n == name),
{
    let r = bound(st, n);
    assert(r.captures == st.captures && r.seen == st.seen);
    assert(captured(st, name) == captured(r, name));
    assert forall|m: Seq<char>| #[trigger] captured(r, m) == captured(st, m) by {}
}

proof fn lemma_all_bound(st: RootsV, names: Seq<Seq<char>>, name: Seq<char>)
    ensures
        searched(st, all_bound(st, names), name, false, names.contains(name)),
    decreases names.len(),
{
    if names.len() > 0 {
        let front = names.drop_last();
        lemma_all_bound(st, front, name);
        let before = all_bound(st, front);
        lemma_bound(before, names.last(), name);
        lemma_chain(
            st,
            before,
            all_bound(st, names),
            name,
            false,
            front.contains(name),
            false,
            names.last() == name,
        );
        if front.contains(name) {
            let i = choose|i: int| 0 <= i < front.len() && front[i] == name;
            assert(names[i] == name);
        }
        if names.last() == name {
            assert(names[names.len() - 1] == name);
        }
        if names.contains(name) {
            let i = choose|i: int| 0 <= i < names.len() && names[i] == name;
            if i < names.len() - 1 {
                assert(front[i] == name);
            }
        }
    }
}

/// Closing the scope that was opened before a search leaves what the search found.
proof fn lemma_closed(st: RootsV, inner: RootsV, name: Seq<char>, uses: bool, binds: bool)
    requires
        searched(open_scope(st), inner, name, uses, binds),
    ensures
        searched(st, close_scope(inner), name, uses, binds),
{
    let o = open_scope(st);
    let r = close_scope(inner);
    assert(r.captures == inner.captures && r.seen == inner.seen);
    assert(o.captures == st.captures && o.seen == st.seen);
    assert forall|m: Seq<char>| #[trigger] captured(r, m) == captured(inner, m) by {}
    assert forall|m: Seq<char>| #[trigger] captured(o, m) == captured(st, m) by {}
    if !binds {
        assert forall|i: int| 0 <= i < st.scopes.len() implies (#[trigger] r.scopes[i]).contains(name)
            == st.scopes[i].contains(name) by {
            assert(r.scopes[i] == inner.scopes[i]);
            assert(inner.scopes[i].contains(name) == o.scopes[i].contains(name));
            assert(o.scopes[i] == st.scopes[i]);
        }
    }
    if !is_bound(st, name) {
        if is_bound(o, name) {
            let i = choose|i: int| 0 <= i < o.scopes.len() && (#[trigger] o.scopes[i]).contains(name);
            if i < st.scopes.len() {
                assert(st.scopes[i].contains(name));
            }
        }
    }
}

proof fn lemma_same(st: RootsV, name: Seq<char>)
    ensures
        searched(st, st, name, false, false),
{
}

proof fn lemma_expr(e: TypedExpr, st: RootsV, name: Seq<char>)
    ensures
        searched(st, in_expr(e, st), name, uses_expr(e, name), binds_expr(e, name)),
    decreases e, 0int,
{
    lemma_same(st, name);
    match e {
        TypedExpr::Ident(n, ty, _) => lemma_used(st, n@, Some(ty@), name),
        TypedExpr::Tuple(items, _, _) => lemma_exprs(items@, st, name),
        TypedExpr::Array(items, _, _) => lemma_exprs(items@, st, name),
        TypedExpr::RecordLiteral { fields, .. } => lemma_fields(fields@, st, name),
        TypedExpr::StructLiteral { fields, .. } => lemma_fields(fields@, st, name),
        TypedExpr::RepeatArray(value, _, _, _) => lemma_expr(*value, st, name),
        TypedExpr::UnaryOp(_, value, _, _) => lemma_expr(*value, st, name),
        TypedExpr::Cast { expr, .. } => lemma_expr(*expr, st, name),
        TypedExpr::SingletonCoerce { inner, .. } => lemma_expr(*inner, st, name),
        TypedExpr::RefTemp { init, .. } => lemma_expr(*init, st, name),
        TypedExpr::BinOp(left, _, right, _, _) => {
            lemma_expr(*left, st, name);
            let s1 = in_expr(*left, st);
            lemma_expr(*right, s1, name);
            lemma_chain(
                st,
                s1,
                in_expr(*right, s1),
                name,
                uses_expr(*left, name),
                binds_expr(*left, name),
                uses_expr(*right, name),
                binds_expr(*right, name),
            );
        },
        TypedExpr::Assign { target, value, .. } => {
            lemma_place(target, st, name);
            let s1 = in_place(target, st);
            lemma_expr(*value, s1, name);
            lemma_chain(
                st,
                s1,
                in_expr(*value, s1),
                name,
                uses_place(target, name),
                binds_place(target, name),
                uses_expr(*value, name),
                binds_expr(*value, name),
            );
        },
        TypedExpr::Call { callee, args, .. } => {
            lemma_expr(*callee, st, name);
            let s1 = in_expr(*callee, st);
            lemma_exprs(args@, s1, name);
            lemma_chain(
                st,
                s1,
                in_exprs(args@, s1),
                name,
                uses_expr(*callee, name),
                binds_expr(*callee, name),
                uses_exprs(args@, name),
                binds_exprs(args@, name),
            );
        },
        TypedExpr::MethodCall { receiver, args, .. } => {
            lemma_expr(*receiver, st, name);
            let s1 = in_expr(*receiver, st);
            lemma_exprs(args@, s1, name);
            lemma_chain(
                st,
                s1,
                in_exprs(args@, s1),
                name,
                uses_expr(*receiver, name),
                binds_expr(*receiver, name),
                uses_exprs(args@, name),
                binds_exprs(args@, name),
            );
        },
        TypedExpr::FieldAccess { object, .. } => lemma_expr(*object, st, name),
        TypedExpr::TupleAccess { object, .. } => lemma_expr(*object, st, name),
        TypedExpr::Index { object, index, .. } => {
            lemma_expr(*object, st, name);
            let s1 = in_expr(*object, st);
            lemma_expr(*index, s1, name);
            lemma_chain(
                st,
                s1,
                in_expr(*index, s1),
                name,
                uses_expr(*object, name),
                binds_expr(*object, name),
                uses_expr(*index, name),
                binds_expr(*index, name),
            );
        },
        TypedExpr::Match(m) => {
            lemma_expr(*m.scrutinee, st, name);
            let s1 = in_expr(*m.scrutinee, st);
            lemma_arms(m.arms@, s1, name);
            lemma_chain(
                st,
                s1,
                in_arms(m.arms@, s1),
                name,
                uses_expr(*m.scrutinee, name),
                binds_expr(*m.scrutinee, name),
                uses_arms(m.arms@, name),
                binds_arms(m.arms@, name),
            );
        },
        TypedExpr::Loop { body, .. } => lemma_block(body, st, name),
        TypedExpr::If { condition, then_branch, else_branch, .. } => {
            lemma_expr(*condition, st, name);
            let s1 = in_expr(*condition, st);
            lemma_block(then_branch, s1, name);
            let s2 = in_block(then_branch, s1);
            let u = uses_expr(*condition, name) || uses_block(then_branch, name);
            let b = binds_expr(*condition, name) || binds_block(then_branch, name);
            lemma_chain(
                st,
                s1,
                s2,
                name,
                uses_expr(*condition, name),
                binds_expr(*condition, name),
                uses_block(then_branch, name),
                binds_block(then_branch, name),
            );
            if let Some(other) = else_branch {
                lemma_block(other, s2, name);
                lemma_chain(
                    st,
                    s2,
                    in_block(other, s2),
                    name,
                    u,
                    b,
                    uses_block(other, name),
                    binds_block(other, name),
                );
            }
        },
        TypedExpr::Closure { params, body, .. } => {
            let o = open_scope(st);
            let names = param_names(params@);
            lemma_all_bound(o, names, name);
            let s1 = all_bound(o, names);
            lemma_block(body, s1, name);
            lemma_chain(
                o,
                s1,
                in_block(body, s1),
                name,
                false,
                names.contains(name),
                uses_block(body, name),
                binds_block(body, name),
            );
            lemma_closed(
                st,
                in_block(body, s1),
                name,
                uses_block(body, name),
                names.contains(name) || binds_block(body, name),
            );
        },
        TypedExpr::GenericClosure { params, .. } => {
            let o = open_scope(st);
            let names = param_names(params@);
            lemma_all_bound(o, names, name);
            lemma_closed(st, all_bound(o, names), name, false, names.contains(name));
        },
        TypedExpr::Return(r) => {
            if let Some(v) = r.value {
                lemma_expr(*v, st, name);
            }
        },
        TypedExpr::Break(b) => {
            if let Some(v) = b.value {
                lemma_expr(*v, st, name);
            }
        },
        _ => {},
    }
}

proof fn lemma_exprs(s: Seq<TypedExpr>, st: RootsV, name: Seq<char>)
    ensures
        searched(st, in_exprs(s, st), name, uses_exprs(s, name), binds_exprs(s, name)),
    decreases s, 0int,
{
    lemma_same(st, name);
    if s.len() > 0 {
        let n = s.len() - 1;
        let front = s.subrange(0, n);
        lemma_exprs(front, st, name);
        let before = in_exprs(front, st);
        lemma_expr(s[n], before, name);
        lemma_chain(
            st,
            before,
            in_exprs(s, st),
            name,
            uses_exprs(front, name),
            binds_exprs(front, name),
            uses_expr(s[n], name),
            binds_expr(s[n], name),
        );
        if uses_exprs(front, name) {
            let i = choose|i: int| 0 <= i < front.len() && uses_expr((#[trigger] front[i]), name);
            assert(uses_expr(s[i], name));
        }
        if binds_exprs(front, name) {
            let i = choose|i: int| 0 <= i < front.len() && binds_expr((#[trigger] front[i]), name);
            assert(binds_expr(s[i], name));
        }
        if uses_exprs(s, name) {
            let i = choose|i: int| 0 <= i < s.len() && uses_expr((#[trigger] s[i]), name);
            if i < n {
                assert(uses_expr(front[i], name));
            }
        }
        if binds_exprs(s, name) {
            let i = choose|i: int| 0 <= i < s.len() && binds_expr((#[trigger] s[i]), name);
            if i < n {
                assert(binds_expr(front[i], name));
            }
        }
    }
}

proof fn lemma_fields(s: Seq<(String, TypedExpr)>, st: RootsV, name: Seq<char>)
    ensures
        searched(st, in_fields(s, st), name, uses_fields(s, name), binds_fields(s, name)),
    decreases s, 0int,
{
    lemma_same(st, name);
    if s.len() > 0 {
        let n = s.len() - 1;
        let front = s.subrange(0, n);
        lemma_fields(front, st, name);
        let before = in_fields(front, st);
        lemma_expr(s[n].1, before, name);
        lemma_chain(
            st,
            before,
            in_fields(s, st),
            name,
            uses_fields(front, name),
            binds_fields(front, name),
            uses_expr(s[n].1, name),
            binds_expr(s[n].1, name),
        );
        if uses_fields(front, name) {
            let i = choose|i: int| 0 <= i < front.len() && uses_expr((#[trigger] front[i]).1, name);
            assert(uses_expr(s[i].1, name));
        }
        if binds_fields(front, name) {
            let i = choose|i: int| 0 <= i < front.len() && binds_expr((#[trigger] front[i]).1, name);
            assert(binds_expr(s[i].1, name));
        }
        if uses_fields(s, name) {
            let i = choose|i: int| 0 <= i < s.len() && uses_expr((#[trigger] s[i]).1, name);
            if i < n {
                assert(uses_expr(front[i].1, name));
            }
        }
        if binds_fields(s, name) {
            let i = choose|i: int| 0 <= i < s.len() && binds_expr((#[trigger] s[i]).1, name);
            if i < n {
                assert(binds_expr(front[i].1, name));
            }
        }
    }
}

proof fn lemma_arms(s: Seq<TypedMatchArm>, st: RootsV, name: Seq<char>)
    ensures
        searched(st, in_arms(s, st), name, uses_arms(s, name), binds_arms(s, name)),
    decreases s, 0int,
{
    lemma_same(st, name);
    if s.len() > 0 {
        let n = s.len() - 1;
        let front = s.subrange(0, n);
        lemma_arms(front, st, name);
        let before = in_arms(front, st);
        lemma_arm(s[n], before, name);
        lemma_chain(
            st,
            before,
            in_arms(s, st),
            name,
            uses_arms(front, name),
            binds_arms(front, name),
            uses_arm(s[n], name),
            binds_arm(s[n], name),
        );
        if uses_arms(front, name) {
            let i = choose|i: int| 0 <= i < front.len() && uses_arm((#[trigger] front[i]), name);
            assert(uses_arm(s[i], name));
        }
        if binds_arms(front, name) {
            let i = choose|i: int| 0 <= i < front.len() && binds_arm((#[trigger] front[i]), name);
            assert(binds_arm(s[i], name));
        }
        if uses_arms(s, name) {
            let i = choose|i: int| 0 <= i < s.len() && uses_arm((#[trigger] s[i]), name);
            if i < n {
                assert(uses_arm(front[i], name));
            }
        }
        if binds_arms(s, name) {
            let i = choose|i: int| 0 <= i < s.len() && binds_arm((#[trigger] s[i]), name);
            if i < n {
                assert(binds_arm(front[i], name));
            }
        }
    }
}

proof fn lemma_decls(s: Seq<TypedDecl>, st: RootsV, name: Seq<char>)
    ensures
        searched(st, in_decls(s, st), name, uses_decls(s, name), binds_decls(s, name)),
    decreases s, 0int,
{
    lemma_same(st, name);
    if s.len() > 0 {
        let n = s.len() - 1;
        let front = s.subrange(0, n);
        lemma_decls(front, st, name);
        let before = in_decls(front, st);
        lemma_decl(s[n], before, name);
        lemma_chain(
            st,
            before,
            in_decls(s, st),
            name,
            uses_decls(front, name),
            binds_decls(front, name),
            uses_decl(s[n], name),
            binds_decl(s[n], name),
        );
        if uses_decls(front, name) {
            let i = choose|i: int| 0 <= i < front.len() && uses_decl((#[trigger] front[i]), name);
            assert(uses_decl(s[i], name));
        }
        if binds_decls(front, name) {
            let i = choose|i: int| 0 <= i < front.len() && binds_decl((#[trigger] front[i]), name);
            assert(binds_decl(s[i], name));
        }
        if uses_decls(s, name) {
            let i = choose|i: int| 0 <= i < s.len() && uses_decl((#[trigger] s[i]), name);
            if i < n {
                assert(uses_decl(front[i], name));
            }
        }
        if binds_decls(s, name) {
            let i = choose|i: int| 0 <= i < s.len() && binds_decl((#[trigger] s[i]), name);
            if i < n {
                assert(binds_decl(front[i], name));
            }
        }
    }
}

proof fn lemma_arm(a: TypedMatchArm, st: RootsV, name: Seq<char>)
    ensures
        searched(st, in_arm(a, st), name, uses_arm(a, name), binds_arm(a, name)),
    decreases a, 0int,
{
    let o = open_scope(st);
    let names = pattern_names(a.pattern);
    lemma_all_bound(o, names, name);
    let s1 = all_bound(o, names);
    lemma_same(s1, name);
    let s2 = match a.guard {
        Some(e) => in_expr(e, s1),
        None => s1,
    };
    let u = match a.guard {
        Some(e) => uses_expr(e, name),
        None => false,
    };
    let b = match a.guard {
        Some(e) => binds_expr(e, name),
        None => false,
    };
    if let Some(e) = a.guard {
        lemma_expr(e, s1, name);
    }
    lemma_chain(o, s1, s2, name, false, names.contains(name), u, b);
    lemma_block(a.body, s2, name);
    let s3 = in_block(a.body, s2);
    lemma_chain(
        o,
        s2,
        s3,
        name,
        u,
        names.contains(name) || b,
        uses_block(a.body, name),
        binds_block(a.body, name),
    );
    lemma_closed(st, s3, name, uses_arm(a, name), binds_arm(a, name));
}

proof fn lemma_place(p: TypedPlace, st: RootsV, name: Seq<char>)
    ensures
        searched(st, in_place(p, st), name, uses_place(p, name), binds_place(p, name)),
    decreases p, 0int,
{
    match p {
        TypedPlace::Ident(n, _) => lemma_used(st, n@, None, name),
        TypedPlace::Deref { object, .. } => lemma_expr(*object, st, name),
        TypedPlace::Field { object, .. } => lemma_place(*object, st, name),
        TypedPlace::Tuple { object, .. } => lemma_place(*object, st, name),
        TypedPlace::Index { object, index, .. } => {
            lemma_place(*object, st, name);
            let s1 = in_place(*object, st);
            lemma_expr(*index, s1, name);
            lemma_chain(
                st,
                s1,
                in_expr(*index, s1),
                name,
                uses_place(*object, name),
                binds_place(*object, name),
                uses_expr(*index, name),
                binds_expr(*index, name),
            );
        },
    }
}

proof fn lemma_block(b: TypedBlock, st: RootsV, name: Seq<char>)
    ensures
        searched(st, in_block(b, st), name, uses_block(b, name), binds_block(b, name)),
    decreases b, 0int,
{
    let o = open_scope(st);
    lemma_decls(b.stmts@, o, name);
    let s1 = in_decls(b.stmts@, o);
    lemma_same(s1, name);
    let s2 = match b.tail {
        Some(e) => in_expr(*e, s1),
        None => s1,
    };
    if let Some(e) = b.tail {
        lemma_expr(*e, s1, name);
        lemma_chain(
            o,
            s1,
            s2,
            name,
            uses_decls(b.stmts@, name),
            binds_decls(b.stmts@, name),
            uses_expr(*e, name),
            binds_expr(*e, name),
        );
    }
    lemma_closed(st, s2, name, uses_block(b, name), binds_block(b, name));
}

proof fn lemma_bound_value(n: Seq<char>, value: TypedExpr, st: RootsV, name: Seq<char>)
    ensures
        searched(
            st,
            bound(in_expr(value, st), n),
            name,
            uses_expr(value, name),
            n == name || binds_expr(value, name),
        ),
    decreases value, 1int,
{
    lemma_expr(value, st, name);
    let s1 = in_expr(value, st);
    lemma_bound(s1, n, name);
    lemma_chain(
        st,
        s1,
        bound(s1, n),
        name,
        uses_expr(value, name),
        binds_expr(value, name),
        false,
        n == name,
    );
}

proof fn lemma_decl(d: TypedDecl, st: RootsV, name: Seq<char>)
    ensures
        searched(st, in_decl(d, st), name, uses_decl(d, name), binds_decl(d, name)),
    decreases d, 0int,
{
    lemma_same(st, name);
    match d {
        TypedDecl::Let(x) => lemma_bound_value(x.name@, x.value, st, name),
        TypedDecl::Mut(x) => lemma_bound_value(x.name@, x.value, st, name),
        TypedDecl::Fun(f) => lemma_bound(st, f.name@, name),
        TypedDecl::Stmt(s) => lemma_stmt(*s, st, name),
        _ => {},
    }
}

proof fn lemma_init(i: TypedForInit, st: RootsV, name: Seq<char>)
    ensures
        searched(st, in_init(i, st), name, uses_init(i, name), binds_init(i, name)),
    decreases i, 0int,
{
    match i {
        TypedForInit::Let(x) => lemma_bound_value(x.name@, x.value, st, name),
        TypedForInit::Mut(x) => lemma_bound_value(x.name@, x.value, st, name),
        TypedForInit::Expr(e) => lemma_expr(e, st, name),
    }
}

proof fn lemma_part(e: Option<TypedExpr>, st: RootsV, name: Seq<char>)
    ensures
        searched(
            st,
            match e {
                Some(e) => in_expr(e, st),
                None => st,
            },
            name,
            match e {
                Some(e) => uses_expr(e, name),
                None => false,
            },
            match e {
                Some(e) => binds_expr(e, name),
                None => false,
            },
        ),
    decreases e, 0int,
{
    lemma_same(st, name);
    if let Some(e) = e {
        lemma_expr(e, st, name);
    }
}

proof fn lemma_stmt(s: TypedStmt, st: RootsV, name: Seq<char>)
    ensures
        searched(st, in_stmt(s, st), name, uses_stmt(s, name), binds_stmt(s, name)),
    decreases s, 0int,
{
    match s {
        TypedStmt::Expr(e) => lemma_expr(e, st, name),
        TypedStmt::While(x) => {
            lemma_expr(x.condition, st, name);
            let s1 = in_expr(x.condition, st);
            lemma_block(x.body, s1, name);
            lemma_chain(
                st,
                s1,
                in_block(x.body, s1),
                name,
                uses_expr(x.condition, name),
                binds_expr(x.condition, name),
                uses_block(x.body, name),
                binds_block(x.body, name),
            );
        },
        TypedStmt::For(x) => {
            let o = open_scope(st);
            lemma_same(o, name);
            let s1 = match x.init {
                Some(i) => in_init(i, o),
                None => o,
            };
            let u1 = match x.init {
                Some(i) => uses_init(i, name),
                None => false,
            };
            let b1 = match x.init {
                Some(i) => binds_init(i, name),
                None => false,
            };
            if let Some(i) = x.init {
                lemma_init(i, o, name);
            }
            lemma_part(x.condition, s1, name);
            let s2 = match x.condition {
                Some(e) => in_expr(e, s1),
                None => s1,
            };
            let u2 = match x.condition {
                Some(e) => uses_expr(e, name),
                None => false,
            };
            let b2 = match x.condition {
                Some(e) => binds_expr(e, name),
                None => false,
            };
            lemma_chain(o, s1, s2, name, u1, b1, u2, b2);
            lemma_part(x.step, s2, name);
            let s3 = match x.step {
                Some(e) => in_expr(e, s2),
                None => s2,
            };
            let u3 = match x.step {
                Some(e) => uses_expr(e, name),
                None => false,
            };
            let b3 = match x.step {
                Some(e) => binds_expr(e, name),
                None => false,
            };
            lemma_chain(o, s2, s3, name, u1 || u2, b1 || b2, u3, b3);
            lemma_block(x.body, s3, name);
            let s4 = in_block(x.body, s3);
            lemma_chain(
                o,
                s3,
                s4,
                name,
                u1 || u2 || u3,
                b1 || b2 || b3,
                uses_block(x.body, name),
                binds_block(x.body, name),
            );
            lemma_closed(st, s4, name, uses_stmt(s, name), binds_stmt(s, name));
        },
        TypedStmt::ForIn(x) => {
            lemma_expr(x.iterable, st, name);
            let s1 = in_expr(x.iterable, st);
            let o = open_scope(s1);
            lemma_bound(o, x.binding@, name);
            let s2 = bound(o, x.binding@);
            lemma_block(x.body, s2, name);
            let s3 = in_block(x.body, s2);
            let b = x.binding@ == name;
            lemma_chain(
                o,
                s2,
                s3,
                name,
                false,
                b,
                uses_block(x.body, name),
                binds_block(x.body, name),
            );
            lemma_closed(
                s1,
                s3,
                name,
                uses_block(x.body, name),
                b || binds_block(x.body, name),
            );
            lemma_chain(
                st,
                s1,
                close_scope(s3),
                name,
                uses_expr(x.iterable, name),
                binds_expr(x.iterable, name),
                uses_block(x.body, name),
                b || binds_block(x.body, name),
            );
        },
    }
}

/// A closure captures every name that stands anywhere in its body and is bound neither in it nor as
/// one of its parameters.
pub proof fn law_free_names_are_captured(b: TypedBlock, locals: Set<Seq<char>>, name: Seq<char>)
    requires
        uses_block(b, name),
        !binds_block(b, name),
        !locals.contains(name),
    ensures
        exists|i: int|
            0 <= i < free_roots(b, locals).len() && (#[trigger] free_roots(b, locals)[i]).name
                == name,
{
    let st = RootsV { scopes: seq![locals], captures: Seq::empty(), seen: Set::empty() };
    assert(!is_bound(st, name)) by {
        if is_bound(st, name) {
            let i = choose|i: int|
                0 <= i < st.scopes.len() && (#[trigger] st.scopes[i]).contains(name);
            assert(st.scopes[0] == locals);
        }
    }
    lemma_block(b, st, name);
    let r = in_block(b, st);
    let i = choose|i: int| 0 <= i < r.captures.len() && (#[trigger] r.captures[i]).name == name;
    assert(free_roots(b, locals)[i].name == name);
}

} // verus!
