//! The bindings that a closure body captures from outside.
use vstd::prelude::*;
use crate::ast::{Param, Pattern};
use crate::names::NameSet;
use crate::text::{copy_texts, texts};
use crate::typed_ast::{TypedBlock, TypedDecl, TypedExpr, TypedForInit, TypedMatchArm, TypedPlace};
use crate::typed_ast::TypedStmt;
use crate::types::{Type, TypeV};

verus! {

/// The names that a pattern binds, in the order in which it binds them.
pub open spec fn pattern_names(p: Pattern) -> Seq<Seq<char>>
    decreases p,
{
    match p {
        Pattern::Wildcard(_) => Seq::empty(),
        Pattern::Literal(_, _) => Seq::empty(),
        Pattern::Binding(name, _) => seq![name@],
        Pattern::Tuple(items, _) => patterns_names(items@),
        Pattern::EnumVariant { fields, .. } => texts(fields@),
        Pattern::Struct { fields, .. } => texts(fields@),
        Pattern::Record { fields, .. } => texts(fields@),
        Pattern::Array { elems, rest, .. } => patterns_names(elems@) + match rest {
            Some(name) => seq![name@],
            None => Seq::empty(),
        },
    }
}

/// The names that the patterns of a sequence bind.
pub open spec fn patterns_names(s: Seq<Pattern>) -> Seq<Seq<char>>
    decreases s,
{
    if s.len() == 0 {
        Seq::empty()
    } else {
        patterns_names(s.subrange(0, s.len() - 1)) + pattern_names(s[s.len() - 1])
    }
}

proof fn lemma_texts_append(a: Seq<String>, b: Seq<String>)
    ensures
        texts(a + b) == texts(a) + texts(b),
{
    assert(texts(a + b) =~= texts(a) + texts(b));
}

/// The names that a pattern binds, in the order in which it binds them.
pub fn pattern_bindings(p: &Pattern) -> (r: Vec<String>)
    ensures
        texts(r@) == pattern_names(*p),
    decreases *p,
{
    match p {
        Pattern::Wildcard(_) => {
            let none: Vec<String> = Vec::new();
            assert(texts(none@) =~= Seq::empty());
            none
        },
        Pattern::Literal(_, _) => {
            let none: Vec<String> = Vec::new();
            assert(texts(none@) =~= Seq::empty());
            none
        },
        Pattern::Binding(name, _) => {
            let mut one: Vec<String> = Vec::new();
            one.push(name.clone());
            assert(texts(one@) =~= seq![name@]);
            one
        },
        Pattern::Tuple(items, _) => patterns_bindings(items),
        Pattern::EnumVariant { fields, .. } => copy_texts(fields),
        Pattern::Struct { fields, .. } => copy_texts(fields),
        Pattern::Record { fields, .. } => copy_texts(fields),
        Pattern::Array { elems, rest, .. } => {
            let mut out: Vec<String> = patterns_bindings(elems);
            let ghost head = texts(out@);
            match rest {
                Some(name) => {
                    out.push(name.clone());
                    assert(texts(out@) =~= head + seq![name@]);
                },
                None => {
                    assert(head + Seq::<Seq<char>>::empty() =~= head);
                },
            }
            out
        },
    }
}

fn patterns_bindings(v: &Vec<Pattern>) -> (r: Vec<String>)
    ensures
        texts(r@) == patterns_names(v@),
    decreases v@,
{
    let mut out: Vec<String> = Vec::new();
    assert(texts(out@) =~= Seq::empty());
    let mut i: usize = 0;
    while i < v.len()
        invariant
            i <= v@.len(),
            texts(out@) == patterns_names(v@.subrange(0, i as int)),
        decreases v@.len() - i,
    {
        let ghost after = v@.subrange(0, i + 1);
        assert(after.subrange(0, after.len() - 1) =~= v@.subrange(0, i as int));
        let mut names: Vec<String> = pattern_bindings(&v[i]);
        let ghost a = out@;
        let ghost b = names@;
        out.append(&mut names);
        proof {
            lemma_texts_append(a, b);
        }
        i += 1;
    }
    assert(v@.subrange(0, i as int) =~= v@);
    out
}

/// A captured binding: its name, and its type where the capture shows it.
pub struct CapturedRoot {
    pub name: String,
    pub ty: Option<Type>,
}

/// A [`CapturedRoot`] as a mathematical object.
pub ghost struct CapturedV {
    pub name: Seq<char>,
    pub ty: Option<TypeV>,
}

impl View for CapturedRoot {
    type V = CapturedV;

    open spec fn view(&self) -> CapturedV {
        CapturedV {
            name: self.name@,
            ty: match self.ty {
                Some(t) => Some(t@),
                None => None,
            },
        }
    }
}

/// The views of a sequence of captures.
pub open spec fn captures_view(s: Seq<CapturedRoot>) -> Seq<CapturedV> {
    Seq::new(s.len(), |i: int| s[i]@)
}

/// The state of the search: the names bound in each open scope, and the captures so far.
pub ghost struct RootsV {
    pub scopes: Seq<Set<Seq<char>>>,
    pub captures: Seq<CapturedV>,
    pub seen: Set<Seq<char>>,
}

/// The state with one more scope.
pub open spec fn open_scope(st: RootsV) -> RootsV {
    RootsV { scopes: st.scopes.push(Set::empty()), ..st }
}

/// The state without its innermost scope.
pub open spec fn close_scope(st: RootsV) -> RootsV {
    RootsV { scopes: if st.scopes.len() == 0 { st.scopes } else { st.scopes.drop_last() }, ..st }
}

/// The state with a name bound in its innermost scope.
pub open spec fn bound(st: RootsV, name: Seq<char>) -> RootsV {
    if st.scopes.len() == 0 {
        st
    } else {
        RootsV { scopes: st.scopes.drop_last().push(st.scopes.last().insert(name)), ..st }
    }
}

/// [`bound`] for each of the names.
pub open spec fn all_bound(st: RootsV, names: Seq<Seq<char>>) -> RootsV
    decreases names.len(),
{
    if names.len() == 0 {
        st
    } else {
        bound(all_bound(st, names.drop_last()), names.last())
    }
}

/// The names of parameters.
pub open spec fn param_names(s: Seq<Param>) -> Seq<Seq<char>> {
    Seq::new(s.len(), |i: int| s[i].name@)
}

/// Whether a name is bound in some open scope.
pub open spec fn is_bound(st: RootsV, name: Seq<char>) -> bool {
    exists|i: int| 0 <= i < st.scopes.len() && (#[trigger] st.scopes[i]).contains(name)
}

/// The state after a name was used: a free name is captured, once.
pub open spec fn used(st: RootsV, name: Seq<char>, ty: Option<TypeV>) -> RootsV {
    if is_bound(st, name) || st.seen.contains(name) {
        st
    } else {
        RootsV {
            captures: st.captures.push(CapturedV { name, ty }),
            seen: st.seen.insert(name),
            ..st
        }
    }
}

/// The state after a block was searched.
pub open spec fn in_block(b: TypedBlock, st: RootsV) -> RootsV
    decreases b,
{
    let s1 = in_decls(b.stmts@, open_scope(st));
    let s2 = match b.tail {
        Some(e) => in_expr(*e, s1),
        None => s1,
    };
    close_scope(s2)
}

/// The state after declarations were searched one after the other.
pub open spec fn in_decls(s: Seq<TypedDecl>, st: RootsV) -> RootsV
    decreases s,
{
    if s.len() == 0 {
        st
    } else {
        in_decl(s[s.len() - 1], in_decls(s.subrange(0, s.len() - 1), st))
    }
}

/// The state after a declaration was searched.
pub open spec fn in_decl(d: TypedDecl, st: RootsV) -> RootsV
    decreases d,
{
    match d {
        TypedDecl::Let(decl) => bound(in_expr(decl.value, st), decl.name@),
        TypedDecl::Mut(decl) => bound(in_expr(decl.value, st), decl.name@),
        TypedDecl::Fun(fun) => bound(st, fun.name@),
        TypedDecl::Stmt(stmt) => in_stmt(*stmt, st),
        _ => st,
    }
}

/// The state after a statement was searched.
pub open spec fn in_stmt(s: TypedStmt, st: RootsV) -> RootsV
    decreases s,
{
    match s {
        TypedStmt::Expr(e) => in_expr(e, st),
        TypedStmt::While(w) => in_block(w.body, in_expr(w.condition, st)),
        TypedStmt::For(f) => {
            let s1 = open_scope(st);
            let s2 = match f.init {
                Some(init) => in_init(init, s1),
                None => s1,
            };
            let s3 = match f.condition {
                Some(e) => in_expr(e, s2),
                None => s2,
            };
            let s4 = match f.step {
                Some(e) => in_expr(e, s3),
                None => s3,
            };
            close_scope(in_block(f.body, s4))
        },
        TypedStmt::ForIn(f) => close_scope(
            in_block(f.body, bound(open_scope(in_expr(f.iterable, st)), f.binding@)),
        ),
    }
}

/// The state after the start of a counted loop was searched.
pub open spec fn in_init(i: TypedForInit, st: RootsV) -> RootsV
    decreases i,
{
    match i {
        TypedForInit::Let(decl) => bound(in_expr(decl.value, st), decl.name@),
        TypedForInit::Mut(decl) => bound(in_expr(decl.value, st), decl.name@),
        TypedForInit::Expr(e) => in_expr(e, st),
    }
}

/// The state after expressions were searched one after the other.
pub open spec fn in_exprs(s: Seq<TypedExpr>, st: RootsV) -> RootsV
    decreases s,
{
    if s.len() == 0 {
        st
    } else {
        in_expr(s[s.len() - 1], in_exprs(s.subrange(0, s.len() - 1), st))
    }
}

/// The state after field values were searched one after the other.
pub open spec fn in_fields(s: Seq<(String, TypedExpr)>, st: RootsV) -> RootsV
    decreases s,
{
    if s.len() == 0 {
        st
    } else {
        in_expr(s[s.len() - 1].1, in_fields(s.subrange(0, s.len() - 1), st))
    }
}

/// The state after match arms were searched one after the other.
pub open spec fn in_arms(s: Seq<TypedMatchArm>, st: RootsV) -> RootsV
    decreases s,
{
    if s.len() == 0 {
        st
    } else {
        in_arm(s[s.len() - 1], in_arms(s.subrange(0, s.len() - 1), st))
    }
}

/// The state after a match arm was searched.
pub open spec fn in_arm(arm: TypedMatchArm, st: RootsV) -> RootsV
    decreases arm,
{
    let s1 = all_bound(open_scope(st), pattern_names(arm.pattern));
    let s2 = match arm.guard {
        Some(e) => in_expr(e, s1),
        None => s1,
    };
    close_scope(in_block(arm.body, s2))
}

/// The state after an expression was searched.
pub open spec fn in_expr(e: TypedExpr, st: RootsV) -> RootsV
    decreases e,
{
    match e {
        TypedExpr::Ident(name, ty, _) => used(st, name@, Some(ty@)),
        TypedExpr::Tuple(items, _, _) => in_exprs(items@, st),
        TypedExpr::Array(items, _, _) => in_exprs(items@, st),
        TypedExpr::RecordLiteral { fields, .. } => in_fields(fields@, st),
        TypedExpr::StructLiteral { fields, .. } => in_fields(fields@, st),
        TypedExpr::RepeatArray(value, _, _, _) => in_expr(*value, st),
        TypedExpr::UnaryOp(_, value, _, _) => in_expr(*value, st),
        TypedExpr::Cast { expr, .. } => in_expr(*expr, st),
        TypedExpr::SingletonCoerce { inner, .. } => in_expr(*inner, st),
        TypedExpr::RefTemp { init, .. } => in_expr(*init, st),
        TypedExpr::BinOp(left, _, right, _, _) => in_expr(*right, in_expr(*left, st)),
        TypedExpr::Assign { target, value, .. } => in_expr(*value, in_place(target, st)),
        TypedExpr::Call { callee, args, .. } => in_exprs(args@, in_expr(*callee, st)),
        TypedExpr::MethodCall { receiver, args, .. } => in_exprs(args@, in_expr(*receiver, st)),
        TypedExpr::FieldAccess { object, .. } => in_expr(*object, st),
        TypedExpr::TupleAccess { object, .. } => in_expr(*object, st),
        TypedExpr::Index { object, index, .. } => in_expr(*index, in_expr(*object, st)),
        TypedExpr::Match(m) => in_arms(m.arms@, in_expr(*m.scrutinee, st)),
        TypedExpr::If { condition, then_branch, else_branch, .. } => {
            let s1 = in_block(then_branch, in_expr(*condition, st));
            match else_branch {
                Some(b) => in_block(b, s1),
                None => s1,
            }
        },
        TypedExpr::Loop { body, .. } => in_block(body, st),
        TypedExpr::Closure { params, body, .. } => close_scope(
            in_block(body, all_bound(open_scope(st), param_names(params@))),
        ),
        TypedExpr::GenericClosure { params, .. } => close_scope(
            all_bound(open_scope(st), param_names(params@)),
        ),
        TypedExpr::Return(r) => match r.value {
            Some(v) => in_expr(*v, st),
            None => st,
        },
        TypedExpr::Break(b) => match b.value {
            Some(v) => in_expr(*v, st),
            None => st,
        },
        TypedExpr::Literal(_, _, _) => st,
        TypedExpr::Path(_, _, _) => st,
        TypedExpr::Continue(_) => st,
    }
}

/// The state after an assignment target was searched.
pub open spec fn in_place(p: TypedPlace, st: RootsV) -> RootsV
    decreases p,
{
    match p {
        TypedPlace::Ident(name, _) => used(st, name@, None),
        TypedPlace::Deref { object, .. } => in_expr(*object, st),
        TypedPlace::Field { object, .. } => in_place(*object, st),
        TypedPlace::Tuple { object, .. } => in_place(*object, st),
        TypedPlace::Index { object, index, .. } => in_expr(*index, in_place(*object, st)),
    }
}

/// The bindings that a block uses without binding them, in the order of their first use, where
/// `locals` are bound around the block.
pub open spec fn free_roots(b: TypedBlock, locals: Set<Seq<char>>) -> Seq<CapturedV> {
    in_block(
        b,
        RootsV { scopes: seq![locals], captures: Seq::empty(), seen: Set::empty() },
    ).captures
}

/// The search for captured bindings.
struct FreeRootCollector {
    scope_stack: Vec<NameSet>,
    captures: Vec<CapturedRoot>,
    seen: NameSet,
}

impl View for FreeRootCollector {
    type V = RootsV;

    closed spec fn view(&self) -> RootsV {
        RootsV {
            scopes: Seq::new(self.scope_stack@.len(), |i: int| self.scope_stack@[i]@),
            captures: captures_view(self.captures@),
            seen: self.seen@,
        }
    }
}

impl FreeRootCollector {
    fn open(&mut self)
        ensures
            final(self)@ == open_scope(old(self)@),
    {
        self.scope_stack.push(NameSet::new());
        assert(self@.scopes =~= old(self)@.scopes.push(Set::empty()));
    }

    fn close(&mut self)
        ensures
            final(self)@ == close_scope(old(self)@),
    {
        assert(self@.scopes.len() == self.scope_stack@.len());
        let _ = self.scope_stack.pop();
        assert(old(self)@.scopes.len() > 0 ==> self@.scopes =~= old(self)@.scopes.drop_last());
        assert(old(self)@.scopes.len() == 0 ==> self@.scopes =~= old(self)@.scopes);
    }

    fn bind(&mut self, name: &str)
        ensures
            final(self)@ == bound(old(self)@, name@),
    {
        assert(self@.scopes.len() == self.scope_stack@.len());
        match self.scope_stack.pop() {
            Some(top) => {
                let mut scope: NameSet = top;
                scope.insert(name);
                self.scope_stack.push(scope);
                assert(self@.scopes =~= old(self)@.scopes.drop_last().push(
                    old(self)@.scopes.last().insert(name@),
                ));
            },
            None => {
                assert(self@.scopes =~= old(self)@.scopes);
            },
        }
    }

    fn bind_names(&mut self, names: &Vec<String>)
        ensures
            final(self)@ == all_bound(old(self)@, texts(names@)),
    {
        let ghost views = texts(names@);
        let ghost start = self@;
        let mut i: usize = 0;
        while i < names.len()
            invariant
                i <= names@.len(),
                views == texts(names@),
                self@ == all_bound(start, views.take(i as int)),
            decreases names@.len() - i,
        {
            assert(views.take(i + 1).drop_last() =~= views.take(i as int));
            assert(views.take(i + 1).last() == names@[i as int]@);
            self.bind(names[i].as_str());
            i += 1;
        }
        assert(views.take(i as int) =~= views);
    }

    fn bind_params(&mut self, params: &Vec<Param>)
        ensures
            final(self)@ == all_bound(old(self)@, param_names(params@)),
    {
        let ghost views = param_names(params@);
        let ghost start = self@;
        let mut i: usize = 0;
        while i < params.len()
            invariant
                i <= params@.len(),
                views == param_names(params@),
                self@ == all_bound(start, views.take(i as int)),
            decreases params@.len() - i,
        {
            assert(views.take(i + 1).drop_last() =~= views.take(i as int));
            assert(views.take(i + 1).last() == params@[i as int].name@);
            self.bind(params[i].name.as_str());
            i += 1;
        }
        assert(views.take(i as int) =~= views);
    }

    fn is_bound(&self, name: &str) -> (r: bool)
        ensures
            r == is_bound(self@, name@),
    {
        assert(self@.scopes.len() == self.scope_stack@.len());
        let mut i: usize = 0;
        while i < self.scope_stack.len()
            invariant
                i <= self.scope_stack@.len(),
                forall|k: int| 0 <= k < i ==> !(#[trigger] self@.scopes[k]).contains(name@),
            decreases self.scope_stack@.len() - i,
        {
            assert(self@.scopes[i as int] == self.scope_stack@[i as int]@);
            if self.scope_stack[i].contains(name) {
                return true;
            }
            i += 1;
        }
        false
    }

    fn capture(&mut self, name: &str, ty: Option<&Type>)
        ensures
            final(self)@ == used(
                old(self)@,
                name@,
                match ty {
                    Some(t) => Some(t@),
                    None => None,
                },
            ),
    {
        if self.is_bound(name) || self.seen.contains(name) {
            return;
        }
        self.seen.insert(name);
        let known: Option<Type> = match ty {
            Some(t) => Some(t.copy()),
            None => None,
        };
        self.captures.push(CapturedRoot { name: name.to_owned(), ty: known });
        assert(self@.captures =~= old(self)@.captures.push(
            CapturedV {
                name: name@,
                ty: match ty {
                    Some(t) => Some(t@),
                    None => None,
                },
            },
        ));
        assert(self@.scopes =~= old(self)@.scopes);
    }

    fn block(&mut self, block: &TypedBlock)
        ensures
            final(self)@ == in_block(*block, old(self)@),
        decreases *block,
    {
        self.open();
        self.decls(&block.stmts);
        if let Some(tail) = &block.tail {
            self.expr(tail);
        }
        self.close();
    }

    fn decls(&mut self, v: &Vec<TypedDecl>)
        ensures
            final(self)@ == in_decls(v@, old(self)@),
        decreases v@,
    {
        let ghost start = self@;
        let mut i: usize = 0;
        while i < v.len()
            invariant
                i <= v@.len(),
                self@ == in_decls(v@.subrange(0, i as int), start),
            decreases v@.len() - i,
        {
            let ghost after = v@.subrange(0, i + 1);
            assert(after.subrange(0, after.len() - 1) =~= v@.subrange(0, i as int));
            self.decl(&v[i]);
            i += 1;
        }
        assert(v@.subrange(0, i as int) =~= v@);
    }

    fn decl(&mut self, decl: &TypedDecl)
        ensures
            final(self)@ == in_decl(*decl, old(self)@),
        decreases *decl,
    {
        match decl {
            TypedDecl::Let(let_decl) => {
                self.expr(&let_decl.value);
                self.bind(let_decl.name.as_str());
            },
            TypedDecl::Mut(mut_decl) => {
                self.expr(&mut_decl.value);
                self.bind(mut_decl.name.as_str());
            },
            TypedDecl::Fun(fun) => {
                self.bind(fun.name.as_str());
            },
            TypedDecl::Stmt(stmt) => {
                self.stmt(stmt);
            },
            _ => {},
        }
    }

    fn stmt(&mut self, stmt: &TypedStmt)
        ensures
            final(self)@ == in_stmt(*stmt, old(self)@),
        decreases *stmt,
    {
        match stmt {
            TypedStmt::Expr(expr) => {
                self.expr(expr);
            },
            TypedStmt::While(while_stmt) => {
                self.expr(&while_stmt.condition);
                self.block(&while_stmt.body);
            },
            TypedStmt::For(for_stmt) => {
                self.open();
                if let Some(init) = &for_stmt.init {
                    self.init(init);
                }
                if let Some(condition) = &for_stmt.condition {
                    self.expr(condition);
                }
                if let Some(step) = &for_stmt.step {
                    self.expr(step);
                }
                self.block(&for_stmt.body);
                self.close();
            },
            TypedStmt::ForIn(for_in) => {
                self.expr(&for_in.iterable);
                self.open();
                self.bind(for_in.binding.as_str());
                self.block(&for_in.body);
                self.close();
            },
        }
    }

    fn init(&mut self, init: &TypedForInit)
        ensures
            final(self)@ == in_init(*init, old(self)@),
        decreases *init,
    {
        match init {
            TypedForInit::Let(let_decl) => {
                self.expr(&let_decl.value);
                self.bind(let_decl.name.as_str());
            },
            TypedForInit::Mut(mut_decl) => {
                self.expr(&mut_decl.value);
                self.bind(mut_decl.name.as_str());
            },
            TypedForInit::Expr(expr) => {
                self.expr(expr);
            },
        }
    }

    fn exprs(&mut self, v: &Vec<TypedExpr>)
        ensures
            final(self)@ == in_exprs(v@, old(self)@),
        decreases v@,
    {
        let ghost start = self@;
        let mut i: usize = 0;
        while i < v.len()
            invariant
                i <= v@.len(),
                self@ == in_exprs(v@.subrange(0, i as int), start),
            decreases v@.len() - i,
        {
            let ghost after = v@.subrange(0, i + 1);
            assert(after.subrange(0, after.len() - 1) =~= v@.subrange(0, i as int));
            self.expr(&v[i]);
            i += 1;
        }
        assert(v@.subrange(0, i as int) =~= v@);
    }

    fn fields(&mut self, v: &Vec<(String, TypedExpr)>)
        ensures
            final(self)@ == in_fields(v@, old(self)@),
        decreases v@,
    {
        let ghost start = self@;
        let mut i: usize = 0;
        while i < v.len()
            invariant
                i <= v@.len(),
                self@ == in_fields(v@.subrange(0, i as int), start),
            decreases v@.len() - i,
        {
            let ghost after = v@.subrange(0, i + 1);
            assert(after.subrange(0, after.len() - 1) =~= v@.subrange(0, i as int));
            self.expr(&v[i].1);
            i += 1;
        }
        assert(v@.subrange(0, i as int) =~= v@);
    }

    fn arms(&mut self, v: &Vec<TypedMatchArm>)
        ensures
            final(self)@ == in_arms(v@, old(self)@),
        decreases v@,
    {
        let ghost start = self@;
        let mut i: usize = 0;
        while i < v.len()
            invariant
                i <= v@.len(),
                self@ == in_arms(v@.subrange(0, i as int), start),
            decreases v@.len() - i,
        {
            let ghost after = v@.subrange(0, i + 1);
            assert(after.subrange(0, after.len() - 1) =~= v@.subrange(0, i as int));
            self.arm(&v[i]);
            i += 1;
        }
        assert(v@.subrange(0, i as int) =~= v@);
    }

    fn arm(&mut self, arm: &TypedMatchArm)
        ensures
            final(self)@ == in_arm(*arm, old(self)@),
        decreases *arm,
    {
        self.open();
        let names: Vec<String> = pattern_bindings(&arm.pattern);
        self.bind_names(&names);
        if let Some(guard) = &arm.guard {
            self.expr(guard);
        }
        self.block(&arm.body);
        self.close();
    }

    fn expr(&mut self, expr: &TypedExpr)
        ensures
            final(self)@ == in_expr(*expr, old(self)@),
        decreases *expr,
    {
        match expr {
            TypedExpr::Ident(name, ty, _) => {
                self.capture(name.as_str(), Some(ty));
            },
            TypedExpr::Tuple(items, _, _) => {
                self.exprs(items);
            },
            TypedExpr::Array(items, _, _) => {
                self.exprs(items);
            },
            TypedExpr::RecordLiteral { fields, .. } => {
                self.fields(fields);
            },
            TypedExpr::StructLiteral { fields, .. } => {
                self.fields(fields);
            },
            TypedExpr::RepeatArray(value, _, _, _) => {
                self.expr(value);
            },
            TypedExpr::UnaryOp(_, value, _, _) => {
                self.expr(value);
            },
            TypedExpr::Cast { expr: value, .. } => {
                self.expr(value);
            },
            TypedExpr::SingletonCoerce { inner, .. } => {
                self.expr(inner);
            },
            TypedExpr::RefTemp { init, .. } => {
                self.expr(init);
            },
            TypedExpr::BinOp(left, _, right, _, _) => {
                self.expr(left);
                self.expr(right);
            },
            TypedExpr::Assign { target, value, .. } => {
                self.place(target);
                self.expr(value);
            },
            TypedExpr::Call { callee, args, .. } => {
                self.expr(callee);
                self.exprs(args);
            },
            TypedExpr::MethodCall { receiver, args, .. } => {
                self.expr(receiver);
                self.exprs(args);
            },
            TypedExpr::FieldAccess { object, .. } => {
                self.expr(object);
            },
            TypedExpr::TupleAccess { object, .. } => {
                self.expr(object);
            },
            TypedExpr::Index { object, index, .. } => {
                self.expr(object);
                self.expr(index);
            },
            TypedExpr::Match(m) => {
                self.expr(&m.scrutinee);
                self.arms(&m.arms);
            },
            TypedExpr::If { condition, then_branch, else_branch, .. } => {
                self.expr(condition);
                self.block(then_branch);
                if let Some(branch) = else_branch {
                    self.block(branch);
                }
            },
            TypedExpr::Loop { body, .. } => {
                self.block(body);
            },
            TypedExpr::Closure { params, body, .. } => {
                self.open();
                self.bind_params(params);
                self.block(body);
                self.close();
            },
            TypedExpr::GenericClosure { params, .. } => {
                self.open();
                self.bind_params(params);
                self.close();
            },
            TypedExpr::Return(ret) => {
                if let Some(value) = &ret.value {
                    self.expr(value);
                }
            },
            TypedExpr::Break(brk) => {
                if let Some(value) = &brk.value {
                    self.expr(value);
                }
            },
            TypedExpr::Literal(_, _, _) => {},
            TypedExpr::Path(_, _, _) => {},
            TypedExpr::Continue(_) => {},
        }
    }

    fn place(&mut self, place: &TypedPlace)
        ensures
            final(self)@ == in_place(*place, old(self)@),
        decreases *place,
    {
        match place {
            TypedPlace::Ident(name, _) => {
                self.capture(name.as_str(), None);
            },
            TypedPlace::Deref { object, .. } => {
                self.expr(object);
            },
            TypedPlace::Field { object, .. } => {
                self.place(object);
            },
            TypedPlace::Tuple { object, .. } => {
                self.place(object);
            },
            TypedPlace::Index { object, index, .. } => {
                self.place(object);
                self.expr(index);
            },
        }
    }
}

/// The bindings that a block uses without binding them, in the order of their first use.
pub fn collect_free_roots_from_typed_block(block: &TypedBlock, initial_locals: NameSet) -> (r: Vec<
    CapturedRoot,
>)
    ensures
        captures_view(r@) == free_roots(*block, initial_locals@),
{
    let mut scope_stack: Vec<NameSet> = Vec::new();
    scope_stack.push(initial_locals);
    let mut collector = FreeRootCollector {
        scope_stack,
        captures: Vec::new(),
        seen: NameSet::new(),
    };
    proof {
        assert(collector@.scopes =~= seq![initial_locals@]);
        assert(collector@.captures =~= Seq::empty());
        assert(collector@ == (RootsV {
            scopes: seq![initial_locals@],
            captures: Seq::empty(),
            seen: Set::empty(),
        }));
    }
    collector.block(block);
    collector.captures
}

} // verus!
