//! What the elaboration of a module knows: what is fixed for the whole of it, and what changes
//! from one expression to the next.
use vstd::prelude::*;
use crate::ast::{Expr, FunDecl, SymbolId, TypeExpr, TypeExprV};
use crate::conversions::{denoted, type_expr_to_infer, TypeScope, TypeScopeV};
use crate::error::{MetelError, MetelErrorV};
use crate::infer::{infer_to_type, lowered, named_infer_types_view, resolved};
use crate::infer::{substituted, InferType, InferTypeV, Substitution};
use crate::lookup::home_of;
use crate::registry::{method_type_of, Additions, TypeDefinitionRegistry};
use crate::scheme::{infer_type_to_type, lower, TypeScheme, TypeVarGenerator};
use crate::span::{Span, SpanV};
use crate::text::{opt_text, same_text, same_texts, texts};
use crate::types::{type_view, types_view, Type, TypeV};

verus! {

/// A name with its scheme.
pub struct SchemeEntry {
    pub name: String,
    pub scheme: TypeScheme,
}

/// A declared symbol of a module.
pub struct SymbolEntry {
    pub module: Vec<String>,
    pub name: String,
    pub id: SymbolId,
}

/// One definition of an overloaded function.
pub struct OverloadEntry {
    pub params: Vec<Type>,
    pub ret: Type,
    pub symbol_id: SymbolId,
    pub span: Span,
}

/// The definitions of an overloaded function.
pub struct OverloadSet {
    pub name: String,
    pub entries: Vec<OverloadEntry>,
}

/// What a name at a place in the source refers to.
pub struct Reference {
    pub span: Span,
    pub id: SymbolId,
}

/// An impl whose target cannot be registered, and why.
#[derive(Debug)]
pub struct Refusal {
    pub span: Span,
    pub error: MetelError,
}

/// The return type that inference found for a closure.
pub struct ClosureReturn {
    pub span: Span,
    pub ty: InferType,
}

/// What is fixed for the whole of an elaboration.
pub struct Facts<'a, 'c> {
    pub subst: &'c Substitution,
    pub schemes: &'c Vec<SchemeEntry>,
    pub registry: &'a TypeDefinitionRegistry,
    /// The symbols that the name resolver knows, where there is one.
    pub symbols: Option<&'c Vec<SymbolEntry>>,
    pub overloads: &'c Vec<OverloadSet>,
    pub module: &'c Vec<String>,
    /// What names refer to, where there is a name resolver.
    pub references: Option<&'c Vec<Reference>>,
    pub closure_returns: Option<&'c Vec<ClosureReturn>>,
    /// The impls whose targets cannot be registered.
    pub refusals: Option<&'c Vec<Refusal>>,
    /// The type parameters in scope, inside a generic body that is elaborated for a call.
    pub generics: &'c Vec<(String, InferType)>,
    /// What holds besides the declarations, inside such a body.
    pub extra: &'c Additions,
}

/// The names of one scope, in the order in which they were bound, and its functions.
pub struct Scope<'a> {
    pub vars: Vec<(String, Type)>,
    pub funs: Vec<&'a FunDecl>,
}

/// A struct that a block declares.
pub struct LocalStruct {
    pub name: String,
    pub fields: Vec<LocalField>,
}

/// A field of a struct that a block declares.
pub struct LocalField {
    pub name: String,
    pub ty: Type,
    pub span: Span,
}

/// A scope as a mathematical object.
pub ghost struct ScopeV {
    pub vars: Seq<(Seq<char>, TypeV)>,
    pub funs: Seq<FunDecl>,
}

/// A field as a mathematical object.
pub ghost struct LocalFieldV {
    pub name: Seq<char>,
    pub ty: TypeV,
    pub span: SpanV,
}

/// A struct as a mathematical object.
pub ghost struct LocalStructV {
    pub name: Seq<char>,
    pub fields: Seq<LocalFieldV>,
}

/// What changes in the course of an elaboration.
pub ghost struct StateV {
    pub scopes: Seq<ScopeV>,
    pub structs: Seq<Seq<LocalStructV>>,
    pub next: u32,
    /// The return type of the innermost function or closure.
    pub ret: Option<TypeV>,
    /// The type that a `break` of the innermost `loop` is expected to carry.
    pub brk: Option<TypeV>,
    pub depth: usize,
    /// What `Self` denotes.
    pub self_name: Option<Seq<char>>,
}

/// The names of a scope.
pub open spec fn vars_view(s: Seq<(String, Type)>) -> Seq<(Seq<char>, TypeV)> {
    Seq::new(s.len(), |i: int| (s[i].0@, s[i].1@))
}

/// The functions of a scope.
pub open spec fn funs_view(s: Seq<&FunDecl>) -> Seq<FunDecl> {
    Seq::new(s.len(), |i: int| *s[i])
}

/// The scopes of a state.
pub open spec fn scopes_view(s: Seq<Scope>) -> Seq<ScopeV> {
    Seq::new(s.len(), |i: int| ScopeV { vars: vars_view(s[i].vars@), funs: funs_view(s[i].funs@) })
}

/// The fields of a struct.
pub open spec fn local_fields_view(s: Seq<LocalField>) -> Seq<LocalFieldV> {
    Seq::new(s.len(), |i: int| LocalFieldV { name: s[i].name@, ty: s[i].ty@, span: s[i].span@ })
}

/// The structs of a block.
pub open spec fn local_structs_view(s: Seq<LocalStruct>) -> Seq<LocalStructV> {
    Seq::new(
        s.len(),
        |i: int| LocalStructV { name: s[i].name@, fields: local_fields_view(s[i].fields@) },
    )
}

/// The structs of the open blocks.
pub open spec fn struct_scopes_view(s: Seq<Vec<LocalStruct>>) -> Seq<Seq<LocalStructV>> {
    Seq::new(s.len(), |i: int| local_structs_view(s[i]@))
}

/// A type, or none, as a mathematical object.
pub open spec fn opt_type(t: Option<Type>) -> Option<TypeV> {
    match t {
        Some(t) => Some(t@),
        None => None,
    }
}

/// A borrowed type, or none, as a mathematical object.
pub open spec fn hint_view(t: Option<&Type>) -> Option<TypeV> {
    match t {
        Some(t) => Some(t@),
        None => None,
    }
}

/// The type that a scope knows a name by: the one it was bound to last.
pub open spec fn var_in(s: Seq<(Seq<char>, TypeV)>, name: Seq<char>) -> Option<TypeV>
    decreases s.len(),
{
    if s.len() == 0 {
        None
    } else if s.last().0 == name {
        Some(s.last().1)
    } else {
        var_in(s.drop_last(), name)
    }
}

/// The type of a name in the innermost scope that knows it.
pub open spec fn var_of(s: Seq<ScopeV>, name: Seq<char>) -> Option<TypeV>
    decreases s.len(),
{
    if s.len() == 0 {
        None
    } else {
        match var_in(s.last().vars, name) {
            Some(t) => Some(t),
            None => var_of(s.drop_last(), name),
        }
    }
}

/// The function that a scope knows under a name: the one declared last.
pub open spec fn fun_in(s: Seq<FunDecl>, name: Seq<char>) -> Option<FunDecl>
    decreases s.len(),
{
    if s.len() == 0 {
        None
    } else if s.last().name@ == name {
        Some(s.last())
    } else {
        fun_in(s.drop_last(), name)
    }
}

/// The function under a name in the innermost scope that knows it.
pub open spec fn fun_of(s: Seq<ScopeV>, name: Seq<char>) -> Option<FunDecl>
    decreases s.len(),
{
    if s.len() == 0 {
        None
    } else {
        match fun_in(s.last().funs, name) {
            Some(f) => Some(f),
            None => fun_of(s.drop_last(), name),
        }
    }
}

/// The fields of the struct that a block declares last under a name.
pub open spec fn struct_in(s: Seq<LocalStructV>, name: Seq<char>) -> Option<Seq<LocalFieldV>>
    decreases s.len(),
{
    if s.len() == 0 {
        None
    } else if s.last().name == name {
        Some(s.last().fields)
    } else {
        struct_in(s.drop_last(), name)
    }
}

/// The fields of a struct in the innermost block that declares it.
pub open spec fn fields_of(s: Seq<Seq<LocalStructV>>, name: Seq<char>) -> Option<Seq<LocalFieldV>>
    decreases s.len(),
{
    if s.len() == 0 {
        None
    } else {
        match struct_in(s.last(), name) {
            Some(f) => Some(f),
            None => fields_of(s.drop_last(), name),
        }
    }
}

/// The field of a struct under a name.
pub open spec fn local_field(s: Seq<LocalFieldV>, name: Seq<char>) -> Option<LocalFieldV>
    decreases s.len(),
{
    if s.len() == 0 {
        None
    } else if s[0].name == name {
        Some(s[0])
    } else {
        local_field(s.skip(1), name)
    }
}

/// The state with a scope opened.
#[verifier::opaque]
pub open spec fn pushed(st: StateV) -> StateV {
    StateV { scopes: st.scopes.push(ScopeV { vars: Seq::empty(), funs: Seq::empty() }), ..st }
}

/// The state with the innermost scope closed.
#[verifier::opaque]
pub open spec fn popped(st: StateV) -> StateV {
    StateV {
        scopes: if st.scopes.len() == 0 {
            st.scopes
        } else {
            st.scopes.drop_last()
        },
        ..st
    }
}

/// The state with a name bound in the innermost scope.
#[verifier::opaque]
pub open spec fn bound(st: StateV, name: Seq<char>, ty: TypeV) -> StateV {
    if st.scopes.len() == 0 {
        st
    } else {
        let scope = st.scopes.last();
        StateV {
            scopes: st.scopes.drop_last().push(
                ScopeV { vars: scope.vars.push((name, ty)), ..scope },
            ),
            ..st
        }
    }
}

/// The state with names bound by position, the first `n` of them.
pub open spec fn bound_params(
    st: StateV,
    params: Seq<crate::ast::Param>,
    types: Seq<TypeV>,
    n: int,
) -> StateV
    decreases n,
{
    if n <= 0 || n > params.len() || n > types.len() {
        st
    } else {
        bound(bound_params(st, params, types, n - 1), params[n - 1].name@, types[n - 1])
    }
}

/// Opening a scope changes nothing else.
pub proof fn lemma_pushed_keeps(st: StateV)
    ensures
        pushed(st) == (StateV { scopes: pushed(st).scopes, ..st }),
{
    reveal(pushed);
}

/// Binding names changes nothing but the scopes.
pub proof fn lemma_bound_params_keep(
    st: StateV,
    params: Seq<crate::ast::Param>,
    types: Seq<TypeV>,
    n: int,
)
    ensures
        bound_params(st, params, types, n) == (StateV {
            scopes: bound_params(st, params, types, n).scopes,
            ..st
        }),
    decreases n,
{
    reveal(bound);
    if !(n <= 0 || n > params.len() || n > types.len()) {
        lemma_bound_params_keep(st, params, types, n - 1);
    }
}

/// The state with a function declared in the innermost scope.
#[verifier::opaque]
pub open spec fn with_fun(st: StateV, f: FunDecl) -> StateV {
    if st.scopes.len() == 0 {
        st
    } else {
        let scope = st.scopes.last();
        StateV {
            scopes: st.scopes.drop_last().push(ScopeV { funs: scope.funs.push(f), ..scope }),
            ..st
        }
    }
}

/// The state with a struct declared in the innermost block.
#[verifier::opaque]
pub open spec fn with_struct(st: StateV, s: LocalStructV) -> StateV {
    if st.structs.len() == 0 {
        st
    } else {
        StateV {
            structs: st.structs.drop_last().push(st.structs.last().push(s)),
            ..st
        }
    }
}

/// The state with a block opened.
#[verifier::opaque]
pub open spec fn pushed_structs(st: StateV) -> StateV {
    StateV { structs: st.structs.push(Seq::empty()), ..st }
}

/// The state with the innermost block closed.
#[verifier::opaque]
pub open spec fn popped_structs(st: StateV) -> StateV {
    StateV {
        structs: if st.structs.len() == 0 {
            st.structs
        } else {
            st.structs.drop_last()
        },
        ..st
    }
}

/// The state inside one more loop.
#[verifier::opaque]
pub open spec fn in_loop(st: StateV) -> StateV {
    StateV {
        depth: if st.depth < usize::MAX {
            (st.depth + 1) as usize
        } else {
            st.depth
        },
        ..st
    }
}

/// The state outside the innermost loop.
#[verifier::opaque]
pub open spec fn out_of_loop(st: StateV) -> StateV {
    StateV {
        depth: if st.depth > 0 {
            (st.depth - 1) as usize
        } else {
            st.depth
        },
        ..st
    }
}

/// The scheme of a name.
pub open spec fn scheme_in(s: Seq<SchemeEntry>, name: Seq<char>) -> Option<TypeScheme>
    decreases s.len(),
{
    if s.len() == 0 {
        None
    } else if s[0].name@ == name {
        Some(s[0].scheme)
    } else {
        scheme_in(s.skip(1), name)
    }
}

/// The symbol of a module under a name.
pub open spec fn symbol_in(
    s: Seq<SymbolEntry>,
    module: Seq<Seq<char>>,
    name: Seq<char>,
) -> Option<SymbolId>
    decreases s.len(),
{
    if s.len() == 0 {
        None
    } else if texts(s[0].module@) == module && s[0].name@ == name {
        Some(s[0].id)
    } else {
        symbol_in(s.skip(1), module, name)
    }
}

/// The symbol of a module under a name, where there is a name resolver.
pub open spec fn symbol_of(fx: Facts, module: Seq<Seq<char>>, name: Seq<char>) -> Option<SymbolId> {
    match fx.symbols {
        Some(s) => symbol_in(s@, module, name),
        None => None,
    }
}

/// The symbol of a struct or an enum: of the module that declares it, or else of `std::core`, or
/// else of the module itself.
pub open spec fn type_symbol(fx: Facts, name: Seq<char>) -> Option<SymbolId> {
    match home_of(*fx.registry, name) {
        Some(home) => symbol_of(fx, texts(home.module@), name),
        None => match symbol_of(fx, seq!["std"@, "core"@], name) {
            Some(id) => Some(id),
            None => symbol_of(fx, texts(fx.module@), name),
        },
    }
}

/// What a name at a place in the source refers to.
pub open spec fn reference_in(s: Seq<Reference>, span: SpanV) -> Option<SymbolId>
    decreases s.len(),
{
    if s.len() == 0 {
        None
    } else if s[0].span@ == span {
        Some(s[0].id)
    } else {
        reference_in(s.skip(1), span)
    }
}

/// The symbol that a callee refers to, where that is known before the program runs.
pub open spec fn callee_symbol(fx: Facts, callee: Expr) -> Option<SymbolId> {
    match callee {
        Expr::Ident(_, span) => match fx.references {
            Some(s) => reference_in(s@, span@),
            None => None,
        },
        Expr::ResolvedPath { symbol_id, .. } => symbol_id,
        _ => None,
    }
}

/// The return type that inference found for a closure.
pub open spec fn closure_return_in(s: Seq<ClosureReturn>, span: SpanV) -> Option<InferTypeV>
    decreases s.len(),
{
    if s.len() == 0 {
        None
    } else if s[0].span@ == span {
        Some(s[0].ty@)
    } else {
        closure_return_in(s.skip(1), span)
    }
}

/// Why the target of an impl cannot be registered.
pub open spec fn refusal_in(s: Seq<Refusal>, span: SpanV) -> Option<MetelErrorV>
    decreases s.len(),
{
    if s.len() == 0 {
        None
    } else if s[0].span@ == span {
        Some(s[0].error@)
    } else {
        refusal_in(s.skip(1), span)
    }
}

/// Why the target of an impl cannot be registered.
pub open spec fn refusal_of(fx: Facts, span: SpanV) -> Option<MetelErrorV> {
    match fx.refusals {
        Some(s) => refusal_in(s@, span),
        None => None,
    }
}

/// The definitions of an overloaded function.
pub open spec fn overloads_in(s: Seq<OverloadSet>, name: Seq<char>) -> Option<Seq<OverloadEntry>>
    decreases s.len(),
{
    if s.len() == 0 {
        None
    } else if s[0].name@ == name {
        Some(s[0].entries@)
    } else {
        overloads_in(s.skip(1), name)
    }
}

/// The definition of an overloaded function for exactly these argument types.
pub open spec fn overload_for(s: Seq<OverloadEntry>, args: Seq<TypeV>) -> Option<OverloadEntry>
    decreases s.len(),
{
    if s.len() == 0 {
        None
    } else if types_view(s[0].params@) == args {
        Some(s[0])
    } else {
        overload_for(s.skip(1), args)
    }
}

/// The definition of an overloaded function that stands at a place in the source.
pub open spec fn overload_at(s: Seq<OverloadEntry>, span: SpanV) -> Option<OverloadEntry>
    decreases s.len(),
{
    if s.len() == 0 {
        None
    } else if s[0].span@ == span {
        Some(s[0])
    } else {
        overload_at(s.skip(1), span)
    }
}

/// The overload that a declaration is, if it is one.
pub open spec fn overload_of_decl(fx: Facts, fun: FunDecl) -> Option<OverloadEntry> {
    match overloads_in(fx.overloads@, fun.name@) {
        Some(s) => overload_at(s, fun.span@),
        None => None,
    }
}

/// The type of a method of a named type, where it does not depend on type arguments.
pub open spec fn concrete_method(fx: Facts, owner: Seq<char>, method: Seq<char>) -> Option<TypeV> {
    match method_type_of(*fx.registry, owner, method) {
        Some(ty) => {
            let t = substituted(fx.subst@, ty);
            if resolved(t) {
                Some(lowered(t))
            } else {
                None
            }
        },
        None => None,
    }
}

/// The inference type that an annotation denotes.
pub open spec fn ann_infer(fx: Facts, st: StateV, te: TypeExprV) -> InferTypeV {
    denoted(
        TypeScopeV {
            generics: named_infer_types_view(fx.generics@),
            self_name: st.self_name,
            aspect: None,
        },
        te,
    )
}

/// The type that an annotation denotes.
pub open spec fn ann_type(fx: Facts, st: StateV, te: TypeExprV, span: SpanV) -> Result<
    TypeV,
    MetelErrorV,
> {
    lower(substituted(fx.subst@, ann_infer(fx, st, te)), span)
}

/// The type that an optional annotation denotes.
pub open spec fn opt_ann_type(fx: Facts, st: StateV, te: Option<TypeExpr>, span: SpanV) -> Result<
    Option<TypeV>,
    MetelErrorV,
> {
    match te {
        Some(te) => match ann_type(fx, st, te@, span) {
            Ok(t) => Ok(Some(t)),
            Err(e) => Err(e),
        },
        None => Ok(None),
    }
}

/// The elaboration of a module.
pub struct Elaborator<'a, 'c> {
    pub fx: Facts<'a, 'c>,
    pub scopes: Vec<Scope<'a>>,
    pub structs: Vec<Vec<LocalStruct>>,
    pub gen: TypeVarGenerator,
    pub return_ty: Option<Type>,
    pub break_ty: Option<Type>,
    pub loop_depth: usize,
    pub self_name: Option<String>,
    /// How deep default methods may still nest.
    pub budget: usize,
}

impl<'a, 'c> Elaborator<'a, 'c> {
    /// What changes in the course of the elaboration.
    pub open spec fn st(&self) -> StateV {
        StateV {
            scopes: scopes_view(self.scopes@),
            structs: struct_scopes_view(self.structs@),
            next: self.gen.next,
            ret: opt_type(self.return_ty),
            brk: opt_type(self.break_ty),
            depth: self.loop_depth,
            self_name: opt_text(self.self_name),
        }
    }

    /// Open a scope.
    pub fn push_scope(&mut self)
        ensures
            final(self).fx == old(self).fx,
            final(self).budget == old(self).budget,
            final(self).st() == pushed(old(self).st()),
    {
        reveal(pushed);
        let ghost before = scopes_view(self.scopes@);
        self.scopes.push(Scope { vars: Vec::new(), funs: Vec::new() });
        assert(scopes_view(self.scopes@).last().vars =~= Seq::empty());
        assert(scopes_view(self.scopes@).last().funs =~= Seq::empty());
        assert(scopes_view(self.scopes@) =~= before.push(
            ScopeV { vars: Seq::empty(), funs: Seq::empty() },
        ));
    }

    /// Close the innermost scope.
    pub fn pop_scope(&mut self)
        ensures
            final(self).fx == old(self).fx,
            final(self).budget == old(self).budget,
            final(self).st() == popped(old(self).st()),
    {
        reveal(popped);
        let ghost before = scopes_view(self.scopes@);
        assert(before.len() == self.scopes@.len());
        let _ = self.scopes.pop();
        proof {
            if before.len() > 0 {
                assert(scopes_view(self.scopes@) =~= before.drop_last());
            } else {
                assert(scopes_view(self.scopes@) =~= before);
            }
        }
    }

    /// Open a block.
    pub fn push_struct_scope(&mut self)
        ensures
            final(self).fx == old(self).fx,
            final(self).budget == old(self).budget,
            final(self).st() == pushed_structs(old(self).st()),
    {
        reveal(pushed_structs);
        let ghost before = struct_scopes_view(self.structs@);
        self.structs.push(Vec::new());
        assert(struct_scopes_view(self.structs@).last() =~= Seq::empty());
        assert(struct_scopes_view(self.structs@) =~= before.push(Seq::empty()));
    }

    /// Close the innermost block.
    pub fn pop_struct_scope(&mut self)
        ensures
            final(self).fx == old(self).fx,
            final(self).budget == old(self).budget,
            final(self).st() == popped_structs(old(self).st()),
    {
        reveal(popped_structs);
        let ghost before = struct_scopes_view(self.structs@);
        assert(before.len() == self.structs@.len());
        let _ = self.structs.pop();
        proof {
            if before.len() > 0 {
                assert(struct_scopes_view(self.structs@) =~= before.drop_last());
            } else {
                assert(struct_scopes_view(self.structs@) =~= before);
            }
        }
    }

    /// Bind a name in the innermost scope.
    pub fn bind(&mut self, name: &str, ty: Type)
        ensures
            final(self).fx == old(self).fx,
            final(self).budget == old(self).budget,
            final(self).st() == bound(old(self).st(), name@, ty@),
    {
        reveal(bound);
        let ghost before = scopes_view(self.scopes@);
        let ghost view = ty@;
        assert(before.len() == self.scopes@.len());
        if let Some(scope) = self.scopes.pop() {
            let mut scope: Scope<'a> = scope;
            let ghost vars = vars_view(scope.vars@);
            assert(before.last() == (ScopeV { vars, funs: funs_view(scope.funs@) }));
            scope.vars.push((name.to_owned(), ty));
            assert(vars_view(scope.vars@) =~= vars.push((name@, view)));
            self.scopes.push(scope);
            assert(scopes_view(self.scopes@) =~= before.drop_last().push(
                ScopeV { vars: vars.push((name@, view)), ..before.last() },
            ));
        }
    }

    /// Bind parameters by position.
    pub fn bind_params(&mut self, params: &Vec<crate::ast::Param>, types: &Vec<Type>)
        ensures
            final(self).fx == old(self).fx,
            final(self).budget == old(self).budget,
            final(self).st() == bound_params(
                old(self).st(),
                params@,
                types_view(types@),
                super::schemes::shorter(params@.len(), types_view(types@).len()),
            ),
    {
        let ghost ts = types_view(types@);
        let ghost start = self.st();
        assert(ts.len() == types@.len());
        let mut i: usize = 0;
        while i < params.len() && i < types.len()
            invariant
                i <= params@.len(),
                i <= types@.len(),
                ts == types_view(types@),
                ts.len() == types@.len(),
                self.fx == old(self).fx,
                self.budget == old(self).budget,
                self.st() == bound_params(start, params@, ts, i as int),
            decreases params@.len() - i,
        {
            assert(ts[i as int] == type_view(types@[i as int]));
            self.bind(params[i].name.as_str(), types[i].copy());
            i += 1;
        }
    }

    /// Declare a function in the innermost scope.
    pub fn register_fn_decl(&mut self, fun: &'a FunDecl)
        ensures
            final(self).fx == old(self).fx,
            final(self).budget == old(self).budget,
            final(self).st() == with_fun(old(self).st(), *fun),
    {
        reveal(with_fun);
        let ghost before = scopes_view(self.scopes@);
        assert(before.len() == self.scopes@.len());
        if let Some(scope) = self.scopes.pop() {
            let mut scope: Scope<'a> = scope;
            let ghost funs = funs_view(scope.funs@);
            assert(before.last() == (ScopeV { vars: vars_view(scope.vars@), funs }));
            scope.funs.push(fun);
            assert(funs_view(scope.funs@) =~= funs.push(*fun));
            self.scopes.push(scope);
            assert(scopes_view(self.scopes@) =~= before.drop_last().push(
                ScopeV { funs: funs.push(*fun), ..before.last() },
            ));
        }
    }

    /// Declare a struct in the innermost block.
    pub fn register_local_struct(&mut self, local: LocalStruct)
        ensures
            final(self).fx == old(self).fx,
            final(self).budget == old(self).budget,
            final(self).st() == with_struct(
                old(self).st(),
                LocalStructV { name: local.name@, fields: local_fields_view(local.fields@) },
            ),
    {
        reveal(with_struct);
        let ghost before = struct_scopes_view(self.structs@);
        let ghost view = LocalStructV {
            name: local.name@,
            fields: local_fields_view(local.fields@),
        };
        assert(before.len() == self.structs@.len());
        if let Some(list) = self.structs.pop() {
            let mut list: Vec<LocalStruct> = list;
            let ghost inner = local_structs_view(list@);
            assert(before.last() == inner);
            list.push(local);
            assert(local_structs_view(list@) =~= inner.push(view));
            self.structs.push(list);
            assert(struct_scopes_view(self.structs@) =~= before.drop_last().push(inner.push(view)));
        }
    }

    fn lookup_in(vars: &Vec<(String, Type)>, name: &str) -> (r: Option<Type>)
        ensures
            opt_type(r) == var_in(vars_view(vars@), name@),
    {
        let ghost views = vars_view(vars@);
        let mut i: usize = vars.len();
        assert(views.take(i as int) =~= views);
        while i > 0
            invariant
                i <= vars@.len(),
                views == vars_view(vars@),
                var_in(views, name@) == var_in(views.take(i as int), name@),
            decreases i,
        {
            let ghost whole = views.take(i as int);
            assert(whole.drop_last() =~= views.take(i - 1));
            assert(whole.last() == views[i - 1]);
            i -= 1;
            assert(views[i as int] == (vars@[i as int].0@, vars@[i as int].1@));
            if same_text(vars[i].0.as_str(), name) {
                return Some(vars[i].1.copy());
            }
        }
        None
    }

    /// The type of a name.
    pub fn lookup(&self, name: &str) -> (r: Option<Type>)
        ensures
            opt_type(r) == var_of(self.st().scopes, name@),
    {
        let ghost views = scopes_view(self.scopes@);
        let mut i: usize = self.scopes.len();
        assert(views.take(i as int) =~= views);
        while i > 0
            invariant
                i <= self.scopes@.len(),
                views == scopes_view(self.scopes@),
                var_of(views, name@) == var_of(views.take(i as int), name@),
            decreases i,
        {
            let ghost whole = views.take(i as int);
            assert(whole.drop_last() =~= views.take(i - 1));
            assert(whole.last() == views[i - 1]);
            i -= 1;
            let found: Option<Type> = Self::lookup_in(&self.scopes[i].vars, name);
            if found.is_some() {
                return found;
            }
        }
        None
    }

    fn lookup_fn_in(funs: &Vec<&'a FunDecl>, name: &str) -> (r: Option<&'a FunDecl>)
        ensures
            match r {
                Some(f) => fun_in(funs_view(funs@), name@) == Some(*f),
                None => fun_in(funs_view(funs@), name@) is None,
            },
    {
        let ghost views = funs_view(funs@);
        let mut i: usize = funs.len();
        assert(views.take(i as int) =~= views);
        while i > 0
            invariant
                i <= funs@.len(),
                views == funs_view(funs@),
                fun_in(views, name@) == fun_in(views.take(i as int), name@),
            decreases i,
        {
            let ghost whole = views.take(i as int);
            assert(whole.drop_last() =~= views.take(i - 1));
            assert(whole.last() == views[i - 1]);
            i -= 1;
            let f: &'a FunDecl = funs[i];
            if same_text(f.name.as_str(), name) {
                return Some(f);
            }
        }
        None
    }

    /// The function under a name.
    pub fn lookup_fn_decl(&self, name: &str) -> (r: Option<&'a FunDecl>)
        ensures
            match r {
                Some(f) => fun_of(self.st().scopes, name@) == Some(*f),
                None => fun_of(self.st().scopes, name@) is None,
            },
    {
        let ghost views = scopes_view(self.scopes@);
        let mut i: usize = self.scopes.len();
        assert(views.take(i as int) =~= views);
        while i > 0
            invariant
                i <= self.scopes@.len(),
                views == scopes_view(self.scopes@),
                fun_of(views, name@) == fun_of(views.take(i as int), name@),
            decreases i,
        {
            let ghost whole = views.take(i as int);
            assert(whole.drop_last() =~= views.take(i - 1));
            assert(whole.last() == views[i - 1]);
            i -= 1;
            let found: Option<&'a FunDecl> = Self::lookup_fn_in(&self.scopes[i].funs, name);
            if found.is_some() {
                return found;
            }
        }
        None
    }

    fn struct_fields_in<'b>(list: &'b Vec<LocalStruct>, name: &str) -> (r: Option<
        &'b Vec<LocalField>,
    >)
        ensures
            match r {
                Some(f) => struct_in(local_structs_view(list@), name@) == Some(
                    local_fields_view(f@),
                ),
                None => struct_in(local_structs_view(list@), name@) is None,
            },
    {
        let ghost views = local_structs_view(list@);
        let mut i: usize = list.len();
        assert(views.take(i as int) =~= views);
        while i > 0
            invariant
                i <= list@.len(),
                views == local_structs_view(list@),
                struct_in(views, name@) == struct_in(views.take(i as int), name@),
            decreases i,
        {
            let ghost whole = views.take(i as int);
            assert(whole.drop_last() =~= views.take(i - 1));
            assert(whole.last() == views[i - 1]);
            i -= 1;
            if same_text(list[i].name.as_str(), name) {
                return Some(&list[i].fields);
            }
        }
        None
    }

    /// The fields of a struct.
    pub fn get_struct_fields(&self, name: &str) -> (r: Option<&Vec<LocalField>>)
        ensures
            match r {
                Some(f) => fields_of(self.st().structs, name@) == Some(local_fields_view(f@)),
                None => fields_of(self.st().structs, name@) is None,
            },
    {
        let ghost views = struct_scopes_view(self.structs@);
        let mut i: usize = self.structs.len();
        assert(views.take(i as int) =~= views);
        while i > 0
            invariant
                i <= self.structs@.len(),
                views == struct_scopes_view(self.structs@),
                fields_of(views, name@) == fields_of(views.take(i as int), name@),
            decreases i,
        {
            let ghost whole = views.take(i as int);
            assert(whole.drop_last() =~= views.take(i - 1));
            assert(whole.last() == views[i - 1]);
            i -= 1;
            let found: Option<&Vec<LocalField>> = Self::struct_fields_in(&self.structs[i], name);
            if found.is_some() {
                return found;
            }
        }
        None
    }

    /// Open a loop.
    pub fn enter_loop(&mut self)
        ensures
            final(self).fx == old(self).fx,
            final(self).budget == old(self).budget,
            final(self).st() == in_loop(old(self).st()),
    {
        reveal(in_loop);
        if self.loop_depth < usize::MAX {
            self.loop_depth += 1;
        }
    }

    /// Close a loop.
    pub fn exit_loop(&mut self)
        ensures
            final(self).fx == old(self).fx,
            final(self).budget == old(self).budget,
            final(self).st() == out_of_loop(old(self).st()),
    {
        reveal(out_of_loop);
        if self.loop_depth > 0 {
            self.loop_depth -= 1;
        }
    }

    /// The inference type that an annotation denotes.
    pub fn type_expr_to_infer_ctx(&self, te: &TypeExpr) -> (r: InferType)
        ensures
            r@ == ann_infer(self.fx, self.st(), te@),
    {
        let scope = TypeScope {
            generics: self.fx.generics,
            self_name: match &self.self_name {
                Some(s) => Some(s.as_str()),
                None => None,
            },
            aspect: None,
        };
        type_expr_to_infer(te, &scope)
    }

    /// The type that an annotation denotes.
    pub fn annotated(&self, te: &TypeExpr, span: &Span) -> (r: Result<Type, MetelError>)
        ensures
            match ann_type(self.fx, self.st(), te@, span@) {
                Ok(t) => r matches Ok(x) && x@ == t,
                Err(e) => r matches Err(x) && x@ == e,
            },
    {
        let inferred: InferType = self.type_expr_to_infer_ctx(te);
        let applied: InferType = self.fx.subst.apply(&inferred);
        infer_type_to_type(&applied, span)
    }

    /// The type that an optional annotation denotes.
    pub fn opt_annotated(&self, te: &Option<TypeExpr>, span: &Span) -> (r: Result<
        Option<Type>,
        MetelError,
    >)
        ensures
            match opt_ann_type(self.fx, self.st(), *te, span@) {
                Ok(t) => r matches Ok(x) && opt_type(x) == t,
                Err(e) => r matches Err(x) && x@ == e,
            },
    {
        match te {
            Some(te) => match self.annotated(te, span) {
                Ok(t) => Ok(Some(t)),
                Err(e) => Err(e),
            },
            None => Ok(None),
        }
    }
}

/// The scheme of a name.
pub fn find_scheme<'a>(list: &'a Vec<SchemeEntry>, name: &str) -> (r: Option<&'a TypeScheme>)
    ensures
        match r {
            Some(s) => scheme_in(list@, name@) == Some(*s),
            None => scheme_in(list@, name@) is None,
        },
{
    assert(list@.skip(0) =~= list@);
    let mut i: usize = 0;
    while i < list.len()
        invariant
            i <= list@.len(),
            scheme_in(list@, name@) == scheme_in(list@.skip(i as int), name@),
        decreases list@.len() - i,
    {
        assert(list@.skip(i as int)[0] == list@[i as int]);
        assert(list@.skip(i as int).skip(1) =~= list@.skip(i + 1));
        if same_text(list[i].name.as_str(), name) {
            return Some(&list[i].scheme);
        }
        i += 1;
    }
    None
}

impl<'a, 'c> Facts<'a, 'c> {
    /// The scheme of a name.
    pub fn scheme(&self, name: &str) -> (r: Option<&'c TypeScheme>)
        ensures
            match r {
                Some(s) => scheme_in(self.schemes@, name@) == Some(*s),
                None => scheme_in(self.schemes@, name@) is None,
            },
    {
        find_scheme(self.schemes, name)
    }

    fn symbol_among(list: &Vec<SymbolEntry>, module: &Vec<String>, name: &str) -> (r: Option<
        SymbolId,
    >)
        ensures
            r == symbol_in(list@, texts(module@), name@),
    {
        assert(list@.skip(0) =~= list@);
        let mut i: usize = 0;
        while i < list.len()
            invariant
                i <= list@.len(),
                symbol_in(list@, texts(module@), name@) == symbol_in(
                    list@.skip(i as int),
                    texts(module@),
                    name@,
                ),
            decreases list@.len() - i,
        {
            assert(list@.skip(i as int)[0] == list@[i as int]);
            assert(list@.skip(i as int).skip(1) =~= list@.skip(i + 1));
            if same_texts(&list[i].module, module) && same_text(list[i].name.as_str(), name) {
                return Some(list[i].id);
            }
            i += 1;
        }
        None
    }

    /// The symbol of a module under a name.
    pub fn symbol(&self, module: &Vec<String>, name: &str) -> (r: Option<SymbolId>)
        ensures
            r == symbol_of(*self, texts(module@), name@),
    {
        match self.symbols {
            Some(list) => Self::symbol_among(list, module, name),
            None => None,
        }
    }

    /// The symbol of a struct or an enum.
    pub fn type_symbol_id(&self, name: &str) -> (r: Option<SymbolId>)
        ensures
            r == type_symbol(*self, name@),
    {
        if let Some(home) = self.registry.type_home(name) {
            return self.symbol(&home.module, name);
        }
        let mut std_core: Vec<String> = Vec::new();
        std_core.push("std".to_owned());
        std_core.push("core".to_owned());
        assert(texts(std_core@) =~= seq!["std"@, "core"@]);
        match self.symbol(&std_core, name) {
            Some(id) => Some(id),
            None => self.symbol(self.module, name),
        }
    }

    fn reference_among(list: &Vec<Reference>, span: &Span) -> (r: Option<SymbolId>)
        ensures
            r == reference_in(list@, span@),
    {
        assert(list@.skip(0) =~= list@);
        let mut i: usize = 0;
        while i < list.len()
            invariant
                i <= list@.len(),
                reference_in(list@, span@) == reference_in(list@.skip(i as int), span@),
            decreases list@.len() - i,
        {
            assert(list@.skip(i as int)[0] == list@[i as int]);
            assert(list@.skip(i as int).skip(1) =~= list@.skip(i + 1));
            if list[i].span.same(span) {
                return Some(list[i].id);
            }
            i += 1;
        }
        None
    }

    /// The symbol that a callee refers to.
    pub fn resolved_callee_id(&self, callee: &Expr) -> (r: Option<SymbolId>)
        ensures
            r == callee_symbol(*self, *callee),
    {
        match callee {
            Expr::Ident(_, span) => match self.references {
                Some(list) => Self::reference_among(list, span),
                None => None,
            },
            Expr::ResolvedPath { symbol_id, .. } => *symbol_id,
            _ => None,
        }
    }

    /// The return type that inference found for a closure.
    pub fn closure_return(&self, span: &Span) -> (r: Option<&'c InferType>)
        ensures
            match r {
                Some(t) => self.closure_returns is Some && closure_return_in(
                    self.closure_returns->0@,
                    span@,
                ) == Some(t@),
                None => self.closure_returns is None || closure_return_in(
                    self.closure_returns->0@,
                    span@,
                ) is None,
            },
    {
        let list: &'c Vec<ClosureReturn> = match self.closure_returns {
            Some(list) => list,
            None => {
                return None;
            },
        };
        assert(list@.skip(0) =~= list@);
        let mut i: usize = 0;
        while i < list.len()
            invariant
                i <= list@.len(),
                self.closure_returns == Some(list),
                closure_return_in(list@, span@) == closure_return_in(
                    list@.skip(i as int),
                    span@,
                ),
            decreases list@.len() - i,
        {
            assert(list@.skip(i as int)[0] == list@[i as int]);
            assert(list@.skip(i as int).skip(1) =~= list@.skip(i + 1));
            if list[i].span.same(span) {
                return Some(&list[i].ty);
            }
            i += 1;
        }
        None
    }

    /// Why the target of an impl cannot be registered.
    pub fn refusal(&self, span: &Span) -> (r: Option<&'c MetelError>)
        ensures
            match r {
                Some(e) => refusal_of(*self, span@) == Some(e@),
                None => refusal_of(*self, span@) is None,
            },
    {
        let list: &'c Vec<Refusal> = match self.refusals {
            Some(list) => list,
            None => {
                return None;
            },
        };
        assert(list@.skip(0) =~= list@);
        let mut i: usize = 0;
        while i < list.len()
            invariant
                i <= list@.len(),
                self.refusals == Some(list),
                refusal_in(list@, span@) == refusal_in(list@.skip(i as int), span@),
            decreases list@.len() - i,
        {
            assert(list@.skip(i as int)[0] == list@[i as int]);
            assert(list@.skip(i as int).skip(1) =~= list@.skip(i + 1));
            if list[i].span.same(span) {
                return Some(&list[i].error);
            }
            i += 1;
        }
        None
    }

    /// The definitions of an overloaded function.
    pub fn overloads_named(&self, name: &str) -> (r: Option<&'c Vec<OverloadEntry>>)
        ensures
            match r {
                Some(s) => overloads_in(self.overloads@, name@) == Some(s@),
                None => overloads_in(self.overloads@, name@) is None,
            },
    {
        let list: &'c Vec<OverloadSet> = self.overloads;
        assert(list@.skip(0) =~= list@);
        let mut i: usize = 0;
        while i < list.len()
            invariant
                i <= list@.len(),
                *list == *self.overloads,
                overloads_in(list@, name@) == overloads_in(list@.skip(i as int), name@),
            decreases list@.len() - i,
        {
            assert(list@.skip(i as int)[0] == list@[i as int]);
            assert(list@.skip(i as int).skip(1) =~= list@.skip(i + 1));
            if same_text(list[i].name.as_str(), name) {
                return Some(&list[i].entries);
            }
            i += 1;
        }
        None
    }

    /// The overload that a declaration is, if it is one.
    pub fn entry_for_decl(&self, fun: &FunDecl) -> (r: Option<&'c OverloadEntry>)
        ensures
            match r {
                Some(e) => overload_of_decl(*self, *fun) == Some(*e),
                None => overload_of_decl(*self, *fun) is None,
            },
    {
        let list: &'c Vec<OverloadEntry> = match self.overloads_named(fun.name.as_str()) {
            Some(list) => list,
            None => {
                return None;
            },
        };
        assert(list@.skip(0) =~= list@);
        let mut i: usize = 0;
        while i < list.len()
            invariant
                i <= list@.len(),
                overloads_in(self.overloads@, fun.name@) == Some(list@),
                overload_at(list@, fun.span@) == overload_at(list@.skip(i as int), fun.span@),
            decreases list@.len() - i,
        {
            assert(list@.skip(i as int)[0] == list@[i as int]);
            assert(list@.skip(i as int).skip(1) =~= list@.skip(i + 1));
            if list[i].span.same(&fun.span) {
                return Some(&list[i]);
            }
            i += 1;
        }
        None
    }

    /// The type of a method of a named type, where it does not depend on type arguments.
    pub fn concrete_method_type(&self, owner: &str, method: &str) -> (r: Option<Type>)
        ensures
            opt_type(r) == concrete_method(*self, owner@, method@),
    {
        match self.registry.method_type(owner, method) {
            Some(ty) => {
                let applied: InferType = self.subst.apply(ty);
                infer_to_type(&applied)
            },
            None => None,
        }
    }
}

/// The definition of an overloaded function for exactly these argument types.
pub fn select_overload<'b>(list: &'b Vec<OverloadEntry>, args: &Vec<Type>) -> (r: Option<
    &'b OverloadEntry,
>)
    ensures
        match r {
            Some(e) => overload_for(list@, types_view(args@)) == Some(*e),
            None => overload_for(list@, types_view(args@)) is None,
        },
{
    assert(list@.skip(0) =~= list@);
    let mut i: usize = 0;
    while i < list.len()
        invariant
            i <= list@.len(),
            overload_for(list@, types_view(args@)) == overload_for(
                list@.skip(i as int),
                types_view(args@),
            ),
        decreases list@.len() - i,
    {
        assert(list@.skip(i as int)[0] == list@[i as int]);
        assert(list@.skip(i as int).skip(1) =~= list@.skip(i + 1));
        if crate::types::same_types(&list[i].params, args) {
            return Some(&list[i]);
        }
        i += 1;
    }
    None
}

} // verus!
