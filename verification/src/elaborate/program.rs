//! Elaboration of a whole module, and of a generic body for the types of one call.
use vstd::prelude::*;
use crate::ast::{Block, Decl, Param};
use crate::error::{MetelError, MetelErrorV};
use crate::infer::{infer_to_type, infer_type_view, infer_types_view, lowered};
use crate::infer::{named_infer_types_view, resolved, substituted, InferType, InferTypeV};
use crate::infer::{Substitution, TypeVar};
use crate::registry::{Additions, AspectInfo, FieldEntry, StructInfo, TypeDefinitionRegistry};
use crate::scheme::{after_fresh, infer_type_to_type, instantiate_with_renaming, lower};
use crate::scheme::{renaming, solve, unify, TypeScheme, TypeVarGenerator};
use crate::text::texts;
use crate::typed_ast::{TypedBlock, TypedDecl};
use crate::types::{type_view, types_view, Type, TypeV};
use super::calls::{collect_vars, collect_vars_all, vars_in, vars_in_all};
use super::construct::block_result;
use super::construct_decls::{decls_result, decls_so_far, locals_so_far};
use super::fields::fault;
use super::schemes::{shorter, solve_some, unify_some};
use super::state::{bound_params, hint_view, local_fields_view, local_structs_view, opt_type};
use super::state::{pushed, scopes_view, struct_scopes_view, symbol_of, vars_view, Elaborator};
use super::state::{Facts, LocalField, LocalFieldV, LocalStruct, LocalStructV, OverloadSet};
use super::state::{Refusal, Scope, SchemeEntry, ScopeV, StateV};
use super::steps::{block_step, decl_step, done, failed, hoisted_funs, Step};
use super::tree::{decl_tree, decl_trees, BindingT, BlockT, DeclT, FunT};

verus! {

/// The types of the first `k` fields of a struct.
pub open spec fn base_fields(
    m: Map<TypeVar, InferTypeV>,
    s: Seq<FieldEntry>,
    k: int,
) -> Result<Seq<LocalFieldV>, MetelErrorV>
    decreases k,
{
    if k <= 0 || k > s.len() {
        Ok(Seq::empty())
    } else {
        match base_fields(m, s, k - 1) {
            Err(f) => Err(f),
            Ok(before) => match lower(substituted(m, s[k - 1].ty@), s[k - 1].span@) {
                Err(f) => Err(f),
                Ok(ty) => Ok(
                    before.push(LocalFieldV { name: s[k - 1].name@, ty, span: s[k - 1].span@ }),
                ),
            },
        }
    }
}

/// The structs among the first `k` that have no type parameters.
pub open spec fn base_structs(
    m: Map<TypeVar, InferTypeV>,
    s: Seq<StructInfo>,
    k: int,
) -> Result<Seq<LocalStructV>, MetelErrorV>
    decreases k,
{
    if k <= 0 || k > s.len() {
        Ok(Seq::empty())
    } else {
        match base_structs(m, s, k - 1) {
            Err(f) => Err(f),
            Ok(before) => if s[k - 1].type_params is Some {
                Ok(before)
            } else {
                match base_fields(m, s[k - 1].fields@, s[k - 1].fields@.len() as int) {
                    Err(f) => Err(f),
                    Ok(fields) => Ok(before.push(LocalStructV { name: s[k - 1].name@, fields })),
                }
            },
        }
    }
}

/// The names among the first `k` schemes that have one type for every use.
pub open spec fn base_vars(
    m: Map<TypeVar, InferTypeV>,
    s: Seq<SchemeEntry>,
    k: int,
) -> Seq<(Seq<char>, TypeV)>
    decreases k,
{
    if k <= 0 || k > s.len() {
        Seq::empty()
    } else {
        let before = base_vars(m, s, k - 1);
        let t = substituted(m, s[k - 1].scheme.ty@);
        if s[k - 1].scheme.quantified_vars@.len() == 0 && resolved(t) {
            before.push((s[k - 1].name@, lowered(t)))
        } else {
            before
        }
    }
}

/// The state that an elaboration starts from.
pub open spec fn start_state(fx: Facts, next: u32) -> Result<StateV, MetelErrorV> {
    match base_structs(fx.subst@, fx.registry.structs@, fx.registry.structs@.len() as int) {
        Err(f) => Err(f),
        Ok(structs) => Ok(
            StateV {
                scopes: seq![
                    ScopeV {
                        vars: base_vars(fx.subst@, fx.schemes@, fx.schemes@.len() as int),
                        funs: Seq::empty(),
                    },
                ],
                structs: seq![structs],
                next,
                ret: None,
                brk: None,
                depth: 0,
                self_name: None,
            },
        ),
    }
}

/// How many methods the first `k` aspects declare.
pub open spec fn method_count(s: Seq<AspectInfo>, k: int) -> nat
    decreases k,
{
    if k <= 0 || k > s.len() {
        0
    } else {
        method_count(s, k - 1) + s[k - 1].methods@.len()
    }
}

/// How much deeper than there are methods default methods may nest.
pub const FURTHER_NESTING: usize = 16;

/// How deep default methods may nest. One that nests deeper than there are methods stands inside
/// itself, and nests for ever unless something further in is wrong. That is looked for a little
/// further.
pub open spec fn nesting_limit(reg: TypeDefinitionRegistry) -> usize {
    let n = method_count(reg.aspects@, reg.aspects@.len() as int) + FURTHER_NESTING;
    if n <= usize::MAX {
        n as usize
    } else {
        usize::MAX
    }
}

/// A declaration of a module with the identity that the name resolver gave it. An overload
/// already has one of its own.
pub open spec fn identified(fx: Facts, d: DeclT) -> DeclT {
    let module = texts(fx.module@);
    if fx.symbols is None {
        d
    } else {
        match d {
            DeclT::Fun(f) => if f.symbol_id is None {
                DeclT::Fun(FunT { def_id: symbol_of(fx, module, f.name), ..f })
            } else {
                d
            },
            DeclT::Let(b) => DeclT::Let(BindingT { def_id: symbol_of(fx, module, b.name), ..b }),
            DeclT::Mut(b) => DeclT::Mut(BindingT { def_id: symbol_of(fx, module, b.name), ..b }),
            _ => d,
        }
    }
}

/// The first `k` declarations of a module.
pub open spec fn module_step(fx: Facts, n: nat, s: Seq<Decl>, st: StateV, k: int) -> Step<
    Seq<DeclT>,
>
    decreases k,
{
    if k <= 0 || k > s.len() {
        done(Seq::empty(), st)
    } else {
        let before = module_step(fx, n, s, st, k - 1);
        match before.out {
            Err(_) => before,
            Ok(decls) => {
                let x = decl_step(fx, n, s[k - 1], before.st);
                match x.out {
                    Err(f) => failed(f, x.st),
                    Ok(d) => done(decls.push(identified(fx, d)), x.st),
                }
            },
        }
    }
}

/// A module: its functions are known before any of its declarations is looked at.
pub open spec fn elaborated_program(fx: Facts, next: u32, s: Seq<Decl>) -> Result<
    Seq<DeclT>,
    MetelErrorV,
> {
    match start_state(fx, next) {
        Err(f) => Err(f),
        Ok(st) => module_step(
            fx,
            nesting_limit(*fx.registry) as nat,
            s,
            hoisted_funs(s, st, s.len() as int),
            s.len() as int,
        ).out,
    }
}

/// What an unfinished list of structs has come to.
spec fn structs_so_far(v: Seq<LocalStruct>, f: Option<MetelError>) -> Result<
    Seq<LocalStructV>,
    MetelErrorV,
> {
    match f {
        Some(e) => Err(e@),
        None => Ok(local_structs_view(v)),
    }
}

fn concrete_fields(subst: &Substitution, s: &Vec<FieldEntry>) -> (r: Result<
    Vec<LocalField>,
    MetelError,
>)
    ensures
        match base_fields(subst@, s@, s@.len() as int) {
            Ok(f) => r matches Ok(x) && local_fields_view(x@) == f,
            Err(e) => r matches Err(x) && x@ == e,
        },
{
    let mut out: Vec<LocalField> = Vec::new();
    assert(local_fields_view(out@) =~= Seq::empty());
    let mut stopped: Option<MetelError> = None;
    let mut i: usize = 0;
    while i < s.len()
        invariant
            i <= s@.len(),
            base_fields(subst@, s@, i as int) == locals_so_far(out@, stopped),
        decreases s@.len() - i,
    {
        if stopped.is_none() {
            let ghost before = out@;
            let applied: InferType = subst.apply(&s[i].ty);
            match infer_type_to_type(&applied, &s[i].span) {
                Ok(ty) => {
                    let ghost t = ty@;
                    out.push(LocalField { name: s[i].name.clone(), ty, span: s[i].span.copy() });
                    assert(local_fields_view(out@) =~= local_fields_view(before).push(
                        LocalFieldV { name: s@[i as int].name@, ty: t, span: s@[i as int].span@ },
                    ));
                },
                Err(f) => {
                    stopped = Some(f);
                },
            }
        }
        i += 1;
    }
    match stopped {
        Some(f) => Err(f),
        None => Ok(out),
    }
}

/// The structs without type parameters, with the types of their fields.
pub fn build_concrete_struct_env(registry: &TypeDefinitionRegistry, subst: &Substitution) -> (r:
    Result<Vec<LocalStruct>, MetelError>)
    ensures
        match base_structs(subst@, registry.structs@, registry.structs@.len() as int) {
            Ok(s) => r matches Ok(x) && local_structs_view(x@) == s,
            Err(e) => r matches Err(x) && x@ == e,
        },
{
    let s: &Vec<StructInfo> = &registry.structs;
    let mut out: Vec<LocalStruct> = Vec::new();
    assert(local_structs_view(out@) =~= Seq::empty());
    let mut stopped: Option<MetelError> = None;
    let mut i: usize = 0;
    while i < s.len()
        invariant
            i <= s@.len(),
            base_structs(subst@, s@, i as int) == structs_so_far(out@, stopped),
        decreases s@.len() - i,
    {
        if stopped.is_none() && s[i].type_params.is_none() {
            let ghost before = out@;
            match concrete_fields(subst, &s[i].fields) {
                Ok(fields) => {
                    let ghost fs = local_fields_view(fields@);
                    out.push(LocalStruct { name: s[i].name.clone(), fields });
                    assert(local_structs_view(out@) =~= local_structs_view(before).push(
                        LocalStructV { name: s@[i as int].name@, fields: fs },
                    ));
                },
                Err(f) => {
                    stopped = Some(f);
                },
            }
        }
        i += 1;
    }
    match stopped {
        Some(f) => Err(f),
        None => Ok(out),
    }
}

fn concrete_vars(subst: &Substitution, s: &Vec<SchemeEntry>) -> (r: Vec<(String, Type)>)
    ensures
        vars_view(r@) == base_vars(subst@, s@, s@.len() as int),
{
    let mut out: Vec<(String, Type)> = Vec::new();
    assert(vars_view(out@) =~= Seq::empty());
    let mut i: usize = 0;
    while i < s.len()
        invariant
            i <= s@.len(),
            vars_view(out@) == base_vars(subst@, s@, i as int),
        decreases s@.len() - i,
    {
        if s[i].scheme.quantified_vars.len() == 0 {
            let applied: InferType = subst.apply(&s[i].scheme.ty);
            if let Some(ty) = infer_to_type(&applied) {
                let ghost before = out@;
                let ghost t = ty@;
                out.push((s[i].name.clone(), ty));
                assert(vars_view(out@) =~= vars_view(before).push((s@[i as int].name@, t)));
            }
        }
        i += 1;
    }
    out
}

fn limit_nesting(registry: &TypeDefinitionRegistry) -> (r: usize)
    ensures
        r == nesting_limit(*registry),
{
    let s: &Vec<AspectInfo> = &registry.aspects;
    let mut n: usize = 0;
    let mut i: usize = 0;
    while i < s.len()
        invariant
            i <= s@.len(),
            n == (if method_count(s@, i as int) <= usize::MAX {
                method_count(s@, i as int)
            } else {
                usize::MAX as nat
            }),
        decreases s@.len() - i,
    {
        n = n.saturating_add(s[i].methods.len());
        i += 1;
    }
    n.saturating_add(FURTHER_NESTING)
}

impl<'a, 'c> Elaborator<'a, 'c> {
    /// An elaboration before its first declaration.
    pub fn new(fx: Facts<'a, 'c>, next: u32) -> (r: Result<Self, MetelError>)
        ensures
            match start_state(fx, next) {
                Ok(st) => r matches Ok(x) && x.st() == st && x.fx == fx && x.budget
                    == nesting_limit(*fx.registry),
                Err(e) => r matches Err(x) && x@ == e,
            },
    {
        let structs: Vec<LocalStruct> = match build_concrete_struct_env(fx.registry, fx.subst) {
            Ok(s) => s,
            Err(f) => {
                return Err(f);
            },
        };
        let vars: Vec<(String, Type)> = concrete_vars(fx.subst, fx.schemes);
        let budget: usize = limit_nesting(fx.registry);
        let ghost sv = local_structs_view(structs@);
        let ghost vv = vars_view(vars@);
        let mut scopes: Vec<Scope<'a>> = Vec::new();
        scopes.push(Scope { vars, funs: Vec::new() });
        assert(scopes_view(scopes@)[0].funs =~= Seq::empty());
        assert(scopes_view(scopes@) =~= seq![ScopeV { vars: vv, funs: Seq::empty() }]);
        let mut open: Vec<Vec<LocalStruct>> = Vec::new();
        open.push(structs);
        assert(struct_scopes_view(open@) =~= seq![sv]);
        Ok(
            Elaborator {
                fx,
                scopes,
                structs: open,
                gen: TypeVarGenerator::with_counter(next),
                return_ty: None,
                break_ty: None,
                loop_depth: 0,
                self_name: None,
                budget,
            },
        )
    }

    fn identify(&self, d: TypedDecl<'a>) -> (r: TypedDecl<'a>)
        ensures
            decl_tree(r) == identified(self.fx, decl_tree(d)),
    {
        if self.fx.symbols.is_none() {
            return d;
        }
        match d {
            TypedDecl::Fun(f) => {
                let mut f = f;
                if f.symbol_id.is_none() {
                    f.def_id = self.fx.symbol(self.fx.module, f.name.as_str());
                }
                TypedDecl::Fun(f)
            },
            TypedDecl::Let(b) => {
                let mut b = b;
                b.def_id = self.fx.symbol(self.fx.module, b.name.as_str());
                TypedDecl::Let(b)
            },
            TypedDecl::Mut(b) => {
                let mut b = b;
                b.def_id = self.fx.symbol(self.fx.module, b.name.as_str());
                TypedDecl::Mut(b)
            },
            d => d,
        }
    }

    fn construct_module(&mut self, v: &'a Vec<Decl>) -> (r: Result<Vec<TypedDecl<'a>>, MetelError>)
        ensures
            module_step(
                old(self).fx,
                old(self).budget as nat,
                v@,
                old(self).st(),
                v@.len() as int,
            ).out == decls_result(r),
    {
        let ghost start = self.st();
        let mut out: Vec<TypedDecl<'a>> = Vec::new();
        assert(decl_trees(out@) =~= Seq::empty());
        let mut stopped: Option<MetelError> = None;
        let mut i: usize = 0;
        while i < v.len()
            invariant
                i <= v@.len(),
                self.fx == old(self).fx,
                self.budget == old(self).budget,
                module_step(self.fx, self.budget as nat, v@, start, i as int) == (Step {
                    out: decls_so_far(out@, stopped),
                    st: self.st(),
                }),
            decreases v@.len() - i,
        {
            if stopped.is_none() {
                let ghost before = out@;
                match self.construct_decl(&v[i]) {
                    Ok(d) => {
                        let d: TypedDecl<'a> = self.identify(d);
                        out.push(d);
                        assert(decl_trees(out@) =~= decl_trees(before).push(decl_tree(d)));
                    },
                    Err(f) => {
                        stopped = Some(f);
                    },
                }
            }
            i += 1;
        }
        match stopped {
            Some(f) => Err(f),
            None => Ok(out),
        }
    }
}

/// Elaborate a module. `next` is where the supply of type variables goes on.
pub fn construct_program<'a>(fx: Facts<'a, '_>, decls: &'a Vec<Decl>, next: u32) -> (r: Result<
    Vec<TypedDecl<'a>>,
    MetelError,
>)
    ensures
        decls_result(r) == elaborated_program(fx, next, decls@),
{
    let mut elaborator: Elaborator<'a, '_> = match Elaborator::new(fx, next) {
        Ok(x) => x,
        Err(f) => {
            return Err(f);
        },
    };
    elaborator.hoist_funs(decls);
    elaborator.construct_module(decls)
}

/// Where the type variables of a generic body start, clear of those of the declarations.
pub const BODY_VARS: u32 = 1_000_000;

/// What a generic body is elaborated with.
pub struct GenericContext {
    pub subst: Substitution,
    /// The type parameters and what stands for them.
    pub generics: Vec<(String, InferType)>,
    pub params: Vec<Type>,
    pub ret: Option<Type>,
    pub next: u32,
    pub overloads: Vec<OverloadSet>,
    pub module: Vec<String>,
    /// The impls whose targets cannot be registered.
    pub refusals: Vec<Refusal>,
}

/// A [`GenericContext`] as a mathematical object.
pub ghost struct GenericContextV {
    pub subst: Map<TypeVar, InferTypeV>,
    pub generics: Seq<(Seq<char>, InferTypeV)>,
    pub params: Seq<TypeV>,
    pub ret: Option<TypeV>,
    pub next: u32,
}

impl View for GenericContext {
    type V = GenericContextV;

    open spec fn view(&self) -> GenericContextV {
        GenericContextV {
            subst: self.subst@,
            generics: named_infer_types_view(self.generics@),
            params: types_view(self.params@),
            ret: opt_type(self.ret),
            next: self.next,
        }
    }
}

/// `!` for those of the first `n` variables that nothing is known of.
pub open spec fn filled(m: Map<TypeVar, InferTypeV>, s: Seq<TypeVar>, n: int) -> Map<
    TypeVar,
    InferTypeV,
>
    decreases n,
{
    if n <= 0 || n > s.len() {
        m
    } else {
        let before = filled(m, s, n - 1);
        if before.dom().contains(s[n - 1]) {
            before
        } else {
            before.insert(s[n - 1], InferTypeV::Never)
        }
    }
}

/// The type parameters of a scheme and the variables that stand for them, last one first.
pub open spec fn param_vars(scheme: TypeScheme, ren: Map<TypeVar, InferTypeV>) -> Seq<
    (Seq<char>, InferTypeV),
> {
    let n = shorter(scheme.quantified_vars@.len(), scheme.param_names@.len());
    Seq::new(
        n as nat,
        |i: int| (scheme.param_names@[n - 1 - i]@, ren[scheme.quantified_vars@[n - 1 - i]]),
    )
}

/// A type, with `()` where variables are left in it.
pub open spec fn lowered_or_unit(t: InferTypeV) -> TypeV {
    if resolved(t) {
        lowered(t)
    } else {
        TypeV::Unit
    }
}

/// What a generic body is elaborated with, for arguments of these types and, where it is known,
/// the type that its result is expected to have. An argument that a parameter cannot accept says
/// nothing about the type parameters.
pub open spec fn context_of(scheme: TypeScheme, args: Seq<TypeV>, expected: Option<TypeV>) -> Result<
    GenericContextV,
    MetelErrorV,
> {
    let n = scheme.quantified_vars@.len() as int;
    let ren = renaming(scheme.quantified_vars@, BODY_VARS, n);
    match substituted(ren, scheme.ty@) {
        InferTypeV::Fun(params, ret) => {
            let m1 = solve_some(Map::empty(), params, args, shorter(params.len(), args.len()));
            let m2 = match expected {
                Some(t) => match solve(m1, *ret, t) {
                    Some(m) => m,
                    None => m1,
                },
                None => m1,
            };
            let vars = vars_in(*ret, vars_in_all(params, Seq::empty()));
            let m3 = filled(m2, vars, vars.len() as int);
            Ok(
                GenericContextV {
                    subst: m3,
                    generics: param_vars(scheme, ren),
                    params: Seq::new(
                        params.len(),
                        |i: int| lowered_or_unit(substituted(m3, params[i])),
                    ),
                    ret: if resolved(substituted(m3, *ret)) {
                        Some(lowered(substituted(m3, *ret)))
                    } else {
                        None
                    },
                    next: after_fresh(BODY_VARS, n),
                },
            )
        },
        _ => Err(fault("construct_generic_body: scheme is not a function type"@)),
    }
}

fn fill(subst: &mut Substitution, vars: &Vec<TypeVar>)
    ensures
        final(subst)@ == filled(old(subst)@, vars@, vars@.len() as int),
{
    let ghost start = subst@;
    let mut i: usize = 0;
    while i < vars.len()
        invariant
            i <= vars@.len(),
            subst@ == filled(start, vars@, i as int),
        decreases vars@.len() - i,
    {
        if subst.lookup(vars[i]).is_none() {
            subst.bind(vars[i], InferType::Never);
        }
        i += 1;
    }
}

proof fn lemma_renaming_covers(q: Seq<TypeVar>, next: u32, n: int, k: int)
    requires
        0 <= k < n <= q.len(),
    ensures
        renaming(q, next, n).dom().contains(q[k]),
    decreases n,
{
    if k < n - 1 {
        lemma_renaming_covers(q, next, n - 1, k);
    }
}

fn name_params(scheme: &TypeScheme, ren: &Substitution) -> (r: Vec<(String, InferType)>)
    requires
        ren@ == renaming(
            scheme.quantified_vars@,
            BODY_VARS,
            scheme.quantified_vars@.len() as int,
        ),
    ensures
        named_infer_types_view(r@) == param_vars(*scheme, ren@),
{
    let n: usize = if scheme.quantified_vars.len() <= scheme.param_names.len() {
        scheme.quantified_vars.len()
    } else {
        scheme.param_names.len()
    };
    let ghost whole = param_vars(*scheme, ren@);
    let mut out: Vec<(String, InferType)> = Vec::new();
    let mut i: usize = n;
    while i > 0
        invariant
            i <= n,
            n == shorter(scheme.quantified_vars@.len(), scheme.param_names@.len()),
            whole == param_vars(*scheme, ren@),
            out@.len() == n - i,
            ren@ == renaming(
                scheme.quantified_vars@,
                BODY_VARS,
                scheme.quantified_vars@.len() as int,
            ),
            forall|k: int|
                0 <= k < n - i ==> (out@[k].0@, infer_type_view((#[trigger] out@[k]).1))
                    == whole[k],
        decreases i,
    {
        i -= 1;
        proof {
            lemma_renaming_covers(
                scheme.quantified_vars@,
                BODY_VARS,
                scheme.quantified_vars@.len() as int,
                i as int,
            );
        }
        if let Some(ty) = ren.lookup(scheme.quantified_vars[i]) {
            let ghost k = n - 1 - i;
            out.push((scheme.param_names[i].clone(), ty.copy()));
            assert(whole[k] == (scheme.param_names@[n - 1 - k]@, ren@[scheme.quantified_vars@[n - 1
                - k]]));
        }
    }
    assert(named_infer_types_view(out@).len() == out@.len());
    assert(named_infer_types_view(out@) =~= whole);
    out
}

fn param_types(subst: &Substitution, params: &Vec<InferType>) -> (r: Vec<Type>)
    ensures
        types_view(r@) == Seq::new(
            infer_types_view(params@).len(),
            |i: int| lowered_or_unit(substituted(subst@, infer_types_view(params@)[i])),
        ),
{
    let ghost ps = infer_types_view(params@);
    assert(ps.len() == params@.len());
    let mut out: Vec<Type> = Vec::new();
    let mut i: usize = 0;
    while i < params.len()
        invariant
            i <= params@.len(),
            ps == infer_types_view(params@),
            ps.len() == params@.len(),
            out@.len() == i,
            forall|k: int|
                0 <= k < i ==> type_view(#[trigger] out@[k]) == lowered_or_unit(
                    substituted(subst@, ps[k]),
                ),
        decreases params@.len() - i,
    {
        assert(ps[i as int] == infer_type_view(params@[i as int]));
        let applied: InferType = subst.apply(&params[i]);
        let ty: Type = match infer_to_type(&applied) {
            Some(t) => t,
            None => Type::Unit,
        };
        out.push(ty);
        i += 1;
    }
    assert(types_view(out@).len() == out@.len());
    assert(types_view(out@) =~= Seq::new(
        ps.len(),
        |i: int| lowered_or_unit(substituted(subst@, ps[i])),
    ));
    out
}

impl GenericContext {
    /// What a generic body is elaborated with, for arguments of these types and, where it is
    /// known, the type that its result is expected to have.
    pub fn for_call(scheme: &TypeScheme, args: &Vec<Type>, expected: Option<&Type>) -> (r: Result<
        Self,
        MetelError,
    >)
        ensures
            match context_of(*scheme, types_view(args@), hint_view(expected)) {
                Ok(c) => r matches Ok(x) && x@ == c && x.overloads@.len() == 0 && x.module@.len()
                    == 0 && x.refusals@.len() == 0,
                Err(e) => r matches Err(x) && x@ == e,
            },
    {
        let mut gen: TypeVarGenerator = TypeVarGenerator::with_counter(BODY_VARS);
        let (instance, ren) = instantiate_with_renaming(scheme, &mut gen);
        let (params, ret): (Vec<InferType>, Box<InferType>) = match instance {
            InferType::Fun(params, ret) => (params, ret),
            _ => {
                return Err(
                    MetelError::internal(
                        "construct_generic_body: scheme is not a function type".to_owned(),
                    ),
                );
            },
        };
        let mut subst: Substitution = Substitution::new();
        assert(subst@ =~= Map::empty());
        unify_some(&mut subst, &params, args);
        if let Some(t) = expected {
            let mut trial: Substitution = subst.copy();
            if unify(&mut trial, &ret, t) {
                subst = trial;
            }
        }
        let mut vars: Vec<TypeVar> = Vec::new();
        assert(vars@ =~= Seq::empty());
        collect_vars_all(&params, &mut vars);
        collect_vars(&ret, &mut vars);
        fill(&mut subst, &vars);
        let generics: Vec<(String, InferType)> = name_params(scheme, &ren);
        let types: Vec<Type> = param_types(&subst, &params);
        let applied: InferType = subst.apply(&ret);
        let ret_ty: Option<Type> = infer_to_type(&applied);
        Ok(
            GenericContext {
                subst,
                generics,
                params: types,
                ret: ret_ty,
                next: gen.next,
                overloads: Vec::new(),
                module: Vec::new(),
                refusals: Vec::new(),
            },
        )
    }
}

/// What is fixed while a generic body is elaborated: no name in it is resolved beforehand.
pub open spec fn body_facts<'a, 'c>(
    cx: &'c GenericContext,
    schemes: &'c Vec<SchemeEntry>,
    registry: &'a TypeDefinitionRegistry,
    extra: &'c Additions,
) -> Facts<'a, 'c> {
    Facts {
        subst: &cx.subst,
        schemes,
        registry,
        symbols: None,
        overloads: &cx.overloads,
        module: &cx.module,
        references: None,
        closure_returns: None,
        refusals: Some(&cx.refusals),
        generics: &cx.generics,
        extra,
    }
}

/// A generic body, elaborated for the types of one call.
pub open spec fn elaborated_body(fx: Facts, cx: GenericContextV, params: Seq<Param>, body: Block) -> Result<
    BlockT,
    MetelErrorV,
> {
    match start_state(fx, cx.next) {
        Err(f) => Err(f),
        Ok(st) => {
            let inner = bound_params(
                pushed(st),
                params,
                cx.params,
                shorter(params.len(), cx.params.len()),
            );
            block_step(
                fx,
                nesting_limit(*fx.registry) as nat,
                body,
                cx.ret,
                StateV { ret: cx.ret, ..inner },
            ).out
        },
    }
}

/// Elaborate a generic body for the types of one call.
pub fn construct_generic_body<'a, 'c>(
    cx: &'c GenericContext,
    schemes: &'c Vec<SchemeEntry>,
    registry: &'a TypeDefinitionRegistry,
    extra: &'c Additions,
    params: &'a Vec<Param>,
    body: &'a Block,
) -> (r: Result<TypedBlock<'a>, MetelError>)
    ensures
        block_result(r) == elaborated_body(
            body_facts(cx, schemes, registry, extra),
            cx@,
            params@,
            *body,
        ),
{
    let fx = Facts {
        subst: &cx.subst,
        schemes,
        registry,
        symbols: None,
        overloads: &cx.overloads,
        module: &cx.module,
        references: None,
        closure_returns: None,
        refusals: Some(&cx.refusals),
        generics: &cx.generics,
        extra,
    };
    let mut elaborator: Elaborator<'a, 'c> = match Elaborator::new(fx, cx.next) {
        Ok(x) => x,
        Err(f) => {
            return Err(f);
        },
    };
    elaborator.push_scope();
    elaborator.bind_params(params, &cx.params);
    elaborator.return_ty = super::construct::copy_opt_type(&cx.ret);
    let hint: Option<&Type> = match &cx.ret {
        Some(t) => Some(t),
        None => None,
    };
    elaborator.construct_block(body, hint)
}

} // verus!
