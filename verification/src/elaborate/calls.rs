//! Which function or method a call means, and at which types.
use vstd::prelude::*;
use crate::ast::Expr;
use crate::error::{type_failure, MetelError, MetelErrorV, TypeErrorCode};
use crate::infer::{infer_to_type, infer_type_view, infer_types_view, lowered, resolved};
use crate::infer::{named_infer_types_view, substituted, InferType, InferTypeV, Substitution};
use crate::infer::TypeVar;
use crate::registry::{aspect_of, MethodCandidate};
use crate::scheme::{after_fresh, infer_type_to_type, lower, TypeScheme};
use crate::span::{Span, SpanV};
use crate::text::{decimal, decimal_text, joined, joined5, texts};
use crate::typed_ast::MethodDispatch;
use crate::types::{type_list_text, type_view, types_view, Type, TypeV};
use super::literals::site;
use super::schemes::{assoc_len, bind_vars, bound_vars, call_instance, check_choices};
use super::schemes::{check_scheme_assoc_eq, check_scheme_bounds, choice_error, choices_view};
use super::schemes::{instantiate_scheme_for_call, instantiate_scheme_with_turbofish};
use super::schemes::{scheme_assoc_error, scheme_error, shorter, solve_some, turbofish_instance};
use super::schemes::unify_some;
use super::state::{hint_view, opt_type, symbol_of, var_of, Elaborator, Facts, OverloadEntry};
use super::state::StateV;
use super::tree::type_result;

verus! {

/// A variable put in its place in a strictly increasing sequence.
pub open spec fn with_var(s: Seq<TypeVar>, v: TypeVar) -> Seq<TypeVar>
    decreases s.len(),
{
    if s.len() == 0 {
        seq![v]
    } else if s.last() == v {
        s
    } else if s.last().0 < v.0 {
        s.push(v)
    } else {
        with_var(s.drop_last(), v).push(s.last())
    }
}

/// The variables that occur in a type, in increasing order, together with those of `acc`.
pub open spec fn vars_in(t: InferTypeV, acc: Seq<TypeVar>) -> Seq<TypeVar>
    decreases t,
{
    match t {
        InferTypeV::Var(v) => with_var(acc, v),
        InferTypeV::Concrete(_) => acc,
        InferTypeV::Never => acc,
        InferTypeV::Tuple(s) => vars_in_all(s, acc),
        InferTypeV::Record(s) => vars_in_fields(s, acc),
        InferTypeV::Array(x) => vars_in(*x, acc),
        InferTypeV::SizedArray(x, _) => vars_in(*x, acc),
        InferTypeV::Reference(x) => vars_in(*x, acc),
        InferTypeV::MutReference(x) => vars_in(*x, acc),
        InferTypeV::Fun(s, x) => vars_in(*x, vars_in_all(s, acc)),
        InferTypeV::Named(_, s) => vars_in_all(s, acc),
    }
}

/// [`vars_in`] for types.
pub open spec fn vars_in_all(s: Seq<InferTypeV>, acc: Seq<TypeVar>) -> Seq<TypeVar>
    decreases s,
{
    if s.len() == 0 {
        acc
    } else {
        let i = s.len() - 1;
        vars_in(s[i], vars_in_all(s.subrange(0, i), acc))
    }
}

/// [`vars_in`] for the types of fields.
pub open spec fn vars_in_fields(s: Seq<(Seq<char>, InferTypeV)>, acc: Seq<TypeVar>) -> Seq<TypeVar>
    decreases s,
{
    if s.len() == 0 {
        acc
    } else {
        let i = s.len() - 1;
        vars_in(s[i].1, vars_in_fields(s.subrange(0, i), acc))
    }
}

/// The variables of a sequence that do not stand for type arguments of the receiver, the first
/// `n` of them looked at.
pub open spec fn own_of(s: Seq<TypeVar>, struct_vars: Seq<TypeVar>, n: int) -> Seq<TypeVar>
    decreases n,
{
    if n <= 0 || n > s.len() {
        Seq::empty()
    } else if struct_vars.contains(s[n - 1]) {
        own_of(s, struct_vars, n - 1)
    } else {
        own_of(s, struct_vars, n - 1).push(s[n - 1])
    }
}

/// The type parameters that a method has of its own, in increasing order.
pub open spec fn method_vars(t: InferTypeV, struct_vars: Seq<TypeVar>) -> Seq<TypeVar> {
    let s = vars_in(t, Seq::empty());
    own_of(s, struct_vars, s.len() as int)
}

fn add_var(s: &mut Vec<TypeVar>, v: TypeVar)
    ensures
        final(s)@ == with_var(old(s)@, v),
    decreases old(s)@.len(),
{
    let ghost before = s@;
    if s.len() == 0 {
        s.push(v);
        assert(s@ =~= seq![v]);
        return;
    }
    let last: TypeVar = s[s.len() - 1];
    if last == v {
        return;
    }
    if last.0 < v.0 {
        s.push(v);
        return;
    }
    let _ = s.pop();
    assert(s@ =~= before.drop_last());
    add_var(s, v);
    s.push(last);
}

pub fn collect_vars(t: &InferType, acc: &mut Vec<TypeVar>)
    ensures
        final(acc)@ == vars_in(t@, old(acc)@),
    decreases *t,
{
    match t {
        InferType::Var(v) => add_var(acc, *v),
        InferType::Concrete(_) => {},
        InferType::Never => {},
        InferType::Tuple(s) => collect_vars_all(s, acc),
        InferType::Record(s) => collect_vars_fields(s, acc),
        InferType::Array(x) => collect_vars(x, acc),
        InferType::SizedArray(x, _) => collect_vars(x, acc),
        InferType::Reference(x) => collect_vars(x, acc),
        InferType::MutReference(x) => collect_vars(x, acc),
        InferType::Fun(s, x) => {
            collect_vars_all(s, acc);
            collect_vars(x, acc)
        },
        InferType::Named(_, s) => collect_vars_all(s, acc),
    }
}

pub fn collect_vars_all(v: &Vec<InferType>, acc: &mut Vec<TypeVar>)
    ensures
        final(acc)@ == vars_in_all(infer_types_view(v@), old(acc)@),
    decreases v@,
{
    let ghost s = infer_types_view(v@);
    let ghost start = acc@;
    assert(s.len() == v@.len());
    let mut i: usize = 0;
    while i < v.len()
        invariant
            i <= v@.len(),
            s == infer_types_view(v@),
            s.len() == v@.len(),
            acc@ == vars_in_all(s.subrange(0, i as int), start),
        decreases v@.len() - i,
    {
        let ghost after = s.subrange(0, i + 1);
        assert(after.subrange(0, after.len() - 1) =~= s.subrange(0, i as int));
        assert(s[i as int] == infer_type_view(v@[i as int]));
        collect_vars(&v[i], acc);
        i += 1;
    }
    assert(s.subrange(0, i as int) =~= s);
}

fn collect_vars_fields(v: &Vec<(String, InferType)>, acc: &mut Vec<TypeVar>)
    ensures
        final(acc)@ == vars_in_fields(named_infer_types_view(v@), old(acc)@),
    decreases v@,
{
    let ghost s = named_infer_types_view(v@);
    let ghost start = acc@;
    assert(s.len() == v@.len());
    let mut i: usize = 0;
    while i < v.len()
        invariant
            i <= v@.len(),
            s == named_infer_types_view(v@),
            s.len() == v@.len(),
            acc@ == vars_in_fields(s.subrange(0, i as int), start),
        decreases v@.len() - i,
    {
        let ghost after = s.subrange(0, i + 1);
        assert(after.subrange(0, after.len() - 1) =~= s.subrange(0, i as int));
        assert(s[i as int] == (v@[i as int].0@, infer_type_view(v@[i as int].1)));
        collect_vars(&v[i].1, acc);
        i += 1;
    }
    assert(s.subrange(0, i as int) =~= s);
}

fn holds_var(s: &Vec<TypeVar>, v: TypeVar) -> (r: bool)
    ensures
        r == s@.contains(v),
{
    let mut i: usize = 0;
    while i < s.len()
        invariant
            i <= s@.len(),
            forall|k: int| 0 <= k < i ==> s@[k] != v,
        decreases s@.len() - i,
    {
        if s[i] == v {
            return true;
        }
        i += 1;
    }
    false
}

fn own_vars_of(t: &InferType, struct_vars: &Vec<TypeVar>) -> (r: Vec<TypeVar>)
    ensures
        r@ == method_vars(t@, struct_vars@),
{
    let mut all: Vec<TypeVar> = Vec::new();
    collect_vars(t, &mut all);
    let mut out: Vec<TypeVar> = Vec::new();
    let mut i: usize = 0;
    while i < all.len()
        invariant
            i <= all@.len(),
            out@ == own_of(all@, struct_vars@, i as int),
        decreases all@.len() - i,
    {
        if !holds_var(struct_vars, all[i]) {
            out.push(all[i]);
        }
        i += 1;
    }
    out
}

/// What is known of the type parameters of a method before its arguments are looked at: the type
/// arguments of the receiver, and those that are written out.
pub open spec fn method_bindings(
    c: MethodCandidate,
    targs: Seq<TypeV>,
    explicit: Option<Seq<TypeV>>,
    span: SpanV,
) -> Result<Map<TypeVar, InferTypeV>, MetelErrorV> {
    let m = bound_vars(
        Map::empty(),
        c.struct_vars@,
        targs,
        shorter(c.struct_vars@.len(), targs.len()),
    );
    match explicit {
        None => Ok(m),
        Some(types) => {
            let own = method_vars(c.scheme.ty@, c.struct_vars@);
            if types.len() != own.len() {
                Err(
                    type_failure(
                        TypeErrorCode::T0004,
                        "expected "@ + decimal(own.len()) + " type argument(s), got "@ + decimal(
                            types.len(),
                        ),
                        span,
                    ),
                )
            } else {
                Ok(bound_vars(m, own, types, shorter(own.len(), types.len())))
            }
        },
    }
}

/// What is known of the type parameters of a method before its arguments are looked at.
pub fn bind_method(
    c: &MethodCandidate,
    targs: &Vec<Type>,
    explicit: Option<&Vec<Type>>,
    span: &Span,
) -> (r: Result<Substitution, MetelError>)
    ensures
        match method_bindings(
            *c,
            types_view(targs@),
            match explicit {
                Some(v) => Some(types_view(v@)),
                None => None,
            },
            span@,
        ) {
            Ok(m) => r matches Ok(s) && s@ == m,
            Err(e) => r matches Err(x) && x@ == e,
        },
{
    let mut subst: Substitution = Substitution::new();
    bind_vars(&mut subst, &c.struct_vars, targs);
    if let Some(types) = explicit {
        let own: Vec<TypeVar> = own_vars_of(&c.scheme.ty, &c.struct_vars);
        assert(types_view(types@).len() == types@.len());
        if types.len() != own.len() {
            let mut out: String = joined("expected ", decimal_text(own.len() as u64).as_str());
            out.append(" type argument(s), got ");
            out.append(decimal_text(types.len() as u64).as_str());
            return Err(MetelError::type_error(TypeErrorCode::T0004, out, span));
        }
        bind_vars(&mut subst, &own, types);
    }
    Ok(subst)
}

/// The type that an argument of a method is expected to have, where it is known. The receiver is
/// the first parameter.
pub open spec fn method_hint(m: Map<TypeVar, InferTypeV>, params: Seq<InferTypeV>, i: int) -> Option<
    TypeV,
> {
    if 0 <= i && i + 1 < params.len() {
        let t = substituted(m, params[i + 1]);
        if resolved(t) {
            Some(lowered(t))
        } else {
            None
        }
    } else {
        None
    }
}

/// The types that the arguments of a method are expected to have.
pub open spec fn method_hints(m: Map<TypeVar, InferTypeV>, params: Seq<InferTypeV>, n: nat) -> Seq<
    Option<TypeV>,
> {
    Seq::new(n, |i: int| method_hint(m, params, i))
}

/// Hints as mathematical objects.
pub open spec fn hints_view(s: Seq<Option<Type>>) -> Seq<Option<TypeV>> {
    Seq::new(s.len(), |i: int| opt_type(s[i]))
}

/// The types that the arguments of a method are expected to have.
pub fn hint_method(subst: &Substitution, params: &Vec<InferType>, n: usize) -> (r: Vec<Option<Type>>)
    ensures
        hints_view(r@) == method_hints(subst@, infer_types_view(params@), n as nat),
{
    let ghost ps = infer_types_view(params@);
    assert(ps.len() == params@.len());
    let mut out: Vec<Option<Type>> = Vec::new();
    let mut i: usize = 0;
    while i < n
        invariant
            i <= n,
            out@.len() == i,
            ps == infer_types_view(params@),
            ps.len() == params@.len(),
            forall|k: int| 0 <= k < i ==> opt_type(#[trigger] out@[k]) == method_hint(subst@, ps, k),
        decreases n - i,
    {
        if params.len() > 0 && i < params.len() - 1 {
            assert(ps[i + 1] == infer_type_view(params@[i + 1]));
            out.push(infer_to_type(&subst.apply(&params[i + 1])));
        } else {
            out.push(None);
        }
        i += 1;
    }
    assert(hints_view(out@) =~= method_hints(subst@, ps, n as nat));
    out
}

/// The types that a method's variables have come to stand for, the first `n` of them.
pub open spec fn method_choices(q: Seq<TypeVar>, m: Map<TypeVar, InferTypeV>, n: int) -> Seq<
    (TypeVar, TypeV),
>
    decreases n,
{
    if n <= 0 || n > q.len() {
        Seq::empty()
    } else {
        let before = method_choices(q, m, n - 1);
        let t = substituted(m, InferTypeV::Var(q[n - 1]));
        if resolved(t) {
            before.push((q[n - 1], lowered(t)))
        } else {
            before
        }
    }
}

/// The type of a method for the arguments of a call, the receiver first.
pub open spec fn method_instance(
    fx: Facts,
    scheme: TypeScheme,
    m: Map<TypeVar, InferTypeV>,
    params: Seq<InferTypeV>,
    args: Seq<TypeV>,
    method: Seq<char>,
    span: SpanV,
) -> Result<TypeV, MetelErrorV> {
    let rest = if params.len() == 0 {
        params
    } else {
        params.skip(1)
    };
    let m2 = solve_some(m, rest, args, shorter(rest.len(), args.len()));
    let q = scheme.quantified_vars@;
    let vars = method_choices(q, m2, q.len() as int);
    let at = site(fx, span);
    match scheme_error(at, method, scheme, vars, false, q.len() as int) {
        Some(e) => Err(e),
        None => match scheme_error(at, method, scheme, vars, true, q.len() as int) {
            Some(e) => Err(e),
            None => match scheme_assoc_error(at, scheme, vars, assoc_len(scheme)) {
                Some(e) => Err(e),
                None => lower(substituted(m2, scheme.ty@), span),
            },
        },
    }
}

fn collect_method_choices(q: &Vec<TypeVar>, subst: &Substitution) -> (r: Vec<(TypeVar, Type)>)
    ensures
        choices_view(r@) == method_choices(q@, subst@, q@.len() as int),
{
    let mut out: Vec<(TypeVar, Type)> = Vec::new();
    assert(choices_view(out@) =~= Seq::empty());
    let mut i: usize = 0;
    while i < q.len()
        invariant
            i <= q@.len(),
            choices_view(out@) == method_choices(q@, subst@, i as int),
        decreases q@.len() - i,
    {
        let ghost before = out@;
        if let Some(t) = infer_to_type(&subst.apply(&InferType::Var(q[i]))) {
            out.push((q[i], t));
            assert(choices_view(out@) =~= choices_view(before).push((q@[i as int], t@)));
        }
        i += 1;
    }
    out
}

/// The type of a method for the arguments of a call, the receiver first.
pub fn instantiate_method(
    fx: &Facts,
    scheme: &TypeScheme,
    subst: Substitution,
    params: Vec<InferType>,
    args: &Vec<Type>,
    method: &str,
    span: &Span,
) -> (r: Result<Type, MetelError>)
    ensures
        type_result(r) == method_instance(
            *fx,
            *scheme,
            subst@,
            infer_types_view(params@),
            types_view(args@),
            method@,
            span@,
        ),
{
    let ghost ps = infer_types_view(params@);
    assert(ps.len() == params@.len());
    let mut rest: Vec<InferType> = params;
    if rest.len() > 0 {
        let _ = rest.remove(0);
        assert(infer_types_view(rest@) =~= ps.skip(1));
    }
    let mut subst: Substitution = subst;
    unify_some(&mut subst, &rest, args);
    let vars: Vec<(TypeVar, Type)> = collect_method_choices(&scheme.quantified_vars, &subst);
    if let Some(e) = check_scheme_bounds(
        fx.registry,
        &fx.extra.impls,
        fx.module,
        span,
        method,
        scheme,
        &vars,
        false,
    ) {
        return Err(e);
    }
    if let Some(e) = check_scheme_bounds(fx.registry, &fx.extra.impls, fx.module, span, method, scheme, &vars, true) {
        return Err(e);
    }
    if let Some(e) = check_scheme_assoc_eq(fx.registry, &fx.extra.impls, fx.module, span, scheme, &vars) {
        return Err(e);
    }
    infer_type_to_type(&subst.apply(&scheme.ty), span)
}

/// The symbol of an aspect.
pub open spec fn aspect_symbol(fx: Facts, name: Seq<char>) -> Option<crate::ast::SymbolId> {
    match aspect_of(*fx.registry, name) {
        Some(info) => symbol_of(fx, texts(info.declaring_module@), name),
        None => None,
    }
}

/// The symbol of an aspect.
pub fn resolve_aspect_id(fx: &Facts, name: &str) -> (r: Option<crate::ast::SymbolId>)
    ensures
        r == aspect_symbol(*fx, name@),
{
    match fx.registry.aspect_info(name) {
        Some(info) => fx.symbol(&info.declaring_module, name),
        None => None,
    }
}

/// How a call of a method that was chosen among several finds it at run time: through the aspect
/// that it comes from, where that is known.
pub open spec fn dispatch_of(fx: Facts, aspect: Option<Seq<char>>) -> MethodDispatch {
    match aspect {
        Some(name) => match aspect_symbol(fx, name) {
            Some(aspect_id) => MethodDispatch::Aspect { aspect_id },
            None => MethodDispatch::Dynamic,
        },
        None => MethodDispatch::Dynamic,
    }
}

/// How a call of a method that was chosen among several finds it at run time.
pub fn dispatch_for_resolved_method(fx: &Facts, aspect: &Option<String>) -> (r: MethodDispatch)
    ensures
        r == dispatch_of(*fx, crate::text::opt_text(*aspect)),
{
    match aspect {
        Some(name) => match resolve_aspect_id(fx, name.as_str()) {
            Some(aspect_id) => MethodDispatch::Aspect { aspect_id },
            None => MethodDispatch::Dynamic,
        },
        None => MethodDispatch::Dynamic,
    }
}

/// The type of a generic function at a call, with the counter after it: by the types that are
/// written out, or else by the arguments, or else by the arguments and the type that is expected.
pub open spec fn named_instance(
    fx: Facts,
    name: Seq<char>,
    scheme: TypeScheme,
    args: Seq<TypeV>,
    explicit: Option<Seq<TypeV>>,
    expected: Option<TypeV>,
    span: SpanV,
    next: u32,
) -> (Result<TypeV, MetelErrorV>, u32) {
    let module = texts(fx.module@);
    let count = scheme.quantified_vars@.len() as int;
    let (found, after) = match explicit {
        Some(types) => (turbofish_instance(*fx.registry, module, scheme, types, span), next),
        None => {
            let next1 = after_fresh(next, count);
            match call_instance(*fx.registry, module, scheme, args, None, span, next) {
                Ok(x) => (Ok(x), next1),
                Err(e) => match expected {
                    None => (Err(e), next1),
                    Some(t) => (
                        match call_instance(
                            *fx.registry,
                            module,
                            scheme,
                            args,
                            Some(t),
                            span,
                            next1,
                        ) {
                            Ok(x) => Ok(x),
                            Err(_) => Err(e),
                        },
                        after_fresh(next1, count),
                    ),
                },
            }
        },
    };
    (
        match found {
            Err(e) => Err(e),
            Ok(x) => match choice_error(site(fx, span), name, scheme, x.1) {
                Some(e) => Err(e),
                None => Ok(x.0),
            },
        },
        after,
    )
}

impl<'a, 'c> Elaborator<'a, 'c> {
    /// The type of a generic function at a call.
    pub fn instantiate_named(
        &mut self,
        name: &str,
        scheme: &TypeScheme,
        args: &Vec<Type>,
        explicit: Option<&Vec<Type>>,
        expected: Option<&Type>,
        span: &Span,
    ) -> (r: Result<Type, MetelError>)
        ensures
            final(self).fx == old(self).fx,
            final(self).budget == old(self).budget,
            ({
                let found = named_instance(
                    old(self).fx,
                    name@,
                    *scheme,
                    types_view(args@),
                    match explicit {
                        Some(v) => Some(types_view(v@)),
                        None => None,
                    },
                    hint_view(expected),
                    span@,
                    old(self).st().next,
                );
                &&& type_result(r) == found.0
                &&& final(self).st() == (StateV { next: found.1, ..old(self).st() })
            }),
    {
        let registry = self.fx.registry;
        let module = self.fx.module;
        let found: Result<(Type, Vec<(TypeVar, Type)>), MetelError> = match explicit {
            Some(types) => instantiate_scheme_with_turbofish(registry, module, scheme, types, span),
            None => match instantiate_scheme_for_call(
                registry,
                module,
                scheme,
                args,
                None,
                span,
                &mut self.gen,
            ) {
                Ok(x) => Ok(x),
                Err(e) => match expected {
                    None => Err(e),
                    Some(t) => match instantiate_scheme_for_call(
                        registry,
                        module,
                        scheme,
                        args,
                        Some(t),
                        span,
                        &mut self.gen,
                    ) {
                        Ok(x) => Ok(x),
                        Err(_) => Err(e),
                    },
                },
            },
        };
        match found {
            Err(e) => Err(e),
            Ok((t, vars)) => match check_choices(registry, &self.fx.extra.impls, module, span, name, scheme, &vars) {
                Some(e) => Err(e),
                None => Ok(t),
            },
        }
    }
}

/// The name by which a callee may be overloaded.
pub open spec fn callee_name(callee: Expr) -> Option<Seq<char>> {
    match callee {
        Expr::Ident(name, _) => Some(name@),
        Expr::ResolvedPath { resolved, .. } => Some(resolved@),
        _ => None,
    }
}

/// The name by which a callee may be overloaded.
pub fn overloaded_name(callee: &Expr) -> (r: Option<&String>)
    ensures
        match r {
            Some(name) => callee_name(*callee) == Some(name@),
            None => callee_name(*callee) is None,
        },
{
    match callee {
        Expr::Ident(name, _) => Some(name),
        Expr::ResolvedPath { resolved, .. } => Some(resolved),
        _ => None,
    }
}

/// The signatures of the first `n` overloads, for messages.
pub open spec fn overload_list(name: Seq<char>, s: Seq<OverloadEntry>, n: int) -> Seq<char>
    decreases n,
{
    if n <= 0 || n > s.len() {
        Seq::empty()
    } else {
        overload_list(name, s, n - 1) + "\n  candidate: "@ + name + "("@ + type_list_text(
            types_view(s[n - 1].params@),
        ) + ")"@
    }
}

/// What is said of a call that no overload is for.
pub open spec fn no_match_error(
    name: Seq<char>,
    args: Seq<TypeV>,
    s: Seq<OverloadEntry>,
    span: SpanV,
) -> MetelErrorV {
    type_failure(
        TypeErrorCode::T0001,
        "no overload of `"@ + name + "` matches argument types ("@ + type_list_text(args) + ")"@
            + overload_list(name, s, s.len() as int),
        span,
    )
}

/// What is said of a call that no overload is for.
pub fn no_overload(name: &str, args: &Vec<Type>, list: &Vec<OverloadEntry>, span: &Span) -> (r:
    MetelError)
    ensures
        r@ == no_match_error(name@, types_view(args@), list@, span@),
{
    let mut tail: String = "".to_owned();
    proof {
        reveal_strlit("");
    }
    assert(tail@ =~= Seq::empty());
    let mut i: usize = 0;
    while i < list.len()
        invariant
            i <= list@.len(),
            tail@ == overload_list(name@, list@, i as int),
        decreases list@.len() - i,
    {
        tail.append("\n  candidate: ");
        tail.append(name);
        tail.append("(");
        tail.append(crate::types::describe_types(&list[i].params).as_str());
        tail.append(")");
        i += 1;
    }
    let mut out: String = joined5(
        "no overload of `",
        name,
        "` matches argument types (",
        crate::types::describe_types(args).as_str(),
        ")",
    );
    out.append(tail.as_str());
    MetelError::type_error(TypeErrorCode::T0001, out, span)
}

/// The name whose type tells what the arguments of a call are expected to be.
pub open spec fn hinting_name(callee: Expr) -> Option<Seq<char>> {
    match callee {
        Expr::Ident(name, _) => Some(name@),
        Expr::Path(path, _) => Some(
            if path@.len() == 0 {
                ""@
            } else {
                path@.last()@
            },
        ),
        Expr::ResolvedPath { resolved, .. } => Some(resolved@),
        _ => None,
    }
}

/// Types as hints.
pub open spec fn as_hints(s: Seq<TypeV>) -> Seq<Option<TypeV>> {
    Seq::new(s.len(), |i: int| Some(s[i]))
}

/// The types that the arguments of a call are expected to have: those of the parameters, where
/// the callee is a variable of a function type with as many.
pub open spec fn call_hints(st: StateV, callee: Expr, n: nat) -> Seq<Option<TypeV>> {
    match hinting_name(callee) {
        Some(name) => match var_of(st.scopes, name) {
            Some(TypeV::Fun(params, _)) => if params.len() == n {
                as_hints(params)
            } else {
                Seq::empty()
            },
            _ => Seq::empty(),
        },
        None => Seq::empty(),
    }
}

/// Types as hints.
pub fn types_as_hints(v: &Vec<Type>) -> (r: Vec<Option<Type>>)
    ensures
        hints_view(r@) == as_hints(types_view(v@)),
{
    let mut out: Vec<Option<Type>> = Vec::new();
    let mut i: usize = 0;
    while i < v.len()
        invariant
            i <= v@.len(),
            out@.len() == i,
            forall|k: int| 0 <= k < i ==> opt_type(#[trigger] out@[k]) == Some(type_view(v@[k])),
        decreases v@.len() - i,
    {
        out.push(Some(v[i].copy()));
        i += 1;
    }
    assert(hints_view(out@) =~= as_hints(types_view(v@)));
    out
}

impl<'a, 'c> Elaborator<'a, 'c> {
    /// The types that the arguments of a call are expected to have.
    pub fn hint_call(&self, callee: &Expr, n: usize) -> (r: Vec<Option<Type>>)
        ensures
            hints_view(r@) == call_hints(self.st(), *callee, n as nat),
    {
        let found: Option<Type> = match callee {
            Expr::Ident(name, _) => self.lookup(name.as_str()),
            Expr::Path(path, _) => if path.len() == 0 {
                self.lookup("")
            } else {
                self.lookup(path[path.len() - 1].as_str())
            },
            Expr::ResolvedPath { resolved, .. } => self.lookup(resolved.as_str()),
            _ => None,
        };
        if let Some(Type::Fun(params, _)) = found {
            assert(types_view(params@).len() == params@.len());
            if params.len() == n {
                return types_as_hints(&params);
            }
        }
        let none: Vec<Option<Type>> = Vec::new();
        assert(hints_view(none@) =~= Seq::empty());
        none
    }
}

/// What a call calls: a function, or the function that a reference refers to.
pub open spec fn called(t: TypeV) -> TypeV {
    match t {
        TypeV::Reference(inner) => if *inner is Fun {
            *inner
        } else {
            t
        },
        TypeV::MutReference(inner) => if *inner is Fun {
            *inner
        } else {
            t
        },
        _ => t,
    }
}

/// What a call calls.
pub fn called_type(t: &Type) -> (r: &Type)
    ensures
        r@ == called(t@),
{
    match t {
        Type::Reference(inner) => {
            let referent: &Type = inner;
            assert(referent@ is Fun == *referent is Fun);
            if matches!(referent, Type::Fun(_, _)) {
                referent
            } else {
                t
            }
        },
        Type::MutReference(inner) => {
            let referent: &Type = inner;
            assert(referent@ is Fun == *referent is Fun);
            if matches!(referent, Type::Fun(_, _)) {
                referent
            } else {
                t
            }
        },
        _ => t,
    }
}

} // verus!
