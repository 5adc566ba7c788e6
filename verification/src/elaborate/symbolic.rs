//! Schemes of methods that are read off their declarations, for bodies that are elaborated with
//! stand-ins for their type parameters.
use vstd::prelude::*;
use crate::ast::{Bound, GenericParam, Param, Polarity, TypeExpr};
use crate::ast::type_expr_view;
use crate::conversions::{denoted, type_expr_to_infer, TypeScope, TypeScopeV};
use crate::infer::{infer_type_view, infer_types_view, named_infer_types_view, InferType};
use crate::infer::{InferTypeV, TypeVar};
use crate::registry::AspectInfo;
use crate::scheme::{after_fresh, bounds_view, fresh_var, opt_type_expr, row_view};
use crate::scheme::{GenericBound, GenericBoundV, RowConstraint, RowField, TypeScheme, TypeSchemeV};
use crate::scheme::TypeVarGenerator;
use crate::text::same_text;
use crate::types::{Type, TypeV};

verus! {

/// The bound that a source bound states: an aspect by its name, or the labels of a record.
pub open spec fn stated_bound(b: Bound) -> Option<GenericBoundV> {
    match b.aspect {
        TypeExpr::Named(name, _) => Some(GenericBoundV::Aspect(name@)),
        TypeExpr::Record(fields) => Some(
            GenericBoundV::Row {
                fields: Seq::new(
                    fields@.len(),
                    |i: int| (fields@[i].0@, Some(type_expr_view(fields@[i].1))),
                ),
                open: b.open,
            },
        ),
        _ => None,
    }
}

/// The bounds of a polarity among the first `k`.
pub open spec fn stated_bounds(s: Seq<Bound>, polarity: Polarity, k: int) -> Seq<GenericBoundV>
    decreases k,
{
    if k <= 0 || k > s.len() {
        Seq::empty()
    } else {
        let before = stated_bounds(s, polarity, k - 1);
        if s[k - 1].polarity == polarity {
            match stated_bound(s[k - 1]) {
                Some(b) => before.push(b),
                None => before,
            }
        } else {
            before
        }
    }
}

/// All bounds of a polarity of a type parameter.
pub open spec fn param_bounds(g: GenericParam, polarity: Polarity) -> Seq<GenericBoundV> {
    stated_bounds(g.bounds@, polarity, g.bounds@.len() as int)
}

/// Where a name last stands among the first `k` type parameters, or -1.
pub open spec fn last_at(gs: Seq<GenericParam>, name: Seq<char>, k: int) -> int
    decreases k,
{
    if k <= 0 || k > gs.len() {
        -1
    } else if gs[k - 1].name@ == name {
        k - 1
    } else {
        last_at(gs, name, k - 1)
    }
}

/// The variable of a type parameter. Two that share a name share a variable, that of the last.
pub open spec fn var_at(gs: Seq<GenericParam>, next: u32, i: int) -> TypeVar {
    fresh_var(next, last_at(gs, gs[i].name@, gs.len() as int))
}

/// The type parameters in scope, each name standing for a variable of its own.
pub open spec fn scoped_generics(gs: Seq<GenericParam>, next: u32) -> Seq<(Seq<char>, InferTypeV)> {
    Seq::new(gs.len(), |i: int| (gs[i].name@, InferTypeV::Var(var_at(gs, next, i))))
}

/// Whether a parameter is the receiver of its method.
pub open spec fn takes_self(p: Param) -> bool {
    p.receiver is Some || p.name@ == "self"@
}

/// The type of a parameter.
pub open spec fn declared_param(scope: TypeScopeV, self_ty: InferTypeV, p: Param) -> InferTypeV {
    if takes_self(p) {
        self_ty
    } else {
        match p.type_ann {
            Some(t) => denoted(scope, t@),
            None => InferTypeV::Never,
        }
    }
}

/// Whether every parameter but the receiver has its type written down.
pub open spec fn all_declared(s: Seq<Param>) -> bool {
    forall|i: int| 0 <= i < s.len() ==> (takes_self(#[trigger] s[i]) || s[i].type_ann is Some)
}

/// The scheme of a declared method, whose type parameters are `gs`; `None` where the type of a
/// parameter is not written down.
pub open spec fn declared_scheme(
    gs: Seq<GenericParam>,
    next: u32,
    self_ty: InferTypeV,
    scope: TypeScopeV,
    params: Seq<Param>,
    ret: Option<TypeExpr>,
) -> Option<TypeSchemeV> {
    if !all_declared(params) {
        None
    } else {
        Some(
            TypeSchemeV {
                vars: Seq::new(gs.len(), |i: int| var_at(gs, next, i)),
                names: Seq::new(gs.len(), |i: int| gs[i].name@),
                bounds: Seq::new(gs.len(), |i: int| param_bounds(gs[i], Polarity::Positive)),
                neg_bounds: Seq::new(gs.len(), |i: int| param_bounds(gs[i], Polarity::Negative)),
                record_kinds: Seq::new(gs.len(), |i: int| gs[i].is_record),
                assoc_projections: Seq::empty(),
                assoc_eqs: Seq::empty(),
                opaque_returns: Seq::empty(),
                ty: InferTypeV::Fun(
                    Seq::new(params.len(), |i: int| declared_param(scope, self_ty, params[i])),
                    Box::new(
                        match ret {
                            Some(t) => denoted(scope, t@),
                            None => InferTypeV::Concrete(TypeV::Unit),
                        },
                    ),
                ),
            },
        )
    }
}

/// The scheme of a method of an aspect on a type that is only known by name.
pub open spec fn aspect_method_scheme(
    aspect: AspectInfo,
    method: crate::ast::AspectMethod,
    owner: Seq<char>,
    next: u32,
) -> Option<TypeSchemeV> {
    declared_scheme(
        method.generics@,
        next,
        InferTypeV::Named(owner, Seq::empty()),
        TypeScopeV {
            generics: scoped_generics(method.generics@, next),
            self_name: Some(owner),
            aspect: Some(aspect),
        },
        method.params@,
        method.return_type,
    )
}

/// The scope in which the types of a method of an impl are read.
pub open spec fn impl_scope(gs: Seq<GenericParam>, aspect: Option<AspectInfo>) -> TypeScopeV {
    TypeScopeV { generics: scoped_generics(gs, IMPL_VARS), self_name: None, aspect }
}

/// The scheme of a method of an impl.
pub open spec fn impl_method_scheme(
    gs: Seq<GenericParam>,
    target: TypeExpr,
    aspect: Option<AspectInfo>,
    params: Seq<Param>,
    ret: Option<TypeExpr>,
) -> Option<TypeSchemeV> {
    declared_scheme(
        gs,
        IMPL_VARS,
        denoted(impl_scope(gs, aspect), target@),
        impl_scope(gs, aspect),
        params,
        ret,
    )
}

/// Where the type variables of methods of impls start.
pub const IMPL_VARS: u32 = 5_000_000;

/// The bound that a source bound states.
pub fn bound_from_ast(b: &Bound) -> (r: Option<GenericBound>)
    ensures
        match r {
            Some(x) => stated_bound(*b) == Some(x@),
            None => stated_bound(*b) is None,
        },
{
    match &b.aspect {
        TypeExpr::Named(name, _) => Some(GenericBound::Aspect(name.clone())),
        TypeExpr::Record(fields) => {
            let mut out: Vec<RowField> = Vec::new();
            let mut i: usize = 0;
            while i < fields.len()
                invariant
                    i <= fields@.len(),
                    out@.len() == i,
                    forall|k: int|
                        0 <= k < i ==> (#[trigger] out@[k]).label@ == fields@[k].0@
                            && opt_type_expr(out@[k].ty) == Some(type_expr_view(fields@[k].1)),
                decreases fields@.len() - i,
            {
                out.push(
                    RowField { label: fields[i].0.clone(), ty: Some(fields[i].1.copy()) },
                );
                i += 1;
            }
            assert(row_view(out@) =~= Seq::new(
                fields@.len(),
                |i: int| (fields@[i].0@, Some(type_expr_view(fields@[i].1))),
            ));
            Some(GenericBound::Row(RowConstraint { fields: out, open: b.open }))
        },
        _ => None,
    }
}

/// The bounds of a polarity of a type parameter.
pub fn bounds_of(g: &GenericParam, polarity: Polarity) -> (r: Vec<GenericBound>)
    ensures
        bounds_view(r@) == param_bounds(*g, polarity),
{
    stated(&g.bounds, polarity)
}

/// The bounds of a polarity.
pub fn stated(bounds: &Vec<Bound>, polarity: Polarity) -> (r: Vec<GenericBound>)
    ensures
        bounds_view(r@) == stated_bounds(bounds@, polarity, bounds@.len() as int),
{
    let mut out: Vec<GenericBound> = Vec::new();
    assert(bounds_view(out@) =~= Seq::empty());
    let mut i: usize = 0;
    while i < bounds.len()
        invariant
            i <= bounds@.len(),
            bounds_view(out@) == stated_bounds(bounds@, polarity, i as int),
        decreases bounds@.len() - i,
    {
        if bounds[i].polarity == polarity {
            if let Some(b) = bound_from_ast(&bounds[i]) {
                let ghost before = out@;
                let ghost bv = b@;
                out.push(b);
                assert(bounds_view(out@) =~= bounds_view(before).push(bv));
            }
        }
        i += 1;
    }
    out
}

fn listed<'a>(a: &'a Vec<GenericParam>, b: &'a Vec<GenericParam>) -> (r: Vec<&'a GenericParam>)
    ensures
        r@.len() == a@.len() + b@.len(),
{
    let mut out: Vec<&'a GenericParam> = Vec::new();
    let mut i: usize = 0;
    while i < a.len()
        invariant
            i <= a@.len(),
            out@.len() == i,
        decreases a@.len() - i,
    {
        out.push(&a[i]);
        i += 1;
    }
    let mut j: usize = 0;
    while j < b.len()
        invariant
            j <= b@.len(),
            out@.len() == a@.len() + j,
        decreases b@.len() - j,
    {
        out.push(&b[j]);
        j += 1;
    }
    out
}

fn nth<'a>(a: &'a Vec<GenericParam>, b: &'a Vec<GenericParam>, i: usize) -> (r: &'a GenericParam)
    requires
        i < a@.len() + b@.len(),
    ensures
        *r == (a@ + b@)[i as int],
{
    if i < a.len() {
        &a[i]
    } else {
        &b[i - a.len()]
    }
}

fn find_last(a: &Vec<GenericParam>, b: &Vec<GenericParam>, i: usize) -> (r: usize)
    requires
        i < a@.len() + b@.len(),
        a@.len() + b@.len() <= usize::MAX,
    ensures
        r == last_at(a@ + b@, (a@ + b@)[i as int].name@, (a@ + b@).len() as int),
        i <= r < a@.len() + b@.len(),
{
    let ghost gs = a@ + b@;
    let name: &str = nth(a, b, i).name.as_str();
    let n: usize = a.len() + b.len();
    let mut k: usize = n;
    while k > i + 1 && !same_text(nth(a, b, k - 1).name.as_str(), name)
        invariant
            i < k <= n,
            n == gs.len(),
            gs == a@ + b@,
            n == a@.len() + b@.len(),
            name@ == gs[i as int].name@,
            last_at(gs, name@, n as int) == last_at(gs, name@, k as int),
        decreases k,
    {
        k -= 1;
    }
    assert(gs[k - 1].name@ == name@);
    k - 1
}

fn fresh_vars(n: usize, gen: &mut TypeVarGenerator) -> (r: Vec<TypeVar>)
    ensures
        r@.len() == n,
        forall|i: int| 0 <= i < n ==> #[trigger] r@[i] == fresh_var(old(gen).next, i),
        final(gen).next == after_fresh(old(gen).next, n as int),
{
    let ghost start = gen.next;
    let mut out: Vec<TypeVar> = Vec::new();
    let mut i: usize = 0;
    while i < n
        invariant
            i <= n,
            out@.len() == i,
            gen.next == after_fresh(start, i as int),
            forall|k: int| 0 <= k < i ==> #[trigger] out@[k] == fresh_var(start, k),
        decreases n - i,
    {
        out.push(gen.fresh());
        i += 1;
    }
    out
}

fn declared_vars(a: &Vec<GenericParam>, b: &Vec<GenericParam>, gen: &mut TypeVarGenerator) -> (r: Vec<
    TypeVar,
>)
    requires
        a@.len() + b@.len() <= usize::MAX,
    ensures
        r@ == Seq::new((a@ + b@).len(), |i: int| var_at(a@ + b@, old(gen).next, i)),
        final(gen).next == after_fresh(old(gen).next, (a@ + b@).len() as int),
{
    let ghost start = gen.next;
    let ghost gs = a@ + b@;
    let n: usize = a.len() + b.len();
    let all: Vec<TypeVar> = fresh_vars(n, gen);
    let mut out: Vec<TypeVar> = Vec::new();
    let mut i: usize = 0;
    while i < n
        invariant
            i <= n,
            n == a@.len() + b@.len(),
            gs == a@ + b@,
            all@.len() == n,
            forall|k: int| 0 <= k < n ==> #[trigger] all@[k] == fresh_var(start, k),
            out@.len() == i,
            forall|k: int| 0 <= k < i ==> #[trigger] out@[k] == var_at(gs, start, k),
        decreases n - i,
    {
        let last: usize = find_last(a, b, i);
        out.push(all[last]);
        i += 1;
    }
    assert(out@ =~= Seq::new(gs.len(), |i: int| var_at(gs, start, i)));
    out
}

fn scope_generics(
    a: &Vec<GenericParam>,
    b: &Vec<GenericParam>,
    vars: &Vec<TypeVar>,
    Ghost(next): Ghost<u32>,
) -> (r: Vec<(String, InferType)>)
    requires
        a@.len() + b@.len() <= usize::MAX,
        vars@ == Seq::new((a@ + b@).len(), |i: int| var_at(a@ + b@, next, i)),
    ensures
        named_infer_types_view(r@) == scoped_generics(a@ + b@, next),
{
    let n: usize = a.len() + b.len();
    let ghost gs = a@ + b@;
    let mut out: Vec<(String, InferType)> = Vec::new();
    let mut i: usize = 0;
    while i < n
        invariant
            i <= n,
            n == a@.len() + b@.len(),
            gs == a@ + b@,
            vars@ == Seq::new(gs.len(), |i: int| var_at(gs, next, i)),
            out@.len() == i,
            forall|k: int|
                0 <= k < i ==> (#[trigger] out@[k]).0@ == gs[k].name@ && infer_type_view(out@[k].1)
                    == InferTypeV::Var(var_at(gs, next, k)),
        decreases n - i,
    {
        out.push((nth(a, b, i).name.clone(), InferType::Var(vars[i])));
        i += 1;
    }
    assert(named_infer_types_view(out@).len() == out@.len());
    assert(named_infer_types_view(out@) =~= scoped_generics(gs, next));
    out
}

fn declared_params(scope: &TypeScope, self_ty: &InferType, params: &Vec<Param>) -> (r: Option<
    Vec<InferType>,
>)
    ensures
        match r {
            Some(v) => all_declared(params@) && infer_types_view(v@) == Seq::new(
                params@.len(),
                |i: int| declared_param(scope@, self_ty@, params@[i]),
            ),
            None => !all_declared(params@),
        },
{
    let ghost whole = Seq::new(
        params@.len(),
        |i: int| declared_param(scope@, self_ty@, params@[i]),
    );
    let mut out: Vec<InferType> = Vec::new();
    let mut i: usize = 0;
    while i < params.len()
        invariant
            i <= params@.len(),
            whole == Seq::new(
                params@.len(),
                |i: int| declared_param(scope@, self_ty@, params@[i]),
            ),
            out@.len() == i,
            forall|k: int|
                0 <= k < i ==> (takes_self(#[trigger] params@[k]) || params@[k].type_ann is Some),
            forall|k: int| 0 <= k < i ==> infer_type_view(#[trigger] out@[k]) == whole[k],
        decreases params@.len() - i,
    {
        let p: &Param = &params[i];
        if p.receiver.is_some() || same_text(p.name.as_str(), "self") {
            out.push(self_ty.copy());
        } else {
            match &p.type_ann {
                Some(t) => out.push(type_expr_to_infer(t, scope)),
                None => {
                    assert(!(takes_self(params@[i as int]) || params@[i as int].type_ann is Some));
                    return None;
                },
            }
        }
        i += 1;
    }
    assert(infer_types_view(out@).len() == out@.len());
    assert(infer_types_view(out@) =~= whole);
    Some(out)
}

fn build_scheme(
    a: &Vec<GenericParam>,
    b: &Vec<GenericParam>,
    vars: Vec<TypeVar>,
    params: Vec<InferType>,
    ret: InferType,
) -> (r: TypeScheme)
    requires
        a@.len() + b@.len() <= usize::MAX,
    ensures
        r@.vars == vars@,
        r@.names == Seq::new((a@ + b@).len(), |i: int| (a@ + b@)[i].name@),
        r@.bounds == Seq::new(
            (a@ + b@).len(),
            |i: int| param_bounds((a@ + b@)[i], Polarity::Positive),
        ),
        r@.neg_bounds == Seq::new(
            (a@ + b@).len(),
            |i: int| param_bounds((a@ + b@)[i], Polarity::Negative),
        ),
        r@.record_kinds == Seq::new((a@ + b@).len(), |i: int| (a@ + b@)[i].is_record),
        r@.assoc_projections.len() == 0,
        r@.assoc_eqs.len() == 0,
        r@.opaque_returns.len() == 0,
        r@.ty == InferTypeV::Fun(infer_types_view(params@), Box::new(ret@)),
{
    let ghost gs = a@ + b@;
    let n: usize = a.len() + b.len();
    let mut names: Vec<String> = Vec::new();
    let mut bounds: Vec<Vec<GenericBound>> = Vec::new();
    let mut neg_bounds: Vec<Vec<GenericBound>> = Vec::new();
    let mut kinds: Vec<bool> = Vec::new();
    let mut i: usize = 0;
    while i < n
        invariant
            i <= n,
            n == a@.len() + b@.len(),
            gs == a@ + b@,
            names@.len() == i,
            bounds@.len() == i,
            neg_bounds@.len() == i,
            kinds@.len() == i,
            forall|k: int| 0 <= k < i ==> (#[trigger] names@[k])@ == gs[k].name@,
            forall|k: int|
                0 <= k < i ==> bounds_view((#[trigger] bounds@[k])@) == param_bounds(
                    gs[k],
                    Polarity::Positive,
                ),
            forall|k: int|
                0 <= k < i ==> bounds_view((#[trigger] neg_bounds@[k])@) == param_bounds(
                    gs[k],
                    Polarity::Negative,
                ),
            forall|k: int| 0 <= k < i ==> #[trigger] kinds@[k] == gs[k].is_record,
        decreases n - i,
    {
        let g: &GenericParam = nth(a, b, i);
        names.push(g.name.clone());
        bounds.push(bounds_of(g, Polarity::Positive));
        neg_bounds.push(bounds_of(g, Polarity::Negative));
        kinds.push(g.is_record);
        i += 1;
    }
    let r = TypeScheme {
        quantified_vars: vars,
        param_names: names,
        bounds,
        neg_bounds,
        record_kinds: kinds,
        assoc_projections: Vec::new(),
        assoc_eq_constraints: Vec::new(),
        opaque_returns: Vec::new(),
        ty: InferType::Fun(params, Box::new(ret)),
    };
    assert(r@.names =~= Seq::new(gs.len(), |i: int| gs[i].name@));
    assert(r@.bounds =~= Seq::new(gs.len(), |i: int| param_bounds(gs[i], Polarity::Positive)));
    assert(r@.neg_bounds =~= Seq::new(gs.len(), |i: int| param_bounds(gs[i], Polarity::Negative)));
    assert(r@.record_kinds =~= Seq::new(gs.len(), |i: int| gs[i].is_record));
    r
}

fn result_type(scope: &TypeScope, ret: &Option<TypeExpr>) -> (r: InferType)
    ensures
        r@ == (match *ret {
            Some(t) => denoted(scope@, t@),
            None => InferTypeV::Concrete(TypeV::Unit),
        }),
{
    match ret {
        Some(t) => type_expr_to_infer(t, scope),
        None => {
            let unit: Type = Type::Unit;
            assert(unit@ == TypeV::Unit);
            InferType::Concrete(unit)
        },
    }
}

/// A scheme, or none, as a mathematical object.
pub open spec fn opt_scheme(s: Option<TypeScheme>) -> Option<TypeSchemeV> {
    match s {
        Some(s) => Some(s@),
        None => None,
    }
}

/// The scheme of a method of an aspect on a type that is only known by name.
pub fn symbolic_aspect_method_scheme(
    aspect: &AspectInfo,
    method: &crate::ast::AspectMethod,
    owner: &str,
    gen: &mut TypeVarGenerator,
) -> (r: Option<TypeScheme>)
    ensures
        opt_scheme(r) == aspect_method_scheme(*aspect, *method, owner@, old(gen).next),
        final(gen).next == after_fresh(old(gen).next, method.generics@.len() as int),
{
    let none: Vec<GenericParam> = Vec::new();
    assert(method.generics@ + none@ =~= method.generics@);
    let count: usize = method.generics.len();
    assert(method.generics@.len() == count);
    let ghost next = gen.next;
    let vars: Vec<TypeVar> = declared_vars(&method.generics, &none, gen);
    let generics: Vec<(String, InferType)> = scope_generics(
        &method.generics,
        &none,
        &vars,
        Ghost(next),
    );
    let scope = TypeScope { generics: &generics, self_name: Some(owner), aspect: Some(aspect) };
    let args: Vec<InferType> = Vec::new();
    assert(infer_types_view(args@) =~= Seq::empty());
    let self_ty: InferType = InferType::Named(owner.to_owned(), args);
    match declared_params(&scope, &self_ty, &method.params) {
        None => None,
        Some(params) => {
            let ret: InferType = result_type(&scope, &method.return_type);
            let s: TypeScheme = build_scheme(
                &method.generics,
                &none,
                vars,
                params,
                ret,
            );
            assert(s@.assoc_projections =~= Seq::empty());
            assert(s@.assoc_eqs =~= Seq::empty());
            assert(s@.opaque_returns =~= Seq::empty());
            Some(s)
        },
    }
}

/// The scheme of a method of an impl, read off its declaration.
pub fn symbolic_impl_method_scheme(
    impl_generics: &Vec<GenericParam>,
    method_generics: &Vec<GenericParam>,
    target_type: &TypeExpr,
    aspect: Option<&AspectInfo>,
    params: &Vec<Param>,
    return_type: &Option<TypeExpr>,
) -> (r: Option<TypeScheme>)
    ensures
        opt_scheme(r) == impl_method_scheme(
            impl_generics@ + method_generics@,
            *target_type,
            match aspect {
                Some(a) => Some(*a),
                None => None,
            },
            params@,
            *return_type,
        ),
{
    let all: Vec<&GenericParam> = listed(impl_generics, method_generics);
    assert(all.len() <= usize::MAX);
    let mut gen: TypeVarGenerator = TypeVarGenerator::with_counter(IMPL_VARS);
    let vars: Vec<TypeVar> = declared_vars(impl_generics, method_generics, &mut gen);
    let generics: Vec<(String, InferType)> = scope_generics(
        impl_generics,
        method_generics,
        &vars,
        Ghost(IMPL_VARS),
    );
    let scope = TypeScope { generics: &generics, self_name: None, aspect };
    let self_ty: InferType = type_expr_to_infer(target_type, &scope);
    match declared_params(&scope, &self_ty, params) {
        None => None,
        Some(types) => {
            let ret: InferType = result_type(&scope, return_type);
            let s: TypeScheme = build_scheme(
                impl_generics,
                method_generics,
                vars,
                types,
                ret,
            );
            assert(s@.assoc_projections =~= Seq::empty());
            assert(s@.assoc_eqs =~= Seq::empty());
            assert(s@.opaque_returns =~= Seq::empty());
            Some(s)
        },
    }
}

} // verus!
