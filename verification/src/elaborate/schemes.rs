//! Schemes at a use: which types are chosen for their variables, and whether they may be.
use vstd::prelude::*;
use crate::error::{opt_error, type_failure, MetelError, MetelErrorV, TypeErrorCode};
use crate::infer::{infer_type_view, infer_types_view, lifted, lowered, named_infer_types_view};
use crate::infer::{infer_to_type, resolved, substituted, type_to_infer, InferType, InferTypeV};
use crate::infer::{Substitution, TypeVar};
use crate::lookup::{assoc_type_of, fun_params_of};
use crate::registry::{first_where, lemma_first_where_skip, FunParamInfo, FunVarInfo};
use crate::registry::{AspectImpl, TypeDefinitionRegistry};
use crate::scheme::{after_fresh, infer_type_to_type, instantiate_with_renaming, lower};
use crate::scheme::{renaming, solve, unify, AssocEq, AssocProjection, GenericBound};
use crate::scheme::{TypeScheme, TypeVarGenerator};
use crate::span::{Span, SpanV};
use crate::text::{decimal, decimal_text, joined7, texts};
use crate::types::{type_text, type_view, types_view, Type, TypeV};
use super::bounds::{asked_error, check_asked, Site};

verus! {

/// The types chosen for variables.
pub open spec fn choices_view(s: Seq<(TypeVar, Type)>) -> Seq<(TypeVar, TypeV)> {
    Seq::new(s.len(), |i: int| (s[i].0, s[i].1@))
}

/// The type chosen for a variable.
pub open spec fn chosen(vars: Seq<(TypeVar, TypeV)>, v: TypeVar) -> Option<TypeV>
    decreases vars.len(),
{
    if vars.len() == 0 {
        None
    } else if vars[0].0 == v {
        Some(vars[0].1)
    } else {
        chosen(vars.skip(1), v)
    }
}

/// The type chosen for a variable.
pub fn find_choice<'a>(vars: &'a Vec<(TypeVar, Type)>, v: TypeVar) -> (r: Option<&'a Type>)
    ensures
        match r {
            Some(t) => chosen(choices_view(vars@), v) == Some(t@),
            None => chosen(choices_view(vars@), v) is None,
        },
{
    let ghost views = choices_view(vars@);
    assert(views.skip(0) =~= views);
    let mut i: usize = 0;
    while i < vars.len()
        invariant
            i <= vars@.len(),
            views == choices_view(vars@),
            chosen(views, v) == chosen(views.skip(i as int), v),
        decreases vars@.len() - i,
    {
        assert(views.skip(i as int)[0] == views[i as int]);
        assert(views.skip(i as int).skip(1) =~= views.skip(i + 1));
        if vars[i].0 == v {
            return Some(&vars[i].1);
        }
        i += 1;
    }
    None
}

/// The bounds at a position, none where the list is shorter.
pub open spec fn bounds_at(s: Seq<Vec<GenericBound>>, i: int) -> Seq<GenericBound> {
    if 0 <= i < s.len() {
        s[i]@
    } else {
        Seq::empty()
    }
}

/// The record kind at a position, `false` where the list is shorter.
pub open spec fn kind_at(s: Seq<bool>, i: int) -> bool {
    0 <= i < s.len() && s[i]
}

/// What the type parameters of a scheme stand for, by name, for the first `n` of them.
pub open spec fn scheme_generics(
    scheme: TypeScheme,
    vars: Seq<(TypeVar, TypeV)>,
    n: int,
) -> Seq<(Seq<char>, InferTypeV)>
    decreases n,
{
    if n <= 0 || n > scheme.quantified_vars@.len() || n > scheme.param_names@.len() {
        Seq::empty()
    } else {
        let before = scheme_generics(scheme, vars, n - 1);
        match chosen(vars, scheme.quantified_vars@[n - 1]) {
            Some(t) => before.push((scheme.param_names@[n - 1]@, lifted(t))),
            None => before,
        }
    }
}

/// How many type parameters of a scheme have a name.
pub open spec fn named_len(scheme: TypeScheme) -> int {
    if scheme.quantified_vars@.len() <= scheme.param_names@.len() {
        scheme.quantified_vars@.len() as int
    } else {
        scheme.param_names@.len() as int
    }
}

/// What is wrong with the types chosen for the first `n` variables of a scheme, by the bounds
/// that the scheme carries.
pub open spec fn scheme_error(
    site: Site,
    owner: Seq<char>,
    scheme: TypeScheme,
    vars: Seq<(TypeVar, TypeV)>,
    negative: bool,
    n: int,
) -> Option<MetelErrorV>
    decreases n,
{
    if n <= 0 || n > scheme.quantified_vars@.len() {
        None
    } else {
        match scheme_error(site, owner, scheme, vars, negative, n - 1) {
            Some(e) => Some(e),
            None => match chosen(vars, scheme.quantified_vars@[n - 1]) {
                Some(t) => asked_error(
                    site,
                    t,
                    bounds_at(
                        if negative {
                            scheme.neg_bounds@
                        } else {
                            scheme.bounds@
                        },
                        n - 1,
                    ),
                    kind_at(scheme.record_kinds@, n - 1),
                    owner,
                    scheme_generics(scheme, vars, named_len(scheme)),
                    negative,
                ),
                None => None,
            },
        }
    }
}

/// What a function asks of a variable.
pub open spec fn fun_var(
    reg: TypeDefinitionRegistry,
    fun: Seq<char>,
    v: TypeVar,
) -> Option<FunVarInfo> {
    match fun_params_of(reg, fun) {
        Some(info) => first_where(info.vars@, |e: FunVarInfo| e.var == v),
        None => None,
    }
}

/// What is wrong with the first `n` chosen types, by what the function is declared to ask.
pub open spec fn fun_error(
    site: Site,
    fun: Seq<char>,
    vars: Seq<(TypeVar, TypeV)>,
    negative: bool,
    n: int,
) -> Option<MetelErrorV>
    decreases n,
{
    if n <= 0 || n > vars.len() {
        None
    } else {
        match fun_error(site, fun, vars, negative, n - 1) {
            Some(e) => Some(e),
            None => match fun_var(site.reg, fun, vars[n - 1].0) {
                Some(info) => asked_error(
                    site,
                    vars[n - 1].1,
                    if negative {
                        info.neg_bounds@
                    } else {
                        info.bounds@
                    },
                    info.record_kind,
                    fun,
                    Seq::empty(),
                    negative,
                ),
                None => None,
            },
        }
    }
}

/// The type that an associated type has to be, where that is known.
pub open spec fn expected_assoc(c: AssocEq, vars: Seq<(TypeVar, TypeV)>) -> Option<TypeV> {
    let expected = match c.expected@ {
        InferTypeV::Var(v) => match chosen(vars, v) {
            Some(t) => Some(lifted(t)),
            None => None,
        },
        other => Some(other),
    };
    match expected {
        Some(InferTypeV::Concrete(t)) => Some(t),
        Some(InferTypeV::Named(name, _)) => Some(TypeV::Named(name, Seq::empty())),
        _ => None,
    }
}

/// What is wrong with an associated type of a chosen type.
pub open spec fn assoc_error(
    site: Site,
    t: TypeV,
    c: AssocEq,
    vars: Seq<(TypeVar, TypeV)>,
) -> Option<MetelErrorV> {
    match assoc_type_of(site.reg, site.module, type_text(t), c.aspect@, c.assoc@) {
        None => None,
        Some(actual) => match expected_assoc(c, vars) {
            None => None,
            Some(expected) => if actual == expected {
                None
            } else {
                Some(
                    type_failure(
                        TypeErrorCode::T0012,
                        "associated type equality constraint violated: `"@ + c.aspect@ + "::"@
                            + c.assoc@ + "` is `"@ + type_text(actual) + "` but expected `"@
                            + type_text(expected) + "`"@,
                        site.span,
                    ),
                )
            },
        },
    }
}

/// [`assoc_error`] for the first `n` of a list.
pub open spec fn assocs_error(
    site: Site,
    t: TypeV,
    s: Seq<AssocEq>,
    vars: Seq<(TypeVar, TypeV)>,
    n: int,
) -> Option<MetelErrorV>
    decreases n,
{
    if n <= 0 || n > s.len() {
        None
    } else {
        match assocs_error(site, t, s, vars, n - 1) {
            Some(e) => Some(e),
            None => assoc_error(site, t, s[n - 1], vars),
        }
    }
}

/// What is wrong with the associated types of the types chosen for the first `n` variables of a
/// scheme.
pub open spec fn scheme_assoc_error(
    site: Site,
    scheme: TypeScheme,
    vars: Seq<(TypeVar, TypeV)>,
    n: int,
) -> Option<MetelErrorV>
    decreases n,
{
    if n <= 0 || n > scheme.quantified_vars@.len() || n > scheme.assoc_eq_constraints@.len() {
        None
    } else {
        match scheme_assoc_error(site, scheme, vars, n - 1) {
            Some(e) => Some(e),
            None => match chosen(vars, scheme.quantified_vars@[n - 1]) {
                Some(t) => assocs_error(
                    site,
                    t,
                    scheme.assoc_eq_constraints@[n - 1]@,
                    vars,
                    scheme.assoc_eq_constraints@[n - 1]@.len() as int,
                ),
                None => None,
            },
        }
    }
}

/// How many variables of a scheme have constraints on associated types.
pub open spec fn assoc_len(scheme: TypeScheme) -> int {
    if scheme.quantified_vars@.len() <= scheme.assoc_eq_constraints@.len() {
        scheme.quantified_vars@.len() as int
    } else {
        scheme.assoc_eq_constraints@.len() as int
    }
}

/// What is wrong with associated types, by what the function is declared to ask of its first `n`
/// variables.
pub open spec fn fun_assoc_error(
    site: Site,
    s: Seq<FunVarInfo>,
    vars: Seq<(TypeVar, TypeV)>,
    n: int,
) -> Option<MetelErrorV>
    decreases n,
{
    if n <= 0 || n > s.len() {
        None
    } else {
        match fun_assoc_error(site, s, vars, n - 1) {
            Some(e) => Some(e),
            None => match chosen(vars, s[n - 1].var) {
                Some(t) => assocs_error(
                    site,
                    t,
                    s[n - 1].assoc_eq@,
                    vars,
                    s[n - 1].assoc_eq@.len() as int,
                ),
                None => None,
            },
        }
    }
}

/// The first error of a list of checks.
pub open spec fn first_error(
    a: Option<MetelErrorV>,
    b: Option<MetelErrorV>,
) -> Option<MetelErrorV> {
    match a {
        Some(e) => Some(e),
        None => b,
    }
}

/// What is wrong with the types chosen at a call of a function: bounds first, then associated
/// types, then negative bounds, each by declaration and by scheme.
pub open spec fn choice_error(
    site: Site,
    fun: Seq<char>,
    scheme: TypeScheme,
    vars: Seq<(TypeVar, TypeV)>,
) -> Option<MetelErrorV> {
    let n = vars.len() as int;
    let q = scheme.quantified_vars@.len() as int;
    first_error(
        fun_error(site, fun, vars, false, n),
        first_error(
            scheme_error(site, fun, scheme, vars, false, q),
            first_error(
                match fun_params_of(site.reg, fun) {
                    Some(info) => fun_assoc_error(site, info.vars@, vars, info.vars@.len() as int),
                    None => None,
                },
                first_error(
                    scheme_assoc_error(site, scheme, vars, assoc_len(scheme)),
                    first_error(
                        fun_error(site, fun, vars, true, n),
                        scheme_error(site, fun, scheme, vars, true, q),
                    ),
                ),
            ),
        ),
    )
}

fn generics_of(scheme: &TypeScheme, vars: &Vec<(TypeVar, Type)>) -> (r: Vec<(String, InferType)>)
    ensures
        named_infer_types_view(r@) == scheme_generics(
            *scheme,
            choices_view(vars@),
            named_len(*scheme),
        ),
{
    let mut out: Vec<(String, InferType)> = Vec::new();
    let ghost views = choices_view(vars@);
    assert(named_infer_types_view(out@) =~= Seq::empty());
    let mut i: usize = 0;
    while i < scheme.quantified_vars.len() && i < scheme.param_names.len()
        invariant
            i <= scheme.quantified_vars@.len(),
            i <= scheme.param_names@.len(),
            views == choices_view(vars@),
            named_infer_types_view(out@) == scheme_generics(*scheme, views, i as int),
        decreases scheme.quantified_vars@.len() - i,
    {
        if let Some(t) = find_choice(vars, scheme.quantified_vars[i]) {
            let ghost before = named_infer_types_view(out@);
            assert(before.len() == out@.len());
            out.push((scheme.param_names[i].clone(), type_to_infer(t)));
            assert(named_infer_types_view(out@) =~= before.push(
                (scheme.param_names@[i as int]@, lifted(t@)),
            ));
        }
        i += 1;
    }
    out
}

fn no_bounds() -> (r: Vec<GenericBound>)
    ensures
        r@ == Seq::<GenericBound>::empty(),
{
    Vec::new()
}

/// Check the bounds that a scheme carries.
pub fn check_scheme_bounds(
    registry: &TypeDefinitionRegistry,
    extra: &Vec<AspectImpl>,
    module: &Vec<String>,
    span: &Span,
    owner: &str,
    scheme: &TypeScheme,
    vars: &Vec<(TypeVar, Type)>,
    negative: bool,
) -> (r: Option<MetelError>)
    ensures
        opt_error(r) == scheme_error(
            Site { reg: *registry, extra: extra@, module: texts(module@), span: span@ },
            owner@,
            *scheme,
            choices_view(vars@),
            negative,
            scheme.quantified_vars@.len() as int,
        ),
{
    let ghost site = Site { reg: *registry, extra: extra@, module: texts(module@), span: span@ };
    let generics: Vec<(String, InferType)> = generics_of(scheme, vars);
    let none: Vec<GenericBound> = no_bounds();
    let all: &Vec<Vec<GenericBound>> = if negative {
        &scheme.neg_bounds
    } else {
        &scheme.bounds
    };
    let mut failed: Option<MetelError> = None;
    let mut i: usize = 0;
    while i < scheme.quantified_vars.len()
        invariant
            i <= scheme.quantified_vars@.len(),
            site == (Site { reg: *registry, extra: extra@, module: texts(module@), span: span@ }),
            *all == (if negative {
                scheme.neg_bounds
            } else {
                scheme.bounds
            }),
            none@ == Seq::<GenericBound>::empty(),
            named_infer_types_view(generics@) == scheme_generics(
                *scheme,
                choices_view(vars@),
                named_len(*scheme),
            ),
            opt_error(failed) == scheme_error(
                site,
                owner@,
                *scheme,
                choices_view(vars@),
                negative,
                i as int,
            ),
        decreases scheme.quantified_vars@.len() - i,
    {
        if failed.is_none() {
            let kind: bool = i < scheme.record_kinds.len() && scheme.record_kinds[i];
            let bounds: &Vec<GenericBound> = if i < all.len() {
                &all[i]
            } else {
                &none
            };
            assert(bounds@ == bounds_at(all@, i as int));
            if let Some(t) = find_choice(vars, scheme.quantified_vars[i]) {
                failed =
                check_asked(registry, extra, module, span, t, bounds, kind, owner, &generics, negative);
            }
        }
        i += 1;
    }
    failed
}

fn find_fun_var<'a>(info: &'a FunParamInfo, v: TypeVar) -> (r: Option<&'a FunVarInfo>)
    ensures
        match r {
            Some(e) => first_where(info.vars@, |e: FunVarInfo| e.var == v) == Some(*e),
            None => first_where(info.vars@, |e: FunVarInfo| e.var == v) is None,
        },
{
    let ghost p = |e: FunVarInfo| e.var == v;
    assert(info.vars@.skip(0) =~= info.vars@);
    let mut i: usize = 0;
    while i < info.vars.len()
        invariant
            i <= info.vars@.len(),
            p == (|e: FunVarInfo| e.var == v),
            first_where(info.vars@, p) == first_where(info.vars@.skip(i as int), p),
        decreases info.vars@.len() - i,
    {
        proof {
            lemma_first_where_skip(info.vars@, p, i as int);
        }
        if info.vars[i].var == v {
            return Some(&info.vars[i]);
        }
        i += 1;
    }
    None
}

/// Check the bounds that a function is declared with.
pub fn check_fun_call_bounds(
    registry: &TypeDefinitionRegistry,
    extra: &Vec<AspectImpl>,
    module: &Vec<String>,
    span: &Span,
    fun: &str,
    vars: &Vec<(TypeVar, Type)>,
    negative: bool,
) -> (r: Option<MetelError>)
    ensures
        opt_error(r) == fun_error(
            Site { reg: *registry, extra: extra@, module: texts(module@), span: span@ },
            fun@,
            choices_view(vars@),
            negative,
            vars@.len() as int,
        ),
{
    let ghost site = Site { reg: *registry, extra: extra@, module: texts(module@), span: span@ };
    let no_generics: Vec<(String, InferType)> = Vec::new();
    assert(named_infer_types_view(no_generics@) =~= Seq::empty());
    let info: Option<&FunParamInfo> = registry.fun_param_info(fun);
    let mut failed: Option<MetelError> = None;
    let mut i: usize = 0;
    while i < vars.len()
        invariant
            i <= vars@.len(),
            site == (Site { reg: *registry, extra: extra@, module: texts(module@), span: span@ }),
            named_infer_types_view(no_generics@) == Seq::<(Seq<char>, InferTypeV)>::empty(),
            match info {
                Some(x) => fun_params_of(*registry, fun@) == Some(*x),
                None => fun_params_of(*registry, fun@) is None,
            },
            opt_error(failed) == fun_error(site, fun@, choices_view(vars@), negative, i as int),
        decreases vars@.len() - i,
    {
        if failed.is_none() {
            if let Some(x) = info {
                if let Some(asked) = find_fun_var(x, vars[i].0) {
                    let bounds: &Vec<GenericBound> = if negative {
                        &asked.neg_bounds
                    } else {
                        &asked.bounds
                    };
                    failed =
                    check_asked(
                        registry,
                        extra,
                        module,
                        span,
                        &vars[i].1,
                        bounds,
                        asked.record_kind,
                        fun,
                        &no_generics,
                        negative,
                    );
                }
            }
        }
        i += 1;
    }
    failed
}

fn expected_assoc_type(c: &AssocEq, vars: &Vec<(TypeVar, Type)>) -> (r: Option<Type>)
    ensures
        match r {
            Some(t) => expected_assoc(*c, choices_view(vars@)) == Some(t@),
            None => expected_assoc(*c, choices_view(vars@)) is None,
        },
{
    let expected: InferType = match &c.expected {
        InferType::Var(v) => match find_choice(vars, *v) {
            Some(t) => type_to_infer(t),
            None => {
                return None;
            },
        },
        other => other.copy(),
    };
    match expected {
        InferType::Concrete(t) => Some(t),
        InferType::Named(name, _) => {
            let args: Vec<Type> = Vec::new();
            assert(types_view(args@) =~= Seq::empty());
            Some(Type::Named(name, args))
        },
        _ => None,
    }
}

fn check_assoc(
    registry: &TypeDefinitionRegistry,
    extra: &Vec<AspectImpl>,
    module: &Vec<String>,
    span: &Span,
    t: &Type,
    c: &AssocEq,
    vars: &Vec<(TypeVar, Type)>,
) -> (r: Option<MetelError>)
    ensures
        opt_error(r) == assoc_error(
            Site { reg: *registry, extra: extra@, module: texts(module@), span: span@ },
            t@,
            *c,
            choices_view(vars@),
        ),
{
    let name: String = t.describe();
    match registry.impl_assoc_type(module, name.as_str(), c.aspect.as_str(), c.assoc.as_str()) {
        None => None,
        Some(actual) => match expected_assoc_type(c, vars) {
            None => None,
            Some(expected) => {
                if actual.same(&expected) {
                    return None;
                }
                let mut message: String = joined7(
                    "associated type equality constraint violated: `",
                    c.aspect.as_str(),
                    "::",
                    c.assoc.as_str(),
                    "` is `",
                    actual.describe().as_str(),
                    "` but expected `",
                );
                message.append(expected.describe().as_str());
                message.append("`");
                Some(MetelError::type_error(TypeErrorCode::T0012, message, span))
            },
        },
    }
}

fn check_assocs(
    registry: &TypeDefinitionRegistry,
    extra: &Vec<AspectImpl>,
    module: &Vec<String>,
    span: &Span,
    t: &Type,
    s: &Vec<AssocEq>,
    vars: &Vec<(TypeVar, Type)>,
) -> (r: Option<MetelError>)
    ensures
        opt_error(r) == assocs_error(
            Site { reg: *registry, extra: extra@, module: texts(module@), span: span@ },
            t@,
            s@,
            choices_view(vars@),
            s@.len() as int,
        ),
{
    let ghost site = Site { reg: *registry, extra: extra@, module: texts(module@), span: span@ };
    let mut failed: Option<MetelError> = None;
    let mut i: usize = 0;
    while i < s.len()
        invariant
            i <= s@.len(),
            site == (Site { reg: *registry, extra: extra@, module: texts(module@), span: span@ }),
            opt_error(failed) == assocs_error(site, t@, s@, choices_view(vars@), i as int),
        decreases s@.len() - i,
    {
        if failed.is_none() {
            failed = check_assoc(registry, extra, module, span, t, &s[i], vars);
        }
        i += 1;
    }
    failed
}

/// Check the constraints on associated types that a scheme carries.
pub fn check_scheme_assoc_eq(
    registry: &TypeDefinitionRegistry,
    extra: &Vec<AspectImpl>,
    module: &Vec<String>,
    span: &Span,
    scheme: &TypeScheme,
    vars: &Vec<(TypeVar, Type)>,
) -> (r: Option<MetelError>)
    ensures
        opt_error(r) == scheme_assoc_error(
            Site { reg: *registry, extra: extra@, module: texts(module@), span: span@ },
            *scheme,
            choices_view(vars@),
            assoc_len(*scheme),
        ),
{
    let ghost site = Site { reg: *registry, extra: extra@, module: texts(module@), span: span@ };
    let mut failed: Option<MetelError> = None;
    let mut i: usize = 0;
    while i < scheme.quantified_vars.len() && i < scheme.assoc_eq_constraints.len()
        invariant
            i <= scheme.quantified_vars@.len(),
            i <= scheme.assoc_eq_constraints@.len(),
            site == (Site { reg: *registry, extra: extra@, module: texts(module@), span: span@ }),
            opt_error(failed) == scheme_assoc_error(site, *scheme, choices_view(vars@), i as int),
        decreases scheme.quantified_vars@.len() - i,
    {
        if failed.is_none() {
            if let Some(t) = find_choice(vars, scheme.quantified_vars[i]) {
                failed =
                check_assocs(registry, extra, module, span, t, &scheme.assoc_eq_constraints[i], vars);
            }
        }
        i += 1;
    }
    failed
}

/// Check the constraints on associated types that a function is declared with.
pub fn check_fun_call_assoc_eq(
    registry: &TypeDefinitionRegistry,
    extra: &Vec<AspectImpl>,
    module: &Vec<String>,
    span: &Span,
    fun: &str,
    vars: &Vec<(TypeVar, Type)>,
) -> (r: Option<MetelError>)
    ensures
        opt_error(r) == (match fun_params_of(*registry, fun@) {
            Some(info) => fun_assoc_error(
                Site { reg: *registry, extra: extra@, module: texts(module@), span: span@ },
                info.vars@,
                choices_view(vars@),
                info.vars@.len() as int,
            ),
            None => None,
        }),
{
    let ghost site = Site { reg: *registry, extra: extra@, module: texts(module@), span: span@ };
    let info: &FunParamInfo = match registry.fun_param_info(fun) {
        Some(info) => info,
        None => {
            return None;
        },
    };
    let mut failed: Option<MetelError> = None;
    let mut i: usize = 0;
    while i < info.vars.len()
        invariant
            i <= info.vars@.len(),
            site == (Site { reg: *registry, extra: extra@, module: texts(module@), span: span@ }),
            fun_params_of(*registry, fun@) == Some(*info),
            opt_error(failed) == fun_assoc_error(
                site,
                info.vars@,
                choices_view(vars@),
                i as int,
            ),
        decreases info.vars@.len() - i,
    {
        if failed.is_none() {
            if let Some(t) = find_choice(vars, info.vars[i].var) {
                failed = check_assocs(registry, extra, module, span, t, &info.vars[i].assoc_eq, vars);
            }
        }
        i += 1;
    }
    failed
}

/// Check the types chosen at a call of a function.
pub fn check_choices(
    registry: &TypeDefinitionRegistry,
    extra: &Vec<AspectImpl>,
    module: &Vec<String>,
    span: &Span,
    fun: &str,
    scheme: &TypeScheme,
    vars: &Vec<(TypeVar, Type)>,
) -> (r: Option<MetelError>)
    ensures
        opt_error(r) == choice_error(
            Site { reg: *registry, extra: extra@, module: texts(module@), span: span@ },
            fun@,
            *scheme,
            choices_view(vars@),
        ),
{
    let e: Option<MetelError> = check_fun_call_bounds(registry, extra, module, span, fun, vars, false);
    if e.is_some() {
        return e;
    }
    let e: Option<MetelError> = check_scheme_bounds(
        registry,
        extra,
        module,
        span,
        fun,
        scheme,
        vars,
        false,
    );
    if e.is_some() {
        return e;
    }
    let e: Option<MetelError> = check_fun_call_assoc_eq(registry, extra, module, span, fun, vars);
    if e.is_some() {
        return e;
    }
    let e: Option<MetelError> = check_scheme_assoc_eq(registry, extra, module, span, scheme, vars);
    if e.is_some() {
        return e;
    }
    let e: Option<MetelError> = check_fun_call_bounds(registry, extra, module, span, fun, vars, true);
    if e.is_some() {
        return e;
    }
    check_scheme_bounds(registry, extra, module, span, fun, scheme, vars, true)
}

/// The bindings once the first `n` parameters accept the types of the arguments, one after the
/// other.
pub open spec fn solve_args(
    m: Map<TypeVar, InferTypeV>,
    params: Seq<InferTypeV>,
    args: Seq<TypeV>,
    n: int,
) -> Option<Map<TypeVar, InferTypeV>>
    decreases n,
{
    if n <= 0 || n > params.len() || n > args.len() {
        Some(m)
    } else {
        match solve_args(m, params, args, n - 1) {
            Some(m1) => solve(m1, params[n - 1], args[n - 1]),
            None => None,
        }
    }
}

/// The bindings once those of the first `n` parameters that can accept the types of the
/// arguments do; one that cannot binds nothing.
pub open spec fn solve_some(
    m: Map<TypeVar, InferTypeV>,
    params: Seq<InferTypeV>,
    args: Seq<TypeV>,
    n: int,
) -> Map<TypeVar, InferTypeV>
    decreases n,
{
    if n <= 0 || n > params.len() || n > args.len() {
        m
    } else {
        let m1 = solve_some(m, params, args, n - 1);
        match solve(m1, params[n - 1], args[n - 1]) {
            Some(m2) => m2,
            None => m1,
        }
    }
}

/// The shorter of two lengths.
pub open spec fn shorter(a: nat, b: nat) -> int {
    if a <= b {
        a as int
    } else {
        b as int
    }
}

/// Variables bound to types by position, the first `n` of them.
pub open spec fn bound_vars(
    m: Map<TypeVar, InferTypeV>,
    vars: Seq<TypeVar>,
    types: Seq<TypeV>,
    n: int,
) -> Map<TypeVar, InferTypeV>
    decreases n,
{
    if n <= 0 || n > vars.len() || n > types.len() {
        m
    } else {
        bound_vars(m, vars, types, n - 1).insert(vars[n - 1], lifted(types[n - 1]))
    }
}

/// The bindings once the first `n` associated types that a scheme mentions are looked up.
/// `ren` says which variables stand for those of the scheme.
pub open spec fn projected_assocs(
    reg: TypeDefinitionRegistry,
    module: Seq<Seq<char>>,
    scheme: TypeScheme,
    ren: Map<TypeVar, InferTypeV>,
    m: Map<TypeVar, InferTypeV>,
    n: int,
) -> Map<TypeVar, InferTypeV>
    decreases n,
{
    if n <= 0 || n > scheme.assoc_projections@.len() {
        m
    } else {
        let before = projected_assocs(reg, module, scheme, ren, m, n - 1);
        match scheme.assoc_projections@[n - 1] {
            Some(p) => if p.base < scheme.quantified_vars@.len() {
                projected_assoc(
                    reg,
                    module,
                    p,
                    substituted(ren, InferTypeV::Var(scheme.quantified_vars@[p.base as int])),
                    substituted(ren, InferTypeV::Var(p.placeholder)),
                    before,
                )
            } else {
                before
            },
            None => before,
        }
    }
}

/// The bindings once one associated type is looked up: of `base`, for `placeholder`.
pub open spec fn projected_assoc(
    reg: TypeDefinitionRegistry,
    module: Seq<Seq<char>>,
    p: AssocProjection,
    base: InferTypeV,
    placeholder: InferTypeV,
    m: Map<TypeVar, InferTypeV>,
) -> Map<TypeVar, InferTypeV> {
    match (substituted(m, base), placeholder) {
        (InferTypeV::Named(name, _), InferTypeV::Var(v)) => match assoc_type_of(
            reg,
            module,
            name,
            p.aspect@,
            p.assoc@,
        ) {
            Some(t) => m.insert(v, InferTypeV::Concrete(t)),
            None => m,
        },
        _ => m,
    }
}

/// The bindings once the opaque return types of the first `n` variables are filled in.
pub open spec fn opened_returns(
    scheme: TypeScheme,
    ren: Map<TypeVar, InferTypeV>,
    m: Map<TypeVar, InferTypeV>,
    n: int,
) -> Map<TypeVar, InferTypeV>
    decreases n,
{
    if n <= 0 || n > scheme.opaque_returns@.len() || n > scheme.quantified_vars@.len() {
        m
    } else {
        let before = opened_returns(scheme, ren, m, n - 1);
        match (
            scheme.opaque_returns@[n - 1],
            substituted(ren, InferTypeV::Var(scheme.quantified_vars@[n - 1])),
        ) {
            (Some(o), InferTypeV::Var(v)) => before.insert(v, InferTypeV::Concrete(o.ty@)),
            _ => before,
        }
    }
}

/// The types that the bindings give the first `n` variables of a scheme, where they give one.
pub open spec fn choices(
    q: Seq<TypeVar>,
    ren: Map<TypeVar, InferTypeV>,
    m: Map<TypeVar, InferTypeV>,
    n: int,
) -> Seq<(TypeVar, TypeV)>
    decreases n,
{
    if n <= 0 || n > q.len() {
        Seq::empty()
    } else {
        let before = choices(q, ren, m, n - 1);
        let t = substituted(m, substituted(ren, InferTypeV::Var(q[n - 1])));
        if resolved(t) {
            before.push((q[n - 1], lowered(t)))
        } else {
            before
        }
    }
}

/// The bindings that a call finds: from its arguments, from the type that is expected of it, from
/// associated types and from opaque return types.
pub open spec fn call_bindings(
    reg: TypeDefinitionRegistry,
    module: Seq<Seq<char>>,
    scheme: TypeScheme,
    ren: Map<TypeVar, InferTypeV>,
    solved: Map<TypeVar, InferTypeV>,
) -> Map<TypeVar, InferTypeV> {
    opened_returns(
        scheme,
        ren,
        projected_assocs(
            reg,
            module,
            scheme,
            ren,
            solved,
            scheme.assoc_projections@.len() as int,
        ),
        shorter(scheme.opaque_returns@.len(), scheme.quantified_vars@.len()),
    )
}

/// A scheme at a call: the function type for the types of the arguments, and, where it is given,
/// the type that is expected back, with the types chosen for the variables.
pub open spec fn call_instance(
    reg: TypeDefinitionRegistry,
    module: Seq<Seq<char>>,
    scheme: TypeScheme,
    args: Seq<TypeV>,
    expected: Option<TypeV>,
    span: SpanV,
    next: u32,
) -> Result<(TypeV, Seq<(TypeVar, TypeV)>), MetelErrorV> {
    let q = scheme.quantified_vars@;
    let ren = renaming(q, next, q.len() as int);
    match substituted(ren, scheme.ty@) {
        InferTypeV::Fun(params, ret) => match solve_args(
            Map::empty(),
            params,
            args,
            shorter(params.len(), args.len()),
        ) {
            None => Err(type_failure(TypeErrorCode::T0001, "argument type mismatch"@, span)),
            Some(m) => match match expected {
                Some(t) => solve(m, *ret, t),
                None => Some(m),
            } {
                None => Err(
                    type_failure(
                        TypeErrorCode::T0001,
                        "return type does not match annotation"@,
                        span,
                    ),
                ),
                Some(m1) => {
                    let m2 = call_bindings(reg, module, scheme, ren, m1);
                    match lower(substituted(m2, InferTypeV::Fun(params, ret)), span) {
                        Ok(t) => Ok((t, choices(q, ren, m2, q.len() as int))),
                        Err(e) => Err(e),
                    }
                },
            },
        },
        _ => Err(MetelErrorV::Internal { message: "scheme type is not a function"@ }),
    }
}

/// Variables paired with the types given for them.
pub open spec fn paired(q: Seq<TypeVar>, types: Seq<TypeV>) -> Seq<(TypeVar, TypeV)> {
    Seq::new(q.len(), |i: int| (q[i], types[i]))
}

/// A scheme whose type arguments are written out.
pub open spec fn turbofish_instance(
    reg: TypeDefinitionRegistry,
    module: Seq<Seq<char>>,
    scheme: TypeScheme,
    types: Seq<TypeV>,
    span: SpanV,
) -> Result<(TypeV, Seq<(TypeVar, TypeV)>), MetelErrorV> {
    let q = scheme.quantified_vars@;
    if types.len() != q.len() {
        Err(
            type_failure(
                TypeErrorCode::T0004,
                "expected "@ + decimal(q.len()) + " type argument(s), got "@ + decimal(types.len()),
                span,
            ),
        )
    } else {
        let m = call_bindings(
            reg,
            module,
            scheme,
            Map::empty(),
            bound_vars(Map::empty(), q, types, q.len() as int),
        );
        match lower(substituted(m, scheme.ty@), span) {
            Ok(t) => Ok((t, paired(q, types))),
            Err(e) => Err(e),
        }
    }
}

fn unify_args(subst: &mut Substitution, params: &Vec<InferType>, args: &Vec<Type>) -> (r: bool)
    ensures
        match solve_args(
            old(subst)@,
            infer_types_view(params@),
            types_view(args@),
            shorter(infer_types_view(params@).len(), types_view(args@).len()),
        ) {
            Some(m) => r && final(subst)@ == m,
            None => !r,
        },
{
    let ghost ps = infer_types_view(params@);
    let ghost ts = types_view(args@);
    let ghost start = subst@;
    assert(ps.len() == params@.len());
    assert(ts.len() == args@.len());
    let mut ok: bool = true;
    let mut i: usize = 0;
    while i < params.len() && i < args.len()
        invariant
            i <= params@.len(),
            i <= args@.len(),
            ps == infer_types_view(params@),
            ts == types_view(args@),
            ps.len() == params@.len(),
            ts.len() == args@.len(),
            match solve_args(start, ps, ts, i as int) {
                Some(m) => ok && subst@ == m,
                None => !ok,
            },
        decreases params@.len() - i,
    {
        assert(ps[i as int] == infer_type_view(params@[i as int]));
        assert(ts[i as int] == type_view(args@[i as int]));
        if ok {
            ok = unify(subst, &params[i], &args[i]);
        }
        i += 1;
    }
    ok
}

/// Bind what can be bound for parameters to accept arguments.
pub fn unify_some(subst: &mut Substitution, params: &Vec<InferType>, args: &Vec<Type>)
    ensures
        final(subst)@ == solve_some(
            old(subst)@,
            infer_types_view(params@),
            types_view(args@),
            shorter(infer_types_view(params@).len(), types_view(args@).len()),
        ),
{
    let ghost ps = infer_types_view(params@);
    let ghost ts = types_view(args@);
    let ghost start = subst@;
    assert(ps.len() == params@.len());
    assert(ts.len() == args@.len());
    let mut i: usize = 0;
    while i < params.len() && i < args.len()
        invariant
            i <= params@.len(),
            i <= args@.len(),
            ps == infer_types_view(params@),
            ts == types_view(args@),
            ps.len() == params@.len(),
            ts.len() == args@.len(),
            subst@ == solve_some(start, ps, ts, i as int),
        decreases params@.len() - i,
    {
        assert(ps[i as int] == infer_type_view(params@[i as int]));
        assert(ts[i as int] == type_view(args@[i as int]));
        let mut trial: Substitution = subst.copy();
        if unify(&mut trial, &params[i], &args[i]) {
            *subst = trial;
        }
        i += 1;
    }
}

/// Bind variables to types by position.
pub fn bind_vars(subst: &mut Substitution, vars: &Vec<TypeVar>, types: &Vec<Type>)
    ensures
        final(subst)@ == bound_vars(
            old(subst)@,
            vars@,
            types_view(types@),
            shorter(vars@.len(), types_view(types@).len()),
        ),
{
    let ghost ts = types_view(types@);
    let ghost start = subst@;
    assert(ts.len() == types@.len());
    let mut i: usize = 0;
    while i < vars.len() && i < types.len()
        invariant
            i <= vars@.len(),
            i <= types@.len(),
            ts == types_view(types@),
            ts.len() == types@.len(),
            subst@ == bound_vars(start, vars@, ts, i as int),
        decreases vars@.len() - i,
    {
        assert(ts[i as int] == type_view(types@[i as int]));
        subst.bind(vars[i], type_to_infer(&types[i]));
        i += 1;
    }
}

fn project_assoc(
    registry: &TypeDefinitionRegistry,
    module: &Vec<String>,
    p: &AssocProjection,
    base: &InferType,
    placeholder: &InferType,
    subst: &mut Substitution,
)
    ensures
        final(subst)@ == projected_assoc(
            *registry,
            texts(module@),
            *p,
            base@,
            placeholder@,
            old(subst)@,
        ),
{
    if let InferType::Named(name, _) = subst.apply(base) {
        if let InferType::Var(v) = placeholder {
            if let Some(t) = registry.impl_assoc_type(
                module,
                name.as_str(),
                p.aspect.as_str(),
                p.assoc.as_str(),
            ) {
                subst.bind(*v, InferType::Concrete(t.copy()));
            }
        }
    }
}

fn bind_call(
    registry: &TypeDefinitionRegistry,
    module: &Vec<String>,
    scheme: &TypeScheme,
    ren: &Substitution,
    subst: &mut Substitution,
)
    ensures
        final(subst)@ == call_bindings(*registry, texts(module@), *scheme, ren@, old(subst)@),
{
    let ghost start = subst@;
    let mut i: usize = 0;
    while i < scheme.assoc_projections.len()
        invariant
            i <= scheme.assoc_projections@.len(),
            subst@ == projected_assocs(
                *registry,
                texts(module@),
                *scheme,
                ren@,
                start,
                i as int,
            ),
        decreases scheme.assoc_projections@.len() - i,
    {
        if let Some(p) = &scheme.assoc_projections[i] {
            if p.base < scheme.quantified_vars.len() {
                let base: InferType = ren.apply(&InferType::Var(scheme.quantified_vars[p.base]));
                let placeholder: InferType = ren.apply(&InferType::Var(p.placeholder));
                project_assoc(registry, module, p, &base, &placeholder, subst);
            }
        }
        i += 1;
    }
    let ghost mid = subst@;
    let mut j: usize = 0;
    while j < scheme.opaque_returns.len() && j < scheme.quantified_vars.len()
        invariant
            j <= scheme.opaque_returns@.len(),
            j <= scheme.quantified_vars@.len(),
            subst@ == opened_returns(*scheme, ren@, mid, j as int),
        decreases scheme.opaque_returns@.len() - j,
    {
        if let Some(o) = &scheme.opaque_returns[j] {
            if let InferType::Var(v) = ren.apply(&InferType::Var(scheme.quantified_vars[j])) {
                subst.bind(v, InferType::Concrete(o.ty.copy()));
            }
        }
        j += 1;
    }
}

fn collect_choices(scheme: &TypeScheme, ren: &Substitution, subst: &Substitution) -> (r: Vec<
    (TypeVar, Type),
>)
    ensures
        choices_view(r@) == choices(
            scheme.quantified_vars@,
            ren@,
            subst@,
            scheme.quantified_vars@.len() as int,
        ),
{
    let ghost q = scheme.quantified_vars@;
    let mut out: Vec<(TypeVar, Type)> = Vec::new();
    assert(choices_view(out@) =~= Seq::empty());
    let mut i: usize = 0;
    while i < scheme.quantified_vars.len()
        invariant
            i <= q.len(),
            q == scheme.quantified_vars@,
            choices_view(out@) == choices(q, ren@, subst@, i as int),
        decreases q.len() - i,
    {
        let v: TypeVar = scheme.quantified_vars[i];
        let t: InferType = subst.apply(&ren.apply(&InferType::Var(v)));
        if let Some(ty) = infer_to_type(&t) {
            let ghost before = choices_view(out@);
            let ghost view = ty@;
            out.push((v, ty));
            assert(choices_view(out@) =~= before.push((v, view)));
        }
        i += 1;
    }
    out
}

/// Instantiate a scheme for the types of the arguments of a call, and, where it is given, the
/// type that is expected of it.
pub fn instantiate_scheme_for_call(
    registry: &TypeDefinitionRegistry,
    module: &Vec<String>,
    scheme: &TypeScheme,
    arg_types: &Vec<Type>,
    expected: Option<&Type>,
    span: &Span,
    gen: &mut TypeVarGenerator,
) -> (r: Result<(Type, Vec<(TypeVar, Type)>), MetelError>)
    ensures
        final(gen).next == after_fresh(old(gen).next, scheme.quantified_vars@.len() as int),
        match call_instance(
            *registry,
            texts(module@),
            *scheme,
            types_view(arg_types@),
            match expected {
                Some(t) => Some(t@),
                None => None,
            },
            span@,
            old(gen).next,
        ) {
            Ok(x) => r matches Ok(y) && y.0@ == x.0 && choices_view(y.1@) == x.1,
            Err(e) => r matches Err(x) && x@ == e,
        },
{
    let (instance, ren) = instantiate_with_renaming(scheme, gen);
    let mut subst: Substitution = Substitution::new();
    match &instance {
        InferType::Fun(params, ret) => {
            if !unify_args(&mut subst, params, arg_types) {
                return Err(
                    MetelError::type_error(
                        TypeErrorCode::T0001,
                        "argument type mismatch".to_owned(),
                        span,
                    ),
                );
            }
            if let Some(t) = expected {
                if !unify(&mut subst, ret, t) {
                    return Err(
                        MetelError::type_error(
                            TypeErrorCode::T0001,
                            "return type does not match annotation".to_owned(),
                            span,
                        ),
                    );
                }
            }
        },
        _ => {
            return Err(MetelError::internal("scheme type is not a function".to_owned()));
        },
    }
    bind_call(registry, module, scheme, &ren, &mut subst);
    match infer_type_to_type(&subst.apply(&instance), span) {
        Ok(t) => Ok((t, collect_choices(scheme, &ren, &subst))),
        Err(e) => Err(e),
    }
}

/// Instantiate a scheme with the type arguments that are written out.
pub fn instantiate_scheme_with_turbofish(
    registry: &TypeDefinitionRegistry,
    module: &Vec<String>,
    scheme: &TypeScheme,
    types: &Vec<Type>,
    span: &Span,
) -> (r: Result<(Type, Vec<(TypeVar, Type)>), MetelError>)
    ensures
        match turbofish_instance(
            *registry,
            texts(module@),
            *scheme,
            types_view(types@),
            span@,
        ) {
            Ok(x) => r matches Ok(y) && y.0@ == x.0 && choices_view(y.1@) == x.1,
            Err(e) => r matches Err(x) && x@ == e,
        },
{
    let ghost ts = types_view(types@);
    assert(ts.len() == types@.len());
    if types.len() != scheme.quantified_vars.len() {
        let mut message: String = "expected ".to_owned();
        message.append(decimal_text(scheme.quantified_vars.len() as u64).as_str());
        message.append(" type argument(s), got ");
        message.append(decimal_text(types.len() as u64).as_str());
        return Err(MetelError::type_error(TypeErrorCode::T0004, message, span));
    }
    let mut subst: Substitution = Substitution::new();
    bind_vars(&mut subst, &scheme.quantified_vars, types);
    let ren: Substitution = Substitution::new();
    bind_call(registry, module, scheme, &ren, &mut subst);
    match infer_type_to_type(&subst.apply(&scheme.ty), span) {
        Ok(t) => {
            let mut out: Vec<(TypeVar, Type)> = Vec::new();
            let mut i: usize = 0;
            while i < types.len()
                invariant
                    i <= types@.len(),
                    types@.len() == scheme.quantified_vars@.len(),
                    out@.len() == i,
                    ts == types_view(types@),
                    ts.len() == types@.len(),
                    forall|k: int|
                        0 <= k < i ==> (#[trigger] out@[k]).0 == scheme.quantified_vars@[k]
                            && out@[k].1@ == ts[k],
                decreases types@.len() - i,
            {
                assert(ts[i as int] == type_view(types@[i as int]));
                out.push((scheme.quantified_vars[i], types[i].copy()));
                i += 1;
            }
            assert(choices_view(out@) =~= paired(scheme.quantified_vars@, ts));
            Ok((t, out))
        },
        Err(e) => Err(e),
    }
}

} // verus!
