//! The types that are chosen for type parameters meet what is asked of them.
use vstd::prelude::*;
use crate::infer::{lifted, InferTypeV, TypeVar};
use crate::lookup::{assoc_type_of, fun_params_of};
use crate::lookup_laws::lemma_first_where_congruent;
use crate::registry::{first_where, lemma_first_at, FunParamInfo, FunVarInfo};
use crate::registry::TypeDefinitionRegistry;
use crate::scheme::{AssocEq, TypeScheme};
use crate::types::{type_text, TypeV};
use super::bounds::{asked_error, Site};
use super::schemes::{assoc_error, assoc_len, assocs_error, bounds_at, choice_error, chosen};
use super::schemes::{expected_assoc, fun_assoc_error, fun_error, fun_var, kind_at, named_len};
use super::schemes::{scheme_assoc_error, scheme_error, scheme_generics};

verus! {

/// The type chosen for a variable is the one listed first for it.
pub proof fn law_choices_are_found_by_variable(vars: Seq<(TypeVar, TypeV)>, v: TypeVar)
    ensures
        match chosen(vars, v) {
            Some(t) => exists|k: int|
                0 <= k < vars.len() && (#[trigger] vars[k]).0 == v && vars[k].1 == t && forall|j: int|
                    0 <= j < k ==> (#[trigger] vars[j]).0 != v,
            None => forall|j: int| 0 <= j < vars.len() ==> (#[trigger] vars[j]).0 != v,
        },
    decreases vars.len(),
{
    if vars.len() > 0 && vars[0].0 != v {
        let rest = vars.skip(1);
        law_choices_are_found_by_variable(rest, v);
        match chosen(rest, v) {
            Some(t) => {
                let k = choose|k: int|
                    0 <= k < rest.len() && (#[trigger] rest[k]).0 == v && rest[k].1 == t
                        && forall|j: int| 0 <= j < k ==> (#[trigger] rest[j]).0 != v;
                assert(vars[k + 1] == rest[k]);
                assert forall|j: int| 0 <= j < k + 1 implies (#[trigger] vars[j]).0 != v by {
                    if j > 0 {
                        assert(rest[j - 1] == vars[j]);
                    }
                }
            },
            None => {
                assert forall|j: int| 0 <= j < vars.len() implies (#[trigger] vars[j]).0 != v by {
                    if j > 0 {
                        assert(rest[j - 1] == vars[j]);
                    }
                }
            },
        }
    }
}

/// Whether the type chosen for a variable of a scheme, if there is one, meets the bounds at the
/// position of the variable.
pub open spec fn position_met(
    site: Site,
    owner: Seq<char>,
    scheme: TypeScheme,
    vars: Seq<(TypeVar, TypeV)>,
    negative: bool,
    i: int,
) -> bool {
    chosen(vars, scheme.quantified_vars@[i]) matches Some(t) ==> ({
        let lists = if negative {
            scheme.neg_bounds@
        } else {
            scheme.bounds@
        };
        let record_kind = i < scheme.record_kinds@.len() && scheme.record_kinds@[i];
        let generics = scheme_generics(scheme, vars, named_len(scheme));
        &&& i < lists.len() ==> asked_error(
            site,
            t,
            lists[i]@,
            record_kind,
            owner,
            generics,
            negative,
        ) is None
        &&& i >= lists.len() && record_kind ==> t is Record
    })
}

/// The types chosen for the variables of a scheme meet its bounds just if each does, by position.
pub proof fn law_scheme_bounds_go_by_position(
    site: Site,
    owner: Seq<char>,
    scheme: TypeScheme,
    vars: Seq<(TypeVar, TypeV)>,
    negative: bool,
    n: int,
)
    requires
        0 <= n <= scheme.quantified_vars@.len(),
    ensures
        scheme_error(site, owner, scheme, vars, negative, n) is None <==> forall|i: int|
            0 <= i < n ==> #[trigger] position_met(site, owner, scheme, vars, negative, i),
    decreases n,
{
    if n > 0 {
        law_scheme_bounds_go_by_position(site, owner, scheme, vars, negative, n - 1);
        let i = n - 1;
        if let Some(t) = chosen(vars, scheme.quantified_vars@[i]) {
            super::bound_laws::law_bounds_are_met_one_by_one(
                site,
                t,
                Seq::empty(),
                kind_at(scheme.record_kinds@, i),
                owner,
                scheme_generics(scheme, vars, named_len(scheme)),
                negative,
            );
        }
        assert(position_met(site, owner, scheme, vars, negative, i) <==> (match chosen(
            vars,
            scheme.quantified_vars@[i],
        ) {
            Some(t) => asked_error(
                site,
                t,
                bounds_at(
                    if negative {
                        scheme.neg_bounds@
                    } else {
                        scheme.bounds@
                    },
                    i,
                ),
                kind_at(scheme.record_kinds@, i),
                owner,
                scheme_generics(scheme, vars, named_len(scheme)),
                negative,
            ) is None,
            None => true,
        }));
    }
}

/// What a type parameter of a scheme is called, and what it stands for.
pub proof fn law_parameters_stand_for_what_was_chosen(
    scheme: TypeScheme,
    vars: Seq<(TypeVar, TypeV)>,
    n: int,
)
    requires
        0 <= n <= scheme.quantified_vars@.len(),
        n <= scheme.param_names@.len(),
        forall|i: int|
            0 <= i < n ==> chosen(vars, #[trigger] scheme.quantified_vars@[i]) is Some,
    ensures
        scheme_generics(scheme, vars, n).len() == n,
        forall|i: int|
            0 <= i < n ==> (#[trigger] scheme_generics(scheme, vars, n)[i]).0
                == scheme.param_names@[i]@ && scheme_generics(scheme, vars, n)[i].1 == lifted(
                chosen(vars, scheme.quantified_vars@[i])->0,
            ),
    decreases n,
{
    if n > 0 {
        law_parameters_stand_for_what_was_chosen(scheme, vars, n - 1);
        assert(chosen(vars, scheme.quantified_vars@[n - 1]) is Some);
    }
}

/// What a function asks of a variable is found under the function and the variable.
pub proof fn law_demands_are_found_by_variable(
    reg: TypeDefinitionRegistry,
    fun: Seq<char>,
    info: FunParamInfo,
    v: TypeVar,
)
    requires
        fun_params_of(reg, fun) == Some(info),
    ensures
        match fun_var(reg, fun, v) {
            Some(e) => e.var == v && info.vars@.contains(e),
            None => forall|j: int| 0 <= j < info.vars@.len() ==> (#[trigger] info.vars@[j]).var != v,
        },
{
    broadcast use lemma_first_where_congruent;

    let p = |e: FunVarInfo| e.var == v;
    let k = lemma_first_at(info.vars@, p);
    assert(fun_var(reg, fun, v) == first_where(info.vars@, p));
}

/// The types chosen for the variables of a function meet what it is declared to ask just if each
/// meets what is asked of its variable.
pub proof fn law_declared_demands_are_met_one_by_one(
    site: Site,
    fun: Seq<char>,
    vars: Seq<(TypeVar, TypeV)>,
    negative: bool,
    n: int,
)
    requires
        0 <= n <= vars.len(),
    ensures
        fun_error(site, fun, vars, negative, n) is None <==> forall|i: int|
            0 <= i < n ==> (fun_var(site.reg, fun, (#[trigger] vars[i]).0) matches Some(info)
                ==> asked_error(
                site,
                vars[i].1,
                if negative {
                    info.neg_bounds@
                } else {
                    info.bounds@
                },
                info.record_kind,
                fun,
                Seq::empty(),
                negative,
            ) is None),
    decreases n,
{
    if n > 0 {
        law_declared_demands_are_met_one_by_one(site, fun, vars, negative, n - 1);
        let last = vars[n - 1];
    }
}

/// Whether an associated type of a type is the one that is asked for, as far as both are known.
pub open spec fn assoc_met(site: Site, t: TypeV, c: AssocEq, vars: Seq<(TypeVar, TypeV)>) -> bool {
    assoc_type_of(site.reg, site.module, type_text(t), c.aspect@, c.assoc@) matches Some(actual) ==> (
    expected_assoc(c, vars) matches Some(expected) ==> actual == expected)
}

proof fn lemma_assocs(
    site: Site,
    t: TypeV,
    s: Seq<AssocEq>,
    vars: Seq<(TypeVar, TypeV)>,
    n: int,
)
    requires
        0 <= n <= s.len(),
    ensures
        assocs_error(site, t, s, vars, n) is None <==> forall|i: int|
            0 <= i < n ==> assoc_met(site, t, #[trigger] s[i], vars),
    decreases n,
{
    if n > 0 {
        lemma_assocs(site, t, s, vars, n - 1);
        let last = s[n - 1];
        assert(assoc_error(site, t, last, vars) is None <==> assoc_met(site, t, last, vars));
    }
}

/// Whether every associated type that is asked of a variable of a scheme is as asked.
pub open spec fn assocs_met(
    site: Site,
    s: Seq<AssocEq>,
    v: TypeVar,
    vars: Seq<(TypeVar, TypeV)>,
) -> bool {
    chosen(vars, v) matches Some(t) ==> forall|j: int|
        0 <= j < s.len() ==> assoc_met(site, t, #[trigger] s[j], vars)
}

/// The associated types of what is chosen are as a scheme asks just if each is, by position.
pub proof fn law_associated_types_are_asked_by_position(
    site: Site,
    scheme: TypeScheme,
    vars: Seq<(TypeVar, TypeV)>,
    n: int,
)
    requires
        0 <= n <= assoc_len(scheme),
    ensures
        scheme_assoc_error(site, scheme, vars, n) is None <==> forall|i: int|
            0 <= i < n ==> assocs_met(
                site,
                #[trigger] scheme.assoc_eq_constraints@[i]@,
                scheme.quantified_vars@[i],
                vars,
            ),
    decreases n,
{
    if n > 0 {
        law_associated_types_are_asked_by_position(site, scheme, vars, n - 1);
        let s = scheme.assoc_eq_constraints@[n - 1]@;
        if let Some(t) = chosen(vars, scheme.quantified_vars@[n - 1]) {
            lemma_assocs(site, t, s, vars, s.len() as int);
        }
        assert(assocs_met(site, s, scheme.quantified_vars@[n - 1], vars) <==> (match chosen(
            vars,
            scheme.quantified_vars@[n - 1],
        ) {
            Some(t) => assocs_error(site, t, s, vars, s.len() as int) is None,
            None => true,
        }));
    }
}

/// The associated types of what is chosen are as a function asks just if each is, by variable.
pub proof fn law_associated_types_are_asked_by_variable(
    site: Site,
    s: Seq<FunVarInfo>,
    vars: Seq<(TypeVar, TypeV)>,
    n: int,
)
    requires
        0 <= n <= s.len(),
    ensures
        fun_assoc_error(site, s, vars, n) is None <==> forall|i: int|
            0 <= i < n ==> assocs_met(site, (#[trigger] s[i]).assoc_eq@, s[i].var, vars),
    decreases n,
{
    if n > 0 {
        law_associated_types_are_asked_by_variable(site, s, vars, n - 1);
        let last = s[n - 1];
        if let Some(t) = chosen(vars, last.var) {
            lemma_assocs(site, t, last.assoc_eq@, vars, last.assoc_eq@.len() as int);
        }
        assert(assocs_met(site, last.assoc_eq@, last.var, vars) <==> (match chosen(vars, last.var) {
            Some(t) => assocs_error(site, t, last.assoc_eq@, vars, last.assoc_eq@.len() as int) is None,
            None => true,
        }));
    }
}

/// What is asked of an associated type by a variable is what was chosen for it.
pub proof fn law_what_is_asked_is_what_was_chosen(
    c: AssocEq,
    vars: Seq<(TypeVar, TypeV)>,
    v: TypeVar,
    t: TypeV,
)
    requires
        c.expected@ == InferTypeV::Var(v),
    ensures
        chosen(vars, v) == Some(t) && lifted(t) is Concrete ==> expected_assoc(c, vars) == Some(t),
        chosen(vars, v) is None ==> expected_assoc(c, vars) is None,
{
}

/// A choice of types is accepted just if nothing that is asked of it is unmet: by the declaration of
/// the function and by its scheme, of aspects, of what is ruled out and of associated types.
pub proof fn law_a_choice_has_to_meet_everything(
    site: Site,
    fun: Seq<char>,
    scheme: TypeScheme,
    vars: Seq<(TypeVar, TypeV)>,
)
    ensures
        choice_error(site, fun, scheme, vars) is None <==> {
            let n = vars.len() as int;
            let q = scheme.quantified_vars@.len() as int;
            &&& fun_error(site, fun, vars, false, n) is None
            &&& fun_error(site, fun, vars, true, n) is None
            &&& scheme_error(site, fun, scheme, vars, false, q) is None
            &&& scheme_error(site, fun, scheme, vars, true, q) is None
            &&& scheme_assoc_error(site, scheme, vars, assoc_len(scheme)) is None
            &&& (fun_params_of(site.reg, fun) matches Some(info) ==> fun_assoc_error(
                site,
                info.vars@,
                vars,
                info.vars@.len() as int,
            ) is None)
        },
{
}

} // verus!
