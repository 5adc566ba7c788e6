//! What expansion promises: no alias is left.
use vstd::prelude::*;
use crate::ast::TypeExprV;
use crate::error::MetelErrorV;
use crate::registry::lemma_first_where;
use super::expansion::{alias_named, all_expanded, all_instantiated, bound_to, expanded};
use super::expansion::{fields_expanded, fields_instantiated, instantiated, name_expanded};
use super::expansion::{AliasV, Expansion};
use super::rewrite::{flat, flattened, inside};

verus! {

/// Whether a type mentions no alias.
pub open spec fn alias_free(al: Seq<AliasV>, t: TypeExprV) -> bool
    decreases t,
{
    match t {
        TypeExprV::Named(name, s) => alias_named(al, name) is None && all_alias_free(al, s),
        TypeExprV::Unit => true,
        TypeExprV::Tuple(s) => all_alias_free(al, s),
        TypeExprV::Record(s) => fields_alias_free(al, s),
        TypeExprV::Array(x) => alias_free(al, *x),
        TypeExprV::SizedArray(x, _) => alias_free(al, *x),
        TypeExprV::Reference(x) => alias_free(al, *x),
        TypeExprV::MutReference(x) => alias_free(al, *x),
        TypeExprV::Fun(s, x) => all_alias_free(al, s) && match x {
            Some(x) => alias_free(al, *x),
            None => true,
        },
        TypeExprV::ImplAspect { bound } => alias_free(al, *bound),
        TypeExprV::DynAspect { bound } => alias_free(al, *bound),
        TypeExprV::Projection { base, .. } => alias_free(al, *base),
        TypeExprV::RecordProjection { .. } => true,
    }
}

/// [`alias_free`] for types.
pub open spec fn all_alias_free(al: Seq<AliasV>, s: Seq<TypeExprV>) -> bool
    decreases s,
{
    forall|i: int| 0 <= i < s.len() ==> alias_free(al, #[trigger] s[i])
}

/// [`alias_free`] for the types of fields.
pub open spec fn fields_alias_free(al: Seq<AliasV>, s: Seq<(Seq<char>, TypeExprV)>) -> bool
    decreases s,
{
    forall|i: int| 0 <= i < s.len() ==> alias_free(al, (#[trigger] s[i]).1)
}

/// Whether no parameter of an alias has the name of an alias.
pub open spec fn params_apart(al: Seq<AliasV>) -> bool {
    forall|i: int, j: int|
        0 <= i < al.len() && 0 <= j < al[i].params.len() ==> alias_named(
            al,
            #[trigger] al[i].params[j],
        ) is None
}

/// Whether none of these names is an alias.
pub open spec fn none_alias(al: Seq<AliasV>, names: Seq<Seq<char>>) -> bool {
    forall|j: int| 0 <= j < names.len() ==> alias_named(al, #[trigger] names[j]) is None
}

proof fn lemma_bound_free(
    al: Seq<AliasV>,
    params: Seq<Seq<char>>,
    args: Seq<TypeExprV>,
    name: Seq<char>,
    k: int,
)
    requires
        all_alias_free(al, args),
    ensures
        match bound_to(params, args, name, k) {
            Some(t) => alias_free(al, t),
            None => true,
        },
    decreases k,
{
    if !(k <= 0 || k > params.len() || k > args.len()) {
        lemma_bound_free(al, params, args, name, k - 1);
        assert(alias_free(al, args[k - 1]));
    }
}

proof fn lemma_instantiated_free(
    al: Seq<AliasV>,
    params: Seq<Seq<char>>,
    args: Seq<TypeExprV>,
    t: TypeExprV,
)
    requires
        all_alias_free(al, args),
        alias_free(al, t),
    ensures
        alias_free(al, instantiated(params, args, t)),
    decreases t,
{
    match t {
        TypeExprV::Named(name, s) => {
            lemma_bound_free(al, params, args, name, params.len() as int);
            assert(all_alias_free(al, s));
            lemma_all_instantiated_free(al, params, args, s);
            let whole = TypeExprV::Named(name, all_instantiated(params, args, s));
            assert(alias_free(al, whole));
            assert(alias_free(al, t));
        },
        TypeExprV::Tuple(s) => lemma_all_instantiated_free(al, params, args, s),
        TypeExprV::Record(s) => {
            let out = fields_instantiated(params, args, s);
            assert(fields_alias_free(al, s));
            assert forall|i: int| 0 <= i < out.len() implies alias_free(al, (#[trigger] out[i]).1) by {
                assert(alias_free(al, s[i].1));
                lemma_instantiated_free(al, params, args, s[i].1);
            }
            assert(fields_alias_free(al, out));
        },
        TypeExprV::Array(x) => lemma_instantiated_free(al, params, args, *x),
        TypeExprV::SizedArray(x, _) => lemma_instantiated_free(al, params, args, *x),
        TypeExprV::Reference(x) => lemma_instantiated_free(al, params, args, *x),
        TypeExprV::MutReference(x) => lemma_instantiated_free(al, params, args, *x),
        TypeExprV::Fun(s, x) => {
            lemma_all_instantiated_free(al, params, args, s);
            match x {
                Some(x) => lemma_instantiated_free(al, params, args, *x),
                None => {},
            }
        },
        TypeExprV::ImplAspect { bound } => lemma_instantiated_free(al, params, args, *bound),
        TypeExprV::DynAspect { bound } => lemma_instantiated_free(al, params, args, *bound),
        TypeExprV::Projection { base, .. } => lemma_instantiated_free(al, params, args, *base),
        _ => {},
    }
}

proof fn lemma_all_instantiated_free(
    al: Seq<AliasV>,
    params: Seq<Seq<char>>,
    args: Seq<TypeExprV>,
    s: Seq<TypeExprV>,
)
    requires
        all_alias_free(al, args),
        all_alias_free(al, s),
    ensures
        all_alias_free(al, all_instantiated(params, args, s)),
    decreases s,
{
    let out = all_instantiated(params, args, s);
    assert forall|i: int| 0 <= i < out.len() implies alias_free(al, #[trigger] out[i]) by {
        assert(alias_free(al, s[i]));
        lemma_instantiated_free(al, params, args, s[i]);
    }
}

/// The aliases that a type may mention once `x` has done its work on it: those of `raw`, which
/// `x` knows, under the names of `raw`, and which have alias-free targets where `x` is flat.
spec fn sound(raw: Seq<AliasV>, x: Expansion) -> bool {
    &&& params_apart(raw)
    &&& none_alias(raw, x.local)
    &&& forall|name: Seq<char>|
        (#[trigger] alias_named(x.aliases, name)) is None ==> alias_named(raw, name) is None
    &&& if x.flat {
        forall|i: int|
            0 <= i < x.aliases.len() ==> alias_free(raw, (#[trigger] x.aliases[i]).target)
    } else {
        x.aliases == raw
    }
}

proof fn lemma_expanded_free(raw: Seq<AliasV>, x: Expansion, t: TypeExprV, fuel: nat)
    requires
        sound(raw, x),
    ensures
        match expanded(x, t, fuel) {
            Ok(u) => alias_free(raw, u),
            Err(_) => true,
        },
    decreases fuel, 1int, t, 0int,
{
    match t {
        TypeExprV::Named(name, s) => {
            lemma_all_expanded_free(raw, x, s, s.len() as int, fuel);
            match all_expanded(x, s, s.len() as int, fuel) {
                Ok(args) => lemma_name_free(raw, x, name, args, fuel),
                Err(_) => {},
            }
        },
        TypeExprV::Tuple(s) => lemma_all_expanded_free(raw, x, s, s.len() as int, fuel),
        TypeExprV::Record(s) => lemma_fields_expanded_free(raw, x, s, s.len() as int, fuel),
        TypeExprV::Array(y) => lemma_expanded_free(raw, x, *y, fuel),
        TypeExprV::SizedArray(y, _) => lemma_expanded_free(raw, x, *y, fuel),
        TypeExprV::Reference(y) => lemma_expanded_free(raw, x, *y, fuel),
        TypeExprV::MutReference(y) => lemma_expanded_free(raw, x, *y, fuel),
        TypeExprV::Fun(s, y) => {
            lemma_all_expanded_free(raw, x, s, s.len() as int, fuel);
            match y {
                Some(y) => lemma_expanded_free(raw, x, *y, fuel),
                None => {},
            }
        },
        TypeExprV::ImplAspect { bound } => lemma_expanded_free(raw, x, *bound, fuel),
        TypeExprV::DynAspect { bound } => lemma_expanded_free(raw, x, *bound, fuel),
        TypeExprV::Projection { base, .. } => lemma_expanded_free(raw, x, *base, fuel),
        _ => {},
    }
}

proof fn lemma_name_free(
    raw: Seq<AliasV>,
    x: Expansion,
    name: Seq<char>,
    args: Seq<TypeExprV>,
    fuel: nat,
)
    requires
        sound(raw, x),
        all_alias_free(raw, args),
    ensures
        match name_expanded(x, name, args, fuel) {
            Ok(u) => alias_free(raw, u),
            Err(_) => true,
        },
    decreases fuel, 0int, args, 0int,
{
    if x.local.contains(name) {
        let j = choose|j: int| 0 <= j < x.local.len() && x.local[j] == name;
        assert(alias_named(raw, x.local[j]) is None);
    } else {
        match alias_named(x.aliases, name) {
            None => {},
            Some(a) => {
                lemma_first_where(x.aliases, |a: AliasV| a.name == name);
                let i = choose|i: int| 0 <= i < x.aliases.len() && x.aliases[i] == a;
                if x.flat {
                    assert(alias_free(raw, x.aliases[i].target));
                    lemma_instantiated_free(raw, a.params, args, a.target);
                } else if !(x.chain.contains(a.name) || fuel == 0) {
                    let inner = Expansion {
                        local: a.params,
                        chain: x.chain.push(a.name),
                        ..x
                    };
                    assert(none_alias(raw, inner.local)) by {
                        assert forall|j: int| 0 <= j < a.params.len() implies alias_named(
                            raw,
                            #[trigger] a.params[j],
                        ) is None by {
                            assert(alias_named(raw, raw[i].params[j]) is None);
                        }
                    }
                    lemma_expanded_free(raw, inner, a.target, (fuel - 1) as nat);
                    match expanded(inner, a.target, (fuel - 1) as nat) {
                        Ok(body) => lemma_instantiated_free(raw, a.params, args, body),
                        Err(_) => {},
                    }
                }
            },
        }
    }
}

proof fn lemma_all_expanded_free(
    raw: Seq<AliasV>,
    x: Expansion,
    s: Seq<TypeExprV>,
    k: int,
    fuel: nat,
)
    requires
        sound(raw, x),
    ensures
        match all_expanded(x, s, k, fuel) {
            Ok(u) => all_alias_free(raw, u),
            Err(_) => true,
        },
    decreases fuel, 1int, s, k,
{
    if !(k <= 0 || k > s.len()) {
        lemma_all_expanded_free(raw, x, s, k - 1, fuel);
        lemma_expanded_free(raw, x, s[k - 1], fuel);
    }
}

proof fn lemma_fields_expanded_free(
    raw: Seq<AliasV>,
    x: Expansion,
    s: Seq<(Seq<char>, TypeExprV)>,
    k: int,
    fuel: nat,
)
    requires
        sound(raw, x),
    ensures
        match fields_expanded(x, s, k, fuel) {
            Ok(u) => fields_alias_free(raw, u),
            Err(_) => true,
        },
    decreases fuel, 1int, s, k,
{
    if !(k <= 0 || k > s.len()) {
        lemma_fields_expanded_free(raw, x, s, k - 1, fuel);
        lemma_expanded_free(raw, x, s[k - 1].1, fuel);
    }
}

proof fn lemma_flattened(raw: Seq<AliasV>, k: int)
    requires
        params_apart(raw),
        0 <= k <= raw.len(),
        flattened(raw, k) is Ok,
    ensures
        flattened(raw, k)->Ok_0.len() == k,
        forall|i: int|
            0 <= i < k ==> alias_free(raw, (#[trigger] flattened(raw, k)->Ok_0[i]).target)
                && flattened(raw, k)->Ok_0[i].name == raw[i].name,
    decreases k,
{
    if k > 0 {
        lemma_flattened(raw, k - 1);
        let a = raw[k - 1];
        assert(none_alias(raw, a.params)) by {
            assert forall|j: int| 0 <= j < a.params.len() implies alias_named(
                raw,
                #[trigger] a.params[j],
            ) is None by {
                assert(alias_named(raw, raw[k - 1].params[j]) is None);
            }
        }
        lemma_expanded_free(raw, inside(raw, a), a.target, raw.len());
    }
}

proof fn lemma_same_names(a: Seq<AliasV>, b: Seq<AliasV>, name: Seq<char>)
    requires
        a.len() == b.len(),
        forall|i: int| 0 <= i < a.len() ==> (#[trigger] a[i]).name == b[i].name,
    ensures
        alias_named(a, name) is None == alias_named(b, name) is None,
{
    let p = |x: AliasV| x.name == name;
    lemma_first_where(a, p);
    lemma_first_where(b, p);
    match alias_named(a, name) {
        Some(x) => {
            let i = choose|i: int| 0 <= i < a.len() && a[i] == x;
            assert(p(b[i]));
        },
        None => {
            if alias_named(b, name) is Some {
                let x = alias_named(b, name)->0;
                let i = choose|i: int| 0 <= i < b.len() && b[i] == x;
                assert(p(a[i]));
            }
        },
    }
}

/// Expansion leaves no alias in a type. No parameter of an alias may have the name of an alias, for
/// inside that alias the name is the parameter.
pub proof fn law_expansion_leaves_no_alias(raw: Seq<AliasV>, t: TypeExprV)
    requires
        params_apart(raw),
        flattened(raw, raw.len() as int) is Ok,
    ensures
        match expanded(flat(flattened(raw, raw.len() as int)->Ok_0), t, 0) {
            Ok(u) => alias_free(raw, u),
            Err(_) => true,
        },
{
    let al = flattened(raw, raw.len() as int)->Ok_0;
    lemma_flattened(raw, raw.len() as int);
    assert forall|name: Seq<char>| (#[trigger] alias_named(al, name)) is None implies alias_named(
        raw,
        name,
    ) is None by {
        lemma_same_names(al, raw, name);
    }
    lemma_expanded_free(raw, flat(al), t, 0);
}

/// A type that mentions no alias is left as it is.
pub proof fn law_a_type_without_aliases_is_kept(al: Seq<AliasV>, t: TypeExprV)
    requires
        alias_free(al, t),
    ensures
        expanded(flat(al), t, 0) == Ok::<TypeExprV, MetelErrorV>(t),
    decreases t,
{
    match t {
        TypeExprV::Named(name, s) => {
            assert(all_alias_free(al, s));
            lemma_all_kept(al, s);
            assert(!flat(al).local.contains(name));
            assert(name_expanded(flat(al), name, s, 0) == Ok::<TypeExprV, MetelErrorV>(t));
        },
        TypeExprV::Tuple(s) => lemma_all_kept(al, s),
        TypeExprV::Record(s) => lemma_fields_kept(al, s, s.len() as int),
        TypeExprV::Array(x) => law_a_type_without_aliases_is_kept(al, *x),
        TypeExprV::SizedArray(x, _) => law_a_type_without_aliases_is_kept(al, *x),
        TypeExprV::Reference(x) => law_a_type_without_aliases_is_kept(al, *x),
        TypeExprV::MutReference(x) => law_a_type_without_aliases_is_kept(al, *x),
        TypeExprV::Fun(s, x) => {
            lemma_all_kept(al, s);
            match x {
                Some(x) => law_a_type_without_aliases_is_kept(al, *x),
                None => {},
            }
        },
        TypeExprV::ImplAspect { bound } => law_a_type_without_aliases_is_kept(al, *bound),
        TypeExprV::DynAspect { bound } => law_a_type_without_aliases_is_kept(al, *bound),
        TypeExprV::Projection { base, .. } => law_a_type_without_aliases_is_kept(al, *base),
        _ => {},
    }
}

proof fn lemma_all_kept(al: Seq<AliasV>, s: Seq<TypeExprV>)
    requires
        all_alias_free(al, s),
    ensures
        all_expanded(flat(al), s, s.len() as int, 0) == Ok::<Seq<TypeExprV>, MetelErrorV>(s),
    decreases s,
{
    lemma_some_kept(al, s, s.len() as int);
    assert(s.take(s.len() as int) =~= s);
}

proof fn lemma_some_kept(al: Seq<AliasV>, s: Seq<TypeExprV>, k: int)
    requires
        all_alias_free(al, s),
        0 <= k <= s.len(),
    ensures
        all_expanded(flat(al), s, k, 0) == Ok::<Seq<TypeExprV>, MetelErrorV>(s.take(k)),
    decreases s, k,
{
    if k > 0 {
        lemma_some_kept(al, s, k - 1);
        assert(alias_free(al, s[k - 1]));
        law_a_type_without_aliases_is_kept(al, s[k - 1]);
        assert(s.take(k) =~= s.take(k - 1).push(s[k - 1]));
    } else {
        assert(s.take(0) =~= Seq::empty());
    }
}

proof fn lemma_fields_kept(al: Seq<AliasV>, s: Seq<(Seq<char>, TypeExprV)>, k: int)
    requires
        fields_alias_free(al, s),
        0 <= k <= s.len(),
    ensures
        fields_expanded(flat(al), s, k, 0) == Ok::<Seq<(Seq<char>, TypeExprV)>, MetelErrorV>(
            s.take(k),
        ),
        s.take(s.len() as int) == s,
    decreases s, k,
{
    assert(s.take(s.len() as int) =~= s);
    if k > 0 {
        lemma_fields_kept(al, s, k - 1);
        assert(alias_free(al, s[k - 1].1));
        law_a_type_without_aliases_is_kept(al, s[k - 1].1);
        assert(s.take(k) =~= s.take(k - 1).push(s[k - 1]));
    } else {
        assert(s.take(0) =~= Seq::empty());
    }
}

} // verus!
