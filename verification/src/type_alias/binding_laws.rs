//! What the arguments of an alias are for.
use vstd::prelude::*;
use crate::ast::TypeExprV;
use crate::error::{MetelErrorV, TypeErrorCode};
use crate::registry::lemma_first_where;
use super::expansion::{alias_named, all_expanded, all_instantiated, bound_to, expanded};
use super::expansion::{fields_expanded, fields_instantiated, instantiated, name_expanded, used};
use super::expansion::{AliasV, Expansion};
use super::laws::{alias_free, all_alias_free, fields_alias_free};
use super::laws::law_a_type_without_aliases_is_kept;
use super::rewrite::{flat, flattened, inside};

verus! {

/// Whether no name stands twice in a list.
pub open spec fn distinct(s: Seq<Seq<char>>) -> bool {
    forall|i: int, j: int| 0 <= i < j < s.len() ==> s[i] != s[j]
}

/// A name by itself.
pub open spec fn name_alone(name: Seq<char>) -> TypeExprV {
    TypeExprV::Named(name, Seq::empty())
}

proof fn lemma_bound_at(
    params: Seq<Seq<char>>,
    args: Seq<TypeExprV>,
    i: int,
    k: int,
)
    requires
        distinct(params),
        params.len() == args.len(),
        0 <= i < k <= params.len(),
    ensures
        bound_to(params, args, params[i], k) == Some(args[i]),
    decreases k,
{
    if i < k - 1 {
        assert(params[i] != params[k - 1]);
        lemma_bound_at(params, args, i, k - 1);
    }
}

proof fn lemma_unbound(params: Seq<Seq<char>>, args: Seq<TypeExprV>, name: Seq<char>, k: int)
    requires
        !params.contains(name),
    ensures
        bound_to(params, args, name, k) is None,
    decreases k,
{
    if !(k <= 0 || k > params.len() || k > args.len()) {
        assert(params.contains(params[k - 1]));
        lemma_unbound(params, args, name, k - 1);
    }
}

/// The parameter at a position stands for the argument at that position.
pub proof fn law_arguments_go_by_position(params: Seq<Seq<char>>, args: Seq<TypeExprV>, i: int)
    requires
        distinct(params),
        params.len() == args.len(),
        0 <= i < params.len(),
    ensures
        instantiated(params, args, TypeExprV::Named(params[i], Seq::empty())) == args[i],
{
    lemma_bound_at(params, args, i, params.len() as int);
}

/// A parameter is replaced wherever it stands, and nothing else changes: a name that is no
/// parameter stays, and so does one with type arguments of its own; every other type keeps its
/// form, and what changes is its parts.
pub proof fn law_only_parameters_are_replaced(
    params: Seq<Seq<char>>,
    args: Seq<TypeExprV>,
    name: Seq<char>,
    s: Seq<TypeExprV>,
    t: TypeExprV,
    n: u64,
)
    requires
        params.len() == args.len(),
    ensures
        ({
            let put = |t: TypeExprV| instantiated(params, args, t);
            let puts = Seq::new(s.len(), |i: int| instantiated(params, args, s[i]));
            &&& !params.contains(name) ==> put(TypeExprV::Named(name, s)) == TypeExprV::Named(
                name,
                puts,
            )
            &&& s.len() > 0 ==> put(TypeExprV::Named(name, s)) == TypeExprV::Named(name, puts)
            &&& put(TypeExprV::Unit) == TypeExprV::Unit
            &&& put(TypeExprV::Tuple(s)) == TypeExprV::Tuple(puts)
            &&& put(TypeExprV::Array(Box::new(t))) == TypeExprV::Array(Box::new(put(t)))
            &&& put(TypeExprV::SizedArray(Box::new(t), n)) == TypeExprV::SizedArray(
                Box::new(put(t)),
                n,
            )
            &&& put(TypeExprV::Reference(Box::new(t))) == TypeExprV::Reference(Box::new(put(t)))
            &&& put(TypeExprV::MutReference(Box::new(t))) == TypeExprV::MutReference(
                Box::new(put(t)),
            )
            &&& put(TypeExprV::Fun(s, None)) == TypeExprV::Fun(puts, None)
            &&& put(TypeExprV::Fun(s, Some(Box::new(t)))) == TypeExprV::Fun(
                puts,
                Some(Box::new(put(t))),
            )
            &&& put(TypeExprV::ImplAspect { bound: Box::new(t) }) == (TypeExprV::ImplAspect {
                bound: Box::new(put(t)),
            })
            &&& put(TypeExprV::DynAspect { bound: Box::new(t) }) == (TypeExprV::DynAspect {
                bound: Box::new(put(t)),
            })
            &&& put(TypeExprV::Projection { base: Box::new(t), assoc: name }) == (
            TypeExprV::Projection { base: Box::new(put(t)), assoc: name })
        }),
{
    let puts = Seq::new(s.len(), |i: int| instantiated(params, args, s[i]));
    assert(all_instantiated(params, args, s) =~= puts);
    if !params.contains(name) {
        lemma_unbound(params, args, name, params.len() as int);
        if s.len() == 0 {
            assert(s =~= puts);
        }
    }
}

/// The fields of a record keep their names and their order.
pub proof fn law_records_keep_their_fields(
    params: Seq<Seq<char>>,
    args: Seq<TypeExprV>,
    s: Seq<(Seq<char>, TypeExprV)>,
)
    ensures
        instantiated(params, args, TypeExprV::Record(s)) == TypeExprV::Record(
            Seq::new(s.len(), |i: int| (s[i].0, instantiated(params, args, s[i].1))),
        ),
{
    assert(fields_instantiated(params, args, s) =~= Seq::new(
        s.len(),
        |i: int| (s[i].0, instantiated(params, args, s[i].1)),
    ));
}

/// Whether an alias is the first of its name.
pub open spec fn first_named(al: Seq<AliasV>, k: int) -> bool {
    0 <= k < al.len() && forall|j: int| 0 <= j < k ==> (#[trigger] al[j]).name != al[k].name
}

proof fn lemma_first_named(al: Seq<AliasV>, k: int)
    requires
        first_named(al, k),
    ensures
        alias_named(al, al[k].name) == Some(al[k]),
    decreases k,
{
    let name = al[k].name;
    let p = |a: AliasV| a.name == name;
    crate::registry::lemma_first_where_skip(al, p, 0);
    assert(al.skip(0) =~= al);
    if k > 0 {
        assert(al[0].name != name);
        let rest = al.skip(1);
        assert forall|j: int| 0 <= j < k - 1 implies (#[trigger] rest[j]).name != rest[k - 1].name by {
            assert(rest[j] == al[j + 1]);
        }
        assert(rest[k - 1] == al[k]);
        lemma_first_named(rest, k - 1);
    }
}

/// The use of an alias is its target with the arguments of the use for its parameters, and with
/// the wrong number of arguments it is refused.
pub proof fn law_a_use_is_the_target_with_its_arguments(
    al: Seq<AliasV>,
    k: int,
    args: Seq<TypeExprV>,
)
    requires
        first_named(al, k),
        all_alias_free(al, args),
    ensures
        ({
            let a = al[k];
            let r = expanded(flat(al), TypeExprV::Named(a.name, args), 0);
            &&& args.len() == a.params.len() ==> r == Ok::<TypeExprV, MetelErrorV>(
                instantiated(a.params, args, a.target),
            )
            &&& args.len() != a.params.len() ==> (r matches Err(MetelErrorV::TypeError {
                code,
                span,
                ..
            }) && code == TypeErrorCode::T0004 && span == a.span)
        }),
{
    let a = al[k];
    lemma_first_named(al, k);
    lemma_args_kept(al, args, args.len() as int);
    assert(args.take(args.len() as int) =~= args);
    assert(!flat(al).local.contains(a.name));
    assert(name_expanded(flat(al), a.name, args, 0) == used(a, a.target, args));
    assert(expanded(flat(al), TypeExprV::Named(a.name, args), 0) == name_expanded(
        flat(al),
        a.name,
        args,
        0,
    ));
}

proof fn lemma_args_kept(al: Seq<AliasV>, s: Seq<TypeExprV>, k: int)
    requires
        all_alias_free(al, s),
        0 <= k <= s.len(),
    ensures
        all_expanded(flat(al), s, k, 0) == Ok::<Seq<TypeExprV>, MetelErrorV>(s.take(k)),
    decreases k,
{
    if k > 0 {
        lemma_args_kept(al, s, k - 1);
        assert(alias_free(al, s[k - 1]));
        law_a_type_without_aliases_is_kept(al, s[k - 1]);
        assert(s.take(k) =~= s.take(k - 1).push(s[k - 1]));
    } else {
        assert(s.take(0) =~= Seq::empty());
    }
}

/// An alias for the tuple of its parameters stands for the tuple of its arguments, in their order.
pub proof fn law_a_tuple_of_parameters_is_the_tuple_of_arguments(
    al: Seq<AliasV>,
    k: int,
    args: Seq<TypeExprV>,
)
    requires
        first_named(al, k),
        distinct(al[k].params),
        al[k].target == TypeExprV::Tuple(
            Seq::new(al[k].params.len(), |i: int| name_alone(al[k].params[i])),
        ),
        all_alias_free(al, args),
        args.len() == al[k].params.len(),
    ensures
        expanded(flat(al), TypeExprV::Named(al[k].name, args), 0) == Ok::<TypeExprV, MetelErrorV>(
            TypeExprV::Tuple(args),
        ),
{
    let a = al[k];
    let s = Seq::new(a.params.len(), |i: int| name_alone(a.params[i]));
    law_a_use_is_the_target_with_its_arguments(al, k, args);
    assert forall|i: int| 0 <= i < s.len() implies instantiated(a.params, args, #[trigger] s[i])
        == args[i] by {
        law_arguments_go_by_position(a.params, args, i);
    }
    assert(all_instantiated(a.params, args, s) =~= args);
}

/// An alias may be used inside the arguments of another: what is put for a parameter is the
/// argument with its own aliases expanded.
pub proof fn law_arguments_are_expanded_first(
    al: Seq<AliasV>,
    k: int,
    x: TypeExprV,
    y: TypeExprV,
)
    requires
        first_named(al, k),
        al[k].params.len() == 1,
        expanded(flat(al), x, 0) == Ok::<TypeExprV, MetelErrorV>(y),
    ensures
        expanded(flat(al), TypeExprV::Named(al[k].name, seq![x]), 0) == Ok::<
            TypeExprV,
            MetelErrorV,
        >(instantiated(al[k].params, seq![y], al[k].target)),
{
    lemma_first_named(al, k);
    let s = seq![x];
    assert(all_expanded(flat(al), s, 0, 0) == Ok::<Seq<TypeExprV>, MetelErrorV>(Seq::empty()));
    assert(s[0] == x);
    assert(Seq::<TypeExprV>::empty().push(y) =~= seq![y]);
    assert(all_expanded(flat(al), s, 1, 0) == Ok::<Seq<TypeExprV>, MetelErrorV>(seq![y]));
    assert(!flat(al).local.contains(al[k].name));
    assert(name_expanded(flat(al), al[k].name, seq![y], 0) == used(al[k], al[k].target, seq![y]));
    assert(expanded(flat(al), TypeExprV::Named(al[k].name, s), 0) == name_expanded(
        flat(al),
        al[k].name,
        seq![y],
        0,
    ));
}

proof fn lemma_kept(x: Expansion, t: TypeExprV, fuel: nat)
    requires
        alias_free(x.aliases, t),
    ensures
        expanded(x, t, fuel) == Ok::<TypeExprV, MetelErrorV>(t),
    decreases t,
{
    match t {
        TypeExprV::Named(name, s) => {
            assert(all_alias_free(x.aliases, s));
            lemma_all_kept(x, s, s.len() as int, fuel);
            assert(name_expanded(x, name, s, fuel) == Ok::<TypeExprV, MetelErrorV>(t));
        },
        TypeExprV::Tuple(s) => lemma_all_kept(x, s, s.len() as int, fuel),
        TypeExprV::Record(s) => lemma_fields_kept(x, s, s.len() as int, fuel),
        TypeExprV::Array(y) => lemma_kept(x, *y, fuel),
        TypeExprV::SizedArray(y, _) => lemma_kept(x, *y, fuel),
        TypeExprV::Reference(y) => lemma_kept(x, *y, fuel),
        TypeExprV::MutReference(y) => lemma_kept(x, *y, fuel),
        TypeExprV::Fun(s, y) => {
            lemma_all_kept(x, s, s.len() as int, fuel);
            match y {
                Some(y) => lemma_kept(x, *y, fuel),
                None => {},
            }
        },
        TypeExprV::ImplAspect { bound } => lemma_kept(x, *bound, fuel),
        TypeExprV::DynAspect { bound } => lemma_kept(x, *bound, fuel),
        TypeExprV::Projection { base, .. } => lemma_kept(x, *base, fuel),
        _ => {},
    }
}

proof fn lemma_all_kept(x: Expansion, s: Seq<TypeExprV>, k: int, fuel: nat)
    requires
        all_alias_free(x.aliases, s),
        0 <= k <= s.len(),
    ensures
        all_expanded(x, s, k, fuel) == Ok::<Seq<TypeExprV>, MetelErrorV>(s.take(k)),
        s.take(s.len() as int) == s,
    decreases s, k,
{
    assert(s.take(s.len() as int) =~= s);
    if k > 0 {
        lemma_all_kept(x, s, k - 1, fuel);
        assert(alias_free(x.aliases, s[k - 1]));
        lemma_kept(x, s[k - 1], fuel);
        assert(s.take(k) =~= s.take(k - 1).push(s[k - 1]));
    } else {
        assert(s.take(0) =~= Seq::empty());
    }
}

proof fn lemma_fields_kept(
    x: Expansion,
    s: Seq<(Seq<char>, TypeExprV)>,
    k: int,
    fuel: nat,
)
    requires
        fields_alias_free(x.aliases, s),
        0 <= k <= s.len(),
    ensures
        fields_expanded(x, s, k, fuel) == Ok::<Seq<(Seq<char>, TypeExprV)>, MetelErrorV>(s.take(k)),
        s.take(s.len() as int) == s,
    decreases s, k,
{
    assert(s.take(s.len() as int) =~= s);
    if k > 0 {
        lemma_fields_kept(x, s, k - 1, fuel);
        assert(alias_free(x.aliases, s[k - 1].1));
        lemma_kept(x, s[k - 1].1, fuel);
        assert(s.take(k) =~= s.take(k - 1).push(s[k - 1]));
    } else {
        assert(s.take(0) =~= Seq::empty());
    }
}

/// The target of an alias that uses another is that of the other with the arguments of the use for
/// its parameters.
pub proof fn law_a_target_may_use_another_alias(
    raw: Seq<AliasV>,
    j: int,
    k: int,
    args: Seq<TypeExprV>,
)
    requires
        0 <= j < raw.len(),
        first_named(raw, k),
        raw[j].name != raw[k].name,
        !raw[j].params.contains(raw[k].name),
        raw[j].target == TypeExprV::Named(raw[k].name, args),
        all_alias_free(raw, args),
        alias_free(raw, raw[k].target),
        args.len() == raw[k].params.len(),
    ensures
        flattened(raw, j + 1) matches Ok(out) ==> out[j].target == instantiated(
            raw[k].params,
            args,
            raw[k].target,
        ),
{
    let x = inside(raw, raw[j]);
    let b = raw[k];
    let fuel = raw.len();
    let inner = Expansion { local: b.params, chain: x.chain.push(b.name), ..x };
    lemma_first_named(raw, k);
    lemma_all_kept(x, args, args.len() as int, fuel);
    lemma_kept(inner, b.target, (fuel - 1) as nat);
    assert(!x.chain.contains(b.name)) by {
        assert(x.chain =~= seq![raw[j].name]);
    }
    assert(name_expanded(x, b.name, args, fuel) == used(b, b.target, args));
    assert(expanded(x, raw[j].target, fuel) == name_expanded(x, b.name, args, fuel));
    if flattened(raw, j + 1) is Ok && j > 0 {
        law_flattening_keeps_names_and_parameters(raw, j, 0);
    }
}

/// Whether a type mentions a name.
pub open spec fn mentions(t: TypeExprV, name: Seq<char>) -> bool
    decreases t,
{
    match t {
        TypeExprV::Named(n, s) => n == name || some_mention(s, name),
        TypeExprV::Unit => false,
        TypeExprV::Tuple(s) => some_mention(s, name),
        TypeExprV::Record(s) => some_field_mentions(s, name),
        TypeExprV::Array(x) => mentions(*x, name),
        TypeExprV::SizedArray(x, _) => mentions(*x, name),
        TypeExprV::Reference(x) => mentions(*x, name),
        TypeExprV::MutReference(x) => mentions(*x, name),
        TypeExprV::Fun(s, x) => some_mention(s, name) || match x {
            Some(x) => mentions(*x, name),
            None => false,
        },
        TypeExprV::ImplAspect { bound } => mentions(*bound, name),
        TypeExprV::DynAspect { bound } => mentions(*bound, name),
        TypeExprV::Projection { base, .. } => mentions(*base, name),
        TypeExprV::RecordProjection { .. } => false,
    }
}

/// Whether one of some types mentions a name.
pub open spec fn some_mention(s: Seq<TypeExprV>, name: Seq<char>) -> bool
    decreases s,
{
    exists|i: int| 0 <= i < s.len() && mentions(#[trigger] s[i], name)
}

/// Whether the type of one of some fields mentions a name.
pub open spec fn some_field_mentions(s: Seq<(Seq<char>, TypeExprV)>, name: Seq<char>) -> bool
    decreases s,
{
    exists|i: int| 0 <= i < s.len() && mentions((#[trigger] s[i]).1, name)
}

/// Whether a name is that of an alias whose expansion is under way.
spec fn under_way(x: Expansion, name: Seq<char>) -> bool {
    &&& !x.flat
    &&& x.chain.contains(name)
    &&& !x.local.contains(name)
    &&& alias_named(x.aliases, name) is Some
}

proof fn lemma_refused(x: Expansion, t: TypeExprV, name: Seq<char>, fuel: nat)
    requires
        under_way(x, name),
        mentions(t, name),
    ensures
        expanded(x, t, fuel) is Err,
    decreases t,
{
    match t {
        TypeExprV::Named(n, s) => {
            if n == name {
                lemma_first_where(x.aliases, |a: AliasV| a.name == name);
                match all_expanded(x, s, s.len() as int, fuel) {
                    Ok(args) => {
                        assert(name_expanded(x, name, args, fuel) is Err);
                    },
                    Err(_) => {},
                }
            } else {
                lemma_some_refused(x, s, name, fuel);
            }
        },
        TypeExprV::Tuple(s) => lemma_some_refused(x, s, name, fuel),
        TypeExprV::Record(s) => {
            assert(some_field_mentions(s, name));
            let i = choose|i: int| 0 <= i < s.len() && mentions((#[trigger] s[i]).1, name);
            lemma_refused(x, s[i].1, name, fuel);
            lemma_field_stops(x, s, i, s.len() as int, fuel);
        },
        TypeExprV::Array(y) => lemma_refused(x, *y, name, fuel),
        TypeExprV::SizedArray(y, _) => lemma_refused(x, *y, name, fuel),
        TypeExprV::Reference(y) => lemma_refused(x, *y, name, fuel),
        TypeExprV::MutReference(y) => lemma_refused(x, *y, name, fuel),
        TypeExprV::Fun(s, y) => {
            if some_mention(s, name) {
                lemma_some_refused(x, s, name, fuel);
            } else {
                lemma_refused(x, *(y->0), name, fuel);
            }
        },
        TypeExprV::ImplAspect { bound } => lemma_refused(x, *bound, name, fuel),
        TypeExprV::DynAspect { bound } => lemma_refused(x, *bound, name, fuel),
        TypeExprV::Projection { base, .. } => lemma_refused(x, *base, name, fuel),
        _ => {},
    }
}

proof fn lemma_some_refused(x: Expansion, s: Seq<TypeExprV>, name: Seq<char>, fuel: nat)
    requires
        under_way(x, name),
        some_mention(s, name),
    ensures
        all_expanded(x, s, s.len() as int, fuel) is Err,
    decreases s,
{
    let i = choose|i: int| 0 <= i < s.len() && mentions(#[trigger] s[i], name);
    lemma_refused(x, s[i], name, fuel);
    lemma_stops(x, s, i, s.len() as int, fuel);
}

proof fn lemma_stops(x: Expansion, s: Seq<TypeExprV>, i: int, k: int, fuel: nat)
    requires
        0 <= i < k <= s.len(),
        expanded(x, s[i], fuel) is Err,
    ensures
        all_expanded(x, s, k, fuel) is Err,
    decreases k,
{
    if i < k - 1 {
        lemma_stops(x, s, i, k - 1, fuel);
    }
}

proof fn lemma_field_stops(
    x: Expansion,
    s: Seq<(Seq<char>, TypeExprV)>,
    i: int,
    k: int,
    fuel: nat,
)
    requires
        0 <= i < k <= s.len(),
        expanded(x, s[i].1, fuel) is Err,
    ensures
        fields_expanded(x, s, k, fuel) is Err,
    decreases k,
{
    if i < k - 1 {
        lemma_field_stops(x, s, i, k - 1, fuel);
    }
}

/// An alias that mentions itself is refused, wherever in its target it does so.
pub proof fn law_an_alias_of_itself_is_refused(raw: Seq<AliasV>, k: int)
    requires
        first_named(raw, k),
        mentions(raw[k].target, raw[k].name),
        !raw[k].params.contains(raw[k].name),
    ensures
        flattened(raw, raw.len() as int) is Err,
{
    let a = raw[k];
    lemma_first_named(raw, k);
    assert(inside(raw, a).chain.contains(a.name)) by {
        assert(inside(raw, a).chain[0] == a.name);
    }
    lemma_refused(inside(raw, a), a.target, a.name, raw.len());
    lemma_never_flat(raw, k, raw.len() as int);
}

proof fn lemma_never_flat(raw: Seq<AliasV>, k: int, n: int)
    requires
        0 <= k < n <= raw.len(),
        expanded(inside(raw, raw[k]), raw[k].target, raw.len()) is Err,
    ensures
        flattened(raw, n) is Err,
    decreases n,
{
    if k < n - 1 {
        lemma_never_flat(raw, k, n - 1);
    }
}

/// Flattening keeps the names, the parameters and the order of the aliases, and leaves the target
/// of an alias that mentions no other as it is.
pub proof fn law_flattening_keeps_names_and_parameters(raw: Seq<AliasV>, k: int, i: int)
    requires
        0 <= i < k <= raw.len(),
        flattened(raw, k) is Ok,
    ensures
        ({
            let out = flattened(raw, k)->Ok_0;
            &&& out.len() == k
            &&& out[i].name == raw[i].name
            &&& out[i].params == raw[i].params
            &&& out[i].span == raw[i].span
        }),
    decreases k,
{
    if i < k - 1 {
        law_flattening_keeps_names_and_parameters(raw, k - 1, i);
    } else if k > 1 {
        law_flattening_keeps_names_and_parameters(raw, k - 1, 0);
    }
}

} // verus!
