//! What the coherence of implementations means, impl by impl.
use vstd::prelude::*;
use crate::ast::{type_exprs_view, Bound, Decl, GenericParam, ImplBlock, Polarity, SymbolId};
use crate::ast::{TypeExpr, TypeExprV, WhereConstraint};
use crate::coherence::{all_canonical, all_impls, asked_at, asked_inline, asked_where, aspects_of};
use crate::coherence::{barred, canonical, canonical_target, collected, conflicting, constraints_of};
use crate::coherence::{disjoint, disjoint_at, first_barred, first_conflict, first_orphan};
use crate::coherence::{first_rival, headed_by, incoherence, meets, module_impls, names_at};
use crate::coherence::{names_param, orphan, provides, rivals, scoped_bounds, target_args};
use crate::coherence::{CanonicalTypeV, CollectedImplV, ScopedBoundsV};
use crate::elaborate::state::{symbol_in, SymbolEntry};
use crate::error::{MetelErrorV, TypeErrorCode};
use crate::registry::{lemma_first_at, lemma_first_where};
use crate::resolution::{binding_of, declared_in, glob_symbol, resolved_id, scope_of, Glob};
use crate::resolution::{GlobTier, ModuleScope, NormalizedModule, ResolvedNames};
use crate::text::texts;

verus! {

/// Whether the first entry of a symbol is in a module.
pub open spec fn declares(names: ResolvedNames, module: Seq<Seq<char>>, id: SymbolId) -> bool {
    exists|k: int| #[trigger] first_of_id(names.symbols@, id, k) && texts(names.symbols@[k].module@)
        == module
}

/// Whether an entry is the first of a symbol.
pub open spec fn first_of_id(s: Seq<SymbolEntry>, id: SymbolId, k: int) -> bool {
    0 <= k < s.len() && s[k].id == id && forall|j: int| 0 <= j < k ==> (#[trigger] s[j]).id != id
}

/// Whether an entry is the first of a module under a name.
pub open spec fn first_of_name(
    s: Seq<SymbolEntry>,
    module: Seq<Seq<char>>,
    name: Seq<char>,
    k: int,
) -> bool {
    0 <= k < s.len() && texts(s[k].module@) == module && s[k].name@ == name && forall|j: int|
        0 <= j < k ==> texts((#[trigger] s[j]).module@) != module || s[j].name@ != name
}

/// Whether a symbol is what `std::core` declares under a name.
pub open spec fn of_core(names: ResolvedNames, name: Seq<char>, id: SymbolId) -> bool {
    exists|k: int| #[trigger] first_of_core(names.symbols@, name, k) && names.symbols@[k].id == id
}

/// Whether an entry is the first of `std::core` under a name.
pub open spec fn first_of_core(s: Seq<SymbolEntry>, name: Seq<char>, k: int) -> bool {
    first_of_name(s, seq!["std"@, "core"@], name, k)
}

/// Whether two impls exclude each other: at some position, one asks for an aspect that the other
/// denies.
pub open spec fn bounds_apart(a: ScopedBoundsV, b: ScopedBoundsV) -> bool {
    exists|i: int, aspect: Seq<char>| #[trigger] at_odds(a, b, i, aspect)
}

/// Whether one of two impls asks for an aspect at a position and the other denies it there.
pub open spec fn at_odds(a: ScopedBoundsV, b: ScopedBoundsV, i: int, aspect: Seq<char>) -> bool {
    asked_and_denied(a, b, i, aspect) || asked_and_denied(b, a, i, aspect)
}

/// Whether one impl asks for an aspect at a position and the other denies it there.
pub open spec fn asked_and_denied(
    a: ScopedBoundsV,
    b: ScopedBoundsV,
    i: int,
    aspect: Seq<char>,
) -> bool {
    &&& 0 <= i < a.positive.len()
    &&& 0 <= i < b.negative.len()
    &&& a.positive[i].contains(aspect)
    &&& b.negative[i].contains(aspect)
}

/// Whether two impls are of one aspect with the same type arguments, and for one type.
pub open spec fn same_instance(a: CollectedImplV, b: CollectedImplV) -> bool {
    &&& a.aspect_id is Some
    &&& a.aspect_id == b.aspect_id
    &&& a.args == b.args
    &&& a.target == b.target
}

/// Whether an impl gives a type an aspect of `std::core`.
pub open spec fn grants(names: ResolvedNames, x: CollectedImplV, aspect: Seq<char>) -> bool {
    x.polarity == Polarity::Positive && (x.aspect_id matches Some(id) && of_core(names, aspect, id))
}

proof fn lemma_declares(names: ResolvedNames, module: Seq<Seq<char>>, id: SymbolId)
    ensures
        declared_in(names, Some(id), module) == declares(names, module, id),
{
    let s = names.symbols@;
    let p = |e: SymbolEntry| e.id == id;
    let k = lemma_first_at(s, p);
    if declared_in(names, Some(id), module) {
        assert forall|j: int| 0 <= j < k implies (#[trigger] s[j]).id != id by {
            assert(!p(s[j]));
        }
        assert(first_of_id(s, id, k));
    }
    if declares(names, module, id) {
        let j = choose|j: int| #[trigger] first_of_id(s, id, j) && texts(s[j].module@) == module;
        assert(p(s[j]));
        assert(p(s[j]));
        if k < j {
            assert(s[k].id == id);
        }
        if j < k {
            assert(!p(s[j]));
        }
    }
}

proof fn lemma_symbol_at(s: Seq<SymbolEntry>, module: Seq<Seq<char>>, name: Seq<char>) -> (k: int)
    ensures
        match symbol_in(s, module, name) {
            Some(id) => first_of_name(s, module, name, k) && s[k].id == id,
            None => forall|j: int|
                0 <= j < s.len() ==> texts((#[trigger] s[j]).module@) != module || s[j].name@
                    != name,
        },
    decreases s.len(),
{
    if s.len() == 0 || (texts(s[0].module@) == module && s[0].name@ == name) {
        0
    } else {
        let k = lemma_symbol_at(s.skip(1), module, name);
        assert forall|j: int| 0 < j < s.len() implies #[trigger] s[j] == s.skip(1)[j - 1] by {}
        k + 1
    }
}

proof fn lemma_of_core(names: ResolvedNames, name: Seq<char>, id: SymbolId)
    ensures
        (symbol_in(names.symbols@, seq!["std"@, "core"@], name) == Some(id)) == of_core(
            names,
            name,
            id,
        ),
{
    let s = names.symbols@;
    let core = seq!["std"@, "core"@];
    let k = lemma_symbol_at(s, core, name);
    if symbol_in(s, core, name) == Some(id) {
        assert(first_of_core(s, name, k));
    }
    if of_core(names, name, id) {
        let j = choose|j: int| #[trigger] first_of_core(s, name, j) && s[j].id == id;
        assert(symbol_in(s, core, name) is Some);
        if k < j {
            assert(texts(s[k].module@) == core && s[k].name@ == name);
        }
        if j < k {
            assert(texts(s[j].module@) == core && s[j].name@ == name);
        }
    }
}

proof fn lemma_apart(a: ScopedBoundsV, b: ScopedBoundsV)
    ensures
        disjoint(a, b) == bounds_apart(a, b),
{
    if disjoint(a, b) {
        let i = choose|i: int| #[trigger] disjoint_at(a, b, i);
        if meets(names_at(a.positive, i), names_at(b.negative, i)) {
            let x = names_at(a.positive, i);
            let k = choose|k: int| 0 <= k < x.len() && names_at(b.negative, i).contains(
                #[trigger] x[k],
            );
            assert(x.contains(x[k]));
            assert(at_odds(a, b, i, x[k]));
        } else {
            let x = names_at(b.positive, i);
            let k = choose|k: int| 0 <= k < x.len() && names_at(a.negative, i).contains(
                #[trigger] x[k],
            );
            assert(x.contains(x[k]));
            assert(at_odds(a, b, i, x[k]));
        }
    }
    if bounds_apart(a, b) {
        let (i, aspect) = choose|i: int, aspect: Seq<char>| #[trigger]
            at_odds(a, b, i, aspect);
        if asked_and_denied(a, b, i, aspect) {
            let x = names_at(a.positive, i);
            let k = choose|k: int| 0 <= k < x.len() && x[k] == aspect;
            assert(names_at(b.negative, i).contains(x[k]));
            assert(meets(x, names_at(b.negative, i)));
        } else {
            let x = names_at(b.positive, i);
            let k = choose|k: int| 0 <= k < x.len() && x[k] == aspect;
            assert(names_at(a.negative, i).contains(x[k]));
            assert(meets(x, names_at(a.negative, i)));
        }
        assert(disjoint_at(a, b, i));
    }
}

proof fn lemma_grants(names: ResolvedNames, x: CollectedImplV, aspect: Seq<char>)
    ensures
        provides(names, x, aspect) == grants(names, x, aspect),
{
    if let Some(id) = x.aspect_id {
        lemma_of_core(names, aspect, id);
    }
}

proof fn lemma_barred_found(names: ResolvedNames, s: Seq<CollectedImplV>, i: int)
    requires
        0 <= i,
    ensures
        match first_barred(names, s, i) {
            Some(k) => i <= k < s.len() && barred(names, s[k]),
            None => forall|k: int| i <= k < s.len() ==> !barred(names, #[trigger] s[k]),
        },
    decreases s.len() - i,
{
    if i < s.len() {
        lemma_barred_found(names, s, i + 1);
    }
}

proof fn lemma_orphan_found(names: ResolvedNames, s: Seq<CollectedImplV>, i: int)
    requires
        0 <= i,
    ensures
        match first_orphan(names, s, i) {
            Some(k) => i <= k < s.len() && orphan(names, s[k]),
            None => forall|k: int| i <= k < s.len() ==> !orphan(names, #[trigger] s[k]),
        },
    decreases s.len() - i,
{
    if i < s.len() {
        lemma_orphan_found(names, s, i + 1);
    }
}

proof fn lemma_rival_found(names: ResolvedNames, s: Seq<CollectedImplV>, i: int, j: int)
    requires
        0 <= i < s.len(),
        0 <= j,
    ensures
        match first_rival(names, s, i, j) {
            Some(k) => j <= k < s.len() && rivals(names, s[i], s[k]),
            None => forall|k: int| j <= k < s.len() ==> !rivals(names, s[i], #[trigger] s[k]),
        },
    decreases s.len() - j,
{
    if j < s.len() {
        lemma_rival_found(names, s, i, j + 1);
    }
}

proof fn lemma_conflict_found(names: ResolvedNames, s: Seq<CollectedImplV>, i: int)
    requires
        0 <= i,
    ensures
        match first_conflict(names, s, i) {
            Some(p) => i <= p.0 < p.1 < s.len() && rivals(names, s[p.0], s[p.1]),
            None => forall|a: int, b: int|
                i <= a < b < s.len() ==> !rivals(names, #[trigger] s[a], #[trigger] s[b]),
        },
    decreases s.len() - i,
{
    if i < s.len() {
        lemma_rival_found(names, s, i, i + 1);
        lemma_conflict_found(names, s, i + 1);
    }
}

/// Whether an impl stands in the module of its aspect or of its target, or is of an unknown aspect.
pub open spec fn at_home(names: ResolvedNames, x: CollectedImplV) -> bool {
    match x.aspect_id {
        Some(id) => declares(names, x.module, id) || x.target_local,
        None => true,
    }
}

/// Whether two impls can stand in one program: they are not of one instance of an aspect for one
/// type, and do not make one type copied and destroyed, unless their bounds exclude each other.
pub open spec fn compatible(names: ResolvedNames, a: CollectedImplV, b: CollectedImplV) -> bool {
    ||| bounds_apart(a.bounds, b.bounds)
    ||| {
        &&& !same_instance(a, b)
        &&& !(a.target == b.target && grants(names, a, "Copy"@) && grants(names, b, "Drop"@))
        &&& !(a.target == b.target && grants(names, a, "Drop"@) && grants(names, b, "Copy"@))
    }
}

/// Whether an impl is of `Drop` for an anonymous record.
pub open spec fn destroys_record(names: ResolvedNames, x: CollectedImplV) -> bool {
    grants(names, x, "Drop"@) && x.target is Record
}

proof fn lemma_one(names: ResolvedNames, x: CollectedImplV)
    ensures
        orphan(names, x) == !at_home(names, x),
        barred(names, x) == destroys_record(names, x),
{
    lemma_grants(names, x, "Drop"@);
    if let Some(id) = x.aspect_id {
        lemma_declares(names, x.module, id);
    }
}

proof fn lemma_two(names: ResolvedNames, a: CollectedImplV, b: CollectedImplV)
    ensures
        rivals(names, a, b) == !compatible(names, a, b),
        conflicting(a, b) == (same_instance(a, b) && !bounds_apart(a.bounds, b.bounds)),
{
    lemma_apart(a.bounds, b.bounds);
    lemma_grants(names, a, "Drop"@);
    lemma_grants(names, b, "Drop"@);
    lemma_grants(names, a, "Copy"@);
    lemma_grants(names, b, "Copy"@);
}

/// A program passes exactly if no anonymous record has a destructor, every impl stands with its
/// aspect or its target, and any two impls can stand together: they differ in their aspect, in the
/// type arguments of the aspect or in their target, or their bounds exclude each other; and none
/// makes a type copied that another gives a destructor.
pub proof fn law_coherence_is_impl_by_impl(names: ResolvedNames, s: Seq<CollectedImplV>)
    ensures
        incoherence(names, s) is None <==> {
            &&& forall|k: int| 0 <= k < s.len() ==> !destroys_record(names, #[trigger] s[k])
            &&& forall|k: int| 0 <= k < s.len() ==> at_home(names, #[trigger] s[k])
            &&& forall|a: int, b: int|
                0 <= a < b < s.len() ==> compatible(names, #[trigger] s[a], #[trigger] s[b])
        },
{
    lemma_barred_found(names, s, 0);
    lemma_orphan_found(names, s, 0);
    lemma_conflict_found(names, s, 0);
    assert forall|k: int| 0 <= k < s.len() implies orphan(names, #[trigger] s[k]) == !at_home(
        names,
        s[k],
    ) && barred(names, s[k]) == destroys_record(names, s[k]) by {
        lemma_one(names, s[k]);
    }
    assert forall|a: int, b: int| 0 <= a < b < s.len() implies rivals(
        names,
        #[trigger] s[a],
        #[trigger] s[b],
    ) == !compatible(names, s[a], s[b]) by {
        lemma_two(names, s[a], s[b]);
    }
    match first_conflict(names, s, 0) {
        Some(p) => {
            lemma_two(names, s[p.0], s[p.1]);
        },
        None => {},
    }
}

/// Two impls of one instance of an aspect for one type, without bounds that exclude each other, are
/// refused in whatever order and distance they stand.
pub proof fn law_two_impls_of_one_instance_are_refused(
    names: ResolvedNames,
    s: Seq<CollectedImplV>,
    a: int,
    b: int,
)
    requires
        0 <= a < b < s.len(),
        same_instance(s[a], s[b]),
        !bounds_apart(s[a].bounds, s[b].bounds),
    ensures
        incoherence(names, s) is Some,
{
    law_coherence_is_impl_by_impl(names, s);
    assert(!compatible(names, s[a], s[b]));
}

/// Impls of different instances of an aspect do not conflict: where every impl stands at home and
/// none is of `Copy` or `Drop`, impls that pairwise differ in their aspect, its type arguments or
/// their target pass.
pub proof fn law_different_instances_pass(names: ResolvedNames, s: Seq<CollectedImplV>)
    requires
        forall|k: int| 0 <= k < s.len() ==> at_home(names, #[trigger] s[k]),
        forall|k: int|
            0 <= k < s.len() ==> !grants(names, #[trigger] s[k], "Drop"@),
        forall|a: int, b: int|
            0 <= a < b < s.len() ==> (#[trigger] s[a]).aspect_id != (#[trigger] s[b]).aspect_id
                || s[a].args != s[b].args || s[a].target != s[b].target,
    ensures
        incoherence(names, s) is None,
{
    law_coherence_is_impl_by_impl(names, s);
}

/// What the error says is what is wrong: `T0001` that an anonymous record has a destructor, `T0014`
/// that an impl stands neither with its aspect nor with its target, `T0015` that two impls cannot
/// stand together; each points at the impl, or the later of the two.
pub proof fn law_the_error_says_what_is_wrong(names: ResolvedNames, s: Seq<CollectedImplV>)
    requires
        incoherence(names, s) is Some,
    ensures
        incoherence(names, s) matches Some(MetelErrorV::TypeError { code, span, .. }) && {
            ||| code == TypeErrorCode::T0001 && exists|k: int|
                0 <= k < s.len() && destroys_record(names, #[trigger] s[k]) && s[k].span == span
            ||| code == TypeErrorCode::T0014 && (exists|k: int|
                0 <= k < s.len() && !at_home(names, #[trigger] s[k]) && s[k].span == span)
                && forall|k: int| 0 <= k < s.len() ==> !destroys_record(names, #[trigger] s[k])
            ||| code == TypeErrorCode::T0015 && (exists|a: int, b: int|
                0 <= a < b < s.len() && !compatible(names, #[trigger] s[a], #[trigger] s[b])
                    && s[b].span == span) && forall|k: int|
                0 <= k < s.len() ==> at_home(names, #[trigger] s[k]) && !destroys_record(
                    names,
                    s[k],
                )
        },
{
    lemma_barred_found(names, s, 0);
    lemma_orphan_found(names, s, 0);
    lemma_conflict_found(names, s, 0);
    assert forall|k: int| 0 <= k < s.len() implies orphan(names, #[trigger] s[k]) == !at_home(
        names,
        s[k],
    ) && barred(names, s[k]) == destroys_record(names, s[k]) by {
        lemma_one(names, s[k]);
    }
    match first_conflict(names, s, 0) {
        Some(p) => {
            lemma_two(names, s[p.0], s[p.1]);
        },
        None => {},
    }
}

/// What is looked at in an impl is the impl's own: where it stands, its polarity, its aspect as the
/// module resolves its name, and the type arguments of the aspect one by one.
pub proof fn law_an_impl_is_collected_as_it_stands(
    names: ResolvedNames,
    module: Seq<Seq<char>>,
    ib: ImplBlock,
    aspect: String,
    i: int,
)
    requires
        ib.aspect_name == Some(aspect),
        0 <= i < ib.aspect_type_args@.len(),
    ensures
        collected(names, module, Decl::Impl(ib)) matches Some(x) && {
            &&& x.module == module
            &&& x.polarity == ib.polarity
            &&& x.aspect_name == aspect@
            &&& x.aspect_id == resolved_id(names, module, aspect@)
            &&& x.span == ib.span@
            &&& x.args.len() == ib.aspect_type_args@.len()
            &&& x.args[i] == canonical(names, module, ib.aspect_type_args@[i]@)
        },
{
}

proof fn lemma_in_module(
    names: ResolvedNames,
    module: Seq<Seq<char>>,
    s: Seq<Decl>,
    j: int,
    k: int,
)
    requires
        0 <= j < k <= s.len(),
        collected(names, module, s[j]) is Some,
    ensures
        module_impls(names, module, s, k).contains(collected(names, module, s[j])->0),
    decreases k,
{
    let before = module_impls(names, module, s, k - 1);
    let all = module_impls(names, module, s, k);
    if j < k - 1 {
        lemma_in_module(names, module, s, j, k - 1);
        let x = collected(names, module, s[j])->0;
        let i = choose|i: int| 0 <= i < before.len() && before[i] == x;
        assert(all[i] == x);
    } else {
        assert(all[all.len() - 1] == collected(names, module, s[j])->0);
    }
}

/// Every impl of an aspect in a program is looked at, in whatever module it stands.
pub proof fn law_every_impl_is_collected(
    names: ResolvedNames,
    s: Seq<NormalizedModule>,
    m: int,
    j: int,
    k: int,
)
    requires
        0 <= m < k <= s.len(),
        0 <= j < s[m].program.decls@.len(),
        collected(names, texts(s[m].path@), s[m].program.decls@[j]) is Some,
    ensures
        all_impls(names, s, k).contains(
            collected(names, texts(s[m].path@), s[m].program.decls@[j])->0,
        ),
    decreases k,
{
    let x = collected(names, texts(s[m].path@), s[m].program.decls@[j])->0;
    let before = all_impls(names, s, k - 1);
    let all = all_impls(names, s, k);
    if m < k - 1 {
        law_every_impl_is_collected(names, s, m, j, k - 1);
        let i = choose|i: int| 0 <= i < before.len() && before[i] == x;
        assert(all[i] == x);
    } else {
        let d = s[m].program.decls@;
        lemma_in_module(names, texts(s[m].path@), d, j, d.len() as int);
        let own = module_impls(names, texts(s[m].path@), d, d.len() as int);
        let i = choose|i: int| 0 <= i < own.len() && own[i] == x;
        assert(all[before.len() + i] == x);
    }
}

/// Two names are the same type exactly if they denote the same symbol and their type arguments are
/// the same types, whatever they are called and wherever they stand. Names that denote nothing are
/// told apart by themselves.
pub proof fn law_names_are_what_they_denote(
    names: ResolvedNames,
    m1: Seq<Seq<char>>,
    n1: Seq<char>,
    a1: Seq<TypeExprV>,
    m2: Seq<Seq<char>>,
    n2: Seq<char>,
    a2: Seq<TypeExprV>,
)
    ensures
        (canonical(names, m1, TypeExprV::Named(n1, a1)) == canonical(
            names,
            m2,
            TypeExprV::Named(n2, a2),
        )) <==> {
            &&& resolved_id(names, m1, n1) == resolved_id(names, m2, n2)
            &&& resolved_id(names, m1, n1) is Some || n1 == n2
            &&& a1.len() == a2.len()
            &&& forall|i: int|
                0 <= i < a1.len() ==> canonical(names, m1, #[trigger] a1[i]) == canonical(
                    names,
                    m2,
                    a2[i],
                )
        },
{
    lemma_all_canonical(names, m1, a1, m2, a2);
}

proof fn lemma_all_canonical(
    names: ResolvedNames,
    m1: Seq<Seq<char>>,
    a1: Seq<TypeExprV>,
    m2: Seq<Seq<char>>,
    a2: Seq<TypeExprV>,
)
    ensures
        (all_canonical(names, m1, a1) == all_canonical(names, m2, a2)) <==> (a1.len() == a2.len()
            && forall|i: int|
            0 <= i < a1.len() ==> canonical(names, m1, #[trigger] a1[i]) == canonical(
                names,
                m2,
                a2[i],
            )),
{
    let x = all_canonical(names, m1, a1);
    let y = all_canonical(names, m2, a2);
    if x == y {
        assert(x.len() == y.len());
        assert forall|i: int| 0 <= i < a1.len() implies canonical(names, m1, #[trigger] a1[i])
            == canonical(names, m2, a2[i]) by {
            assert(x[i] == y[i]);
        }
    } else if a1.len() == a2.len() && forall|i: int|
        0 <= i < a1.len() ==> canonical(names, m1, #[trigger] a1[i]) == canonical(
            names,
            m2,
            a2[i],
        ) {
        assert(x =~= y);
    }
}

/// Types of other forms are the same exactly if their parts are: tuples and functions element by
/// element, arrays by their element and length, references by what they refer to and how.
pub proof fn law_other_types_are_their_parts(
    names: ResolvedNames,
    m: Seq<Seq<char>>,
    s: Seq<TypeExprV>,
    t: Seq<TypeExprV>,
    x: TypeExprV,
    y: TypeExprV,
    p: u64,
    q: u64,
)
    ensures
        ({
            let same = |a: TypeExprV, b: TypeExprV| canonical(names, m, a) == canonical(names, m, b);
            let all = s.len() == t.len() && forall|i: int|
                0 <= i < s.len() ==> canonical(names, m, #[trigger] s[i]) == canonical(
                    names,
                    m,
                    t[i],
                );
            let bx = Box::new(x);
            let by = Box::new(y);
            &&& same(TypeExprV::Tuple(s), TypeExprV::Tuple(t)) <==> all
            &&& same(TypeExprV::Array(bx), TypeExprV::Array(by)) <==> same(x, y)
            &&& same(TypeExprV::SizedArray(bx, p), TypeExprV::SizedArray(by, q)) <==> same(x, y)
                && p == q
            &&& same(TypeExprV::Reference(bx), TypeExprV::Reference(by)) <==> same(x, y)
            &&& same(TypeExprV::MutReference(bx), TypeExprV::MutReference(by)) <==> same(x, y)
            &&& !same(TypeExprV::Reference(bx), TypeExprV::MutReference(by))
            &&& !same(TypeExprV::Array(bx), TypeExprV::SizedArray(by, q))
            &&& !same(TypeExprV::Tuple(s), TypeExprV::Array(by))
            &&& same(TypeExprV::Fun(s, Some(bx)), TypeExprV::Fun(t, Some(by))) <==> all && same(
                x,
                y,
            )
            &&& same(TypeExprV::Fun(s, None), TypeExprV::Fun(t, None)) <==> all
        }),
{
    lemma_all_canonical(names, m, s, m, t);
}

/// The target of an impl is the type it names: where no type argument is a type parameter of the
/// impl it is that type, and where one is, only its position counts.
pub proof fn law_a_target_is_the_type_it_names(
    names: ResolvedNames,
    module: Seq<Seq<char>>,
    ib: ImplBlock,
)
    ensures
        match ib.target_type {
            TypeExpr::Named(name, args) => {
                &&& ib.generics@.len() == 0 ==> canonical_target(names, module, ib) == canonical(
                    names,
                    module,
                    ib.target_type@,
                )
                &&& forall|i: int, g: int|
                    0 <= i < args@.len() && 0 <= g < ib.generics@.len() && args@.len() > 0 && (
                    #[trigger] args@[i]@ == TypeExprV::Named(
                        (#[trigger] ib.generics@[g]).name@,
                        Seq::empty(),
                    )) ==> (match canonical_target(names, module, ib) {
                        CanonicalTypeV::Resolved(id, s) => resolved_id(names, module, name@) == Some(
                            id,
                        ) && s.len() == args@.len() && s[i] == CanonicalTypeV::TypeParam(i),
                        CanonicalTypeV::Unresolved(n, s) => n == name@ && s.len() == args@.len()
                            && s[i] == CanonicalTypeV::TypeParam(i),
                        _ => false,
                    })
            },
            _ => canonical_target(names, module, ib) == canonical(names, module, ib.target_type@),
        },
{
    if let TypeExpr::Named(name, args) = ib.target_type {
        let s = target_args(names, module, ib.generics@, args@);
        if ib.generics@.len() == 0 && args@.len() > 0 {
            assert(s =~= all_canonical(names, module, type_exprs_view(args@)));
        }
        assert forall|i: int, g: int|
            0 <= i < args@.len() && 0 <= g < ib.generics@.len() && args@.len() > 0 && (
            #[trigger] args@[i]@ == TypeExprV::Named(
                (#[trigger] ib.generics@[g]).name@,
                Seq::empty(),
            )) implies s[i] == CanonicalTypeV::TypeParam(i) by {
            assert(names_param(ib.generics@, ib.generics@[g].name@));
            if let TypeExpr::Named(n, inner) = args@[i] {
                assert(type_exprs_view(inner@).len() == inner@.len());
            }
        }
    }
}

proof fn lemma_aspect_listed(s: Seq<Bound>, polarity: Polarity, b: int, k: int, aspect: Seq<char>)
    requires
        0 <= b < k <= s.len(),
        s[b].polarity == polarity,
        s[b].aspect matches TypeExpr::Named(n, _) && n@ == aspect,
    ensures
        aspects_of(s, polarity, k).contains(aspect),
    decreases k,
{
    let before = aspects_of(s, polarity, k - 1);
    let all = aspects_of(s, polarity, k);
    if b < k - 1 {
        lemma_aspect_listed(s, polarity, b, k - 1, aspect);
        let i = choose|i: int| 0 <= i < before.len() && before[i] == aspect;
        assert(all[i] == aspect);
    } else {
        assert(all[all.len() - 1] == aspect);
    }
}

proof fn lemma_asked_inline(
    generics: Seq<GenericParam>,
    args: Seq<TypeExpr>,
    p: int,
    polarity: Polarity,
    g: int,
    k: int,
    aspect: Seq<char>,
)
    requires
        0 <= g < k <= generics.len(),
        headed_by(args[p], generics[g].name@),
        aspects_of(generics[g].bounds@, polarity, generics[g].bounds@.len() as int).contains(aspect),
    ensures
        asked_inline(generics, args, p, polarity, k).contains(aspect),
    decreases k,
{
    let before = asked_inline(generics, args, p, polarity, k - 1);
    let all = asked_inline(generics, args, p, polarity, k);
    if g < k - 1 {
        lemma_asked_inline(generics, args, p, polarity, g, k - 1, aspect);
        let i = choose|i: int| 0 <= i < before.len() && before[i] == aspect;
        assert(all[i] == aspect);
    } else {
        let own = aspects_of(generics[g].bounds@, polarity, generics[g].bounds@.len() as int);
        let i = choose|i: int| 0 <= i < own.len() && own[i] == aspect;
        assert(all[before.len() + i] == aspect);
    }
}

/// A bound on a type parameter of an impl is one at every position of the target that the
/// parameter stands at: among those it asks for or those it denies, by its sign.
pub proof fn law_bounds_are_found_at_their_positions(
    ib: ImplBlock,
    name: String,
    args: Vec<TypeExpr>,
    p: int,
    g: int,
    b: int,
    aspect: Seq<char>,
)
    requires
        ib.target_type == TypeExpr::Named(name, args),
        0 <= p < args@.len(),
        0 <= g < ib.generics@.len(),
        args@[p] matches TypeExpr::Named(n, _) && n@ == ib.generics@[g].name@,
        0 <= b < ib.generics@[g].bounds@.len(),
        ib.generics@[g].bounds@[b].aspect matches TypeExpr::Named(n, _) && n@ == aspect,
    ensures
        match ib.generics@[g].bounds@[b].polarity {
            Polarity::Positive => scoped_bounds(ib).positive[p].contains(aspect),
            Polarity::Negative => scoped_bounds(ib).negative[p].contains(aspect),
        },
{
    let polarity = ib.generics@[g].bounds@[b].polarity;
    let bounds = ib.generics@[g].bounds@;
    lemma_aspect_listed(bounds, polarity, b, bounds.len() as int, aspect);
    lemma_asked_inline(ib.generics@, args@, p, polarity, g, ib.generics@.len() as int, aspect);
    let own = asked_inline(ib.generics@, args@, p, polarity, ib.generics@.len() as int);
    let i = choose|i: int| 0 <= i < own.len() && own[i] == aspect;
    assert(asked_at(ib, args@, p, polarity)[i] == aspect);
}

proof fn lemma_asked_where(
    generics: Seq<GenericParam>,
    constraints: Seq<WhereConstraint>,
    args: Seq<TypeExpr>,
    p: int,
    polarity: Polarity,
    c: int,
    k: int,
    aspect: Seq<char>,
)
    requires
        0 <= c < k <= constraints.len(),
        names_param(generics, constraints[c].name@),
        headed_by(args[p], constraints[c].name@),
        aspects_of(constraints[c].bounds@, polarity, constraints[c].bounds@.len() as int).contains(
            aspect,
        ),
    ensures
        asked_where(generics, constraints, args, p, polarity, k).contains(aspect),
    decreases k,
{
    let before = asked_where(generics, constraints, args, p, polarity, k - 1);
    let all = asked_where(generics, constraints, args, p, polarity, k);
    if c < k - 1 {
        lemma_asked_where(generics, constraints, args, p, polarity, c, k - 1, aspect);
        let i = choose|i: int| 0 <= i < before.len() && before[i] == aspect;
        assert(all[i] == aspect);
    } else {
        let own = aspects_of(constraints[c].bounds@, polarity, constraints[c].bounds@.len() as int);
        let i = choose|i: int| 0 <= i < own.len() && own[i] == aspect;
        assert(all[before.len() + i] == aspect);
    }
}

/// A constraint of the `where` clause counts like a bound of the type parameter it names.
pub proof fn law_where_clauses_count_as_bounds(
    ib: ImplBlock,
    name: String,
    args: Vec<TypeExpr>,
    p: int,
    g: int,
    c: int,
    b: int,
    aspect: Seq<char>,
)
    requires
        ib.target_type == TypeExpr::Named(name, args),
        ib.where_clause is Some,
        0 <= p < args@.len(),
        0 <= g < ib.generics@.len(),
        0 <= c < ib.where_clause->0.constraints@.len(),
        ib.where_clause->0.constraints@[c].name@ == ib.generics@[g].name@,
        args@[p] matches TypeExpr::Named(n, _) && n@ == ib.generics@[g].name@,
        0 <= b < ib.where_clause->0.constraints@[c].bounds@.len(),
        ib.where_clause->0.constraints@[c].bounds@[b].aspect matches TypeExpr::Named(n, _) && n@
            == aspect,
    ensures
        match ib.where_clause->0.constraints@[c].bounds@[b].polarity {
            Polarity::Positive => scoped_bounds(ib).positive[p].contains(aspect),
            Polarity::Negative => scoped_bounds(ib).negative[p].contains(aspect),
        },
{
    let constraints = constraints_of(ib);
    let bounds = constraints[c].bounds@;
    let polarity = bounds[b].polarity;
    let k = ib.generics@.len() as int;
    assert(names_param(ib.generics@, ib.generics@[g].name@));
    lemma_aspect_listed(bounds, polarity, b, bounds.len() as int, aspect);
    lemma_asked_where(
        ib.generics@,
        constraints,
        args@,
        p,
        polarity,
        c,
        constraints.len() as int,
        aspect,
    );
    let inline = asked_inline(ib.generics@, args@, p, polarity, k);
    let own = asked_where(ib.generics@, constraints, args@, p, polarity, constraints.len() as int);
    let i = choose|i: int| 0 <= i < own.len() && own[i] == aspect;
    assert(asked_at(ib, args@, p, polarity)[inline.len() + i] == aspect);
}

/// An impl without type parameters has no bounds.
pub proof fn law_no_parameters_no_bounds(ib: ImplBlock, p: int)
    requires
        ib.generics@.len() == 0,
    ensures
        0 <= p < scoped_bounds(ib).positive.len() ==> scoped_bounds(ib).positive[p].len() == 0,
        0 <= p < scoped_bounds(ib).negative.len() ==> scoped_bounds(ib).negative[p].len() == 0,
{
    if let TypeExpr::Named(_, args) = ib.target_type {
        let constraints = constraints_of(ib);
        lemma_nothing_asked(ib.generics@, constraints, args@, p, Polarity::Positive, constraints.len() as int);
        lemma_nothing_asked(ib.generics@, constraints, args@, p, Polarity::Negative, constraints.len() as int);
    }
}

proof fn lemma_nothing_asked(
    generics: Seq<GenericParam>,
    constraints: Seq<WhereConstraint>,
    args: Seq<TypeExpr>,
    p: int,
    polarity: Polarity,
    k: int,
)
    requires
        generics.len() == 0,
    ensures
        asked_where(generics, constraints, args, p, polarity, k).len() == 0,
    decreases k,
{
    if 0 < k <= constraints.len() {
        lemma_nothing_asked(generics, constraints, args, p, polarity, k - 1);
    }
}

/// A name denotes the module's own declaration before anything that the module imports.
pub proof fn law_own_declarations_come_first(
    names: ResolvedNames,
    module: Seq<Seq<char>>,
    name: Seq<char>,
    k: int,
)
    requires
        first_of_name(names.symbols@, module, name, k),
    ensures
        resolved_id(names, module, name) == Some(names.symbols@[k].id),
{
    let s = names.symbols@;
    let j = lemma_symbol_at(s, module, name);
    assert(texts(s[k].module@) == module && s[k].name@ == name);
    assert(symbol_in(s, module, name) is Some);
    if j < k {
        assert(texts(s[j].module@) != module || s[j].name@ != name);
    }
    if k < j {
        assert(texts(s[k].module@) != module || s[k].name@ != name);
    }
}

/// Whether a module declares nothing under a name.
pub open spec fn declares_none(
    names: ResolvedNames,
    module: Seq<Seq<char>>,
    name: Seq<char>,
) -> bool {
    forall|k: int|
        0 <= k < names.symbols@.len() ==> texts((#[trigger] names.symbols@[k]).module@) != module
            || names.symbols@[k].name@ != name
}

/// Whether a scope is the first of a module.
pub open spec fn scope_at(names: ResolvedNames, module: Seq<Seq<char>>, k: int) -> bool {
    0 <= k < names.scopes@.len() && texts(names.scopes@[k].module@) == module && forall|j: int|
        0 <= j < k ==> texts((#[trigger] names.scopes@[j]).module@) != module
}

proof fn lemma_scope(names: ResolvedNames, module: Seq<Seq<char>>, k: int)
    requires
        scope_at(names, module, k),
    ensures
        scope_of(names, module) == Some(names.scopes@[k]),
{
    let p = |s: ModuleScope| texts(s.module@) == module;
    let j = lemma_first_at(names.scopes@, p);
    assert(p(names.scopes@[k]));
    if j < k {
        assert(!p(names.scopes@[j]));
    }
    if k < j {
        assert(!p(names.scopes@[k]));
    }
}

/// What a module imports by itself under a name comes before what glob imports bring in.
pub proof fn law_explicit_imports_come_before_globs(
    names: ResolvedNames,
    module: Seq<Seq<char>>,
    name: Seq<char>,
    k: int,
)
    requires
        declares_none(names, module, name),
        scope_at(names, module, k),
        names.scopes@[k].explicit@.len() > 0,
        names.scopes@[k].explicit@[0].name@ == name,
    ensures
        resolved_id(names, module, name) == Some(names.scopes@[k].explicit@[0].symbol_id),
{
    lemma_scope(names, module, k);
    let i = lemma_symbol_at(names.symbols@, module, name);
    assert(binding_of(names.scopes@[k], name) == Some(names.scopes@[k].explicit@[0]));
}

proof fn lemma_glob(
    names: ResolvedNames,
    globs: Seq<Glob>,
    tier: GlobTier,
    name: Seq<char>,
    g: int,
)
    requires
        0 <= g < globs.len(),
        globs[g].tier == tier,
        symbol_in(names.symbols@, texts(globs[g].module@), name) is Some,
        forall|j: int|
            0 <= j < g ==> (#[trigger] globs[j]).tier != tier || symbol_in(
                names.symbols@,
                texts(globs[j].module@),
                name,
            ) is None,
    ensures
        glob_symbol(names, globs, tier, name) == symbol_in(
            names.symbols@,
            texts(globs[g].module@),
            name,
        ),
    decreases g,
{
    if g > 0 {
        let rest = globs.skip(1);
        assert(rest[g - 1] == globs[g]);
        assert forall|j: int| 0 <= j < g - 1 implies (#[trigger] rest[j]).tier != tier || symbol_in(
            names.symbols@,
            texts(rest[j].module@),
            name,
        ) is None by {
            assert(rest[j] == globs[j + 1]);
        }
        assert(globs[0].tier != tier || symbol_in(
            names.symbols@,
            texts(globs[0].module@),
            name,
        ) is None);
        lemma_glob(names, rest, tier, name, g - 1);
    }
}

/// A name that the user's glob imports bring in hides the one from the standard library, and of
/// several glob imports the first counts.
pub proof fn law_user_globs_hide_the_standard_library(
    names: ResolvedNames,
    module: Seq<Seq<char>>,
    name: Seq<char>,
    k: int,
    g: int,
    e: int,
)
    requires
        declares_none(names, module, name),
        scope_at(names, module, k),
        names.scopes@[k].explicit@.len() == 0,
        0 <= g < names.scopes@[k].globs@.len(),
        names.scopes@[k].globs@[g].tier == GlobTier::User,
        first_of_name(names.symbols@, texts(names.scopes@[k].globs@[g].module@), name, e),
        forall|j: int|
            0 <= j < g ==> (#[trigger] names.scopes@[k].globs@[j]).tier == GlobTier::Std
                || declares_none(names, texts(names.scopes@[k].globs@[j].module@), name),
    ensures
        resolved_id(names, module, name) == Some(names.symbols@[e].id),
{
    lemma_scope(names, module, k);
    let i = lemma_symbol_at(names.symbols@, module, name);
    let globs = names.scopes@[k].globs@;
    assert(binding_of(names.scopes@[k], name) is None);
    law_own_declarations_come_first(names, texts(globs[g].module@), name, e);
    let q = lemma_symbol_at(names.symbols@, texts(globs[g].module@), name);
    assert(symbol_in(names.symbols@, texts(globs[g].module@), name) == Some(names.symbols@[e].id)) by {
        let s = names.symbols@;
        let m = texts(globs[g].module@);
        assert(texts(s[e].module@) == m && s[e].name@ == name);
        assert(symbol_in(s, m, name) is Some);
        if q < e {
            assert(texts(s[q].module@) != m || s[q].name@ != name);
        }
        if e < q {
            assert(texts(s[e].module@) != m || s[e].name@ != name);
        }
    }
    assert forall|j: int| 0 <= j < g implies (#[trigger] globs[j]).tier != GlobTier::User
        || symbol_in(names.symbols@, texts(globs[j].module@), name) is None by {
        let r = lemma_symbol_at(names.symbols@, texts(globs[j].module@), name);
    }
    lemma_glob(names, globs, GlobTier::User, name, g);
}

/// A name that nothing declares or imports denotes nothing.
pub proof fn law_unknown_names_denote_nothing(
    names: ResolvedNames,
    module: Seq<Seq<char>>,
    name: Seq<char>,
)
    requires
        declares_none(names, module, name),
        forall|k: int|
            0 <= k < names.scopes@.len() ==> texts((#[trigger] names.scopes@[k]).module@) != module,
    ensures
        resolved_id(names, module, name) is None,
{
    let i = lemma_symbol_at(names.symbols@, module, name);
    let p = |s: ModuleScope| texts(s.module@) == module;
    lemma_first_where(names.scopes@, p);
    if let Some(s) = scope_of(names, module) {
        let k = choose|k: int| 0 <= k < names.scopes@.len() && names.scopes@[k] == s;
        assert(texts(names.scopes@[k].module@) == module);
    }
}

} // verus!
