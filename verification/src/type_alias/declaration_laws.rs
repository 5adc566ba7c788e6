//! What expansion does to the declarations of a module.
use vstd::prelude::*;
use crate::ast::{Decl, FieldDecl, StructDecl, TypeExpr, TypeExprV};
use crate::error::MetelErrorV;
use super::bodies::{decl_fault, decl_rewritten};
use super::expansion::{alias_named, expanded, AliasV};
use super::rewrite::{alias_of, declared_aliases, flat, kept};

verus! {

/// Whether a type as written is another one with its aliases expanded.
pub open spec fn expands_to(al: Seq<AliasV>, t: TypeExpr, u: TypeExpr) -> bool {
    expanded(flat(al), t@, 0) == Ok::<TypeExprV, MetelErrorV>(u@)
}

/// Whether fields are others with their types expanded one by one, under the same names.
pub open spec fn fields_expand_to(al: Seq<AliasV>, s: Seq<FieldDecl>, t: Seq<FieldDecl>) -> bool {
    s.len() == t.len() && forall|i: int|
        0 <= i < s.len() ==> (#[trigger] t[i]).name == s[i].name && expands_to(
            al,
            s[i].type_ann,
            t[i].type_ann,
        )
}

/// Whether an annotation is another one expanded, or missing as the other is.
pub open spec fn annotation_expands_to(
    al: Seq<AliasV>,
    t: Option<TypeExpr>,
    u: Option<TypeExpr>,
) -> bool {
    match (t, u) {
        (Some(t), Some(u)) => expands_to(al, t, u),
        (None, None) => true,
        _ => false,
    }
}

/// Expansion reaches every type of a declaration and changes nothing else: the fields of a struct,
/// the fields of the variants of an enum, the parameters and the result of a function, and the
/// annotation of a binding are expanded where they stand; names and order stay.
pub proof fn law_expansion_reaches_every_type_of_a_declaration(al: Seq<AliasV>, d: Decl, e: Decl)
    requires
        decl_rewritten(al, d, e),
    ensures
        d matches Decl::Struct(s) ==> (e matches Decl::Struct(t) && t.name == s.name
            && fields_expand_to(al, s.fields@, t.fields@)),
        d matches Decl::Enum(s) ==> (e matches Decl::Enum(t) && t.name == s.name && t.variants@.len()
            == s.variants@.len() && forall|i: int|
            0 <= i < s.variants@.len() ==> (#[trigger] t.variants@[i]).name == s.variants@[i].name
                && fields_expand_to(al, s.variants@[i].fields@, t.variants@[i].fields@)),
        d matches Decl::Fun(f) ==> (e matches Decl::Fun(g) && g.name == f.name && annotation_expands_to(
            al,
            f.return_type,
            g.return_type,
        ) && g.params@.len() == f.params@.len() && forall|i: int|
            0 <= i < f.params@.len() ==> (#[trigger] g.params@[i]).name == f.params@[i].name
                && annotation_expands_to(al, f.params@[i].type_ann, g.params@[i].type_ann)),
        d matches Decl::Let(x) ==> (e matches Decl::Let(y) && y.name == x.name
            && annotation_expands_to(al, x.type_ann, y.type_ann)),
        d matches Decl::Mut(x) ==> (e matches Decl::Mut(y) && y.name == x.name
            && annotation_expands_to(al, x.type_ann, y.type_ann)),
        d matches Decl::Impl(a) ==> (e matches Decl::Impl(b) && b.aspect_name == a.aspect_name
            && expands_to(al, a.target_type, b.target_type) && b.aspect_type_args@.len()
            == a.aspect_type_args@.len() && b.methods@.len() == a.methods@.len() && forall|i: int|
            0 <= i < a.aspect_type_args@.len() ==> expands_to(
                al,
                a.aspect_type_args@[i],
                #[trigger] b.aspect_type_args@[i],
            )),
{
}

/// A declaration with a type that cannot be expanded is refused.
pub proof fn law_wrong_uses_are_refused(al: Seq<AliasV>, s: StructDecl, i: int)
    requires
        0 <= i < s.fields@.len(),
        expanded(flat(al), s.fields@[i].type_ann@, 0) is Err,
    ensures
        decl_fault(al, Decl::Struct(s)) is Some,
{
    lemma_fields_fault(al, s.fields@, i, s.fields@.len() as int);
}

proof fn lemma_fields_fault(al: Seq<AliasV>, s: Seq<FieldDecl>, i: int, k: int)
    requires
        0 <= i < k <= s.len(),
        expanded(flat(al), s[i].type_ann@, 0) is Err,
    ensures
        super::rewrite::fields_fault(al, s, k) is Some,
    decreases k,
{
    if i < k - 1 {
        lemma_fields_fault(al, s, i, k - 1);
    }
}

proof fn lemma_known_alias(s: Seq<Decl>, i: int, k: int)
    requires
        0 <= i < k <= s.len(),
        s[i] is TypeAlias,
        declared_aliases(s, k) is Ok,
    ensures
        alias_named(declared_aliases(s, k)->Ok_0, s[i]->TypeAlias_0.name@) is Some,
        declared_aliases(s, k)->Ok_0.contains(alias_of(s[i]->TypeAlias_0)),
    decreases k,
{
    let al = declared_aliases(s, k)->Ok_0;
    let before = declared_aliases(s, k - 1)->Ok_0;
    let a = alias_of(s[i]->TypeAlias_0);
    let p = |x: AliasV| x.name == a.name;
    if i < k - 1 {
        lemma_known_alias(s, i, k - 1);
        let j = choose|j: int| 0 <= j < before.len() && before[j] == a;
        assert(al[j] == a);
    } else {
        assert(al[al.len() - 1] == a);
    }
    let j = choose|j: int| 0 <= j < al.len() && al[j] == a;
    lemma_first_named_at(al, j);
}

proof fn lemma_first_named_at(al: Seq<AliasV>, j: int)
    requires
        0 <= j < al.len(),
    ensures
        alias_named(al, al[j].name) is Some,
    decreases al.len(),
{
    if al[0].name != al[j].name {
        assert(al.skip(1)[j - 1] == al[j]);
        lemma_first_named_at(al.skip(1), j - 1);
        assert(alias_named(al, al[j].name) == alias_named(al.skip(1), al[j].name));
    }
}

/// Two aliases under one name are refused.
pub proof fn law_two_aliases_of_one_name_are_refused(s: Seq<Decl>, i: int, j: int)
    requires
        0 <= i < j < s.len(),
        s[i] is TypeAlias,
        s[j] is TypeAlias,
        s[i]->TypeAlias_0.name@ == s[j]->TypeAlias_0.name@,
    ensures
        declared_aliases(s, s.len() as int) is Err,
{
    if declared_aliases(s, j) is Ok {
        lemma_known_alias(s, i, j);
    }
    assert(declared_aliases(s, j + 1) is Err);
    lemma_stays_wrong(s, j + 1, s.len() as int);
}

proof fn lemma_stays_wrong(s: Seq<Decl>, k: int, n: int)
    requires
        0 <= k <= n <= s.len(),
        declared_aliases(s, k) is Err,
    ensures
        declared_aliases(s, n) is Err,
    decreases n,
{
    if k < n {
        lemma_stays_wrong(s, k, n - 1);
    }
}

/// Every alias of a module is known as it is declared: with its parameters in order and its target.
pub proof fn law_aliases_are_known_as_declared(s: Seq<Decl>, i: int, p: int)
    requires
        0 <= i < s.len(),
        s[i] is TypeAlias,
        declared_aliases(s, s.len() as int) is Ok,
        0 <= p < s[i]->TypeAlias_0.generics@.len(),
    ensures
        ({
            let d = s[i]->TypeAlias_0;
            let al = declared_aliases(s, s.len() as int)->Ok_0;
            exists|a: AliasV| #[trigger]
                al.contains(a) && a.name == d.name@ && a.target == d.target@ && a.span == d.span@
                    && a.params.len() == d.generics@.len() && a.params[p] == d.generics@[p].name@
        }),
{
    lemma_known_alias(s, i, s.len() as int);
}

/// Whatever is no alias stays in its module, and in its order: a declaration stands behind those
/// that stood before it.
pub proof fn law_other_declarations_stay(s: Seq<Decl>, i: int, k: int)
    requires
        0 <= i < k <= s.len(),
        !(s[i] is TypeAlias),
    ensures
        kept(s, i).len() < kept(s, k).len(),
        kept(s, k)[kept(s, i).len() as int] == s[i],
    decreases k,
{
    if i < k - 1 {
        law_other_declarations_stay(s, i, k - 1);
    }
}

/// Nothing is added to a module, and no alias is left among its declarations.
pub proof fn law_nothing_is_added(s: Seq<Decl>, k: int, j: int)
    requires
        0 <= k <= s.len(),
        0 <= j < kept(s, k).len(),
    ensures
        !(kept(s, k)[j] is TypeAlias),
        s.contains(kept(s, k)[j]),
        kept(s, k).len() <= k,
    decreases k,
{
    if k > 0 {
        let before = kept(s, k - 1);
        if j < before.len() {
            law_nothing_is_added(s, k - 1, j);
        } else {
            assert(kept(s, k)[j] == s[k - 1]);
            if before.len() > 0 {
                law_nothing_is_added(s, k - 1, 0);
            }
        }
    }
}

} // verus!
