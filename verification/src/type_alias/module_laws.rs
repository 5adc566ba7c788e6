//! What expansion promises of a whole module and of a graph of modules.
use vstd::prelude::*;
use crate::ast::{AspectMethod, AssocTypeDef, Decl, FieldDecl, FunDecl, Param, Program, TypeExpr};
use crate::ast::{TypeExprV, VariantDecl};
use crate::module_loader::LoadedModule;
use super::bodies::{decl_rewritten, fun_rewritten, signature_rewritten};
use super::expansion::AliasV;
use super::laws::{alias_free, all_alias_free, fields_alias_free, law_expansion_leaves_no_alias};
use super::laws::params_apart;
use super::rewrite::{ann_rewritten, declared_aliases, first_faulty, flattened, kept};
use super::rewrite::{module_aliases, module_rewritten, program_fault, program_rewritten};
use super::rewrite::type_rewritten;

verus! {

/// Whether an annotation mentions no alias.
pub open spec fn ann_free(al: Seq<AliasV>, t: Option<TypeExpr>) -> bool {
    t matches Some(t) ==> alias_free(al, t@)
}

/// Whether the parameters of a function mention no alias.
pub open spec fn params_free(al: Seq<AliasV>, s: Seq<Param>) -> bool {
    forall|i: int| 0 <= i < s.len() ==> ann_free(al, (#[trigger] s[i]).type_ann)
}

/// Whether fields mention no alias.
pub open spec fn fields_free(al: Seq<AliasV>, s: Seq<FieldDecl>) -> bool {
    forall|i: int| 0 <= i < s.len() ==> alias_free(al, (#[trigger] s[i]).type_ann@)
}

/// Whether the fields of variants mention no alias.
pub open spec fn variants_free(al: Seq<AliasV>, s: Seq<VariantDecl>) -> bool {
    forall|i: int| 0 <= i < s.len() ==> fields_free(al, (#[trigger] s[i]).fields@)
}

/// Whether types mention no alias.
pub open spec fn types_free(al: Seq<AliasV>, s: Seq<TypeExpr>) -> bool {
    forall|i: int| 0 <= i < s.len() ==> alias_free(al, (#[trigger] s[i])@)
}

/// Whether associated types mention no alias.
pub open spec fn assocs_free(al: Seq<AliasV>, s: Seq<AssocTypeDef>) -> bool {
    forall|i: int| 0 <= i < s.len() ==> alias_free(al, (#[trigger] s[i]).ty@)
}

/// Whether the signature of a function mentions no alias.
pub open spec fn fun_free(al: Seq<AliasV>, f: FunDecl) -> bool {
    params_free(al, f.params@) && ann_free(al, f.return_type)
}

/// Whether the signature of an aspect's method mentions no alias.
pub open spec fn signature_free(al: Seq<AliasV>, m: AspectMethod) -> bool {
    params_free(al, m.params@) && ann_free(al, m.return_type)
}

/// Whether a declaration is no alias and its fields, parameters, results and annotations mention
/// none.
pub open spec fn decl_free(al: Seq<AliasV>, d: Decl) -> bool {
    match d {
        Decl::Fun(f) => fun_free(al, f),
        Decl::Struct(s) => fields_free(al, s.fields@),
        Decl::Enum(e) => variants_free(al, e.variants@),
        Decl::Impl(ib) => {
            &&& alias_free(al, ib.target_type@)
            &&& types_free(al, ib.aspect_type_args@)
            &&& assocs_free(al, ib.assoc_type_defs@)
            &&& forall|i: int| 0 <= i < ib.methods@.len() ==> fun_free(al, #[trigger] ib.methods@[i])
        },
        Decl::Aspect(a) => forall|i: int|
            0 <= i < a.methods@.len() ==> signature_free(al, #[trigger] a.methods@[i]),
        Decl::Let(x) => ann_free(al, x.type_ann),
        Decl::Mut(x) => ann_free(al, x.type_ann),
        Decl::Stmt(_) => true,
        Decl::TypeAlias(_) => false,
    }
}

/// The aliases that a module declares, as they stand.
pub open spec fn raw_aliases(p: Program) -> Seq<AliasV> {
    match declared_aliases(p.decls@, p.decls@.len() as int) {
        Ok(raw) => raw,
        Err(_) => Seq::empty(),
    }
}

/// The aliases of a module were expanded against one another.
spec fn settled(raw: Seq<AliasV>, al: Seq<AliasV>) -> bool {
    &&& params_apart(raw)
    &&& flattened(raw, raw.len() as int) is Ok
    &&& flattened(raw, raw.len() as int)->Ok_0 == al
}

proof fn lemma_type_free(raw: Seq<AliasV>, al: Seq<AliasV>, t: TypeExpr, u: TypeExpr)
    requires
        settled(raw, al),
        type_rewritten(al, t, u),
    ensures
        alias_free(raw, u@),
{
    law_expansion_leaves_no_alias(raw, t@);
}

proof fn lemma_ann_free(
    raw: Seq<AliasV>,
    al: Seq<AliasV>,
    t: Option<TypeExpr>,
    u: Option<TypeExpr>,
)
    requires
        settled(raw, al),
        ann_rewritten(al, t, u),
    ensures
        ann_free(raw, u),
{
    if let (Some(t), Some(u)) = (t, u) {
        lemma_type_free(raw, al, t, u);
    }
}

proof fn lemma_params_free(raw: Seq<AliasV>, al: Seq<AliasV>, s: Seq<Param>, t: Seq<Param>)
    requires
        settled(raw, al),
        super::rewrite::params_rewritten(al, s, t),
    ensures
        params_free(raw, t),
{
    assert forall|i: int| 0 <= i < t.len() implies ann_free(raw, (#[trigger] t[i]).type_ann) by {
        lemma_ann_free(raw, al, s[i].type_ann, t[i].type_ann);
    }
}

proof fn lemma_fields_free(
    raw: Seq<AliasV>,
    al: Seq<AliasV>,
    s: Seq<FieldDecl>,
    t: Seq<FieldDecl>,
)
    requires
        settled(raw, al),
        super::rewrite::fields_rewritten(al, s, t),
    ensures
        fields_free(raw, t),
{
    assert forall|i: int| 0 <= i < t.len() implies alias_free(
        raw,
        (#[trigger] t[i]).type_ann@,
    ) by {
        lemma_type_free(raw, al, s[i].type_ann, t[i].type_ann);
    }
}

proof fn lemma_fun_free(raw: Seq<AliasV>, al: Seq<AliasV>, f: FunDecl, g: FunDecl)
    requires
        settled(raw, al),
        fun_rewritten(al, f, g),
    ensures
        fun_free(raw, g),
{
    lemma_params_free(raw, al, f.params@, g.params@);
    lemma_ann_free(raw, al, f.return_type, g.return_type);
}

proof fn lemma_decl_free(raw: Seq<AliasV>, al: Seq<AliasV>, d: Decl, e: Decl)
    requires
        settled(raw, al),
        decl_rewritten(al, d, e),
        !(d is TypeAlias),
    ensures
        decl_free(raw, e),
{
    match (d, e) {
        (Decl::Fun(f), Decl::Fun(g)) => lemma_fun_free(raw, al, f, g),
        (Decl::Struct(s), Decl::Struct(t)) => lemma_fields_free(raw, al, s.fields@, t.fields@),
        (Decl::Enum(s), Decl::Enum(t)) => {
            assert forall|i: int| 0 <= i < t.variants@.len() implies fields_free(
                raw,
                (#[trigger] t.variants@[i]).fields@,
            ) by {
                lemma_fields_free(raw, al, s.variants@[i].fields@, t.variants@[i].fields@);
            }
        },
        (Decl::Impl(a), Decl::Impl(b)) => {
            lemma_type_free(raw, al, a.target_type, b.target_type);
            assert forall|i: int| 0 <= i < b.aspect_type_args@.len() implies alias_free(
                raw,
                (#[trigger] b.aspect_type_args@[i])@,
            ) by {
                lemma_type_free(raw, al, a.aspect_type_args@[i], b.aspect_type_args@[i]);
            }
            assert forall|i: int| 0 <= i < b.assoc_type_defs@.len() implies alias_free(
                raw,
                (#[trigger] b.assoc_type_defs@[i]).ty@,
            ) by {
                lemma_type_free(raw, al, a.assoc_type_defs@[i].ty, b.assoc_type_defs@[i].ty);
            }
            assert forall|i: int| 0 <= i < b.methods@.len() implies fun_free(
                raw,
                #[trigger] b.methods@[i],
            ) by {
                lemma_fun_free(raw, al, a.methods@[i], b.methods@[i]);
            }
        },
        (Decl::Aspect(a), Decl::Aspect(b)) => {
            assert forall|i: int| 0 <= i < b.methods@.len() implies signature_free(
                raw,
                #[trigger] b.methods@[i],
            ) by {
                let m = a.methods@[i];
                let n = b.methods@[i];
                assert(signature_rewritten(al, m, n));
                lemma_params_free(raw, al, m.params@, n.params@);
                lemma_ann_free(raw, al, m.return_type, n.return_type);
            }
        },
        (Decl::Let(x), Decl::Let(y)) => lemma_ann_free(raw, al, x.type_ann, y.type_ann),
        (Decl::Mut(x), Decl::Mut(y)) => lemma_ann_free(raw, al, x.type_ann, y.type_ann),
        _ => {},
    }
}

proof fn lemma_kept_is_no_alias(s: Seq<Decl>, k: int)
    ensures
        forall|i: int| 0 <= i < kept(s, k).len() ==> !((#[trigger] kept(s, k)[i]) is TypeAlias),
    decreases k,
{
    if !(k <= 0 || k > s.len()) {
        lemma_kept_is_no_alias(s, k - 1);
    }
}

proof fn lemma_no_alias_declared(s: Seq<Decl>, k: int)
    requires
        forall|i: int| 0 <= i < s.len() ==> !((#[trigger] s[i]) is TypeAlias),
    ensures
        declared_aliases(s, k) matches Ok(raw) && raw.len() == 0,
    decreases k,
{
    if !(k <= 0 || k > s.len()) {
        lemma_no_alias_declared(s, k - 1);
    }
}

proof fn lemma_some_alias_declared(s: Seq<Decl>, k: int, i: int)
    requires
        0 <= i < k <= s.len(),
        s[i] is TypeAlias,
        declared_aliases(s, k) is Ok,
    ensures
        declared_aliases(s, k)->Ok_0.len() > 0,
    decreases k,
{
    if i < k - 1 {
        lemma_some_alias_declared(s, k - 1, i);
    }
}

proof fn lemma_free_of_nothing(al: Seq<AliasV>, t: TypeExprV)
    requires
        al.len() == 0,
    ensures
        alias_free(al, t),
    decreases t,
{
    match t {
        TypeExprV::Named(_, s) => lemma_all_free_of_nothing(al, s),
        TypeExprV::Tuple(s) => lemma_all_free_of_nothing(al, s),
        TypeExprV::Record(s) => {
            assert forall|i: int| 0 <= i < s.len() implies alias_free(al, (#[trigger] s[i]).1) by {
                lemma_free_of_nothing(al, s[i].1);
            }
            assert(fields_alias_free(al, s));
        },
        TypeExprV::Array(x) => lemma_free_of_nothing(al, *x),
        TypeExprV::SizedArray(x, _) => lemma_free_of_nothing(al, *x),
        TypeExprV::Reference(x) => lemma_free_of_nothing(al, *x),
        TypeExprV::MutReference(x) => lemma_free_of_nothing(al, *x),
        TypeExprV::Fun(s, x) => {
            lemma_all_free_of_nothing(al, s);
            if let Some(x) = x {
                lemma_free_of_nothing(al, *x);
            }
        },
        TypeExprV::ImplAspect { bound } => lemma_free_of_nothing(al, *bound),
        TypeExprV::DynAspect { bound } => lemma_free_of_nothing(al, *bound),
        TypeExprV::Projection { base, .. } => lemma_free_of_nothing(al, *base),
        _ => {},
    }
}

proof fn lemma_all_free_of_nothing(al: Seq<AliasV>, s: Seq<TypeExprV>)
    requires
        al.len() == 0,
    ensures
        all_alias_free(al, s),
    decreases s,
{
    assert forall|i: int| 0 <= i < s.len() implies alias_free(al, #[trigger] s[i]) by {
        lemma_free_of_nothing(al, s[i]);
    }
}

/// After a module was expanded, it declares no alias, its other declarations are as many as before
/// and in the same order, and no field, parameter, result or annotation of a declaration mentions a
/// former alias of the module. No parameter of an alias may have the name of an alias, for inside
/// that alias the name is the parameter.
pub proof fn law_an_expanded_module_holds_no_alias(p: Program, q: Program)
    requires
        program_fault(p) is None,
        program_rewritten(p, q),
        params_apart(raw_aliases(p)),
    ensures
        q.decls@.len() == kept(p.decls@, p.decls@.len() as int).len(),
        forall|i: int|
            0 <= i < q.decls@.len() ==> decl_free(raw_aliases(p), #[trigger] q.decls@[i]),
{
    let s = p.decls@;
    let n = s.len() as int;
    let raw = raw_aliases(p);
    let rest = kept(s, n);
    lemma_kept_is_no_alias(s, n);
    let al = module_aliases(s)->Ok_0;
    if al.len() == 0 {
        assert(raw.len() == 0) by {
            if raw.len() > 0 {
                super::rewrite::lemma_flattened_len(raw, raw.len() as int);
            }
        }
        assert forall|i: int| 0 <= i < n implies !((#[trigger] s[i]) is TypeAlias) by {
            if s[i] is TypeAlias {
                lemma_some_alias_declared(s, n, i);
            }
        }
        lemma_all_kept(s, n);
        assert forall|t: TypeExprV| #[trigger] alias_free(raw, t) by {
            lemma_free_of_nothing(raw, t);
        }
    } else {
        assert(settled(raw, al));
        assert forall|i: int| 0 <= i < q.decls@.len() implies decl_free(
            raw,
            #[trigger] q.decls@[i],
        ) by {
            lemma_decl_free(raw, al, rest[i], q.decls@[i]);
        }
    }
}

proof fn lemma_all_kept(s: Seq<Decl>, k: int)
    requires
        0 <= k <= s.len(),
        forall|i: int| 0 <= i < s.len() ==> !((#[trigger] s[i]) is TypeAlias),
    ensures
        kept(s, k) == s.take(k),
    decreases k,
{
    if k > 0 {
        lemma_all_kept(s, k - 1);
        assert(s.take(k) =~= s.take(k - 1).push(s[k - 1]));
    } else {
        assert(s.take(0) =~= Seq::empty());
    }
}

/// A module that was expanded is not changed by a second expansion, and nothing is wrong with it.
pub proof fn law_a_second_expansion_changes_nothing(p: Program, q: Program, r: Program)
    requires
        program_fault(p) is None,
        program_rewritten(p, q),
    ensures
        program_fault(q) is None,
        program_rewritten(q, r) <==> r == q,
{
    let s = p.decls@;
    let n = s.len() as int;
    let al = module_aliases(s)->Ok_0;
    if al.len() > 0 {
        let rest = kept(s, n);
        lemma_kept_is_no_alias(s, n);
        assert forall|i: int| 0 <= i < q.decls@.len() implies !((#[trigger] q.decls@[i]) is TypeAlias) by {
            assert(decl_rewritten(al, rest[i], q.decls@[i]));
        }
        lemma_no_alias_declared(q.decls@, q.decls@.len() as int);
    }
}

/// A graph whose modules were expanded is not changed by a second expansion, and nothing is wrong
/// with it.
pub proof fn law_an_expanded_graph_is_settled(
    s: Seq<LoadedModule>,
    t: Seq<LoadedModule>,
    u: Seq<LoadedModule>,
)
    requires
        first_faulty(s, 0) == s.len(),
        s.len() == t.len(),
        t.len() == u.len(),
        forall|i: int| 0 <= i < s.len() ==> module_rewritten(s[i], #[trigger] t[i]),
        forall|i: int| 0 <= i < t.len() ==> module_rewritten(t[i], #[trigger] u[i]),
    ensures
        first_faulty(t, 0) == t.len(),
        u == t,
{
    lemma_faultless(s, 0);
    assert forall|i: int| 0 <= i < t.len() implies program_fault((#[trigger] t[i]).program) is None
        && u[i] == t[i] by {
        assert(program_fault(s[i].program) is None);
        assert(module_rewritten(t[i], u[i]));
        law_a_second_expansion_changes_nothing(s[i].program, t[i].program, u[i].program);
    }
    lemma_all_faultless(t, 0);
    assert(u =~= t);
}

proof fn lemma_faultless(s: Seq<LoadedModule>, i: int)
    requires
        0 <= i <= s.len(),
        first_faulty(s, i) == s.len(),
    ensures
        forall|k: int| i <= k < s.len() ==> program_fault((#[trigger] s[k]).program) is None,
    decreases s.len() - i,
{
    if i < s.len() {
        lemma_faultless(s, i + 1);
    }
}

proof fn lemma_all_faultless(s: Seq<LoadedModule>, i: int)
    requires
        0 <= i <= s.len(),
        forall|k: int| i <= k < s.len() ==> program_fault((#[trigger] s[k]).program) is None,
    ensures
        first_faulty(s, i) == s.len(),
    decreases s.len() - i,
{
    if i < s.len() {
        lemma_all_faultless(s, i + 1);
    }
}

} // verus!
