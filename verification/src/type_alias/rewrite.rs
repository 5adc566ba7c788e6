//! Rewriting of every type in a module.
use vstd::prelude::*;
use crate::ast::{AssocTypeDecl, AssocTypeDef, Bound, Decl, FieldDecl, GenericParam, Param, Program};
use crate::ast::{TypeAliasDecl, TypeExpr, TypeExprV, VariantDecl, WhereClause, WhereConstraint};
use crate::error::{type_failure, MetelError, MetelErrorV, TypeErrorCode};
use crate::module_loader::{LoadedModule, ModuleGraph};
use crate::span::SpanV;
use crate::text::{joined3, texts};
use super::bodies::{decl_fault, decl_rewritten, decls_fault, decls_rewritten, lemma_decls_fault};
use super::bodies::rewrite_decl;
use super::expansion::{alias_named, aliases_view, expanded, find_alias, AliasDef};
use super::expansion::{AliasV, Expander, Expansion};

verus! {

/// Expansion by aliases whose targets hold no alias any more.
pub open spec fn flat(al: Seq<AliasV>) -> Expansion {
    Expansion { aliases: al, local: Seq::empty(), chain: Seq::empty(), flat: true }
}

/// What is wrong with a type.
pub open spec fn type_fault(al: Seq<AliasV>, t: TypeExpr) -> Option<MetelErrorV> {
    match expanded(flat(al), t@, 0) {
        Ok(_) => None,
        Err(e) => Some(e),
    }
}

/// Whether a type is another with its aliases expanded.
pub open spec fn type_rewritten(al: Seq<AliasV>, t: TypeExpr, u: TypeExpr) -> bool {
    expanded(flat(al), t@, 0) == Ok::<TypeExprV, MetelErrorV>(u@)
}

/// What is wrong with an annotation.
pub open spec fn ann_fault(al: Seq<AliasV>, t: Option<TypeExpr>) -> Option<MetelErrorV> {
    match t {
        Some(t) => type_fault(al, t),
        None => None,
    }
}

/// Whether an annotation is another with its aliases expanded.
pub open spec fn ann_rewritten(al: Seq<AliasV>, t: Option<TypeExpr>, u: Option<TypeExpr>) -> bool {
    match (t, u) {
        (Some(t), Some(u)) => type_rewritten(al, t, u),
        (None, None) => true,
        _ => false,
    }
}

/// The first of two faults.
pub open spec fn either(a: Option<MetelErrorV>, b: Option<MetelErrorV>) -> Option<MetelErrorV> {
    match a {
        Some(e) => Some(e),
        None => b,
    }
}

/// What is wrong with the type of a parameter.
pub open spec fn param_fault(al: Seq<AliasV>, p: Param) -> Option<MetelErrorV> {
    ann_fault(al, p.type_ann)
}

/// Whether a parameter is another with its type expanded.
pub open spec fn param_rewritten(al: Seq<AliasV>, p: Param, q: Param) -> bool {
    ann_rewritten(al, p.type_ann, q.type_ann) && q == (Param { type_ann: q.type_ann, ..p })
}

/// What is wrong with the type of a field.
pub open spec fn field_fault(al: Seq<AliasV>, f: FieldDecl) -> Option<MetelErrorV> {
    type_fault(al, f.type_ann)
}

/// Whether a field is another with its type expanded.
pub open spec fn field_rewritten(al: Seq<AliasV>, f: FieldDecl, g: FieldDecl) -> bool {
    type_rewritten(al, f.type_ann, g.type_ann) && g == (FieldDecl { type_ann: g.type_ann, ..f })
}

/// What is wrong with the types of a variant.
pub open spec fn variant_fault(al: Seq<AliasV>, v: VariantDecl) -> Option<MetelErrorV> {
    fields_fault(al, v.fields@, v.fields@.len() as int)
}

/// Whether a variant is another with its types expanded.
pub open spec fn variant_rewritten(al: Seq<AliasV>, v: VariantDecl, w: VariantDecl) -> bool {
    fields_rewritten(al, v.fields@, w.fields@) && w == (VariantDecl { fields: w.fields, ..v })
}

/// What is wrong with an associated type.
pub open spec fn assoc_fault(al: Seq<AliasV>, a: AssocTypeDef) -> Option<MetelErrorV> {
    type_fault(al, a.ty)
}

/// Whether an associated type is another with its type expanded.
pub open spec fn assoc_rewritten(al: Seq<AliasV>, a: AssocTypeDef, b: AssocTypeDef) -> bool {
    type_rewritten(al, a.ty, b.ty) && b == (AssocTypeDef { ty: b.ty, ..a })
}

/// What is wrong with a bound.
pub open spec fn bound_fault(al: Seq<AliasV>, b: Bound) -> Option<MetelErrorV> {
    type_fault(al, b.aspect)
}

/// Whether a bound is another with its types expanded.
pub open spec fn bound_rewritten(al: Seq<AliasV>, b: Bound, c: Bound) -> bool {
    type_rewritten(al, b.aspect, c.aspect) && c == (Bound { aspect: c.aspect, ..b })
}

/// What is wrong with the bounds of a type parameter.
pub open spec fn generic_fault(al: Seq<AliasV>, g: GenericParam) -> Option<MetelErrorV> {
    bounds_fault(al, g.bounds@, g.bounds@.len() as int)
}

/// Whether a type parameter is another with its bounds expanded.
pub open spec fn generic_rewritten(al: Seq<AliasV>, g: GenericParam, h: GenericParam) -> bool {
    bounds_rewritten(al, g.bounds@, h.bounds@) && h == (GenericParam { bounds: h.bounds, ..g })
}

/// What is wrong with a constraint of a `where` clause.
pub open spec fn constraint_fault(al: Seq<AliasV>, c: WhereConstraint) -> Option<MetelErrorV> {
    bounds_fault(al, c.bounds@, c.bounds@.len() as int)
}

/// Whether a constraint of a `where` clause is another with its bounds expanded.
pub open spec fn constraint_rewritten(
    al: Seq<AliasV>,
    c: WhereConstraint,
    d: WhereConstraint,
) -> bool {
    bounds_rewritten(al, c.bounds@, d.bounds@) && d == (WhereConstraint { bounds: d.bounds, ..c })
}

/// What is wrong with a `where` clause.
pub open spec fn where_fault(al: Seq<AliasV>, w: Option<WhereClause>) -> Option<MetelErrorV> {
    match w {
        Some(w) => constraints_fault(al, w.constraints@, w.constraints@.len() as int),
        None => None,
    }
}

/// Whether a `where` clause is another with its bounds expanded.
pub open spec fn where_rewritten(
    al: Seq<AliasV>,
    w: Option<WhereClause>,
    x: Option<WhereClause>,
) -> bool {
    match (w, x) {
        (Some(w), Some(x)) => constraints_rewritten(al, w.constraints@, x.constraints@),
        (None, None) => true,
        _ => false,
    }
}

/// What is wrong with the bounds of an associated type.
pub open spec fn requirement_fault(al: Seq<AliasV>, a: AssocTypeDecl) -> Option<MetelErrorV> {
    bounds_fault(al, a.bounds@, a.bounds@.len() as int)
}

/// Whether a declared associated type is another with its bounds expanded.
pub open spec fn requirement_rewritten(
    al: Seq<AliasV>,
    a: AssocTypeDecl,
    b: AssocTypeDecl,
) -> bool {
    bounds_rewritten(al, a.bounds@, b.bounds@) && b == (AssocTypeDecl { bounds: b.bounds, ..a })
}

/// What is wrong with the types of the first `k` of a list.
pub open spec fn types_fault(al: Seq<AliasV>, s: Seq<TypeExpr>, k: int) -> Option<MetelErrorV>
    decreases k,
{
    if k <= 0 || k > s.len() {
        None
    } else {
        match types_fault(al, s, k - 1) {
            Some(e) => Some(e),
            None => type_fault(al, s[k - 1]),
        }
    }
}

/// Whether a list is another with its types expanded.
pub open spec fn types_rewritten(al: Seq<AliasV>, s: Seq<TypeExpr>, t: Seq<TypeExpr>) -> bool
{
    s.len() == t.len() && forall|i: int|
        0 <= i < s.len() ==> type_rewritten(al, s[i], #[trigger] t[i])
}

/// What is wrong with the types of the first `k` of a list.
pub open spec fn params_fault(al: Seq<AliasV>, s: Seq<Param>, k: int) -> Option<MetelErrorV>
    decreases k,
{
    if k <= 0 || k > s.len() {
        None
    } else {
        match params_fault(al, s, k - 1) {
            Some(e) => Some(e),
            None => param_fault(al, s[k - 1]),
        }
    }
}

/// Whether a list is another with its types expanded.
pub open spec fn params_rewritten(al: Seq<AliasV>, s: Seq<Param>, t: Seq<Param>) -> bool
{
    s.len() == t.len() && forall|i: int|
        0 <= i < s.len() ==> param_rewritten(al, s[i], #[trigger] t[i])
}

/// What is wrong with the types of the first `k` of a list.
pub open spec fn fields_fault(al: Seq<AliasV>, s: Seq<FieldDecl>, k: int) -> Option<MetelErrorV>
    decreases k,
{
    if k <= 0 || k > s.len() {
        None
    } else {
        match fields_fault(al, s, k - 1) {
            Some(e) => Some(e),
            None => field_fault(al, s[k - 1]),
        }
    }
}

/// Whether a list is another with its types expanded.
pub open spec fn fields_rewritten(al: Seq<AliasV>, s: Seq<FieldDecl>, t: Seq<FieldDecl>) -> bool
{
    s.len() == t.len() && forall|i: int|
        0 <= i < s.len() ==> field_rewritten(al, s[i], #[trigger] t[i])
}

/// What is wrong with the types of the first `k` of a list.
pub open spec fn variants_fault(al: Seq<AliasV>, s: Seq<VariantDecl>, k: int) -> Option<MetelErrorV>
    decreases k,
{
    if k <= 0 || k > s.len() {
        None
    } else {
        match variants_fault(al, s, k - 1) {
            Some(e) => Some(e),
            None => variant_fault(al, s[k - 1]),
        }
    }
}

/// Whether a list is another with its types expanded.
pub open spec fn variants_rewritten(al: Seq<AliasV>, s: Seq<VariantDecl>, t: Seq<VariantDecl>) -> bool
{
    s.len() == t.len() && forall|i: int|
        0 <= i < s.len() ==> variant_rewritten(al, s[i], #[trigger] t[i])
}

/// What is wrong with the types of the first `k` of a list.
pub open spec fn assocs_fault(al: Seq<AliasV>, s: Seq<AssocTypeDef>, k: int) -> Option<MetelErrorV>
    decreases k,
{
    if k <= 0 || k > s.len() {
        None
    } else {
        match assocs_fault(al, s, k - 1) {
            Some(e) => Some(e),
            None => assoc_fault(al, s[k - 1]),
        }
    }
}

/// Whether a list is another with its types expanded.
pub open spec fn assocs_rewritten(al: Seq<AliasV>, s: Seq<AssocTypeDef>, t: Seq<AssocTypeDef>) -> bool
{
    s.len() == t.len() && forall|i: int|
        0 <= i < s.len() ==> assoc_rewritten(al, s[i], #[trigger] t[i])
}

/// What is wrong with the types of the first `k` of a list.
pub open spec fn bounds_fault(al: Seq<AliasV>, s: Seq<Bound>, k: int) -> Option<MetelErrorV>
    decreases k,
{
    if k <= 0 || k > s.len() {
        None
    } else {
        match bounds_fault(al, s, k - 1) {
            Some(e) => Some(e),
            None => bound_fault(al, s[k - 1]),
        }
    }
}

/// Whether a list is another with its types expanded.
pub open spec fn bounds_rewritten(al: Seq<AliasV>, s: Seq<Bound>, t: Seq<Bound>) -> bool
{
    s.len() == t.len() && forall|i: int|
        0 <= i < s.len() ==> bound_rewritten(al, s[i], #[trigger] t[i])
}

/// What is wrong with the types of the first `k` of a list.
pub open spec fn generics_fault(al: Seq<AliasV>, s: Seq<GenericParam>, k: int) -> Option<MetelErrorV>
    decreases k,
{
    if k <= 0 || k > s.len() {
        None
    } else {
        match generics_fault(al, s, k - 1) {
            Some(e) => Some(e),
            None => generic_fault(al, s[k - 1]),
        }
    }
}

/// Whether a list is another with its types expanded.
pub open spec fn generics_rewritten(al: Seq<AliasV>, s: Seq<GenericParam>, t: Seq<GenericParam>) -> bool
{
    s.len() == t.len() && forall|i: int|
        0 <= i < s.len() ==> generic_rewritten(al, s[i], #[trigger] t[i])
}

/// What is wrong with the types of the first `k` of a list.
pub open spec fn constraints_fault(al: Seq<AliasV>, s: Seq<WhereConstraint>, k: int) -> Option<MetelErrorV>
    decreases k,
{
    if k <= 0 || k > s.len() {
        None
    } else {
        match constraints_fault(al, s, k - 1) {
            Some(e) => Some(e),
            None => constraint_fault(al, s[k - 1]),
        }
    }
}

/// Whether a list is another with its types expanded.
pub open spec fn constraints_rewritten(al: Seq<AliasV>, s: Seq<WhereConstraint>, t: Seq<WhereConstraint>) -> bool
{
    s.len() == t.len() && forall|i: int|
        0 <= i < s.len() ==> constraint_rewritten(al, s[i], #[trigger] t[i])
}

/// What is wrong with the types of the first `k` of a list.
pub open spec fn requirements_fault(al: Seq<AliasV>, s: Seq<AssocTypeDecl>, k: int) -> Option<MetelErrorV>
    decreases k,
{
    if k <= 0 || k > s.len() {
        None
    } else {
        match requirements_fault(al, s, k - 1) {
            Some(e) => Some(e),
            None => requirement_fault(al, s[k - 1]),
        }
    }
}

/// Whether a list is another with its types expanded.
pub open spec fn requirements_rewritten(al: Seq<AliasV>, s: Seq<AssocTypeDecl>, t: Seq<AssocTypeDecl>) -> bool
{
    s.len() == t.len() && forall|i: int|
        0 <= i < s.len() ==> requirement_rewritten(al, s[i], #[trigger] t[i])
}

pub(super) fn rewrite_type(al: &Vec<AliasDef>, t: &mut TypeExpr) -> (r: Option<MetelError>)
    ensures
        match type_fault(aliases_view(al@), *old(t)) {
            Some(e) => r matches Some(x) && x@ == e,
            None => r is None && type_rewritten(aliases_view(al@), *old(t), *final(t)),
        },
{
    let none: Vec<String> = Vec::new();
    let x: Expander = Expander { aliases: al, local: &none, chain: Vec::new(), flat: true };
    assert(x@.local =~= Seq::empty());
    assert(x@.chain =~= Seq::empty());
    match x.expand_type(t, 0) {
        Ok(u) => {
            *t = u;
            None
        },
        Err(e) => Some(e),
    }
}

pub(super) fn rewrite_ann(al: &Vec<AliasDef>, t: &mut Option<TypeExpr>) -> (r: Option<MetelError>)
    ensures
        match ann_fault(aliases_view(al@), *old(t)) {
            Some(e) => r matches Some(x) && x@ == e,
            None => r is None && ann_rewritten(aliases_view(al@), *old(t), *final(t)),
        },
{
    match t {
        Some(t) => rewrite_type(al, t),
        None => None,
    }
}

fn rewrite_param(al: &Vec<AliasDef>, p: &mut Param) -> (r: Option<MetelError>)
    ensures
        match param_fault(aliases_view(al@), *old(p)) {
            Some(e) => r matches Some(x) && x@ == e,
            None => r is None && param_rewritten(aliases_view(al@), *old(p), *final(p)),
        },
{
    rewrite_ann(al, &mut p.type_ann)
}

fn rewrite_field(al: &Vec<AliasDef>, f: &mut FieldDecl) -> (r: Option<MetelError>)
    ensures
        match field_fault(aliases_view(al@), *old(f)) {
            Some(e) => r matches Some(x) && x@ == e,
            None => r is None && field_rewritten(aliases_view(al@), *old(f), *final(f)),
        },
{
    rewrite_type(al, &mut f.type_ann)
}

fn rewrite_variant(al: &Vec<AliasDef>, v: &mut VariantDecl) -> (r: Option<MetelError>)
    ensures
        match variant_fault(aliases_view(al@), *old(v)) {
            Some(e) => r matches Some(x) && x@ == e,
            None => r is None && variant_rewritten(aliases_view(al@), *old(v), *final(v)),
        },
{
    rewrite_fields(al, &mut v.fields)
}

fn rewrite_assoc(al: &Vec<AliasDef>, a: &mut AssocTypeDef) -> (r: Option<MetelError>)
    ensures
        match assoc_fault(aliases_view(al@), *old(a)) {
            Some(e) => r matches Some(x) && x@ == e,
            None => r is None && assoc_rewritten(aliases_view(al@), *old(a), *final(a)),
        },
{
    rewrite_type(al, &mut a.ty)
}

fn rewrite_bound(al: &Vec<AliasDef>, b: &mut Bound) -> (r: Option<MetelError>)
    ensures
        match bound_fault(aliases_view(al@), *old(b)) {
            Some(e) => r matches Some(x) && x@ == e,
            None => r is None && bound_rewritten(aliases_view(al@), *old(b), *final(b)),
        },
{
    rewrite_type(al, &mut b.aspect)
}

fn rewrite_generic(al: &Vec<AliasDef>, g: &mut GenericParam) -> (r: Option<MetelError>)
    ensures
        match generic_fault(aliases_view(al@), *old(g)) {
            Some(e) => r matches Some(x) && x@ == e,
            None => r is None && generic_rewritten(aliases_view(al@), *old(g), *final(g)),
        },
{
    rewrite_bounds(al, &mut g.bounds)
}

fn rewrite_constraint(al: &Vec<AliasDef>, c: &mut WhereConstraint) -> (r: Option<MetelError>)
    ensures
        match constraint_fault(aliases_view(al@), *old(c)) {
            Some(e) => r matches Some(x) && x@ == e,
            None => r is None && constraint_rewritten(aliases_view(al@), *old(c), *final(c)),
        },
{
    rewrite_bounds(al, &mut c.bounds)
}

fn rewrite_requirement(al: &Vec<AliasDef>, a: &mut AssocTypeDecl) -> (r: Option<MetelError>)
    ensures
        match requirement_fault(aliases_view(al@), *old(a)) {
            Some(e) => r matches Some(x) && x@ == e,
            None => r is None && requirement_rewritten(aliases_view(al@), *old(a), *final(a)),
        },
{
    rewrite_bounds(al, &mut a.bounds)
}

pub(super) fn rewrite_where(al: &Vec<AliasDef>, w: &mut Option<WhereClause>) -> (r: Option<MetelError>)
    ensures
        match where_fault(aliases_view(al@), *old(w)) {
            Some(e) => r matches Some(x) && x@ == e,
            None => r is None && where_rewritten(aliases_view(al@), *old(w), *final(w)),
        },
{
    match w {
        Some(w) => rewrite_constraints(al, &mut w.constraints),
        None => None,
    }
}

pub(super) fn rewrite_types(al: &Vec<AliasDef>, v: &mut Vec<TypeExpr>) -> (r: Option<MetelError>)
    ensures
        match types_fault(aliases_view(al@), old(v)@, old(v)@.len() as int) {
            Some(e) => r matches Some(x) && x@ == e,
            None => r is None && types_rewritten(aliases_view(al@), old(v)@, final(v)@),
        },
{
    let ghost views = aliases_view(al@);
    let ghost before = v@;
    let n: usize = v.len();
    let mut i: usize = 0;
    while i < n
        invariant
            i <= n,
            n == before.len(),
            views == aliases_view(al@),
            before == old(v)@,
            v@.len() == before.len(),
            types_fault(views, before, i as int) is None,
            forall|k: int| 0 <= k < i ==> type_rewritten(views, before[k], #[trigger] v@[k]),
            forall|k: int| i <= k < n ==> #[trigger] v@[k] == before[k],
        decreases n - i,
    {
        let stopped: Option<MetelError> = rewrite_type(al, &mut v[i]);
        if let Some(e) = stopped {
            proof {
                lemma_types_fault(views, before, i + 1, n as int);
            }
            return Some(e);
        }
        i += 1;
    }
    None
}

proof fn lemma_types_fault(al: Seq<AliasV>, s: Seq<TypeExpr>, j: int, k: int)
    requires
        0 <= j <= k <= s.len(),
        types_fault(al, s, j) is Some,
    ensures
        types_fault(al, s, k) == types_fault(al, s, j),
    decreases k - j,
{
    if j < k {
        lemma_types_fault(al, s, j, k - 1);
    }
}

pub(super) fn rewrite_params(al: &Vec<AliasDef>, v: &mut Vec<Param>) -> (r: Option<MetelError>)
    ensures
        match params_fault(aliases_view(al@), old(v)@, old(v)@.len() as int) {
            Some(e) => r matches Some(x) && x@ == e,
            None => r is None && params_rewritten(aliases_view(al@), old(v)@, final(v)@),
        },
{
    let ghost views = aliases_view(al@);
    let ghost before = v@;
    let n: usize = v.len();
    let mut i: usize = 0;
    while i < n
        invariant
            i <= n,
            n == before.len(),
            views == aliases_view(al@),
            before == old(v)@,
            v@.len() == before.len(),
            params_fault(views, before, i as int) is None,
            forall|k: int| 0 <= k < i ==> param_rewritten(views, before[k], #[trigger] v@[k]),
            forall|k: int| i <= k < n ==> #[trigger] v@[k] == before[k],
        decreases n - i,
    {
        let stopped: Option<MetelError> = rewrite_param(al, &mut v[i]);
        if let Some(e) = stopped {
            proof {
                lemma_params_fault(views, before, i + 1, n as int);
            }
            return Some(e);
        }
        i += 1;
    }
    None
}

proof fn lemma_params_fault(al: Seq<AliasV>, s: Seq<Param>, j: int, k: int)
    requires
        0 <= j <= k <= s.len(),
        params_fault(al, s, j) is Some,
    ensures
        params_fault(al, s, k) == params_fault(al, s, j),
    decreases k - j,
{
    if j < k {
        lemma_params_fault(al, s, j, k - 1);
    }
}

pub(super) fn rewrite_fields(al: &Vec<AliasDef>, v: &mut Vec<FieldDecl>) -> (r: Option<MetelError>)
    ensures
        match fields_fault(aliases_view(al@), old(v)@, old(v)@.len() as int) {
            Some(e) => r matches Some(x) && x@ == e,
            None => r is None && fields_rewritten(aliases_view(al@), old(v)@, final(v)@),
        },
{
    let ghost views = aliases_view(al@);
    let ghost before = v@;
    let n: usize = v.len();
    let mut i: usize = 0;
    while i < n
        invariant
            i <= n,
            n == before.len(),
            views == aliases_view(al@),
            before == old(v)@,
            v@.len() == before.len(),
            fields_fault(views, before, i as int) is None,
            forall|k: int| 0 <= k < i ==> field_rewritten(views, before[k], #[trigger] v@[k]),
            forall|k: int| i <= k < n ==> #[trigger] v@[k] == before[k],
        decreases n - i,
    {
        let stopped: Option<MetelError> = rewrite_field(al, &mut v[i]);
        if let Some(e) = stopped {
            proof {
                lemma_fields_fault(views, before, i + 1, n as int);
            }
            return Some(e);
        }
        i += 1;
    }
    None
}

proof fn lemma_fields_fault(al: Seq<AliasV>, s: Seq<FieldDecl>, j: int, k: int)
    requires
        0 <= j <= k <= s.len(),
        fields_fault(al, s, j) is Some,
    ensures
        fields_fault(al, s, k) == fields_fault(al, s, j),
    decreases k - j,
{
    if j < k {
        lemma_fields_fault(al, s, j, k - 1);
    }
}

pub(super) fn rewrite_variants(al: &Vec<AliasDef>, v: &mut Vec<VariantDecl>) -> (r: Option<MetelError>)
    ensures
        match variants_fault(aliases_view(al@), old(v)@, old(v)@.len() as int) {
            Some(e) => r matches Some(x) && x@ == e,
            None => r is None && variants_rewritten(aliases_view(al@), old(v)@, final(v)@),
        },
{
    let ghost views = aliases_view(al@);
    let ghost before = v@;
    let n: usize = v.len();
    let mut i: usize = 0;
    while i < n
        invariant
            i <= n,
            n == before.len(),
            views == aliases_view(al@),
            before == old(v)@,
            v@.len() == before.len(),
            variants_fault(views, before, i as int) is None,
            forall|k: int| 0 <= k < i ==> variant_rewritten(views, before[k], #[trigger] v@[k]),
            forall|k: int| i <= k < n ==> #[trigger] v@[k] == before[k],
        decreases n - i,
    {
        let stopped: Option<MetelError> = rewrite_variant(al, &mut v[i]);
        if let Some(e) = stopped {
            proof {
                lemma_variants_fault(views, before, i + 1, n as int);
            }
            return Some(e);
        }
        i += 1;
    }
    None
}

proof fn lemma_variants_fault(al: Seq<AliasV>, s: Seq<VariantDecl>, j: int, k: int)
    requires
        0 <= j <= k <= s.len(),
        variants_fault(al, s, j) is Some,
    ensures
        variants_fault(al, s, k) == variants_fault(al, s, j),
    decreases k - j,
{
    if j < k {
        lemma_variants_fault(al, s, j, k - 1);
    }
}

pub(super) fn rewrite_assocs(al: &Vec<AliasDef>, v: &mut Vec<AssocTypeDef>) -> (r: Option<MetelError>)
    ensures
        match assocs_fault(aliases_view(al@), old(v)@, old(v)@.len() as int) {
            Some(e) => r matches Some(x) && x@ == e,
            None => r is None && assocs_rewritten(aliases_view(al@), old(v)@, final(v)@),
        },
{
    let ghost views = aliases_view(al@);
    let ghost before = v@;
    let n: usize = v.len();
    let mut i: usize = 0;
    while i < n
        invariant
            i <= n,
            n == before.len(),
            views == aliases_view(al@),
            before == old(v)@,
            v@.len() == before.len(),
            assocs_fault(views, before, i as int) is None,
            forall|k: int| 0 <= k < i ==> assoc_rewritten(views, before[k], #[trigger] v@[k]),
            forall|k: int| i <= k < n ==> #[trigger] v@[k] == before[k],
        decreases n - i,
    {
        let stopped: Option<MetelError> = rewrite_assoc(al, &mut v[i]);
        if let Some(e) = stopped {
            proof {
                lemma_assocs_fault(views, before, i + 1, n as int);
            }
            return Some(e);
        }
        i += 1;
    }
    None
}

proof fn lemma_assocs_fault(al: Seq<AliasV>, s: Seq<AssocTypeDef>, j: int, k: int)
    requires
        0 <= j <= k <= s.len(),
        assocs_fault(al, s, j) is Some,
    ensures
        assocs_fault(al, s, k) == assocs_fault(al, s, j),
    decreases k - j,
{
    if j < k {
        lemma_assocs_fault(al, s, j, k - 1);
    }
}

pub(super) fn rewrite_bounds(al: &Vec<AliasDef>, v: &mut Vec<Bound>) -> (r: Option<MetelError>)
    ensures
        match bounds_fault(aliases_view(al@), old(v)@, old(v)@.len() as int) {
            Some(e) => r matches Some(x) && x@ == e,
            None => r is None && bounds_rewritten(aliases_view(al@), old(v)@, final(v)@),
        },
{
    let ghost views = aliases_view(al@);
    let ghost before = v@;
    let n: usize = v.len();
    let mut i: usize = 0;
    while i < n
        invariant
            i <= n,
            n == before.len(),
            views == aliases_view(al@),
            before == old(v)@,
            v@.len() == before.len(),
            bounds_fault(views, before, i as int) is None,
            forall|k: int| 0 <= k < i ==> bound_rewritten(views, before[k], #[trigger] v@[k]),
            forall|k: int| i <= k < n ==> #[trigger] v@[k] == before[k],
        decreases n - i,
    {
        let stopped: Option<MetelError> = rewrite_bound(al, &mut v[i]);
        if let Some(e) = stopped {
            proof {
                lemma_bounds_fault(views, before, i + 1, n as int);
            }
            return Some(e);
        }
        i += 1;
    }
    None
}

proof fn lemma_bounds_fault(al: Seq<AliasV>, s: Seq<Bound>, j: int, k: int)
    requires
        0 <= j <= k <= s.len(),
        bounds_fault(al, s, j) is Some,
    ensures
        bounds_fault(al, s, k) == bounds_fault(al, s, j),
    decreases k - j,
{
    if j < k {
        lemma_bounds_fault(al, s, j, k - 1);
    }
}

pub(super) fn rewrite_generics(al: &Vec<AliasDef>, v: &mut Vec<GenericParam>) -> (r: Option<MetelError>)
    ensures
        match generics_fault(aliases_view(al@), old(v)@, old(v)@.len() as int) {
            Some(e) => r matches Some(x) && x@ == e,
            None => r is None && generics_rewritten(aliases_view(al@), old(v)@, final(v)@),
        },
{
    let ghost views = aliases_view(al@);
    let ghost before = v@;
    let n: usize = v.len();
    let mut i: usize = 0;
    while i < n
        invariant
            i <= n,
            n == before.len(),
            views == aliases_view(al@),
            before == old(v)@,
            v@.len() == before.len(),
            generics_fault(views, before, i as int) is None,
            forall|k: int| 0 <= k < i ==> generic_rewritten(views, before[k], #[trigger] v@[k]),
            forall|k: int| i <= k < n ==> #[trigger] v@[k] == before[k],
        decreases n - i,
    {
        let stopped: Option<MetelError> = rewrite_generic(al, &mut v[i]);
        if let Some(e) = stopped {
            proof {
                lemma_generics_fault(views, before, i + 1, n as int);
            }
            return Some(e);
        }
        i += 1;
    }
    None
}

proof fn lemma_generics_fault(al: Seq<AliasV>, s: Seq<GenericParam>, j: int, k: int)
    requires
        0 <= j <= k <= s.len(),
        generics_fault(al, s, j) is Some,
    ensures
        generics_fault(al, s, k) == generics_fault(al, s, j),
    decreases k - j,
{
    if j < k {
        lemma_generics_fault(al, s, j, k - 1);
    }
}

pub(super) fn rewrite_constraints(al: &Vec<AliasDef>, v: &mut Vec<WhereConstraint>) -> (r: Option<MetelError>)
    ensures
        match constraints_fault(aliases_view(al@), old(v)@, old(v)@.len() as int) {
            Some(e) => r matches Some(x) && x@ == e,
            None => r is None && constraints_rewritten(aliases_view(al@), old(v)@, final(v)@),
        },
{
    let ghost views = aliases_view(al@);
    let ghost before = v@;
    let n: usize = v.len();
    let mut i: usize = 0;
    while i < n
        invariant
            i <= n,
            n == before.len(),
            views == aliases_view(al@),
            before == old(v)@,
            v@.len() == before.len(),
            constraints_fault(views, before, i as int) is None,
            forall|k: int| 0 <= k < i ==> constraint_rewritten(views, before[k], #[trigger] v@[k]),
            forall|k: int| i <= k < n ==> #[trigger] v@[k] == before[k],
        decreases n - i,
    {
        let stopped: Option<MetelError> = rewrite_constraint(al, &mut v[i]);
        if let Some(e) = stopped {
            proof {
                lemma_constraints_fault(views, before, i + 1, n as int);
            }
            return Some(e);
        }
        i += 1;
    }
    None
}

proof fn lemma_constraints_fault(al: Seq<AliasV>, s: Seq<WhereConstraint>, j: int, k: int)
    requires
        0 <= j <= k <= s.len(),
        constraints_fault(al, s, j) is Some,
    ensures
        constraints_fault(al, s, k) == constraints_fault(al, s, j),
    decreases k - j,
{
    if j < k {
        lemma_constraints_fault(al, s, j, k - 1);
    }
}

pub(super) fn rewrite_requirements(al: &Vec<AliasDef>, v: &mut Vec<AssocTypeDecl>) -> (r: Option<MetelError>)
    ensures
        match requirements_fault(aliases_view(al@), old(v)@, old(v)@.len() as int) {
            Some(e) => r matches Some(x) && x@ == e,
            None => r is None && requirements_rewritten(aliases_view(al@), old(v)@, final(v)@),
        },
{
    let ghost views = aliases_view(al@);
    let ghost before = v@;
    let n: usize = v.len();
    let mut i: usize = 0;
    while i < n
        invariant
            i <= n,
            n == before.len(),
            views == aliases_view(al@),
            before == old(v)@,
            v@.len() == before.len(),
            requirements_fault(views, before, i as int) is None,
            forall|k: int| 0 <= k < i ==> requirement_rewritten(views, before[k], #[trigger] v@[k]),
            forall|k: int| i <= k < n ==> #[trigger] v@[k] == before[k],
        decreases n - i,
    {
        let stopped: Option<MetelError> = rewrite_requirement(al, &mut v[i]);
        if let Some(e) = stopped {
            proof {
                lemma_requirements_fault(views, before, i + 1, n as int);
            }
            return Some(e);
        }
        i += 1;
    }
    None
}

proof fn lemma_requirements_fault(al: Seq<AliasV>, s: Seq<AssocTypeDecl>, j: int, k: int)
    requires
        0 <= j <= k <= s.len(),
        requirements_fault(al, s, j) is Some,
    ensures
        requirements_fault(al, s, k) == requirements_fault(al, s, j),
    decreases k - j,
{
    if j < k {
        lemma_requirements_fault(al, s, j, k - 1);
    }
}

/// The names of type parameters.
pub open spec fn param_names(s: Seq<GenericParam>) -> Seq<Seq<char>> {
    Seq::new(s.len(), |i: int| s[i].name@)
}

/// The alias that a declaration introduces.
pub open spec fn alias_of(d: TypeAliasDecl) -> AliasV {
    AliasV { name: d.name@, params: param_names(d.generics@), target: d.target@, span: d.span@ }
}

/// The error of an alias that is declared again.
pub open spec fn duplicate_error(name: Seq<char>, span: SpanV) -> MetelErrorV {
    type_failure(
        TypeErrorCode::T0003,
        "type alias `"@ + name + "` is declared more than once in this module"@,
        span,
    )
}

/// The aliases among the first `k` declarations.
pub open spec fn declared_aliases(s: Seq<Decl>, k: int) -> Result<Seq<AliasV>, MetelErrorV>
    decreases k,
{
    if k <= 0 || k > s.len() {
        Ok(Seq::empty())
    } else {
        match declared_aliases(s, k - 1) {
            Err(e) => Err(e),
            Ok(al) => match s[k - 1] {
                Decl::TypeAlias(d) => if alias_named(al, d.name@) is Some {
                    Err(duplicate_error(d.name@, d.span@))
                } else {
                    Ok(al.push(alias_of(d)))
                },
                _ => Ok(al),
            },
        }
    }
}

/// Expansion of the target of an alias, in which its own parameters are no aliases.
pub open spec fn inside(raw: Seq<AliasV>, a: AliasV) -> Expansion {
    Expansion { aliases: raw, local: a.params, chain: seq![a.name], flat: false }
}

/// The first `k` aliases with their targets expanded.
pub open spec fn flattened(raw: Seq<AliasV>, k: int) -> Result<Seq<AliasV>, MetelErrorV>
    decreases k,
{
    if k <= 0 || k > raw.len() {
        Ok(Seq::empty())
    } else {
        match flattened(raw, k - 1) {
            Err(e) => Err(e),
            Ok(al) => match expanded(inside(raw, raw[k - 1]), raw[k - 1].target, raw.len()) {
                Err(e) => Err(e),
                Ok(target) => Ok(al.push(AliasV { target, ..raw[k - 1] })),
            },
        }
    }
}

/// The aliases of a module, with expanded targets.
pub open spec fn module_aliases(s: Seq<Decl>) -> Result<Seq<AliasV>, MetelErrorV> {
    match declared_aliases(s, s.len() as int) {
        Err(e) => Err(e),
        Ok(raw) => flattened(raw, raw.len() as int),
    }
}

/// The first `k` declarations without the aliases.
pub open spec fn kept(s: Seq<Decl>, k: int) -> Seq<Decl>
    decreases k,
{
    if k <= 0 || k > s.len() {
        Seq::empty()
    } else if s[k - 1] is TypeAlias {
        kept(s, k - 1)
    } else {
        kept(s, k - 1).push(s[k - 1])
    }
}

/// What is wrong with the aliases of a module, or with a use of one.
pub open spec fn program_fault(p: Program) -> Option<MetelErrorV> {
    match module_aliases(p.decls@) {
        Err(e) => Some(e),
        Ok(al) => if al.len() == 0 {
            None
        } else {
            decls_fault(al, p.decls@, p.decls@.len() as int)
        },
    }
}

/// Whether a module is another with its aliases expanded and dropped. One without aliases stays
/// as it is.
pub open spec fn program_rewritten(p: Program, q: Program) -> bool {
    match module_aliases(p.decls@) {
        Err(_) => false,
        Ok(al) => if al.len() == 0 {
            q == p
        } else {
            decls_rewritten(al, kept(p.decls@, p.decls@.len() as int), q.decls@) && q == (Program {
                decls: q.decls,
                ..p
            })
        },
    }
}

/// The first declaration from `i` on with a wrong use of an alias.
pub open spec fn first_misuse(al: Seq<AliasV>, s: Seq<Decl>, i: int) -> int
    decreases s.len() - i,
{
    if i < 0 || i >= s.len() || decl_fault(al, s[i]) is Some {
        i
    } else {
        first_misuse(al, s, i + 1)
    }
}

/// Whether a module is another in which something was wrong. Wrong aliases leave it as it was. A
/// wrong use of one leaves the declarations behind that use, and all alias declarations, as they
/// were; those before it are expanded, and the one that holds it may be in part.
pub open spec fn program_stopped(p: Program, q: Program) -> bool {
    match module_aliases(p.decls@) {
        Err(_) => q == p,
        Ok(al) => {
            let bad = first_misuse(al, p.decls@, 0);
            &&& q.decls@.len() == p.decls@.len()
            &&& forall|i: int|
                0 <= i < bad ==> decl_rewritten(al, p.decls@[i], #[trigger] q.decls@[i])
            &&& forall|i: int| bad < i < p.decls@.len() ==> #[trigger] q.decls@[i] == p.decls@[i]
            &&& q == (Program { decls: q.decls, ..p })
        },
    }
}

/// The first module from `i` on with something wrong.
pub open spec fn first_faulty(s: Seq<LoadedModule>, i: int) -> int
    decreases s.len() - i,
{
    if i < 0 || i >= s.len() || program_fault(s[i].program) is Some {
        i
    } else {
        first_faulty(s, i + 1)
    }
}

/// Whether a module is another with its aliases expanded.
pub open spec fn module_rewritten(m: LoadedModule, n: LoadedModule) -> bool {
    program_rewritten(m.program, n.program) && n == (LoadedModule { program: n.program, ..m })
}

fn names_of(s: &Vec<GenericParam>) -> (r: Vec<String>)
    ensures
        texts(r@) == param_names(s@),
{
    let mut out: Vec<String> = Vec::new();
    let mut i: usize = 0;
    while i < s.len()
        invariant
            i <= s@.len(),
            out@.len() == i,
            forall|k: int| 0 <= k < i ==> (#[trigger] out@[k])@ == s@[k].name@,
        decreases s@.len() - i,
    {
        out.push(s[i].name.clone());
        i += 1;
    }
    assert(texts(out@) =~= param_names(s@));
    out
}

fn collect_aliases(s: &Vec<Decl>) -> (r: Result<Vec<AliasDef>, MetelError>)
    ensures
        match declared_aliases(s@, s@.len() as int) {
            Ok(al) => r matches Ok(x) && aliases_view(x@) == al,
            Err(e) => r matches Err(x) && x@ == e,
        },
{
    let mut out: Vec<AliasDef> = Vec::new();
    assert(aliases_view(out@) =~= Seq::empty());
    let mut stopped: Option<MetelError> = None;
    let mut i: usize = 0;
    while i < s.len()
        invariant
            i <= s@.len(),
            declared_aliases(s@, i as int) == (match stopped {
                Some(e) => Err(e@),
                None => Ok(aliases_view(out@)),
            }),
        decreases s@.len() - i,
    {
        if stopped.is_none() {
            if let Decl::TypeAlias(d) = &s[i] {
                if find_alias(&out, d.name.as_str()).is_some() {
                    stopped = Some(
                        MetelError::type_error(
                            TypeErrorCode::T0003,
                            joined3(
                                "type alias `",
                                d.name.as_str(),
                                "` is declared more than once in this module",
                            ),
                            &d.span,
                        ),
                    );
                } else {
                    let ghost before = out@;
                    out.push(
                        AliasDef {
                            name: d.name.clone(),
                            params: names_of(&d.generics),
                            target: d.target.copy(),
                            span: d.span.copy(),
                        },
                    );
                    assert(aliases_view(out@) =~= aliases_view(before).push(alias_of(*d)));
                }
            }
        }
        i += 1;
    }
    match stopped {
        Some(e) => Err(e),
        None => Ok(out),
    }
}

fn flatten(raw: &Vec<AliasDef>) -> (r: Result<Vec<AliasDef>, MetelError>)
    ensures
        match flattened(aliases_view(raw@), raw@.len() as int) {
            Ok(al) => r matches Ok(x) && aliases_view(x@) == al,
            Err(e) => r matches Err(x) && x@ == e,
        },
{
    let ghost views = aliases_view(raw@);
    let mut out: Vec<AliasDef> = Vec::new();
    assert(aliases_view(out@) =~= Seq::empty());
    let mut stopped: Option<MetelError> = None;
    let mut i: usize = 0;
    while i < raw.len()
        invariant
            i <= raw@.len(),
            views == aliases_view(raw@),
            flattened(views, i as int) == (match stopped {
                Some(e) => Err(e@),
                None => Ok(aliases_view(out@)),
            }),
        decreases raw@.len() - i,
    {
        if stopped.is_none() {
            let a: &AliasDef = &raw[i];
            assert(views[i as int] == a@);
            let mut chain: Vec<String> = Vec::new();
            chain.push(a.name.clone());
            assert(texts(chain@) =~= seq![a.name@]);
            let x: Expander = Expander { aliases: raw, local: &a.params, chain, flat: false };
            let ghost before = out@;
            match x.expand_type(&a.target, raw.len()) {
                Ok(target) => {
                    let ghost tv = target@;
                    out.push(
                        AliasDef {
                            name: a.name.clone(),
                            params: crate::text::copy_texts(&a.params),
                            target,
                            span: a.span.copy(),
                        },
                    );
                    assert(aliases_view(out@) =~= aliases_view(before).push(
                        AliasV { target: tv, ..a@ },
                    ));
                },
                Err(e) => {
                    stopped = Some(e);
                },
            }
        }
        i += 1;
    }
    match stopped {
        Some(e) => Err(e),
        None => Ok(out),
    }
}

fn drop_aliases(v: &mut Vec<Decl>)
    ensures
        final(v)@ == kept(old(v)@, old(v)@.len() as int),
{
    let ghost before = v@;
    let ghost mut done: int = 0;
    let mut i: usize = 0;
    assert(v@ =~= kept(before, 0) + before.skip(0));
    while i < v.len()
        invariant
            0 <= done <= before.len(),
            i == kept(before, done).len(),
            v@ == kept(before, done) + before.skip(done),
        decreases before.len() - done,
    {
        let ghost head = kept(before, done);
        assert(v@[i as int] == before[done]);
        assert(before.skip(done).skip(1) =~= before.skip(done + 1));
        if matches!(v[i], Decl::TypeAlias(_)) {
            let _ = v.remove(i);
            assert(v@ =~= head + before.skip(done + 1));
        } else {
            assert(v@ =~= head.push(before[done]) + before.skip(done + 1));
            i += 1;
        }
        proof {
            done = done + 1;
        }
    }
    assert(done == before.len());
    assert(v@ =~= kept(before, done));
}

pub(super) proof fn lemma_flattened_len(raw: Seq<AliasV>, k: int)
    requires
        0 <= k <= raw.len(),
        flattened(raw, k) is Ok,
    ensures
        flattened(raw, k)->Ok_0.len() == k,
    decreases k,
{
    if k > 0 {
        lemma_flattened_len(raw, k - 1);
    }
}

proof fn lemma_kept(al: Seq<AliasV>, s: Seq<Decl>, t: Seq<Decl>, k: int)
    requires
        decls_rewritten(al, s, t),
        0 <= k <= s.len(),
    ensures
        decls_rewritten(al, kept(s, k), kept(t, k)),
    decreases k,
{
    if k > 0 {
        lemma_kept(al, s, t, k - 1);
        assert(decl_rewritten(al, s[k - 1], t[k - 1]));
    }
}

fn rewrite_module(al: &Vec<AliasDef>, v: &mut Vec<Decl>) -> (r: Option<MetelError>)
    ensures
        match decls_fault(aliases_view(al@), old(v)@, old(v)@.len() as int) {
            Some(e) => {
                let bad = first_misuse(aliases_view(al@), old(v)@, 0);
                &&& r matches Some(x) && x@ == e
                &&& final(v)@.len() == old(v)@.len()
                &&& forall|k: int|
                    0 <= k < bad ==> decl_rewritten(
                        aliases_view(al@),
                        old(v)@[k],
                        #[trigger] final(v)@[k],
                    )
                &&& forall|k: int| bad < k < old(v)@.len() ==> #[trigger] final(v)@[k] == old(v)@[k]
            },
            None => r is None && decls_rewritten(aliases_view(al@), old(v)@, final(v)@),
        },
{
    let ghost views = aliases_view(al@);
    let ghost before = v@;
    let n: usize = v.len();
    let mut i: usize = 0;
    while i < n
        invariant
            i <= n,
            n == before.len(),
            views == aliases_view(al@),
            before == old(v)@,
            v@.len() == before.len(),
            decls_fault(views, before, i as int) is None,
            first_misuse(views, before, 0) == first_misuse(views, before, i as int),
            forall|k: int| 0 <= k < i ==> decl_rewritten(views, before[k], #[trigger] v@[k]),
            forall|k: int| i <= k < n ==> #[trigger] v@[k] == before[k],
        decreases n - i,
    {
        let stopped: Option<MetelError> = rewrite_decl(al, &mut v[i]);
        if let Some(e) = stopped {
            proof {
                lemma_decls_fault(views, before, i + 1, n as int);
            }
            return Some(e);
        }
        i += 1;
    }
    None
}

fn expand_program(p: &mut Program) -> (r: Option<MetelError>)
    ensures
        match program_fault(*old(p)) {
            Some(e) => (r matches Some(x) && x@ == e) && program_stopped(*old(p), *final(p)),
            None => r is None && program_rewritten(*old(p), *final(p)),
        },
{
    let raw: Vec<AliasDef> = match collect_aliases(&p.decls) {
        Ok(raw) => raw,
        Err(e) => {
            return Some(e);
        },
    };
    if raw.len() == 0 {
        return None;
    }
    let al: Vec<AliasDef> = match flatten(&raw) {
        Ok(al) => al,
        Err(e) => {
            return Some(e);
        },
    };
    proof {
        assert(aliases_view(raw@).len() == raw@.len());
        lemma_flattened_len(aliases_view(raw@), raw@.len() as int);
    }
    let ghost before = p.decls@;
    let stopped: Option<MetelError> = rewrite_module(&al, &mut p.decls);
    if stopped.is_none() {
        proof {
            lemma_kept(aliases_view(al@), before, p.decls@, before.len() as int);
        }
        drop_aliases(&mut p.decls);
    }
    stopped
}

/// Expand every alias of every module.
///
/// # Errors
/// An alias that is declared twice or that stands inside its own expansion, or a use with the
/// wrong number of type arguments. A module with wrong aliases is left as it was, one with a wrong
/// use half expanded, with its alias declarations.
pub fn expand(graph: &mut ModuleGraph) -> (r: Result<(), MetelError>)
    ensures
        ({
            let s = old(graph).modules@;
            let t = final(graph).modules@;
            let bad = first_faulty(s, 0);
            &&& t.len() == s.len()
            &&& bad == s.len() ==> r is Ok
            &&& bad < s.len() ==> (r matches Err(e) && program_fault(s[bad].program) == Some(e@))
            &&& forall|i: int| 0 <= i < bad ==> module_rewritten(s[i], #[trigger] t[i])
            &&& bad < s.len() ==> program_stopped(s[bad].program, t[bad].program) && t[bad] == (
            LoadedModule { program: t[bad].program, ..s[bad] })
            &&& forall|i: int| bad < i < s.len() ==> #[trigger] t[i] == s[i]
        }),
        final(graph).root == old(graph).root,
        final(graph).path_aliases == old(graph).path_aliases,
{
    let ghost before = graph.modules@;
    let n: usize = graph.modules.len();
    let mut i: usize = 0;
    while i < n
        invariant
            i <= n,
            n == before.len(),
            before == old(graph).modules@,
            graph.modules@.len() == n,
            graph.root == old(graph).root,
            graph.path_aliases == old(graph).path_aliases,
            first_faulty(before, 0) == first_faulty(before, i as int),
            forall|k: int| 0 <= k < i ==> module_rewritten(before[k], #[trigger] graph.modules@[k]),
            forall|k: int| i <= k < n ==> #[trigger] graph.modules@[k] == before[k],
        decreases n - i,
    {
        let stopped: Option<MetelError> = expand_program(&mut graph.modules[i].program);
        if let Some(e) = stopped {
            return Err(e);
        }
        i += 1;
    }
    Ok(())
}

} // verus!
