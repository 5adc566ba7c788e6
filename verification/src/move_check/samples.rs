//! Stand-ins for the type parameters of a generic body.
use vstd::prelude::*;
use crate::ast::{GenericParam, Polarity};
use crate::elaborate::schemes::shorter;
use crate::elaborate::symbolic::{bounds_of, param_bounds};
use crate::infer::{all_resolved, infer_to_types, infer_type_view, infer_types_view, lowered_all};
use crate::infer::{named_infer_types_view, substituted, InferType, InferTypeV, Substitution};
use crate::infer::TypeVar;
use crate::registry::TypeDefinitionRegistry;
use crate::scheme::{after_fresh, bound_lists_view, bounds_view, eq_lists_view, eqs_view, fresh_var};
use crate::scheme::{opaques_view, opt_type_expr, projections_view, row_view, AssocEq};
use crate::scheme::{AssocProjection, GenericBound, OpaqueReturn, RowConstraint, RowField};
use crate::scheme::{TypeScheme, TypeSchemeV, TypeVarGenerator};
use crate::text::{copy_texts, decimal, decimal_text, has_text, joined, texts};
use crate::typed_ast::{Assumption, GenericMoveEnv, Placeholder, SymbolicAspects};
use crate::types::{types_view, TypeV};
use super::assumptions::{aspect_names, implied, named_aspects, reached};
use super::assumptions::symbolic_aspect_assumptions;
use super::assumptions::{symbolics, SymbolicV};
use super::generics::{renamed, substitute_named_generics};

verus! {

/// The type that stands for a type parameter.
pub open spec fn placeholder(v: TypeVar) -> Seq<char> {
    "__metel_move_check_generic_"@ + decimal(v.0 as nat)
}

/// The type that stands for a type parameter.
pub fn generic_placeholder_name(v: TypeVar) -> (r: String)
    ensures
        r@ == placeholder(v),
{
    joined("__metel_move_check_generic_", decimal_text(v.0 as u64).as_str())
}

/// A sequence cut or filled up to a length.
pub open spec fn resized<T>(s: Seq<T>, n: nat, filler: T) -> Seq<T> {
    Seq::new(
        n,
        |i: int|
            if i < s.len() {
                s[i]
            } else {
                filler
            },
    )
}

/// A scheme with type parameters added, what stands for them, and the supply of variables.
pub ghost struct RepairV {
    pub scheme: TypeSchemeV,
    pub replaced: Seq<(Seq<char>, InferTypeV)>,
    pub next: u32,
}

/// Where the variables of added type parameters start.
pub const REPAIR_VARS: u32 = 4_000_000;

/// The scheme with every list as long as there are variables.
pub open spec fn levelled(s: TypeSchemeV) -> TypeSchemeV {
    let n = s.vars.len();
    TypeSchemeV {
        bounds: resized(s.bounds, n, Seq::empty()),
        neg_bounds: resized(s.neg_bounds, n, Seq::empty()),
        record_kinds: resized(s.record_kinds, n, false),
        assoc_projections: resized(s.assoc_projections, n, None),
        assoc_eqs: resized(s.assoc_eqs, n, Seq::empty()),
        opaque_returns: resized(s.opaque_returns, n, None),
        ..s
    }
}

/// A scheme with a type parameter of the source added, unless it names it already.
pub open spec fn extended_by(before: RepairV, g: GenericParam) -> RepairV {
    let x = before.scheme;
    if x.names.contains(g.name@) {
        before
    } else {
        let v = fresh_var(before.next, 0);
        RepairV {
            scheme: TypeSchemeV {
                vars: x.vars.push(v),
                names: x.names.push(g.name@),
                bounds: x.bounds.push(param_bounds(g, Polarity::Positive)),
                neg_bounds: x.neg_bounds.push(param_bounds(g, Polarity::Negative)),
                record_kinds: x.record_kinds.push(g.is_record),
                assoc_projections: x.assoc_projections.push(None),
                assoc_eqs: x.assoc_eqs.push(Seq::empty()),
                opaque_returns: x.opaque_returns.push(None),
                ty: x.ty,
            },
            replaced: before.replaced.push((g.name@, InferTypeV::Var(v))),
            next: after_fresh(before.next, 1),
        }
    }
}

/// The scheme with those of the first `k` source type parameters added that it does not name.
pub open spec fn extended(s: TypeSchemeV, gs: Seq<GenericParam>, k: int) -> RepairV
    decreases k,
{
    if k <= 0 || k > gs.len() {
        RepairV { scheme: levelled(s), replaced: Seq::empty(), next: REPAIR_VARS }
    } else {
        extended_by(extended(s, gs, k - 1), gs[k - 1])
    }
}

/// A scheme in which every type parameter of the source is a variable.
pub open spec fn repaired(s: TypeSchemeV, gs: Seq<GenericParam>) -> TypeSchemeV {
    let x = extended(s, gs, gs.len() as int);
    TypeSchemeV { ty: renamed(x.replaced, x.scheme.ty), ..x.scheme }
}

fn copy_bound(b: &GenericBound) -> (r: GenericBound)
    ensures
        r@ == b@,
{
    match b {
        GenericBound::Aspect(a) => GenericBound::Aspect(a.clone()),
        GenericBound::Row(row) => {
            let mut out: Vec<RowField> = Vec::new();
            let mut i: usize = 0;
            while i < row.fields.len()
                invariant
                    i <= row.fields@.len(),
                    out@.len() == i,
                    forall|k: int|
                        0 <= k < i ==> (#[trigger] out@[k]).label@ == row.fields@[k].label@
                            && opt_type_expr(out@[k].ty) == opt_type_expr(row.fields@[k].ty),
                decreases row.fields@.len() - i,
            {
                let f: &RowField = &row.fields[i];
                out.push(
                    RowField {
                        label: f.label.clone(),
                        ty: match &f.ty {
                            Some(t) => Some(t.copy()),
                            None => None,
                        },
                    },
                );
                i += 1;
            }
            assert(row_view(out@) =~= row_view(row.fields@));
            GenericBound::Row(RowConstraint { fields: out, open: row.open })
        },
    }
}

fn copy_bounds(v: &Vec<GenericBound>) -> (r: Vec<GenericBound>)
    ensures
        bounds_view(r@) == bounds_view(v@),
{
    let mut out: Vec<GenericBound> = Vec::new();
    let mut i: usize = 0;
    while i < v.len()
        invariant
            i <= v@.len(),
            out@.len() == i,
            forall|k: int| 0 <= k < i ==> (#[trigger] out@[k])@ == v@[k]@,
        decreases v@.len() - i,
    {
        out.push(copy_bound(&v[i]));
        i += 1;
    }
    assert(bounds_view(out@) =~= bounds_view(v@));
    out
}

fn level_bounds(v: &Vec<Vec<GenericBound>>, n: usize) -> (r: Vec<Vec<GenericBound>>)
    ensures
        bound_lists_view(r@) == resized(bound_lists_view(v@), n as nat, Seq::empty()),
{
    let ghost whole = resized(bound_lists_view(v@), n as nat, Seq::empty());
    let mut out: Vec<Vec<GenericBound>> = Vec::new();
    let mut i: usize = 0;
    while i < n
        invariant
            i <= n,
            whole == resized(bound_lists_view(v@), n as nat, Seq::empty()),
            out@.len() == i,
            forall|k: int| 0 <= k < i ==> bounds_view((#[trigger] out@[k])@) == whole[k],
        decreases n - i,
    {
        if i < v.len() {
            out.push(copy_bounds(&v[i]));
        } else {
            let none: Vec<GenericBound> = Vec::new();
            assert(bounds_view(none@) =~= Seq::empty());
            out.push(none);
        }
        i += 1;
    }
    assert(bound_lists_view(out@) =~= whole);
    out
}

fn level_kinds(v: &Vec<bool>, n: usize) -> (r: Vec<bool>)
    ensures
        r@ == resized(v@, n as nat, false),
{
    let mut out: Vec<bool> = Vec::new();
    let mut i: usize = 0;
    while i < n
        invariant
            i <= n,
            out@.len() == i,
            forall|k: int|
                0 <= k < i ==> #[trigger] out@[k] == (if k < v@.len() {
                    v@[k]
                } else {
                    false
                }),
        decreases n - i,
    {
        out.push(
            if i < v.len() {
                v[i]
            } else {
                false
            },
        );
        i += 1;
    }
    assert(out@ =~= resized(v@, n as nat, false));
    out
}

fn level_projections(v: &Vec<Option<AssocProjection>>, n: usize) -> (r: Vec<
    Option<AssocProjection>,
>)
    ensures
        projections_view(r@) == resized(projections_view(v@), n as nat, None),
{
    let ghost whole = resized(projections_view(v@), n as nat, None);
    let mut out: Vec<Option<AssocProjection>> = Vec::new();
    assert(projections_view(out@) =~= whole.take(0));
    let mut i: usize = 0;
    while i < n
        invariant
            i <= n,
            whole == resized(projections_view(v@), n as nat, None),
            whole.len() == n,
            projections_view(out@) == whole.take(i as int),
            out@.len() == i,
        decreases n - i,
    {
        let ghost before = out@;
        let x: Option<AssocProjection> = if i < v.len() {
            match &v[i] {
                Some(p) => Some(
                    AssocProjection {
                        base: p.base,
                        aspect: p.aspect.clone(),
                        assoc: p.assoc.clone(),
                        placeholder: p.placeholder,
                    },
                ),
                None => None,
            }
        } else {
            None
        };
        out.push(x);
        assert(projections_view(out@) =~= projections_view(before).push(whole[i as int]));
        assert(whole.take(i + 1) =~= whole.take(i as int).push(whole[i as int]));
        i += 1;
    }
    assert(whole.take(i as int) =~= whole);
    out
}

fn copy_eqs(v: &Vec<AssocEq>) -> (r: Vec<AssocEq>)
    ensures
        eqs_view(r@) == eqs_view(v@),
{
    let mut out: Vec<AssocEq> = Vec::new();
    let mut i: usize = 0;
    while i < v.len()
        invariant
            i <= v@.len(),
            out@.len() == i,
            forall|k: int|
                0 <= k < i ==> (#[trigger] out@[k]).aspect@ == v@[k].aspect@ && out@[k].assoc@
                    == v@[k].assoc@ && out@[k].expected@ == v@[k].expected@,
        decreases v@.len() - i,
    {
        out.push(
            AssocEq {
                aspect: v[i].aspect.clone(),
                assoc: v[i].assoc.clone(),
                expected: v[i].expected.copy(),
            },
        );
        i += 1;
    }
    assert(eqs_view(out@) =~= eqs_view(v@));
    out
}

fn level_eqs(v: &Vec<Vec<AssocEq>>, n: usize) -> (r: Vec<Vec<AssocEq>>)
    ensures
        eq_lists_view(r@) == resized(eq_lists_view(v@), n as nat, Seq::empty()),
{
    let ghost whole = resized(eq_lists_view(v@), n as nat, Seq::empty());
    let mut out: Vec<Vec<AssocEq>> = Vec::new();
    let mut i: usize = 0;
    while i < n
        invariant
            i <= n,
            whole == resized(eq_lists_view(v@), n as nat, Seq::empty()),
            out@.len() == i,
            forall|k: int| 0 <= k < i ==> eqs_view((#[trigger] out@[k])@) == whole[k],
        decreases n - i,
    {
        if i < v.len() {
            out.push(copy_eqs(&v[i]));
        } else {
            let none: Vec<AssocEq> = Vec::new();
            assert(eqs_view(none@) =~= Seq::empty());
            out.push(none);
        }
        i += 1;
    }
    assert(eq_lists_view(out@) =~= whole);
    out
}

fn level_opaques(v: &Vec<Option<OpaqueReturn>>, n: usize) -> (r: Vec<Option<OpaqueReturn>>)
    ensures
        opaques_view(r@) == resized(opaques_view(v@), n as nat, None),
{
    let ghost whole = resized(opaques_view(v@), n as nat, None);
    let mut out: Vec<Option<OpaqueReturn>> = Vec::new();
    assert(opaques_view(out@) =~= whole.take(0));
    let mut i: usize = 0;
    while i < n
        invariant
            i <= n,
            whole == resized(opaques_view(v@), n as nat, None),
            whole.len() == n,
            opaques_view(out@) == whole.take(i as int),
            out@.len() == i,
        decreases n - i,
    {
        let ghost before = out@;
        let x: Option<OpaqueReturn> = if i < v.len() {
            match &v[i] {
                Some(o) => Some(OpaqueReturn { aspect: o.aspect.clone(), ty: o.ty.copy() }),
                None => None,
            }
        } else {
            None
        };
        out.push(x);
        assert(opaques_view(out@) =~= opaques_view(before).push(whole[i as int]));
        assert(whole.take(i + 1) =~= whole.take(i as int).push(whole[i as int]));
        i += 1;
    }
    assert(whole.take(i as int) =~= whole);
    out
}

fn copy_vars(v: &Vec<TypeVar>) -> (r: Vec<TypeVar>)
    ensures
        r@ == v@,
{
    let mut out: Vec<TypeVar> = Vec::new();
    let mut i: usize = 0;
    while i < v.len()
        invariant
            i <= v@.len(),
            out@ == v@.take(i as int),
        decreases v@.len() - i,
    {
        out.push(v[i]);
        assert(v@.take(i + 1) =~= v@.take(i as int).push(v@[i as int]));
        i += 1;
    }
    assert(v@.take(i as int) =~= v@);
    out
}

fn level(s: &TypeScheme) -> (r: TypeScheme)
    ensures
        r@ == levelled(s@),
{
    let n: usize = s.quantified_vars.len();
    TypeScheme {
        quantified_vars: copy_vars(&s.quantified_vars),
        param_names: copy_texts(&s.param_names),
        bounds: level_bounds(&s.bounds, n),
        neg_bounds: level_bounds(&s.neg_bounds, n),
        record_kinds: level_kinds(&s.record_kinds, n),
        assoc_projections: level_projections(&s.assoc_projections, n),
        assoc_eq_constraints: level_eqs(&s.assoc_eq_constraints, n),
        opaque_returns: level_opaques(&s.opaque_returns, n),
        ty: s.ty.copy(),
    }
}

fn add_param(x: &mut TypeScheme, g: &GenericParam, v: TypeVar)
    ensures
        final(x)@ == (TypeSchemeV {
            vars: old(x)@.vars.push(v),
            names: old(x)@.names.push(g.name@),
            bounds: old(x)@.bounds.push(param_bounds(*g, Polarity::Positive)),
            neg_bounds: old(x)@.neg_bounds.push(param_bounds(*g, Polarity::Negative)),
            record_kinds: old(x)@.record_kinds.push(g.is_record),
            assoc_projections: old(x)@.assoc_projections.push(None),
            assoc_eqs: old(x)@.assoc_eqs.push(Seq::empty()),
            opaque_returns: old(x)@.opaque_returns.push(None),
            ty: old(x)@.ty,
        }),
{
    let ghost before = x@;
    x.quantified_vars.push(v);
    x.param_names.push(g.name.clone());
    assert(x@.names =~= before.names.push(g.name@));
    x.bounds.push(bounds_of(g, Polarity::Positive));
    assert(x@.bounds =~= before.bounds.push(param_bounds(*g, Polarity::Positive)));
    x.neg_bounds.push(bounds_of(g, Polarity::Negative));
    assert(x@.neg_bounds =~= before.neg_bounds.push(param_bounds(*g, Polarity::Negative)));
    x.record_kinds.push(g.is_record);
    x.assoc_projections.push(None);
    assert(x@.assoc_projections =~= before.assoc_projections.push(None));
    let none: Vec<AssocEq> = Vec::new();
    assert(eqs_view(none@) =~= Seq::empty());
    x.assoc_eq_constraints.push(none);
    assert(x@.assoc_eqs =~= before.assoc_eqs.push(Seq::empty()));
    x.opaque_returns.push(None);
    assert(x@.opaque_returns =~= before.opaque_returns.push(None));
}

/// A scheme in which every type parameter of the source, those of the impl before those of the
/// method, is a variable.
pub fn scheme_with_source_generics(
    scheme: &TypeScheme,
    impl_generics: &Vec<GenericParam>,
    generics: &Vec<GenericParam>,
) -> (r: TypeScheme)
    ensures
        r@ == repaired(scheme@, impl_generics@ + generics@),
{
    let ghost all = impl_generics@ + generics@;
    let mut x: TypeScheme = level(scheme);
    let mut replaced: Vec<(String, InferType)> = Vec::new();
    assert(named_infer_types_view(replaced@) =~= Seq::empty());
    let mut gen: TypeVarGenerator = TypeVarGenerator::with_counter(REPAIR_VARS);
    let mut i: usize = 0;
    while i < impl_generics.len()
        invariant
            i <= impl_generics@.len(),
            all == impl_generics@ + generics@,
            extended(scheme@, all, i as int) == (RepairV {
                scheme: x@,
                replaced: named_infer_types_view(replaced@),
                next: gen.next,
            }),
        decreases impl_generics@.len() - i,
    {
        assert(all[i as int] == impl_generics@[i as int]);
        extend(&mut x, &mut replaced, &mut gen, &impl_generics[i]);
        i += 1;
    }
    let mut j: usize = 0;
    while j < generics.len()
        invariant
            i == impl_generics@.len(),
            j <= generics@.len(),
            all == impl_generics@ + generics@,
            extended(scheme@, all, i + j) == (RepairV {
                scheme: x@,
                replaced: named_infer_types_view(replaced@),
                next: gen.next,
            }),
        decreases generics@.len() - j,
    {
        assert(all[i + j] == generics@[j as int]);
        extend(&mut x, &mut replaced, &mut gen, &generics[j]);
        j += 1;
    }
    let ty: InferType = substitute_named_generics(&x.ty, &replaced);
    x.ty = ty;
    x
}

fn extend(
    x: &mut TypeScheme,
    replaced: &mut Vec<(String, InferType)>,
    gen: &mut TypeVarGenerator,
    g: &GenericParam,
)
    ensures
        (RepairV {
            scheme: final(x)@,
            replaced: named_infer_types_view(final(replaced)@),
            next: final(gen).next,
        }) == extended_by(
            RepairV {
                scheme: old(x)@,
                replaced: named_infer_types_view(old(replaced)@),
                next: old(gen).next,
            },
            *g,
        ),
{
    if !has_text(&x.param_names, g.name.as_str()) {
        let v: TypeVar = gen.fresh();
        add_param(x, g, v);
        let ghost before = replaced@;
        let var: InferType = InferType::Var(v);
        assert(var@ == InferTypeV::Var(v));
        replaced.push((g.name.clone(), var));
        assert(named_infer_types_view(replaced@) =~= named_infer_types_view(before).push(
            (g.name@, InferTypeV::Var(v)),
        ));
    }
}

/// What is known of the type parameters inside a generic body, as a mathematical object.
pub ghost struct EnvV {
    pub placeholders: Seq<(Seq<char>, TypeVar)>,
    pub assumptions: Seq<(TypeVar, Seq<Seq<char>>)>,
    pub symbolic: Seq<SymbolicV>,
    pub args: Seq<TypeV>,
}

/// Placeholders as mathematical objects.
pub open spec fn placeholders_view(s: Seq<Placeholder>) -> Seq<(Seq<char>, TypeVar)> {
    Seq::new(s.len(), |i: int| (s[i].name@, s[i].var))
}

/// Assumptions as mathematical objects.
pub open spec fn assumptions_view(s: Seq<Assumption>) -> Seq<(TypeVar, Seq<Seq<char>>)> {
    Seq::new(s.len(), |i: int| (s[i].var, texts(s[i].aspects@)))
}

impl View for GenericMoveEnv {
    type V = EnvV;

    open spec fn view(&self) -> EnvV {
        EnvV {
            placeholders: placeholders_view(self.placeholders@),
            assumptions: assumptions_view(self.assumptions@),
            symbolic: symbolics(self.symbolic_aspects@),
            args: types_view(self.arg_types@),
        }
    }
}

/// The type that stands for a type parameter.
pub open spec fn sample(v: TypeVar) -> InferTypeV {
    InferTypeV::Named(placeholder(v), Seq::empty())
}

/// What every quantified variable of a scheme is replaced by.
pub open spec fn sampling(s: TypeSchemeV) -> Map<TypeVar, InferTypeV> {
    Map::new(|v: TypeVar| s.vars.contains(v), |v: TypeVar| sample(v))
}

/// What every name of a type parameter of a scheme is replaced by; of a name that occurs twice,
/// the last occurrence counts.
pub open spec fn named_samples(s: TypeSchemeV) -> Seq<(Seq<char>, InferTypeV)> {
    let n = shorter(s.names.len(), s.vars.len());
    Seq::new(n as nat, |i: int| (s.names[n - 1 - i], sample(s.vars[n - 1 - i])))
}

/// Assumptions but for those on one variable.
pub open spec fn without(s: Seq<(TypeVar, Seq<Seq<char>>)>, v: TypeVar) -> Seq<
    (TypeVar, Seq<Seq<char>>),
>
    decreases s.len(),
{
    if s.len() == 0 {
        s
    } else {
        let rest = without(s.drop_last(), v);
        if s.last().0 == v {
            rest
        } else {
            rest.push(s.last())
        }
    }
}

/// What the bounds of the first `k` type parameters let one assume. Of two that share a variable,
/// the last with bounds counts.
pub open spec fn asked(s: TypeSchemeV, k: int) -> Seq<(TypeVar, Seq<Seq<char>>)>
    decreases k,
{
    if k <= 0 || k > s.vars.len() {
        Seq::empty()
    } else {
        let before = asked(s, k - 1);
        if k <= s.bounds.len() {
            let aspects = named_aspects(s.bounds[k - 1], s.bounds[k - 1].len() as int);
            if aspects.len() == 0 {
                before
            } else {
                without(before, s.vars[k - 1]).push((s.vars[k - 1], aspects))
            }
        } else {
            before
        }
    }
}

/// The symbolic types that stand for the type parameters with assumptions.
pub open spec fn direct(s: Seq<(TypeVar, Seq<Seq<char>>)>) -> Seq<SymbolicV> {
    Seq::new(s.len(), |i: int| SymbolicV { name: placeholder(s[i].0), aspects: s[i].1 })
}

/// The types of the parameters of a generic function, with every type parameter replaced.
pub open spec fn sampled_params(s: TypeSchemeV, params: Seq<InferTypeV>) -> Seq<InferTypeV> {
    Seq::new(params.len(), |i: int| renamed(named_samples(s), substituted(sampling(s), params[i])))
}

/// What is known inside the body of a function with a scheme. There is nothing to know where the
/// scheme is not that of a function, or where the type of a parameter stays open.
pub open spec fn sampled_env(s: TypeSchemeV, reg: TypeDefinitionRegistry) -> Option<EnvV> {
    match s.ty {
        InferTypeV::Fun(params, _) => {
            let given = sampled_params(s, params);
            if all_resolved(given) {
                let assumed = asked(s, s.vars.len() as int);
                Some(
                    EnvV {
                        placeholders: Seq::new(
                            s.vars.len(),
                            |i: int| (placeholder(s.vars[i]), s.vars[i]),
                        ),
                        assumptions: assumed,
                        symbolic: implied(reg, direct(assumed)),
                        args: lowered_all(given),
                    },
                )
            } else {
                None
            }
        },
        _ => None,
    }
}

fn sample_type(v: TypeVar) -> (r: InferType)
    ensures
        r@ == sample(v),
{
    let args: Vec<InferType> = Vec::new();
    assert(infer_types_view(args@) =~= Seq::empty());
    InferType::Named(generic_placeholder_name(v), args)
}

fn sample_vars(vars: &Vec<TypeVar>) -> (r: (Substitution, Vec<Placeholder>))
    ensures
        r.0@ == Map::new(|v: TypeVar| vars@.contains(v), |v: TypeVar| sample(v)),
        placeholders_view(r.1@) == Seq::new(
            vars@.len(),
            |i: int| (placeholder(vars@[i]), vars@[i]),
        ),
{
    let mut subst: Substitution = Substitution::new();
    let mut out: Vec<Placeholder> = Vec::new();
    let mut i: usize = 0;
    while i < vars.len()
        invariant
            i <= vars@.len(),
            out@.len() == i,
            forall|k: int|
                0 <= k < i ==> (#[trigger] out@[k]).name@ == placeholder(vars@[k]) && out@[k].var
                    == vars@[k],
            forall|v: TypeVar|
                #[trigger] subst@.dom().contains(v) <==> vars@.take(i as int).contains(v),
            forall|v: TypeVar| #[trigger] subst@.dom().contains(v) ==> subst@[v] == sample(v),
        decreases vars@.len() - i,
    {
        let v: TypeVar = vars[i];
        let ghost before = vars@.take(i as int);
        assert(vars@.take(i + 1) =~= before.push(v));
        assert forall|w: TypeVar| #[trigger] before.push(v).contains(w) <==> (before.contains(w)
            || w == v) by {
            assert(before.push(v)[before.len() as int] == v);
            if before.contains(w) {
                let j = choose|j: int| 0 <= j < before.len() && before[j] == w;
                assert(before.push(v)[j] == w);
            }
        }
        subst.bind(v, sample_type(v));
        out.push(Placeholder { name: generic_placeholder_name(v), var: v });
        i += 1;
    }
    assert(vars@.take(i as int) =~= vars@);
    assert(subst@ =~= Map::new(|v: TypeVar| vars@.contains(v), |v: TypeVar| sample(v)));
    assert(placeholders_view(out@) =~= Seq::new(
        vars@.len(),
        |i: int| (placeholder(vars@[i]), vars@[i]),
    ));
    (subst, out)
}

fn sample_names(scheme: &TypeScheme) -> (r: Vec<(String, InferType)>)
    ensures
        named_infer_types_view(r@) == named_samples(scheme@),
{
    let n: usize = if scheme.param_names.len() < scheme.quantified_vars.len() {
        scheme.param_names.len()
    } else {
        scheme.quantified_vars.len()
    };
    let mut out: Vec<(String, InferType)> = Vec::new();
    let mut i: usize = n;
    while i > 0
        invariant
            i <= n,
            n <= scheme.param_names@.len(),
            n <= scheme.quantified_vars@.len(),
            out@.len() == n - i,
            forall|k: int|
                0 <= k < n - i ==> (#[trigger] out@[k]).0@ == scheme.param_names@[n - 1 - k]@
                    && infer_type_view(out@[k].1) == sample(scheme.quantified_vars@[n - 1 - k]),
        decreases i,
    {
        i -= 1;
        out.push((scheme.param_names[i].clone(), sample_type(scheme.quantified_vars[i])));
    }
    assert(named_infer_types_view(out@) =~= named_samples(scheme@));
    out
}

fn drop_assumptions(list: Vec<Assumption>, v: TypeVar) -> (r: Vec<Assumption>)
    ensures
        assumptions_view(r@) == without(assumptions_view(list@), v),
{
    let ghost views = assumptions_view(list@);
    let mut out: Vec<Assumption> = Vec::new();
    assert(views.take(0) =~= Seq::empty());
    assert(assumptions_view(out@) =~= Seq::empty());
    let mut i: usize = 0;
    while i < list.len()
        invariant
            i <= list@.len(),
            views == assumptions_view(list@),
            assumptions_view(out@) == without(views.take(i as int), v),
        decreases list@.len() - i,
    {
        let ghost after = views.take(i + 1);
        assert(after.drop_last() =~= views.take(i as int));
        assert(after.last() == (list@[i as int].var, texts(list@[i as int].aspects@)));
        if list[i].var != v {
            let ghost before = out@;
            out.push(Assumption { var: list[i].var, aspects: copy_texts(&list[i].aspects) });
            assert(assumptions_view(out@) =~= assumptions_view(before).push(after.last()));
        }
        i += 1;
    }
    assert(views.take(i as int) =~= views);
    out
}

fn collect_assumptions(scheme: &TypeScheme) -> (r: Vec<Assumption>)
    ensures
        assumptions_view(r@) == asked(scheme@, scheme@.vars.len() as int),
{
    let ghost s = scheme@;
    let mut out: Vec<Assumption> = Vec::new();
    assert(assumptions_view(out@) =~= Seq::empty());
    assert(s.bounds.len() == scheme.bounds@.len());
    let mut i: usize = 0;
    while i < scheme.quantified_vars.len()
        invariant
            i <= scheme.quantified_vars@.len(),
            s == scheme@,
            s.bounds.len() == scheme.bounds@.len(),
            assumptions_view(out@) == asked(s, i as int),
        decreases scheme.quantified_vars@.len() - i,
    {
        if i < scheme.bounds.len() {
            assert(s.bounds[i as int] == bounds_view(scheme.bounds@[i as int]@));
            let aspects: Vec<String> = aspect_names(&scheme.bounds[i]);
            assert(texts(aspects@).len() == aspects@.len());
            if aspects.len() != 0 {
                out = drop_assumptions(out, scheme.quantified_vars[i]);
                let ghost before = out@;
                let ghost a = texts(aspects@);
                out.push(Assumption { var: scheme.quantified_vars[i], aspects });
                assert(assumptions_view(out@) =~= assumptions_view(before).push((s.vars[i as int], a)));
            }
        }
        i += 1;
    }
    out
}

fn start_symbolic(assumptions: &Vec<Assumption>) -> (r: Vec<SymbolicAspects>)
    ensures
        symbolics(r@) == direct(assumptions_view(assumptions@)),
{
    let mut out: Vec<SymbolicAspects> = Vec::new();
    let mut i: usize = 0;
    while i < assumptions.len()
        invariant
            i <= assumptions@.len(),
            out@.len() == i,
            forall|k: int|
                0 <= k < i ==> (#[trigger] out@[k]).name@ == placeholder(assumptions@[k].var)
                    && texts(out@[k].aspects@) == texts(assumptions@[k].aspects@),
        decreases assumptions@.len() - i,
    {
        out.push(
            SymbolicAspects {
                name: generic_placeholder_name(assumptions[i].var),
                aspects: copy_texts(&assumptions[i].aspects),
            },
        );
        i += 1;
    }
    assert(symbolics(out@) =~= direct(assumptions_view(assumptions@)));
    out
}

fn sample_params(scheme: &TypeScheme, params: &Vec<InferType>) -> (r: (
    Vec<InferType>,
    Vec<Placeholder>,
))
    ensures
        infer_types_view(r.0@) == sampled_params(scheme@, infer_types_view(params@)),
        placeholders_view(r.1@) == Seq::new(
            scheme@.vars.len(),
            |i: int| (placeholder(scheme@.vars[i]), scheme@.vars[i]),
        ),
{
    let (subst, placeholders) = sample_vars(&scheme.quantified_vars);
    let names: Vec<(String, InferType)> = sample_names(scheme);
    assert(subst@ == sampling(scheme@));
    let mut out: Vec<InferType> = Vec::new();
    let mut i: usize = 0;
    while i < params.len()
        invariant
            i <= params@.len(),
            subst@ == sampling(scheme@),
            named_infer_types_view(names@) == named_samples(scheme@),
            out@.len() == i,
            forall|k: int|
                0 <= k < i ==> infer_type_view(#[trigger] out@[k]) == renamed(
                    named_samples(scheme@),
                    substituted(sampling(scheme@), infer_type_view(params@[k])),
                ),
        decreases params@.len() - i,
    {
        let applied: InferType = subst.apply(&params[i]);
        out.push(substitute_named_generics(&applied, &names));
        i += 1;
    }
    assert(infer_types_view(out@) =~= sampled_params(scheme@, infer_types_view(params@)));
    (out, placeholders)
}

/// What is known inside the body of a function with a scheme.
pub fn generic_sample_args(scheme: &TypeScheme, registry: &TypeDefinitionRegistry) -> (r: Option<
    GenericMoveEnv,
>)
    ensures
        match sampled_env(scheme@, *registry) {
            Some(e) => r matches Some(x) && x@ == e,
            None => r is None,
        },
{
    match &scheme.ty {
        InferType::Fun(params, _) => {
            let (given, placeholders) = sample_params(scheme, params);
            match infer_to_types(&given) {
                None => None,
                Some(arg_types) => {
                    let assumptions: Vec<Assumption> = collect_assumptions(scheme);
                    let symbolic_aspects: Vec<SymbolicAspects> = symbolic_aspect_assumptions(
                        registry,
                        start_symbolic(&assumptions),
                    );
                    Some(GenericMoveEnv { placeholders, assumptions, symbolic_aspects, arg_types })
                },
            }
        },
        _ => None,
    }
}

/// Whether a scheme says something of each of its variables.
pub open spec fn is_level(s: TypeSchemeV) -> bool {
    &&& s.bounds.len() == s.vars.len()
    &&& s.neg_bounds.len() == s.vars.len()
    &&& s.record_kinds.len() == s.vars.len()
    &&& s.assoc_projections.len() == s.vars.len()
    &&& s.assoc_eqs.len() == s.vars.len()
    &&& s.opaque_returns.len() == s.vars.len()
}

proof fn lemma_extended_names(s: TypeSchemeV, gs: Seq<GenericParam>, k: int)
    requires
        0 <= k <= gs.len(),
    ensures
        is_level(extended(s, gs, k).scheme),
        s.vars.is_prefix_of(extended(s, gs, k).scheme.vars),
        forall|i: int|
            0 <= i < k ==> extended(s, gs, k).scheme.names.contains((#[trigger] gs[i]).name@),
    decreases k,
{
    let x = extended(s, gs, k).scheme;
    if k == 0 {
        assert(x.vars.take(s.vars.len() as int) =~= s.vars);
    } else {
        lemma_extended_names(s, gs, k - 1);
        let before = extended(s, gs, k - 1).scheme;
        assert(x.vars.take(s.vars.len() as int) =~= before.vars.take(s.vars.len() as int));
        assert forall|n: Seq<char>| #[trigger] before.names.contains(n) implies x.names.contains(
            n,
        ) by {
            let i = choose|i: int| 0 <= i < before.names.len() && before.names[i] == n;
            assert(x.names[i] == n);
        }
        if !before.names.contains(gs[k - 1].name@) {
            assert(x.names[before.names.len() as int] == gs[k - 1].name@);
        }
        assert forall|i: int| 0 <= i < k implies x.names.contains((#[trigger] gs[i]).name@) by {
            if i < k - 1 {
                assert(before.names.contains(gs[i].name@));
            }
        }
    }
}

/// A repaired scheme keeps its variables, names every type parameter of the source, and says
/// something of each of its variables.
pub proof fn law_a_repaired_scheme_is_complete(s: TypeSchemeV, gs: Seq<GenericParam>)
    ensures
        is_level(repaired(s, gs)),
        s.vars.is_prefix_of(repaired(s, gs).vars),
        forall|i: int|
            0 <= i < gs.len() ==> repaired(s, gs).names.contains((#[trigger] gs[i]).name@),
{
    lemma_extended_names(s, gs, gs.len() as int);
}

/// What is assumed of type parameters is assumed of the types that stand for them.
pub proof fn law_stand_ins_satisfy_the_bounds(s: TypeSchemeV, reg: TypeDefinitionRegistry, i: int)
    requires
        sampled_env(s, reg) is Some,
        0 <= i < sampled_env(s, reg)->0.assumptions.len(),
    ensures
        ({
            let env = sampled_env(s, reg)->0;
            &&& i < env.symbolic.len()
            &&& env.symbolic[i] == SymbolicV {
                name: placeholder(env.assumptions[i].0),
                aspects: env.assumptions[i].1,
            }
        }),
{
    let start = direct(asked(s, s.vars.len() as int));
    assert(start[i] == implied(reg, start)[i]) by {
        reveal_with_fuel(reached, 1);
    }
}

} // verus!
