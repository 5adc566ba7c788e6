//! The methods of the symbolic types of a generic body.
use vstd::prelude::*;
use crate::ast::AspectMethod;
use crate::elaborate::symbolic::{aspect_method_scheme, symbolic_aspect_method_scheme};
use crate::registry::{aspect_of, Additions, AspectImpl, AspectInfo, MethodCandidate};
use crate::registry::{MethodSchemes, TypeDefinitionRegistry};
use crate::scheme::{after_fresh, TypeScheme, TypeSchemeV, TypeVarGenerator};
use crate::text::same_text;
use crate::typed_ast::SymbolicAspects;
use super::assumptions::{symbolics, SymbolicV};

verus! {

/// How many of the first `k` methods have a name.
pub open spec fn times_in(ms: Seq<AspectMethod>, name: Seq<char>, k: int) -> nat
    decreases k,
{
    if k <= 0 || k > ms.len() {
        0
    } else {
        times_in(ms, name, k - 1) + (if ms[k - 1].name@ == name {
            1nat
        } else {
            0
        })
    }
}

/// How many methods the first `k` aspects declare under a name.
pub open spec fn times_declared(
    reg: TypeDefinitionRegistry,
    aspects: Seq<Seq<char>>,
    name: Seq<char>,
    k: int,
) -> nat
    decreases k,
{
    if k <= 0 || k > aspects.len() {
        0
    } else {
        times_declared(reg, aspects, name, k - 1) + (match aspect_of(reg, aspects[k - 1]) {
            Some(info) => times_in(info.methods@, name, info.methods@.len() as int),
            None => 0,
        })
    }
}

/// A method that a symbolic type has from an aspect.
pub ghost struct SymbolicMethodV {
    pub owner: Seq<char>,
    pub method: Seq<char>,
    pub scheme: TypeSchemeV,
    pub aspect: Seq<char>,
}

/// Methods found so far, and the supply of variables.
pub ghost struct GrownV {
    pub methods: Seq<SymbolicMethodV>,
    pub next: u32,
}

/// The methods with one more of an aspect, unless several declarations go by its name.
pub open spec fn with_method(
    reg: TypeDefinitionRegistry,
    g: GrownV,
    e: SymbolicV,
    info: AspectInfo,
    aspect: Seq<char>,
    m: AspectMethod,
) -> GrownV {
    if times_declared(reg, e.aspects, m.name@, e.aspects.len() as int) != 1 {
        g
    } else {
        GrownV {
            methods: match aspect_method_scheme(info, m, e.name, g.next) {
                Some(scheme) => g.methods.push(
                    SymbolicMethodV {
                        owner: e.name,
                        method: m.name@,
                        scheme,
                        aspect,
                    },
                ),
                None => g.methods,
            },
            next: after_fresh(g.next, m.generics@.len() as int),
        }
    }
}

/// [`with_method`] for the first `k` methods of an aspect.
pub open spec fn with_methods(
    reg: TypeDefinitionRegistry,
    g: GrownV,
    e: SymbolicV,
    info: AspectInfo,
    aspect: Seq<char>,
    k: int,
) -> GrownV
    decreases k,
{
    if k <= 0 || k > info.methods@.len() {
        g
    } else {
        with_method(
            reg,
            with_methods(reg, g, e, info, aspect, k - 1),
            e,
            info,
            aspect,
            info.methods@[k - 1],
        )
    }
}

/// [`with_methods`] for the first `k` aspects of a symbolic type.
pub open spec fn with_aspects(reg: TypeDefinitionRegistry, g: GrownV, e: SymbolicV, k: int) -> GrownV
    decreases k,
{
    if k <= 0 || k > e.aspects.len() {
        g
    } else {
        let before = with_aspects(reg, g, e, k - 1);
        let aspect = e.aspects[k - 1];
        match aspect_of(reg, aspect) {
            Some(info) => with_methods(reg, before, e, info, aspect, info.methods@.len() as int),
            None => before,
        }
    }
}

/// Where the variables of methods of symbolic types start.
pub const METHOD_VARS: u32 = 2_000_000;

/// The methods of the first `k` symbolic types.
pub open spec fn methods_of(reg: TypeDefinitionRegistry, s: Seq<SymbolicV>, k: int) -> GrownV
    decreases k,
{
    if k <= 0 || k > s.len() {
        GrownV { methods: Seq::empty(), next: METHOD_VARS }
    } else {
        with_aspects(reg, methods_of(reg, s, k - 1), s[k - 1], s[k - 1].aspects.len() as int)
    }
}

/// A method that a symbolic type has from an aspect.
pub struct SymbolicMethod {
    pub owner: String,
    pub method: String,
    pub scheme: TypeScheme,
    pub aspect: String,
}

impl View for SymbolicMethod {
    type V = SymbolicMethodV;

    open spec fn view(&self) -> SymbolicMethodV {
        SymbolicMethodV {
            owner: self.owner@,
            method: self.method@,
            scheme: self.scheme@,
            aspect: self.aspect@,
        }
    }
}

/// Methods as mathematical objects.
pub open spec fn symbolic_methods_view(s: Seq<SymbolicMethod>) -> Seq<SymbolicMethodV> {
    Seq::new(s.len(), |i: int| s[i]@)
}

/// The smaller of a number and two.
pub open spec fn at_most_two(n: nat) -> nat {
    if n > 2 {
        2
    } else {
        n
    }
}

fn add_times(seen: u8, info: &AspectInfo, name: &str) -> (r: u8)
    requires
        seen <= 2,
    ensures
        r == at_most_two(seen as nat + times_in(info.methods@, name@, info.methods@.len() as int)),
{
    let mut n: u8 = seen;
    let mut i: usize = 0;
    while i < info.methods.len()
        invariant
            i <= info.methods@.len(),
            seen <= 2,
            n == at_most_two(seen as nat + times_in(info.methods@, name@, i as int)),
        decreases info.methods@.len() - i,
    {
        if same_text(info.methods[i].name.as_str(), name) && n < 2 {
            n += 1;
        }
        i += 1;
    }
    n
}

fn declared_once(registry: &TypeDefinitionRegistry, e: &SymbolicAspects, name: &str) -> (r: bool)
    ensures
        r == (times_declared(*registry, e@.aspects, name@, e@.aspects.len() as int) == 1),
{
    assert(e@.aspects.len() == e.aspects@.len());
    let mut n: u8 = 0;
    let mut i: usize = 0;
    while i < e.aspects.len()
        invariant
            i <= e.aspects@.len(),
            e@.aspects.len() == e.aspects@.len(),
            n <= 2,
            n == at_most_two(times_declared(*registry, e@.aspects, name@, i as int)),
        decreases e.aspects@.len() - i,
    {
        assert(e@.aspects[i as int] == e.aspects@[i as int]@);
        if let Some(info) = registry.aspect_info(e.aspects[i].as_str()) {
            n = add_times(n, info, name);
        }
        i += 1;
    }
    n == 1
}

fn add_methods(
    registry: &TypeDefinitionRegistry,
    e: &SymbolicAspects,
    info: &AspectInfo,
    aspect: &String,
    out: &mut Vec<SymbolicMethod>,
    gen: &mut TypeVarGenerator,
)
    ensures
        (GrownV { methods: symbolic_methods_view(final(out)@), next: final(gen).next })
            == with_methods(
            *registry,
            GrownV { methods: symbolic_methods_view(old(out)@), next: old(gen).next },
            e@,
            *info,
            aspect@,
            info.methods@.len() as int,
        ),
{
    let ghost start = GrownV { methods: symbolic_methods_view(out@), next: gen.next };
    let mut i: usize = 0;
    while i < info.methods.len()
        invariant
            i <= info.methods@.len(),
            with_methods(*registry, start, e@, *info, aspect@, i as int) == (GrownV {
                methods: symbolic_methods_view(out@),
                next: gen.next,
            }),
        decreases info.methods@.len() - i,
    {
        let m: &AspectMethod = &info.methods[i];
        if declared_once(registry, e, m.name.as_str()) {
            if let Some(scheme) = symbolic_aspect_method_scheme(info, m, e.name.as_str(), gen) {
                let ghost before = out@;
                let found = SymbolicMethod {
                    owner: e.name.clone(),
                    method: m.name.clone(),
                    scheme,
                    aspect: aspect.clone(),
                };
                let ghost fv = found@;
                out.push(found);
                assert(symbolic_methods_view(out@) =~= symbolic_methods_view(before).push(fv));
            }
        }
        i += 1;
    }
}

fn add_aspects(
    registry: &TypeDefinitionRegistry,
    e: &SymbolicAspects,
    out: &mut Vec<SymbolicMethod>,
    gen: &mut TypeVarGenerator,
)
    ensures
        (GrownV { methods: symbolic_methods_view(final(out)@), next: final(gen).next })
            == with_aspects(
            *registry,
            GrownV { methods: symbolic_methods_view(old(out)@), next: old(gen).next },
            e@,
            e@.aspects.len() as int,
        ),
{
    let ghost start = GrownV { methods: symbolic_methods_view(out@), next: gen.next };
    assert(e@.aspects.len() == e.aspects@.len());
    let mut i: usize = 0;
    while i < e.aspects.len()
        invariant
            i <= e.aspects@.len(),
            e@.aspects.len() == e.aspects@.len(),
            with_aspects(*registry, start, e@, i as int) == (GrownV {
                methods: symbolic_methods_view(out@),
                next: gen.next,
            }),
        decreases e.aspects@.len() - i,
    {
        assert(e@.aspects[i as int] == e.aspects@[i as int]@);
        if let Some(info) = registry.aspect_info(e.aspects[i].as_str()) {
            add_methods(registry, e, info, &e.aspects[i], out, gen);
        }
        i += 1;
    }
}

/// The methods that symbolic types have from the aspects they are assumed to satisfy.
pub fn symbolic_methods(
    registry: &TypeDefinitionRegistry,
    symbolic: &Vec<SymbolicAspects>,
) -> (r: Vec<SymbolicMethod>)
    ensures
        symbolic_methods_view(r@) == methods_of(
            *registry,
            symbolics(symbolic@),
            symbolic@.len() as int,
        ).methods,
{
    let mut out: Vec<SymbolicMethod> = Vec::new();
    assert(symbolic_methods_view(out@) =~= Seq::empty());
    let mut gen: TypeVarGenerator = TypeVarGenerator::with_counter(METHOD_VARS);
    let ghost views = symbolics(symbolic@);
    assert(views.len() == symbolic@.len());
    let mut i: usize = 0;
    while i < symbolic.len()
        invariant
            i <= symbolic@.len(),
            views == symbolics(symbolic@),
            views.len() == symbolic@.len(),
            methods_of(*registry, views, i as int) == (GrownV {
                methods: symbolic_methods_view(out@),
                next: gen.next,
            }),
        decreases symbolic@.len() - i,
    {
        assert(views[i as int] == symbolic@[i as int]@);
        add_aspects(registry, &symbolic[i], &mut out, &mut gen);
        i += 1;
    }
    out
}

/// The impls that the first `k` symbolic types stand for, by owner and aspect.
pub open spec fn assumed_impls(s: Seq<SymbolicV>, k: int) -> Seq<(Seq<char>, Seq<char>)>
    decreases k,
{
    if k <= 0 || k > s.len() {
        Seq::empty()
    } else {
        assumed_impls(s, k - 1) + Seq::new(
            s[k - 1].aspects.len(),
            |i: int| (s[k - 1].name, s[k - 1].aspects[i]),
        )
    }
}

/// Whether an impl is that of an aspect for a type, on no condition.
pub open spec fn is_plain_impl(e: AspectImpl, what: (Seq<char>, Seq<char>)) -> bool {
    e.owner@ == what.0 && e.aspect@ == what.1 && e.arg_bounds@.len() == 0
}

/// Whether methods under one name are a single method of a symbolic type.
pub open spec fn is_symbolic_scheme(e: MethodSchemes, m: SymbolicMethodV) -> bool {
    &&& e.owner@ == m.owner
    &&& e.method@ == m.method
    &&& e.candidates@.len() == 1
    &&& e.candidates@[0].scheme@ == m.scheme
    &&& e.candidates@[0].struct_vars@.len() == 0
    &&& (e.candidates@[0].aspect matches Some(a) && a@ == m.aspect)
}

/// Whether additions are those that symbolic types and their methods call for.
pub open spec fn additions_for(
    a: Additions,
    symbolic: Seq<SymbolicV>,
    methods: Seq<SymbolicMethodV>,
) -> bool {
    let impls = assumed_impls(symbolic, symbolic.len() as int);
    &&& a.impls@.len() == impls.len()
    &&& forall|i: int| 0 <= i < impls.len() ==> is_plain_impl(#[trigger] a.impls@[i], impls[i])
    &&& a.method_schemes@.len() == methods.len()
    &&& forall|i: int|
        0 <= i < methods.len() ==> is_symbolic_scheme(
            #[trigger] a.method_schemes@[i],
            methods[i],
        )
}

fn plain_impls(symbolic: &Vec<SymbolicAspects>) -> (r: Vec<AspectImpl>)
    ensures
        r@.len() == assumed_impls(symbolics(symbolic@), symbolic@.len() as int).len(),
        forall|i: int|
            0 <= i < r@.len() ==> is_plain_impl(
                #[trigger] r@[i],
                assumed_impls(symbolics(symbolic@), symbolic@.len() as int)[i],
            ),
{
    let ghost views = symbolics(symbolic@);
    assert(views.len() == symbolic@.len());
    let mut out: Vec<AspectImpl> = Vec::new();
    let mut i: usize = 0;
    while i < symbolic.len()
        invariant
            i <= symbolic@.len(),
            views == symbolics(symbolic@),
            views.len() == symbolic@.len(),
            out@.len() == assumed_impls(views, i as int).len(),
            forall|k: int|
                0 <= k < out@.len() ==> is_plain_impl(
                    #[trigger] out@[k],
                    assumed_impls(views, i as int)[k],
                ),
        decreases symbolic@.len() - i,
    {
        let e: &SymbolicAspects = &symbolic[i];
        assert(views[i as int] == e@);
        let ghost before = assumed_impls(views, i as int);
        let ghost after = assumed_impls(views, i + 1);
        assert(e@.aspects.len() == e.aspects@.len());
        assert(after.len() == before.len() + e.aspects@.len());
        let mut j: usize = 0;
        while j < e.aspects.len()
            invariant
                j <= e.aspects@.len(),
                i < symbolic@.len(),
                views == symbolics(symbolic@),
                views.len() == symbolic@.len(),
                views[i as int] == e@,
                before == assumed_impls(views, i as int),
                after == assumed_impls(views, i + 1),
                out@.len() == before.len() + j,
                e@.aspects.len() == e.aspects@.len(),
                forall|k: int| 0 <= k < out@.len() ==> is_plain_impl(#[trigger] out@[k], after[k]),
            decreases e.aspects@.len() - j,
        {
            assert(e@.aspects[j as int] == e.aspects@[j as int]@);
            assert(after[before.len() + j] == (e@.name, e@.aspects[j as int]));
            out.push(
                AspectImpl {
                    owner: e.name.clone(),
                    aspect: e.aspects[j].clone(),
                    arg_bounds: Vec::new(),
                },
            );
            j += 1;
        }
        i += 1;
    }
    out
}

/// What symbolic types and their methods add to the declarations of a program.
pub fn additions(symbolic: &Vec<SymbolicAspects>, methods: Vec<SymbolicMethod>) -> (r: Additions)
    ensures
        additions_for(r, symbolics(symbolic@), symbolic_methods_view(methods@)),
{
    let impls: Vec<AspectImpl> = plain_impls(symbolic);
    let ghost all = symbolic_methods_view(methods@);
    let mut rest: Vec<SymbolicMethod> = methods;
    let mut schemes: Vec<MethodSchemes> = Vec::new();
    let n: usize = rest.len();
    assert(all.len() == n);
    let mut i: usize = 0;
    while i < n
        invariant
            i <= n,
            all.len() == n,
            rest@.len() == n - i,
            symbolic_methods_view(rest@) == all.skip(i as int),
            schemes@.len() == i,
            forall|k: int| 0 <= k < i ==> is_symbolic_scheme(#[trigger] schemes@[k], all[k]),
        decreases n - i,
    {
        let ghost before = rest@;
        let ghost views = symbolic_methods_view(rest@);
        let m: SymbolicMethod = rest.remove(0);
        assert(m@ == views[0]);
        assert(views[0] == all[i as int]);
        assert forall|k: int| 0 <= k < rest@.len() implies (#[trigger] rest@[k])@ == all[i + 1
            + k] by {
            assert(rest@[k] == before[k + 1]);
            assert(views[k + 1] == before[k + 1]@);
        }
        assert(symbolic_methods_view(rest@) =~= all.skip(i + 1));
        let mut candidates: Vec<MethodCandidate> = Vec::new();
        candidates.push(
            MethodCandidate {
                scheme: m.scheme,
                struct_vars: Vec::new(),
                aspect: Some(m.aspect),
            },
        );
        schemes.push(MethodSchemes { owner: m.owner, method: m.method, candidates });
        i += 1;
    }
    Additions { impls, method_schemes: schemes }
}

} // verus!
