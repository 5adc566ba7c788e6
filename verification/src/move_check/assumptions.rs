//! The aspects that the type parameters of a generic body, and the associated types reached from
//! them, are assumed to satisfy.
use vstd::prelude::*;
use crate::ast::{AssocTypeDecl, Polarity};
use crate::elaborate::symbolic::{stated, stated_bounds};
use crate::registry::{aspect_of, AspectInfo, TypeDefinitionRegistry};
use crate::scheme::{bounds_view, GenericBound, GenericBoundV};
use crate::text::{has_text, joined3, same_text, texts};
use crate::typed_ast::SymbolicAspects;

verus! {

/// A symbolic type and the aspects it is assumed to satisfy.
pub ghost struct SymbolicV {
    pub name: Seq<char>,
    pub aspects: Seq<Seq<char>>,
}

impl View for SymbolicAspects {
    type V = SymbolicV;

    open spec fn view(&self) -> SymbolicV {
        SymbolicV { name: self.name@, aspects: texts(self.aspects@) }
    }
}

/// Symbolic types as mathematical objects.
pub open spec fn symbolics(s: Seq<SymbolicAspects>) -> Seq<SymbolicV> {
    Seq::new(s.len(), |i: int| s[i]@)
}

/// A sequence of texts with one more, unless it is there already.
pub open spec fn noted(s: Seq<Seq<char>>, x: Seq<char>) -> Seq<Seq<char>> {
    if s.contains(x) {
        s
    } else {
        s.push(x)
    }
}

/// A sequence of texts with the first `k` of another that it does not hold yet.
pub open spec fn all_noted(s: Seq<Seq<char>>, x: Seq<Seq<char>>, k: int) -> Seq<Seq<char>>
    decreases k,
{
    if k <= 0 || k > x.len() {
        s
    } else {
        noted(all_noted(s, x, k - 1), x[k - 1])
    }
}

/// The aspects that the first `k` bounds name, each once.
pub open spec fn named_aspects(s: Seq<GenericBoundV>, k: int) -> Seq<Seq<char>>
    decreases k,
{
    if k <= 0 || k > s.len() {
        Seq::empty()
    } else {
        let before = named_aspects(s, k - 1);
        match s[k - 1] {
            GenericBoundV::Aspect(a) => noted(before, a),
            GenericBoundV::Row { .. } => before,
        }
    }
}

/// The aspects that an associated type is declared to satisfy.
pub open spec fn assoc_aspects(d: AssocTypeDecl) -> Seq<Seq<char>> {
    let s = stated_bounds(d.bounds@, Polarity::Positive, d.bounds@.len() as int);
    named_aspects(s, s.len() as int)
}

/// The symbolic types with aspects added for one of them, which joins at the end where it is new.
pub open spec fn credited(s: Seq<SymbolicV>, name: Seq<char>, aspects: Seq<Seq<char>>) -> Seq<
    SymbolicV,
>
    decreases s.len(),
{
    if s.len() == 0 {
        seq![SymbolicV { name, aspects: all_noted(Seq::empty(), aspects, aspects.len() as int) }]
    } else if s[0].name == name {
        seq![
            SymbolicV {
                name,
                aspects: all_noted(s[0].aspects, aspects, aspects.len() as int),
            },
        ] + s.skip(1)
    } else {
        seq![s[0]] + credited(s.skip(1), name, aspects)
    }
}

/// What the first `k` associated types of an aspect add for a symbolic type that satisfies it.
pub open spec fn through_decls(
    s: Seq<SymbolicV>,
    name: Seq<char>,
    ds: Seq<AssocTypeDecl>,
    k: int,
) -> Seq<SymbolicV>
    decreases k,
{
    if k <= 0 || k > ds.len() {
        s
    } else {
        let before = through_decls(s, name, ds, k - 1);
        let d = ds[k - 1];
        if assoc_aspects(d).len() == 0 {
            before
        } else {
            credited(before, name + "::"@ + d.name@, assoc_aspects(d))
        }
    }
}

/// What the first `k` aspects of a symbolic type add.
pub open spec fn through_aspects(
    reg: TypeDefinitionRegistry,
    s: Seq<SymbolicV>,
    e: SymbolicV,
    k: int,
) -> Seq<SymbolicV>
    decreases k,
{
    if k <= 0 || k > e.aspects.len() {
        s
    } else {
        let before = through_aspects(reg, s, e, k - 1);
        match aspect_of(reg, e.aspects[k - 1]) {
            Some(info) => through_decls(
                before,
                e.name,
                info.assoc_types@,
                info.assoc_types@.len() as int,
            ),
            None => before,
        }
    }
}

/// The symbolic types one projection away from the first `k` of a sequence.
pub open spec fn projected(reg: TypeDefinitionRegistry, level: Seq<SymbolicV>, k: int) -> Seq<
    SymbolicV,
>
    decreases k,
{
    if k <= 0 || k > level.len() {
        Seq::empty()
    } else {
        through_aspects(
            reg,
            projected(reg, level, k - 1),
            level[k - 1],
            level[k - 1].aspects.len() as int,
        )
    }
}

/// The symbolic types at most `n` projections away.
pub open spec fn reached(reg: TypeDefinitionRegistry, level: Seq<SymbolicV>, n: nat) -> Seq<
    SymbolicV,
>
    decreases n,
{
    if n == 0 {
        level
    } else {
        level + reached(reg, projected(reg, level, level.len() as int), (n - 1) as nat)
    }
}

/// The assumptions on symbolic types that follow from those on the type parameters. Unless the
/// bounds of associated types lead in a circle, no chain of projections is longer than there are
/// aspects.
pub open spec fn implied(reg: TypeDefinitionRegistry, start: Seq<SymbolicV>) -> Seq<SymbolicV> {
    reached(reg, start, reg.aspects@.len())
}

/// The aspects that bounds name, each once.
pub fn aspect_names(bounds: &Vec<GenericBound>) -> (r: Vec<String>)
    ensures
        texts(r@) == named_aspects(bounds_view(bounds@), bounds@.len() as int),
{
    let mut out: Vec<String> = Vec::new();
    assert(texts(out@) =~= Seq::empty());
    let ghost views = bounds_view(bounds@);
    assert(views.len() == bounds@.len());
    let mut i: usize = 0;
    while i < bounds.len()
        invariant
            i <= bounds@.len(),
            views == bounds_view(bounds@),
            views.len() == bounds@.len(),
            texts(out@) == named_aspects(views, i as int),
        decreases bounds@.len() - i,
    {
        assert(views[i as int] == bounds@[i as int]@);
        if let GenericBound::Aspect(a) = &bounds[i] {
            note(&mut out, a.as_str());
        }
        i += 1;
    }
    out
}

fn note(out: &mut Vec<String>, x: &str)
    ensures
        texts(final(out)@) == noted(texts(old(out)@), x@),
{
    if !has_text(out, x) {
        let ghost before = out@;
        out.push(x.to_owned());
        assert(texts(out@) =~= texts(before).push(x@));
    }
}

fn note_all(out: &mut Vec<String>, xs: &Vec<String>)
    ensures
        texts(final(out)@) == all_noted(texts(old(out)@), texts(xs@), xs@.len() as int),
{
    let ghost start = texts(out@);
    let ghost views = texts(xs@);
    assert(views.len() == xs@.len());
    let mut i: usize = 0;
    while i < xs.len()
        invariant
            i <= xs@.len(),
            views == texts(xs@),
            views.len() == xs@.len(),
            texts(out@) == all_noted(start, views, i as int),
        decreases xs@.len() - i,
    {
        assert(views[i as int] == xs@[i as int]@);
        note(out, xs[i].as_str());
        i += 1;
    }
}

proof fn lemma_credited_later(
    s: Seq<SymbolicV>,
    name: Seq<char>,
    aspects: Seq<Seq<char>>,
    i: int,
)
    requires
        0 <= i <= s.len(),
        forall|k: int| 0 <= k < i ==> (#[trigger] s[k]).name != name,
    ensures
        credited(s, name, aspects) == s.take(i) + credited(s.skip(i), name, aspects),
    decreases i,
{
    if i == 0 {
        assert(s.take(0) =~= Seq::empty());
        assert(s.skip(0) =~= s);
        assert(Seq::<SymbolicV>::empty() + credited(s, name, aspects) =~= credited(
            s,
            name,
            aspects,
        ));
    } else {
        let rest = s.skip(1);
        assert forall|k: int| 0 <= k < i - 1 implies (#[trigger] rest[k]).name != name by {
            assert(rest[k] == s[k + 1]);
        }
        lemma_credited_later(rest, name, aspects, i - 1);
        assert(rest.skip(i - 1) =~= s.skip(i));
        assert(seq![s[0]] + rest.take(i - 1) =~= s.take(i));
        assert(seq![s[0]] + (rest.take(i - 1) + credited(s.skip(i), name, aspects)) =~= s.take(i)
            + credited(s.skip(i), name, aspects));
    }
}

fn credit(out: &mut Vec<SymbolicAspects>, name: String, aspects: &Vec<String>)
    ensures
        symbolics(final(out)@) == credited(symbolics(old(out)@), name@, texts(aspects@)),
{
    let ghost start = symbolics(out@);
    let ghost given = texts(aspects@);
    let mut i: usize = 0;
    while i < out.len() && !same_text(out[i].name.as_str(), name.as_str())
        invariant
            i <= out@.len(),
            start == symbolics(out@),
            start.len() == out@.len(),
            forall|k: int| 0 <= k < i ==> (#[trigger] start[k]).name != name@,
        decreases out@.len() - i,
    {
        assert(start[i as int] == out@[i as int]@);
        i += 1;
    }
    proof {
        lemma_credited_later(start, name@, given, i as int);
    }
    let ghost rest = start.skip(i as int);
    if i < out.len() {
        assert(rest[0] == start[i as int]);
        assert(start[i as int] == out@[i as int]@);
        note_all(&mut out[i].aspects, aspects);
        let ghost entry = out@[i as int]@;
        assert(rest.skip(1) =~= start.skip(i + 1));
        assert(symbolics(out@) =~= start.take(i as int) + (seq![entry] + rest.skip(1)));
    } else {
        assert(rest.len() == 0);
        assert(start.take(i as int) =~= start);
        let mut list: Vec<String> = Vec::new();
        assert(texts(list@) =~= Seq::empty());
        note_all(&mut list, aspects);
        let ghost before = out@;
        let entry = SymbolicAspects { name, aspects: list };
        let ghost ev = entry@;
        out.push(entry);
        assert(symbolics(out@) =~= symbolics(before).push(ev));
        assert(start + seq![ev] =~= start.push(ev));
    }
}

fn project_aspect(out: &mut Vec<SymbolicAspects>, name: &str, info: &AspectInfo)
    ensures
        symbolics(final(out)@) == through_decls(
            symbolics(old(out)@),
            name@,
            info.assoc_types@,
            info.assoc_types@.len() as int,
        ),
{
    let ghost start = symbolics(out@);
    let mut i: usize = 0;
    while i < info.assoc_types.len()
        invariant
            i <= info.assoc_types@.len(),
            symbolics(out@) == through_decls(start, name@, info.assoc_types@, i as int),
        decreases info.assoc_types@.len() - i,
    {
        let d: &AssocTypeDecl = &info.assoc_types[i];
        let bounds: Vec<GenericBound> = stated(&d.bounds, Polarity::Positive);
        assert(bounds_view(bounds@).len() == bounds@.len());
        let aspects: Vec<String> = aspect_names(&bounds);
        assert(texts(aspects@) == assoc_aspects(*d));
        assert(texts(aspects@).len() == aspects@.len());
        if aspects.len() != 0 {
            let projection: String = joined3(name, "::", d.name.as_str());
            assert(projection@ =~= name@ + "::"@ + d.name@);
            credit(out, projection, &aspects);
        }
        i += 1;
    }
}

fn project_entry(
    out: &mut Vec<SymbolicAspects>,
    e: &SymbolicAspects,
    registry: &TypeDefinitionRegistry,
)
    ensures
        symbolics(final(out)@) == through_aspects(
            *registry,
            symbolics(old(out)@),
            e@,
            e@.aspects.len() as int,
        ),
{
    let ghost start = symbolics(out@);
    assert(e@.aspects.len() == e.aspects@.len());
    let mut i: usize = 0;
    while i < e.aspects.len()
        invariant
            i <= e.aspects@.len(),
            e@.aspects.len() == e.aspects@.len(),
            symbolics(out@) == through_aspects(*registry, start, e@, i as int),
        decreases e.aspects@.len() - i,
    {
        assert(e@.aspects[i as int] == e.aspects@[i as int]@);
        if let Some(info) = registry.aspect_info(e.aspects[i].as_str()) {
            project_aspect(out, e.name.as_str(), info);
        }
        i += 1;
    }
}

fn project_all(level: &Vec<SymbolicAspects>, registry: &TypeDefinitionRegistry) -> (r: Vec<
    SymbolicAspects,
>)
    ensures
        symbolics(r@) == projected(*registry, symbolics(level@), level@.len() as int),
{
    let mut out: Vec<SymbolicAspects> = Vec::new();
    assert(symbolics(out@) =~= Seq::empty());
    let ghost views = symbolics(level@);
    assert(views.len() == level@.len());
    let mut i: usize = 0;
    while i < level.len()
        invariant
            i <= level@.len(),
            views == symbolics(level@),
            views.len() == level@.len(),
            symbolics(out@) == projected(*registry, views, i as int),
        decreases level@.len() - i,
    {
        assert(views[i as int] == level@[i as int]@);
        project_entry(&mut out, &level[i], registry);
        i += 1;
    }
    out
}

fn reach(level: Vec<SymbolicAspects>, registry: &TypeDefinitionRegistry, n: usize) -> (r: Vec<
    SymbolicAspects,
>)
    ensures
        symbolics(r@) == reached(*registry, symbolics(level@), n as nat),
    decreases n,
{
    if n == 0 {
        level
    } else {
        let mut out: Vec<SymbolicAspects> = level;
        assert(symbolics(out@).len() == out@.len());
        let next: Vec<SymbolicAspects> = project_all(&out, registry);
        let mut rest: Vec<SymbolicAspects> = reach(next, registry, n - 1);
        let ghost before = out@;
        let ghost tail = rest@;
        out.append(&mut rest);
        assert(symbolics(out@) =~= symbolics(before) + symbolics(tail));
        out
    }
}

/// The assumptions on symbolic types that follow from those on the type parameters.
pub fn symbolic_aspect_assumptions(
    registry: &TypeDefinitionRegistry,
    start: Vec<SymbolicAspects>,
) -> (r: Vec<SymbolicAspects>)
    ensures
        symbolics(r@) == implied(*registry, symbolics(start@)),
{
    reach(start, registry, registry.aspects.len())
}

} // verus!
