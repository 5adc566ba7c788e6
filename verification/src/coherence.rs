//! Coherence of aspect implementations.
//!
//! An `impl` of an aspect for a type stands in the module of the aspect or in that of the type
//! (the orphan rule), and no two cover one instantiation of an aspect and one type, unless their
//! bounds exclude each other. Of the aspects of `std::core`, `Copy` and `Drop` exclude each other
//! on one type, and an anonymous record has no destructor.
use vstd::prelude::*;
use crate::ast::{Bound, Decl, GenericParam, ImplBlock, Polarity, SymbolId, TypeExpr, TypeExprV};
use crate::ast::{type_expr_view, type_exprs_view, named_type_exprs_view, WhereConstraint};
use crate::elaborate::state::symbol_in;
use crate::error::{type_failure, MetelError, MetelErrorV, TypeErrorCode};
use crate::resolution::{declared_in, resolved_id, NormalizedModule, NormalizedModuleGraph};
use crate::resolution::ResolvedNames;
use crate::span::{Span, SpanV};
use crate::text::{decimal, decimal_text, joined3, same_text, texts};

verus! {

/// A type in which names stand for what they denote, so that two spellings of one type compare
/// equal.
#[derive(Debug)]
pub enum CanonicalType {
    Resolved(SymbolId, Vec<CanonicalType>),
    Unresolved(String, Vec<CanonicalType>),
    Unit,
    Tuple(Vec<CanonicalType>),
    Record(Vec<(String, CanonicalType)>),
    Array(Box<CanonicalType>),
    SizedArray(Box<CanonicalType>, u64),
    Reference(Box<CanonicalType>),
    MutReference(Box<CanonicalType>),
    Fun(Vec<CanonicalType>, Option<Box<CanonicalType>>),
    /// A type that is not known yet.
    Opaque,
    /// A type parameter of the impl, by the position at which it stands.
    TypeParam(usize),
}

/// The value of a [`CanonicalType`] as a mathematical object.
pub ghost enum CanonicalTypeV {
    Resolved(SymbolId, Seq<CanonicalTypeV>),
    Unresolved(Seq<char>, Seq<CanonicalTypeV>),
    Unit,
    Tuple(Seq<CanonicalTypeV>),
    Record(Seq<(Seq<char>, CanonicalTypeV)>),
    Array(Box<CanonicalTypeV>),
    SizedArray(Box<CanonicalTypeV>, u64),
    Reference(Box<CanonicalTypeV>),
    MutReference(Box<CanonicalTypeV>),
    Fun(Seq<CanonicalTypeV>, Option<Box<CanonicalTypeV>>),
    Opaque,
    TypeParam(int),
}

/// The view of a [`CanonicalType`].
pub open spec fn canonical_view(t: CanonicalType) -> CanonicalTypeV
    decreases t,
{
    match t {
        CanonicalType::Resolved(id, s) => CanonicalTypeV::Resolved(id, canonicals_view(s@)),
        CanonicalType::Unresolved(n, s) => CanonicalTypeV::Unresolved(n@, canonicals_view(s@)),
        CanonicalType::Unit => CanonicalTypeV::Unit,
        CanonicalType::Tuple(s) => CanonicalTypeV::Tuple(canonicals_view(s@)),
        CanonicalType::Record(s) => CanonicalTypeV::Record(named_canonicals_view(s@)),
        CanonicalType::Array(x) => CanonicalTypeV::Array(Box::new(canonical_view(*x))),
        CanonicalType::SizedArray(x, n) => CanonicalTypeV::SizedArray(
            Box::new(canonical_view(*x)),
            n,
        ),
        CanonicalType::Reference(x) => CanonicalTypeV::Reference(Box::new(canonical_view(*x))),
        CanonicalType::MutReference(x) => CanonicalTypeV::MutReference(
            Box::new(canonical_view(*x)),
        ),
        CanonicalType::Fun(s, x) => CanonicalTypeV::Fun(
            canonicals_view(s@),
            match x {
                Some(x) => Some(Box::new(canonical_view(*x))),
                None => None,
            },
        ),
        CanonicalType::Opaque => CanonicalTypeV::Opaque,
        CanonicalType::TypeParam(i) => CanonicalTypeV::TypeParam(i as int),
    }
}

/// The views of canonical types.
pub open spec fn canonicals_view(s: Seq<CanonicalType>) -> Seq<CanonicalTypeV>
    decreases s,
{
    Seq::new(s.len(), |i: int| if 0 <= i < s.len() { canonical_view(s[i]) } else { arbitrary() })
}

/// The views of named canonical types.
pub open spec fn named_canonicals_view(s: Seq<(String, CanonicalType)>) -> Seq<
    (Seq<char>, CanonicalTypeV),
>
    decreases s,
{
    Seq::new(
        s.len(),
        |i: int| if 0 <= i < s.len() { (s[i].0@, canonical_view(s[i].1)) } else { arbitrary() },
    )
}

impl View for CanonicalType {
    type V = CanonicalTypeV;

    open spec fn view(&self) -> CanonicalTypeV {
        canonical_view(*self)
    }
}

/// A type with its names resolved from the standpoint of a module.
pub open spec fn canonical(names: ResolvedNames, module: Seq<Seq<char>>, t: TypeExprV) -> CanonicalTypeV
    decreases t,
{
    match t {
        TypeExprV::Named(name, args) => match resolved_id(names, module, name) {
            Some(id) => CanonicalTypeV::Resolved(id, all_canonical(names, module, args)),
            None => CanonicalTypeV::Unresolved(name, all_canonical(names, module, args)),
        },
        TypeExprV::Unit => CanonicalTypeV::Unit,
        TypeExprV::Tuple(s) => CanonicalTypeV::Tuple(all_canonical(names, module, s)),
        TypeExprV::Record(s) => CanonicalTypeV::Record(fields_canonical(names, module, s)),
        TypeExprV::Array(x) => CanonicalTypeV::Array(Box::new(canonical(names, module, *x))),
        TypeExprV::SizedArray(x, n) => CanonicalTypeV::SizedArray(
            Box::new(canonical(names, module, *x)),
            n,
        ),
        TypeExprV::Reference(x) => CanonicalTypeV::Reference(
            Box::new(canonical(names, module, *x)),
        ),
        TypeExprV::MutReference(x) => CanonicalTypeV::MutReference(
            Box::new(canonical(names, module, *x)),
        ),
        TypeExprV::Fun(s, x) => CanonicalTypeV::Fun(
            all_canonical(names, module, s),
            match x {
                Some(x) => Some(Box::new(canonical(names, module, *x))),
                None => None,
            },
        ),
        TypeExprV::ImplAspect { .. } => CanonicalTypeV::Opaque,
        TypeExprV::DynAspect { .. } => CanonicalTypeV::Opaque,
        TypeExprV::Projection { .. } => CanonicalTypeV::Opaque,
        TypeExprV::RecordProjection { .. } => CanonicalTypeV::Opaque,
    }
}

/// [`canonical`] for types.
pub open spec fn all_canonical(
    names: ResolvedNames,
    module: Seq<Seq<char>>,
    s: Seq<TypeExprV>,
) -> Seq<CanonicalTypeV>
    decreases s,
{
    Seq::new(
        s.len(),
        |i: int| if 0 <= i < s.len() { canonical(names, module, s[i]) } else { arbitrary() },
    )
}

/// [`canonical`] for the types of fields.
pub open spec fn fields_canonical(
    names: ResolvedNames,
    module: Seq<Seq<char>>,
    s: Seq<(Seq<char>, TypeExprV)>,
) -> Seq<(Seq<char>, CanonicalTypeV)>
    decreases s,
{
    Seq::new(
        s.len(),
        |i: int|
            if 0 <= i < s.len() {
                (s[i].0, canonical(names, module, s[i].1))
            } else {
                arbitrary()
            },
    )
}

/// Whether a name is one of these type parameters.
pub open spec fn names_param(generics: Seq<GenericParam>, name: Seq<char>) -> bool {
    exists|k: int| 0 <= k < generics.len() && (#[trigger] generics[k]).name@ == name
}

/// Whether a type argument is a type parameter.
pub open spec fn is_param(generics: Seq<GenericParam>, t: TypeExpr) -> bool {
    match t {
        TypeExpr::Named(name, args) => args@.len() == 0 && names_param(generics, name@),
        _ => false,
    }
}

/// The type arguments of the target of an impl. A type parameter of the impl is told by its
/// position alone, so that the letter that stands for it does not matter.
pub open spec fn target_args(
    names: ResolvedNames,
    module: Seq<Seq<char>>,
    generics: Seq<GenericParam>,
    args: Seq<TypeExpr>,
) -> Seq<CanonicalTypeV> {
    Seq::new(
        args.len(),
        |i: int|
            if is_param(generics, args[i]) {
                CanonicalTypeV::TypeParam(i)
            } else {
                canonical(names, module, args[i]@)
            },
    )
}

/// The target of an impl.
pub open spec fn canonical_target(
    names: ResolvedNames,
    module: Seq<Seq<char>>,
    ib: ImplBlock,
) -> CanonicalTypeV {
    match ib.target_type {
        TypeExpr::Named(name, args) => {
            let s = target_args(names, module, ib.generics@, args@);
            if args@.len() == 0 {
                canonical(names, module, ib.target_type@)
            } else {
                match resolved_id(names, module, name@) {
                    Some(id) => CanonicalTypeV::Resolved(id, s),
                    None => CanonicalTypeV::Unresolved(name@, s),
                }
            }
        },
        _ => canonical(names, module, ib.target_type@),
    }
}

/// The bounds that an impl puts on the type arguments of its target, by position.
#[derive(Debug)]
pub struct ScopedBounds {
    pub positive: Vec<Vec<String>>,
    pub negative: Vec<Vec<String>>,
}

/// [`ScopedBounds`] as a mathematical object.
pub ghost struct ScopedBoundsV {
    pub positive: Seq<Seq<Seq<char>>>,
    pub negative: Seq<Seq<Seq<char>>>,
}

/// Lists of names as a mathematical object.
pub open spec fn text_lists(s: Seq<Vec<String>>) -> Seq<Seq<Seq<char>>> {
    Seq::new(s.len(), |i: int| texts(s[i]@))
}

impl View for ScopedBounds {
    type V = ScopedBoundsV;

    open spec fn view(&self) -> ScopedBoundsV {
        ScopedBoundsV {
            positive: text_lists(self.positive@),
            negative: text_lists(self.negative@),
        }
    }
}

/// The aspects that the first `k` bounds of a polarity name.
pub open spec fn aspects_of(s: Seq<Bound>, polarity: Polarity, k: int) -> Seq<Seq<char>>
    decreases k,
{
    if k <= 0 || k > s.len() {
        Seq::empty()
    } else {
        let before = aspects_of(s, polarity, k - 1);
        match s[k - 1].aspect {
            TypeExpr::Named(aspect, _) => if s[k - 1].polarity == polarity {
                before.push(aspect@)
            } else {
                before
            },
            _ => before,
        }
    }
}

/// Whether a type has a name as its head.
pub open spec fn headed_by(t: TypeExpr, name: Seq<char>) -> bool {
    t matches TypeExpr::Named(n, _) && n@ == name
}

/// The aspects of a polarity that the first `k` type parameters ask for at a position.
pub open spec fn asked_inline(
    generics: Seq<GenericParam>,
    args: Seq<TypeExpr>,
    p: int,
    polarity: Polarity,
    k: int,
) -> Seq<Seq<char>>
    decreases k,
{
    if k <= 0 || k > generics.len() {
        Seq::empty()
    } else {
        let before = asked_inline(generics, args, p, polarity, k - 1);
        let g = generics[k - 1];
        if headed_by(args[p], g.name@) {
            before + aspects_of(g.bounds@, polarity, g.bounds@.len() as int)
        } else {
            before
        }
    }
}

/// The aspects of a polarity that the first `k` constraints of a `where` clause ask for at a
/// position.
pub open spec fn asked_where(
    generics: Seq<GenericParam>,
    constraints: Seq<WhereConstraint>,
    args: Seq<TypeExpr>,
    p: int,
    polarity: Polarity,
    k: int,
) -> Seq<Seq<char>>
    decreases k,
{
    if k <= 0 || k > constraints.len() {
        Seq::empty()
    } else {
        let before = asked_where(generics, constraints, args, p, polarity, k - 1);
        let c = constraints[k - 1];
        if names_param(generics, c.name@) && headed_by(args[p], c.name@) {
            before + aspects_of(c.bounds@, polarity, c.bounds@.len() as int)
        } else {
            before
        }
    }
}

/// The constraints of the `where` clause of an impl.
pub open spec fn constraints_of(ib: ImplBlock) -> Seq<WhereConstraint> {
    match ib.where_clause {
        Some(w) => w.constraints@,
        None => Seq::empty(),
    }
}

/// The aspects of a polarity that an impl asks for at a position of its target.
pub open spec fn asked_at(ib: ImplBlock, args: Seq<TypeExpr>, p: int, polarity: Polarity) -> Seq<
    Seq<char>,
> {
    asked_inline(ib.generics@, args, p, polarity, ib.generics@.len() as int) + asked_where(
        ib.generics@,
        constraints_of(ib),
        args,
        p,
        polarity,
        constraints_of(ib).len() as int,
    )
}

/// The bounds that an impl puts on the type arguments of its target. A target that takes no type
/// arguments has none.
pub open spec fn scoped_bounds(ib: ImplBlock) -> ScopedBoundsV {
    match ib.target_type {
        TypeExpr::Named(_, args) => ScopedBoundsV {
            positive: Seq::new(
                args@.len(),
                |p: int| asked_at(ib, args@, p, Polarity::Positive),
            ),
            negative: Seq::new(
                args@.len(),
                |p: int| asked_at(ib, args@, p, Polarity::Negative),
            ),
        },
        _ => ScopedBoundsV { positive: Seq::empty(), negative: Seq::empty() },
    }
}

/// Whether two lists of names have one in common.
pub open spec fn meets(a: Seq<Seq<char>>, b: Seq<Seq<char>>) -> bool {
    exists|k: int| 0 <= k < a.len() && b.contains(#[trigger] a[k])
}

/// The names at a position, none where the list is shorter.
pub open spec fn names_at(s: Seq<Seq<Seq<char>>>, i: int) -> Seq<Seq<char>> {
    if 0 <= i < s.len() {
        s[i]
    } else {
        Seq::empty()
    }
}

/// Whether the bounds of two impls exclude each other at a position: one asks for an aspect that
/// the other denies.
pub open spec fn disjoint_at(a: ScopedBoundsV, b: ScopedBoundsV, i: int) -> bool {
    meets(names_at(a.positive, i), names_at(b.negative, i)) || meets(
        names_at(b.positive, i),
        names_at(a.negative, i),
    )
}

/// Whether no type can meet the bounds of both impls.
pub open spec fn disjoint(a: ScopedBoundsV, b: ScopedBoundsV) -> bool {
    exists|i: int| #[trigger] disjoint_at(a, b, i)
}

/// An impl of an aspect, with what the rules look at.
pub struct CollectedImpl<'a> {
    pub module: &'a Vec<String>,
    pub polarity: Polarity,
    pub aspect_name: &'a String,
    pub aspect_id: Option<SymbolId>,
    pub target_local: bool,
    /// The type arguments of the aspect.
    pub args: Vec<CanonicalType>,
    pub target: CanonicalType,
    pub bounds: ScopedBounds,
    pub span: &'a Span,
}

/// A [`CollectedImpl`] as a mathematical object.
pub ghost struct CollectedImplV {
    pub module: Seq<Seq<char>>,
    pub polarity: Polarity,
    pub aspect_name: Seq<char>,
    pub aspect_id: Option<SymbolId>,
    pub target_local: bool,
    pub args: Seq<CanonicalTypeV>,
    pub target: CanonicalTypeV,
    pub bounds: ScopedBoundsV,
    pub span: SpanV,
}

impl<'a> View for CollectedImpl<'a> {
    type V = CollectedImplV;

    open spec fn view(&self) -> CollectedImplV {
        CollectedImplV {
            module: texts(self.module@),
            polarity: self.polarity,
            aspect_name: self.aspect_name@,
            aspect_id: self.aspect_id,
            target_local: self.target_local,
            args: canonicals_view(self.args@),
            target: self.target@,
            bounds: self.bounds@,
            span: self.span@,
        }
    }
}

/// The views of collected impls.
pub open spec fn impls_view(s: Seq<CollectedImpl>) -> Seq<CollectedImplV> {
    Seq::new(s.len(), |i: int| s[i]@)
}

/// The symbol of the outermost constructor of a type. Only a named type has one.
pub open spec fn outermost(names: ResolvedNames, module: Seq<Seq<char>>, t: TypeExpr) -> Option<
    SymbolId,
> {
    match t {
        TypeExpr::Named(name, _) => resolved_id(names, module, name@),
        _ => None,
    }
}

/// What the rules look at in an impl of an aspect; an inherent impl has nothing to check.
pub open spec fn collected(names: ResolvedNames, module: Seq<Seq<char>>, d: Decl) -> Option<
    CollectedImplV,
> {
    match d {
        Decl::Impl(ib) => match ib.aspect_name {
            Some(aspect) => Some(
                CollectedImplV {
                    module,
                    polarity: ib.polarity,
                    aspect_name: aspect@,
                    aspect_id: resolved_id(names, module, aspect@),
                    target_local: declared_in(
                        names,
                        outermost(names, module, ib.target_type),
                        module,
                    ),
                    args: all_canonical(names, module, type_exprs_view(ib.aspect_type_args@)),
                    target: canonical_target(names, module, ib),
                    bounds: scoped_bounds(ib),
                    span: ib.span@,
                },
            ),
            None => None,
        },
        _ => None,
    }
}

/// The impls among the first `k` declarations of a module.
pub open spec fn module_impls(
    names: ResolvedNames,
    module: Seq<Seq<char>>,
    s: Seq<Decl>,
    k: int,
) -> Seq<CollectedImplV>
    decreases k,
{
    if k <= 0 || k > s.len() {
        Seq::empty()
    } else {
        let before = module_impls(names, module, s, k - 1);
        match collected(names, module, s[k - 1]) {
            Some(x) => before.push(x),
            None => before,
        }
    }
}

/// The impls of the first `k` modules.
pub open spec fn all_impls(names: ResolvedNames, s: Seq<NormalizedModule>, k: int) -> Seq<
    CollectedImplV,
>
    decreases k,
{
    if k <= 0 || k > s.len() {
        Seq::empty()
    } else {
        let m = s[k - 1];
        all_impls(names, s, k - 1) + module_impls(
            names,
            texts(m.path@),
            m.program.decls@,
            m.program.decls@.len() as int,
        )
    }
}

/// Whether an impl breaks the orphan rule. One of an unknown aspect does not: that the aspect is
/// unknown is reported elsewhere.
pub open spec fn orphan(names: ResolvedNames, x: CollectedImplV) -> bool {
    x.aspect_id is Some && !declared_in(names, x.aspect_id, x.module) && !x.target_local
}

/// Whether two impls cover the same instantiation of an aspect and the same type.
pub open spec fn conflicting(a: CollectedImplV, b: CollectedImplV) -> bool {
    a.aspect_id is Some && a.aspect_id == b.aspect_id && a.args == b.args && a.target == b.target
        && !disjoint(a.bounds, b.bounds)
}

/// Whether an impl provides an aspect that `std::core` declares under a name.
pub open spec fn provides(names: ResolvedNames, x: CollectedImplV, aspect: Seq<char>) -> bool {
    x.polarity == Polarity::Positive && x.aspect_id is Some && x.aspect_id == symbol_in(
        names.symbols@,
        seq!["std"@, "core"@],
        aspect,
    )
}

/// Whether one of two impls makes a type copied and the other gives it a destructor.
pub open spec fn excluding(names: ResolvedNames, a: CollectedImplV, b: CollectedImplV) -> bool {
    ((provides(names, a, "Copy"@) && provides(names, b, "Drop"@)) || (provides(names, a, "Drop"@)
        && provides(names, b, "Copy"@))) && a.target == b.target && !disjoint(a.bounds, b.bounds)
}

/// Whether two impls cannot stand in one program.
pub open spec fn rivals(names: ResolvedNames, a: CollectedImplV, b: CollectedImplV) -> bool {
    conflicting(a, b) || excluding(names, a, b)
}

/// Whether an impl gives an anonymous record a destructor.
pub open spec fn barred(names: ResolvedNames, x: CollectedImplV) -> bool {
    provides(names, x, "Drop"@) && x.target is Record
}

/// The error of a destructor of an anonymous record.
pub open spec fn barred_error(x: CollectedImplV) -> MetelErrorV {
    type_failure(TypeErrorCode::T0001, "anonymous records cannot implement `Drop`"@, x.span)
}

/// The error of an orphan.
pub open spec fn orphan_error(x: CollectedImplV) -> MetelErrorV {
    type_failure(
        TypeErrorCode::T0014,
        "orphan implementation: neither `"@ + x.aspect_name
            + "` nor the target type is local to this module"@,
        x.span,
    )
}

/// The error of an impl that conflicts with an earlier one.
pub open spec fn conflict_error(a: CollectedImplV, b: CollectedImplV) -> MetelErrorV {
    type_failure(
        TypeErrorCode::T0015,
        "conflicting implementation: `"@ + a.aspect_name
            + "` is already implemented for this type at "@ + a.span.filename + ":"@ + decimal(
            a.span.line as nat,
        ) + ":"@ + decimal(a.span.col as nat),
        b.span,
    )
}

/// The error of a type that would be copied and have a destructor.
pub open spec fn exclusion_error(a: CollectedImplV, b: CollectedImplV) -> MetelErrorV {
    type_failure(
        TypeErrorCode::T0015,
        "conflicting implementation: `"@ + b.aspect_name + "` excludes `"@ + a.aspect_name
            + "`, which is implemented for this type at "@ + a.span.filename + ":"@ + decimal(
            a.span.line as nat,
        ) + ":"@ + decimal(a.span.col as nat),
        b.span,
    )
}

/// The first destructor of an anonymous record from `i` on.
pub open spec fn first_barred(names: ResolvedNames, s: Seq<CollectedImplV>, i: int) -> Option<int>
    decreases s.len() - i,
{
    if i < 0 || i >= s.len() {
        None
    } else if barred(names, s[i]) {
        Some(i)
    } else {
        first_barred(names, s, i + 1)
    }
}

/// The first orphan from `i` on.
pub open spec fn first_orphan(names: ResolvedNames, s: Seq<CollectedImplV>, i: int) -> Option<int>
    decreases s.len() - i,
{
    if i < 0 || i >= s.len() {
        None
    } else if orphan(names, s[i]) {
        Some(i)
    } else {
        first_orphan(names, s, i + 1)
    }
}

/// The first impl from `j` on that cannot stand beside the one at `i`.
pub open spec fn first_rival(
    names: ResolvedNames,
    s: Seq<CollectedImplV>,
    i: int,
    j: int,
) -> Option<int>
    decreases s.len() - j,
{
    if i < 0 || i >= s.len() || j < 0 || j >= s.len() {
        None
    } else if rivals(names, s[i], s[j]) {
        Some(j)
    } else {
        first_rival(names, s, i, j + 1)
    }
}

/// The first pair of impls that cannot stand in one program whose earlier one is at `i` or later.
pub open spec fn first_conflict(names: ResolvedNames, s: Seq<CollectedImplV>, i: int) -> Option<
    (int, int),
>
    decreases s.len() - i,
{
    if i < 0 || i >= s.len() {
        None
    } else {
        match first_rival(names, s, i, i + 1) {
            Some(j) => Some((i, j)),
            None => first_conflict(names, s, i + 1),
        }
    }
}

/// What is wrong with the impls of a program: a destructor of a record before an orphan, and an
/// orphan before a pair that cannot stand together.
pub open spec fn incoherence(names: ResolvedNames, s: Seq<CollectedImplV>) -> Option<MetelErrorV> {
    match first_barred(names, s, 0) {
        Some(i) => Some(barred_error(s[i])),
        None => match first_orphan(names, s, 0) {
            Some(i) => Some(orphan_error(s[i])),
            None => match first_conflict(names, s, 0) {
                Some((i, j)) => Some(
                    if conflicting(s[i], s[j]) {
                        conflict_error(s[i], s[j])
                    } else {
                        exclusion_error(s[i], s[j])
                    },
                ),
                None => None,
            },
        },
    }
}

impl CanonicalType {
    /// Whether two canonical types are the same.
    pub fn same(&self, other: &Self) -> (r: bool)
        ensures
            r == (self@ == other@),
        decreases *self,
    {
        match (self, other) {
            (CanonicalType::Resolved(a, s), CanonicalType::Resolved(b, t)) => *a == *b
                && same_canonicals(s, t),
            (CanonicalType::Unresolved(a, s), CanonicalType::Unresolved(b, t)) => *a == *b
                && same_canonicals(s, t),
            (CanonicalType::Unit, CanonicalType::Unit) => true,
            (CanonicalType::Tuple(s), CanonicalType::Tuple(t)) => same_canonicals(s, t),
            (CanonicalType::Record(s), CanonicalType::Record(t)) => same_named_canonicals(s, t),
            (CanonicalType::Array(x), CanonicalType::Array(y)) => x.same(y),
            (CanonicalType::SizedArray(x, n), CanonicalType::SizedArray(y, k)) => *n == *k
                && x.same(y),
            (CanonicalType::Reference(x), CanonicalType::Reference(y)) => x.same(y),
            (CanonicalType::MutReference(x), CanonicalType::MutReference(y)) => x.same(y),
            (CanonicalType::Fun(s, x), CanonicalType::Fun(t, y)) => {
                let rets: bool = match (x, y) {
                    (Some(x), Some(y)) => x.same(y),
                    (None, None) => true,
                    _ => false,
                };
                rets && same_canonicals(s, t)
            },
            (CanonicalType::Opaque, CanonicalType::Opaque) => true,
            (CanonicalType::TypeParam(i), CanonicalType::TypeParam(j)) => *i == *j,
            _ => false,
        }
    }
}

fn same_canonicals(a: &Vec<CanonicalType>, b: &Vec<CanonicalType>) -> (r: bool)
    ensures
        r == (canonicals_view(a@) == canonicals_view(b@)),
    decreases a@,
{
    if a.len() != b.len() {
        assert(canonicals_view(a@).len() != canonicals_view(b@).len());
        return false;
    }
    let mut i: usize = 0;
    while i < a.len()
        invariant
            i <= a@.len(),
            a@.len() == b@.len(),
            forall|k: int|
                0 <= k < i ==> canonical_view(#[trigger] a@[k]) == canonical_view(b@[k]),
        decreases a@.len() - i,
    {
        if !a[i].same(&b[i]) {
            assert(canonicals_view(a@)[i as int] != canonicals_view(b@)[i as int]);
            return false;
        }
        i += 1;
    }
    assert(canonicals_view(a@) =~= canonicals_view(b@));
    true
}

fn same_named_canonicals(
    a: &Vec<(String, CanonicalType)>,
    b: &Vec<(String, CanonicalType)>,
) -> (r: bool)
    ensures
        r == (named_canonicals_view(a@) == named_canonicals_view(b@)),
    decreases a@,
{
    if a.len() != b.len() {
        assert(named_canonicals_view(a@).len() != named_canonicals_view(b@).len());
        return false;
    }
    let mut i: usize = 0;
    while i < a.len()
        invariant
            i <= a@.len(),
            a@.len() == b@.len(),
            forall|k: int|
                0 <= k < i ==> (#[trigger] a@[k]).0@ == b@[k].0@ && canonical_view(a@[k].1)
                    == canonical_view(b@[k].1),
        decreases a@.len() - i,
    {
        if !(a[i].0 == b[i].0) || !a[i].1.same(&b[i].1) {
            assert(named_canonicals_view(a@)[i as int] != named_canonicals_view(b@)[i as int]);
            return false;
        }
        i += 1;
    }
    assert(named_canonicals_view(a@) =~= named_canonicals_view(b@));
    true
}

/// A type with its names resolved from the standpoint of a module.
pub fn canonicalize(names: &ResolvedNames, module: &Vec<String>, ty: &TypeExpr) -> (r:
    CanonicalType)
    ensures
        r@ == canonical(*names, texts(module@), ty@),
    decreases *ty,
{
    match ty {
        TypeExpr::Named(name, args) => {
            let s: Vec<CanonicalType> = canonicalize_all(names, module, args);
            match names.resolve_id(module, name.as_str()) {
                Some(id) => CanonicalType::Resolved(id, s),
                None => CanonicalType::Unresolved(name.clone(), s),
            }
        },
        TypeExpr::Unit => CanonicalType::Unit,
        TypeExpr::Tuple(s) => CanonicalType::Tuple(canonicalize_all(names, module, s)),
        TypeExpr::Record(s) => CanonicalType::Record(canonicalize_fields(names, module, s)),
        TypeExpr::Array(x) => CanonicalType::Array(Box::new(canonicalize(names, module, x))),
        TypeExpr::SizedArray(x, n) => CanonicalType::SizedArray(
            Box::new(canonicalize(names, module, x)),
            *n,
        ),
        TypeExpr::Reference(x) => CanonicalType::Reference(
            Box::new(canonicalize(names, module, x)),
        ),
        TypeExpr::MutReference(x) => CanonicalType::MutReference(
            Box::new(canonicalize(names, module, x)),
        ),
        TypeExpr::Fun(s, x) => {
            let ret: Option<Box<CanonicalType>> = match x {
                Some(x) => Some(Box::new(canonicalize(names, module, x))),
                None => None,
            };
            CanonicalType::Fun(canonicalize_all(names, module, s), ret)
        },
        TypeExpr::ImplAspect { .. } => CanonicalType::Opaque,
        TypeExpr::DynAspect { .. } => CanonicalType::Opaque,
        TypeExpr::Projection { .. } => CanonicalType::Opaque,
        TypeExpr::RecordProjection { .. } => CanonicalType::Opaque,
    }
}

fn canonicalize_all(names: &ResolvedNames, module: &Vec<String>, v: &Vec<TypeExpr>) -> (r: Vec<
    CanonicalType,
>)
    ensures
        canonicals_view(r@) == all_canonical(*names, texts(module@), type_exprs_view(v@)),
    decreases v@,
{
    let ghost views = type_exprs_view(v@);
    assert(views.len() == v@.len());
    let mut out: Vec<CanonicalType> = Vec::new();
    let mut i: usize = 0;
    while i < v.len()
        invariant
            i <= v@.len(),
            views == type_exprs_view(v@),
            views.len() == v@.len(),
            out@.len() == i,
            forall|k: int|
                0 <= k < i ==> canonical_view(#[trigger] out@[k]) == canonical(
                    *names,
                    texts(module@),
                    views[k],
                ),
        decreases v@.len() - i,
    {
        assert(views[i as int] == type_expr_view(v@[i as int]));
        out.push(canonicalize(names, module, &v[i]));
        i += 1;
    }
    assert(canonicals_view(out@) =~= all_canonical(*names, texts(module@), views));
    out
}

fn canonicalize_fields(
    names: &ResolvedNames,
    module: &Vec<String>,
    v: &Vec<(String, TypeExpr)>,
) -> (r: Vec<(String, CanonicalType)>)
    ensures
        named_canonicals_view(r@) == fields_canonical(
            *names,
            texts(module@),
            named_type_exprs_view(v@),
        ),
    decreases v@,
{
    let ghost views = named_type_exprs_view(v@);
    assert(views.len() == v@.len());
    let mut out: Vec<(String, CanonicalType)> = Vec::new();
    let mut i: usize = 0;
    while i < v.len()
        invariant
            i <= v@.len(),
            views == named_type_exprs_view(v@),
            views.len() == v@.len(),
            out@.len() == i,
            forall|k: int|
                0 <= k < i ==> (#[trigger] out@[k]).0@ == views[k].0 && canonical_view(out@[k].1)
                    == canonical(*names, texts(module@), views[k].1),
        decreases v@.len() - i,
    {
        assert(views[i as int] == (v@[i as int].0@, type_expr_view(v@[i as int].1)));
        out.push((v[i].0.clone(), canonicalize(names, module, &v[i].1)));
        i += 1;
    }
    assert(named_canonicals_view(out@) =~= fields_canonical(*names, texts(module@), views));
    out
}

fn has_param(generics: &Vec<GenericParam>, name: &str) -> (r: bool)
    ensures
        r == names_param(generics@, name@),
{
    let mut i: usize = 0;
    while i < generics.len()
        invariant
            i <= generics@.len(),
            forall|k: int| 0 <= k < i ==> (#[trigger] generics@[k]).name@ != name@,
        decreases generics@.len() - i,
    {
        if same_text(generics[i].name.as_str(), name) {
            return true;
        }
        i += 1;
    }
    false
}

/// The target of an impl, in which a type parameter is told by its position.
pub fn canonicalize_impl_target(names: &ResolvedNames, module: &Vec<String>, ib: &ImplBlock) -> (r:
    CanonicalType)
    ensures
        r@ == canonical_target(*names, texts(module@), *ib),
{
    match &ib.target_type {
        TypeExpr::Named(name, args) => {
            if args.len() == 0 {
                return canonicalize(names, module, &ib.target_type);
            }
            let ghost whole = target_args(*names, texts(module@), ib.generics@, args@);
            let mut out: Vec<CanonicalType> = Vec::new();
            let mut i: usize = 0;
            while i < args.len()
                invariant
                    i <= args@.len(),
                    whole == target_args(*names, texts(module@), ib.generics@, args@),
                    out@.len() == i,
                    forall|k: int|
                        0 <= k < i ==> canonical_view(#[trigger] out@[k]) == whole[k],
                decreases args@.len() - i,
            {
                let param: bool = match &args[i] {
                    TypeExpr::Named(n, inner) => inner.len() == 0 && has_param(
                        &ib.generics,
                        n.as_str(),
                    ),
                    _ => false,
                };
                if param {
                    out.push(CanonicalType::TypeParam(i));
                } else {
                    out.push(canonicalize(names, module, &args[i]));
                }
                i += 1;
            }
            assert(canonicals_view(out@) =~= whole);
            match names.resolve_id(module, name.as_str()) {
                Some(id) => CanonicalType::Resolved(id, out),
                None => CanonicalType::Unresolved(name.clone(), out),
            }
        },
        _ => canonicalize(names, module, &ib.target_type),
    }
}

fn has_head(t: &TypeExpr, name: &str) -> (r: bool)
    ensures
        r == headed_by(*t, name@),
{
    match t {
        TypeExpr::Named(n, _) => same_text(n.as_str(), name),
        _ => false,
    }
}

fn add_aspects(out: &mut Vec<String>, bounds: &Vec<Bound>, polarity: Polarity)
    ensures
        texts(final(out)@) == texts(old(out)@) + aspects_of(
            bounds@,
            polarity,
            bounds@.len() as int,
        ),
{
    let ghost start = texts(out@);
    assert(start + aspects_of(bounds@, polarity, 0) =~= start);
    let mut i: usize = 0;
    while i < bounds.len()
        invariant
            i <= bounds@.len(),
            texts(out@) == start + aspects_of(bounds@, polarity, i as int),
        decreases bounds@.len() - i,
    {
        let ghost before = out@;
        if let TypeExpr::Named(aspect, _) = &bounds[i].aspect {
            if bounds[i].polarity == polarity {
                out.push(aspect.clone());
                assert(texts(out@) =~= texts(before).push(aspect@));
                assert(start + aspects_of(bounds@, polarity, i + 1) =~= (start + aspects_of(
                    bounds@,
                    polarity,
                    i as int,
                )).push(aspect@));
            }
        }
        i += 1;
    }
}

fn bounds_at(ib: &ImplBlock, args: &Vec<TypeExpr>, p: usize, polarity: Polarity) -> (r: Vec<String>)
    requires
        p < args@.len(),
    ensures
        texts(r@) == asked_at(*ib, args@, p as int, polarity),
{
    let mut out: Vec<String> = Vec::new();
    assert(texts(out@) =~= Seq::empty());
    let generics: &Vec<GenericParam> = &ib.generics;
    let mut i: usize = 0;
    while i < generics.len()
        invariant
            i <= generics@.len(),
            p < args@.len(),
            texts(out@) == asked_inline(generics@, args@, p as int, polarity, i as int),
        decreases generics@.len() - i,
    {
        if has_head(&args[p], generics[i].name.as_str()) {
            add_aspects(&mut out, &generics[i].bounds, polarity);
        }
        i += 1;
    }
    let ghost first = texts(out@);
    assert(first + Seq::<Seq<char>>::empty() =~= first);
    if let Some(w) = &ib.where_clause {
        let mut j: usize = 0;
        while j < w.constraints.len()
            invariant
                j <= w.constraints@.len(),
                p < args@.len(),
                *generics == ib.generics,
                texts(out@) == first + asked_where(
                    generics@,
                    w.constraints@,
                    args@,
                    p as int,
                    polarity,
                    j as int,
                ),
            decreases w.constraints@.len() - j,
        {
            let ghost before = asked_where(
                generics@,
                w.constraints@,
                args@,
                p as int,
                polarity,
                j as int,
            );
            let c: &WhereConstraint = &w.constraints[j];
            if has_param(generics, c.name.as_str()) && has_head(&args[p], c.name.as_str()) {
                add_aspects(&mut out, &c.bounds, polarity);
                let ghost added = aspects_of(c.bounds@, polarity, c.bounds@.len() as int);
                assert((first + before) + added =~= first + (before + added));
            }
            j += 1;
        }
    }
    out
}

/// The bounds that an impl puts on the type arguments of its target, by position.
pub fn scoped_type_param_bounds(ib: &ImplBlock) -> (r: ScopedBounds)
    ensures
        r@ == scoped_bounds(*ib),
{
    let mut positive: Vec<Vec<String>> = Vec::new();
    let mut negative: Vec<Vec<String>> = Vec::new();
    if let TypeExpr::Named(_, args) = &ib.target_type {
        let mut p: usize = 0;
        while p < args.len()
            invariant
                p <= args@.len(),
                positive@.len() == p,
                negative@.len() == p,
                forall|k: int|
                    0 <= k < p ==> texts((#[trigger] positive@[k])@) == asked_at(
                        *ib,
                        args@,
                        k,
                        Polarity::Positive,
                    ),
                forall|k: int|
                    0 <= k < p ==> texts((#[trigger] negative@[k])@) == asked_at(
                        *ib,
                        args@,
                        k,
                        Polarity::Negative,
                    ),
            decreases args@.len() - p,
        {
            positive.push(bounds_at(ib, args, p, Polarity::Positive));
            negative.push(bounds_at(ib, args, p, Polarity::Negative));
            p += 1;
        }
    }
    assert(text_lists(positive@) =~= scoped_bounds(*ib).positive);
    assert(text_lists(negative@) =~= scoped_bounds(*ib).negative);
    ScopedBounds { positive, negative }
}

fn lists_meet(a: &Vec<Vec<String>>, b: &Vec<Vec<String>>, i: usize) -> (r: bool)
    ensures
        r == meets(names_at(text_lists(a@), i as int), names_at(text_lists(b@), i as int)),
{
    let ghost x = names_at(text_lists(a@), i as int);
    let ghost y = names_at(text_lists(b@), i as int);
    if i >= a.len() || i >= b.len() {
        return false;
    }
    assert(x == texts(a@[i as int]@));
    assert(y == texts(b@[i as int]@));
    let left: &Vec<String> = &a[i];
    let mut k: usize = 0;
    while k < left.len()
        invariant
            k <= left@.len(),
            i < b@.len(),
            x == names_at(text_lists(a@), i as int),
            y == names_at(text_lists(b@), i as int),
            x == texts(left@),
            y == texts(b@[i as int]@),
            forall|j: int| 0 <= j < k ==> !y.contains(#[trigger] x[j]),
        decreases left@.len() - k,
    {
        assert(x[k as int] == left@[k as int]@);
        if crate::text::has_text(&b[i], left[k].as_str()) {
            return true;
        }
        k += 1;
    }
    false
}

/// Whether no type can meet the bounds of both impls.
pub fn provably_disjoint(a: &ScopedBounds, b: &ScopedBounds) -> (r: bool)
    ensures
        r == disjoint(a@, b@),
{
    let mut n: usize = a.positive.len();
    if b.positive.len() > n {
        n = b.positive.len();
    }
    let mut i: usize = 0;
    while i < n
        invariant
            i <= n,
            n >= a.positive@.len(),
            n >= b.positive@.len(),
            forall|j: int| 0 <= j < i ==> !(#[trigger] disjoint_at(a@, b@, j)),
        decreases n - i,
    {
        if lists_meet(&a.positive, &b.negative, i) || lists_meet(&b.positive, &a.negative, i) {
            assert(disjoint_at(a@, b@, i as int));
            return true;
        }
        assert(!disjoint_at(a@, b@, i as int));
        i += 1;
    }
    assert forall|j: int| !(#[trigger] disjoint_at(a@, b@, j)) by {
        if j < 0 || j >= n {
            assert(names_at(a@.positive, j).len() == 0);
            assert(names_at(b@.positive, j).len() == 0);
        }
    }
    false
}

fn collect_impl<'a>(names: &ResolvedNames, module: &'a Vec<String>, d: &'a Decl) -> (r: Option<
    CollectedImpl<'a>,
>)
    ensures
        match r {
            Some(x) => collected(*names, texts(module@), *d) == Some(x@),
            None => collected(*names, texts(module@), *d) is None,
        },
{
    let ib: &'a ImplBlock = match d {
        Decl::Impl(ib) => ib,
        _ => {
            return None;
        },
    };
    let aspect_name: &'a String = match &ib.aspect_name {
        Some(a) => a,
        None => {
            return None;
        },
    };
    let aspect_id: Option<SymbolId> = names.resolve_id(module, aspect_name.as_str());
    let head: Option<SymbolId> = match &ib.target_type {
        TypeExpr::Named(name, _) => names.resolve_id(module, name.as_str()),
        _ => None,
    };
    let target_local: bool = names.is_local(head, module);
    let args: Vec<CanonicalType> = canonicalize_all(names, module, &ib.aspect_type_args);
    let target: CanonicalType = canonicalize_impl_target(names, module, ib);
    let bounds: ScopedBounds = scoped_type_param_bounds(ib);
    Some(
        CollectedImpl {
            module,
            polarity: ib.polarity,
            aspect_name,
            aspect_id,
            target_local,
            args,
            target,
            bounds,
            span: &ib.span,
        },
    )
}

fn collect_impls<'a>(graph: &'a NormalizedModuleGraph, names: &ResolvedNames) -> (r: Vec<
    CollectedImpl<'a>,
>)
    ensures
        impls_view(r@) == all_impls(*names, graph.modules@, graph.modules@.len() as int),
{
    let mut out: Vec<CollectedImpl<'a>> = Vec::new();
    assert(impls_view(out@) =~= Seq::empty());
    let mut i: usize = 0;
    while i < graph.modules.len()
        invariant
            i <= graph.modules@.len(),
            impls_view(out@) == all_impls(*names, graph.modules@, i as int),
        decreases graph.modules@.len() - i,
    {
        let m: &'a NormalizedModule = &graph.modules[i];
        let ghost start = impls_view(out@);
        let ghost path = texts(m.path@);
        assert(start + module_impls(*names, path, m.program.decls@, 0) =~= start);
        let mut j: usize = 0;
        while j < m.program.decls.len()
            invariant
                j <= m.program.decls@.len(),
                path == texts(m.path@),
                impls_view(out@) == start + module_impls(
                    *names,
                    path,
                    m.program.decls@,
                    j as int,
                ),
            decreases m.program.decls@.len() - j,
        {
            let ghost before = out@;
            let ghost listed = module_impls(*names, path, m.program.decls@, j as int);
            if let Some(x) = collect_impl(names, &m.path, &m.program.decls[j]) {
                let ghost v = x@;
                out.push(x);
                assert(impls_view(out@) =~= impls_view(before).push(v));
                assert((start + listed).push(v) =~= start + listed.push(v));
            }
            j += 1;
        }
        i += 1;
    }
    out
}

fn provides_core(names: &ResolvedNames, x: &CollectedImpl, aspect: &str) -> (r: bool)
    ensures
        r == provides(*names, x@, aspect@),
{
    if x.polarity != Polarity::Positive {
        return false;
    }
    let mut home: Vec<String> = Vec::new();
    home.push("std".to_owned());
    home.push("core".to_owned());
    assert(texts(home@) =~= seq!["std"@, "core"@]);
    match (x.aspect_id, names.symbol(&home, aspect)) {
        (Some(a), Some(b)) => a == b,
        _ => false,
    }
}

fn find_barred(names: &ResolvedNames, s: &Vec<CollectedImpl>) -> (r: Option<usize>)
    ensures
        match r {
            Some(i) => i < s@.len() && first_barred(*names, impls_view(s@), 0) == Some(i as int),
            None => first_barred(*names, impls_view(s@), 0) is None,
        },
{
    let ghost views = impls_view(s@);
    let mut i: usize = 0;
    while i < s.len()
        invariant
            i <= s@.len(),
            views == impls_view(s@),
            first_barred(*names, views, 0) == first_barred(*names, views, i as int),
        decreases s@.len() - i,
    {
        assert(views[i as int] == s@[i as int]@);
        let x: &CollectedImpl = &s[i];
        if provides_core(names, x, "Drop") && matches!(x.target, CanonicalType::Record(_)) {
            return Some(i);
        }
        i += 1;
    }
    None
}

fn find_orphan(names: &ResolvedNames, s: &Vec<CollectedImpl>) -> (r: Option<usize>)
    ensures
        match r {
            Some(i) => i < s@.len() && first_orphan(*names, impls_view(s@), 0) == Some(i as int),
            None => first_orphan(*names, impls_view(s@), 0) is None,
        },
{
    let ghost views = impls_view(s@);
    let mut i: usize = 0;
    while i < s.len()
        invariant
            i <= s@.len(),
            views == impls_view(s@),
            first_orphan(*names, views, 0) == first_orphan(*names, views, i as int),
        decreases s@.len() - i,
    {
        assert(views[i as int] == s@[i as int]@);
        let x: &CollectedImpl = &s[i];
        if x.aspect_id.is_some() && !names.is_local(x.aspect_id, x.module) && !x.target_local {
            return Some(i);
        }
        i += 1;
    }
    None
}

fn conflict(a: &CollectedImpl, b: &CollectedImpl) -> (r: bool)
    ensures
        r == conflicting(a@, b@),
{
    let same_aspect: bool = match (a.aspect_id, b.aspect_id) {
        (Some(x), Some(y)) => x == y,
        _ => false,
    };
    same_aspect && same_canonicals(&a.args, &b.args) && a.target.same(&b.target)
        && !provably_disjoint(&a.bounds, &b.bounds)
}

fn exclude(names: &ResolvedNames, a: &CollectedImpl, b: &CollectedImpl) -> (r: bool)
    ensures
        r == excluding(*names, a@, b@),
{
    let aspects: bool = (provides_core(names, a, "Copy") && provides_core(names, b, "Drop")) || (
    provides_core(names, a, "Drop") && provides_core(names, b, "Copy"));
    aspects && a.target.same(&b.target) && !provably_disjoint(&a.bounds, &b.bounds)
}

fn find_conflict(names: &ResolvedNames, s: &Vec<CollectedImpl>) -> (r: Option<(usize, usize)>)
    ensures
        match r {
            Some((i, j)) => i < s@.len() && j < s@.len() && first_conflict(
                *names,
                impls_view(s@),
                0,
            ) == Some((i as int, j as int)),
            None => first_conflict(*names, impls_view(s@), 0) is None,
        },
{
    let ghost views = impls_view(s@);
    let mut i: usize = 0;
    while i < s.len()
        invariant
            i <= s@.len(),
            views == impls_view(s@),
            first_conflict(*names, views, 0) == first_conflict(*names, views, i as int),
        decreases s@.len() - i,
    {
        assert(views[i as int] == s@[i as int]@);
        let mut j: usize = i + 1;
        while j < s.len()
            invariant
                i < s@.len(),
                i < j <= s@.len(),
                views == impls_view(s@),
                first_conflict(*names, views, 0) == first_conflict(*names, views, i as int),
                first_rival(*names, views, i as int, i + 1) == first_rival(
                    *names,
                    views,
                    i as int,
                    j as int,
                ),
            decreases s@.len() - j,
        {
            assert(views[i as int] == s@[i as int]@);
            assert(views[j as int] == s@[j as int]@);
            if conflict(&s[i], &s[j]) || exclude(names, &s[i], &s[j]) {
                return Some((i, j));
            }
            j += 1;
        }
        i += 1;
    }
    None
}

/// Check that no anonymous record has a destructor, the orphan rule, and that no two impls
/// conflict or exclude each other.
///
/// # Errors
/// The first destructor of an anonymous record, or else the first impl that breaks the orphan
/// rule, or else the first one that cannot stand beside an earlier one.
pub fn check(graph: &NormalizedModuleGraph, names: &ResolvedNames) -> (r: Result<(), MetelError>)
    ensures
        match incoherence(
            *names,
            all_impls(*names, graph.modules@, graph.modules@.len() as int),
        ) {
            Some(e) => r matches Err(x) && x@ == e,
            None => r is Ok,
        },
{
    let impls: Vec<CollectedImpl> = collect_impls(graph, names);
    let ghost views = impls_view(impls@);
    if let Some(i) = find_barred(names, &impls) {
        assert(views[i as int] == impls@[i as int]@);
        return Err(
            MetelError::type_error(
                TypeErrorCode::T0001,
                "anonymous records cannot implement `Drop`".to_owned(),
                impls[i].span,
            ),
        );
    }
    if let Some(i) = find_orphan(names, &impls) {
        assert(views[i as int] == impls@[i as int]@);
        return Err(
            MetelError::type_error(
                TypeErrorCode::T0014,
                joined3(
                    "orphan implementation: neither `",
                    impls[i].aspect_name.as_str(),
                    "` nor the target type is local to this module",
                ),
                impls[i].span,
            ),
        );
    }
    if let Some((i, j)) = find_conflict(names, &impls) {
        assert(views[i as int] == impls@[i as int]@);
        assert(views[j as int] == impls@[j as int]@);
        let a: &CollectedImpl = &impls[i];
        let mut message: String = "conflicting implementation: `".to_owned();
        if conflict(a, &impls[j]) {
            message.append(a.aspect_name.as_str());
            message.append("` is already implemented for this type at ");
        } else {
            message.append(impls[j].aspect_name.as_str());
            message.append("` excludes `");
            message.append(a.aspect_name.as_str());
            message.append("`, which is implemented for this type at ");
        }
        message.append(a.span.filename.as_str());
        message.append(":");
        message.append(decimal_text(a.span.line as u64).as_str());
        message.append(":");
        message.append(decimal_text(a.span.col as u64).as_str());
        return Err(MetelError::type_error(TypeErrorCode::T0015, message, impls[j].span));
    }
    Ok(())
}

proof fn lemma_no_orphan(names: ResolvedNames, s: Seq<CollectedImplV>, i: int)
    requires
        0 <= i,
        first_orphan(names, s, i) is None,
    ensures
        forall|k: int| i <= k < s.len() ==> !orphan(names, #[trigger] s[k]),
    decreases s.len() - i,
{
    if i < s.len() {
        lemma_no_orphan(names, s, i + 1);
    }
}

proof fn lemma_none_barred(names: ResolvedNames, s: Seq<CollectedImplV>, i: int)
    requires
        0 <= i,
        first_barred(names, s, i) is None,
    ensures
        forall|k: int| i <= k < s.len() ==> !barred(names, #[trigger] s[k]),
    decreases s.len() - i,
{
    if i < s.len() {
        lemma_none_barred(names, s, i + 1);
    }
}

proof fn lemma_no_rival(names: ResolvedNames, s: Seq<CollectedImplV>, i: int, j: int)
    requires
        0 <= i < s.len(),
        0 <= j,
        first_rival(names, s, i, j) is None,
    ensures
        forall|k: int| j <= k < s.len() ==> !rivals(names, s[i], #[trigger] s[k]),
    decreases s.len() - j,
{
    if j < s.len() {
        lemma_no_rival(names, s, i, j + 1);
    }
}

proof fn lemma_no_conflict(names: ResolvedNames, s: Seq<CollectedImplV>, i: int)
    requires
        0 <= i,
        first_conflict(names, s, i) is None,
    ensures
        forall|a: int, b: int|
            i <= a < b < s.len() ==> !rivals(names, #[trigger] s[a], #[trigger] s[b]),
    decreases s.len() - i,
{
    if i < s.len() {
        lemma_no_rival(names, s, i, i + 1);
        lemma_no_conflict(names, s, i + 1);
    }
}

/// In a program that passes, no type is both copied and with a destructor by impls without bounds
/// that exclude each other, and no anonymous record has a destructor.
pub proof fn law_copy_and_drop_exclude_each_other(
    names: ResolvedNames,
    s: Seq<CollectedImplV>,
    a: int,
    b: int,
)
    requires
        incoherence(names, s) is None,
        0 <= a < s.len(),
        0 <= b < s.len(),
        provides(names, s[a], "Copy"@),
        provides(names, s[b], "Drop"@),
        a != b,
    ensures
        s[a].target != s[b].target || disjoint(s[a].bounds, s[b].bounds),
        !(s[b].target is Record),
{
    lemma_none_barred(names, s, 0);
    lemma_no_conflict(names, s, 0);
    law_disjointness_is_symmetric(s[a].bounds, s[b].bounds);
    if a < b {
        assert(!rivals(names, s[a], s[b]));
    } else {
        assert(!rivals(names, s[b], s[a]));
    }
}

/// In a program that passes, every impl stands with its aspect or its target, and no two impls
/// conflict.
pub proof fn law_coherent_programs_have_one_impl_each(names: ResolvedNames, s: Seq<CollectedImplV>)
    requires
        incoherence(names, s) is None,
    ensures
        forall|k: int| 0 <= k < s.len() ==> !orphan(names, #[trigger] s[k]),
        forall|a: int, b: int|
            0 <= a < b < s.len() ==> !conflicting(#[trigger] s[a], #[trigger] s[b]),
{
    lemma_no_orphan(names, s, 0);
    lemma_no_conflict(names, s, 0);
    assert forall|a: int, b: int| 0 <= a < b < s.len() implies !conflicting(
        #[trigger] s[a],
        #[trigger] s[b],
    ) by {
        assert(!rivals(names, s[a], s[b]));
    }
}

/// Whether the bounds of two impls exclude each other does not depend on which comes first.
pub proof fn law_disjointness_is_symmetric(a: ScopedBoundsV, b: ScopedBoundsV)
    ensures
        disjoint(a, b) == disjoint(b, a),
{
    if disjoint(a, b) {
        let i = choose|i: int| #[trigger] disjoint_at(a, b, i);
        assert(disjoint_at(b, a, i));
    }
    if disjoint(b, a) {
        let i = choose|i: int| #[trigger] disjoint_at(b, a, i);
        assert(disjoint_at(a, b, i));
    }
}

/// An impl without bounds excludes no other: an unconditional impl conflicts with a conditional
/// one.
pub proof fn law_an_unconditional_impl_excludes_nothing(a: ScopedBoundsV, b: ScopedBoundsV)
    requires
        forall|i: int| (#[trigger] names_at(a.positive, i)).len() == 0,
        forall|i: int| (#[trigger] names_at(a.negative, i)).len() == 0,
    ensures
        !disjoint(a, b),
{
    assert forall|i: int| !(#[trigger] disjoint_at(a, b, i)) by {
        assert(names_at(a.positive, i).len() == 0);
        assert(names_at(a.negative, i).len() == 0);
    }
}

/// Asking for an aspect and denying it at one position exclude each other.
pub proof fn law_an_aspect_and_its_denial_exclude_each_other(
    a: ScopedBoundsV,
    b: ScopedBoundsV,
    i: int,
    aspect: Seq<char>,
)
    requires
        names_at(a.positive, i).contains(aspect),
        names_at(b.negative, i).contains(aspect),
    ensures
        disjoint(a, b),
{
    let x = names_at(a.positive, i);
    let k = choose|k: int| 0 <= k < x.len() && x[k] == aspect;
    assert(names_at(b.negative, i).contains(x[k]));
    assert(meets(x, names_at(b.negative, i)));
    assert(disjoint_at(a, b, i));
}

/// The letters of an impl's type parameters do not matter: a type argument that is a parameter is
/// told by its position alone.
pub proof fn law_letters_do_not_matter(
    names: ResolvedNames,
    module: Seq<Seq<char>>,
    g1: Seq<GenericParam>,
    a1: Seq<TypeExpr>,
    g2: Seq<GenericParam>,
    a2: Seq<TypeExpr>,
)
    requires
        a1.len() == a2.len(),
        forall|i: int| 0 <= i < a1.len() ==> is_param(g1, #[trigger] a1[i]),
        forall|i: int| 0 <= i < a2.len() ==> is_param(g2, #[trigger] a2[i]),
    ensures
        target_args(names, module, g1, a1) == target_args(names, module, g2, a2),
{
    assert(target_args(names, module, g1, a1) =~= target_args(names, module, g2, a2));
}

} // verus!
