//! Places: the syntactic locations a program can name.
//!
//! A place is a binding root plus a path of projections: `x`, `x.f`, `x.f.g`, `*p`, or "reached
//! through a dynamic index". The module carries no state of any analysis and makes no assumption
//! of one. That a move out of an [`Projection::OpaqueIndex`] element is rejected, say, is a fact
//! about moves; this module only says that such a place exists and how it relates to its prefixes.
use vstd::prelude::*;
use vstd::string::StringExecFns;
use crate::ast::UnaryOp;
use crate::text::{decimal, decimal_text, joined3};
use crate::typed_ast::{TypedExpr, TypedPlace};

verus! {

/// One step of a path from a binding root to a sub-location.
#[derive(Debug, PartialEq, Eq, PartialOrd, Ord, Hash)]
pub enum Projection {
    /// A named field: `.f`.
    Field(String),
    /// A tuple element: `.0`.
    TupleIndex(usize),
    /// An element reached through a dynamic index: `[i]`. Which element is not known statically, so
    /// two `OpaqueIndex` steps into the same sequence are the same place.
    OpaqueIndex,
    /// The pointee of a reference: `*p`.
    Deref,
}

/// The value of a [`Projection`] as a mathematical object.
pub ghost enum ProjectionV {
    Field(Seq<char>),
    TupleIndex(usize),
    OpaqueIndex,
    Deref,
}

/// A binding root plus the path of projections that reaches a sub-location of it.
#[derive(Debug, PartialEq, Eq, PartialOrd, Ord, Hash)]
pub struct Place {
    pub root: String,
    pub projections: Vec<Projection>,
}

/// The value of a [`Place`] as a mathematical object.
pub ghost struct PlaceV {
    pub root: Seq<char>,
    pub projections: Seq<ProjectionV>,
}

/// The view of a [`Projection`].
pub open spec fn projection_view(t: Projection) -> ProjectionV
    decreases t,
{
    match t {
        Projection::Field(f0) => ProjectionV::Field(f0@),
        Projection::TupleIndex(f0) => ProjectionV::TupleIndex(f0),
        Projection::OpaqueIndex => ProjectionV::OpaqueIndex,
        Projection::Deref => ProjectionV::Deref,
    }
}

/// The view of a [`Place`].
pub open spec fn place_view(t: Place) -> PlaceV
    decreases t,
{
    PlaceV {
        root: t.root@,
        projections: projections_view(t.projections@),
    }
}

/// The views of a sequence of [`Projection`] values.
pub open spec fn projections_view(s: Seq<Projection>) -> Seq<ProjectionV>
    decreases s,
{
    Seq::new(s.len(), |i: int| if 0 <= i < s.len() { projection_view(s[i]) } else { arbitrary() })
}

impl View for Projection {
    type V = ProjectionV;

    open spec fn view(&self) -> ProjectionV {
        projection_view(*self)
    }
}

impl Clone for Projection {
    fn clone(&self) -> (r: Self)
        ensures
            r@ == self@,
    {
        self.copy()
    }
}

impl Projection {
    /// A copy with the same view.
    pub fn copy(&self) -> (r: Self)
        ensures
            r@ == self@,
        decreases *self,
    {
        match self {
            Projection::Field(f0) => Projection::Field(f0.clone()),
            Projection::TupleIndex(f0) => Projection::TupleIndex(*f0),
            Projection::OpaqueIndex => Projection::OpaqueIndex,
            Projection::Deref => Projection::Deref,
        }
    }

    /// Whether two values have the same view.
    pub fn same(&self, other: &Self) -> (r: bool)
        ensures
            r == (self@ == other@),
        decreases *self,
    {
        match (self, other) {
            (Projection::Field(a0), Projection::Field(b0)) => *a0 == *b0,
            (Projection::TupleIndex(a0), Projection::TupleIndex(b0)) => *a0 == *b0,
            (Projection::OpaqueIndex, Projection::OpaqueIndex) => true,
            (Projection::Deref, Projection::Deref) => true,
            _ => false,
        }
    }
}

impl View for Place {
    type V = PlaceV;

    open spec fn view(&self) -> PlaceV {
        place_view(*self)
    }
}

impl Clone for Place {
    fn clone(&self) -> (r: Self)
        ensures
            r@ == self@,
    {
        self.copy()
    }
}

impl Place {
    /// A copy with the same view.
    pub fn copy(&self) -> (r: Self)
        ensures
            r@ == self@,
        decreases *self,
    {
        Place {
            root: self.root.clone(),
            projections: copy_projections(&self.projections),
        }
    }

    /// Whether two values have the same view.
    pub fn same(&self, other: &Self) -> (r: bool)
        ensures
            r == (self@ == other@),
        decreases *self,
    {
        self.root == other.root && same_projections(&self.projections, &other.projections)
    }
}

/// A copy of a list of [`Projection`] values.
pub fn copy_projections(v: &Vec<Projection>) -> (r: Vec<Projection>)
    ensures
        projections_view(r@) == projections_view(v@),
    decreases v@,
{
    let mut out: Vec<Projection> = Vec::new();
    let mut i: usize = 0;
    while i < v.len()
        invariant
            i <= v.len(),
            out@.len() == i,
            forall|k: int| 0 <= k < i ==> projection_view(#[trigger] out@[k]) == projection_view(v@[k]),
        decreases v.len() - i,
    {
        out.push(v[i].copy());
        i += 1;
    }
    assert(projections_view(out@) =~= projections_view(v@));
    out
}

/// Whether two lists of [`Projection`] values have the same views.
pub fn same_projections(a: &Vec<Projection>, b: &Vec<Projection>) -> (r: bool)
    ensures
        r == (projections_view(a@) == projections_view(b@)),
    decreases a@,
{
    if a.len() != b.len() {
        assert(projections_view(a@).len() != projections_view(b@).len());
        return false;
    }
    let mut i: usize = 0;
    while i < a.len()
        invariant
            i <= a.len(),
            a.len() == b.len(),
            forall|k: int| 0 <= k < i ==> projection_view(#[trigger] a@[k]) == projection_view(b@[k]),
        decreases a.len() - i,
    {
        if !a[i].same(&b[i]) {
            assert(projections_view(a@)[i as int] != projections_view(b@)[i as int]);
            return false;
        }
        i += 1;
    }
    assert(projections_view(a@) =~= projections_view(b@));
    true
}
/// Whether the place `a` is `b` itself or an ancestor of it.
pub open spec fn prefix(a: PlaceV, b: PlaceV) -> bool {
    a.root == b.root && a.projections.is_prefix_of(b.projections)
}

/// The place reached from `p` by one more step.
pub open spec fn projected(p: PlaceV, step: ProjectionV) -> PlaceV {
    PlaceV { root: p.root, projections: p.projections.push(step) }
}

/// The way a place is written: `x.f`, `xs[_]` for a dynamic index, `(*p).f` for a projection
/// through a reference.
pub open spec fn place_text(root: Seq<char>, steps: Seq<ProjectionV>) -> Seq<char>
    decreases steps.len(),
{
    if steps.len() == 0 {
        root
    } else {
        let base = place_text(root, steps.drop_last());
        match steps.last() {
            ProjectionV::Field(field) => base + "."@ + field,
            ProjectionV::TupleIndex(index) => base + "."@ + decimal(index as nat),
            ProjectionV::OpaqueIndex => base + "[_]"@,
            ProjectionV::Deref => "(*"@ + base + ")"@,
        }
    }
}

impl Place {
    /// The place of a binding itself.
    #[must_use]
    pub fn new(root: String) -> (r: Self)
        ensures
            r@ == (PlaceV { root: root@, projections: Seq::empty() }),
    {
        let r = Self { root, projections: Vec::new() };
        assert(projections_view(r.projections@) =~= Seq::empty());
        r
    }

    /// The place reached by one more step.
    #[must_use]
    pub fn with_projection(self, projection: Projection) -> (r: Self)
        ensures
            r@ == projected(self@, projection@),
    {
        let mut projections: Vec<Projection> = self.projections;
        projections.push(projection);
        assert(projections_view(projections@) =~= projections_view(self.projections@).push(
            projection@,
        ));
        Place { root: self.root, projections }
    }

    /// The name of the binding that the place starts from.
    #[must_use]
    pub fn root(&self) -> (r: &str)
        ensures
            r@ == self@.root,
    {
        self.root.as_str()
    }

    /// The steps from the binding to the place.
    #[must_use]
    pub fn projections(&self) -> (r: &[Projection])
        ensures
            projections_view(r@) == self@.projections,
    {
        self.projections.as_slice()
    }

    /// Whether this place is `other` itself or an ancestor of it, so that
    /// anything true of this place is true of `other`.
    #[must_use]
    pub fn is_prefix_of(&self, other: &Self) -> (r: bool)
        ensures
            r == prefix(self@, other@),
    {
        let ghost mine = self@.projections;
        let ghost theirs = other@.projections;
        assert(mine.len() == self.projections@.len());
        assert(theirs.len() == other.projections@.len());
        if !(self.root == other.root) || self.projections.len() > other.projections.len() {
            return false;
        }
        let mut i: usize = 0;
        while i < self.projections.len()
            invariant
                i <= self.projections.len() <= other.projections.len(),
                mine == projections_view(self.projections@),
                theirs == projections_view(other.projections@),
                forall|k: int| 0 <= k < i ==> #[trigger] mine[k] == theirs[k],
            decreases self.projections.len() - i,
        {
            assert(mine[i as int] == self.projections@[i as int]@);
            assert(theirs[i as int] == other.projections@[i as int]@);
            if !self.projections[i].same(&other.projections[i]) {
                assert(theirs.take(mine.len() as int)[i as int] != mine[i as int]);
                return false;
            }
            i += 1;
        }
        assert(theirs.take(mine.len() as int) =~= mine);
        true
    }

    /// The place as it would be written in source.
    pub fn describe(&self) -> (r: String)
        ensures
            r@ == place_text(self@.root, self@.projections),
    {
        let ghost steps = self@.projections;
        let mut rendered: String = self.root.clone();
        let mut i: usize = 0;
        while i < self.projections.len()
            invariant
                i <= self.projections.len(),
                steps == projections_view(self.projections@),
                rendered@ == place_text(self.root@, steps.take(i as int)),
            decreases self.projections.len() - i,
        {
            let ghost after = steps.take(i + 1);
            assert(after.drop_last() =~= steps.take(i as int));
            assert(after.last() == self.projections@[i as int]@);
            match &self.projections[i] {
                Projection::Field(field) => {
                    rendered.append(".");
                    rendered.append(field.as_str());
                },
                Projection::TupleIndex(index) => {
                    let text: String = decimal_text(*index as u64);
                    rendered.append(".");
                    rendered.append(text.as_str());
                },
                Projection::OpaqueIndex => {
                    rendered.append("[_]");
                },
                Projection::Deref => {
                    rendered = joined3("(*", rendered.as_str(), ")");
                },
            }
            i += 1;
        }
        assert(steps.take(i as int) =~= steps);
        rendered
    }
}

/// The place an expression names, if it names one.
pub open spec fn expr_place(e: TypedExpr) -> Option<PlaceV>
    decreases e,
{
    match e {
        TypedExpr::Ident(name, _, _) => Some(
            PlaceV { root: name@, projections: Seq::empty() },
        ),
        TypedExpr::UnaryOp(op, object, _, _) => if op == UnaryOp::Deref {
            step_from(expr_place(*object), ProjectionV::Deref)
        } else {
            None
        },
        TypedExpr::FieldAccess { object, field, .. } => step_from(
            expr_place(*object),
            ProjectionV::Field(field@),
        ),
        TypedExpr::TupleAccess { object, index, .. } => step_from(
            expr_place(*object),
            ProjectionV::TupleIndex(index),
        ),
        TypedExpr::Index { object, .. } => step_from(
            expr_place(*object),
            ProjectionV::OpaqueIndex,
        ),
        _ => None,
    }
}

/// One step from a place, if there is one to start from.
pub open spec fn step_from(p: Option<PlaceV>, step: ProjectionV) -> Option<PlaceV> {
    match p {
        Some(base) => Some(projected(base, step)),
        None => None,
    }
}

/// The place an assignment target names.
pub open spec fn target_place(p: TypedPlace) -> Option<PlaceV>
    decreases p,
{
    match p {
        TypedPlace::Ident(name, _) => Some(PlaceV { root: name@, projections: Seq::empty() }),
        TypedPlace::Field { object, field, .. } => step_from(
            target_place(*object),
            ProjectionV::Field(field@),
        ),
        TypedPlace::Tuple { object, index, .. } => step_from(
            target_place(*object),
            ProjectionV::TupleIndex(index),
        ),
        TypedPlace::Index { object, .. } => step_from(
            target_place(*object),
            ProjectionV::OpaqueIndex,
        ),
        TypedPlace::Deref { object, .. } => step_from(expr_place(*object), ProjectionV::Deref),
    }
}

/// The view of an optional place.
pub open spec fn opt_place(p: Option<Place>) -> Option<PlaceV> {
    match p {
        Some(x) => Some(x@),
        None => None,
    }
}

fn step(base: Option<Place>, projection: Projection) -> (r: Option<Place>)
    ensures
        opt_place(r) == step_from(opt_place(base), projection@),
{
    match base {
        Some(place) => Some(place.with_projection(projection)),
        None => None,
    }
}

/// The place an expression names, if it names one.
///
/// Returns `None` for an expression that produces a fresh value rather than
/// naming an existing location (a call, a literal, an arithmetic result).
#[must_use]
pub fn from_expr(expr: &TypedExpr) -> (r: Option<Place>)
    ensures
        opt_place(r) == expr_place(*expr),
    decreases *expr,
{
    match expr {
        TypedExpr::Ident(name, _, _) => Some(Place::new(name.clone())),
        TypedExpr::UnaryOp(op, object, _, _) => {
            if *op == UnaryOp::Deref {
                step(from_expr(object), Projection::Deref)
            } else {
                None
            }
        },
        TypedExpr::FieldAccess { object, field, .. } => step(
            from_expr(object),
            Projection::Field(field.clone()),
        ),
        TypedExpr::TupleAccess { object, index, .. } => step(
            from_expr(object),
            Projection::TupleIndex(*index),
        ),
        TypedExpr::Index { object, .. } => step(from_expr(object), Projection::OpaqueIndex),
        _ => None,
    }
}

/// The place an assignment target names.
#[must_use]
pub fn from_typed_place(place: &TypedPlace) -> (r: Option<Place>)
    ensures
        opt_place(r) == target_place(*place),
    decreases *place,
{
    match place {
        TypedPlace::Ident(name, _) => Some(Place::new(name.clone())),
        TypedPlace::Field { object, field, .. } => step(
            from_typed_place(object),
            Projection::Field(field.clone()),
        ),
        TypedPlace::Tuple { object, index, .. } => step(
            from_typed_place(object),
            Projection::TupleIndex(*index),
        ),
        TypedPlace::Index { object, .. } => step(from_typed_place(object), Projection::OpaqueIndex),
        // A deref target holds the expression being dereferenced, not a
        // nested place, so this is where the two constructors meet.
        TypedPlace::Deref { object, .. } => step(from_expr(object), Projection::Deref),
    }
}

/// Every place is a prefix of itself.
pub proof fn law_prefix_is_reflexive(p: PlaceV)
    ensures
        prefix(p, p),
{
    assert(p.projections.take(p.projections.len() as int) =~= p.projections);
}

/// A prefix of a prefix is a prefix.
pub proof fn law_prefix_is_transitive(a: PlaceV, b: PlaceV, c: PlaceV)
    requires
        prefix(a, b),
        prefix(b, c),
    ensures
        prefix(a, c),
{
    let n = a.projections.len() as int;
    assert(c.projections.take(n) =~= c.projections.take(b.projections.len() as int).take(n));
}

/// Two places that are prefixes of each other are the same place.
pub proof fn law_prefix_is_antisymmetric(a: PlaceV, b: PlaceV)
    requires
        prefix(a, b),
        prefix(b, a),
    ensures
        a == b,
{
    assert(b.projections.take(a.projections.len() as int) =~= b.projections);
}

/// A step leads to a place below the one it starts from, and never back to it.
pub proof fn law_projecting_descends(p: PlaceV, step: ProjectionV)
    ensures
        prefix(p, projected(p, step)),
        !prefix(projected(p, step), p),
        projected(p, step) != p,
{
    assert(projected(p, step).projections.take(p.projections.len() as int) =~= p.projections);
    assert(projected(p, step).projections.len() == p.projections.len() + 1);
}

/// Two different steps from one place lead to places of which neither is a prefix of the other.
pub proof fn law_siblings_are_apart(p: PlaceV, a: ProjectionV, b: ProjectionV)
    requires
        a != b,
    ensures
        !prefix(projected(p, a), projected(p, b)),
{
    let n = p.projections.len() as int;
    let l = projected(p, a).projections;
    let r = projected(p, b).projections;
    assert(l[n] == a && r[n] == b);
    assert(r.take(n + 1)[n] == b);
}

/// The places above a place form a chain: of two of them, one is a prefix of the other.
pub proof fn law_ancestors_are_comparable(a: PlaceV, b: PlaceV, c: PlaceV)
    requires
        prefix(a, c),
        prefix(b, c),
    ensures
        prefix(a, b) || prefix(b, a),
{
    if a.projections.len() <= b.projections.len() {
        assert(b.projections.take(a.projections.len() as int) =~= a.projections);
    } else {
        assert(a.projections.take(b.projections.len() as int) =~= b.projections);
    }
}


} // verus!
