//! Types with inference variables, and substitutions for the variables.
use vstd::prelude::*;
use crate::types::{type_view, types_view, named_types_view, Type, TypeV};

verus! {

/// An inference variable, identified by its number.
#[derive(Debug, Clone, Copy, PartialEq, Eq, Structural)]
pub struct TypeVar(pub u32);

/// A type during inference: a resolved type, or a shape with inference variables in it.
#[derive(Debug, PartialEq, Eq)]
pub enum InferType {
    /// An inference variable.
    Var(TypeVar),
    /// A type that is already resolved.
    Concrete(Type),
    Never,
    Tuple(Vec<InferType>),
    Record(Vec<(String, InferType)>),
    Array(Box<InferType>),
    SizedArray(Box<InferType>, u64),
    Reference(Box<InferType>),
    MutReference(Box<InferType>),
    Fun(Vec<InferType>, Box<InferType>),
    Named(String, Vec<InferType>),
}

/// The value of a [`InferType`] as a mathematical object.
pub ghost enum InferTypeV {
    Var(TypeVar),
    Concrete(TypeV),
    Never,
    Tuple(Seq<InferTypeV>),
    Record(Seq<(Seq<char>, InferTypeV)>),
    Array(Box<InferTypeV>),
    SizedArray(Box<InferTypeV>, u64),
    Reference(Box<InferTypeV>),
    MutReference(Box<InferTypeV>),
    Fun(Seq<InferTypeV>, Box<InferTypeV>),
    Named(Seq<char>, Seq<InferTypeV>),
}

/// The view of a [`InferType`].
pub open spec fn infer_type_view(t: InferType) -> InferTypeV
    decreases t,
{
    match t {
        InferType::Var(f0) => InferTypeV::Var(f0),
        InferType::Concrete(f0) => InferTypeV::Concrete(type_view(f0)),
        InferType::Never => InferTypeV::Never,
        InferType::Tuple(f0) => InferTypeV::Tuple(infer_types_view(f0@)),
        InferType::Record(f0) => InferTypeV::Record(named_infer_types_view(f0@)),
        InferType::Array(f0) => InferTypeV::Array(Box::new(infer_type_view(*f0))),
        InferType::SizedArray(f0, f1) => InferTypeV::SizedArray(Box::new(infer_type_view(*f0)), f1),
        InferType::Reference(f0) => InferTypeV::Reference(Box::new(infer_type_view(*f0))),
        InferType::MutReference(f0) => InferTypeV::MutReference(Box::new(infer_type_view(*f0))),
        InferType::Fun(f0, f1) => InferTypeV::Fun(infer_types_view(f0@), Box::new(infer_type_view(*f1))),
        InferType::Named(f0, f1) => InferTypeV::Named(f0@, infer_types_view(f1@)),
    }
}

/// The views of a sequence of [`InferType`] values.
pub open spec fn infer_types_view(s: Seq<InferType>) -> Seq<InferTypeV>
    decreases s,
{
    Seq::new(s.len(), |i: int| if 0 <= i < s.len() { infer_type_view(s[i]) } else { arbitrary() })
}

/// The views of a sequence of named [`InferType`] values.
pub open spec fn named_infer_types_view(s: Seq<(String, InferType)>) -> Seq<(Seq<char>, InferTypeV)>
    decreases s,
{
    Seq::new(s.len(), |i: int| if 0 <= i < s.len() { (s[i].0@, infer_type_view(s[i].1)) } else { arbitrary() })
}

impl View for InferType {
    type V = InferTypeV;

    open spec fn view(&self) -> InferTypeV {
        infer_type_view(*self)
    }
}

impl Clone for InferType {
    fn clone(&self) -> (r: Self)
        ensures
            r@ == self@,
    {
        self.copy()
    }
}

impl InferType {
    /// A copy with the same view.
    pub fn copy(&self) -> (r: Self)
        ensures
            r@ == self@,
        decreases *self,
    {
        match self {
            InferType::Var(f0) => InferType::Var(*f0),
            InferType::Concrete(f0) => InferType::Concrete(f0.copy()),
            InferType::Never => InferType::Never,
            InferType::Tuple(f0) => InferType::Tuple(copy_infer_types(f0)),
            InferType::Record(f0) => InferType::Record(copy_named_infer_types(f0)),
            InferType::Array(f0) => InferType::Array(Box::new(f0.copy())),
            InferType::SizedArray(f0, f1) => InferType::SizedArray(Box::new(f0.copy()), *f1),
            InferType::Reference(f0) => InferType::Reference(Box::new(f0.copy())),
            InferType::MutReference(f0) => InferType::MutReference(Box::new(f0.copy())),
            InferType::Fun(f0, f1) => InferType::Fun(copy_infer_types(f0), Box::new(f1.copy())),
            InferType::Named(f0, f1) => InferType::Named(f0.clone(), copy_infer_types(f1)),
        }
    }

    /// Whether two values have the same view.
    pub fn same(&self, other: &Self) -> (r: bool)
        ensures
            r == (self@ == other@),
        decreases *self,
    {
        match (self, other) {
            (InferType::Var(a0), InferType::Var(b0)) => *a0 == *b0,
            (InferType::Concrete(a0), InferType::Concrete(b0)) => a0.same(b0),
            (InferType::Never, InferType::Never) => true,
            (InferType::Tuple(a0), InferType::Tuple(b0)) => same_infer_types(a0, b0),
            (InferType::Record(a0), InferType::Record(b0)) => same_named_infer_types(a0, b0),
            (InferType::Array(a0), InferType::Array(b0)) => a0.same(b0),
            (InferType::SizedArray(a0, a1), InferType::SizedArray(b0, b1)) => a0.same(b0) && *a1 == *b1,
            (InferType::Reference(a0), InferType::Reference(b0)) => a0.same(b0),
            (InferType::MutReference(a0), InferType::MutReference(b0)) => a0.same(b0),
            (InferType::Fun(a0, a1), InferType::Fun(b0, b1)) => same_infer_types(a0, b0) && a1.same(b1),
            (InferType::Named(a0, a1), InferType::Named(b0, b1)) => *a0 == *b0 && same_infer_types(a1, b1),
            _ => false,
        }
    }
}

/// A copy of a list of [`InferType`] values.
pub fn copy_infer_types(v: &Vec<InferType>) -> (r: Vec<InferType>)
    ensures
        infer_types_view(r@) == infer_types_view(v@),
    decreases v@,
{
    let mut out: Vec<InferType> = Vec::new();
    let mut i: usize = 0;
    while i < v.len()
        invariant
            i <= v.len(),
            out@.len() == i,
            forall|k: int| 0 <= k < i ==> infer_type_view(#[trigger] out@[k]) == infer_type_view(v@[k]),
        decreases v.len() - i,
    {
        out.push(v[i].copy());
        i += 1;
    }
    assert(infer_types_view(out@) =~= infer_types_view(v@));
    out
}

/// Whether two lists of [`InferType`] values have the same views.
pub fn same_infer_types(a: &Vec<InferType>, b: &Vec<InferType>) -> (r: bool)
    ensures
        r == (infer_types_view(a@) == infer_types_view(b@)),
    decreases a@,
{
    if a.len() != b.len() {
        assert(infer_types_view(a@).len() != infer_types_view(b@).len());
        return false;
    }
    let mut i: usize = 0;
    while i < a.len()
        invariant
            i <= a.len(),
            a.len() == b.len(),
            forall|k: int| 0 <= k < i ==> infer_type_view(#[trigger] a@[k]) == infer_type_view(b@[k]),
        decreases a.len() - i,
    {
        if !a[i].same(&b[i]) {
            assert(infer_types_view(a@)[i as int] != infer_types_view(b@)[i as int]);
            return false;
        }
        i += 1;
    }
    assert(infer_types_view(a@) =~= infer_types_view(b@));
    true
}

/// A copy of a list of named [`InferType`] values.
pub fn copy_named_infer_types(v: &Vec<(String, InferType)>) -> (r: Vec<(String, InferType)>)
    ensures
        named_infer_types_view(r@) == named_infer_types_view(v@),
    decreases v@,
{
    let mut out: Vec<(String, InferType)> = Vec::new();
    let mut i: usize = 0;
    while i < v.len()
        invariant
            i <= v.len(),
            out@.len() == i,
            forall|k: int|
                0 <= k < i ==> (#[trigger] out@[k]).0@ == v@[k].0@ && infer_type_view(out@[k].1) == infer_type_view(
                    v@[k].1,
                ),
        decreases v.len() - i,
    {
        out.push((v[i].0.clone(), v[i].1.copy()));
        i += 1;
    }
    assert(named_infer_types_view(out@) =~= named_infer_types_view(v@));
    out
}

/// Whether two lists of named [`InferType`] values have the same views.
pub fn same_named_infer_types(a: &Vec<(String, InferType)>, b: &Vec<(String, InferType)>) -> (r: bool)
    ensures
        r == (named_infer_types_view(a@) == named_infer_types_view(b@)),
    decreases a@,
{
    if a.len() != b.len() {
        assert(named_infer_types_view(a@).len() != named_infer_types_view(b@).len());
        return false;
    }
    let mut i: usize = 0;
    while i < a.len()
        invariant
            i <= a.len(),
            a.len() == b.len(),
            forall|k: int|
                0 <= k < i ==> (#[trigger] a@[k]).0@ == b@[k].0@ && infer_type_view(a@[k].1) == infer_type_view(
                    b@[k].1,
                ),
        decreases a.len() - i,
    {
        if !(a[i].0 == b[i].0) || !a[i].1.same(&b[i].1) {
            assert(named_infer_types_view(a@)[i as int] != named_infer_types_view(b@)[i as int]);
            return false;
        }
        i += 1;
    }
    assert(named_infer_types_view(a@) =~= named_infer_types_view(b@));
    true
}
/// The binding of each variable after the given ones were made in turn: a later binding of a
/// variable replaces an earlier one.
pub open spec fn bindings_map(s: Seq<(TypeVar, InferType)>) -> Map<TypeVar, InferTypeV>
    decreases s.len(),
{
    if s.len() == 0 {
        Map::empty()
    } else {
        bindings_map(s.drop_last()).insert(s.last().0, s.last().1@)
    }
}

/// A type with every bound variable replaced by what it is bound to.
pub open spec fn substituted(m: Map<TypeVar, InferTypeV>, t: InferTypeV) -> InferTypeV
    decreases t,
{
    match t {
        InferTypeV::Var(v) => if m.dom().contains(v) {
            m[v]
        } else {
            t
        },
        InferTypeV::Concrete(_) => t,
        InferTypeV::Never => t,
        InferTypeV::Tuple(items) => InferTypeV::Tuple(substituted_all(m, items)),
        InferTypeV::Record(fields) => InferTypeV::Record(substituted_fields(m, fields)),
        InferTypeV::Array(item) => InferTypeV::Array(Box::new(substituted(m, *item))),
        InferTypeV::SizedArray(item, n) => InferTypeV::SizedArray(
            Box::new(substituted(m, *item)),
            n,
        ),
        InferTypeV::Reference(inner) => InferTypeV::Reference(Box::new(substituted(m, *inner))),
        InferTypeV::MutReference(inner) => InferTypeV::MutReference(
            Box::new(substituted(m, *inner)),
        ),
        InferTypeV::Fun(params, ret) => InferTypeV::Fun(
            substituted_all(m, params),
            Box::new(substituted(m, *ret)),
        ),
        InferTypeV::Named(name, args) => InferTypeV::Named(name, substituted_all(m, args)),
    }
}

/// [`substituted`] on every type of a sequence.
pub open spec fn substituted_all(m: Map<TypeVar, InferTypeV>, s: Seq<InferTypeV>) -> Seq<InferTypeV>
    decreases s,
{
    Seq::new(s.len(), |i: int| if 0 <= i < s.len() { substituted(m, s[i]) } else { arbitrary() })
}

/// [`substituted`] on the type of every field.
pub open spec fn substituted_fields(
    m: Map<TypeVar, InferTypeV>,
    s: Seq<(Seq<char>, InferTypeV)>,
) -> Seq<(Seq<char>, InferTypeV)>
    decreases s,
{
    Seq::new(
        s.len(),
        |i: int| if 0 <= i < s.len() { (s[i].0, substituted(m, s[i].1)) } else { arbitrary() },
    )
}

/// Types for inference variables.
pub struct Substitution {
    pub bindings: Vec<(TypeVar, InferType)>,
}

impl View for Substitution {
    type V = Map<TypeVar, InferTypeV>;

    open spec fn view(&self) -> Map<TypeVar, InferTypeV> {
        bindings_map(self.bindings@)
    }
}

impl Substitution {
    /// The substitution that binds nothing.
    pub fn new() -> (r: Self)
        ensures
            r@ == Map::<TypeVar, InferTypeV>::empty(),
    {
        Substitution { bindings: Vec::new() }
    }

    /// A copy of the substitution.
    pub fn copy(&self) -> (r: Self)
        ensures
            r@ == self@,
    {
        let mut out: Substitution = Substitution::new();
        let mut i: usize = 0;
        while i < self.bindings.len()
            invariant
                i <= self.bindings@.len(),
                out@ == bindings_map(self.bindings@.take(i as int)),
            decreases self.bindings@.len() - i,
        {
            let ghost after = self.bindings@.take(i + 1);
            assert(after.drop_last() =~= self.bindings@.take(i as int));
            assert(after.last() == self.bindings@[i as int]);
            out.bind(self.bindings[i].0, self.bindings[i].1.copy());
            i += 1;
        }
        assert(self.bindings@.take(i as int) =~= self.bindings@);
        out
    }

    /// Bind `var` to `ty`, in place of an earlier binding.
    pub fn bind(&mut self, var: TypeVar, ty: InferType)
        ensures
            final(self)@ == old(self)@.insert(var, ty@),
    {
        let ghost before = self.bindings@;
        self.bindings.push((var, ty));
        assert(self.bindings@.drop_last() =~= before);
    }

    /// What `var` is bound to.
    pub fn lookup(&self, var: TypeVar) -> (r: Option<&InferType>)
        ensures
            match r {
                Some(ty) => self@.dom().contains(var) && self@[var] == ty@,
                None => !self@.dom().contains(var),
            },
    {
        let mut i: usize = self.bindings.len();
        assert(self.bindings@.take(i as int) =~= self.bindings@);
        while i > 0
            invariant
                i <= self.bindings@.len(),
                self@.dom().contains(var) == bindings_map(
                    self.bindings@.take(i as int),
                ).dom().contains(var),
                self@.dom().contains(var) ==> self@[var] == bindings_map(
                    self.bindings@.take(i as int),
                )[var],
            decreases i,
        {
            let ghost whole = self.bindings@.take(i as int);
            assert(whole.drop_last() =~= self.bindings@.take(i - 1));
            assert(whole.last() == self.bindings@[i - 1]);
            i -= 1;
            if self.bindings[i].0 == var {
                return Some(&self.bindings[i].1);
            }
        }
        None
    }

    /// `ty` with every bound variable replaced.
    pub fn apply(&self, ty: &InferType) -> (r: InferType)
        ensures
            r@ == substituted(self@, ty@),
        decreases *ty,
    {
        match ty {
            InferType::Var(v) => match self.lookup(*v) {
                Some(bound) => bound.copy(),
                None => InferType::Var(*v),
            },
            InferType::Concrete(inner) => InferType::Concrete(inner.copy()),
            InferType::Never => InferType::Never,
            InferType::Tuple(items) => InferType::Tuple(self.apply_all(items)),
            InferType::Record(fields) => InferType::Record(self.apply_fields(fields)),
            InferType::Array(item) => InferType::Array(Box::new(self.apply(item))),
            InferType::SizedArray(item, n) => InferType::SizedArray(
                Box::new(self.apply(item)),
                *n,
            ),
            InferType::Reference(inner) => InferType::Reference(Box::new(self.apply(inner))),
            InferType::MutReference(inner) => InferType::MutReference(Box::new(self.apply(inner))),
            InferType::Fun(params, ret) => InferType::Fun(
                self.apply_all(params),
                Box::new(self.apply(ret)),
            ),
            InferType::Named(name, args) => InferType::Named(name.clone(), self.apply_all(args)),
        }
    }

    /// [`Substitution::apply`] on every type of a list.
    pub fn apply_all(&self, v: &Vec<InferType>) -> (r: Vec<InferType>)
        ensures
            infer_types_view(r@) == substituted_all(self@, infer_types_view(v@)),
        decreases v@,
    {
        let mut out: Vec<InferType> = Vec::new();
        let mut i: usize = 0;
        while i < v.len()
            invariant
                i <= v.len(),
                out@.len() == i,
                forall|k: int|
                    0 <= k < i ==> infer_type_view(#[trigger] out@[k]) == substituted(
                        self@,
                        infer_type_view(v@[k]),
                    ),
            decreases v.len() - i,
        {
            out.push(self.apply(&v[i]));
            i += 1;
        }
        assert(infer_types_view(out@) =~= substituted_all(self@, infer_types_view(v@)));
        out
    }

    fn apply_fields(&self, v: &Vec<(String, InferType)>) -> (r: Vec<(String, InferType)>)
        ensures
            named_infer_types_view(r@) == substituted_fields(self@, named_infer_types_view(v@)),
        decreases v@,
    {
        let mut out: Vec<(String, InferType)> = Vec::new();
        let mut i: usize = 0;
        while i < v.len()
            invariant
                i <= v.len(),
                out@.len() == i,
                forall|k: int|
                    0 <= k < i ==> (#[trigger] out@[k]).0@ == v@[k].0@ && infer_type_view(out@[k].1)
                        == substituted(self@, infer_type_view(v@[k].1)),
            decreases v.len() - i,
        {
            out.push((v[i].0.clone(), self.apply(&v[i].1)));
            i += 1;
        }
        assert(named_infer_types_view(out@) =~= substituted_fields(
            self@,
            named_infer_types_view(v@),
        ));
        out
    }
}

/// A resolved type as an inference type: its compound shapes are laid open, its leaves are kept.
pub open spec fn lifted(t: TypeV) -> InferTypeV
    decreases t,
{
    match t {
        TypeV::Never => InferTypeV::Never,
        TypeV::Tuple(items) => InferTypeV::Tuple(lifted_all(items)),
        TypeV::Record(fields) => InferTypeV::Record(lifted_fields(fields)),
        TypeV::Array(item) => InferTypeV::Array(Box::new(lifted(*item))),
        TypeV::SizedArray(item, n) => InferTypeV::SizedArray(Box::new(lifted(*item)), n),
        TypeV::Reference(inner) => InferTypeV::Reference(Box::new(lifted(*inner))),
        TypeV::MutReference(inner) => InferTypeV::MutReference(Box::new(lifted(*inner))),
        TypeV::Fun(params, ret) => InferTypeV::Fun(lifted_all(params), Box::new(lifted(*ret))),
        TypeV::Named(name, args) => InferTypeV::Named(name, lifted_all(args)),
        _ => InferTypeV::Concrete(t),
    }
}

/// [`lifted`] on every type of a sequence.
pub open spec fn lifted_all(s: Seq<TypeV>) -> Seq<InferTypeV>
    decreases s,
{
    Seq::new(s.len(), |i: int| if 0 <= i < s.len() { lifted(s[i]) } else { arbitrary() })
}

/// [`lifted`] on the type of every field.
pub open spec fn lifted_fields(s: Seq<(Seq<char>, TypeV)>) -> Seq<(Seq<char>, InferTypeV)>
    decreases s,
{
    Seq::new(
        s.len(),
        |i: int| if 0 <= i < s.len() { (s[i].0, lifted(s[i].1)) } else { arbitrary() },
    )
}

/// A resolved type as an inference type.
pub fn type_to_infer(ty: &Type) -> (r: InferType)
    ensures
        r@ == lifted(ty@),
    decreases *ty,
{
    match ty {
        Type::Never => InferType::Never,
        Type::Tuple(items) => InferType::Tuple(types_to_infer(items)),
        Type::Record(fields) => InferType::Record(fields_to_infer(fields)),
        Type::Array(item) => InferType::Array(Box::new(type_to_infer(item))),
        Type::SizedArray(item, n) => InferType::SizedArray(Box::new(type_to_infer(item)), *n),
        Type::Reference(inner) => InferType::Reference(Box::new(type_to_infer(inner))),
        Type::MutReference(inner) => InferType::MutReference(Box::new(type_to_infer(inner))),
        Type::Fun(params, ret) => InferType::Fun(
            types_to_infer(params),
            Box::new(type_to_infer(ret)),
        ),
        Type::Named(name, args) => InferType::Named(name.clone(), types_to_infer(args)),
        _ => InferType::Concrete(ty.copy()),
    }
}

/// [`type_to_infer`] on every type of a list.
pub fn types_to_infer(v: &Vec<Type>) -> (r: Vec<InferType>)
    ensures
        infer_types_view(r@) == lifted_all(types_view(v@)),
    decreases v@,
{
    let mut out: Vec<InferType> = Vec::new();
    let mut i: usize = 0;
    while i < v.len()
        invariant
            i <= v.len(),
            out@.len() == i,
            forall|k: int|
                0 <= k < i ==> infer_type_view(#[trigger] out@[k]) == lifted(type_view(v@[k])),
        decreases v.len() - i,
    {
        out.push(type_to_infer(&v[i]));
        i += 1;
    }
    assert(infer_types_view(out@) =~= lifted_all(types_view(v@)));
    out
}

fn fields_to_infer(v: &Vec<(String, Type)>) -> (r: Vec<(String, InferType)>)
    ensures
        named_infer_types_view(r@) == lifted_fields(named_types_view(v@)),
    decreases v@,
{
    let mut out: Vec<(String, InferType)> = Vec::new();
    let mut i: usize = 0;
    while i < v.len()
        invariant
            i <= v.len(),
            out@.len() == i,
            forall|k: int|
                0 <= k < i ==> (#[trigger] out@[k]).0@ == v@[k].0@ && infer_type_view(out@[k].1)
                    == lifted(type_view(v@[k].1)),
        decreases v.len() - i,
    {
        out.push((v[i].0.clone(), type_to_infer(&v[i].1)));
        i += 1;
    }
    assert(named_infer_types_view(out@) =~= lifted_fields(named_types_view(v@)));
    out
}

/// Whether no inference variable is left in a type.
pub open spec fn resolved(t: InferTypeV) -> bool
    decreases t,
{
    match t {
        InferTypeV::Var(_) => false,
        InferTypeV::Concrete(_) => true,
        InferTypeV::Never => true,
        InferTypeV::Tuple(items) => all_resolved(items),
        InferTypeV::Record(fields) => fields_resolved(fields),
        InferTypeV::Array(item) => resolved(*item),
        InferTypeV::SizedArray(item, _) => resolved(*item),
        InferTypeV::Reference(inner) => resolved(*inner),
        InferTypeV::MutReference(inner) => resolved(*inner),
        InferTypeV::Fun(params, ret) => all_resolved(params) && resolved(*ret),
        InferTypeV::Named(_, args) => all_resolved(args),
    }
}

/// [`resolved`] of every type of a sequence.
pub open spec fn all_resolved(s: Seq<InferTypeV>) -> bool
    decreases s,
{
    forall|i: int| 0 <= i < s.len() ==> resolved(#[trigger] s[i])
}

/// [`resolved`] of the type of every field.
pub open spec fn fields_resolved(s: Seq<(Seq<char>, InferTypeV)>) -> bool
    decreases s,
{
    forall|i: int| 0 <= i < s.len() ==> resolved((#[trigger] s[i]).1)
}

/// The type that an inference type without variables stands for.
pub open spec fn lowered(t: InferTypeV) -> TypeV
    decreases t,
{
    match t {
        InferTypeV::Var(_) => TypeV::Never,
        InferTypeV::Concrete(inner) => inner,
        InferTypeV::Never => TypeV::Never,
        InferTypeV::Tuple(items) => TypeV::Tuple(lowered_all(items)),
        InferTypeV::Record(fields) => TypeV::Record(lowered_fields(fields)),
        InferTypeV::Array(item) => TypeV::Array(Box::new(lowered(*item))),
        InferTypeV::SizedArray(item, n) => TypeV::SizedArray(Box::new(lowered(*item)), n),
        InferTypeV::Reference(inner) => TypeV::Reference(Box::new(lowered(*inner))),
        InferTypeV::MutReference(inner) => TypeV::MutReference(Box::new(lowered(*inner))),
        InferTypeV::Fun(params, ret) => TypeV::Fun(lowered_all(params), Box::new(lowered(*ret))),
        InferTypeV::Named(name, args) => TypeV::Named(name, lowered_all(args)),
    }
}

/// [`lowered`] on every type of a sequence.
pub open spec fn lowered_all(s: Seq<InferTypeV>) -> Seq<TypeV>
    decreases s,
{
    Seq::new(s.len(), |i: int| if 0 <= i < s.len() { lowered(s[i]) } else { arbitrary() })
}

/// [`lowered`] on the type of every field.
pub open spec fn lowered_fields(s: Seq<(Seq<char>, InferTypeV)>) -> Seq<(Seq<char>, TypeV)>
    decreases s,
{
    Seq::new(
        s.len(),
        |i: int| if 0 <= i < s.len() { (s[i].0, lowered(s[i].1)) } else { arbitrary() },
    )
}

/// Convert an inference type to a resolved type, or `None` if a variable is left anywhere in it.
///
/// The conversion is all or nothing: no element, field or parameter is ever dropped, so the
/// result has the arity of what was converted.
pub fn infer_to_type(ty: &InferType) -> (r: Option<Type>)
    ensures
        r is Some <==> resolved(ty@),
        r matches Some(t) ==> t@ == lowered(ty@),
    decreases *ty,
{
    match ty {
        InferType::Concrete(inner) => Some(inner.copy()),
        InferType::Never => Some(Type::Never),
        InferType::Tuple(items) => match infer_to_types(items) {
            Some(list) => Some(Type::Tuple(list)),
            None => None,
        },
        InferType::Record(fields) => match infer_to_fields(fields) {
            Some(list) => Some(Type::Record(list)),
            None => None,
        },
        InferType::Array(inner) => match infer_to_type(inner) {
            Some(t) => Some(Type::Array(Box::new(t))),
            None => None,
        },
        InferType::SizedArray(inner, n) => match infer_to_type(inner) {
            Some(t) => Some(Type::SizedArray(Box::new(t), *n)),
            None => None,
        },
        InferType::Reference(inner) => match infer_to_type(inner) {
            Some(t) => Some(Type::Reference(Box::new(t))),
            None => None,
        },
        InferType::MutReference(inner) => match infer_to_type(inner) {
            Some(t) => Some(Type::MutReference(Box::new(t))),
            None => None,
        },
        InferType::Fun(params, ret) => match infer_to_types(params) {
            Some(list) => match infer_to_type(ret) {
                Some(t) => Some(Type::Fun(list, Box::new(t))),
                None => None,
            },
            None => None,
        },
        InferType::Named(name, args) => match infer_to_types(args) {
            Some(list) => Some(Type::Named(name.clone(), list)),
            None => None,
        },
        InferType::Var(_) => None,
    }
}

/// [`infer_to_type`] on every type of a list, or `None` if one of them is not resolved.
pub fn infer_to_types(v: &Vec<InferType>) -> (r: Option<Vec<Type>>)
    ensures
        r is Some <==> all_resolved(infer_types_view(v@)),
        r matches Some(out) ==> types_view(out@) == lowered_all(infer_types_view(v@)),
    decreases v@,
{
    let mut out: Vec<Type> = Vec::new();
    let mut i: usize = 0;
    while i < v.len()
        invariant
            i <= v.len(),
            out@.len() == i,
            forall|k: int|
                0 <= k < i ==> resolved(infer_type_view(#[trigger] v@[k])) && type_view(out@[k])
                    == lowered(infer_type_view(v@[k])),
        decreases v.len() - i,
    {
        match infer_to_type(&v[i]) {
            Some(t) => {
                out.push(t);
            },
            None => {
                assert(!resolved(infer_types_view(v@)[i as int]));
                return None;
            },
        }
        i += 1;
    }
    assert forall|k: int| 0 <= k < infer_types_view(v@).len() implies resolved(
        #[trigger] infer_types_view(v@)[k],
    ) by {
        assert(infer_types_view(v@)[k] == infer_type_view(v@[k]));
    }
    assert(types_view(out@) =~= lowered_all(infer_types_view(v@)));
    Some(out)
}

fn infer_to_fields(v: &Vec<(String, InferType)>) -> (r: Option<Vec<(String, Type)>>)
    ensures
        r is Some <==> fields_resolved(named_infer_types_view(v@)),
        r matches Some(out) ==> named_types_view(out@) == lowered_fields(
            named_infer_types_view(v@),
        ),
    decreases v@,
{
    let mut out: Vec<(String, Type)> = Vec::new();
    let mut i: usize = 0;
    while i < v.len()
        invariant
            i <= v.len(),
            out@.len() == i,
            forall|k: int|
                0 <= k < i ==> resolved(infer_type_view((#[trigger] v@[k]).1)) && type_view(
                    out@[k].1,
                ) == lowered(infer_type_view(v@[k].1)) && out@[k].0@ == v@[k].0@,
        decreases v.len() - i,
    {
        match infer_to_type(&v[i].1) {
            Some(t) => {
                out.push((v[i].0.clone(), t));
            },
            None => {
                assert(!resolved(named_infer_types_view(v@)[i as int].1));
                return None;
            },
        }
        i += 1;
    }
    assert forall|k: int| 0 <= k < named_infer_types_view(v@).len() implies resolved(
        (#[trigger] named_infer_types_view(v@)[k]).1,
    ) by {
        assert(named_infer_types_view(v@)[k].1 == infer_type_view(v@[k].1));
    }
    assert(named_types_view(out@) =~= lowered_fields(named_infer_types_view(v@)));
    Some(out)
}

/// Laying a resolved type open and closing it again gives the type back.
pub proof fn law_lowering_undoes_lifting(t: TypeV)
    ensures
        resolved(lifted(t)),
        lowered(lifted(t)) == t,
    decreases t,
{
    match t {
        TypeV::Tuple(items) => law_lowering_undoes_lifting_all(items),
        TypeV::Record(fields) => {
            assert forall|i: int| 0 <= i < fields.len() implies resolved(lifted(fields[i].1))
                && lowered(lifted((#[trigger] fields[i]).1)) == fields[i].1 by {
                law_lowering_undoes_lifting(fields[i].1);
            }
            let l = lifted_fields(fields);
            assert forall|i: int| 0 <= i < l.len() implies resolved((#[trigger] l[i]).1) by {
                assert(l[i].1 == lifted(fields[i].1));
            }
            assert(fields_resolved(l));
            assert(lowered_fields(l) =~= fields);
        },
        TypeV::Array(item) => law_lowering_undoes_lifting(*item),
        TypeV::SizedArray(item, _) => law_lowering_undoes_lifting(*item),
        TypeV::Reference(inner) => law_lowering_undoes_lifting(*inner),
        TypeV::MutReference(inner) => law_lowering_undoes_lifting(*inner),
        TypeV::Fun(params, ret) => {
            law_lowering_undoes_lifting_all(params);
            law_lowering_undoes_lifting(*ret);
        },
        TypeV::Named(_, args) => law_lowering_undoes_lifting_all(args),
        _ => {},
    }
}

proof fn law_lowering_undoes_lifting_all(s: Seq<TypeV>)
    ensures
        all_resolved(lifted_all(s)),
        lowered_all(lifted_all(s)) == s,
    decreases s,
{
    assert forall|i: int| 0 <= i < s.len() implies resolved(lifted(#[trigger] s[i])) && lowered(
        lifted(s[i]),
    ) == s[i] by {
        law_lowering_undoes_lifting(s[i]);
    }
    let l = lifted_all(s);
    assert forall|i: int| 0 <= i < l.len() implies resolved(#[trigger] l[i]) by {
        assert(l[i] == lifted(s[i]));
    }
    assert(lowered_all(l) =~= s);
}


} // verus!
