//! Type schemes, and solving them for concrete types.
use vstd::prelude::*;
use crate::ast::{TypeExpr, TypeExprV};
use crate::error::{MetelError, MetelErrorV, TypeErrorCode};
use crate::infer::{infer_to_type, infer_type_view, infer_types_view, lifted, lowered};
use crate::infer::{named_infer_types_view, resolved, substituted, type_to_infer, InferType};
use crate::infer::{InferTypeV, Substitution, TypeVar};
use crate::span::{Span, SpanV};
use crate::text::texts;
use crate::types::{named_types_view, type_view, types_view, Type, TypeV};

verus! {

/// A label that a row bound asks for, with its type where the bound gives one.
#[derive(Debug, PartialEq, Eq)]
pub struct RowField {
    pub label: String,
    pub ty: Option<TypeExpr>,
}

/// A bound on the fields of a record; an open one allows further fields.
#[derive(Debug, PartialEq, Eq)]
pub struct RowConstraint {
    pub fields: Vec<RowField>,
    pub open: bool,
}

/// A bound on a type parameter.
#[derive(Debug, PartialEq, Eq)]
pub enum GenericBound {
    Aspect(String),
    Row(RowConstraint),
}

/// An associated type of the type parameter at position `base`, and the variable that stands for
/// it.
#[derive(Debug, PartialEq, Eq)]
pub struct AssocProjection {
    pub base: usize,
    pub aspect: String,
    pub assoc: String,
    pub placeholder: TypeVar,
}

/// An associated type that has to be a given type.
#[derive(Debug, PartialEq, Eq)]
pub struct AssocEq {
    pub aspect: String,
    pub assoc: String,
    pub expected: InferType,
}

/// The type behind an opaque return type.
#[derive(Debug, PartialEq, Eq)]
pub struct OpaqueReturn {
    pub aspect: String,
    pub ty: Type,
}

/// A type with the variables that may be chosen anew at each use. The lists are by position of
/// the variables and may be shorter.
#[derive(Debug, PartialEq, Eq)]
pub struct TypeScheme {
    pub quantified_vars: Vec<TypeVar>,
    pub param_names: Vec<String>,
    pub bounds: Vec<Vec<GenericBound>>,
    pub neg_bounds: Vec<Vec<GenericBound>>,
    pub record_kinds: Vec<bool>,
    pub assoc_projections: Vec<Option<AssocProjection>>,
    pub assoc_eq_constraints: Vec<Vec<AssocEq>>,
    pub opaque_returns: Vec<Option<OpaqueReturn>>,
    pub ty: InferType,
}

/// Whether a type is acceptable where another is asked for: `!` is acceptable everywhere, an
/// array and a fixed-size array are for each other, a `&var` reference is for a shared one, and
/// compound types are part by part.
pub open spec fn compatible(a: TypeV, b: TypeV) -> bool
    decreases b,
{
    if a is Never || b is Never {
        true
    } else {
        match (a, b) {
            (TypeV::Tuple(s), TypeV::Tuple(t)) => all_compatible(s, t),
            (TypeV::Record(s), TypeV::Record(t)) => fields_compatible(s, t),
            (TypeV::Array(x), TypeV::Array(y)) => compatible(*x, *y),
            (TypeV::Array(x), TypeV::SizedArray(y, _)) => compatible(*x, *y),
            (TypeV::SizedArray(x, _), TypeV::Array(y)) => compatible(*x, *y),
            (TypeV::SizedArray(x, n), TypeV::SizedArray(y, k)) => n == k && compatible(*x, *y),
            (TypeV::Reference(x), TypeV::Reference(y)) => compatible(*x, *y),
            (TypeV::Reference(x), TypeV::MutReference(y)) => compatible(*x, *y),
            (TypeV::MutReference(x), TypeV::MutReference(y)) => compatible(*x, *y),
            (TypeV::Fun(s, x), TypeV::Fun(t, y)) => all_compatible(s, t) && compatible(*x, *y),
            (TypeV::Named(n, s), TypeV::Named(k, t)) => n == k && all_compatible(s, t),
            _ => a == b,
        }
    }
}

/// [`compatible`] by position.
pub open spec fn all_compatible(s: Seq<TypeV>, t: Seq<TypeV>) -> bool
    decreases t,
{
    s.len() == t.len() && forall|i: int| 0 <= i < t.len() ==> compatible(s[i], #[trigger] t[i])
}

/// [`compatible`] by position, with the same labels.
pub open spec fn fields_compatible(s: Seq<(Seq<char>, TypeV)>, t: Seq<(Seq<char>, TypeV)>) -> bool
    decreases t,
{
    s.len() == t.len() && forall|i: int|
        0 <= i < t.len() ==> s[i].0 == (#[trigger] t[i]).0 && compatible(s[i].1, t[i].1)
}

/// Whether a type is acceptable where another is asked for.
pub fn types_compatible(a: &Type, b: &Type) -> (r: bool)
    ensures
        r == compatible(a@, b@),
    decreases *b,
{
    if matches!(a, Type::Never) || matches!(b, Type::Never) {
        return true;
    }
    match (a, b) {
        (Type::Tuple(s), Type::Tuple(t)) => lists_compatible(s, t),
        (Type::Record(s), Type::Record(t)) => field_lists_compatible(s, t),
        (Type::Array(x), Type::Array(y)) => types_compatible(x, y),
        (Type::Array(x), Type::SizedArray(y, _)) => types_compatible(x, y),
        (Type::SizedArray(x, _), Type::Array(y)) => types_compatible(x, y),
        (Type::SizedArray(x, n), Type::SizedArray(y, k)) => *n == *k && types_compatible(x, y),
        (Type::Reference(x), Type::Reference(y)) => types_compatible(x, y),
        (Type::Reference(x), Type::MutReference(y)) => types_compatible(x, y),
        (Type::MutReference(x), Type::MutReference(y)) => types_compatible(x, y),
        (Type::Fun(s, x), Type::Fun(t, y)) => lists_compatible(s, t) && types_compatible(x, y),
        (Type::Named(n, s), Type::Named(k, t)) => *n == *k && lists_compatible(s, t),
        _ => a.same(b),
    }
}

fn lists_compatible(s: &Vec<Type>, t: &Vec<Type>) -> (r: bool)
    ensures
        r == all_compatible(types_view(s@), types_view(t@)),
    decreases t@,
{
    assert(types_view(s@).len() == s@.len());
    assert(types_view(t@).len() == t@.len());
    if s.len() != t.len() {
        return false;
    }
    let mut i: usize = 0;
    while i < t.len()
        invariant
            i <= t@.len(),
            s@.len() == t@.len(),
            forall|k: int|
                0 <= k < i ==> compatible(types_view(s@)[k], #[trigger] types_view(t@)[k]),
        decreases t@.len() - i,
    {
        assert(types_view(s@)[i as int] == type_view(s@[i as int]));
        assert(types_view(t@)[i as int] == type_view(t@[i as int]));
        if !types_compatible(&s[i], &t[i]) {
            return false;
        }
        i += 1;
    }
    true
}

fn field_lists_compatible(s: &Vec<(String, Type)>, t: &Vec<(String, Type)>) -> (r: bool)
    ensures
        r == fields_compatible(named_types_view(s@), named_types_view(t@)),
    decreases t@,
{
    assert(named_types_view(s@).len() == s@.len());
    assert(named_types_view(t@).len() == t@.len());
    if s.len() != t.len() {
        return false;
    }
    let mut i: usize = 0;
    while i < t.len()
        invariant
            i <= t@.len(),
            s@.len() == t@.len(),
            forall|k: int|
                0 <= k < i ==> named_types_view(s@)[k].0 == (#[trigger] named_types_view(t@)[k]).0
                    && compatible(named_types_view(s@)[k].1, named_types_view(t@)[k].1),
        decreases t@.len() - i,
    {
        assert(named_types_view(s@)[i as int] == (s@[i as int].0@, type_view(s@[i as int].1)));
        assert(named_types_view(t@)[i as int] == (t@[i as int].0@, type_view(t@[i as int].1)));
        if s[i].0 != t[i].0 || !types_compatible(&s[i].1, &t[i].1) {
            return false;
        }
        i += 1;
    }
    true
}

/// The bindings once a type with variables is made to accept a concrete type, or `None` where it
/// cannot be. A variable that is bound has to accept the type; a variable that is not is bound to
/// it. `!` is accepted without binding anything.
pub open spec fn solve(
    m: Map<TypeVar, InferTypeV>,
    p: InferTypeV,
    t: TypeV,
) -> Option<Map<TypeVar, InferTypeV>>
    decreases t, 0int,
{
    if t is Never || p is Never {
        Some(m)
    } else {
        match (p, t) {
            (InferTypeV::Var(v), _) => if m.dom().contains(v) {
                if resolved(m[v]) && compatible(lowered(m[v]), t) {
                    Some(m)
                } else {
                    None
                }
            } else {
                Some(m.insert(v, lifted(t)))
            },
            (InferTypeV::Concrete(c), _) => if compatible(c, t) {
                Some(m)
            } else {
                None
            },
            (InferTypeV::Tuple(s), TypeV::Tuple(u)) => solve_all(m, s, u),
            (InferTypeV::Record(s), TypeV::Record(u)) => solve_fields(m, s, u),
            (InferTypeV::Array(x), TypeV::Array(y)) => solve(m, *x, *y),
            (InferTypeV::Array(x), TypeV::SizedArray(y, _)) => solve(m, *x, *y),
            (InferTypeV::SizedArray(x, _), TypeV::Array(y)) => solve(m, *x, *y),
            (InferTypeV::SizedArray(x, n), TypeV::SizedArray(y, k)) => if n == k {
                solve(m, *x, *y)
            } else {
                None
            },
            (InferTypeV::Reference(x), TypeV::Reference(y)) => solve(m, *x, *y),
            (InferTypeV::Reference(x), TypeV::MutReference(y)) => solve(m, *x, *y),
            (InferTypeV::MutReference(x), TypeV::MutReference(y)) => solve(m, *x, *y),
            (InferTypeV::Fun(s, x), TypeV::Fun(u, y)) => match solve_all(m, s, u) {
                Some(m1) => solve(m1, *x, *y),
                None => None,
            },
            (InferTypeV::Named(n, s), TypeV::Named(k, u)) => if n == k {
                solve_all(m, s, u)
            } else {
                None
            },
            _ => None,
        }
    }
}

/// [`solve`] by position, one after the other.
pub open spec fn solve_all(
    m: Map<TypeVar, InferTypeV>,
    s: Seq<InferTypeV>,
    t: Seq<TypeV>,
) -> Option<Map<TypeVar, InferTypeV>>
    decreases t, 0int,
{
    if s.len() != t.len() {
        None
    } else if t.len() == 0 {
        Some(m)
    } else {
        let i = t.len() - 1;
        match solve_all(m, s.subrange(0, i), t.subrange(0, i)) {
            Some(m1) => solve(m1, s[i], t[i]),
            None => None,
        }
    }
}

/// [`solve`] by position, with the same labels.
pub open spec fn solve_fields(
    m: Map<TypeVar, InferTypeV>,
    s: Seq<(Seq<char>, InferTypeV)>,
    t: Seq<(Seq<char>, TypeV)>,
) -> Option<Map<TypeVar, InferTypeV>>
    decreases t, 0int,
{
    if s.len() != t.len() {
        None
    } else if t.len() == 0 {
        Some(m)
    } else {
        let i = t.len() - 1;
        match solve_fields(m, s.subrange(0, i), t.subrange(0, i)) {
            Some(m1) => if s[i].0 == t[i].0 {
                solve(m1, s[i].1, t[i].1)
            } else {
                None
            },
            None => None,
        }
    }
}

/// Make a type with variables accept a concrete type by binding variables. Where that is not
/// possible the result is `false`, and the bindings are not to be used.
pub fn unify(subst: &mut Substitution, p: &InferType, t: &Type) -> (r: bool)
    ensures
        match solve(old(subst)@, p@, t@) {
            Some(m) => r && final(subst)@ == m,
            None => !r,
        },
    decreases *t, 0int,
{
    if matches!(t, Type::Never) || matches!(p, InferType::Never) {
        return true;
    }
    match (p, t) {
        (InferType::Var(v), _) => {
            let bound: Option<Option<Type>> = match subst.lookup(*v) {
                Some(ty) => Some(infer_to_type(ty)),
                None => None,
            };
            match bound {
                Some(Some(ty)) => types_compatible(&ty, t),
                Some(None) => false,
                None => {
                    subst.bind(*v, type_to_infer(t));
                    true
                },
            }
        },
        (InferType::Concrete(c), _) => types_compatible(c, t),
        (InferType::Tuple(s), Type::Tuple(u)) => unify_all(subst, s, u),
        (InferType::Record(s), Type::Record(u)) => unify_fields(subst, s, u),
        (InferType::Array(x), Type::Array(y)) => unify(subst, x, y),
        (InferType::Array(x), Type::SizedArray(y, _)) => unify(subst, x, y),
        (InferType::SizedArray(x, _), Type::Array(y)) => unify(subst, x, y),
        (InferType::SizedArray(x, n), Type::SizedArray(y, k)) => *n == *k && unify(subst, x, y),
        (InferType::Reference(x), Type::Reference(y)) => unify(subst, x, y),
        (InferType::Reference(x), Type::MutReference(y)) => unify(subst, x, y),
        (InferType::MutReference(x), Type::MutReference(y)) => unify(subst, x, y),
        (InferType::Fun(s, x), Type::Fun(u, y)) => unify_all(subst, s, u) && unify(subst, x, y),
        (InferType::Named(n, s), Type::Named(k, u)) => *n == *k && unify_all(subst, s, u),
        _ => false,
    }
}

fn unify_all(subst: &mut Substitution, s: &Vec<InferType>, t: &Vec<Type>) -> (r: bool)
    ensures
        match solve_all(old(subst)@, infer_types_view(s@), types_view(t@)) {
            Some(m) => r && final(subst)@ == m,
            None => !r,
        },
    decreases t@, 0int,
{
    let ghost ss = infer_types_view(s@);
    let ghost ts = types_view(t@);
    assert(ss.len() == s@.len());
    assert(ts.len() == t@.len());
    if s.len() != t.len() {
        return false;
    }
    let ghost start = subst@;
    let mut ok: bool = true;
    let mut i: usize = 0;
    while i < t.len()
        invariant
            i <= t@.len(),
            s@.len() == t@.len(),
            ss == infer_types_view(s@),
            ts == types_view(t@),
            ss.len() == s@.len(),
            ts.len() == t@.len(),
            match solve_all(start, ss.subrange(0, i as int), ts.subrange(0, i as int)) {
                Some(m) => ok && subst@ == m,
                None => !ok,
            },
        decreases t@.len() - i,
    {
        let ghost sa = ss.subrange(0, i + 1);
        let ghost ta = ts.subrange(0, i + 1);
        assert(sa.subrange(0, sa.len() - 1) =~= ss.subrange(0, i as int));
        assert(ta.subrange(0, ta.len() - 1) =~= ts.subrange(0, i as int));
        assert(ss[i as int] == infer_type_view(s@[i as int]));
        assert(ts[i as int] == type_view(t@[i as int]));
        if ok {
            ok = unify(subst, &s[i], &t[i]);
        }
        i += 1;
    }
    assert(ss.subrange(0, i as int) =~= ss);
    assert(ts.subrange(0, i as int) =~= ts);
    ok
}

fn unify_fields(
    subst: &mut Substitution,
    s: &Vec<(String, InferType)>,
    t: &Vec<(String, Type)>,
) -> (r: bool)
    ensures
        match solve_fields(old(subst)@, named_infer_types_view(s@), named_types_view(t@)) {
            Some(m) => r && final(subst)@ == m,
            None => !r,
        },
    decreases t@, 0int,
{
    let ghost ss = named_infer_types_view(s@);
    let ghost ts = named_types_view(t@);
    assert(ss.len() == s@.len());
    assert(ts.len() == t@.len());
    if s.len() != t.len() {
        return false;
    }
    let ghost start = subst@;
    let mut ok: bool = true;
    let mut i: usize = 0;
    while i < t.len()
        invariant
            i <= t@.len(),
            s@.len() == t@.len(),
            ss == named_infer_types_view(s@),
            ts == named_types_view(t@),
            ss.len() == s@.len(),
            ts.len() == t@.len(),
            match solve_fields(start, ss.subrange(0, i as int), ts.subrange(0, i as int)) {
                Some(m) => ok && subst@ == m,
                None => !ok,
            },
        decreases t@.len() - i,
    {
        let ghost sa = ss.subrange(0, i + 1);
        let ghost ta = ts.subrange(0, i + 1);
        assert(sa.subrange(0, sa.len() - 1) =~= ss.subrange(0, i as int));
        assert(ta.subrange(0, ta.len() - 1) =~= ts.subrange(0, i as int));
        assert(ss[i as int] == (s@[i as int].0@, infer_type_view(s@[i as int].1)));
        assert(ts[i as int] == (t@[i as int].0@, type_view(t@[i as int].1)));
        if ok {
            if s[i].0 == t[i].0 {
                ok = unify(subst, &s[i].1, &t[i].1);
            } else {
                ok = false;
            }
        }
        i += 1;
    }
    assert(ss.subrange(0, i as int) =~= ss);
    assert(ts.subrange(0, i as int) =~= ts);
    ok
}

/// Where a type that is needed has not been found out.
pub open spec fn unresolved_error(span: SpanV) -> MetelErrorV {
    MetelErrorV::TypeError {
        code: TypeErrorCode::T0002,
        message: "cannot infer type; add a type annotation"@,
        span,
    }
}

/// The type that an inference type stands for, or the error that variables are left in it.
pub open spec fn lower(t: InferTypeV, span: SpanV) -> Result<TypeV, MetelErrorV> {
    if resolved(t) {
        Ok(lowered(t))
    } else {
        Err(unresolved_error(span))
    }
}

/// The type that an inference type stands for.
pub fn infer_type_to_type(ty: &InferType, span: &Span) -> (r: Result<Type, MetelError>)
    ensures
        match lower(ty@, span@) {
            Ok(t) => r matches Ok(x) && x@ == t,
            Err(e) => r matches Err(x) && x@ == e,
        },
{
    match infer_to_type(ty) {
        Some(t) => Ok(t),
        None => Err(
            MetelError::type_error(
                TypeErrorCode::T0002,
                "cannot infer type; add a type annotation".to_owned(),
                span,
            ),
        ),
    }
}

/// The `i`-th variable from a counter on, which starts over past its largest value.
pub open spec fn fresh_var(next: u32, i: int) -> TypeVar {
    TypeVar(((next as int + i) % 0x1_0000_0000) as u32)
}

/// The counter after `n` variables.
pub open spec fn after_fresh(next: u32, n: int) -> u32 {
    ((next as int + n) % 0x1_0000_0000) as u32
}

/// The variables replaced by fresh ones, the first `n` of them.
pub open spec fn renaming(q: Seq<TypeVar>, next: u32, n: int) -> Map<TypeVar, InferTypeV>
    decreases n,
{
    if n <= 0 || n > q.len() {
        Map::empty()
    } else {
        renaming(q, next, n - 1).insert(q[n - 1], InferTypeV::Var(fresh_var(next, n - 1)))
    }
}

/// A supply of type variables.
#[derive(Debug)]
pub struct TypeVarGenerator {
    pub next: u32,
}

impl TypeVarGenerator {
    /// A supply that starts at `next`.
    pub fn with_counter(next: u32) -> (r: Self)
        ensures
            r.next == next,
    {
        TypeVarGenerator { next }
    }

    /// The next variable.
    pub fn fresh(&mut self) -> (r: TypeVar)
        ensures
            r == fresh_var(old(self).next, 0),
            final(self).next == after_fresh(old(self).next, 1),
    {
        let v: u32 = self.next;
        self.next = v.wrapping_add(1);
        TypeVar(v)
    }
}

/// The type of a scheme with fresh variables in place of the quantified ones, and the
/// replacement.
pub fn instantiate_with_renaming(scheme: &TypeScheme, gen: &mut TypeVarGenerator) -> (r: (
    InferType,
    Substitution,
))
    ensures
        r.1@ == renaming(
            scheme.quantified_vars@,
            old(gen).next,
            scheme.quantified_vars@.len() as int,
        ),
        r.0@ == substituted(r.1@, scheme.ty@),
        final(gen).next == after_fresh(old(gen).next, scheme.quantified_vars@.len() as int),
{
    let mut subst: Substitution = Substitution::new();
    let ghost start = gen.next;
    let ghost q = scheme.quantified_vars@;
    let mut i: usize = 0;
    while i < scheme.quantified_vars.len()
        invariant
            i <= q.len(),
            q == scheme.quantified_vars@,
            gen.next == after_fresh(start, i as int),
            subst@ == renaming(q, start, i as int),
        decreases q.len() - i,
    {
        let v: TypeVar = gen.fresh();
        subst.bind(scheme.quantified_vars[i], InferType::Var(v));
        i += 1;
    }
    let instance: InferType = subst.apply(&scheme.ty);
    (instance, subst)
}

/// A [`GenericBound`] as a mathematical object.
#[allow(inconsistent_fields)]
pub ghost enum GenericBoundV {
    Aspect(Seq<char>),
    Row { fields: Seq<(Seq<char>, Option<TypeExprV>)>, open: bool },
}

/// An [`AssocProjection`] as a mathematical object.
pub ghost struct AssocProjectionV {
    pub base: usize,
    pub aspect: Seq<char>,
    pub assoc: Seq<char>,
    pub placeholder: TypeVar,
}

/// An [`AssocEq`] as a mathematical object.
pub ghost struct AssocEqV {
    pub aspect: Seq<char>,
    pub assoc: Seq<char>,
    pub expected: InferTypeV,
}

/// An [`OpaqueReturn`] as a mathematical object.
pub ghost struct OpaqueReturnV {
    pub aspect: Seq<char>,
    pub ty: TypeV,
}

/// A [`TypeScheme`] as a mathematical object.
pub ghost struct TypeSchemeV {
    pub vars: Seq<TypeVar>,
    pub names: Seq<Seq<char>>,
    pub bounds: Seq<Seq<GenericBoundV>>,
    pub neg_bounds: Seq<Seq<GenericBoundV>>,
    pub record_kinds: Seq<bool>,
    pub assoc_projections: Seq<Option<AssocProjectionV>>,
    pub assoc_eqs: Seq<Seq<AssocEqV>>,
    pub opaque_returns: Seq<Option<OpaqueReturnV>>,
    pub ty: InferTypeV,
}

/// A type, where there is one, as a mathematical object.
pub open spec fn opt_type_expr(t: Option<TypeExpr>) -> Option<TypeExprV> {
    match t {
        Some(t) => Some(t@),
        None => None,
    }
}

/// The views of the labels of a row.
pub open spec fn row_view(s: Seq<RowField>) -> Seq<(Seq<char>, Option<TypeExprV>)> {
    Seq::new(s.len(), |i: int| (s[i].label@, opt_type_expr(s[i].ty)))
}

impl View for GenericBound {
    type V = GenericBoundV;

    open spec fn view(&self) -> GenericBoundV {
        match *self {
            GenericBound::Aspect(a) => GenericBoundV::Aspect(a@),
            GenericBound::Row(r) => GenericBoundV::Row {
                fields: row_view(r.fields@),
                open: r.open,
            },
        }
    }
}

/// The views of bounds.
pub open spec fn bounds_view(s: Seq<GenericBound>) -> Seq<GenericBoundV> {
    Seq::new(s.len(), |i: int| s[i]@)
}

/// The views of lists of bounds.
pub open spec fn bound_lists_view(s: Seq<Vec<GenericBound>>) -> Seq<Seq<GenericBoundV>> {
    Seq::new(s.len(), |i: int| bounds_view(s[i]@))
}

/// The views of associated types of type parameters.
pub open spec fn projections_view(s: Seq<Option<AssocProjection>>) -> Seq<Option<AssocProjectionV>> {
    Seq::new(
        s.len(),
        |i: int|
            match s[i] {
                Some(p) => Some(
                    AssocProjectionV {
                        base: p.base,
                        aspect: p.aspect@,
                        assoc: p.assoc@,
                        placeholder: p.placeholder,
                    },
                ),
                None => None,
            },
    )
}

/// The views of demands on associated types.
pub open spec fn eqs_view(s: Seq<AssocEq>) -> Seq<AssocEqV> {
    Seq::new(
        s.len(),
        |i: int|
            AssocEqV { aspect: s[i].aspect@, assoc: s[i].assoc@, expected: s[i].expected@ },
    )
}

/// The views of lists of demands on associated types.
pub open spec fn eq_lists_view(s: Seq<Vec<AssocEq>>) -> Seq<Seq<AssocEqV>> {
    Seq::new(s.len(), |i: int| eqs_view(s[i]@))
}

/// The views of the types behind opaque return types.
pub open spec fn opaques_view(s: Seq<Option<OpaqueReturn>>) -> Seq<Option<OpaqueReturnV>> {
    Seq::new(
        s.len(),
        |i: int|
            match s[i] {
                Some(o) => Some(OpaqueReturnV { aspect: o.aspect@, ty: o.ty@ }),
                None => None,
            },
    )
}

impl View for TypeScheme {
    type V = TypeSchemeV;

    open spec fn view(&self) -> TypeSchemeV {
        TypeSchemeV {
            vars: self.quantified_vars@,
            names: texts(self.param_names@),
            bounds: bound_lists_view(self.bounds@),
            neg_bounds: bound_lists_view(self.neg_bounds@),
            record_kinds: self.record_kinds@,
            assoc_projections: projections_view(self.assoc_projections@),
            assoc_eqs: eq_lists_view(self.assoc_eq_constraints@),
            opaque_returns: opaques_view(self.opaque_returns@),
            ty: self.ty@,
        }
    }
}

} // verus!
