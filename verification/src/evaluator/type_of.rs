//! The types of run-time values.
use vstd::prelude::*;
use crate::infer::{infer_to_type, lowered, resolved, InferTypeV};
use crate::infer::{Substitution, TypeVar};
use crate::lookup::{enum_of, find_variant, variant_of};
use crate::registry::{struct_of, FieldEntry, TypeDefinitionRegistry};
use crate::scheme::{solve, unify};
use crate::text::{joined3, precedes, same_text, text_before};
use crate::types::{named_types_view, type_view, types_view, Type, TypeV};
use super::value::{named_values_view, segments_view, value_view, values_view};
use super::value::{Heap, HeapV, PathSegment, PathSegmentV, RuntimeCallable, RuntimeCallableV};
use super::value::{Value, ValueV};

verus! {

/// Fields in order with one more, behind those that do not come after it.
pub open spec fn with_field(s: Seq<(Seq<char>, TypeV)>, f: (Seq<char>, TypeV)) -> Seq<
    (Seq<char>, TypeV),
>
    decreases s.len(),
{
    if s.len() == 0 {
        seq![f]
    } else if text_before(f.0, s.last().0) {
        with_field(s.drop_last(), f).push(s.last())
    } else {
        s.push(f)
    }
}

/// Fields in the order of their names.
pub open spec fn sorted_fields(s: Seq<(Seq<char>, TypeV)>) -> Seq<(Seq<char>, TypeV)>
    decreases s.len(),
{
    if s.len() == 0 {
        s
    } else {
        with_field(sorted_fields(s.drop_last()), s.last())
    }
}

/// The type of a field.
pub open spec fn type_named(s: Seq<(Seq<char>, TypeV)>, name: Seq<char>) -> Option<TypeV>
    decreases s.len(),
{
    if s.len() == 0 {
        None
    } else if s[0].0 == name {
        Some(s[0].1)
    } else {
        type_named(s.skip(1), name)
    }
}

/// What the types of the first `k` declared fields say about type parameters. A field whose type
/// does not fit says nothing.
pub open spec fn fields_solved(
    declared: Seq<FieldEntry>,
    given: Seq<(Seq<char>, TypeV)>,
    k: int,
) -> Map<TypeVar, InferTypeV>
    decreases k,
{
    if k <= 0 || k > declared.len() {
        Map::empty()
    } else {
        let m = fields_solved(declared, given, k - 1);
        match type_named(given, declared[k - 1].name@) {
            Some(t) => match solve(m, declared[k - 1].ty@, t) {
                Some(m1) => m1,
                None => m,
            },
            None => m,
        }
    }
}

/// The types that variables stand for, `!` where nothing is known.
pub open spec fn known_types(m: Map<TypeVar, InferTypeV>, vars: Seq<TypeVar>) -> Seq<TypeV> {
    Seq::new(
        vars.len(),
        |i: int|
            if m.dom().contains(vars[i]) && resolved(m[vars[i]]) {
                lowered(m[vars[i]])
            } else {
                TypeV::Never
            },
    )
}

/// The type arguments of a struct, or of an enum with a variant, as far as the types of the fields
/// tell them.
pub open spec fn named_type_args(
    reg: TypeDefinitionRegistry,
    name: Seq<char>,
    variant: Option<Seq<char>>,
    given: Seq<(Seq<char>, TypeV)>,
) -> Seq<TypeV> {
    match variant {
        None => match struct_of(reg, name) {
            Some(info) => match info.type_params {
                Some(vars) => known_types(
                    fields_solved(info.fields@, given, info.fields@.len() as int),
                    vars@,
                ),
                None => Seq::empty(),
            },
            None => Seq::empty(),
        },
        Some(variant) => match enum_of(reg, name) {
            Some(info) => match variant_of(info, variant) {
                Some(v) => known_types(
                    fields_solved(v.fields@, given, v.fields@.len() as int),
                    info.type_params@,
                ),
                None => Seq::empty(),
            },
            None => Seq::empty(),
        },
    }
}

/// The type of a part of a value, by the type of the whole, as far as the type tells it.
pub open spec fn part_type(t: TypeV, seg: PathSegmentV) -> TypeV {
    match (seg, t) {
        (PathSegmentV::Field(f), TypeV::Named(name, _)) => TypeV::Named(
            name + "."@ + f,
            Seq::empty(),
        ),
        (PathSegmentV::Field(f), TypeV::Record(fields)) => match type_named(fields, f) {
            Some(x) => x,
            None => TypeV::Unit,
        },
        (PathSegmentV::TupleIndex(_), t) => t,
        (PathSegmentV::ArrayIndex(_), t) => t,
        _ => TypeV::Unit,
    }
}

/// The type behind the first `k` steps of a path.
pub open spec fn path_type(t: TypeV, path: Seq<PathSegmentV>, k: int) -> TypeV
    decreases k,
{
    if k <= 0 || k > path.len() {
        t
    } else {
        part_type(path_type(t, path, k - 1), path[k - 1])
    }
}

/// The type of what a closure or a builtin is, where nothing is known of it.
pub open spec fn opaque_fun() -> TypeV {
    TypeV::Fun(Seq::empty(), Box::new(TypeV::Unit))
}

/// The type of a value, or `None` for a value that more than `fuel` references lead through.
pub open spec fn type_of(heap: HeapV, reg: TypeDefinitionRegistry, v: ValueV, fuel: nat) -> Option<
    TypeV,
>
    decreases fuel, 1int, v, 0int,
{
    match v {
        ValueV::I8(_) => Some(TypeV::I8),
        ValueV::I16(_) => Some(TypeV::I16),
        ValueV::I32(_) => Some(TypeV::I32),
        ValueV::I64(_) => Some(TypeV::I64),
        ValueV::U8(_) => Some(TypeV::U8),
        ValueV::U16(_) => Some(TypeV::U16),
        ValueV::U32(_) => Some(TypeV::U32),
        ValueV::U64(_) => Some(TypeV::U64),
        ValueV::F32(_) => Some(TypeV::F32),
        ValueV::F64(_) => Some(TypeV::F64),
        ValueV::Char(_) => Some(TypeV::Char),
        ValueV::Boolean(_) => Some(TypeV::Boolean),
        ValueV::Str(_) => Some(TypeV::Str),
        ValueV::Unit => Some(TypeV::Unit),
        ValueV::Tuple(s) => match types_of(heap, reg, s, s.len() as int, fuel) {
            Some(t) => Some(TypeV::Tuple(t)),
            None => None,
        },
        ValueV::Record { fields } => match field_types_of(
            heap,
            reg,
            fields,
            fields.len() as int,
            fuel,
        ) {
            Some(t) => Some(TypeV::Record(sorted_fields(t))),
            None => None,
        },
        ValueV::Array(i) => if i < heap.arrays.len() && heap.arrays[i as int].len() > 0 {
            match target_type(heap, reg, heap.arrays[i as int][0], fuel) {
                Some(t) => Some(TypeV::Array(Box::new(t))),
                None => None,
            }
        } else {
            Some(TypeV::Array(Box::new(TypeV::Never)))
        },
        ValueV::Struct { name, fields } => match field_types_of(
            heap,
            reg,
            fields,
            fields.len() as int,
            fuel,
        ) {
            Some(t) => Some(TypeV::Named(name, named_type_args(reg, name, None, t))),
            None => None,
        },
        ValueV::Enum { name, variant, fields } => match field_types_of(
            heap,
            reg,
            fields,
            fields.len() as int,
            fuel,
        ) {
            Some(t) => Some(TypeV::Named(name, named_type_args(reg, name, Some(variant), t))),
            None => None,
        },
        ValueV::Callable(RuntimeCallableV::Closure { fun_type }) => match fun_type {
            Some(t) => Some(t),
            None => Some(opaque_fun()),
        },
        ValueV::Callable(RuntimeCallableV::Intrinsic { .. }) => Some(opaque_fun()),
        ValueV::Reference(i) => match cell_type(heap, reg, i, fuel) {
            Some(t) => Some(TypeV::Reference(Box::new(t))),
            None => None,
        },
        ValueV::MutReference(i) => match cell_type(heap, reg, i, fuel) {
            Some(t) => Some(TypeV::MutReference(Box::new(t))),
            None => None,
        },
        ValueV::FieldReference { root, path } => match cell_type(heap, reg, root, fuel) {
            Some(t) => Some(
                TypeV::Reference(Box::new(path_type(t, path, path.len() as int))),
            ),
            None => None,
        },
        ValueV::MutFieldReference { root, path } => match cell_type(heap, reg, root, fuel) {
            Some(t) => Some(
                TypeV::MutReference(Box::new(path_type(t, path, path.len() as int))),
            ),
            None => None,
        },
    }
}

/// The type of a value that lies in the heap.
pub open spec fn target_type(heap: HeapV, reg: TypeDefinitionRegistry, v: ValueV, fuel: nat) -> Option<
    TypeV,
>
    decreases fuel, 0int, v, 0int,
{
    if fuel == 0 {
        None
    } else {
        type_of(heap, reg, v, (fuel - 1) as nat)
    }
}

/// The type of what lies in a cell; a cell that does not exist holds `()`.
pub open spec fn cell_type(heap: HeapV, reg: TypeDefinitionRegistry, i: usize, fuel: nat) -> Option<
    TypeV,
>
    decreases fuel, 0int, ValueV::Unit, 0int,
{
    if i >= heap.cells.len() {
        Some(TypeV::Unit)
    } else if fuel == 0 {
        None
    } else {
        type_of(heap, reg, heap.cells[i as int], (fuel - 1) as nat)
    }
}

/// The types of the first `k` values.
pub open spec fn types_of(
    heap: HeapV,
    reg: TypeDefinitionRegistry,
    s: Seq<ValueV>,
    k: int,
    fuel: nat,
) -> Option<Seq<TypeV>>
    decreases fuel, 1int, s, k,
{
    if k <= 0 || k > s.len() {
        Some(Seq::empty())
    } else {
        match types_of(heap, reg, s, k - 1, fuel) {
            Some(before) => match type_of(heap, reg, s[k - 1], fuel) {
                Some(t) => Some(before.push(t)),
                None => None,
            },
            None => None,
        }
    }
}

/// The types of the first `k` fields.
pub open spec fn field_types_of(
    heap: HeapV,
    reg: TypeDefinitionRegistry,
    s: Seq<(Seq<char>, ValueV)>,
    k: int,
    fuel: nat,
) -> Option<Seq<(Seq<char>, TypeV)>>
    decreases fuel, 1int, s, k,
{
    if k <= 0 || k > s.len() {
        Some(Seq::empty())
    } else {
        match field_types_of(heap, reg, s, k - 1, fuel) {
            Some(before) => match type_of(heap, reg, s[k - 1].1, fuel) {
                Some(t) => Some(before.push((s[k - 1].0, t))),
                None => None,
            },
            None => None,
        }
    }
}

/// How deep references may lead: one that leads deeper than there are places in the heap leads
/// back to itself.
pub open spec fn depth_limit(heap: HeapV) -> nat {
    heap.arrays.len() + heap.cells.len()
}

fn insert_field(v: &mut Vec<(String, Type)>, f: (String, Type))
    ensures
        named_types_view(final(v)@) == with_field(named_types_view(old(v)@), (f.0@, f.1@)),
    decreases old(v)@.len(),
{
    let ghost before = v@;
    let ghost views = named_types_view(v@);
    let ghost fv = (f.0@, f.1@);
    assert(views.len() == v@.len());
    if v.len() == 0 {
        v.push(f);
        assert(named_types_view(v@) =~= seq![fv]);
        return;
    }
    let n: usize = v.len();
    assert(views.last() == (v@[n - 1].0@, type_view(v@[n - 1].1)));
    if precedes(f.0.as_str(), v[n - 1].0.as_str()) {
        if let Some(last) = v.pop() {
            let ghost lv = (last.0@, type_view(last.1));
            assert(named_types_view(v@) =~= views.drop_last());
            insert_field(v, f);
            let ghost mid = v@;
            v.push(last);
            assert(named_types_view(v@) =~= named_types_view(mid).push(lv));
        }
    } else {
        v.push(f);
        assert(named_types_view(v@) =~= views.push(fv));
    }
}

fn sort_fields(v: Vec<(String, Type)>) -> (r: Vec<(String, Type)>)
    ensures
        named_types_view(r@) == sorted_fields(named_types_view(v@)),
{
    let ghost views = named_types_view(v@);
    assert(views.len() == v@.len());
    let mut out: Vec<(String, Type)> = Vec::new();
    assert(named_types_view(out@) =~= sorted_fields(views.take(0)));
    let mut i: usize = 0;
    while i < v.len()
        invariant
            i <= v@.len(),
            views == named_types_view(v@),
            views.len() == v@.len(),
            named_types_view(out@) == sorted_fields(views.take(i as int)),
        decreases v@.len() - i,
    {
        let ghost after = views.take(i + 1);
        assert(after.drop_last() =~= views.take(i as int));
        assert(after.last() == (v@[i as int].0@, type_view(v@[i as int].1)));
        insert_field(&mut out, (v[i].0.clone(), v[i].1.copy()));
        i += 1;
    }
    assert(views.take(i as int) =~= views);
    out
}

fn find_type<'a>(v: &'a Vec<(String, Type)>, name: &str) -> (r: Option<&'a Type>)
    ensures
        match r {
            Some(t) => type_named(named_types_view(v@), name@) == Some(t@),
            None => type_named(named_types_view(v@), name@) is None,
        },
{
    let ghost views = named_types_view(v@);
    assert(views.len() == v@.len());
    assert(views.skip(0) =~= views);
    let mut i: usize = 0;
    while i < v.len()
        invariant
            i <= v@.len(),
            views == named_types_view(v@),
            views.len() == v@.len(),
            type_named(views, name@) == type_named(views.skip(i as int), name@),
        decreases v@.len() - i,
    {
        assert(views.skip(i as int)[0] == views[i as int]);
        assert(views.skip(i as int).skip(1) =~= views.skip(i + 1));
        assert(views[i as int] == (v@[i as int].0@, type_view(v@[i as int].1)));
        if same_text(v[i].0.as_str(), name) {
            return Some(&v[i].1);
        }
        i += 1;
    }
    None
}

fn solve_fields_of(declared: &Vec<FieldEntry>, given: &Vec<(String, Type)>) -> (r: Substitution)
    ensures
        r@ == fields_solved(declared@, named_types_view(given@), declared@.len() as int),
{
    let ghost views = named_types_view(given@);
    let mut subst: Substitution = Substitution::new();
    assert(subst@ =~= Map::empty());
    let mut i: usize = 0;
    while i < declared.len()
        invariant
            i <= declared@.len(),
            views == named_types_view(given@),
            subst@ == fields_solved(declared@, views, i as int),
        decreases declared@.len() - i,
    {
        if let Some(t) = find_type(given, declared[i].name.as_str()) {
            let mut trial: Substitution = subst.copy();
            if unify(&mut trial, &declared[i].ty, t) {
                subst = trial;
            }
        }
        i += 1;
    }
    subst
}

fn types_known(subst: &Substitution, vars: &Vec<TypeVar>) -> (r: Vec<Type>)
    ensures
        types_view(r@) == known_types(subst@, vars@),
{
    let ghost whole = known_types(subst@, vars@);
    let mut out: Vec<Type> = Vec::new();
    let mut i: usize = 0;
    while i < vars.len()
        invariant
            i <= vars@.len(),
            whole == known_types(subst@, vars@),
            out@.len() == i,
            forall|k: int| 0 <= k < i ==> type_view(#[trigger] out@[k]) == whole[k],
        decreases vars@.len() - i,
    {
        let ty: Type = match subst.lookup(vars[i]) {
            Some(t) => match infer_to_type(t) {
                Some(t) => t,
                None => Type::Never,
            },
            None => Type::Never,
        };
        out.push(ty);
        i += 1;
    }
    assert(types_view(out@).len() == out@.len());
    assert(types_view(out@) =~= whole);
    out
}

fn no_types() -> (r: Vec<Type>)
    ensures
        types_view(r@) == Seq::<TypeV>::empty(),
{
    let r: Vec<Type> = Vec::new();
    assert(types_view(r@) =~= Seq::<TypeV>::empty());
    r
}

/// The type arguments of a struct, or of an enum with a variant, as far as the types of the fields
/// tell them.
pub fn infer_named_type_args(
    registry: &TypeDefinitionRegistry,
    name: &str,
    variant: Option<&str>,
    given: &Vec<(String, Type)>,
) -> (r: Vec<Type>)
    ensures
        types_view(r@) == named_type_args(
            *registry,
            name@,
            match variant {
                Some(v) => Some(v@),
                None => None,
            },
            named_types_view(given@),
        ),
{
    match variant {
        None => match registry.struct_info(name) {
            Some(info) => match &info.type_params {
                Some(vars) => {
                    let subst: Substitution = solve_fields_of(&info.fields, given);
                    types_known(&subst, vars)
                },
                None => no_types(),
            },
            None => no_types(),
        },
        Some(variant) => match registry.enum_info(name) {
            Some(info) => match find_variant(info, variant) {
                Some(v) => {
                    let subst: Substitution = solve_fields_of(&v.fields, given);
                    types_known(&subst, &info.type_params)
                },
                None => no_types(),
            },
            None => no_types(),
        },
    }
}

fn step_into(t: Type, seg: &PathSegment) -> (r: Type)
    ensures
        r@ == part_type(t@, seg@),
{
    match seg {
        PathSegment::Field(f) => match t {
            Type::Named(name, _) => {
                let args: Vec<Type> = no_types();
                Type::Named(joined3(name.as_str(), ".", f.as_str()), args)
            },
            Type::Record(fields) => match find_type(&fields, f.as_str()) {
                Some(x) => x.copy(),
                None => Type::Unit,
            },
            _ => Type::Unit,
        },
        PathSegment::TupleIndex(_) => t,
        PathSegment::ArrayIndex(_) => t,
    }
}

fn follow(t: Type, path: &Vec<PathSegment>) -> (r: Type)
    ensures
        r@ == path_type(t@, segments_view(path@), path@.len() as int),
{
    let ghost start = t@;
    let ghost views = segments_view(path@);
    let mut cur: Type = t;
    let mut i: usize = 0;
    while i < path.len()
        invariant
            i <= path@.len(),
            views == segments_view(path@),
            cur@ == path_type(start, views, i as int),
        decreases path@.len() - i,
    {
        assert(views[i as int] == path@[i as int]@);
        cur = step_into(cur, &path[i]);
        i += 1;
    }
    cur
}

fn unknown_fun() -> (r: Type)
    ensures
        r@ == opaque_fun(),
{
    let params: Vec<Type> = no_types();
    let unit: Type = Type::Unit;
    assert(unit@ == TypeV::Unit);
    Type::Fun(params, Box::new(unit))
}

/// A type, or none, as a mathematical object.
pub open spec fn found_type(t: Option<Type>) -> Option<TypeV> {
    match t {
        Some(t) => Some(t@),
        None => None,
    }
}

fn cell_to_type(heap: &Heap, registry: &TypeDefinitionRegistry, i: usize, fuel: usize) -> (r: Option<
    Type,
>)
    ensures
        found_type(r) == cell_type(heap@, *registry, i, fuel as nat),
    decreases fuel, 0int, Value::Unit,
{
    assert(heap@.cells.len() == heap.cells@.len());
    if i >= heap.cells.len() {
        return Some(Type::Unit);
    }
    if fuel == 0 {
        return None;
    }
    assert(heap@.cells[i as int] == value_view(heap.cells@[i as int]));
    typed_value(&heap.cells[i], heap, registry, fuel - 1)
}

fn typed_values(
    v: &Vec<Value>,
    heap: &Heap,
    registry: &TypeDefinitionRegistry,
    fuel: usize,
) -> (r: Option<Vec<Type>>)
    ensures
        match types_of(heap@, *registry, values_view(v@), v@.len() as int, fuel as nat) {
            Some(t) => r matches Some(x) && types_view(x@) == t,
            None => r is None,
        },
    decreases fuel, 1int, v@,
{
    let ghost views = values_view(v@);
    assert(views.len() == v@.len());
    let mut out: Vec<Type> = Vec::new();
    assert(types_view(out@) =~= Seq::empty());
    let mut ok: bool = true;
    let mut i: usize = 0;
    while i < v.len()
        invariant
            i <= v@.len(),
            views == values_view(v@),
            views.len() == v@.len(),
            types_of(heap@, *registry, views, i as int, fuel as nat) == (if ok {
                Some(types_view(out@))
            } else {
                None
            }),
        decreases v@.len() - i,
    {
        assert(views[i as int] == value_view(v@[i as int]));
        if ok {
            let ghost before = out@;
            match typed_value(&v[i], heap, registry, fuel) {
                Some(t) => {
                    let ghost tv = t@;
                    out.push(t);
                    assert(types_view(out@) =~= types_view(before).push(tv));
                },
                None => {
                    ok = false;
                },
            }
        }
        i += 1;
    }
    if ok {
        Some(out)
    } else {
        None
    }
}

fn typed_fields(
    v: &Vec<(String, Value)>,
    heap: &Heap,
    registry: &TypeDefinitionRegistry,
    fuel: usize,
) -> (r: Option<Vec<(String, Type)>>)
    ensures
        match field_types_of(
            heap@,
            *registry,
            named_values_view(v@),
            v@.len() as int,
            fuel as nat,
        ) {
            Some(t) => r matches Some(x) && named_types_view(x@) == t,
            None => r is None,
        },
    decreases fuel, 1int, v@,
{
    let ghost views = named_values_view(v@);
    assert(views.len() == v@.len());
    let mut out: Vec<(String, Type)> = Vec::new();
    assert(named_types_view(out@) =~= Seq::empty());
    let mut ok: bool = true;
    let mut i: usize = 0;
    while i < v.len()
        invariant
            i <= v@.len(),
            views == named_values_view(v@),
            views.len() == v@.len(),
            field_types_of(heap@, *registry, views, i as int, fuel as nat) == (if ok {
                Some(named_types_view(out@))
            } else {
                None
            }),
        decreases v@.len() - i,
    {
        assert(views[i as int] == (v@[i as int].0@, value_view(v@[i as int].1)));
        if ok {
            let ghost before = out@;
            match typed_value(&v[i].1, heap, registry, fuel) {
                Some(t) => {
                    let ghost tv = t@;
                    out.push((v[i].0.clone(), t));
                    assert(named_types_view(out@) =~= named_types_view(before).push(
                        (v@[i as int].0@, tv),
                    ));
                },
                None => {
                    ok = false;
                },
            }
        }
        i += 1;
    }
    if ok {
        Some(out)
    } else {
        None
    }
}

fn typed_value(
    value: &Value,
    heap: &Heap,
    registry: &TypeDefinitionRegistry,
    fuel: usize,
) -> (r: Option<Type>)
    ensures
        found_type(r) == type_of(heap@, *registry, value@, fuel as nat),
    decreases fuel, 1int, *value,
{
    match value {
        Value::I8(_) => Some(Type::I8),
        Value::I16(_) => Some(Type::I16),
        Value::I32(_) => Some(Type::I32),
        Value::I64(_) => Some(Type::I64),
        Value::U8(_) => Some(Type::U8),
        Value::U16(_) => Some(Type::U16),
        Value::U32(_) => Some(Type::U32),
        Value::U64(_) => Some(Type::U64),
        Value::F32(_) => Some(Type::F32),
        Value::F64(_) => Some(Type::F64),
        Value::Char(_) => Some(Type::Char),
        Value::Boolean(_) => Some(Type::Boolean),
        Value::Str(_) => Some(Type::Str),
        Value::Unit => Some(Type::Unit),
        Value::Tuple(s) => {
            assert(values_view(s@).len() == s@.len());
            match typed_values(s, heap, registry, fuel) {
                Some(t) => Some(Type::Tuple(t)),
                None => None,
            }
        },
        Value::Record { fields } => {
            assert(named_values_view(fields@).len() == fields@.len());
            match typed_fields(fields, heap, registry, fuel) {
                Some(t) => Some(Type::Record(sort_fields(t))),
                None => None,
            }
        },
        Value::Array(i) => {
            assert(heap@.arrays.len() == heap.arrays@.len());
            if *i < heap.arrays.len() && heap.arrays[*i].len() > 0 {
                assert(heap@.arrays[*i as int] == values_view(heap.arrays@[*i as int]@));
                assert(heap@.arrays[*i as int][0] == value_view(heap.arrays@[*i as int]@[0]));
                assert(heap@.arrays[*i as int].len() > 0);
                if fuel == 0 {
                    return None;
                }
                match typed_value(&heap.arrays[*i][0], heap, registry, fuel - 1) {
                    Some(t) => Some(Type::Array(Box::new(t))),
                    None => None,
                }
            } else {
                assert(*i < heap@.arrays.len() ==> heap@.arrays[*i as int] == values_view(
                    heap.arrays@[*i as int]@,
                ));
                let elem: Type = Type::Never;
                assert(elem@ == TypeV::Never);
                Some(Type::Array(Box::new(elem)))
            }
        },
        Value::Struct { name, fields } => {
            assert(named_values_view(fields@).len() == fields@.len());
            match typed_fields(fields, heap, registry, fuel) {
                Some(t) => {
                    let args: Vec<Type> = infer_named_type_args(registry, name.as_str(), None, &t);
                    Some(Type::Named(name.clone(), args))
                },
                None => None,
            }
        },
        Value::Enum { name, variant, fields } => {
            assert(named_values_view(fields@).len() == fields@.len());
            match typed_fields(fields, heap, registry, fuel) {
                Some(t) => {
                    let args: Vec<Type> = infer_named_type_args(
                        registry,
                        name.as_str(),
                        Some(variant.as_str()),
                        &t,
                    );
                    Some(Type::Named(name.clone(), args))
                },
                None => None,
            }
        },
        Value::Callable(c) => match c {
            RuntimeCallable::Closure { fun_type } => match fun_type {
                Some(t) => Some(t.copy()),
                None => Some(unknown_fun()),
            },
            RuntimeCallable::Intrinsic { .. } => Some(unknown_fun()),
        },
        Value::Reference(i) => match cell_to_type(heap, registry, *i, fuel) {
            Some(t) => Some(Type::Reference(Box::new(t))),
            None => None,
        },
        Value::MutReference(i) => match cell_to_type(heap, registry, *i, fuel) {
            Some(t) => Some(Type::MutReference(Box::new(t))),
            None => None,
        },
        Value::FieldReference { root, path } => match cell_to_type(heap, registry, *root, fuel) {
            Some(t) => Some(Type::Reference(Box::new(follow(t, path)))),
            None => None,
        },
        Value::MutFieldReference { root, path } => match cell_to_type(
            heap,
            registry,
            *root,
            fuel,
        ) {
            Some(t) => Some(Type::MutReference(Box::new(follow(t, path)))),
            None => None,
        },
    }
}

/// The type of a value, or `None` for a value that contains itself.
///
/// An empty array has elements of type `!`, which goes with every type: nothing can be sampled,
/// and nothing that reads an element is ever run. The type arguments of a struct or an enum are
/// recovered from the types of its fields.
pub fn value_to_type(value: &Value, heap: &Heap, registry: &TypeDefinitionRegistry) -> (r: Option<
    Type,
>)
    requires
        heap@.arrays.len() + heap@.cells.len() <= usize::MAX,
    ensures
        found_type(r) == type_of(heap@, *registry, value@, depth_limit(heap@)),
{
    assert(heap@.arrays.len() == heap.arrays@.len());
    assert(heap@.cells.len() == heap.cells@.len());
    let limit: usize = heap.arrays.len() + heap.cells.len();
    typed_value(value, heap, registry, limit)
}

/// A type with every `!` in it replaced by what another type has in its place.
pub open spec fn refined(run: TypeV, known: TypeV) -> TypeV
    decreases run,
{
    match (run, known) {
        (TypeV::Never, _) => known,
        (TypeV::Array(r), TypeV::Array(s)) => TypeV::Array(Box::new(refined(*r, *s))),
        (TypeV::SizedArray(r, n), TypeV::SizedArray(s, _)) => TypeV::SizedArray(
            Box::new(refined(*r, *s)),
            n,
        ),
        (TypeV::Reference(r), TypeV::Reference(s)) => TypeV::Reference(
            Box::new(refined(*r, *s)),
        ),
        (TypeV::MutReference(r), TypeV::MutReference(s)) => TypeV::MutReference(
            Box::new(refined(*r, *s)),
        ),
        (TypeV::Tuple(r), TypeV::Tuple(s)) => if r.len() == s.len() {
            TypeV::Tuple(all_refined(r, s))
        } else {
            run
        },
        (TypeV::Named(n, r), TypeV::Named(k, s)) => if n == k && r.len() == s.len() {
            TypeV::Named(n, all_refined(r, s))
        } else {
            run
        },
        (TypeV::Fun(r, x), TypeV::Fun(s, y)) => if r.len() == s.len() {
            TypeV::Fun(all_refined(r, s), Box::new(refined(*x, *y)))
        } else {
            run
        },
        (TypeV::Record(r), TypeV::Record(s)) => TypeV::Record(fields_refined(r, s)),
        _ => run,
    }
}

/// [`refined`] by position.
pub open spec fn all_refined(r: Seq<TypeV>, s: Seq<TypeV>) -> Seq<TypeV>
    decreases r,
{
    Seq::new(r.len(), |i: int| if 0 <= i < r.len() { refined(r[i], s[i]) } else { arbitrary() })
}

/// [`refined`] for the fields of records, which are in the order of their labels.
pub open spec fn fields_refined(
    r: Seq<(Seq<char>, TypeV)>,
    s: Seq<(Seq<char>, TypeV)>,
) -> Seq<(Seq<char>, TypeV)>
    decreases r,
{
    Seq::new(
        r.len(),
        |i: int|
            if 0 <= i < r.len() {
                (
                    r[i].0,
                    if i < s.len() && s[i].0 == r[i].0 {
                        refined(r[i].1, s[i].1)
                    } else {
                        r[i].1
                    },
                )
            } else {
                arbitrary()
            },
    )
}

/// Fill in what the type of a run-time value could not know, from the type at the call site. The
/// run-time type stays authoritative, except where it says `!` because there was nothing to
/// sample.
#[must_use]
pub fn refine_with_static(runtime: &Type, static_ty: &Type) -> (r: Type)
    ensures
        r@ == refined(runtime@, static_ty@),
    decreases *runtime,
{
    match (runtime, static_ty) {
        (Type::Never, other) => other.copy(),
        (Type::Array(r), Type::Array(s)) => Type::Array(Box::new(refine_with_static(r, s))),
        (Type::SizedArray(r, n), Type::SizedArray(s, _)) => Type::SizedArray(
            Box::new(refine_with_static(r, s)),
            *n,
        ),
        (Type::Reference(r), Type::Reference(s)) => Type::Reference(
            Box::new(refine_with_static(r, s)),
        ),
        (Type::MutReference(r), Type::MutReference(s)) => Type::MutReference(
            Box::new(refine_with_static(r, s)),
        ),
        (Type::Tuple(r), Type::Tuple(s)) => {
            assert(types_view(r@).len() == r@.len());
            assert(types_view(s@).len() == s@.len());
            if r.len() == s.len() {
                Type::Tuple(refine_all(r, s))
            } else {
                runtime.copy()
            }
        },
        (Type::Named(n, r), Type::Named(k, s)) => {
            assert(types_view(r@).len() == r@.len());
            assert(types_view(s@).len() == s@.len());
            if *n == *k && r.len() == s.len() {
                Type::Named(n.clone(), refine_all(r, s))
            } else {
                runtime.copy()
            }
        },
        (Type::Fun(r, x), Type::Fun(s, y)) => {
            assert(types_view(r@).len() == r@.len());
            assert(types_view(s@).len() == s@.len());
            if r.len() == s.len() {
                Type::Fun(refine_all(r, s), Box::new(refine_with_static(x, y)))
            } else {
                runtime.copy()
            }
        },
        (Type::Record(r), Type::Record(s)) => Type::Record(refine_fields(r, s)),
        _ => runtime.copy(),
    }
}

fn refine_all(a: &Vec<Type>, b: &Vec<Type>) -> (r: Vec<Type>)
    requires
        a@.len() == b@.len(),
    ensures
        types_view(r@) == all_refined(types_view(a@), types_view(b@)),
    decreases a@,
{
    let ghost xs = types_view(a@);
    let ghost ys = types_view(b@);
    assert(xs.len() == a@.len());
    assert(ys.len() == b@.len());
    let mut out: Vec<Type> = Vec::new();
    let mut i: usize = 0;
    while i < a.len()
        invariant
            i <= a@.len(),
            a@.len() == b@.len(),
            xs == types_view(a@),
            ys == types_view(b@),
            xs.len() == a@.len(),
            ys.len() == b@.len(),
            out@.len() == i,
            forall|k: int| 0 <= k < i ==> type_view(#[trigger] out@[k]) == refined(xs[k], ys[k]),
        decreases a@.len() - i,
    {
        assert(xs[i as int] == type_view(a@[i as int]));
        assert(ys[i as int] == type_view(b@[i as int]));
        out.push(refine_with_static(&a[i], &b[i]));
        i += 1;
    }
    assert(types_view(out@).len() == out@.len());
    assert(types_view(out@) =~= all_refined(xs, ys));
    out
}

fn refine_fields(a: &Vec<(String, Type)>, b: &Vec<(String, Type)>) -> (r: Vec<(String, Type)>)
    ensures
        named_types_view(r@) == fields_refined(named_types_view(a@), named_types_view(b@)),
    decreases a@,
{
    let ghost xs = named_types_view(a@);
    let ghost ys = named_types_view(b@);
    assert(xs.len() == a@.len());
    assert(ys.len() == b@.len());
    let mut out: Vec<(String, Type)> = Vec::new();
    let mut i: usize = 0;
    while i < a.len()
        invariant
            i <= a@.len(),
            xs == named_types_view(a@),
            ys == named_types_view(b@),
            xs.len() == a@.len(),
            ys.len() == b@.len(),
            out@.len() == i,
            forall|k: int|
                0 <= k < i ==> ((#[trigger] out@[k]).0@, type_view(out@[k].1)) == fields_refined(
                    xs,
                    ys,
                )[k],
        decreases a@.len() - i,
    {
        assert(xs[i as int] == (a@[i as int].0@, type_view(a@[i as int].1)));
        let ty: Type = if i < b.len() {
            assert(ys[i as int] == (b@[i as int].0@, type_view(b@[i as int].1)));
            if a[i].0 == b[i].0 {
                refine_with_static(&a[i].1, &b[i].1)
            } else {
                a[i].1.copy()
            }
        } else {
            a[i].1.copy()
        };
        out.push((a[i].0.clone(), ty));
        i += 1;
    }
    assert(named_types_view(out@).len() == out@.len());
    assert(named_types_view(out@) =~= fields_refined(xs, ys));
    out
}

/// Whether a type leaves nothing unknown.
pub open spec fn sampled(t: TypeV) -> bool
    decreases t,
{
    match t {
        TypeV::Never => false,
        TypeV::Tuple(s) => all_sampled(s),
        TypeV::Array(x) => sampled(*x),
        TypeV::SizedArray(x, _) => sampled(*x),
        TypeV::Reference(x) => sampled(*x),
        TypeV::MutReference(x) => sampled(*x),
        TypeV::Fun(s, x) => all_sampled(s) && sampled(*x),
        TypeV::Named(_, s) => all_sampled(s),
        TypeV::Record(s) => fields_sampled(s),
        _ => true,
    }
}

/// [`sampled`] for types.
pub open spec fn all_sampled(s: Seq<TypeV>) -> bool
    decreases s,
{
    forall|i: int| 0 <= i < s.len() ==> sampled(#[trigger] s[i])
}

/// [`sampled`] for the types of fields.
pub open spec fn fields_sampled(s: Seq<(Seq<char>, TypeV)>) -> bool
    decreases s,
{
    forall|i: int| 0 <= i < s.len() ==> sampled((#[trigger] s[i]).1)
}

/// A type without `!` stays as it is: refining never overrides what was sampled.
pub proof fn law_refining_keeps_what_was_sampled(run: TypeV, known: TypeV)
    requires
        sampled(run),
    ensures
        refined(run, known) == run,
    decreases run,
{
    match (run, known) {
        (TypeV::Array(r), TypeV::Array(s)) => law_refining_keeps_what_was_sampled(*r, *s),
        (TypeV::SizedArray(r, _), TypeV::SizedArray(s, _)) => {
            law_refining_keeps_what_was_sampled(*r, *s)
        },
        (TypeV::Reference(r), TypeV::Reference(s)) => law_refining_keeps_what_was_sampled(*r, *s),
        (TypeV::MutReference(r), TypeV::MutReference(s)) => {
            law_refining_keeps_what_was_sampled(*r, *s)
        },
        (TypeV::Tuple(r), TypeV::Tuple(s)) => lemma_all_kept(r, s),
        (TypeV::Named(_, r), TypeV::Named(_, s)) => lemma_all_kept(r, s),
        (TypeV::Fun(r, x), TypeV::Fun(s, y)) => {
            lemma_all_kept(r, s);
            law_refining_keeps_what_was_sampled(*x, *y);
        },
        (TypeV::Record(r), TypeV::Record(s)) => {
            assert(fields_sampled(r));
            assert forall|i: int| 0 <= i < r.len() implies fields_refined(r, s)[i] == r[i] by {
                assert(sampled(r[i].1));
                if i < s.len() {
                    law_refining_keeps_what_was_sampled(r[i].1, s[i].1);
                }
            }
            assert(fields_refined(r, s) =~= r);
        },
        _ => {},
    }
}

proof fn lemma_all_kept(r: Seq<TypeV>, s: Seq<TypeV>)
    requires
        all_sampled(r),
    ensures
        all_refined(r, s) == r,
    decreases r,
{
    assert forall|i: int| 0 <= i < r.len() implies all_refined(r, s)[i] == r[i] by {
        assert(sampled(r[i]));
        law_refining_keeps_what_was_sampled(r[i], s[i]);
    }
    assert(all_refined(r, s) =~= r);
}

/// A type refined by itself stays as it is.
pub proof fn law_refining_by_itself_changes_nothing(t: TypeV)
    ensures
        refined(t, t) == t,
    decreases t,
{
    match t {
        TypeV::Array(x) => law_refining_by_itself_changes_nothing(*x),
        TypeV::SizedArray(x, _) => law_refining_by_itself_changes_nothing(*x),
        TypeV::Reference(x) => law_refining_by_itself_changes_nothing(*x),
        TypeV::MutReference(x) => law_refining_by_itself_changes_nothing(*x),
        TypeV::Tuple(s) => lemma_all_same(s),
        TypeV::Named(_, s) => lemma_all_same(s),
        TypeV::Fun(s, x) => {
            lemma_all_same(s);
            law_refining_by_itself_changes_nothing(*x);
        },
        TypeV::Record(s) => {
            assert forall|i: int| 0 <= i < s.len() implies fields_refined(s, s)[i] == s[i] by {
                law_refining_by_itself_changes_nothing(s[i].1);
            }
            assert(fields_refined(s, s) =~= s);
        },
        _ => {},
    }
}

proof fn lemma_all_same(s: Seq<TypeV>)
    ensures
        all_refined(s, s) == s,
    decreases s,
{
    assert forall|i: int| 0 <= i < s.len() implies all_refined(s, s)[i] == s[i] by {
        law_refining_by_itself_changes_nothing(s[i]);
    }
    assert(all_refined(s, s) =~= s);
}

} // verus!
