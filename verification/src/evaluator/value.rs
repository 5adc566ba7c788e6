//! Run-time values.
//!
//! What values share, arrays and the targets of references, lies in a heap, and a value holds its
//! place there. A float is kept as the bits of its value.
use vstd::prelude::*;
use crate::native_keys::NativeKey;
use crate::types::{Type, TypeV};

verus! {

/// A step from a value to a part of it.
#[derive(Debug)]
pub enum PathSegment {
    Field(String),
    TupleIndex(usize),
    ArrayIndex(usize),
}

/// A function that the evaluator provides itself.
#[derive(Debug, Clone, Copy, PartialEq, Eq, Structural)]
pub enum Builtin {
    /// One that the standard library declares.
    Native(NativeKey),
    /// The length of a string.
    StringLen,
    /// The length of an array.
    ArrayLen,
}

/// A value that can be called.
#[derive(Debug)]
#[allow(inconsistent_fields)]
pub enum RuntimeCallable {
    /// A closure, with its type where that is known.
    Closure { fun_type: Option<Type> },
    Intrinsic { label: String, fun: Builtin },
}

/// A run-time value.
#[derive(Debug)]
#[allow(inconsistent_fields)]
pub enum Value {
    I8(i8),
    I16(i16),
    I32(i32),
    I64(i64),
    U8(u8),
    U16(u16),
    U32(u32),
    U64(u64),
    F32(u32),
    F64(u64),
    Char(char),
    Boolean(bool),
    Str(String),
    Unit,
    Tuple(Vec<Value>),
    Record { fields: Vec<(String, Value)> },
    Array(usize),
    Struct { name: String, fields: Vec<(String, Value)> },
    Enum { name: String, variant: String, fields: Vec<(String, Value)> },
    Callable(RuntimeCallable),
    Reference(usize),
    MutReference(usize),
    FieldReference { root: usize, path: Vec<PathSegment> },
    MutFieldReference { root: usize, path: Vec<PathSegment> },
}

/// What values share.
#[derive(Debug)]
pub struct Heap {
    pub arrays: Vec<Vec<Value>>,
    pub cells: Vec<Value>,
}

/// A [`PathSegment`] as a mathematical object.
pub ghost enum PathSegmentV {
    Field(Seq<char>),
    TupleIndex(usize),
    ArrayIndex(usize),
}

/// A [`RuntimeCallable`] as a mathematical object.
#[allow(inconsistent_fields)]
pub ghost enum RuntimeCallableV {
    Closure { fun_type: Option<TypeV> },
    Intrinsic { label: Seq<char>, fun: Builtin },
}

/// A [`Value`] as a mathematical object.
#[allow(inconsistent_fields)]
pub ghost enum ValueV {
    I8(i8),
    I16(i16),
    I32(i32),
    I64(i64),
    U8(u8),
    U16(u16),
    U32(u32),
    U64(u64),
    F32(u32),
    F64(u64),
    Char(char),
    Boolean(bool),
    Str(Seq<char>),
    Unit,
    Tuple(Seq<ValueV>),
    Record { fields: Seq<(Seq<char>, ValueV)> },
    Array(usize),
    Struct { name: Seq<char>, fields: Seq<(Seq<char>, ValueV)> },
    Enum { name: Seq<char>, variant: Seq<char>, fields: Seq<(Seq<char>, ValueV)> },
    Callable(RuntimeCallableV),
    Reference(usize),
    MutReference(usize),
    FieldReference { root: usize, path: Seq<PathSegmentV> },
    MutFieldReference { root: usize, path: Seq<PathSegmentV> },
}

/// A [`Heap`] as a mathematical object.
pub ghost struct HeapV {
    pub arrays: Seq<Seq<ValueV>>,
    pub cells: Seq<ValueV>,
}

impl View for PathSegment {
    type V = PathSegmentV;

    open spec fn view(&self) -> PathSegmentV {
        match *self {
            PathSegment::Field(f) => PathSegmentV::Field(f@),
            PathSegment::TupleIndex(i) => PathSegmentV::TupleIndex(i),
            PathSegment::ArrayIndex(i) => PathSegmentV::ArrayIndex(i),
        }
    }
}

/// The views of path segments.
pub open spec fn segments_view(s: Seq<PathSegment>) -> Seq<PathSegmentV> {
    Seq::new(s.len(), |i: int| s[i]@)
}

impl View for RuntimeCallable {
    type V = RuntimeCallableV;

    open spec fn view(&self) -> RuntimeCallableV {
        match *self {
            RuntimeCallable::Closure { fun_type } => RuntimeCallableV::Closure {
                fun_type: match fun_type {
                    Some(t) => Some(t@),
                    None => None,
                },
            },
            RuntimeCallable::Intrinsic { label, fun } => RuntimeCallableV::Intrinsic {
                label: label@,
                fun,
            },
        }
    }
}

/// The view of a [`Value`].
pub open spec fn value_view(v: Value) -> ValueV
    decreases v,
{
    match v {
        Value::I8(n) => ValueV::I8(n),
        Value::I16(n) => ValueV::I16(n),
        Value::I32(n) => ValueV::I32(n),
        Value::I64(n) => ValueV::I64(n),
        Value::U8(n) => ValueV::U8(n),
        Value::U16(n) => ValueV::U16(n),
        Value::U32(n) => ValueV::U32(n),
        Value::U64(n) => ValueV::U64(n),
        Value::F32(n) => ValueV::F32(n),
        Value::F64(n) => ValueV::F64(n),
        Value::Char(c) => ValueV::Char(c),
        Value::Boolean(b) => ValueV::Boolean(b),
        Value::Str(s) => ValueV::Str(s@),
        Value::Unit => ValueV::Unit,
        Value::Tuple(s) => ValueV::Tuple(values_view(s@)),
        Value::Record { fields } => ValueV::Record { fields: named_values_view(fields@) },
        Value::Array(i) => ValueV::Array(i),
        Value::Struct { name, fields } => ValueV::Struct {
            name: name@,
            fields: named_values_view(fields@),
        },
        Value::Enum { name, variant, fields } => ValueV::Enum {
            name: name@,
            variant: variant@,
            fields: named_values_view(fields@),
        },
        Value::Callable(c) => ValueV::Callable(c@),
        Value::Reference(i) => ValueV::Reference(i),
        Value::MutReference(i) => ValueV::MutReference(i),
        Value::FieldReference { root, path } => ValueV::FieldReference {
            root,
            path: segments_view(path@),
        },
        Value::MutFieldReference { root, path } => ValueV::MutFieldReference {
            root,
            path: segments_view(path@),
        },
    }
}

/// The views of values.
pub open spec fn values_view(s: Seq<Value>) -> Seq<ValueV>
    decreases s,
{
    Seq::new(s.len(), |i: int| if 0 <= i < s.len() { value_view(s[i]) } else { arbitrary() })
}

/// The views of named values.
pub open spec fn named_values_view(s: Seq<(String, Value)>) -> Seq<(Seq<char>, ValueV)>
    decreases s,
{
    Seq::new(
        s.len(),
        |i: int| if 0 <= i < s.len() { (s[i].0@, value_view(s[i].1)) } else { arbitrary() },
    )
}

impl View for Value {
    type V = ValueV;

    open spec fn view(&self) -> ValueV {
        value_view(*self)
    }
}

/// The views of arrays.
pub open spec fn arrays_view(s: Seq<Vec<Value>>) -> Seq<Seq<ValueV>> {
    Seq::new(s.len(), |i: int| values_view(s[i]@))
}

impl View for Heap {
    type V = HeapV;

    open spec fn view(&self) -> HeapV {
        HeapV { arrays: arrays_view(self.arrays@), cells: values_view(self.cells@) }
    }
}

impl Value {
    /// A copy with the same view; what it shares stays shared.
    pub fn copy(&self) -> (r: Self)
        ensures
            r@ == self@,
        decreases *self,
    {
        match self {
            Value::I8(n) => Value::I8(*n),
            Value::I16(n) => Value::I16(*n),
            Value::I32(n) => Value::I32(*n),
            Value::I64(n) => Value::I64(*n),
            Value::U8(n) => Value::U8(*n),
            Value::U16(n) => Value::U16(*n),
            Value::U32(n) => Value::U32(*n),
            Value::U64(n) => Value::U64(*n),
            Value::F32(n) => Value::F32(*n),
            Value::F64(n) => Value::F64(*n),
            Value::Char(c) => Value::Char(*c),
            Value::Boolean(b) => Value::Boolean(*b),
            Value::Str(s) => Value::Str(s.clone()),
            Value::Unit => Value::Unit,
            Value::Tuple(s) => Value::Tuple(copy_values(s)),
            Value::Record { fields } => Value::Record { fields: copy_named_values(fields) },
            Value::Array(i) => Value::Array(*i),
            Value::Struct { name, fields } => Value::Struct {
                name: name.clone(),
                fields: copy_named_values(fields),
            },
            Value::Enum { name, variant, fields } => Value::Enum {
                name: name.clone(),
                variant: variant.clone(),
                fields: copy_named_values(fields),
            },
            Value::Callable(c) => Value::Callable(copy_callable(c)),
            Value::Reference(i) => Value::Reference(*i),
            Value::MutReference(i) => Value::MutReference(*i),
            Value::FieldReference { root, path } => Value::FieldReference {
                root: *root,
                path: copy_segments(path),
            },
            Value::MutFieldReference { root, path } => Value::MutFieldReference {
                root: *root,
                path: copy_segments(path),
            },
        }
    }
}

/// A copy with the same view.
pub fn copy_callable(c: &RuntimeCallable) -> (r: RuntimeCallable)
    ensures
        r@ == c@,
{
    match c {
        RuntimeCallable::Closure { fun_type } => RuntimeCallable::Closure {
            fun_type: match fun_type {
                Some(t) => Some(t.copy()),
                None => None,
            },
        },
        RuntimeCallable::Intrinsic { label, fun } => RuntimeCallable::Intrinsic {
            label: label.clone(),
            fun: *fun,
        },
    }
}

fn copy_segments(v: &Vec<PathSegment>) -> (r: Vec<PathSegment>)
    ensures
        segments_view(r@) == segments_view(v@),
{
    let mut out: Vec<PathSegment> = Vec::new();
    let mut i: usize = 0;
    while i < v.len()
        invariant
            i <= v@.len(),
            out@.len() == i,
            forall|k: int| 0 <= k < i ==> (#[trigger] out@[k])@ == v@[k]@,
        decreases v@.len() - i,
    {
        let x: PathSegment = match &v[i] {
            PathSegment::Field(f) => PathSegment::Field(f.clone()),
            PathSegment::TupleIndex(k) => PathSegment::TupleIndex(*k),
            PathSegment::ArrayIndex(k) => PathSegment::ArrayIndex(*k),
        };
        out.push(x);
        i += 1;
    }
    assert(segments_view(out@) =~= segments_view(v@));
    out
}

/// Copies with the same views.
pub fn copy_values(v: &Vec<Value>) -> (r: Vec<Value>)
    ensures
        values_view(r@) == values_view(v@),
    decreases v@,
{
    let mut out: Vec<Value> = Vec::new();
    let mut i: usize = 0;
    while i < v.len()
        invariant
            i <= v@.len(),
            out@.len() == i,
            forall|k: int| 0 <= k < i ==> value_view(#[trigger] out@[k]) == value_view(v@[k]),
        decreases v@.len() - i,
    {
        out.push(v[i].copy());
        i += 1;
    }
    assert(values_view(out@) =~= values_view(v@));
    out
}

fn copy_named_values(v: &Vec<(String, Value)>) -> (r: Vec<(String, Value)>)
    ensures
        named_values_view(r@) == named_values_view(v@),
    decreases v@,
{
    let mut out: Vec<(String, Value)> = Vec::new();
    let mut i: usize = 0;
    while i < v.len()
        invariant
            i <= v@.len(),
            out@.len() == i,
            forall|k: int|
                0 <= k < i ==> (#[trigger] out@[k]).0@ == v@[k].0@ && value_view(out@[k].1)
                    == value_view(v@[k].1),
        decreases v@.len() - i,
    {
        out.push((v[i].0.clone(), v[i].1.copy()));
        i += 1;
    }
    assert(named_values_view(out@) =~= named_values_view(v@));
    out
}

} // verus!
