//! Resolved types.
use vstd::prelude::*;
use vstd::string::StringExecFns;
use crate::text::{decimal, decimal_text, joined, joined3};

verus! {

/// A fully resolved type of the language.
#[derive(Debug, PartialEq, Eq)]
pub enum Type {
    I8,
    I16,
    I32,
    I64,
    U8,
    U16,
    U32,
    U64,
    F32,
    F64,
    Boolean,
    Char,
    Str,
    /// The type of the empty tuple.
    Unit,
    /// The type of an expression that never yields a value.
    Never,
    Tuple(Vec<Type>),
    Record(Vec<(String, Type)>),
    /// A view of a sequence whose length is not part of the type.
    Array(Box<Type>),
    /// A sequence of exactly so many elements.
    SizedArray(Box<Type>, u64),
    /// A shared reference.
    Reference(Box<Type>),
    /// A reference that grants write access.
    MutReference(Box<Type>),
    Fun(Vec<Type>, Box<Type>),
    /// A struct, an enum or a type parameter, with its type arguments.
    Named(String, Vec<Type>),
}

/// The value of a [`Type`] as a mathematical object.
pub ghost enum TypeV {
    I8,
    I16,
    I32,
    I64,
    U8,
    U16,
    U32,
    U64,
    F32,
    F64,
    Boolean,
    Char,
    Str,
    Unit,
    Never,
    Tuple(Seq<TypeV>),
    Record(Seq<(Seq<char>, TypeV)>),
    Array(Box<TypeV>),
    SizedArray(Box<TypeV>, u64),
    Reference(Box<TypeV>),
    MutReference(Box<TypeV>),
    Fun(Seq<TypeV>, Box<TypeV>),
    Named(Seq<char>, Seq<TypeV>),
}

/// The view of a [`Type`].
pub open spec fn type_view(t: Type) -> TypeV
    decreases t,
{
    match t {
        Type::I8 => TypeV::I8,
        Type::I16 => TypeV::I16,
        Type::I32 => TypeV::I32,
        Type::I64 => TypeV::I64,
        Type::U8 => TypeV::U8,
        Type::U16 => TypeV::U16,
        Type::U32 => TypeV::U32,
        Type::U64 => TypeV::U64,
        Type::F32 => TypeV::F32,
        Type::F64 => TypeV::F64,
        Type::Boolean => TypeV::Boolean,
        Type::Char => TypeV::Char,
        Type::Str => TypeV::Str,
        Type::Unit => TypeV::Unit,
        Type::Never => TypeV::Never,
        Type::Tuple(f0) => TypeV::Tuple(types_view(f0@)),
        Type::Record(f0) => TypeV::Record(named_types_view(f0@)),
        Type::Array(f0) => TypeV::Array(Box::new(type_view(*f0))),
        Type::SizedArray(f0, f1) => TypeV::SizedArray(Box::new(type_view(*f0)), f1),
        Type::Reference(f0) => TypeV::Reference(Box::new(type_view(*f0))),
        Type::MutReference(f0) => TypeV::MutReference(Box::new(type_view(*f0))),
        Type::Fun(f0, f1) => TypeV::Fun(types_view(f0@), Box::new(type_view(*f1))),
        Type::Named(f0, f1) => TypeV::Named(f0@, types_view(f1@)),
    }
}

/// The views of a sequence of [`Type`] values.
pub open spec fn types_view(s: Seq<Type>) -> Seq<TypeV>
    decreases s,
{
    Seq::new(s.len(), |i: int| if 0 <= i < s.len() { type_view(s[i]) } else { arbitrary() })
}

/// The views of a sequence of named [`Type`] values.
pub open spec fn named_types_view(s: Seq<(String, Type)>) -> Seq<(Seq<char>, TypeV)>
    decreases s,
{
    Seq::new(s.len(), |i: int| if 0 <= i < s.len() { (s[i].0@, type_view(s[i].1)) } else { arbitrary() })
}

impl View for Type {
    type V = TypeV;

    open spec fn view(&self) -> TypeV {
        type_view(*self)
    }
}

impl Clone for Type {
    fn clone(&self) -> (r: Self)
        ensures
            r@ == self@,
    {
        self.copy()
    }
}

impl Type {
    /// A copy with the same view.
    pub fn copy(&self) -> (r: Self)
        ensures
            r@ == self@,
        decreases *self,
    {
        match self {
            Type::I8 => Type::I8,
            Type::I16 => Type::I16,
            Type::I32 => Type::I32,
            Type::I64 => Type::I64,
            Type::U8 => Type::U8,
            Type::U16 => Type::U16,
            Type::U32 => Type::U32,
            Type::U64 => Type::U64,
            Type::F32 => Type::F32,
            Type::F64 => Type::F64,
            Type::Boolean => Type::Boolean,
            Type::Char => Type::Char,
            Type::Str => Type::Str,
            Type::Unit => Type::Unit,
            Type::Never => Type::Never,
            Type::Tuple(f0) => Type::Tuple(copy_types(f0)),
            Type::Record(f0) => Type::Record(copy_named_types(f0)),
            Type::Array(f0) => Type::Array(Box::new(f0.copy())),
            Type::SizedArray(f0, f1) => Type::SizedArray(Box::new(f0.copy()), *f1),
            Type::Reference(f0) => Type::Reference(Box::new(f0.copy())),
            Type::MutReference(f0) => Type::MutReference(Box::new(f0.copy())),
            Type::Fun(f0, f1) => Type::Fun(copy_types(f0), Box::new(f1.copy())),
            Type::Named(f0, f1) => Type::Named(f0.clone(), copy_types(f1)),
        }
    }

    /// Whether two values have the same view.
    pub fn same(&self, other: &Self) -> (r: bool)
        ensures
            r == (self@ == other@),
        decreases *self,
    {
        match (self, other) {
            (Type::I8, Type::I8) => true,
            (Type::I16, Type::I16) => true,
            (Type::I32, Type::I32) => true,
            (Type::I64, Type::I64) => true,
            (Type::U8, Type::U8) => true,
            (Type::U16, Type::U16) => true,
            (Type::U32, Type::U32) => true,
            (Type::U64, Type::U64) => true,
            (Type::F32, Type::F32) => true,
            (Type::F64, Type::F64) => true,
            (Type::Boolean, Type::Boolean) => true,
            (Type::Char, Type::Char) => true,
            (Type::Str, Type::Str) => true,
            (Type::Unit, Type::Unit) => true,
            (Type::Never, Type::Never) => true,
            (Type::Tuple(a0), Type::Tuple(b0)) => same_types(a0, b0),
            (Type::Record(a0), Type::Record(b0)) => same_named_types(a0, b0),
            (Type::Array(a0), Type::Array(b0)) => a0.same(b0),
            (Type::SizedArray(a0, a1), Type::SizedArray(b0, b1)) => a0.same(b0) && *a1 == *b1,
            (Type::Reference(a0), Type::Reference(b0)) => a0.same(b0),
            (Type::MutReference(a0), Type::MutReference(b0)) => a0.same(b0),
            (Type::Fun(a0, a1), Type::Fun(b0, b1)) => same_types(a0, b0) && a1.same(b1),
            (Type::Named(a0, a1), Type::Named(b0, b1)) => *a0 == *b0 && same_types(a1, b1),
            _ => false,
        }
    }
}

/// A copy of a list of [`Type`] values.
pub fn copy_types(v: &Vec<Type>) -> (r: Vec<Type>)
    ensures
        types_view(r@) == types_view(v@),
    decreases v@,
{
    let mut out: Vec<Type> = Vec::new();
    let mut i: usize = 0;
    while i < v.len()
        invariant
            i <= v.len(),
            out@.len() == i,
            forall|k: int| 0 <= k < i ==> type_view(#[trigger] out@[k]) == type_view(v@[k]),
        decreases v.len() - i,
    {
        out.push(v[i].copy());
        i += 1;
    }
    assert(types_view(out@) =~= types_view(v@));
    out
}

/// Whether two lists of [`Type`] values have the same views.
pub fn same_types(a: &Vec<Type>, b: &Vec<Type>) -> (r: bool)
    ensures
        r == (types_view(a@) == types_view(b@)),
    decreases a@,
{
    if a.len() != b.len() {
        assert(types_view(a@).len() != types_view(b@).len());
        return false;
    }
    let mut i: usize = 0;
    while i < a.len()
        invariant
            i <= a.len(),
            a.len() == b.len(),
            forall|k: int| 0 <= k < i ==> type_view(#[trigger] a@[k]) == type_view(b@[k]),
        decreases a.len() - i,
    {
        if !a[i].same(&b[i]) {
            assert(types_view(a@)[i as int] != types_view(b@)[i as int]);
            return false;
        }
        i += 1;
    }
    assert(types_view(a@) =~= types_view(b@));
    true
}

/// A copy of a list of named [`Type`] values.
pub fn copy_named_types(v: &Vec<(String, Type)>) -> (r: Vec<(String, Type)>)
    ensures
        named_types_view(r@) == named_types_view(v@),
    decreases v@,
{
    let mut out: Vec<(String, Type)> = Vec::new();
    let mut i: usize = 0;
    while i < v.len()
        invariant
            i <= v.len(),
            out@.len() == i,
            forall|k: int|
                0 <= k < i ==> (#[trigger] out@[k]).0@ == v@[k].0@ && type_view(out@[k].1) == type_view(
                    v@[k].1,
                ),
        decreases v.len() - i,
    {
        out.push((v[i].0.clone(), v[i].1.copy()));
        i += 1;
    }
    assert(named_types_view(out@) =~= named_types_view(v@));
    out
}

/// Whether two lists of named [`Type`] values have the same views.
pub fn same_named_types(a: &Vec<(String, Type)>, b: &Vec<(String, Type)>) -> (r: bool)
    ensures
        r == (named_types_view(a@) == named_types_view(b@)),
    decreases a@,
{
    if a.len() != b.len() {
        assert(named_types_view(a@).len() != named_types_view(b@).len());
        return false;
    }
    let mut i: usize = 0;
    while i < a.len()
        invariant
            i <= a.len(),
            a.len() == b.len(),
            forall|k: int|
                0 <= k < i ==> (#[trigger] a@[k]).0@ == b@[k].0@ && type_view(a@[k].1) == type_view(
                    b@[k].1,
                ),
        decreases a.len() - i,
    {
        if !(a[i].0 == b[i].0) || !a[i].1.same(&b[i].1) {
            assert(named_types_view(a@)[i as int] != named_types_view(b@)[i as int]);
            return false;
        }
        i += 1;
    }
    assert(named_types_view(a@) =~= named_types_view(b@));
    true
}
/// A type without its outer references: `&&var T` is peeled to `T`.
pub open spec fn peeled(t: TypeV) -> TypeV
    decreases t,
{
    match t {
        TypeV::Reference(inner) => peeled(*inner),
        TypeV::MutReference(inner) => peeled(*inner),
        _ => t,
    }
}

/// Peels every reference layer of a type down to the first type that is no reference.
pub fn peel_type_references(ty: &Type) -> (r: &Type)
    ensures
        r@ == peeled(ty@),
    decreases *ty,
{
    match ty {
        Type::Reference(inner) => peel_type_references(inner),
        Type::MutReference(inner) => peel_type_references(inner),
        _ => ty,
    }
}

/// The name under which a primitive type has its methods and aspects.
pub open spec fn primitive_name(t: TypeV) -> Option<Seq<char>> {
    match t {
        TypeV::I8 => Some("i8"@),
        TypeV::I16 => Some("i16"@),
        TypeV::I32 => Some("i32"@),
        TypeV::I64 => Some("i64"@),
        TypeV::U8 => Some("u8"@),
        TypeV::U16 => Some("u16"@),
        TypeV::U32 => Some("u32"@),
        TypeV::U64 => Some("u64"@),
        TypeV::F32 => Some("f32"@),
        TypeV::F64 => Some("f64"@),
        TypeV::Boolean => Some("boolean"@),
        TypeV::Char => Some("Char"@),
        TypeV::Str => Some("String"@),
        _ => None,
    }
}

/// The name under which a primitive type has its methods and aspects; `None` for any other type.
pub fn primitive_type_name(ty: &Type) -> (r: Option<String>)
    ensures
        match r {
            Some(name) => primitive_name(ty@) == Some(name@),
            None => primitive_name(ty@) is None,
        },
{
    match ty {
        Type::I8 => Some("i8".to_owned()),
        Type::I16 => Some("i16".to_owned()),
        Type::I32 => Some("i32".to_owned()),
        Type::I64 => Some("i64".to_owned()),
        Type::U8 => Some("u8".to_owned()),
        Type::U16 => Some("u16".to_owned()),
        Type::U32 => Some("u32".to_owned()),
        Type::U64 => Some("u64".to_owned()),
        Type::F32 => Some("f32".to_owned()),
        Type::F64 => Some("f64".to_owned()),
        Type::Boolean => Some("boolean".to_owned()),
        Type::Char => Some("Char".to_owned()),
        Type::Str => Some("String".to_owned()),
        _ => None,
    }
}

/// Whether arithmetic is defined on the type.
pub open spec fn numeric(t: TypeV) -> bool {
    matches!(t, TypeV::I8 | TypeV::I16 | TypeV::I32 | TypeV::I64 | TypeV::U8 | TypeV::U16
        | TypeV::U32 | TypeV::U64 | TypeV::F32 | TypeV::F64)
}

/// The way a type is written in messages.
pub open spec fn type_text(t: TypeV) -> Seq<char>
    decreases t,
{
    match t {
        TypeV::I8 => "i8"@,
        TypeV::I16 => "i16"@,
        TypeV::I32 => "i32"@,
        TypeV::I64 => "i64"@,
        TypeV::U8 => "u8"@,
        TypeV::U16 => "u16"@,
        TypeV::U32 => "u32"@,
        TypeV::U64 => "u64"@,
        TypeV::F32 => "f32"@,
        TypeV::F64 => "f64"@,
        TypeV::Boolean => "boolean"@,
        TypeV::Char => "Char"@,
        TypeV::Str => "String"@,
        TypeV::Unit => "()"@,
        TypeV::Never => "!"@,
        TypeV::Tuple(items) => "("@ + type_list_text(items) + ")"@,
        TypeV::Record(fields) => "{ "@ + field_list_text(fields) + " }"@,
        TypeV::Array(item) => type_text(*item) + "[]"@,
        TypeV::SizedArray(item, n) => "["@ + type_text(*item) + "; "@ + decimal(n as nat) + "]"@,
        TypeV::Reference(inner) => "&"@ + type_text(*inner),
        TypeV::MutReference(inner) => "&var "@ + type_text(*inner),
        TypeV::Fun(params, ret) => "fun("@ + type_list_text(params) + ") -> "@ + type_text(*ret),
        TypeV::Named(name, args) => if args.len() == 0 {
            name
        } else {
            name + "<"@ + type_list_text(args) + ">"@
        },
    }
}

/// Types written one after the other, with commas between them.
pub open spec fn type_list_text(s: Seq<TypeV>) -> Seq<char>
    decreases s,
{
    if s.len() == 0 {
        Seq::empty()
    } else if s.len() == 1 {
        type_text(s[0])
    } else {
        type_list_text(s.subrange(0, s.len() - 1)) + ", "@ + type_text(s[s.len() - 1])
    }
}

/// Record fields written one after the other, with commas between them.
pub open spec fn field_list_text(s: Seq<(Seq<char>, TypeV)>) -> Seq<char>
    decreases s,
{
    if s.len() == 0 {
        Seq::empty()
    } else if s.len() == 1 {
        s[0].0 + ": "@ + type_text(s[0].1)
    } else {
        field_list_text(s.subrange(0, s.len() - 1)) + ", "@ + s[s.len() - 1].0 + ": "@ + type_text(
            s[s.len() - 1].1,
        )
    }
}

impl Type {
    /// Whether arithmetic is defined on the type.
    pub fn is_numeric(&self) -> (r: bool)
        ensures
            r == numeric(self@),
    {
        matches!(self, Type::I8 | Type::I16 | Type::I32 | Type::I64 | Type::U8 | Type::U16
            | Type::U32 | Type::U64 | Type::F32 | Type::F64)
    }

    /// The way the type is written in messages.
    pub fn describe(&self) -> (r: String)
        ensures
            r@ == type_text(self@),
        decreases *self,
    {
        match self {
            Type::I8 => "i8".to_owned(),
            Type::I16 => "i16".to_owned(),
            Type::I32 => "i32".to_owned(),
            Type::I64 => "i64".to_owned(),
            Type::U8 => "u8".to_owned(),
            Type::U16 => "u16".to_owned(),
            Type::U32 => "u32".to_owned(),
            Type::U64 => "u64".to_owned(),
            Type::F32 => "f32".to_owned(),
            Type::F64 => "f64".to_owned(),
            Type::Boolean => "boolean".to_owned(),
            Type::Char => "Char".to_owned(),
            Type::Str => "String".to_owned(),
            Type::Unit => "()".to_owned(),
            Type::Never => "!".to_owned(),
            Type::Tuple(items) => {
                let list: String = describe_types(items);
                joined3("(", list.as_str(), ")")
            },
            Type::Record(fields) => {
                let list: String = describe_fields(fields);
                joined3("{ ", list.as_str(), " }")
            },
            Type::Array(item) => {
                let text: String = item.describe();
                joined(text.as_str(), "[]")
            },
            Type::SizedArray(item, n) => {
                let text: String = item.describe();
                let size: String = decimal_text(*n);
                let mut out: String = joined3("[", text.as_str(), "; ");
                out.append(size.as_str());
                out.append("]");
                out
            },
            Type::Reference(inner) => {
                let text: String = inner.describe();
                joined("&", text.as_str())
            },
            Type::MutReference(inner) => {
                let text: String = inner.describe();
                joined("&var ", text.as_str())
            },
            Type::Fun(params, ret) => {
                let list: String = describe_types(params);
                let result: String = ret.describe();
                let mut out: String = joined3("fun(", list.as_str(), ") -> ");
                out.append(result.as_str());
                out
            },
            Type::Named(name, args) => {
                assert(types_view(args@).len() == args@.len());
                if args.len() == 0 {
                    name.clone()
                } else {
                    let list: String = describe_types(args);
                    let mut out: String = joined3(name.as_str(), "<", list.as_str());
                    out.append(">");
                    out
                }
            },
        }
    }
}

pub fn describe_types(v: &Vec<Type>) -> (r: String)
    ensures
        r@ == type_list_text(types_view(v@)),
    decreases v@,
{
    let ghost whole = types_view(v@);
    let mut out: String = String::new();
    let mut i: usize = 0;
    while i < v.len()
        invariant
            i <= v.len(),
            whole == types_view(v@),
            out@ == type_list_text(whole.subrange(0, i as int)),
        decreases v.len() - i,
    {
        let ghost after = whole.subrange(0, i + 1);
        assert(after.subrange(0, after.len() - 1) =~= whole.subrange(0, i as int));
        assert(after[i as int] == type_view(v@[i as int]));
        if i > 0 {
            out.append(", ");
        }
        let text: String = v[i].describe();
        out.append(text.as_str());
        assert(i == 0 ==> out@ =~= text@);
        i += 1;
    }
    assert(whole.subrange(0, i as int) =~= whole);
    out
}

fn describe_fields(v: &Vec<(String, Type)>) -> (r: String)
    ensures
        r@ == field_list_text(named_types_view(v@)),
    decreases v@,
{
    let ghost whole = named_types_view(v@);
    let mut out: String = String::new();
    let mut i: usize = 0;
    while i < v.len()
        invariant
            i <= v.len(),
            whole == named_types_view(v@),
            out@ == field_list_text(whole.subrange(0, i as int)),
        decreases v.len() - i,
    {
        let ghost after = whole.subrange(0, i + 1);
        assert(after.subrange(0, after.len() - 1) =~= whole.subrange(0, i as int));
        assert(after[i as int] == (v@[i as int].0@, type_view(v@[i as int].1)));
        if i > 0 {
            out.append(", ");
        }
        out.append(v[i].0.as_str());
        out.append(": ");
        let text: String = v[i].1.describe();
        out.append(text.as_str());
        assert(i == 0 ==> out@ =~= v@[0].0@ + ": "@ + text@);
        i += 1;
    }
    assert(whole.subrange(0, i as int) =~= whole);
    out
}


} // verus!
