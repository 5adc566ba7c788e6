//! The types of fields, of places that are assigned to, and of the names that patterns bind.
use vstd::prelude::*;
use crate::error::{opt_error, type_failure, MetelError, MetelErrorV, TypeErrorCode};
use crate::infer::{substituted, InferTypeV, Substitution, TypeVar};
use crate::lookup::{enum_of, field_named, find_field, find_variant, variant_of};
use crate::registry::{struct_of, EnumInfo, FieldEntry, StructInfo, VariantInfo};
use crate::scheme::{infer_type_to_type, lower};
use crate::span::{Span, SpanV};
use crate::text::{decimal, decimal_text, joined3, joined5, same_text, texts};
use crate::typed_ast::{ty_of, TypedPlace};
use crate::types::{named_types_view, peel_type_references, peeled, type_text, type_view};
use crate::types::{types_view, Type, TypeV};
use super::bounds::{find_label, labelled};
use super::pattern::{pattern_view, patterns_view, PatternV};
use super::rules::{type_args_map, type_param_remap};
use super::schemes::{bind_vars, bound_vars, shorter};
use super::state::{bound, fields_of, local_field, local_fields_view, var_of, Elaborator, Facts};
use super::state::{LocalField, LocalFieldV, StateV};
use super::tree::{expr_tree, lemma_tree_ty, place_tree, tree_ty, type_result, PlaceT};
use crate::ast::Pattern;

verus! {

/// What a struct knows of a field.
pub ghost enum FieldV {
    /// Its type, or what is wrong with it.
    Found(Result<TypeV, MetelErrorV>),
    NoStruct,
    NoField,
}

/// What a struct knows of a field.
pub enum FieldLookup {
    /// Its type, or what is wrong with it.
    Found(Result<Type, MetelError>),
    NoStruct,
    NoField,
}

/// What a struct knows of a field, as a mathematical object.
pub open spec fn lookup_view(x: FieldLookup) -> FieldV {
    match x {
        FieldLookup::Found(r) => FieldV::Found(type_result(r)),
        FieldLookup::NoStruct => FieldV::NoStruct,
        FieldLookup::NoField => FieldV::NoField,
    }
}

/// The type parameters of a struct, where it is generic.
pub open spec fn generic_struct(fx: Facts, name: Seq<char>) -> Option<(Seq<TypeVar>, StructInfo)> {
    match struct_of(*fx.registry, name) {
        Some(info) => match info.type_params {
            Some(params) => Some((params@, info)),
            None => None,
        },
        None => None,
    }
}

/// What a struct knows of a field: a generic struct by the registry, for its type arguments, and
/// every other by the scopes.
pub open spec fn struct_field(
    fx: Facts,
    st: StateV,
    name: Seq<char>,
    args: Seq<TypeV>,
    field: Seq<char>,
    span: SpanV,
) -> FieldV {
    match generic_struct(fx, name) {
        Some(g) => match field_named(g.1.fields@, field) {
            Some(entry) => FieldV::Found(
                lower(
                    substituted(
                        bound_vars(Map::empty(), g.0, args, shorter(g.0.len(), args.len())),
                        entry.ty@,
                    ),
                    span,
                ),
            ),
            None => FieldV::NoField,
        },
        None => match fields_of(st.structs, name) {
            Some(fields) => match local_field(fields, field) {
                Some(f) => FieldV::Found(Ok(f.ty)),
                None => FieldV::NoField,
            },
            None => FieldV::NoStruct,
        },
    }
}

fn find_local<'b>(fields: &'b Vec<LocalField>, name: &str) -> (r: Option<&'b LocalField>)
    ensures
        match r {
            Some(f) => local_field(local_fields_view(fields@), name@) == Some(
                LocalFieldV { name: f.name@, ty: f.ty@, span: f.span@ },
            ),
            None => local_field(local_fields_view(fields@), name@) is None,
        },
{
    let ghost views = local_fields_view(fields@);
    assert(views.skip(0) =~= views);
    let mut i: usize = 0;
    while i < fields.len()
        invariant
            i <= fields@.len(),
            views == local_fields_view(fields@),
            local_field(views, name@) == local_field(views.skip(i as int), name@),
        decreases fields@.len() - i,
    {
        assert(views.skip(i as int)[0] == views[i as int]);
        assert(views.skip(i as int).skip(1) =~= views.skip(i + 1));
        if same_text(fields[i].name.as_str(), name) {
            return Some(&fields[i]);
        }
        i += 1;
    }
    None
}

impl<'a, 'c> Elaborator<'a, 'c> {
    /// What a struct knows of a field.
    pub fn lookup_field(&self, name: &str, args: &Vec<Type>, field: &str, span: &Span) -> (r:
        FieldLookup)
        ensures
            lookup_view(r) == struct_field(
                self.fx,
                self.st(),
                name@,
                types_view(args@),
                field@,
                span@,
            ),
    {
        assert(types_view(args@).len() == args@.len());
        if let Some(info) = self.fx.registry.struct_info(name) {
            if let Some(params) = &info.type_params {
                assert(generic_struct(self.fx, name@) == Some((params@, *info)));
                return match find_field(&info.fields, field) {
                    Some(entry) => {
                        let mut remap: Substitution = Substitution::new();
                        bind_vars(&mut remap, params, args);
                        FieldLookup::Found(infer_type_to_type(&remap.apply(&entry.ty), span))
                    },
                    None => FieldLookup::NoField,
                };
            }
        }
        match self.get_struct_fields(name) {
            Some(fields) => match find_local(fields, field) {
                Some(f) => FieldLookup::Found(Ok(f.ty.copy())),
                None => FieldLookup::NoField,
            },
            None => FieldLookup::NoStruct,
        }
    }
}

/// An internal failure.
pub open spec fn fault(message: Seq<char>) -> MetelErrorV {
    MetelErrorV::Internal { message }
}

/// The type of a field that is read.
pub open spec fn read_field(
    fx: Facts,
    st: StateV,
    object: TypeV,
    field: Seq<char>,
    span: SpanV,
) -> Result<TypeV, MetelErrorV> {
    let t = peeled(object);
    match t {
        TypeV::Record(fields) => match labelled(fields, field) {
            Some(f) => Ok(f.1),
            None => Err(fault("no field `"@ + field + "` on "@ + type_text(t))),
        },
        TypeV::Named(name, args) => match struct_field(fx, st, name, args, field, span) {
            FieldV::Found(r) => r,
            _ => Err(fault("no field `"@ + field + "` on `"@ + name + "`"@)),
        },
        _ => Err(fault("field access on non-struct type "@ + type_text(t))),
    }
}

/// The type of a field that is projected out of a struct.
pub open spec fn projected_field(
    fx: Facts,
    st: StateV,
    name: Seq<char>,
    args: Seq<TypeV>,
    field: Seq<char>,
    span: SpanV,
) -> Result<TypeV, MetelErrorV> {
    match struct_field(fx, st, name, args, field, span) {
        FieldV::Found(r) => r,
        _ => Err(
            type_failure(
                TypeErrorCode::T0003,
                "no field `"@ + field + "` on `"@ + name + "`"@,
                span,
            ),
        ),
    }
}

/// The type of a field that is written to.
pub open spec fn written_field(
    fx: Facts,
    st: StateV,
    object: TypeV,
    field: Seq<char>,
    span: SpanV,
) -> Result<TypeV, MetelErrorV> {
    match object {
        TypeV::Record(fields) => match labelled(fields, field) {
            Some(f) => Ok(f.1),
            None => Err(
                type_failure(TypeErrorCode::T0003, "no field `"@ + field + "` on record"@, span),
            ),
        },
        TypeV::Named(name, args) => match struct_field(fx, st, name, args, field, span) {
            FieldV::Found(r) => r,
            FieldV::NoStruct => Err(
                type_failure(TypeErrorCode::T0003, "unknown type `"@ + name + "`"@, span),
            ),
            FieldV::NoField => Err(
                type_failure(
                    TypeErrorCode::T0003,
                    "no field `"@ + field + "` on `"@ + name + "`"@,
                    span,
                ),
            ),
        },
        _ => Err(
            type_failure(
                TypeErrorCode::T0002,
                "cannot infer struct type for field assignment; add a type annotation"@,
                span,
            ),
        ),
    }
}

/// What is said of a tuple index that is out of bounds.
pub open spec fn tuple_bounds_text(index: usize, len: nat) -> Seq<char> {
    "tuple index "@ + decimal(index as nat) + " out of bounds (tuple has "@ + decimal(len)
        + " elements)"@
}

/// What is said of a tuple index that is out of bounds.
pub fn tuple_bounds_message(index: usize, len: usize) -> (r: String)
    ensures
        r@ == tuple_bounds_text(index, len as nat),
{
    joined5(
        "tuple index ",
        decimal_text(index as u64).as_str(),
        " out of bounds (tuple has ",
        decimal_text(len as u64).as_str(),
        " elements)",
    )
}

/// The type of a tuple element that is written to.
pub open spec fn written_element(object: TypeV, index: usize, span: SpanV) -> Result<
    TypeV,
    MetelErrorV,
> {
    match peeled(object) {
        TypeV::Tuple(items) => if index < items.len() {
            Ok(items[index as int])
        } else {
            Err(type_failure(TypeErrorCode::T0003, tuple_bounds_text(index, items.len()), span))
        },
        _ => Err(
            type_failure(
                TypeErrorCode::T0002,
                "cannot infer tuple type for assignment; add a type annotation"@,
                span,
            ),
        ),
    }
}

/// The type of a tuple element that is written to.
pub fn tuple_element_ty(object: &Type, index: usize, span: &Span) -> (r: Result<Type, MetelError>)
    ensures
        type_result(r) == written_element(object@, index, span@),
{
    match peel_type_references(object) {
        Type::Tuple(items) => {
            assert(types_view(items@).len() == items@.len());
            if index < items.len() {
                assert(types_view(items@)[index as int] == type_view(items@[index as int]));
                Ok(items[index].copy())
            } else {
                Err(
                    MetelError::type_error(
                        TypeErrorCode::T0003,
                        tuple_bounds_message(index, items.len()),
                        span,
                    ),
                )
            }
        },
        _ => Err(
            MetelError::type_error(
                TypeErrorCode::T0002,
                "cannot infer tuple type for assignment; add a type annotation".to_owned(),
                span,
            ),
        ),
    }
}

/// What is said of a write through something else than a `&var` reference.
pub open spec fn write_through_error(t: TypeV, span: SpanV) -> MetelErrorV {
    type_failure(
        TypeErrorCode::T0002,
        "cannot write through `"@ + type_text(t) + "`; `&var T` required"@,
        span,
    )
}

/// What is said of a write through something else than a `&var` reference.
pub fn cannot_write_through(t: &Type, span: &Span) -> (r: MetelError)
    ensures
        r@ == write_through_error(t@, span@),
{
    MetelError::type_error(
        TypeErrorCode::T0002,
        joined3("cannot write through `", t.describe().as_str(), "`; `&var T` required"),
        span,
    )
}

/// The type of an array element that is written to. Views of arrays cannot be written to.
pub open spec fn written_item(object: TypeV, span: SpanV) -> Result<TypeV, MetelErrorV> {
    match peeled(object) {
        TypeV::SizedArray(item, _) => Ok(*item),
        TypeV::Array(_) => Err(
            type_failure(
                TypeErrorCode::T0023,
                "cannot assign through `T[]`: array views are immutable; use `[T; N]` or `List<T>`"@,
                span,
            ),
        ),
        _ => Err(
            type_failure(
                TypeErrorCode::T0002,
                "cannot infer array type for assignment; add a type annotation"@,
                span,
            ),
        ),
    }
}

fn array_item_ty(object: &Type, span: &Span) -> (r: Result<Type, MetelError>)
    ensures
        type_result(r) == written_item(object@, span@),
{
    match peel_type_references(object) {
        Type::SizedArray(item, _) => Ok(item.copy()),
        Type::Array(_) => Err(
            MetelError::type_error(
                TypeErrorCode::T0023,
                "cannot assign through `T[]`: array views are immutable; use `[T; N]` or `List<T>`".to_owned(),
                span,
            ),
        ),
        _ => Err(
            MetelError::type_error(
                TypeErrorCode::T0002,
                "cannot infer array type for assignment; add a type annotation".to_owned(),
                span,
            ),
        ),
    }
}

/// The type of a place that is assigned to.
pub open spec fn place_ty(fx: Facts, st: StateV, p: PlaceT, span: SpanV) -> Result<
    TypeV,
    MetelErrorV,
>
    decreases p,
{
    match p {
        PlaceT::Ident(name, at) => match var_of(st.scopes, name) {
            Some(t) => Ok(t),
            None => Err(
                type_failure(
                    TypeErrorCode::T0003,
                    "use of undeclared variable `"@ + name + "`"@,
                    at,
                ),
            ),
        },
        PlaceT::Deref { object, .. } => match tree_ty(*object) {
            TypeV::MutReference(inner) => Ok(*inner),
            t => Err(write_through_error(t, span)),
        },
        PlaceT::Field { object, field, span: at } => match place_ty(fx, st, *object, at) {
            Ok(t) => written_field(fx, st, peeled(t), field, at),
            Err(e) => Err(e),
        },
        PlaceT::Tuple { object, index, span: at } => match place_ty(fx, st, *object, at) {
            Ok(t) => written_element(t, index, at),
            Err(e) => Err(e),
        },
        PlaceT::Index { object, .. } => match place_ty(fx, st, *object, span) {
            Ok(t) => written_item(t, span),
            Err(e) => Err(e),
        },
    }
}

impl<'a, 'c> Elaborator<'a, 'c> {
    /// The type of a field that is read.
    pub fn read_field_ty(&self, object: &Type, field: &str, span: &Span) -> (r: Result<
        Type,
        MetelError,
    >)
        ensures
            type_result(r) == read_field(self.fx, self.st(), object@, field@, span@),
    {
        let t: &Type = peel_type_references(object);
        match t {
            Type::Record(fields) => match find_label(fields, field) {
                Some(ty) => Ok(ty.copy()),
                None => {
                    let text: String = t.describe();
                    let mut out: String = joined3("no field `", field, "` on ");
                    out.append(text.as_str());
                    Err(MetelError::internal(out))
                },
            },
            Type::Named(name, args) => match self.lookup_field(name.as_str(), args, field, span) {
                FieldLookup::Found(r) => r,
                FieldLookup::NoStruct => Err(
                    MetelError::internal(joined5("no field `", field, "` on `", name.as_str(), "`")),
                ),
                FieldLookup::NoField => Err(
                    MetelError::internal(joined5("no field `", field, "` on `", name.as_str(), "`")),
                ),
            },
            _ => Err(
                MetelError::internal(
                    crate::text::joined("field access on non-struct type ", t.describe().as_str()),
                ),
            ),
        }
    }

    /// The type of a field that is projected out of a struct.
    pub fn projected_field_ty(
        &self,
        name: &str,
        args: &Vec<Type>,
        field: &str,
        span: &Span,
    ) -> (r: Result<Type, MetelError>)
        ensures
            type_result(r) == projected_field(
                self.fx,
                self.st(),
                name@,
                types_view(args@),
                field@,
                span@,
            ),
    {
        match self.lookup_field(name, args, field, span) {
            FieldLookup::Found(r) => r,
            _ => Err(
                MetelError::type_error(
                    TypeErrorCode::T0003,
                    joined5("no field `", field, "` on `", name, "`"),
                    span,
                ),
            ),
        }
    }

    /// The type of a field that is written to.
    pub fn typed_place_field_ty(&self, object: &Type, field: &str, span: &Span) -> (r: Result<
        Type,
        MetelError,
    >)
        ensures
            type_result(r) == written_field(self.fx, self.st(), object@, field@, span@),
    {
        match object {
            Type::Record(fields) => match find_label(fields, field) {
                Some(ty) => Ok(ty.copy()),
                None => Err(
                    MetelError::type_error(
                        TypeErrorCode::T0003,
                        joined3("no field `", field, "` on record"),
                        span,
                    ),
                ),
            },
            Type::Named(name, args) => match self.lookup_field(name.as_str(), args, field, span) {
                FieldLookup::Found(r) => r,
                FieldLookup::NoStruct => Err(
                    MetelError::type_error(
                        TypeErrorCode::T0003,
                        joined3("unknown type `", name.as_str(), "`"),
                        span,
                    ),
                ),
                FieldLookup::NoField => Err(
                    MetelError::type_error(
                        TypeErrorCode::T0003,
                        joined5("no field `", field, "` on `", name.as_str(), "`"),
                        span,
                    ),
                ),
            },
            _ => Err(
                MetelError::type_error(
                    TypeErrorCode::T0002,
                    "cannot infer struct type for field assignment; add a type annotation".to_owned(),
                    span,
                ),
            ),
        }
    }

    /// The type of a place that is assigned to.
    pub fn typed_place_ty(&self, p: &TypedPlace, span: &Span) -> (r: Result<Type, MetelError>)
        ensures
            type_result(r) == place_ty(self.fx, self.st(), place_tree(*p), span@),
        decreases *p,
    {
        broadcast use lemma_tree_ty;

        match p {
            TypedPlace::Ident(name, at) => match self.lookup(name.as_str()) {
                Some(t) => Ok(t),
                None => Err(
                    MetelError::type_error(
                        TypeErrorCode::T0003,
                        joined3("use of undeclared variable `", name.as_str(), "`"),
                        at,
                    ),
                ),
            },
            TypedPlace::Deref { object, .. } => {
                assert(tree_ty(expr_tree(**object)) == ty_of(**object)@);
                match object.ty() {
                    Type::MutReference(inner) => Ok(inner.copy()),
                    t => Err(cannot_write_through(t, span)),
                }
            },
            TypedPlace::Field { object, field, span: at } => match self.typed_place_ty(object, at) {
                Ok(t) => self.typed_place_field_ty(peel_type_references(&t), field.as_str(), at),
                Err(e) => Err(e),
            },
            TypedPlace::Tuple { object, index, span: at } => match self.typed_place_ty(object, at) {
                Ok(t) => tuple_element_ty(&t, *index, at),
                Err(e) => Err(e),
            },
            TypedPlace::Index { object, .. } => match self.typed_place_ty(object, span) {
                Ok(t) => array_item_ty(&t, span),
                Err(e) => Err(e),
            },
        }
    }
}

/// The outcome of a step that yields nothing: what went wrong, and the state after it.
pub ghost struct Bound {
    pub err: Option<MetelErrorV>,
    pub st: StateV,
}

/// Fields bound to their names, the first `n` of them, with the types that `entries` give them
/// for these type arguments.
pub open spec fn bound_fields(
    fields: Seq<Seq<char>>,
    entries: Seq<FieldEntry>,
    m: Map<TypeVar, InferTypeV>,
    subject: Seq<char>,
    st: StateV,
    n: int,
) -> Bound
    decreases n,
{
    if n <= 0 || n > fields.len() {
        Bound { err: None, st }
    } else {
        let before = bound_fields(fields, entries, m, subject, st, n - 1);
        if before.err is Some {
            before
        } else {
            match field_named(entries, fields[n - 1]) {
                None => Bound {
                    err: Some(fault("no field `"@ + fields[n - 1] + "` on "@ + subject)),
                    st: before.st,
                },
                Some(entry) => match lower(substituted(m, entry.ty@), entry.span@) {
                    Ok(t) => Bound { err: None, st: bound(before.st, fields[n - 1], t) },
                    Err(e) => Bound { err: Some(e), st: before.st },
                },
            }
        }
    }
}

/// Record fields bound to their names, the first `n` of them.
pub open spec fn bound_labels(
    fields: Seq<Seq<char>>,
    record: Seq<(Seq<char>, TypeV)>,
    st: StateV,
    n: int,
) -> Bound
    decreases n,
{
    if n <= 0 || n > fields.len() {
        Bound { err: None, st }
    } else {
        let before = bound_labels(fields, record, st, n - 1);
        if before.err is Some {
            before
        } else {
            match labelled(record, fields[n - 1]) {
                None => Bound {
                    err: Some(fault("missing record field `"@ + fields[n - 1] + "`"@)),
                    st: before.st,
                },
                Some(f) => Bound { err: None, st: bound(before.st, fields[n - 1], f.1) },
            }
        }
    }
}

/// The type arguments of a named type.
pub open spec fn type_args_of(t: TypeV) -> Seq<TypeV> {
    match t {
        TypeV::Named(_, args) => args,
        _ => Seq::empty(),
    }
}

/// The fields of an enum variant bound to their names.
pub open spec fn bound_variant(
    fx: Facts,
    enum_name: Seq<char>,
    variant: Seq<char>,
    fields: Seq<Seq<char>>,
    ty: TypeV,
    st: StateV,
) -> Bound {
    match enum_of(*fx.registry, enum_name) {
        None => Bound { err: Some(fault("unknown enum `"@ + enum_name + "`"@)), st },
        Some(info) => match variant_of(info, variant) {
            None => Bound { err: Some(fault("unknown variant `"@ + variant + "`"@)), st },
            Some(v) => bound_fields(
                fields,
                v.fields@,
                type_args_map(info.type_params@, type_args_of(ty)),
                "variant `"@ + variant + "`"@,
                st,
                fields.len() as int,
            ),
        },
    }
}

/// The fields of a struct bound to their names.
pub open spec fn bound_struct(
    fx: Facts,
    name: Seq<char>,
    fields: Seq<Seq<char>>,
    ty: TypeV,
    st: StateV,
) -> Bound {
    match struct_of(*fx.registry, name) {
        None => Bound { err: Some(fault("unknown struct `"@ + name + "`"@)), st },
        Some(info) => bound_fields(
            fields,
            info.fields@,
            match info.type_params {
                Some(params) => type_args_map(params@, type_args_of(ty)),
                None => Map::empty(),
            },
            "`"@ + name + "`"@,
            st,
            fields.len() as int,
        ),
    }
}

/// The state with the names of a pattern bound, for a value of a type.
pub open spec fn bound_pattern(fx: Facts, p: PatternV, ty: TypeV, st: StateV) -> Bound
    decreases p, 0int,
{
    match p {
        PatternV::Wildcard(_) => Bound { err: None, st },
        PatternV::Literal(_, _) => Bound { err: None, st },
        PatternV::Binding(name, _) => Bound { err: None, st: bound(st, name, ty) },
        PatternV::Tuple(parts, _) => match ty {
            TypeV::Tuple(items) => bound_parts(
                fx,
                parts,
                items,
                st,
                shorter(parts.len(), items.len()),
            ),
            _ => Bound { err: Some(fault("tuple pattern on non-tuple"@)), st },
        },
        PatternV::EnumVariant { path, fields, .. } => if path.len() == 2 {
            bound_variant(fx, path[0], path[1], fields, ty, st)
        } else {
            Bound { err: Some(fault("invalid pattern path"@)), st }
        },
        PatternV::Struct { name, fields, .. } => bound_struct(fx, name, fields, ty, st),
        PatternV::Record { fields, .. } => match ty {
            TypeV::Record(record) => bound_labels(fields, record, st, fields.len() as int),
            _ => Bound { err: Some(fault("record pattern on non-record type"@)), st },
        },
        PatternV::Array { elems, rest, .. } => match ty {
            TypeV::Array(item) => bound_items(
                fx,
                elems,
                *item,
                bound_rest(rest, *item, st),
                elems.len() as int,
            ),
            TypeV::SizedArray(item, _) => bound_items(
                fx,
                elems,
                *item,
                bound_rest(rest, *item, st),
                elems.len() as int,
            ),
            _ => Bound { err: Some(fault("array pattern on non-array type"@)), st },
        },
    }
}

/// The state with the rest of an array bound.
pub open spec fn bound_rest(rest: Option<Seq<char>>, item: TypeV, st: StateV) -> StateV {
    match rest {
        Some(name) => bound(st, name, TypeV::Array(Box::new(item))),
        None => st,
    }
}

/// [`bound_pattern`] by position, for the first `n` patterns.
pub open spec fn bound_parts(
    fx: Facts,
    s: Seq<PatternV>,
    types: Seq<TypeV>,
    st: StateV,
    n: int,
) -> Bound
    decreases s, n,
{
    if n <= 0 || n > s.len() || n > types.len() {
        Bound { err: None, st }
    } else {
        let before = bound_parts(fx, s, types, st, n - 1);
        if before.err is Some {
            before
        } else {
            bound_pattern(fx, s[n - 1], types[n - 1], before.st)
        }
    }
}

/// [`bound_pattern`] for the first `n` patterns, all for the same type.
pub open spec fn bound_items(fx: Facts, s: Seq<PatternV>, item: TypeV, st: StateV, n: int) -> Bound
    decreases s, n,
{
    if n <= 0 || n > s.len() {
        Bound { err: None, st }
    } else {
        let before = bound_items(fx, s, item, st, n - 1);
        if before.err is Some {
            before
        } else {
            bound_pattern(fx, s[n - 1], item, before.st)
        }
    }
}

fn extract_type_args_from_type(t: &Type) -> (r: Vec<Type>)
    ensures
        types_view(r@) == type_args_of(t@),
{
    match t {
        Type::Named(_, args) => crate::types::copy_types(args),
        _ => {
            let none: Vec<Type> = Vec::new();
            assert(types_view(none@) =~= Seq::empty());
            none
        },
    }
}

impl<'a, 'c> Elaborator<'a, 'c> {
    fn bind_fields(
        &mut self,
        fields: &Vec<String>,
        entries: &Vec<FieldEntry>,
        remap: &Substitution,
        subject: &str,
    ) -> (r: Option<MetelError>)
        ensures
            final(self).fx == old(self).fx,
            final(self).budget == old(self).budget,
            bound_fields(
                texts(fields@),
                entries@,
                remap@,
                subject@,
                old(self).st(),
                fields@.len() as int,
            ) == (Bound { err: opt_error(r), st: final(self).st() }),
    {
        let ghost names = texts(fields@);
        let ghost start = self.st();
        let mut failed: Option<MetelError> = None;
        let mut i: usize = 0;
        while i < fields.len()
            invariant
                i <= fields@.len(),
                names == texts(fields@),
                self.fx == old(self).fx,
                self.budget == old(self).budget,
                bound_fields(names, entries@, remap@, subject@, start, i as int) == (Bound {
                    err: opt_error(failed),
                    st: self.st(),
                }),
            decreases fields@.len() - i,
        {
            assert(names[i as int] == fields@[i as int]@);
            if failed.is_none() {
                match find_field(entries, fields[i].as_str()) {
                    None => {
                        let mut out: String = joined3("no field `", fields[i].as_str(), "` on ");
                        out.append(subject);
                        failed = Some(MetelError::internal(out));
                    },
                    Some(entry) => match infer_type_to_type(&remap.apply(&entry.ty), &entry.span) {
                        Ok(t) => {
                            self.bind(fields[i].as_str(), t);
                        },
                        Err(e) => {
                            failed = Some(e);
                        },
                    },
                }
            }
            i += 1;
        }
        failed
    }

    fn bind_labels(&mut self, fields: &Vec<String>, record: &Vec<(String, Type)>) -> (r: Option<
        MetelError,
    >)
        ensures
            final(self).fx == old(self).fx,
            final(self).budget == old(self).budget,
            bound_labels(
                texts(fields@),
                named_types_view(record@),
                old(self).st(),
                fields@.len() as int,
            ) == (Bound { err: opt_error(r), st: final(self).st() }),
    {
        let ghost names = texts(fields@);
        let ghost start = self.st();
        let mut failed: Option<MetelError> = None;
        let mut i: usize = 0;
        while i < fields.len()
            invariant
                i <= fields@.len(),
                names == texts(fields@),
                self.fx == old(self).fx,
                self.budget == old(self).budget,
                bound_labels(names, named_types_view(record@), start, i as int) == (Bound {
                    err: opt_error(failed),
                    st: self.st(),
                }),
            decreases fields@.len() - i,
        {
            assert(names[i as int] == fields@[i as int]@);
            if failed.is_none() {
                match find_label(record, fields[i].as_str()) {
                    None => {
                        failed = Some(
                            MetelError::internal(
                                joined3("missing record field `", fields[i].as_str(), "`"),
                            ),
                        );
                    },
                    Some(t) => {
                        self.bind(fields[i].as_str(), t.copy());
                    },
                }
            }
            i += 1;
        }
        failed
    }

    fn bind_enum_variant_fields(
        &mut self,
        enum_name: &str,
        variant: &str,
        fields: &Vec<String>,
        ty: &Type,
    ) -> (r: Option<MetelError>)
        ensures
            final(self).fx == old(self).fx,
            final(self).budget == old(self).budget,
            bound_variant(
                old(self).fx,
                enum_name@,
                variant@,
                texts(fields@),
                ty@,
                old(self).st(),
            ) == (Bound { err: opt_error(r), st: final(self).st() }),
    {
        let registry = self.fx.registry;
        let info: &EnumInfo = match registry.enum_info(enum_name) {
            Some(info) => info,
            None => {
                return Some(MetelError::internal(joined3("unknown enum `", enum_name, "`")));
            },
        };
        let v: &VariantInfo = match find_variant(info, variant) {
            Some(v) => v,
            None => {
                return Some(MetelError::internal(joined3("unknown variant `", variant, "`")));
            },
        };
        let args: Vec<Type> = extract_type_args_from_type(ty);
        let remap: Substitution = type_param_remap(&info.type_params, &args);
        let subject: String = joined3("variant `", variant, "`");
        assert(texts(fields@).len() == fields@.len());
        self.bind_fields(fields, &v.fields, &remap, subject.as_str())
    }

    fn bind_struct_pattern_fields(&mut self, name: &str, fields: &Vec<String>, ty: &Type) -> (r:
        Option<MetelError>)
        ensures
            final(self).fx == old(self).fx,
            final(self).budget == old(self).budget,
            bound_struct(old(self).fx, name@, texts(fields@), ty@, old(self).st()) == (Bound {
                err: opt_error(r),
                st: final(self).st(),
            }),
    {
        let registry = self.fx.registry;
        let info: &StructInfo = match registry.struct_info(name) {
            Some(info) => info,
            None => {
                return Some(MetelError::internal(joined3("unknown struct `", name, "`")));
            },
        };
        let remap: Substitution = match &info.type_params {
            Some(params) => {
                let args: Vec<Type> = extract_type_args_from_type(ty);
                type_param_remap(params, &args)
            },
            None => Substitution::new(),
        };
        let subject: String = joined3("`", name, "`");
        assert(texts(fields@).len() == fields@.len());
        self.bind_fields(fields, &info.fields, &remap, subject.as_str())
    }

    /// Bind the names of a pattern, for a value of a type.
    pub fn construct_pattern_bindings(&mut self, p: &Pattern, ty: &Type) -> (r: Option<MetelError>)
        ensures
            final(self).fx == old(self).fx,
            final(self).budget == old(self).budget,
            bound_pattern(old(self).fx, pattern_view(*p), ty@, old(self).st()) == (Bound {
                err: opt_error(r),
                st: final(self).st(),
            }),
        decreases *p, 0int,
    {
        match p {
            Pattern::Wildcard(_) => None,
            Pattern::Literal(_, _) => None,
            Pattern::Binding(name, _) => {
                self.bind(name.as_str(), ty.copy());
                None
            },
            Pattern::Tuple(parts, _) => match ty {
                Type::Tuple(items) => self.bind_parts(parts, items),
                _ => Some(MetelError::internal("tuple pattern on non-tuple".to_owned())),
            },
            Pattern::EnumVariant { path, fields, .. } => {
                assert(texts(path@).len() == path@.len());
                if path.len() != 2 {
                    return Some(MetelError::internal("invalid pattern path".to_owned()));
                }
                assert(texts(path@)[0] == path@[0]@ && texts(path@)[1] == path@[1]@);
                self.bind_enum_variant_fields(path[0].as_str(), path[1].as_str(), fields, ty)
            },
            Pattern::Struct { name, fields, .. } => self.bind_struct_pattern_fields(
                name.as_str(),
                fields,
                ty,
            ),
            Pattern::Record { fields, .. } => match ty {
                Type::Record(record) => {
                    assert(texts(fields@).len() == fields@.len());
                    self.bind_labels(fields, record)
                },
                _ => Some(MetelError::internal("record pattern on non-record type".to_owned())),
            },
            Pattern::Array { elems, rest, .. } => {
                let item: &Type = match ty {
                    Type::Array(item) => item,
                    Type::SizedArray(item, _) => item,
                    _ => {
                        return Some(
                            MetelError::internal("array pattern on non-array type".to_owned()),
                        );
                    },
                };
                if let Some(name) = rest {
                    self.bind(name.as_str(), Type::Array(Box::new(item.copy())));
                }
                self.bind_items(elems, item)
            },
        }
    }

    fn bind_parts(&mut self, parts: &Vec<Pattern>, types: &Vec<Type>) -> (r: Option<MetelError>)
        ensures
            final(self).fx == old(self).fx,
            final(self).budget == old(self).budget,
            bound_parts(
                old(self).fx,
                patterns_view(parts@),
                types_view(types@),
                old(self).st(),
                shorter(patterns_view(parts@).len(), types_view(types@).len()),
            ) == (Bound { err: opt_error(r), st: final(self).st() }),
        decreases parts@, 1int,
    {
        let ghost views = patterns_view(parts@);
        let ghost ts = types_view(types@);
        let ghost start = self.st();
        assert(views.len() == parts@.len());
        assert(ts.len() == types@.len());
        let mut failed: Option<MetelError> = None;
        let mut i: usize = 0;
        while i < parts.len() && i < types.len()
            invariant
                i <= parts@.len(),
                i <= types@.len(),
                views == patterns_view(parts@),
                ts == types_view(types@),
                views.len() == parts@.len(),
                ts.len() == types@.len(),
                self.fx == old(self).fx,
                self.budget == old(self).budget,
                bound_parts(self.fx, views, ts, start, i as int) == (Bound {
                    err: opt_error(failed),
                    st: self.st(),
                }),
            decreases parts@.len() - i,
        {
            assert(views[i as int] == pattern_view(parts@[i as int]));
            assert(ts[i as int] == type_view(types@[i as int]));
            if failed.is_none() {
                failed = self.construct_pattern_bindings(&parts[i], &types[i]);
            }
            i += 1;
        }
        failed
    }

    fn bind_items(&mut self, parts: &Vec<Pattern>, item: &Type) -> (r: Option<MetelError>)
        ensures
            final(self).fx == old(self).fx,
            final(self).budget == old(self).budget,
            bound_items(
                old(self).fx,
                patterns_view(parts@),
                item@,
                old(self).st(),
                patterns_view(parts@).len() as int,
            ) == (Bound { err: opt_error(r), st: final(self).st() }),
        decreases parts@, 1int,
    {
        let ghost views = patterns_view(parts@);
        let ghost start = self.st();
        assert(views.len() == parts@.len());
        let mut failed: Option<MetelError> = None;
        let mut i: usize = 0;
        while i < parts.len()
            invariant
                i <= parts@.len(),
                views == patterns_view(parts@),
                views.len() == parts@.len(),
                self.fx == old(self).fx,
                self.budget == old(self).budget,
                bound_items(self.fx, views, item@, start, i as int) == (Bound {
                    err: opt_error(failed),
                    st: self.st(),
                }),
            decreases parts@.len() - i,
        {
            assert(views[i as int] == pattern_view(parts@[i as int]));
            if failed.is_none() {
                failed = self.construct_pattern_bindings(&parts[i], item);
            }
            i += 1;
        }
        failed
    }
}

} // verus!
