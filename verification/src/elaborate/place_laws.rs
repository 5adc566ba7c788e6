//! What may be assigned to a place.
use vstd::prelude::*;
use crate::error::{MetelErrorV, TypeErrorCode};
use crate::lookup_laws::law_labels_are_found_by_name;
use crate::span::SpanV;
use crate::types::{peeled, TypeV};
use super::bounds::labelled;
use super::fields::{place_ty, read_field, written_element, written_field, written_item};
use super::shapes::{indexed, read_element};
use super::state::{var_of, Facts, StateV};
use super::tree::{tree_ty, ExprT, PlaceT};

verus! {

/// What is assigned to an element of a tuple has the type that is read from it: the one at its
/// position.
pub proof fn law_tuple_elements_are_written_as_they_are_read(
    object: TypeV,
    index: usize,
    at: SpanV,
    span: SpanV,
)
    ensures
        match peeled(object) {
            TypeV::Tuple(items) => index < items.len() ==> written_element(object, index, at) == Ok::<
                TypeV,
                MetelErrorV,
            >(items[index as int]) && read_element(object, index, span) == Ok::<TypeV, MetelErrorV>(
                items[index as int],
            ),
            _ => written_element(object, index, at) is Err && read_element(object, index, span) is Err,
        },
        written_element(object, index, at) is Ok <==> read_element(object, index, span) is Ok,
{
}

/// What is assigned to an element of an array has the type that is read from it. An array view is
/// read, never written.
pub proof fn law_array_elements_are_written_as_they_are_read(
    object: TypeV,
    item: TypeV,
    n: u64,
    at: SpanV,
    span: SpanV,
)
    ensures
        peeled(object) == TypeV::SizedArray(Box::new(item), n) ==> written_item(object, at) == Ok::<
            TypeV,
            MetelErrorV,
        >(item) && indexed(object, TypeV::U64, false, span) == Ok::<TypeV, MetelErrorV>(item),
        peeled(object) == TypeV::Array(Box::new(item)) ==> indexed(object, TypeV::U64, true, span)
            == Ok::<TypeV, MetelErrorV>(item) && (written_item(object, at) matches Err(e) && (
        e matches MetelErrorV::TypeError { code, .. } && code == TypeErrorCode::T0023)),
        written_item(object, at) matches Ok(t) ==> indexed(object, TypeV::U64, false, span) == Ok::<
            TypeV,
            MetelErrorV,
        >(t),
{
}

/// An array is indexed by a `u64`, and by nothing else.
pub proof fn law_arrays_are_indexed_by_numbers(object: TypeV, index: TypeV, literal: bool, span: SpanV)
    ensures
        indexed(object, index, literal, span) is Ok ==> index == TypeV::U64 && (peeled(object) is Array
            || peeled(object) is SizedArray),
        peeled(object) matches TypeV::SizedArray(_, n) ==> (n == 0 && literal ==> indexed(
            object,
            index,
            literal,
            span,
        ) is Err),
{
}

/// What is assigned to a field has the type that is read from it.
pub proof fn law_fields_are_written_as_they_are_read(
    fx: Facts,
    st: StateV,
    object: TypeV,
    field: Seq<char>,
    span: SpanV,
)
    ensures
        written_field(fx, st, peeled(object), field, span) is Ok <==> read_field(
            fx,
            st,
            object,
            field,
            span,
        ) is Ok,
        written_field(fx, st, peeled(object), field, span) matches Ok(t) ==> read_field(
            fx,
            st,
            object,
            field,
            span,
        ) == Ok::<TypeV, MetelErrorV>(t),
        peeled(object) matches TypeV::Record(fields) ==> (written_field(
            fx,
            st,
            peeled(object),
            field,
            span,
        ) matches Ok(t) ==> fields.contains((field, t))),
{
    if let TypeV::Record(fields) = peeled(object) {
        law_labels_are_found_by_name(fields, field);
        if let Some(x) = labelled(fields, field) {
            let k = choose|k: int|
                0 <= k < fields.len() && (#[trigger] fields[k]).0 == field && fields[k] == x
                    && forall|j: int| 0 <= j < k ==> (#[trigger] fields[j]).0 != field;
            assert(fields[k] == (field, x.1));
        }
    }
}

/// A place has the type of what it is: a variable that of its binding, a part that of the part of
/// what it is a part of, and a reference is written through only where it is a `&var` one.
pub proof fn law_places_have_the_types_of_what_they_are(
    fx: Facts,
    st: StateV,
    p: PlaceT,
    span: SpanV,
    t: TypeV,
)
    requires
        place_ty(fx, st, p, span) == Ok::<TypeV, MetelErrorV>(t),
    ensures
        match p {
            PlaceT::Ident(name, _) => var_of(st.scopes, name) == Some(t),
            PlaceT::Deref { object, .. } => tree_ty(*object) == TypeV::MutReference(Box::new(t)),
            PlaceT::Field { object, field, span: at } => place_ty(fx, st, *object, at) matches Ok(u)
                && read_field(fx, st, u, field, at) == Ok::<TypeV, MetelErrorV>(t),
            PlaceT::Tuple { object, index, span: at } => place_ty(fx, st, *object, at) matches Ok(u)
                && (peeled(u) matches TypeV::Tuple(items) && index < items.len() && items[index as int]
                == t),
            PlaceT::Index { object, .. } => place_ty(fx, st, *object, span) matches Ok(u) && (peeled(
                u,
            ) matches TypeV::SizedArray(item, _) && *item == t),
        },
{
    if let PlaceT::Field { object, field, span: at } = p {
        if let Ok(u) = place_ty(fx, st, *object, at) {
            law_fields_are_written_as_they_are_read(fx, st, u, field, at);
        }
    }
}

/// A variable that is known can be written, and so can what a `&var` reference refers to; nothing is
/// written through a shared reference.
pub proof fn law_what_can_be_written(
    fx: Facts,
    st: StateV,
    name: Seq<char>,
    object: ExprT,
    at: SpanV,
    span: SpanV,
)
    ensures
        place_ty(fx, st, PlaceT::Ident(name, at), span) is Ok <==> var_of(st.scopes, name) is Some,
        place_ty(fx, st, PlaceT::Deref { object: Box::new(object), span: at }, span) is Ok <==> tree_ty(
            object,
        ) is MutReference,
{
}

} // verus!
