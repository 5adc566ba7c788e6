//! Which types meet which bounds.
use vstd::prelude::*;
use crate::infer::InferTypeV;
use crate::lookup_laws::{law_labels_are_found_by_name, lemma_first_where_congruent};
use crate::registry::{first_where, lemma_first_at, satisfies};
use crate::scheme::{GenericBound, RowConstraint, RowField};
use crate::types::TypeV;
use super::bounds::{asked_error, bounds_error, excluded, forbidden_error, has_aspects, has_row};
use super::bounds::{labelled, negative_bounds_error, negative_row_error, record_kind_error};
use super::bounds::{required_error, requirements_error, row_error, row_field_type, rows_error};
use super::bounds::{unmet, Site};

verus! {

/// Whether a record has a label, of a type where one is asked for. The first field under the label
/// counts.
pub open spec fn carries(
    site: Site,
    fields: Seq<(Seq<char>, TypeV)>,
    asked: RowField,
    generics: Seq<(Seq<char>, InferTypeV)>,
) -> bool {
    exists|k: int|
        0 <= k < fields.len() && (#[trigger] fields[k]).0 == asked.label@ && (forall|j: int|
            0 <= j < k ==> (#[trigger] fields[j]).0 != asked.label@) && (match asked.ty {
            None => true,
            Some(te) => row_field_type(te@, generics, site.span) == Ok::<
                TypeV,
                crate::error::MetelErrorV,
            >(fields[k].1),
        })
}

/// Whether a record has nothing under a label, or something of another type than the one that is
/// ruled out.
pub open spec fn lacks(
    site: Site,
    fields: Seq<(Seq<char>, TypeV)>,
    asked: RowField,
    generics: Seq<(Seq<char>, InferTypeV)>,
) -> bool {
    ||| forall|k: int| 0 <= k < fields.len() ==> (#[trigger] fields[k]).0 != asked.label@
    ||| exists|k: int|
        0 <= k < fields.len() && (#[trigger] fields[k]).0 == asked.label@ && (forall|j: int|
            0 <= j < k ==> (#[trigger] fields[j]).0 != asked.label@) && (asked.ty matches Some(te)
            && (row_field_type(te@, generics, site.span) matches Ok(t) && t != fields[k].1))
}

proof fn lemma_label(site: Site, fields: Seq<(Seq<char>, TypeV)>, row: RowConstraint, asked: RowField, generics: Seq<(Seq<char>, InferTypeV)>)
    ensures
        required_error(site, fields, row, asked, generics) is None <==> carries(
            site,
            fields,
            asked,
            generics,
        ),
        forbidden_error(site, fields, row, asked, generics) is None <==> lacks(
            site,
            fields,
            asked,
            generics,
        ),
{
    let name = asked.label@;
    law_labels_are_found_by_name(fields, name);
    if let Some(x) = labelled(fields, name) {
        let k = choose|k: int|
            0 <= k < fields.len() && (#[trigger] fields[k]).0 == name && fields[k] == x
                && forall|j: int| 0 <= j < k ==> (#[trigger] fields[j]).0 != name;
        assert forall|i: int|
            0 <= i < fields.len() && (#[trigger] fields[i]).0 == name && (forall|j: int|
                0 <= j < i ==> (#[trigger] fields[j]).0 != name) implies i == k by {
            assert(i < k || k < i || i == k);
            assert(fields[k].0 == name);
        }
    }
}

proof fn lemma_labels(
    site: Site,
    fields: Seq<(Seq<char>, TypeV)>,
    row: RowConstraint,
    generics: Seq<(Seq<char>, InferTypeV)>,
    n: int,
)
    requires
        0 <= n <= row.fields@.len(),
    ensures
        requirements_error(site, fields, row, generics, n) is None <==> forall|i: int|
            0 <= i < n ==> carries(site, fields, #[trigger] row.fields@[i], generics),
        negative_row_error(site, fields, row, generics, n) is None <==> forall|i: int|
            0 <= i < n ==> lacks(site, fields, #[trigger] row.fields@[i], generics),
    decreases n,
{
    if n > 0 {
        lemma_labels(site, fields, row, generics, n - 1);
        lemma_label(site, fields, row, row.fields@[n - 1], generics);
        let last = row.fields@[n - 1];
    }
}

/// A record meets a row bound just if it has every label of it, of the type that is asked for, and
/// no other label unless the bound is open.
pub proof fn law_rows_are_met_label_by_label(
    site: Site,
    fields: Seq<(Seq<char>, TypeV)>,
    row: RowConstraint,
    generics: Seq<(Seq<char>, InferTypeV)>,
)
    ensures
        row_error(site, fields, row, generics) is None <==> (row.open || fields.len()
            == row.fields@.len()) && forall|i: int|
            0 <= i < row.fields@.len() ==> carries(site, fields, #[trigger] row.fields@[i], generics),
{
    lemma_labels(site, fields, row, generics, row.fields@.len() as int);
}

/// A record meets a negative row bound just if it has none of its labels, of the type that is ruled
/// out.
pub proof fn law_ruled_out_labels_are_refused(
    site: Site,
    fields: Seq<(Seq<char>, TypeV)>,
    row: RowConstraint,
    generics: Seq<(Seq<char>, InferTypeV)>,
)
    ensures
        negative_row_error(site, fields, row, generics, row.fields@.len() as int) is None
            <==> forall|i: int|
            0 <= i < row.fields@.len() ==> lacks(site, fields, #[trigger] row.fields@[i], generics),
{
    lemma_labels(site, fields, row, generics, row.fields@.len() as int);
}

proof fn lemma_rows(
    site: Site,
    fields: Seq<(Seq<char>, TypeV)>,
    bounds: Seq<GenericBound>,
    generics: Seq<(Seq<char>, InferTypeV)>,
    negative: bool,
    n: int,
)
    requires
        0 <= n <= bounds.len(),
    ensures
        rows_error(site, fields, bounds, generics, negative, n) is None <==> forall|i: int|
            0 <= i < n ==> (#[trigger] bounds[i] matches GenericBound::Row(row) ==> row_met(
                site,
                fields,
                row,
                generics,
                negative,
            )),
    decreases n,
{
    if n > 0 {
        lemma_rows(site, fields, bounds, generics, negative, n - 1);
        let last = bounds[n - 1];
        if let GenericBound::Row(row) = last {
            law_rows_are_met_label_by_label(site, fields, row, generics);
            law_ruled_out_labels_are_refused(site, fields, row, generics);
        }
    }
}

/// Whether a record meets a row bound, or a negative one.
pub open spec fn row_met(
    site: Site,
    fields: Seq<(Seq<char>, TypeV)>,
    row: RowConstraint,
    generics: Seq<(Seq<char>, InferTypeV)>,
    negative: bool,
) -> bool {
    if negative {
        forall|i: int|
            0 <= i < row.fields@.len() ==> lacks(site, fields, #[trigger] row.fields@[i], generics)
    } else {
        (row.open || fields.len() == row.fields@.len()) && forall|i: int|
            0 <= i < row.fields@.len() ==> carries(site, fields, #[trigger] row.fields@[i], generics)
    }
}

/// Whether a type satisfies an aspect that is asked for, or does not satisfy one that is ruled out.
/// What is copied has nothing to drop.
pub open spec fn aspect_met(site: Site, t: TypeV, aspect: Seq<char>, negative: bool) -> bool {
    let met = satisfies(site.reg, site.extra, site.module, t, aspect);
    if negative {
        !met || (aspect == "Drop"@ && satisfies(site.reg, site.extra, site.module, t, "Copy"@))
    } else {
        met
    }
}

/// A type meets bounds just if it meets each of them: a record every row, and a type that has
/// aspects every aspect. A type parameter for records takes records only, and a row bound asks for
/// such a parameter.
pub proof fn law_bounds_are_met_one_by_one(
    site: Site,
    t: TypeV,
    bounds: Seq<GenericBound>,
    record_kind: bool,
    owner: Seq<char>,
    generics: Seq<(Seq<char>, InferTypeV)>,
    negative: bool,
)
    ensures
        asked_error(site, t, bounds, record_kind, owner, generics, negative) is None <==> (if record_kind {
            t is Record
        } else {
            forall|i: int| 0 <= i < bounds.len() ==> !((#[trigger] bounds[i]) is Row)
        }) && forall|i: int|
            0 <= i < bounds.len() ==> (match #[trigger] bounds[i] {
                GenericBound::Row(row) => t matches TypeV::Record(fields) ==> row_met(
                    site,
                    fields,
                    row,
                    generics,
                    negative,
                ),
                GenericBound::Aspect(aspect) => !(t is Unit) && !(t is Never) ==> aspect_met(
                    site,
                    t,
                    aspect@,
                    negative,
                ),
            }),
{
    broadcast use lemma_first_where_congruent;

    assert(has_aspects(t) == (!(t is Unit) && !(t is Never)));
    if let TypeV::Record(fields) = t {
        lemma_rows(site, fields, bounds, generics, negative, bounds.len() as int);
    }
    let p = |b: GenericBound| unmet(site, t, b);
    let q = |b: GenericBound| excluded(site, t, b);
    let i = lemma_first_at(bounds, p);
    let k = lemma_first_at(bounds, q);
    if first_where(bounds, p) is Some {
        assert(unmet(site, t, bounds[i]));
    }
    if first_where(bounds, q) is Some {
        assert(excluded(site, t, bounds[k]));
    }
    assert forall|j: int| 0 <= j < bounds.len() && first_where(bounds, p) is None implies !unmet(
        site,
        t,
        #[trigger] bounds[j],
    ) by {
        assert(!p(bounds[j]));
    }
    assert forall|j: int| 0 <= j < bounds.len() && first_where(bounds, q) is None implies !excluded(
        site,
        t,
        #[trigger] bounds[j],
    ) by {
        assert(!q(bounds[j]));
    }
    assert(record_kind_error(site, t, bounds, record_kind, owner) is None <==> (if record_kind {
        t is Record
    } else {
        !has_row(bounds)
    }));
    if negative {
        assert(bounds.len() == 0 && !record_kind || asked_error(
            site,
            t,
            bounds,
            record_kind,
            owner,
            generics,
            negative,
        ) == negative_bounds_error(site, t, bounds, record_kind, owner, generics));
    } else {
        assert(bounds.len() == 0 && !record_kind || asked_error(
            site,
            t,
            bounds,
            record_kind,
            owner,
            generics,
            negative,
        ) == bounds_error(site, t, bounds, record_kind, owner, generics));
    }
}

} // verus!
