//! Whether concrete types meet the bounds of the type parameters they are chosen for.
use vstd::prelude::*;
use crate::conversions::{denoted, type_expr_to_infer, TypeScope, TypeScopeV};
use crate::error::{opt_error, type_failure, MetelError, MetelErrorV, TypeErrorCode};
use crate::infer::{named_infer_types_view, InferType};
use crate::infer::InferTypeV;
use crate::lookup::names_struct;
use crate::registry::{first_where, lemma_first_where_skip, satisfies};
use crate::registry::{AspectImpl, TypeDefinitionRegistry};
use crate::scheme::{infer_type_to_type, lower, GenericBound, RowConstraint, RowField};
use crate::span::{Span, SpanV};
use crate::text::{join_spec, join_texts, joined3, joined5, joined7, same_text, texts};
use crate::types::{named_types_view, primitive_name, primitive_type_name, type_text, type_view};
use crate::types::{Type, TypeV};

verus! {

/// What bounds are checked against: the declarations and what holds besides them, the module that
/// asks, and where.
pub ghost struct Site {
    pub reg: TypeDefinitionRegistry,
    pub extra: Seq<AspectImpl>,
    pub module: Seq<Seq<char>>,
    pub span: SpanV,
}

/// The labels of a row bound.
pub open spec fn row_labels(row: RowConstraint) -> Seq<Seq<char>> {
    Seq::new(row.fields@.len(), |i: int| row.fields@[i].label@)
}

/// A row bound as it is written in messages.
pub open spec fn row_text(row: RowConstraint) -> Seq<char> {
    "{ "@ + join_spec(row_labels(row), ", "@) + if row.open {
        ", .. }"@
    } else {
        " }"@
    }
}

/// The labels of a record.
pub open spec fn labels(fields: Seq<(Seq<char>, TypeV)>) -> Seq<Seq<char>> {
    Seq::new(fields.len(), |i: int| fields[i].0)
}

/// The type of a record field.
pub open spec fn labelled(fields: Seq<(Seq<char>, TypeV)>, label: Seq<char>) -> Option<
    (Seq<char>, TypeV),
> {
    first_where(fields, |f: (Seq<char>, TypeV)| f.0 == label)
}

/// The type that a row bound gives a label, with the type parameters replaced.
pub open spec fn row_field_type(
    te: crate::ast::TypeExprV,
    generics: Seq<(Seq<char>, InferTypeV)>,
    span: SpanV,
) -> Result<TypeV, MetelErrorV> {
    lower(denoted(TypeScopeV { generics, self_name: None, aspect: None }, te), span)
}

/// What is wrong with a record for one label that a row bound requires.
pub open spec fn required_error(
    site: Site,
    fields: Seq<(Seq<char>, TypeV)>,
    row: RowConstraint,
    required: RowField,
    generics: Seq<(Seq<char>, InferTypeV)>,
) -> Option<MetelErrorV> {
    match labelled(fields, required.label@) {
        None => Some(
            type_failure(
                TypeErrorCode::T0012,
                "row bound `"@ + row_text(row) + "` requires label `"@ + required.label@
                    + "`, but the record has: "@ + join_spec(labels(fields), ", "@),
                site.span,
            ),
        ),
        Some(found) => match required.ty {
            None => None,
            Some(te) => match row_field_type(te@, generics, site.span) {
                Err(e) => Some(e),
                Ok(expected) => if found.1 == expected {
                    None
                } else {
                    Some(
                        type_failure(
                            TypeErrorCode::T0012,
                            "row bound `"@ + row_text(row) + "` requires label `"@
                                + required.label@ + "` to have type `"@ + type_text(expected)
                                + "`, but it is `"@ + type_text(found.1) + "`"@,
                            site.span,
                        ),
                    )
                },
            },
        },
    }
}

/// What is wrong with a record for the first `n` labels that a row bound requires.
pub open spec fn requirements_error(
    site: Site,
    fields: Seq<(Seq<char>, TypeV)>,
    row: RowConstraint,
    generics: Seq<(Seq<char>, InferTypeV)>,
    n: int,
) -> Option<MetelErrorV>
    decreases n,
{
    if n <= 0 || n > row.fields@.len() {
        None
    } else {
        match requirements_error(site, fields, row, generics, n - 1) {
            Some(e) => Some(e),
            None => required_error(site, fields, row, row.fields@[n - 1], generics),
        }
    }
}

/// What is wrong with a record for a row bound.
pub open spec fn row_error(
    site: Site,
    fields: Seq<(Seq<char>, TypeV)>,
    row: RowConstraint,
    generics: Seq<(Seq<char>, InferTypeV)>,
) -> Option<MetelErrorV> {
    if !row.open && fields.len() != row.fields@.len() {
        Some(
            type_failure(
                TypeErrorCode::T0012,
                "row bound `"@ + row_text(row)
                    + "` requires exactly these labels, but the record has: "@ + join_spec(
                    labels(fields),
                    ", "@,
                ),
                site.span,
            ),
        )
    } else {
        requirements_error(site, fields, row, generics, row.fields@.len() as int)
    }
}

/// What is wrong with a record for one label that a negative row bound forbids.
pub open spec fn forbidden_error(
    site: Site,
    fields: Seq<(Seq<char>, TypeV)>,
    row: RowConstraint,
    forbidden: RowField,
    generics: Seq<(Seq<char>, InferTypeV)>,
) -> Option<MetelErrorV> {
    let violated = type_failure(
        TypeErrorCode::T0012,
        "negative row bound `!"@ + row_text(row)
            + "` is not satisfied because the record has label `"@ + forbidden.label@ + "`"@,
        site.span,
    );
    match labelled(fields, forbidden.label@) {
        None => None,
        Some(found) => match forbidden.ty {
            None => Some(violated),
            Some(te) => match row_field_type(te@, generics, site.span) {
                Err(e) => Some(e),
                Ok(expected) => if found.1 == expected {
                    Some(violated)
                } else {
                    None
                },
            },
        },
    }
}

/// What is wrong with a record for the first `n` labels that a negative row bound forbids.
pub open spec fn negative_row_error(
    site: Site,
    fields: Seq<(Seq<char>, TypeV)>,
    row: RowConstraint,
    generics: Seq<(Seq<char>, InferTypeV)>,
    n: int,
) -> Option<MetelErrorV>
    decreases n,
{
    if n <= 0 || n > row.fields@.len() {
        None
    } else {
        match negative_row_error(site, fields, row, generics, n - 1) {
            Some(e) => Some(e),
            None => forbidden_error(site, fields, row, row.fields@[n - 1], generics),
        }
    }
}

/// What is wrong with a record for the row bounds among the first `n` bounds.
pub open spec fn rows_error(
    site: Site,
    fields: Seq<(Seq<char>, TypeV)>,
    bounds: Seq<GenericBound>,
    generics: Seq<(Seq<char>, InferTypeV)>,
    negative: bool,
    n: int,
) -> Option<MetelErrorV>
    decreases n,
{
    if n <= 0 || n > bounds.len() {
        None
    } else {
        match rows_error(site, fields, bounds, generics, negative, n - 1) {
            Some(e) => Some(e),
            None => match bounds[n - 1] {
                GenericBound::Row(row) => if negative {
                    negative_row_error(site, fields, row, generics, row.fields@.len() as int)
                } else {
                    row_error(site, fields, row, generics)
                },
                GenericBound::Aspect(_) => None,
            },
        }
    }
}

/// Whether some bound is one on fields.
pub open spec fn has_row(bounds: Seq<GenericBound>) -> bool {
    exists|i: int| 0 <= i < bounds.len() && (#[trigger] bounds[i]) is Row
}

/// What is wrong with a type where only records are allowed, or with a row bound where they are
/// not asked for.
pub open spec fn record_kind_error(
    site: Site,
    t: TypeV,
    bounds: Seq<GenericBound>,
    record_kind: bool,
    owner: Seq<char>,
) -> Option<MetelErrorV> {
    if has_row(bounds) && !record_kind {
        Some(
            type_failure(
                TypeErrorCode::T0012,
                "row bound requires a record-kinded type parameter in `"@ + owner
                    + "`; add `record` before the type parameter"@,
                site.span,
            ),
        )
    } else if !record_kind {
        None
    } else {
        match t {
            TypeV::Record(_) => None,
            TypeV::Named(name, _) => Some(
                type_failure(
                    TypeErrorCode::T0012,
                    if names_struct(site.reg, site.module, name) {
                        "`"@ + name
                            + "` is a struct, but a struct never satisfies a row bound; conversion to a record is not available in this release"@
                    } else {
                        "`"@ + name
                            + "` is not a record, and only records satisfy a `record` type parameter"@
                    },
                    site.span,
                ),
            ),
            other => Some(
                type_failure(
                    TypeErrorCode::T0012,
                    "`"@ + type_text(other)
                        + "` is not a record, and only records satisfy a `record` type parameter"@,
                    site.span,
                ),
            ),
        }
    }
}

/// Whether a type has aspects at all: every type but `()` and `!`.
pub open spec fn has_aspects(t: TypeV) -> bool {
    match t {
        TypeV::Named(_, _) => true,
        TypeV::Array(_) => true,
        TypeV::SizedArray(_, _) => true,
        TypeV::Tuple(_) => true,
        TypeV::Reference(_) => true,
        TypeV::MutReference(_) => true,
        TypeV::Fun(_, _) => true,
        TypeV::Record(_) => true,
        other => primitive_name(other) is Some,
    }
}

/// How a type is called in messages about aspects: by its name alone where it has one.
pub open spec fn aspect_subject(t: TypeV) -> Seq<char> {
    match t {
        TypeV::Named(name, _) => name,
        TypeV::Array(_) => type_text(t),
        TypeV::SizedArray(_, _) => type_text(t),
        TypeV::Tuple(_) => type_text(t),
        TypeV::Reference(_) => type_text(t),
        TypeV::MutReference(_) => type_text(t),
        TypeV::Fun(_, _) => type_text(t),
        TypeV::Record(_) => type_text(t),
        other => match primitive_name(other) {
            Some(name) => name,
            None => type_text(other),
        },
    }
}

/// What could be done where a type lacks an aspect.
pub open spec fn aspect_hint(t: TypeV, aspect: Seq<char>) -> Seq<char> {
    match t {
        TypeV::Array(item) => "\n       hint: arrays implement `"@ + aspect
            + "` only when their element type `"@ + type_text(*item) + "` does"@,
        TypeV::SizedArray(item, _) => if aspect == "Copy"@ {
            "\n       hint: fixed-size arrays implement `"@ + aspect
                + "` only when their element type `"@ + type_text(*item) + "` does"@
        } else {
            Seq::empty()
        },
        TypeV::Tuple(_) => if aspect == "Copy"@ {
            "\n       hint: tuples implement `"@ + aspect + "` only when every element does"@
        } else {
            "\n       hint: tuple impls are not yet provided; use a named struct instead"@
        },
        TypeV::Record(_) =>
            "\n       hint: an anonymous record satisfies only the auto-derived aspects, field-wise; anything impl-based needs a nominal type — declare a `struct` and implement `"@
            + aspect + "` there"@,
        _ => Seq::empty(),
    }
}

/// What is said where a type lacks an aspect that is asked for.
pub open spec fn unmet_text(t: TypeV, aspect: Seq<char>, owner: Seq<char>) -> Seq<char> {
    "`"@ + aspect_subject(t) + "` does not implement `"@ + aspect + "` (required by `"@ + owner
        + "`)"@ + aspect_hint(t, aspect)
}

/// What is said where a type has an aspect that is ruled out.
pub open spec fn excluded_text(t: TypeV, aspect: Seq<char>, owner: Seq<char>) -> Seq<char> {
    "`"@ + aspect_subject(t) + "` implements `"@ + aspect + "`; `!"@ + aspect
        + "` bound not satisfied (required by `"@ + owner + "`)"@
}

/// Whether a bound asks for an aspect that the type lacks.
pub open spec fn unmet(site: Site, t: TypeV, b: GenericBound) -> bool {
    match b {
        GenericBound::Aspect(aspect) => !satisfies(site.reg, site.extra, site.module, t, aspect@),
        GenericBound::Row(_) => false,
    }
}

/// Whether a negative bound rules out an aspect that the type has. A type that is copied has
/// nothing to drop, whatever it declares.
pub open spec fn excluded(site: Site, t: TypeV, b: GenericBound) -> bool {
    match b {
        GenericBound::Aspect(aspect) => satisfies(site.reg, site.extra, site.module, t, aspect@) && !(aspect@
            == "Drop"@ && satisfies(site.reg, site.extra, site.module, t, "Copy"@)),
        GenericBound::Row(_) => false,
    }
}

/// The aspect of a bound.
pub open spec fn aspect_name(b: GenericBound) -> Seq<char> {
    match b {
        GenericBound::Aspect(aspect) => aspect@,
        GenericBound::Row(_) => Seq::empty(),
    }
}

/// What is wrong with a type for a list of bounds.
pub open spec fn bounds_error(
    site: Site,
    t: TypeV,
    bounds: Seq<GenericBound>,
    record_kind: bool,
    owner: Seq<char>,
    generics: Seq<(Seq<char>, InferTypeV)>,
) -> Option<MetelErrorV> {
    match record_kind_error(site, t, bounds, record_kind, owner) {
        Some(e) => Some(e),
        None => match match t {
            TypeV::Record(fields) => rows_error(
                site,
                fields,
                bounds,
                generics,
                false,
                bounds.len() as int,
            ),
            _ => None,
        } {
            Some(e) => Some(e),
            None => if has_aspects(t) {
                match first_where(bounds, |b: GenericBound| unmet(site, t, b)) {
                    Some(b) => Some(
                        type_failure(
                            TypeErrorCode::T0012,
                            unmet_text(t, aspect_name(b), owner),
                            site.span,
                        ),
                    ),
                    None => None,
                }
            } else {
                None
            },
        },
    }
}

/// What is wrong with a type for a list of negative bounds.
pub open spec fn negative_bounds_error(
    site: Site,
    t: TypeV,
    bounds: Seq<GenericBound>,
    record_kind: bool,
    owner: Seq<char>,
    generics: Seq<(Seq<char>, InferTypeV)>,
) -> Option<MetelErrorV> {
    match record_kind_error(site, t, bounds, record_kind, owner) {
        Some(e) => Some(e),
        None => match match t {
            TypeV::Record(fields) => rows_error(
                site,
                fields,
                bounds,
                generics,
                true,
                bounds.len() as int,
            ),
            _ => None,
        } {
            Some(e) => Some(e),
            None => if has_aspects(t) {
                match first_where(bounds, |b: GenericBound| excluded(site, t, b)) {
                    Some(b) => Some(
                        type_failure(
                            TypeErrorCode::T0012,
                            excluded_text(t, aspect_name(b), owner),
                            site.span,
                        ),
                    ),
                    None => None,
                }
            } else {
                None
            },
        },
    }
}

/// Either of [`bounds_error`] and [`negative_bounds_error`]. Where nothing is asked, nothing is
/// wrong.
pub open spec fn asked_error(
    site: Site,
    t: TypeV,
    bounds: Seq<GenericBound>,
    record_kind: bool,
    owner: Seq<char>,
    generics: Seq<(Seq<char>, InferTypeV)>,
    negative: bool,
) -> Option<MetelErrorV> {
    if bounds.len() == 0 && !record_kind {
        None
    } else if negative {
        negative_bounds_error(site, t, bounds, record_kind, owner, generics)
    } else {
        bounds_error(site, t, bounds, record_kind, owner, generics)
    }
}

fn type_error(message: String, span: &Span) -> (r: Option<MetelError>)
    ensures
        opt_error(r) == Some(type_failure(TypeErrorCode::T0012, message@, span@)),
{
    Some(MetelError::type_error(TypeErrorCode::T0012, message, span))
}

fn describe_row(row: &RowConstraint) -> (r: String)
    ensures
        r@ == row_text(*row),
{
    let mut names: Vec<String> = Vec::new();
    let mut i: usize = 0;
    while i < row.fields.len()
        invariant
            i <= row.fields@.len(),
            names@.len() == i,
            forall|k: int| 0 <= k < i ==> (#[trigger] names@[k])@ == row.fields@[k].label@,
        decreases row.fields@.len() - i,
    {
        names.push(row.fields[i].label.clone());
        i += 1;
    }
    assert(texts(names@) =~= row_labels(*row));
    joined3(
        "{ ",
        join_texts(&names, ", ").as_str(),
        if row.open {
            ", .. }"
        } else {
            " }"
        },
    )
}

fn describe_labels(fields: &Vec<(String, Type)>) -> (r: String)
    ensures
        r@ == join_spec(labels(named_types_view(fields@)), ", "@),
{
    let mut names: Vec<String> = Vec::new();
    let ghost views = named_types_view(fields@);
    assert(views.len() == fields@.len());
    let mut i: usize = 0;
    while i < fields.len()
        invariant
            i <= fields@.len(),
            names@.len() == i,
            views == named_types_view(fields@),
            views.len() == fields@.len(),
            forall|k: int| 0 <= k < i ==> (#[trigger] names@[k])@ == views[k].0,
        decreases fields@.len() - i,
    {
        assert(views[i as int].0 == fields@[i as int].0@);
        names.push(fields[i].0.clone());
        i += 1;
    }
    assert(texts(names@) =~= labels(views));
    join_texts(&names, ", ")
}

/// The field of a record under a label.
pub fn find_label<'a>(fields: &'a Vec<(String, Type)>, label: &str) -> (r: Option<&'a Type>)
    ensures
        match r {
            Some(t) => labelled(named_types_view(fields@), label@) matches Some(f) && f.1 == t@,
            None => labelled(named_types_view(fields@), label@) is None,
        },
{
    let ghost views = named_types_view(fields@);
    let ghost p = |f: (Seq<char>, TypeV)| f.0 == label@;
    assert(views.len() == fields@.len());
    assert(views.skip(0) =~= views);
    let mut i: usize = 0;
    while i < fields.len()
        invariant
            i <= fields@.len(),
            views == named_types_view(fields@),
            views.len() == fields@.len(),
            p == (|f: (Seq<char>, TypeV)| f.0 == label@),
            first_where(views, p) == first_where(views.skip(i as int), p),
        decreases fields@.len() - i,
    {
        proof {
            lemma_first_where_skip(views, p, i as int);
            assert(views[i as int] == (fields@[i as int].0@, type_view(fields@[i as int].1)));
        }
        if same_text(fields[i].0.as_str(), label) {
            return Some(&fields[i].1);
        }
        i += 1;
    }
    None
}

fn resolve_row_field_type(
    te: &crate::ast::TypeExpr,
    generics: &Vec<(String, InferType)>,
    span: &Span,
) -> (r: Result<Type, MetelError>)
    ensures
        match row_field_type(te@, named_infer_types_view(generics@), span@) {
            Ok(t) => r matches Ok(x) && x@ == t,
            Err(e) => r matches Err(x) && x@ == e,
        },
{
    let scope = TypeScope { generics, self_name: None, aspect: None };
    let inferred: InferType = type_expr_to_infer(te, &scope);
    infer_type_to_type(&inferred, span)
}

fn check_required(
    registry: &TypeDefinitionRegistry,
    extra: &Vec<AspectImpl>,
    module: &Vec<String>,
    span: &Span,
    fields: &Vec<(String, Type)>,
    row: &RowConstraint,
    required: &RowField,
    generics: &Vec<(String, InferType)>,
) -> (r: Option<MetelError>)
    ensures
        opt_error(r) == required_error(
            Site { reg: *registry, extra: extra@, module: texts(module@), span: span@ },
            named_types_view(fields@),
            *row,
            *required,
            named_infer_types_view(generics@),
        ),
{
    match find_label(fields, required.label.as_str()) {
        None => {
            let mut message: String = joined5(
                "row bound `",
                describe_row(row).as_str(),
                "` requires label `",
                required.label.as_str(),
                "`, but the record has: ",
            );
            message.append(describe_labels(fields).as_str());
            type_error(message, span)
        },
        Some(actual) => match &required.ty {
            None => None,
            Some(te) => match resolve_row_field_type(te, generics, span) {
                Err(e) => Some(e),
                Ok(expected) => {
                    if actual.same(&expected) {
                        return None;
                    }
                    let mut message: String = joined7(
                        "row bound `",
                        describe_row(row).as_str(),
                        "` requires label `",
                        required.label.as_str(),
                        "` to have type `",
                        expected.describe().as_str(),
                        "`, but it is `",
                    );
                    message.append(actual.describe().as_str());
                    message.append("`");
                    type_error(message, span)
                },
            },
        },
    }
}

fn check_positive_row_bound(
    registry: &TypeDefinitionRegistry,
    extra: &Vec<AspectImpl>,
    module: &Vec<String>,
    span: &Span,
    fields: &Vec<(String, Type)>,
    row: &RowConstraint,
    generics: &Vec<(String, InferType)>,
) -> (r: Option<MetelError>)
    ensures
        opt_error(r) == row_error(
            Site { reg: *registry, extra: extra@, module: texts(module@), span: span@ },
            named_types_view(fields@),
            *row,
            named_infer_types_view(generics@),
        ),
{
    assert(named_types_view(fields@).len() == fields@.len());
    if !row.open && fields.len() != row.fields.len() {
        let mut message: String = joined3(
            "row bound `",
            describe_row(row).as_str(),
            "` requires exactly these labels, but the record has: ",
        );
        message.append(describe_labels(fields).as_str());
        return type_error(message, span);
    }
    let ghost site = Site { reg: *registry, extra: extra@, module: texts(module@), span: span@ };
    let mut failed: Option<MetelError> = None;
    let mut i: usize = 0;
    while i < row.fields.len()
        invariant
            i <= row.fields@.len(),
            site == (Site { reg: *registry, extra: extra@, module: texts(module@), span: span@ }),
            opt_error(failed) == requirements_error(
                site,
                named_types_view(fields@),
                *row,
                named_infer_types_view(generics@),
                i as int,
            ),
        decreases row.fields@.len() - i,
    {
        if failed.is_none() {
            failed = check_required(registry, extra, module, span, fields, row, &row.fields[i], generics);
        }
        i += 1;
    }
    failed
}

fn check_forbidden(
    registry: &TypeDefinitionRegistry,
    extra: &Vec<AspectImpl>,
    module: &Vec<String>,
    span: &Span,
    fields: &Vec<(String, Type)>,
    row: &RowConstraint,
    forbidden: &RowField,
    generics: &Vec<(String, InferType)>,
) -> (r: Option<MetelError>)
    ensures
        opt_error(r) == forbidden_error(
            Site { reg: *registry, extra: extra@, module: texts(module@), span: span@ },
            named_types_view(fields@),
            *row,
            *forbidden,
            named_infer_types_view(generics@),
        ),
{
    match find_label(fields, forbidden.label.as_str()) {
        None => None,
        Some(actual) => {
            let matches: bool = match &forbidden.ty {
                None => true,
                Some(te) => match resolve_row_field_type(te, generics, span) {
                    Err(e) => {
                        return Some(e);
                    },
                    Ok(expected) => actual.same(&expected),
                },
            };
            if !matches {
                return None;
            }
            type_error(
                joined5(
                    "negative row bound `!",
                    describe_row(row).as_str(),
                    "` is not satisfied because the record has label `",
                    forbidden.label.as_str(),
                    "`",
                ),
                span,
            )
        },
    }
}

fn check_negative_row_bound(
    registry: &TypeDefinitionRegistry,
    extra: &Vec<AspectImpl>,
    module: &Vec<String>,
    span: &Span,
    fields: &Vec<(String, Type)>,
    row: &RowConstraint,
    generics: &Vec<(String, InferType)>,
) -> (r: Option<MetelError>)
    ensures
        opt_error(r) == negative_row_error(
            Site { reg: *registry, extra: extra@, module: texts(module@), span: span@ },
            named_types_view(fields@),
            *row,
            named_infer_types_view(generics@),
            row.fields@.len() as int,
        ),
{
    let ghost site = Site { reg: *registry, extra: extra@, module: texts(module@), span: span@ };
    let mut failed: Option<MetelError> = None;
    let mut i: usize = 0;
    while i < row.fields.len()
        invariant
            i <= row.fields@.len(),
            site == (Site { reg: *registry, extra: extra@, module: texts(module@), span: span@ }),
            opt_error(failed) == negative_row_error(
                site,
                named_types_view(fields@),
                *row,
                named_infer_types_view(generics@),
                i as int,
            ),
        decreases row.fields@.len() - i,
    {
        if failed.is_none() {
            failed = check_forbidden(registry, extra, module, span, fields, row, &row.fields[i], generics);
        }
        i += 1;
    }
    failed
}

fn check_rows(
    registry: &TypeDefinitionRegistry,
    extra: &Vec<AspectImpl>,
    module: &Vec<String>,
    span: &Span,
    fields: &Vec<(String, Type)>,
    bounds: &Vec<GenericBound>,
    generics: &Vec<(String, InferType)>,
    negative: bool,
) -> (r: Option<MetelError>)
    ensures
        opt_error(r) == rows_error(
            Site { reg: *registry, extra: extra@, module: texts(module@), span: span@ },
            named_types_view(fields@),
            bounds@,
            named_infer_types_view(generics@),
            negative,
            bounds@.len() as int,
        ),
{
    let ghost site = Site { reg: *registry, extra: extra@, module: texts(module@), span: span@ };
    let mut failed: Option<MetelError> = None;
    let mut i: usize = 0;
    while i < bounds.len()
        invariant
            i <= bounds@.len(),
            site == (Site { reg: *registry, extra: extra@, module: texts(module@), span: span@ }),
            opt_error(failed) == rows_error(
                site,
                named_types_view(fields@),
                bounds@,
                named_infer_types_view(generics@),
                negative,
                i as int,
            ),
        decreases bounds@.len() - i,
    {
        if failed.is_none() {
            if let GenericBound::Row(row) = &bounds[i] {
                failed = if negative {
                    check_negative_row_bound(registry, extra, module, span, fields, row, generics)
                } else {
                    check_positive_row_bound(registry, extra, module, span, fields, row, generics)
                };
            }
        }
        i += 1;
    }
    failed
}

fn any_row(bounds: &Vec<GenericBound>) -> (r: bool)
    ensures
        r == has_row(bounds@),
{
    let mut i: usize = 0;
    while i < bounds.len()
        invariant
            i <= bounds@.len(),
            forall|k: int| 0 <= k < i ==> !((#[trigger] bounds@[k]) is Row),
        decreases bounds@.len() - i,
    {
        if let GenericBound::Row(_) = &bounds[i] {
            return true;
        }
        i += 1;
    }
    false
}

fn check_record_kind_requirement(
    registry: &TypeDefinitionRegistry,
    extra: &Vec<AspectImpl>,
    module: &Vec<String>,
    span: &Span,
    concrete: &Type,
    bounds: &Vec<GenericBound>,
    record_kind: bool,
    owner: &str,
) -> (r: Option<MetelError>)
    ensures
        opt_error(r) == record_kind_error(
            Site { reg: *registry, extra: extra@, module: texts(module@), span: span@ },
            concrete@,
            bounds@,
            record_kind,
            owner@,
        ),
{
    if any_row(bounds) && !record_kind {
        return type_error(
            joined3(
                "row bound requires a record-kinded type parameter in `",
                owner,
                "`; add `record` before the type parameter",
            ),
            span,
        );
    }
    if !record_kind {
        return None;
    }
    match concrete {
        Type::Record(_) => None,
        Type::Named(name, _) => {
            let message: String = if registry.is_struct_name(module, name.as_str()) {
                joined3(
                    "`",
                    name.as_str(),
                    "` is a struct, but a struct never satisfies a row bound; conversion to a record is not available in this release",
                )
            } else {
                joined3(
                    "`",
                    name.as_str(),
                    "` is not a record, and only records satisfy a `record` type parameter",
                )
            };
            type_error(message, span)
        },
        other => type_error(
            joined3(
                "`",
                other.describe().as_str(),
                "` is not a record, and only records satisfy a `record` type parameter",
            ),
            span,
        ),
    }
}

fn subject(t: &Type) -> (r: Option<String>)
    ensures
        r is Some == has_aspects(t@),
        r matches Some(s) ==> s@ == aspect_subject(t@),
{
    match t {
        Type::Named(name, _) => Some(name.clone()),
        Type::Array(_) => Some(t.describe()),
        Type::SizedArray(_, _) => Some(t.describe()),
        Type::Tuple(_) => Some(t.describe()),
        Type::Reference(_) => Some(t.describe()),
        Type::MutReference(_) => Some(t.describe()),
        Type::Fun(_, _) => Some(t.describe()),
        Type::Record(_) => Some(t.describe()),
        other => primitive_type_name(other),
    }
}

fn hint(t: &Type, aspect: &str) -> (r: String)
    ensures
        r@ == aspect_hint(t@, aspect@),
{
    match t {
        Type::Array(item) => joined5(
            "\n       hint: arrays implement `",
            aspect,
            "` only when their element type `",
            item.describe().as_str(),
            "` does",
        ),
        Type::SizedArray(item, _) => if same_text(aspect, "Copy") {
            joined5(
                "\n       hint: fixed-size arrays implement `",
                aspect,
                "` only when their element type `",
                item.describe().as_str(),
                "` does",
            )
        } else {
            String::new()
        },
        Type::Tuple(_) => if same_text(aspect, "Copy") {
            joined3("\n       hint: tuples implement `", aspect, "` only when every element does")
        } else {
            "\n       hint: tuple impls are not yet provided; use a named struct instead".to_owned()
        },
        Type::Record(_) => joined3(
            "\n       hint: an anonymous record satisfies only the auto-derived aspects, field-wise; anything impl-based needs a nominal type — declare a `struct` and implement `",
            aspect,
            "` there",
        ),
        _ => String::new(),
    }
}

/// Check one concrete type against a list of bounds. Aspect bounds are checked against the
/// impls; row bounds are handled structurally.
pub fn check_type_satisfies_bounds(
    registry: &TypeDefinitionRegistry,
    extra: &Vec<AspectImpl>,
    module: &Vec<String>,
    span: &Span,
    concrete: &Type,
    bounds: &Vec<GenericBound>,
    record_kind: bool,
    owner: &str,
    generics: &Vec<(String, InferType)>,
) -> (r: Option<MetelError>)
    ensures
        opt_error(r) == bounds_error(
            Site { reg: *registry, extra: extra@, module: texts(module@), span: span@ },
            concrete@,
            bounds@,
            record_kind,
            owner@,
            named_infer_types_view(generics@),
        ),
{
    let ghost site = Site { reg: *registry, extra: extra@, module: texts(module@), span: span@ };
    let kind_error: Option<MetelError> = check_record_kind_requirement(
        registry,
        extra,
        module,
        span,
        concrete,
        bounds,
        record_kind,
        owner,
    );
    if kind_error.is_some() {
        return kind_error;
    }
    if let Type::Record(fields) = concrete {
        let rows: Option<MetelError> = check_rows(
            registry,
            extra,
            module,
            span,
            fields,
            bounds,
            generics,
            false,
        );
        if rows.is_some() {
            return rows;
        }
    }
    let name: String = match subject(concrete) {
        Some(name) => name,
        None => {
            return None;
        },
    };
    let ghost t = concrete@;
    let ghost p = |b: GenericBound| unmet(site, t, b);
    assert(bounds@.skip(0) =~= bounds@);
    let mut i: usize = 0;
    while i < bounds.len()
        invariant
            i <= bounds@.len(),
            t == concrete@,
            site == (Site { reg: *registry, extra: extra@, module: texts(module@), span: span@ }),
            p == (|b: GenericBound| unmet(site, t, b)),
            first_where(bounds@, p) == first_where(bounds@.skip(i as int), p),
            has_aspects(t),
            name@ == aspect_subject(t),
            record_kind_error(site, t, bounds@, record_kind, owner@) is None,
            t matches TypeV::Record(fields) ==> rows_error(
                site,
                fields,
                bounds@,
                named_infer_types_view(generics@),
                false,
                bounds@.len() as int,
            ) is None,
        decreases bounds@.len() - i,
    {
        proof {
            lemma_first_where_skip(bounds@, p, i as int);
        }
        if let GenericBound::Aspect(aspect) = &bounds[i] {
            if !registry.type_satisfies_aspect_with(extra, module, concrete, aspect.as_str()) {
                let mut message: String = joined7(
                    "`",
                    name.as_str(),
                    "` does not implement `",
                    aspect.as_str(),
                    "` (required by `",
                    owner,
                    "`)",
                );
                message.append(hint(concrete, aspect.as_str()).as_str());
                return type_error(message, span);
            }
        }
        i += 1;
    }
    None
}

/// Check that a concrete type does not satisfy any of a list of negative bounds.
pub fn check_type_does_not_satisfy_bound(
    registry: &TypeDefinitionRegistry,
    extra: &Vec<AspectImpl>,
    module: &Vec<String>,
    span: &Span,
    concrete: &Type,
    bounds: &Vec<GenericBound>,
    record_kind: bool,
    owner: &str,
    generics: &Vec<(String, InferType)>,
) -> (r: Option<MetelError>)
    ensures
        opt_error(r) == negative_bounds_error(
            Site { reg: *registry, extra: extra@, module: texts(module@), span: span@ },
            concrete@,
            bounds@,
            record_kind,
            owner@,
            named_infer_types_view(generics@),
        ),
{
    let ghost site = Site { reg: *registry, extra: extra@, module: texts(module@), span: span@ };
    let kind_error: Option<MetelError> = check_record_kind_requirement(
        registry,
        extra,
        module,
        span,
        concrete,
        bounds,
        record_kind,
        owner,
    );
    if kind_error.is_some() {
        return kind_error;
    }
    if let Type::Record(fields) = concrete {
        let rows: Option<MetelError> = check_rows(
            registry,
            extra,
            module,
            span,
            fields,
            bounds,
            generics,
            true,
        );
        if rows.is_some() {
            return rows;
        }
    }
    let name: String = match subject(concrete) {
        Some(name) => name,
        None => {
            return None;
        },
    };
    let ghost t = concrete@;
    let ghost p = |b: GenericBound| excluded(site, t, b);
    assert(bounds@.skip(0) =~= bounds@);
    let mut i: usize = 0;
    while i < bounds.len()
        invariant
            i <= bounds@.len(),
            t == concrete@,
            site == (Site { reg: *registry, extra: extra@, module: texts(module@), span: span@ }),
            p == (|b: GenericBound| excluded(site, t, b)),
            first_where(bounds@, p) == first_where(bounds@.skip(i as int), p),
            has_aspects(t),
            name@ == aspect_subject(t),
            record_kind_error(site, t, bounds@, record_kind, owner@) is None,
            t matches TypeV::Record(fields) ==> rows_error(
                site,
                fields,
                bounds@,
                named_infer_types_view(generics@),
                true,
                bounds@.len() as int,
            ) is None,
        decreases bounds@.len() - i,
    {
        proof {
            lemma_first_where_skip(bounds@, p, i as int);
        }
        if let GenericBound::Aspect(aspect) = &bounds[i] {
            if registry.type_satisfies_aspect_with(extra, module, concrete, aspect.as_str()) {
                let copied_drop: bool = same_text(aspect.as_str(), "Drop")
                    && registry.type_satisfies_aspect_with(extra, module, concrete, "Copy");
                if !copied_drop {
                    let mut message: String = joined7(
                        "`",
                        name.as_str(),
                        "` implements `",
                        aspect.as_str(),
                        "`; `!",
                        aspect.as_str(),
                        "` bound not satisfied (required by `",
                    );
                    message.append(owner);
                    message.append("`)");
                    return type_error(message, span);
                }
            }
        }
        i += 1;
    }
    None
}

/// Check one concrete type against a list of bounds, positive or negative.
pub fn check_asked(
    registry: &TypeDefinitionRegistry,
    extra: &Vec<AspectImpl>,
    module: &Vec<String>,
    span: &Span,
    concrete: &Type,
    bounds: &Vec<GenericBound>,
    record_kind: bool,
    owner: &str,
    generics: &Vec<(String, InferType)>,
    negative: bool,
) -> (r: Option<MetelError>)
    ensures
        opt_error(r) == asked_error(
            Site { reg: *registry, extra: extra@, module: texts(module@), span: span@ },
            concrete@,
            bounds@,
            record_kind,
            owner@,
            named_infer_types_view(generics@),
            negative,
        ),
{
    if bounds.len() == 0 && !record_kind {
        return None;
    }
    if negative {
        check_type_does_not_satisfy_bound(
            registry,
            extra,
            module,
            span,
            concrete,
            bounds,
            record_kind,
            owner,
            generics,
        )
    } else {
        check_type_satisfies_bounds(
            registry,
            extra,
            module,
            span,
            concrete,
            bounds,
            record_kind,
            owner,
            generics,
        )
    }
}

} // verus!
