//! Patterns as mathematical objects, and what they cover.
use vstd::prelude::*;
use crate::ast::{literal_view, Literal, LiteralV, Pattern};
use crate::span::SpanV;
use crate::text::{copy_opt_text, copy_texts, opt_text, same_text, texts};

verus! {

/// The value of a [`Pattern`] as a mathematical object.
#[allow(inconsistent_fields)]
pub ghost enum PatternV {
    Wildcard(SpanV),
    Literal(LiteralV, SpanV),
    Binding(Seq<char>, SpanV),
    Tuple(Seq<PatternV>, SpanV),
    EnumVariant { path: Seq<Seq<char>>, fields: Seq<Seq<char>>, rest: bool, span: SpanV },
    Struct { name: Seq<char>, fields: Seq<Seq<char>>, rest: bool, span: SpanV },
    Record { fields: Seq<Seq<char>>, span: SpanV },
    Array { elems: Seq<PatternV>, rest: Option<Seq<char>>, span: SpanV },
}

/// The view of a [`Pattern`].
pub open spec fn pattern_view(p: Pattern) -> PatternV
    decreases p,
{
    match p {
        Pattern::Wildcard(span) => PatternV::Wildcard(span@),
        Pattern::Literal(lit, span) => PatternV::Literal(literal_view(lit), span@),
        Pattern::Binding(name, span) => PatternV::Binding(name@, span@),
        Pattern::Tuple(items, span) => PatternV::Tuple(patterns_view(items@), span@),
        Pattern::EnumVariant { path, fields, rest, span } => PatternV::EnumVariant {
            path: texts(path@),
            fields: texts(fields@),
            rest,
            span: span@,
        },
        Pattern::Struct { name, fields, rest, span } => PatternV::Struct {
            name: name@,
            fields: texts(fields@),
            rest,
            span: span@,
        },
        Pattern::Record { fields, span } => PatternV::Record { fields: texts(fields@), span: span@ },
        Pattern::Array { elems, rest, span } => PatternV::Array {
            elems: patterns_view(elems@),
            rest: opt_text(rest),
            span: span@,
        },
    }
}

/// The views of patterns.
pub open spec fn patterns_view(s: Seq<Pattern>) -> Seq<PatternV>
    decreases s,
{
    Seq::new(s.len(), |i: int| if 0 <= i < s.len() { pattern_view(s[i]) } else { arbitrary() })
}

/// A copy of a pattern.
pub fn copy_pattern(p: &Pattern) -> (r: Pattern)
    ensures
        pattern_view(r) == pattern_view(*p),
    decreases *p,
{
    match p {
        Pattern::Wildcard(span) => Pattern::Wildcard(span.copy()),
        Pattern::Literal(lit, span) => Pattern::Literal(lit.copy(), span.copy()),
        Pattern::Binding(name, span) => Pattern::Binding(name.clone(), span.copy()),
        Pattern::Tuple(items, span) => Pattern::Tuple(copy_patterns(items), span.copy()),
        Pattern::EnumVariant { path, fields, rest, span } => Pattern::EnumVariant {
            path: copy_texts(path),
            fields: copy_texts(fields),
            rest: *rest,
            span: span.copy(),
        },
        Pattern::Struct { name, fields, rest, span } => Pattern::Struct {
            name: name.clone(),
            fields: copy_texts(fields),
            rest: *rest,
            span: span.copy(),
        },
        Pattern::Record { fields, span } => Pattern::Record {
            fields: copy_texts(fields),
            span: span.copy(),
        },
        Pattern::Array { elems, rest, span } => Pattern::Array {
            elems: copy_patterns(elems),
            rest: copy_opt_text(rest),
            span: span.copy(),
        },
    }
}

fn copy_patterns(v: &Vec<Pattern>) -> (r: Vec<Pattern>)
    ensures
        patterns_view(r@) == patterns_view(v@),
    decreases v@,
{
    let mut out: Vec<Pattern> = Vec::new();
    let mut i: usize = 0;
    while i < v.len()
        invariant
            i <= v@.len(),
            out@.len() == i,
            forall|k: int| 0 <= k < i ==> pattern_view(#[trigger] out@[k]) == pattern_view(v@[k]),
        decreases v@.len() - i,
    {
        out.push(copy_pattern(&v[i]));
        i += 1;
    }
    assert(patterns_view(out@) =~= patterns_view(v@));
    out
}

/// Whether a pattern matches every value of its type.
pub open spec fn catches_all(p: PatternV) -> bool
    decreases p,
{
    match p {
        PatternV::Wildcard(_) => true,
        PatternV::Binding(_, _) => true,
        PatternV::Record { .. } => true,
        PatternV::Struct { .. } => true,
        PatternV::Tuple(items, _) => all_catch_all(items),
        PatternV::Array { elems, rest, .. } => rest is Some && all_catch_all(elems),
        _ => false,
    }
}

/// Whether every pattern of a sequence matches every value of its type.
pub open spec fn all_catch_all(s: Seq<PatternV>) -> bool
    decreases s,
{
    forall|i: int| 0 <= i < s.len() ==> catches_all(#[trigger] s[i])
}

/// Whether a pattern matches every value of its type.
pub fn is_catch_all_pattern(p: &Pattern) -> (r: bool)
    ensures
        r == catches_all(pattern_view(*p)),
    decreases *p,
{
    match p {
        Pattern::Wildcard(_) => true,
        Pattern::Binding(_, _) => true,
        Pattern::Record { .. } => true,
        Pattern::Struct { .. } => true,
        Pattern::Tuple(items, _) => are_catch_all(items),
        Pattern::Array { elems, rest, .. } => rest.is_some() && are_catch_all(elems),
        _ => false,
    }
}

/// Whether every pattern of a list matches every value of its type.
pub fn are_catch_all(v: &Vec<Pattern>) -> (r: bool)
    ensures
        r == all_catch_all(patterns_view(v@)),
    decreases v@,
{
    let ghost s = patterns_view(v@);
    assert(s.len() == v@.len());
    let mut i: usize = 0;
    while i < v.len()
        invariant
            i <= v@.len(),
            s == patterns_view(v@),
            s.len() == v@.len(),
            forall|k: int| 0 <= k < i ==> catches_all(#[trigger] s[k]),
        decreases v@.len() - i,
    {
        assert(s[i as int] == pattern_view(v@[i as int]));
        if !is_catch_all_pattern(&v[i]) {
            return false;
        }
        i += 1;
    }
    true
}

/// Whether a pattern is the literal for a truth value.
pub open spec fn is_truth(p: PatternV, value: bool) -> bool {
    p matches PatternV::Literal(lit, _) && lit == LiteralV::Boolean(value)
}

/// Whether a pattern is the literal for a truth value.
pub fn is_bool_literal_pattern(p: &Pattern, expected: bool) -> (r: bool)
    ensures
        r == is_truth(pattern_view(*p), expected),
{
    match p {
        Pattern::Literal(Literal::Boolean(b), _) => *b == expected,
        _ => false,
    }
}

/// Whether a pattern matches every value of a variant, written with its enum.
pub open spec fn covers(p: PatternV, enum_name: Seq<char>, variant: Seq<char>) -> bool {
    p matches PatternV::EnumVariant { path, .. } && path.len() >= 2 && path[0] == enum_name
        && path[1] == variant
}

/// Whether a pattern matches every value of a variant.
pub fn pattern_covers_variant(p: &Pattern, enum_name: &str, variant: &str) -> (r: bool)
    ensures
        r == covers(pattern_view(*p), enum_name@, variant@),
{
    match p {
        Pattern::EnumVariant { path, .. } => {
            assert(texts(path@).len() == path@.len());
            path.len() >= 2 && same_text(path[0].as_str(), enum_name) && same_text(
                path[1].as_str(),
                variant,
            )
        },
        _ => false,
    }
}

/// The variants of an enum: their names, and whether each has no fields.
pub open spec fn fieldless(s: Seq<(Seq<char>, bool)>, name: Seq<char>) -> bool {
    exists|i: int| 0 <= i < s.len() && (#[trigger] s[i]).0 == name && s[i].1
}

/// Whether a variant is listed.
pub open spec fn listed(s: Seq<(Seq<char>, bool)>, name: Seq<char>) -> bool {
    exists|i: int| 0 <= i < s.len() && (#[trigger] s[i]).0 == name
}

/// A pattern with a variant that is written without its enum given the enum of the scrutinee.
pub open spec fn qualified(p: PatternV, enum_name: Seq<char>, s: Seq<(Seq<char>, bool)>) -> PatternV {
    match p {
        PatternV::Binding(name, span) => if fieldless(s, name) {
            PatternV::EnumVariant {
                path: seq![enum_name, name],
                fields: Seq::empty(),
                rest: false,
                span,
            }
        } else {
            p
        },
        PatternV::EnumVariant { path, fields, rest, span } => if path.len() == 1 && listed(
            s,
            path[0],
        ) {
            PatternV::EnumVariant { path: seq![enum_name, path[0]], fields, rest, span }
        } else {
            p
        },
        _ => p,
    }
}

/// The variants of an enum.
pub open spec fn variants_view(v: Seq<(String, bool)>) -> Seq<(Seq<char>, bool)> {
    Seq::new(v.len(), |i: int| (v[i].0@, v[i].1))
}

fn find_listed(v: &Vec<(String, bool)>, name: &str, only_fieldless: bool) -> (r: bool)
    ensures
        r == if only_fieldless {
            fieldless(variants_view(v@), name@)
        } else {
            listed(variants_view(v@), name@)
        },
{
    let ghost s = variants_view(v@);
    let mut i: usize = 0;
    while i < v.len()
        invariant
            i <= v@.len(),
            s == variants_view(v@),
            forall|k: int|
                0 <= k < i ==> !((#[trigger] s[k]).0 == name@ && (s[k].1 || !only_fieldless)),
        decreases v@.len() - i,
    {
        assert(s[i as int] == (v@[i as int].0@, v@[i as int].1));
        if same_text(v[i].0.as_str(), name) && (v[i].1 || !only_fieldless) {
            return true;
        }
        i += 1;
    }
    false
}

fn two(a: &str, b: &str) -> (r: Vec<String>)
    ensures
        texts(r@) == seq![a@, b@],
{
    let mut out: Vec<String> = Vec::new();
    out.push(a.to_owned());
    out.push(b.to_owned());
    assert(texts(out@) =~= seq![a@, b@]);
    out
}

/// Rewrite a bare variant pattern into its qualified form where it resolves against the enum of
/// the scrutinee. A bare variant without fields is written as a binding, one with fields as a
/// path of one segment. Anything else is returned unchanged, a binding that names no variant
/// too. Only the outermost pattern is rewritten.
pub fn resolve_bare_variant(p: &Pattern, enum_name: &str, variants: &Vec<(String, bool)>) -> (r:
    Pattern)
    ensures
        pattern_view(r) == qualified(pattern_view(*p), enum_name@, variants_view(variants@)),
{
    match p {
        Pattern::Binding(name, span) => if find_listed(variants, name.as_str(), true) {
            let fields: Vec<String> = Vec::new();
            assert(texts(fields@) =~= Seq::empty());
            Pattern::EnumVariant {
                path: two(enum_name, name.as_str()),
                fields,
                rest: false,
                span: span.copy(),
            }
        } else {
            copy_pattern(p)
        },
        Pattern::EnumVariant { path, fields, rest, span } => {
            assert(texts(path@).len() == path@.len());
            if path.len() == 1 && find_listed(variants, path[0].as_str(), false) {
                Pattern::EnumVariant {
                    path: two(enum_name, path[0].as_str()),
                    fields: copy_texts(fields),
                    rest: *rest,
                    span: span.copy(),
                }
            } else {
                copy_pattern(p)
            }
        },
        _ => copy_pattern(p),
    }
}

/// A pattern with a path of one segment that names the struct of the scrutinee as a struct
/// pattern.
pub open spec fn as_struct_pattern(p: PatternV, struct_name: Seq<char>) -> PatternV {
    match p {
        PatternV::EnumVariant { path, fields, rest, span } => if path.len() == 1 && path[0]
            == struct_name {
            PatternV::Struct { name: struct_name, fields, rest, span }
        } else {
            p
        },
        _ => p,
    }
}

/// Rewrite a pattern with a path of one segment into a struct pattern where it names the struct
/// of the scrutinee.
pub fn resolve_struct_pattern(p: &Pattern, struct_name: &str) -> (r: Pattern)
    ensures
        pattern_view(r) == as_struct_pattern(pattern_view(*p), struct_name@),
{
    match p {
        Pattern::EnumVariant { path, fields, rest, span } => {
            assert(texts(path@).len() == path@.len());
            if path.len() == 1 && same_text(path[0].as_str(), struct_name) {
                Pattern::Struct {
                    name: struct_name.to_owned(),
                    fields: copy_texts(fields),
                    rest: *rest,
                    span: span.copy(),
                }
            } else {
                copy_pattern(p)
            }
        },
        _ => copy_pattern(p),
    }
}

} // verus!
