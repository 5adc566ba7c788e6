use metel::ast::GenericParam;
use metel::coherence::{provably_disjoint, ScopedBounds};
use metel::infer::{infer_to_type, type_to_infer, InferType, TypeVar};
use metel::move_check::generics::substitute_named_generics;
use metel::move_check::report::is_embedded_std_span;
use metel::move_check::samples::{generic_placeholder_name, scheme_with_source_generics};
use metel::native_keys::NativeKey;
use metel::place::{Place, Projection};
use metel::scheme::TypeScheme;
use metel::span::Span;
use metel::stdlib::embedded_file_name;
use metel::types::Type;

fn bounds(positive: &[&str], negative: &[&str]) -> ScopedBounds {
    let names = |s: &[&str]| vec![s.iter().map(|n| n.to_string()).collect()];
    ScopedBounds { positive: names(positive), negative: names(negative) }
}

#[test]
fn lowering_undoes_lifting() {
    let t = Type::Fun(
        vec![
            Type::Record(vec![("a".to_string(), Type::I64)]),
            Type::MutReference(Box::new(Type::Named("Box".to_string(), vec![Type::Char]))),
        ],
        Box::new(Type::SizedArray(Box::new(Type::Boolean), 3)),
    );
    assert_eq!(infer_to_type(&type_to_infer(&t)), Some(t));
}

#[test]
fn renaming_nothing_changes_nothing() {
    let t = InferType::Tuple(vec![InferType::Named("T".to_string(), vec![])]);
    assert_eq!(substitute_named_generics(&t, &vec![]), t);
    let renamed = substitute_named_generics(&t, &vec![("T".to_string(), InferType::Never)]);
    assert_eq!(renamed, InferType::Tuple(vec![InferType::Never]));
}

#[test]
fn an_aspect_and_its_denial_exclude_each_other() {
    let shown = bounds(&["Show"], &[]);
    let hidden = bounds(&[], &["Show"]);
    assert!(provably_disjoint(&shown, &hidden));
    assert!(provably_disjoint(&hidden, &shown));
    assert!(!provably_disjoint(&shown, &bounds(&["Hash"], &[])));
    assert!(!provably_disjoint(&bounds(&[], &[]), &hidden));
}

#[test]
fn places_are_ordered_by_prefix() {
    let a = Place::new("x".to_string());
    let b = a.clone().with_projection(Projection::TupleIndex(0));
    let c = b.clone().with_projection(Projection::OpaqueIndex);
    assert!(a.is_prefix_of(&b) && b.is_prefix_of(&c) && a.is_prefix_of(&c));
    assert!(!c.is_prefix_of(&a));
    let sibling = a.clone().with_projection(Projection::TupleIndex(1));
    assert!(!b.is_prefix_of(&sibling) && !sibling.is_prefix_of(&b));
}

#[test]
fn native_keys_have_paths_of_their_own() {
    let all = NativeKey::all();
    for (i, a) in all.iter().enumerate() {
        for b in &all[i + 1..] {
            assert_ne!(a.surface_id(), b.surface_id());
        }
    }
}

#[test]
fn a_location_in_an_embedded_module_is_recognised() {
    let span = |filename: String| Span { start: 0, end: 0, filename, line: 1, col: 1 };
    let name = embedded_file_name(&vec!["std".to_string(), "list".to_string()]);
    assert!(is_embedded_std_span(&span(name)));
    assert!(!is_embedded_std_span(&span("main.mtl".to_string())));
}

#[test]
fn a_repaired_scheme_names_every_type_parameter() {
    let scheme = TypeScheme {
        quantified_vars: vec![TypeVar(7)],
        param_names: vec!["T".to_string()],
        bounds: vec![],
        neg_bounds: vec![],
        record_kinds: vec![],
        assoc_projections: vec![],
        assoc_eq_constraints: vec![],
        opaque_returns: vec![],
        ty: InferType::Fun(
            vec![InferType::Var(TypeVar(7)), InferType::Named("U".to_string(), vec![])],
            Box::new(InferType::Never),
        ),
    };
    let param = |name: &str| GenericParam {
        name: name.to_string(),
        bounds: vec![],
        is_record: false,
        span: Span { start: 0, end: 0, filename: String::new(), line: 1, col: 1 },
    };
    let r = scheme_with_source_generics(&scheme, &vec![param("T")], &vec![param("U")]);
    assert_eq!(r.param_names, vec!["T", "U"]);
    assert_eq!(r.quantified_vars, vec![TypeVar(7), TypeVar(4_000_000)]);
    assert_eq!((r.bounds.len(), r.neg_bounds.len(), r.record_kinds.len()), (2, 2, 2));
    assert_eq!(
        r.ty,
        InferType::Fun(
            vec![InferType::Var(TypeVar(7)), InferType::Var(TypeVar(4_000_000))],
            Box::new(InferType::Never)
        )
    );
    assert_eq!(generic_placeholder_name(TypeVar(7)), "__metel_move_check_generic_7");
}
