use metel::ast::{SymbolId, UnaryOp};
use metel::place::{from_expr, from_typed_place, Place, Projection};
use metel::span::Span;
use metel::typed_ast::{TypedExpr, TypedPlace};
use metel::types::Type;

#[test]
fn place_prefix_matches_exact_place() {
    let place = Place::new("x".to_string()).with_projection(Projection::Field("a".to_string()));
    assert!(place.is_prefix_of(&place));
}

#[test]
fn place_prefix_matches_descendant_place() {
    let left = Place::new("x".to_string()).with_projection(Projection::Field("a".to_string()));
    let right = left
        .clone()
        .with_projection(Projection::Field("b".to_string()));
    assert!(left.is_prefix_of(&right));
}

#[test]
fn place_prefix_rejects_sibling_place() {
    let left = Place::new("x".to_string()).with_projection(Projection::Field("a".to_string()));
    let right = Place::new("x".to_string()).with_projection(Projection::Field("b".to_string()));
    assert!(!left.is_prefix_of(&right));
}

#[test]
fn place_opaque_index_is_a_real_projection() {
    let left = Place::new("xs".to_string()).with_projection(Projection::OpaqueIndex);
    let right = left
        .clone()
        .with_projection(Projection::Field("len".to_string()));
    assert!(left.is_prefix_of(&right));
}

#[test]
fn deref_is_a_real_projection() {
    let left = Place::new("p".to_string()).with_projection(Projection::Deref);
    let right = left
        .clone()
        .with_projection(Projection::Field("name".to_string()));
    assert!(left.is_prefix_of(&right));
    assert_eq!(left.projections(), &[Projection::Deref]);
}

#[test]
fn deref_is_distinct_from_the_reference_itself() {
    let reference = Place::new("p".to_string());
    let pointee = reference.clone().with_projection(Projection::Deref);
    assert_ne!(reference, pointee);
    assert!(reference.is_prefix_of(&pointee));
    assert!(!pointee.is_prefix_of(&reference));
}

#[test]
fn prefix_matches_exact_place() {
    let place = Place::new("x".to_string()).with_projection(Projection::Field("a".to_string()));
    assert!(place.is_prefix_of(&place));
}

#[test]
fn prefix_matches_descendant_place() {
    let left = Place::new("x".to_string()).with_projection(Projection::Field("a".to_string()));
    let right = left
        .clone()
        .with_projection(Projection::Field("b".to_string()));
    assert!(left.is_prefix_of(&right));
}

#[test]
fn prefix_rejects_sibling_place() {
    let left = Place::new("x".to_string()).with_projection(Projection::Field("a".to_string()));
    let right = Place::new("x".to_string()).with_projection(Projection::Field("b".to_string()));
    assert!(!left.is_prefix_of(&right));
}

#[test]
fn opaque_index_is_a_real_projection() {
    let left = Place::new("xs".to_string()).with_projection(Projection::OpaqueIndex);
    let right = left
        .clone()
        .with_projection(Projection::Field("len".to_string()));
    assert!(left.is_prefix_of(&right));
}

fn span() -> Span {
    Span { start: 0, end: 0, filename: "main.mtl".to_string(), line: 1, col: 1 }
}

#[test]
fn an_access_path_names_a_place() {
    let p = TypedExpr::Ident("p".to_string(), Type::Unit, span());
    let deref = TypedExpr::UnaryOp(UnaryOp::Deref, Box::new(p), Type::Unit, span());
    let field = TypedExpr::FieldAccess {
        object: Box::new(deref),
        field: "pair".to_string(),
        ty: Type::Unit,
        span: span(),
    };
    let element = TypedExpr::TupleAccess {
        object: Box::new(field),
        index: 1,
        ty: Type::Unit,
        span: span(),
    };
    let place = from_expr(&element).unwrap();
    assert_eq!(place.root(), "p");
    assert_eq!(
        place.projections(),
        &[
            Projection::Deref,
            Projection::Field("pair".to_string()),
            Projection::TupleIndex(1)
        ]
    );
    assert_eq!(place.describe(), "(*p).pair.1");
}

#[test]
fn a_call_names_no_place() {
    let callee = TypedExpr::Ident("f".to_string(), Type::Unit, span());
    let call = TypedExpr::Call {
        callee: Box::new(callee),
        args: vec![],
        ty: Type::Unit,
        callee_id: Some(SymbolId(3)),
        span: span(),
    };
    assert_eq!(from_expr(&call), None);
}

#[test]
fn an_assignment_target_names_a_place() {
    let index = TypedExpr::Ident("i".to_string(), Type::I64, span());
    let target = TypedPlace::Index {
        object: Box::new(TypedPlace::Ident("xs".to_string(), span())),
        index: Box::new(index),
        span: span(),
    };
    let place = from_typed_place(&target).unwrap();
    assert_eq!(place.describe(), "xs[_]");
}
