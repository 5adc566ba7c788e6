use metel::ast::{Bound, Decl, GenericParam, ImplBlock, Polarity, Program, SymbolId, TypeExpr};
use metel::coherence::{check, scoped_type_param_bounds};
use metel::elaborate::state::SymbolEntry;
use metel::error::{MetelError, TypeErrorCode};
use metel::resolution::{
    Binding, Glob, GlobTier, ModuleScope, NormalizedModule, NormalizedModuleGraph, ResolvedNames,
};
use metel::span::Span;

fn span(line: u32) -> Span {
    Span { start: 0, end: 0, filename: "main.mtl".to_string(), line, col: 1 }
}

fn module(name: &str) -> Vec<String> {
    vec![name.to_string()]
}

fn implement(aspect: &str, target: &str, line: u32) -> Decl {
    Decl::Impl(ImplBlock {
        polarity: Polarity::Positive,
        generics: vec![],
        aspect_name: Some(aspect.to_string()),
        aspect_type_args: vec![],
        target_type: TypeExpr::Named(target.to_string(), vec![]),
        where_clause: None,
        assoc_type_defs: vec![],
        methods: vec![],
        span: span(line),
    })
}

fn names() -> ResolvedNames {
    ResolvedNames {
        symbols: vec![
            SymbolEntry { module: module("a"), name: "Show".to_string(), id: SymbolId(1) },
            SymbolEntry { module: module("b"), name: "Point".to_string(), id: SymbolId(2) },
        ],
        scopes: vec![ModuleScope {
            module: module("c"),
            explicit: vec![
                Binding { name: "Show".to_string(), symbol_id: SymbolId(1) },
                Binding { name: "Point".to_string(), symbol_id: SymbolId(2) },
            ],
            globs: vec![],
        },
        ModuleScope {
            module: module("b"),
            explicit: vec![Binding { name: "Show".to_string(), symbol_id: SymbolId(1) }],
            globs: vec![],
        }],
    }
}

fn graph(name: &str, decls: Vec<Decl>) -> NormalizedModuleGraph {
    NormalizedModuleGraph {
        modules: vec![NormalizedModule {
            path: module(name),
            program: Program { imports: vec![], decls },
        }],
    }
}

fn code(r: Result<(), MetelError>) -> Option<TypeErrorCode> {
    match r {
        Err(MetelError::TypeError { code, .. }) => Some(code),
        _ => None,
    }
}

#[test]
fn an_impl_beside_its_type_is_accepted() {
    let g = graph("b", vec![implement("Show", "Point", 1)]);
    assert_eq!(check(&g, &names()), Ok(()));
}

#[test]
fn an_impl_apart_from_its_aspect_and_its_type_is_an_orphan() {
    let g = graph("c", vec![implement("Show", "Point", 1)]);
    let e = check(&g, &names()).unwrap_err();
    assert_eq!(
        e.describe(),
        "orphan implementation: neither `Show` nor the target type is local to this module"
    );
    assert_eq!(code(check(&g, &names())), Some(TypeErrorCode::T0014));
}

#[test]
fn a_second_impl_for_a_type_conflicts_with_the_first() {
    let g = graph("b", vec![implement("Show", "Point", 3), implement("Show", "Point", 9)]);
    let e = check(&g, &names()).unwrap_err();
    assert_eq!(
        e.describe(),
        "conflicting implementation: `Show` is already implemented for this type at main.mtl:3:1"
    );
    assert_eq!(code(check(&g, &names())), Some(TypeErrorCode::T0015));
}

fn std_core() -> Vec<String> {
    vec!["std".to_string(), "core".to_string()]
}

fn core_names() -> ResolvedNames {
    ResolvedNames {
        symbols: vec![
            SymbolEntry { module: std_core(), name: "Copy".to_string(), id: SymbolId(1) },
            SymbolEntry { module: std_core(), name: "Drop".to_string(), id: SymbolId(2) },
            SymbolEntry { module: module("b"), name: "S".to_string(), id: SymbolId(3) },
            SymbolEntry { module: module("b"), name: "T".to_string(), id: SymbolId(4) },
            SymbolEntry { module: module("c"), name: "Copy".to_string(), id: SymbolId(5) },
            SymbolEntry { module: module("c"), name: "S".to_string(), id: SymbolId(6) },
        ],
        scopes: vec![
            ModuleScope {
                module: module("b"),
                explicit: vec![],
                globs: vec![Glob { tier: GlobTier::Std, module: std_core() }],
            },
            ModuleScope {
                module: module("c"),
                explicit: vec![],
                globs: vec![Glob { tier: GlobTier::Std, module: std_core() }],
            },
        ],
    }
}

#[test]
fn a_type_is_not_both_copied_and_dropped() {
    let g = graph("b", vec![implement("Copy", "S", 3), implement("Drop", "S", 9)]);
    let e = check(&g, &core_names()).unwrap_err();
    assert_eq!(
        e.describe(),
        "conflicting implementation: `Drop` excludes `Copy`, which is implemented for this type at main.mtl:3:1"
    );
    assert_eq!(code(check(&g, &core_names())), Some(TypeErrorCode::T0015));
    let g = graph("b", vec![implement("Drop", "S", 3), implement("Copy", "S", 9)]);
    assert!(check(&g, &core_names()).is_err());
    let g = graph("b", vec![implement("Copy", "S", 3), implement("Drop", "T", 9)]);
    assert_eq!(check(&g, &core_names()), Ok(()));
    // An aspect that only has the name of the library's excludes nothing.
    let g = graph("c", vec![implement("Copy", "S", 3), implement("Drop", "S", 9)]);
    assert_eq!(check(&g, &core_names()), Ok(()));
}

#[test]
fn a_record_has_no_destructor() {
    let Decl::Impl(mut ib) = implement("Drop", "S", 3) else { panic!("an impl") };
    ib.target_type =
        TypeExpr::Record(vec![("a".to_string(), TypeExpr::Named("i64".to_string(), vec![]))]);
    let g = graph("b", vec![Decl::Impl(ib)]);
    assert_eq!(
        check(&g, &core_names()).unwrap_err().describe(),
        "anonymous records cannot implement `Drop`"
    );
}

#[test]
fn a_bound_counts_wherever_its_parameter_stands() {
    let Decl::Impl(mut ib) = implement("Show", "Pair", 3) else { panic!("an impl") };
    let t = || TypeExpr::Named("T".to_string(), vec![]);
    ib.generics = vec![GenericParam {
        name: "T".to_string(),
        bounds: vec![Bound {
            aspect: TypeExpr::Named("Copy".to_string(), vec![]),
            polarity: Polarity::Positive,
            open: false,
        }],
        is_record: false,
        span: span(3),
    }];
    ib.target_type = TypeExpr::Named("Pair".to_string(), vec![t(), t()]);
    let bounds = scoped_type_param_bounds(&ib);
    assert_eq!(bounds.positive, vec![vec!["Copy"], vec!["Copy"]]);
    assert_eq!(bounds.negative, vec![Vec::<String>::new(), vec![]]);
}
