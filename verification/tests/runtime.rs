use metel::ast::{
    Block, Decl, FunDecl, ImplBlock, NativeBinding, Param, Polarity, Program, ReceiverKind,
    TypeExpr,
};
use metel::evaluator::runtime::{core_is_complete, runtime_registry, RuntimeTypePattern};
use metel::evaluator::value::{Builtin, RuntimeCallable};
use metel::native_keys::NativeKey;
use metel::span::Span;

fn span() -> Span {
    Span { start: 0, end: 0, filename: "<embedded std::core>".to_string(), line: 1, col: 1 }
}

fn native(name: &str, key: &str, params: Vec<Param>) -> FunDecl {
    FunDecl {
        name: name.to_string(),
        generics: vec![],
        params,
        return_type: None,
        body: Block { stmts: vec![], tail: None, span: span() },
        native: Some(NativeBinding {
            key_path: vec!["std".to_string(), "core".to_string(), key.to_string()],
            span: span(),
        }),
        span: span(),
    }
}

fn receiver() -> Param {
    Param {
        name: "self".to_string(),
        type_ann: None,
        receiver: Some(ReceiverKind::Ref),
        span: span(),
    }
}

fn core_program(key: &str) -> Program {
    Program {
        imports: vec![],
        decls: vec![
            Decl::Fun(native("print", key, vec![])),
            Decl::Impl(ImplBlock {
                polarity: Polarity::Positive,
                generics: vec![],
                aspect_name: Some("Display".to_string()),
                aspect_type_args: vec![],
                target_type: TypeExpr::Named("i64".to_string(), vec![]),
                where_clause: None,
                assoc_type_defs: vec![],
                methods: vec![native("to_string", "to_string", vec![receiver()])],
                span: span(),
            }),
        ],
    }
}

#[test]
fn the_core_module_provides_its_native_functions() {
    let program = core_program("print");
    assert!(core_is_complete(&program));
    let r = runtime_registry(&program);
    let print = r.core_values.iter().find(|(name, _)| name == "print").unwrap();
    assert!(matches!(
        print.1,
        RuntimeCallable::Intrinsic { fun: Builtin::Native(NativeKey::StdCorePrint), .. }
    ));
    assert!(r
        .aspects
        .iter()
        .any(|e| e.owner == "i64" && e.aspect == "Display" && e.name == "to_string"));
    assert!(r
        .patterns
        .iter()
        .any(|e| matches!(e.pattern, RuntimeTypePattern::Str) && e.name == "len"));
    assert!(r
        .patterns
        .iter()
        .any(|e| matches!(e.pattern, RuntimeTypePattern::Array) && e.name == "len"));
}

#[test]
fn a_core_module_with_an_unknown_native_function_is_incomplete() {
    assert!(!core_is_complete(&core_program("nope")));
}
