use metel::ast::{
    Block, Decl, Expr, FieldDecl, FunDecl, GenericParam, LetDecl, Program, Stmt, StructDecl,
    TypeAliasDecl, TypeExpr, WhileStmt,
};
use metel::module_loader::{LoadedModule, ModuleGraph};
use metel::span::Span;
use metel::type_alias::expand;

fn span() -> Span {
    Span { start: 0, end: 0, filename: "main.mtl".to_string(), line: 1, col: 1 }
}

fn name(n: &str) -> TypeExpr {
    TypeExpr::Named(n.to_string(), vec![])
}

fn generic(n: &str) -> GenericParam {
    GenericParam { name: n.to_string(), bounds: vec![], is_record: false, span: span() }
}

fn alias(n: &str, params: &[&str], target: TypeExpr) -> Decl {
    Decl::TypeAlias(TypeAliasDecl {
        name: n.to_string(),
        generics: params.iter().map(|p| generic(p)).collect(),
        target,
        span: span(),
    })
}

fn holder(ty: TypeExpr) -> Decl {
    Decl::Struct(StructDecl {
        name: "Holder".to_string(),
        generics: vec![],
        fields: vec![FieldDecl { name: "x".to_string(), type_ann: ty, span: span() }],
        span: span(),
    })
}

fn graph(decls: Vec<Decl>) -> ModuleGraph {
    ModuleGraph {
        root: "/p".to_string(),
        modules: vec![LoadedModule {
            path: vec![],
            file_path: "main.mtl".to_string(),
            program: Program { imports: vec![], decls },
        }],
        path_aliases: vec![],
    }
}

fn field_type(g: &ModuleGraph) -> TypeExpr {
    for d in &g.modules[0].program.decls {
        if let Decl::Struct(s) = d {
            return s.fields[0].type_ann.clone();
        }
    }
    panic!("there is a struct");
}

#[test]
fn an_alias_is_replaced_by_what_it_stands_for() {
    let mut g = graph(vec![
        alias("Pair", &["T"], TypeExpr::Tuple(vec![name("T"), name("T")])),
        alias("Points", &[], TypeExpr::Array(Box::new(TypeExpr::Named("Pair".to_string(), vec![name("i64")])))),
        holder(name("Points")),
    ]);
    assert_eq!(expand(&mut g), Ok(()));
    assert_eq!(
        field_type(&g),
        TypeExpr::Array(Box::new(TypeExpr::Tuple(vec![name("i64"), name("i64")])))
    );
}

#[test]
fn a_recursive_alias_is_refused() {
    let mut g = graph(vec![
        alias("A", &[], name("B")),
        alias("B", &[], name("A")),
        holder(name("A")),
    ]);
    let e = expand(&mut g).unwrap_err();
    assert!(e.describe().starts_with("recursive type alias `"), "got {}", e.describe());
}

#[test]
fn an_alias_declared_twice_is_refused() {
    let mut g = graph(vec![alias("A", &[], name("i64")), alias("A", &[], name("u8"))]);
    let e = expand(&mut g).unwrap_err();
    assert_eq!(e.describe(), "type alias `A` is declared more than once in this module");
}

#[test]
fn an_alias_with_the_wrong_number_of_arguments_is_refused() {
    let mut g = graph(vec![
        alias("Pair", &["T"], TypeExpr::Tuple(vec![name("T"), name("T")])),
        holder(name("Pair")),
    ]);
    let e = expand(&mut g).unwrap_err();
    assert_eq!(
        e.describe(),
        "type alias `Pair` takes 1 type argument(s), but 0 were supplied"
    );
}

fn ident(n: &str) -> Expr {
    Expr::Ident(n.to_string(), span())
}

fn function(stmts: Vec<Decl>, tail: Option<Expr>) -> Decl {
    Decl::Fun(FunDecl {
        name: "f".to_string(),
        generics: vec![],
        params: vec![],
        return_type: None,
        body: Block { stmts, tail: tail.map(Box::new), span: span() },
        native: None,
        span: span(),
    })
}

fn binding(ty: TypeExpr, value: Expr) -> Decl {
    Decl::Let(LetDecl { name: "x".to_string(), type_ann: Some(ty), value, span: span() })
}

fn looping(ty: TypeExpr) -> Decl {
    Decl::Stmt(Stmt::While(WhileStmt {
        condition: ident("go"),
        body: Block { stmts: vec![binding(ty, ident("y"))], tail: None, span: span() },
        span: span(),
    }))
}

fn branching(ty: TypeExpr) -> Expr {
    Expr::If {
        condition: Box::new(ident("go")),
        then_branch: Block { stmts: vec![binding(ty.clone(), ident("y"))], tail: None, span: span() },
        else_branch: Some(Block {
            stmts: vec![],
            tail: Some(Box::new(Expr::Cast {
                expr: Box::new(ident("y")),
                target_type: ty,
                span: span(),
            })),
            span: span(),
        }),
        span: span(),
    }
}

#[test]
fn an_alias_in_a_nested_block_is_replaced() {
    let mut g = graph(vec![
        alias("A", &[], name("i64")),
        function(vec![looping(name("A"))], Some(branching(name("A")))),
    ]);
    assert_eq!(expand(&mut g), Ok(()));
    assert_eq!(
        g.modules[0].program.decls,
        vec![function(vec![looping(name("i64"))], Some(branching(name("i64"))))]
    );
}

#[test]
fn a_second_expansion_changes_nothing() {
    let mut g = graph(vec![alias("A", &[], name("i64")), holder(name("A"))]);
    assert_eq!(expand(&mut g), Ok(()));
    assert_eq!(g.modules[0].program.decls, vec![holder(name("i64"))]);
    assert_eq!(expand(&mut g), Ok(()));
    assert_eq!(g.modules[0].program.decls, vec![holder(name("i64"))]);
}

#[test]
fn a_module_with_a_wrong_alias_is_left_as_it_was() {
    let recursive = || {
        vec![
            alias("A", &[], TypeExpr::Array(Box::new(name("B")))),
            alias("B", &[], name("A")),
            holder(name("A")),
        ]
    };
    let mut g = graph(recursive());
    assert!(expand(&mut g).is_err());
    assert_eq!(g.modules[0].program.decls, recursive());
    let doubled = || vec![alias("A", &[], name("i64")), alias("A", &[], name("u8")), holder(name("A"))];
    let mut g = graph(doubled());
    assert!(expand(&mut g).is_err());
    assert_eq!(g.modules[0].program.decls, doubled());
}

#[test]
fn a_wrong_use_leaves_the_aliases_and_what_follows() {
    let pair = || alias("P", &["T"], TypeExpr::Tuple(vec![name("T"), name("T")]));
    let wrong = || holder(TypeExpr::Named("P".to_string(), vec![name("u8"), name("u8")]));
    let good = || holder(TypeExpr::Named("P".to_string(), vec![name("u8")]));
    let mut g = graph(vec![good(), pair(), wrong(), good()]);
    let e = expand(&mut g).unwrap_err();
    assert_eq!(e.describe(), "type alias `P` takes 1 type argument(s), but 2 were supplied");
    assert_eq!(
        g.modules[0].program.decls,
        vec![holder(TypeExpr::Tuple(vec![name("u8"), name("u8")])), pair(), wrong(), good()]
    );
}
