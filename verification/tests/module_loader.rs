use metel::ast::{ImportDecl, ImportPath, ImportTree, PathRoot, Program};
use metel::error::MetelError;
use metel::module_loader::{
    validate_std_namespace, Action, Candidate, Event, FileInfo, Loader, ModuleGraph,
    SourceProvider,
};
use metel::span::Span;
use metel::stdlib::embedded_file_name;

#[test]
fn std_namespace_is_reserved_for_user_modules() {
    let path = "std.mtl";
    let err = validate_std_namespace(&vec!["std".to_string()], path)
        .expect_err("a user module named `std` must be rejected");
    assert!(
        err.describe().contains("reserved for the standard library"),
        "got: {}",
        err.describe()
    );
    assert!(validate_std_namespace(&vec!["std".to_string(), "io".to_string()], path).is_err());
}

#[test]
fn non_std_module_paths_are_allowed() {
    let path = "foo.mtl";
    assert!(validate_std_namespace(&vec![], path).is_ok());
    assert!(validate_std_namespace(&vec!["foo".to_string()], path).is_ok());
    assert!(validate_std_namespace(&vec!["standard".to_string()], path).is_ok());
}

struct Overlay;

impl SourceProvider for Overlay {
    fn read(&self, path: &Vec<String>, _file: &str) -> Result<String, MetelError> {
        assert_eq!(path, &vec!["greeter".to_string()]);
        Ok("pub fun hi() {}".to_string())
    }
}

#[test]
fn source_provider_overlay_supplies_in_memory_source() {
    let provider = Overlay;
    let src = provider
        .read(&vec!["greeter".to_string()], "ignored.mtl")
        .unwrap();
    assert!(src.contains("fun hi"));
}

fn root() -> FileInfo {
    FileInfo {
        file: "/p/main.mtl".to_string(),
        dir: "/p".to_string(),
        up: "/".to_string(),
    }
}

#[test]
fn a_program_without_imports_is_loaded_in_one_read() {
    let (mut loader, first) = Loader::new(root(), vec![]);
    let Action::Read { path, file } = first else {
        panic!("the root is read first");
    };
    assert!(path.is_empty());
    assert_eq!(file, "/p/main.mtl");
    let next = loader
        .step(Event::Parsed(Program { imports: vec![], decls: vec![] }))
        .unwrap();
    assert!(matches!(next, Action::Finished));
    let graph = loader.finish("/p".to_string());
    assert_eq!(graph.modules.len(), 1);
    assert_eq!(graph.modules[0].file_path, "/p/main.mtl");
}

#[test]
fn an_event_that_was_not_asked_for_is_an_error() {
    let (mut loader, _) = Loader::new(root(), vec![]);
    assert!(loader.step(Event::Probed(vec![true])).is_err());
}

fn import(root: PathRoot, names: &[&str]) -> ImportDecl {
    let mut tree = ImportTree::Glob;
    for (i, name) in names.iter().rev().enumerate() {
        tree = if i == 0 {
            ImportTree::Name { name: name.to_string(), alias: None }
        } else {
            ImportTree::Path { name: name.to_string(), tree: Box::new(tree) }
        };
    }
    let span = Span { start: 0, end: 0, filename: String::new(), line: 1, col: 1 };
    ImportDecl { path: ImportPath { root, tree }, span }
}

fn by_name(first: &str, rest: &[&str]) -> ImportDecl {
    import(PathRoot::Name(first.to_string()), rest)
}

fn file_of(c: &Candidate) -> String {
    format!("{}/{}.mtl", c.dir, c.segs.join("/"))
}

fn info_of(file: &str) -> FileInfo {
    let parent = |p: &str| match p.rfind('/') {
        Some(0) | None => "/".to_string(),
        Some(i) => p[..i].to_string(),
    };
    FileInfo { file: file.to_string(), dir: parent(file), up: parent(&parent(file)) }
}

fn load(files: &dyn Fn(&str) -> Option<Vec<ImportDecl>>) -> Result<ModuleGraph, MetelError> {
    let (mut loader, mut action) = Loader::new(info_of("/p/main.mtl"), vec![]);
    loop {
        let event = match action {
            Action::Read { file, .. } => Event::Parsed(Program {
                imports: files(&file).expect("only files that exist are read"),
                decls: vec![],
            }),
            Action::Probe(list) => {
                Event::Probed(list.iter().map(|c| files(&file_of(c)).is_some()).collect())
            }
            Action::Locate(c) => Event::Located(info_of(&file_of(&c))),
            Action::Finished => return Ok(loader.finish("/p/main.mtl".to_string())),
        };
        action = loader.step(event)?;
    }
}

#[test]
fn imports_are_loaded_before_what_imports_them() {
    let g = load(&|file| match file {
        "/p/main.mtl" => Some(vec![
            by_name("shapes", &["round", "Circle"]),
            import(PathRoot::Std, &["core"]),
        ]),
        "/p/shapes/round.mtl" => Some(vec![import(PathRoot::Root, &["util", "pi"])]),
        "/p/util.mtl" => Some(vec![]),
        _ => None,
    })
    .unwrap();
    let paths: Vec<String> = g.modules.iter().map(|m| m.path.join("::")).collect();
    assert_eq!(paths, vec!["util", "shapes::round", ""]);
}

#[test]
fn a_file_reached_twice_is_loaded_once() {
    let g = load(&|file| match file {
        "/p/main.mtl" => Some(vec![by_name("left", &["a"]), by_name("right", &["b"])]),
        "/p/left.mtl" => Some(vec![by_name("base", &["x"])]),
        "/p/right.mtl" => Some(vec![by_name("base", &["x"])]),
        "/p/base.mtl" => Some(vec![]),
        _ => None,
    })
    .unwrap();
    assert_eq!(g.modules.len(), 4);
    assert_eq!(g.path_aliases.len(), 1);
    assert_eq!(g.path_aliases[0].alias.join("::"), "right::base");
    assert_eq!(g.path_aliases[0].canonical.join("::"), "left::base");
}

#[test]
fn a_circle_of_imports_is_refused() {
    let e = load(&|file| match file {
        "/p/main.mtl" => Some(vec![by_name("a", &["x"])]),
        "/p/a.mtl" => Some(vec![by_name("b", &["x"])]),
        "/p/b.mtl" => Some(vec![by_name("a", &["x"])]),
        _ => None,
    })
    .unwrap_err();
    assert_eq!(
        e.describe(),
        "circular module dependency: /p/a.mtl -> /p/b.mtl -> /p/a.mtl"
    );
}

#[test]
fn an_import_without_a_file_is_refused() {
    let e = load(&|file| match file {
        "/p/main.mtl" => Some(vec![by_name("gone", &["x"])]),
        _ => None,
    })
    .unwrap_err();
    assert_eq!(e.describe(), "cannot find module file for `gone::x`");
}

#[test]
fn there_is_nothing_above_the_root_module() {
    let e = load(&|file| match file {
        "/p/main.mtl" => Some(vec![import(PathRoot::Super, &["x"])]),
        _ => None,
    })
    .unwrap_err();
    assert_eq!(e.describe(), "`super::` is invalid from the root module");
}

#[test]
fn embedded_modules_have_a_file_name_of_their_own() {
    assert_eq!(
        embedded_file_name(&vec!["std".to_string(), "core".to_string()]),
        "<embedded std::core>"
    );
}
