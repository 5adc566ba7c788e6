use metel::stdlib::{lookup, module_paths, EmbeddedModule};

fn table() -> Vec<EmbeddedModule> {
    vec![EmbeddedModule {
        path: vec!["std".to_string(), "core".to_string()],
        source: "pub fun print<T>(value: T) native(@std.core.print);\n".to_string(),
    }]
}

#[test]
fn core_module_is_embedded() {
    let core = vec!["std".to_string(), "core".to_string()];
    let table = table();
    let src = lookup(&table, &core).expect("std::core must be embedded");
    assert!(src.contains("native(@std.core.print)"), "core.mtl content");
    assert!(module_paths(&table).contains(&core));
}

#[test]
fn stdlib_unknown_path_is_none() {
    let table = table();
    assert!(lookup(&table, &vec!["std".to_string(), "nope".to_string()]).is_none());
    assert!(lookup(&table, &vec!["user".to_string()]).is_none());
}

#[test]
fn every_listed_module_has_a_source() {
    let table = table();
    for path in module_paths(&table) {
        assert!(lookup(&table, &path).is_some());
    }
}
