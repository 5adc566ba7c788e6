use metel::grammar_doc::{is_word_boundary_guard, Entry, Grammar, GrammarExpr, GrammarRule, Mode, Place};
use metel::grammar_page::{render_page, PageError};
use metel::grammar_source::{grammar_document, is_readable};

const SOURCE: &str = r#"
program = { SOI ~ stmt* ~ EOI }
stmt = { let_kw ~ ident ~ "=" ~ (ident | number)+ ~ ";" | "_" ~ !(ASCII_ALPHANUMERIC | "_") }
let_kw = @{ "let" ~ !(ASCII_ALPHANUMERIC | "_") }
ident = @{ ASCII_ALPHA+ }
number = @{ sign? ~ ASCII_DIGIT{1,3} }
sign = { "-" }
pair = { "(" ~ bracketed ~ ")" }
bracketed = { number{2} | ^"x" ~ 'a'..'z' }
WHITESPACE = _{ " " }
"#;

fn named(rule: &str, name: &str, section: &str) -> Entry {
    Entry {
        rule: rule.to_string(),
        mode: Mode::Named { name: name.to_string(), section: section.to_string() },
    }
}

fn terminal(rule: &str, name: &str) -> Entry {
    Entry { rule: rule.to_string(), mode: Mode::Terminal { name: name.to_string() } }
}

fn entries() -> Vec<Entry> {
    vec![
        named("program", "program", "Programs"),
        named("stmt", "stmt", "Programs"),
        Entry {
            rule: "let_kw".to_string(),
            mode: Mode::Literal { values: vec!["let".to_string()] },
        },
        terminal("ident", "IDENT"),
        terminal("number", "INT"),
        Entry { rule: "sign".to_string(), mode: Mode::Inline },
        named("pair", "pair", "Pairs"),
        Entry { rule: "bracketed".to_string(), mode: Mode::Inline },
        Entry { rule: "WHITESPACE".to_string(), mode: Mode::Omit },
    ]
}

#[test]
fn a_grammar_is_shown_section_by_section() {
    let page = grammar_document(SOURCE, &entries(), "# Grammar\n\n").unwrap();
    let expected = "# Grammar\n\n```\n\
program → stmt* \"EOF\"\n\
stmt    → \"let\" IDENT \"=\" ( IDENT | INT )+ \";\"\n        \
| \"_\"\n\
\n\
pair → \"(\" ( INT{2} | ^\"x\" \"a\"..\"z\" ) \")\"\n\
```\n";
    assert_eq!(page, expected);
}

#[test]
fn a_literal_with_several_values_is_a_choice() {
    let rules = vec![GrammarRule {
        name: "flag".to_string(),
        body: GrammarExpr::Opt(Box::new(GrammarExpr::Ident("bool_lit".to_string()))),
    }];
    let entries = vec![
        named("flag", "flag", "Flags"),
        Entry {
            rule: "bool_lit".to_string(),
            mode: Mode::Literal { values: vec!["true".to_string(), "false".to_string()] },
        },
    ];
    let g = Grammar { rules: &rules, entries: &entries };
    let body = &rules[0].body;
    assert_eq!(g.render(body, Place::Top, 2).unwrap(), "( \"true\" | \"false\" )?");
}

#[test]
fn a_rule_without_an_entry_and_an_entry_without_a_rule_are_both_named() {
    let mut entries = entries();
    entries.remove(6);
    entries.push(terminal("gone", "GONE"));
    match grammar_document(SOURCE, &entries, "") {
        Err(PageError::Mismatch(problems)) => assert_eq!(
            problems,
            vec![
                "grammar.pest rule `pair` has no grammar-doc.toml entry".to_string(),
                "grammar-doc.toml entry `gone` names a pest rule that doesn't exist".to_string(),
            ]
        ),
        other => panic!("got {other:?}"),
    }
}

#[test]
fn a_repeated_entry_is_refused() {
    let mut entries = entries();
    entries.push(terminal("ident", "NAME"));
    match grammar_document(SOURCE, &entries, "") {
        Err(PageError::Broken(m)) => {
            assert_eq!(m, "grammar-doc.toml: duplicate entry for pest rule `ident`")
        }
        other => panic!("got {other:?}"),
    }
}

#[test]
fn a_reference_to_an_omitted_rule_is_refused() {
    let mut entries = entries();
    entries[7] = Entry { rule: "bracketed".to_string(), mode: Mode::Omit };
    match grammar_document(SOURCE, &entries, "") {
        Err(PageError::Broken(m)) => {
            assert!(m.contains("`bracketed` is `omit` but is referenced from `pair`"), "got {m}")
        }
        other => panic!("got {other:?}"),
    }
}

#[test]
fn a_text_that_is_no_grammar_is_refused() {
    match grammar_document("program = {", &entries(), "") {
        Err(PageError::Broken(m)) => assert!(m.starts_with("parsing grammar.pest:\n"), "got {m}"),
        other => panic!("got {other:?}"),
    }
    match grammar_document("a = { a }", &entries(), "") {
        Err(PageError::Broken(m)) => {
            assert!(m.starts_with("building grammar.pest AST:\n"), "got {m}")
        }
        other => panic!("got {other:?}"),
    }
}

#[test]
fn an_escape_that_is_no_character_is_refused() {
    assert!(is_readable(r#"a = { "\u{41}" }"#));
    assert!(!is_readable(r#"a = { "\u{d800}" }"#));
    assert!(!is_readable(r#"a = { PEEK[0..99999999999] }"#));
    assert!(is_readable(r#"a = { "99999999999" }"#));
    let one = vec![named("a", "a", "A")];
    assert_eq!(
        grammar_document(r#"a = { "\u{41}" }"#, &one, "").unwrap(),
        "```\na → \"A\"\n```\n"
    );
    assert!(matches!(
        grammar_document(r#"a = { "\u{d800}" }"#, &one, ""),
        Err(PageError::Broken(_))
    ));
}

#[test]
fn a_form_without_notation_is_refused() {
    let rules = vec![GrammarRule {
        name: "a".to_string(),
        body: GrammarExpr::Other("Skip([])".to_string()),
    }];
    let entries = vec![named("a", "a", "A")];
    let g = Grammar { rules: &rules, entries: &entries };
    match render_page(&g, "") {
        Err(PageError::Broken(m)) => assert!(m.contains("(Skip([]))"), "got {m}"),
        other => panic!("got {other:?}"),
    }
}

#[test]
fn only_a_word_boundary_is_a_guard() {
    let part = GrammarExpr::Choice(
        Box::new(GrammarExpr::Ident("ASCII_ALPHANUMERIC".to_string())),
        Box::new(GrammarExpr::Str("_".to_string())),
    );
    assert!(is_word_boundary_guard(&GrammarExpr::NegPred(Box::new(part))));
    let other = GrammarExpr::NegPred(Box::new(GrammarExpr::Str("-".to_string())));
    assert!(!is_word_boundary_guard(&other));
}

#[test]
fn a_lookahead_on_one_alternative_is_no_guard() {
    let one = GrammarExpr::NegPred(Box::new(GrammarExpr::Str("_".to_string())));
    assert!(!is_word_boundary_guard(&one));
    let twisted = GrammarExpr::Choice(
        Box::new(GrammarExpr::Str("_".to_string())),
        Box::new(GrammarExpr::Ident("ASCII_ALPHANUMERIC".to_string())),
    );
    assert!(!is_word_boundary_guard(&GrammarExpr::NegPred(Box::new(twisted))));
}

#[test]
fn of_two_rules_with_one_name_the_last_counts() {
    let one = vec![named("a", "a", "A")];
    assert_eq!(
        grammar_document(r#"a = { "x" } a = { "y" }"#, &one, "").unwrap(),
        "```\na → \"y\"\n```\n"
    );
}

#[test]
fn a_bracket_that_opens_on_a_choice_is_refused() {
    let one = vec![named("a", "a", "A")];
    for source in [
        r#"a = { ( | "x" ) }"#,
        r#"a = { PUSH(/* | */ | "x") }"#,
        "a = { ( // x\n | \"x\" ) }",
    ] {
        assert!(!is_readable(source), "{source}");
        assert!(matches!(grammar_document(source, &one, ""), Err(PageError::Broken(_))));
    }
    for source in [r#"a = { | "x" }"#, r#"a = { ("x") }"#, r#"a = { "(|" }"#] {
        assert!(is_readable(source), "{source}");
        assert!(grammar_document(source, &one, "").is_ok(), "{source}");
    }
}

#[test]
fn a_backslash_between_a_caret_and_its_string_is_refused() {
    let one = vec![named("a", "a", "A")];
    let source = r#"a = { ^/* \q */"x" }"#;
    assert!(!is_readable(source));
    assert!(matches!(grammar_document(source, &one, ""), Err(PageError::Broken(_))));
    assert!(is_readable(r#"a = { ^/* q */ "x" }"#));
    assert_eq!(
        grammar_document(r#"a = { ^"\u{41}" }"#, &one, "").unwrap(),
        "```\na → ^\"A\"\n```\n"
    );
}

#[test]
fn what_stands_in_a_comment_is_not_read() {
    let one = vec![named("a", "a", "A")];
    for source in [
        "// \\u{d800}\na = { \"x\" }",
        "/* \\u{d800} /* ( | */ \" */ a = { \"x\" }",
        "/// PEEK[0..99999999999]\na = { \"x\" }",
        "a = { \"x\" } // '\n",
    ] {
        assert!(is_readable(source), "{source}");
        assert_eq!(grammar_document(source, &one, "").unwrap(), "```\na → \"x\"\n```\n");
    }
    assert!(is_readable("a = { '\"'..'\\'' } // PEEK 9999999999"));
    assert!(!is_readable("a = { '\\u{d800}'..'z' }"));
    assert!(is_readable(r#"a = { "\\u{d800}" }"#));
    assert!(is_readable("a = { b9999999999 }"));
}

#[test]
fn a_comment_that_does_not_end_opens_nothing() {
    let one = vec![named("a", "a", "A")];
    for source in [
        r#"/*/*/a={(|"x")}"#,
        r#"/*/*/a={"\u{D800}"}"#,
        r#"/*/**/*/a={(|"x")}"#,
        r#"/*/*/*/a={(|"x")}"#,
    ] {
        assert!(
            !is_readable(source) || matches!(grammar_document(source, &one, ""), Err(_)),
            "{source}"
        );
    }
    assert!(!is_readable(r#"/*/*/a={(|"x")}"#));
    assert!(!is_readable(r#"/*/*/a={"\u{D800}"}"#));
    assert!(!is_readable(r#"/*/**/*/a={(|"x")}"#));
    assert!(is_readable(r#"/*/*/a={"x"}"#));
    assert_eq!(
        grammar_document(r#"/*/*/a={"x"}"#, &one, "").unwrap(),
        "```\na → \"x\"\n```\n"
    );
    assert_eq!(
        grammar_document(r#"/*/* ( | */"*/a={"x"}"#, &one, "").unwrap(),
        "```\na → \"x\"\n```\n"
    );
}

#[test]
fn an_index_into_the_stack_has_a_size() {
    for source in [
        "a = { PEEK[2147483648..] }",
        "a = { PEEK[ /* ] */ ..99999999999] }",
        "a = { PEEK[-2147483649..1] }",
    ] {
        assert!(!is_readable(source), "{source}");
    }
    for source in [
        "a = { PEEK[2147483647..] }",
        "a = { PEEK[-2147483648..0000000000001] }",
        "a = { PEEK[0..1 /* 99999999999 */] ~ \"x\"{9999999999} }",
        "PEEK0123456789={\"x\"}",
    ] {
        assert!(is_readable(source), "{source}");
        // Whether these are grammars is another matter: nothing gives up on them.
        let _ = grammar_document(source, &vec![], "");
    }
    assert_eq!(
        grammar_document(
            "PEEK0123456789={\"x\"}",
            &vec![named("PEEK0123456789", "a", "A")],
            ""
        )
        .unwrap(),
        "```\na → \"x\"\n```\n"
    );
}

#[test]
fn an_escape_before_an_insensitive_string_is_read_with_it() {
    for source in [r#"a = { ^/* \n \x41 \u{41} */"x" }"#, "a = { ^// \\t\n\"x\" }"] {
        assert!(is_readable(source), "{source}");
        assert!(grammar_document(source, &vec![named("a", "a", "A")], "").is_ok(), "{source}");
    }
    for source in [r#"a = { ^/* \u{d800} */"x" }"#, r#"a = { ^/* \x4 */"x" }"#] {
        assert!(!is_readable(source), "{source}");
    }
}

#[test]
fn what_goes_onto_the_stack_is_searched_for_omitted_rules() {
    let entries = vec![
        named("a", "a", "A"),
        Entry { rule: "b".to_string(), mode: Mode::Omit },
    ];
    match grammar_document(r#"a = { PUSH(b) ~ POP } b = { "x" }"#, &entries, "") {
        Err(PageError::Broken(m)) => {
            assert!(m.contains("`b` is `omit` but is referenced from `a`"), "got {m}")
        }
        other => panic!("got {other:?}"),
    }
    let inline = vec![
        named("a", "a", "A"),
        Entry { rule: "b".to_string(), mode: Mode::Inline },
    ];
    match grammar_document(r#"a = { PUSH(b) ~ POP } b = { "x" }"#, &inline, "") {
        Err(PageError::Broken(m)) => assert!(m.contains("(Push(Ident(\"b\")))"), "got {m}"),
        other => panic!("got {other:?}"),
    }
}
