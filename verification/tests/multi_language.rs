use creature_context::parsers::adapter::{Construct, ParsedSymbol};
use creature_context::parsers::languages::{language_for_extension, supported_languages};
use creature_context::parsers::syntax::{extract_declarations, SyntaxNode};

fn canonical(symbols: &[ParsedSymbol], name: &str) -> Option<String> {
    symbols
        .iter()
        .find(|s| s.name == name)
        .and_then(|s| match &s.construct {
            Construct::Shared(c) => Some(c.clone()),
            Construct::Native(_) => None,
        })
}

fn node(kind: &str, named: bool, text: &str, rows: (usize, usize), children: Vec<SyntaxNode>) -> SyntaxNode {
    SyntaxNode {
        kind: kind.to_string(),
        is_named: named,
        text: Some(text.to_string()),
        start_row: rows.0,
        end_row: rows.1,
        name_child: None,
        argument_child: None,
        children,
    }
}

/// A declaration node whose `name` field is its second child, after a keyword.
fn declaration(kind: &str, keyword: &str, name_kind: &str, name: &str, rows: (usize, usize)) -> SyntaxNode {
    SyntaxNode {
        name_child: Some(1),
        ..node(
            kind,
            true,
            name,
            rows,
            vec![
                node(keyword, false, keyword, (rows.0, rows.0), vec![]),
                node(name_kind, true, name, (rows.0, rows.0), vec![]),
            ],
        )
    }
}

fn names(symbols: &[ParsedSymbol]) -> Vec<&str> {
    symbols.iter().map(|s| s.name.as_str()).collect()
}

#[test]
fn python_declarations_are_extracted_and_typed() {
    // The tree of "def greet(name):\n    return name\n\nclass Widget:\n    pass\n".
    let tree = node(
        "module",
        true,
        "",
        (0, 5),
        vec![
            declaration("function_definition", "def", "identifier", "greet", (0, 1)),
            declaration("class_definition", "class", "identifier", "Widget", (3, 4)),
        ],
    );
    let symbols = extract_declarations(&tree, "python");
    let names = names(&symbols);
    assert!(names.contains(&"greet"), "python function not extracted: {names:?}");
    assert!(names.contains(&"Widget"), "python class not extracted: {names:?}");
    assert_eq!(canonical(&symbols, "greet").as_deref(), Some("function"));
    assert_eq!(canonical(&symbols, "Widget").as_deref(), Some("class"));
}

#[test]
fn go_declarations_are_extracted() {
    // The tree of "package main\n\nfunc Add(a int, b int) int { return a + b }\n\ntype Point struct { X int }\n".
    // A Go type declaration holds its name a level down, in a `type_spec`.
    let type_spec = SyntaxNode {
        name_child: Some(0),
        ..node(
            "type_spec",
            true,
            "Point struct { X int }",
            (4, 4),
            vec![
                node("type_identifier", true, "Point", (4, 4), vec![]),
                node("struct_type", true, "struct { X int }", (4, 4), vec![]),
            ],
        )
    };
    let tree = node(
        "source_file",
        true,
        "",
        (0, 5),
        vec![
            node(
                "package_clause",
                true,
                "package main",
                (0, 0),
                vec![node("package_identifier", true, "main", (0, 0), vec![])],
            ),
            declaration("function_declaration", "func", "identifier", "Add", (2, 2)),
            node(
                "type_declaration",
                true,
                "type Point struct { X int }",
                (4, 4),
                vec![node("type", false, "type", (4, 4), vec![]), type_spec],
            ),
        ],
    );
    let symbols = extract_declarations(&tree, "go");
    let names = names(&symbols);
    assert!(names.contains(&"Add"), "go function not extracted: {names:?}");
    assert!(names.contains(&"Point"), "go type not extracted: {names:?}");
}

#[test]
fn typescript_declarations_are_extracted() {
    // The tree of "function hello(): string { return \"hi\"; }\nclass Box { }\n".
    let tree = node(
        "program",
        true,
        "",
        (0, 2),
        vec![
            declaration("function_declaration", "function", "identifier", "hello", (0, 0)),
            declaration("class_declaration", "class", "type_identifier", "Box", (1, 1)),
        ],
    );
    let symbols = extract_declarations(&tree, "typescript");
    let names = names(&symbols);
    assert!(names.contains(&"hello"), "ts function not extracted: {names:?}");
    assert!(names.contains(&"Box"), "ts class not extracted: {names:?}");
}

#[test]
fn extensions_map_to_languages() {
    assert_eq!(language_for_extension("rs"), Some("rust"));
    assert_eq!(language_for_extension("py"), Some("python"));
    assert_eq!(language_for_extension("ts"), Some("typescript"));
    assert_eq!(language_for_extension("xyz"), None);
}

#[test]
fn every_mapped_extension_names_a_supported_language() {
    let supported = supported_languages();
    for ext in ["rs", "py", "ts", "tsx", "js", "go", "c", "h", "cpp", "java", "rb", "hs"] {
        if let Some(language) = language_for_extension(ext) {
            assert!(supported.contains(&language), "{ext} -> {language}");
        }
    }
}

#[test]
fn the_supported_list_has_no_duplicates() {
    let supported = supported_languages();
    let mut seen = supported.clone();
    seen.sort();
    seen.dedup();
    assert_eq!(seen.len(), supported.len());
    assert!(supported.contains(&"rust"));
}

#[test]
fn an_empty_extension_maps_to_nothing() {
    assert_eq!(language_for_extension(""), None);
}

#[test]
fn extension_matching_is_exact_and_case_sensitive() {
    assert_eq!(language_for_extension("rs"), Some("rust"));
    assert_eq!(language_for_extension("RS"), None);
    assert_eq!(language_for_extension(".rs"), None);
    assert_eq!(language_for_extension("rs "), None);
}
