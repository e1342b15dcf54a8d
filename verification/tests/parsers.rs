use creature_context::parsers::incremental::{ParseCache, ParsedFile};
use creature_context::parsers::adapter::{is_declaration, kind_for, ParsedImport, SymbolKind};
use creature_context::parsers::constructs::Construct;
use creature_context::parsers::imports::expand_use_path;
use creature_context::parsers::syntax::{
    declaration_name, extract_declarations, extract_imports, extract_macro_names,
    extract_symbols, extract_typed, is_exported, is_rust, SyntaxNode,
};

fn expand(text: &str) -> Vec<ParsedImport> {
    let mut out = Vec::new();
    expand_use_path(text, 1, &mut out);
    out
}

fn leaf(kind: &str, text: &str, row: usize) -> SyntaxNode {
    SyntaxNode {
        kind: kind.to_string(),
        is_named: true,
        text: Some(text.to_string()),
        start_row: row,
        end_row: row,
        name_child: None,
        argument_child: None,
        children: vec![],
    }
}

fn anon(kind: &str, row: usize) -> SyntaxNode {
    SyntaxNode {
        is_named: false,
        ..leaf(kind, kind, row)
    }
}

fn decl(kind: &str, name: &str, start: usize, end: usize, public: bool) -> SyntaxNode {
    let mut children = Vec::new();
    if public {
        children.push(leaf("visibility_modifier", "pub", start));
    }
    let name_kind = if kind == "function_item" { "identifier" } else { "type_identifier" };
    children.push(leaf(name_kind, name, start));
    children.push(leaf("block", "{ }", end));
    let name_child = Some(children.len() - 2);
    SyntaxNode {
        kind: kind.to_string(),
        is_named: true,
        text: Some(format!("{name} ...")),
        start_row: start,
        end_row: end,
        name_child,
        argument_child: None,
        children,
    }
}

fn use_decl(argument: &str, row: usize) -> SyntaxNode {
    SyntaxNode {
        kind: "use_declaration".to_string(),
        is_named: true,
        text: Some(format!("use {argument};")),
        start_row: row,
        end_row: row,
        name_child: None,
        argument_child: Some(1),
        children: vec![anon("use", row), leaf("scoped_identifier", argument, row), anon(";", row)],
    }
}

fn file(children: Vec<SyntaxNode>) -> SyntaxNode {
    SyntaxNode {
        kind: "source_file".to_string(),
        is_named: true,
        text: Some(String::new()),
        start_row: 0,
        end_row: 14,
        name_child: None,
        argument_child: None,
        children,
    }
}

/// The tree of `use std::fmt; pub struct Widget {..} fn make_widget(..) {..} trait Render {..}`.
fn widget_file() -> SyntaxNode {
    file(vec![
        use_decl("std::fmt", 1),
        decl("struct_item", "Widget", 3, 5, true),
        decl("function_item", "make_widget", 7, 9, false),
        decl("trait_item", "Render", 11, 13, false),
    ])
}

#[test]
fn an_intra_crate_import_is_extracted_with_its_item_name() {
    let imports = expand("crate::widget::Widget");
    assert_eq!(imports.len(), 1, "one import: {imports:?}");
    assert_eq!(imports[0].item, "Widget");
    assert!(imports[0].intra_repo);
    assert_eq!(imports[0].path, "crate::widget::Widget");
}

#[test]
fn an_external_import_is_not_a_required_socket() {
    let imports = expand("std::path::Path");
    assert!(imports.is_empty(), "std is outside the scanned universe: {imports:?}");
}

#[test]
fn a_brace_group_expands_to_one_import_per_item() {
    let imports = expand("crate::model::{Entity, Edge}");
    let items: Vec<&str> = imports.iter().map(|i| i.item.as_str()).collect();
    assert!(items.contains(&"Entity"), "{items:?}");
    assert!(items.contains(&"Edge"), "{items:?}");
}

#[test]
fn a_nested_brace_group_expands_without_mangling_names() {
    let imports = expand("crate::{output::{OutputFormat, write_output}, EntityId}");
    let items: Vec<&str> = imports.iter().map(|i| i.item.as_str()).collect();
    assert!(items.contains(&"OutputFormat"), "{items:?}");
    assert!(items.contains(&"write_output"), "{items:?}");
    assert!(items.contains(&"EntityId"), "{items:?}");
    assert!(imports.iter().all(|i| !i.item.contains('{') && !i.item.contains('}')));
    assert!(imports.iter().any(|i| i.path == "crate::output::OutputFormat"));
}

#[test]
fn a_glob_import_names_no_item_and_is_skipped() {
    let imports = expand("crate::prelude::*");
    assert!(imports.is_empty(), "a glob names no item: {imports:?}");
}

#[test]
fn an_alias_imports_the_original_name() {
    let imports = expand("super::graph::Edge as GraphEdge");
    assert_eq!(imports.len(), 1);
    assert_eq!(imports[0].path, "super::graph::Edge");
    assert_eq!(imports[0].item, "Edge");
    assert_eq!(imports[0].start_line, 1);
    assert!(expand("self").is_empty());
    assert!(expand("crate::a::{self, B}").iter().all(|i| i.item == "B"));
}

#[test]
fn extracts_functions_structs_and_traits_with_names() {
    let symbols = extract_symbols(&widget_file());
    let names: Vec<&str> = symbols.iter().map(|s| s.name.as_str()).collect();
    assert!(names.contains(&"Widget"), "struct not extracted: {names:?}");
    assert!(names.contains(&"make_widget"), "function not extracted: {names:?}");
    assert!(names.contains(&"Render"), "trait not extracted: {names:?}");
    assert_eq!(names, vec!["Widget", "make_widget", "Render"]);
}

#[test]
fn extracted_symbols_carry_their_kind() {
    let symbols = extract_symbols(&widget_file());
    let kind_of = |name: &str| symbols.iter().find(|s| s.name == name).map(|s| s.kind);
    assert_eq!(kind_of("Widget"), Some(SymbolKind::Struct));
    assert_eq!(kind_of("make_widget"), Some(SymbolKind::Function));
    assert_eq!(kind_of("Render"), Some(SymbolKind::Trait));
}

#[test]
fn spans_are_one_indexed_and_bound_the_declaration() {
    let symbols = extract_symbols(&widget_file());
    let widget = symbols.iter().find(|s| s.name == "Widget").expect("Widget");
    // The struct starts on source line 4 (1-indexed), after the blank line and
    // the `use`.
    assert_eq!(widget.start_line, 4, "start line must be 1-indexed: {widget:?}");
    assert!(widget.end_line >= widget.start_line, "end line must not precede start: {widget:?}");
    assert_eq!(widget.end_line, 6);
}

#[test]
fn empty_source_yields_no_symbols_without_error() {
    // The tree of an empty source file is a bare root.
    assert!(extract_symbols(&file(vec![])).is_empty());
}

#[test]
fn typed_declarations_resolve_to_shared_constructs() {
    let typed = extract_typed(&widget_file());
    assert_eq!(
        typed,
        vec![
            ("Widget".to_string(), Construct::Shared("product_type".to_string())),
            ("make_widget".to_string(), Construct::Shared("function".to_string())),
            ("Render".to_string(), Construct::Shared("behavioral_contract".to_string())),
        ]
    );
}

fn canonical(symbols: &[(String, Construct)], name: &str) -> Option<String> {
    symbols
        .iter()
        .find(|(n, _)| n == name)
        .and_then(|(_, c)| match c {
            Construct::Shared(canonical) => Some(canonical.clone()),
            Construct::Native(_) => None,
        })
}

#[test]
fn rust_declarations_resolve_to_their_shared_constructs() {
    // The tree of `pub struct Widget {..} fn make() -> Widget {..}
    // trait Render { fn render(&self); } enum Colour { Red, Green }`.
    let mut render = decl("trait_item", "Render", 3, 3, false);
    render.children.push(SyntaxNode {
        kind: "declaration_list".to_string(),
        name_child: None,
        children: vec![decl("function_signature_item", "render", 3, 3, false)],
        ..leaf("declaration_list", "{ fn render(&self); }", 3)
    });
    let tree = file(vec![
        decl("struct_item", "Widget", 1, 1, true),
        decl("function_item", "make", 2, 2, false),
        render,
        decl("enum_item", "Colour", 4, 4, false),
    ]);
    let symbols = extract_typed(&tree);

    assert_eq!(canonical(&symbols, "make").as_deref(), Some("function"));
    assert_eq!(canonical(&symbols, "Widget").as_deref(), Some("product_type"));
    assert_eq!(canonical(&symbols, "Render").as_deref(), Some("behavioral_contract"));
    assert_eq!(canonical(&symbols, "Colour").as_deref(), Some("enumeration"));
}

#[test]
fn a_pub_declaration_is_exported_and_a_bare_one_is_not() {
    // The tree of `pub struct Shown {}\nstruct Hidden {}\n`.
    let tree = file(vec![
        decl("struct_item", "Shown", 0, 0, true),
        decl("struct_item", "Hidden", 1, 1, false),
    ]);
    assert!(is_exported(&tree.children[0]));
    assert!(!is_exported(&tree.children[1]));
    let symbols = extract_declarations(&tree, "rust");
    let shown = symbols.iter().find(|s| s.name == "Shown").expect("Shown");
    let hidden = symbols.iter().find(|s| s.name == "Hidden").expect("Hidden");
    assert!(shown.exported);
    assert!(!hidden.exported);
    assert_eq!(shown.start_line, 1);
    assert_eq!(hidden.start_line, 2);
}

#[test]
fn imports_come_from_rust_use_declarations_only() {
    let tree = file(vec![
        use_decl("crate::widget::Widget", 0),
        use_decl("std::fmt", 1),
        use_decl("crate::{a::B, C}", 2),
    ]);
    let imports = extract_imports(&tree, "rust");
    let found: Vec<(&str, &str, usize)> = imports
        .iter()
        .map(|i| (i.path.as_str(), i.item.as_str(), i.start_line))
        .collect();
    assert_eq!(
        found,
        vec![
            ("crate::widget::Widget", "Widget", 1),
            ("crate::a::B", "B", 3),
            ("crate::C", "C", 3),
        ]
    );
    assert!(extract_imports(&tree, "python").is_empty());
    assert!(is_rust("rust"));
    assert!(!is_rust("Rust"));
}

#[test]
fn macro_token_trees_contribute_their_identifiers() {
    let token_tree = SyntaxNode {
        kind: "token_tree".to_string(),
        is_named: true,
        text: Some("(Widget, make)".to_string()),
        start_row: 0,
        end_row: 0,
        name_child: None,
        argument_child: None,
        children: vec![leaf("type_identifier", "Widget", 0), leaf("identifier", "make", 0)],
    };
    let invocation = SyntaxNode {
        kind: "macro_invocation".to_string(),
        is_named: true,
        text: Some("define!(Widget, make)".to_string()),
        start_row: 0,
        end_row: 0,
        name_child: None,
        argument_child: None,
        children: vec![leaf("identifier", "define", 0), token_tree],
    };
    let tree = file(vec![invocation]);
    assert_eq!(extract_macro_names(&tree, "rust"), vec!["Widget", "make"]);
    assert!(extract_macro_names(&tree, "go").is_empty());
}

#[test]
fn a_declaration_name_falls_back_to_an_identifier_child() {
    let mut node = decl("function_item", "run", 0, 0, false);
    node.name_child = None;
    assert_eq!(declaration_name(&node).as_deref(), Some("run"));
    let nameless = SyntaxNode {
        children: vec![],
        ..decl("function_item", "x", 0, 0, false)
    };
    assert_eq!(declaration_name(&nameless), None);
}

#[test]
fn declaration_node_types_are_recognised_across_languages() {
    assert_eq!(kind_for("function_item"), Some(SymbolKind::Function));
    assert_eq!(kind_for("mod_item"), Some(SymbolKind::Module));
    assert_eq!(kind_for("call_expression"), None);
    assert!(is_declaration("class"));
    assert!(is_declaration("function_definition"));
    assert!(is_declaration("method_declaration"));
    assert!(is_declaration("type_alias_declaration") == false);
    assert!(!is_declaration("identifier"));
}

#[test]
fn cache_length_follows_insert_and_retain() {
    let mut cache = ParseCache::new();
    cache.insert("a".to_string(), ParsedFile::empty());
    cache.insert("b".to_string(), ParsedFile::empty());
    assert_eq!(cache.len(), 2);
    cache.insert("a".to_string(), ParsedFile::empty());
    assert_eq!(cache.len(), 2, "replacing an entry does not grow the cache");
    cache.retain_fingerprints(&vec!["b".to_string(), "c".to_string()]);
    assert_eq!(cache.len(), 1);
    assert!(!cache.is_empty());
}
