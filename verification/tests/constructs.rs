use creature_context::parsers::constructs::{Construct, ConstructRegistry, NativeConstruct};

#[test]
fn a_member_resolves_to_its_shared_construct() {
    let registry = ConstructRegistry::default_registry();
    assert_eq!(
        registry.resolve("rust", "trait_item"),
        Construct::Shared("behavioral_contract".to_string())
    );
}

#[test]
fn an_unmapped_node_stays_native() {
    let registry = ConstructRegistry::default_registry();
    assert!(matches!(
        registry.resolve("rust", "nonsense"),
        Construct::Native(_)
    ));
}

#[test]
fn a_shared_construct_spans_languages() {
    let registry = ConstructRegistry::default_registry();
    let rust = registry.resolve("rust", "struct_item");
    let go = registry.resolve("go", "type_declaration");

    match (rust, go) {
        (Construct::Shared(a), Construct::Shared(b)) => {
            assert_eq!(a, "product_type");
            assert_eq!(b, "product_type");
        }
        other => panic!("both should resolve to the same shared construct, got {other:?}"),
    }
}

#[test]
fn an_unrecognised_node_type_stays_native() {
    let registry = ConstructRegistry::default_registry();
    match registry.resolve("rust", "some_unmapped_node") {
        Construct::Native(n) => {
            assert_eq!(n.language, "rust");
            assert_eq!(n.name, "some_unmapped_node");
        }
        Construct::Shared(s) => panic!("an unmapped node must stay native, got shared {s}"),
    }
}

#[test]
fn a_node_type_of_another_language_does_not_resolve_across_languages() {
    let registry = ConstructRegistry::default_registry();
    assert_eq!(
        registry.resolve("python", "trait_item"),
        Construct::Native(NativeConstruct::new("python", "trait_item"))
    );
}

#[test]
fn functions_resolve_in_several_languages() {
    let registry = ConstructRegistry::default_registry();
    assert_eq!(
        registry.resolve("rust", "function_item"),
        Construct::Shared("function".to_string())
    );
    assert_eq!(
        registry.resolve("python", "function_definition"),
        Construct::Shared("function".to_string())
    );
}

#[test]
fn the_default_catalogue_is_not_empty() {
    let registry = ConstructRegistry::default_registry();
    assert!(!registry.shared.is_empty());
    assert!(registry
        .shared
        .iter()
        .any(|s| s.canonical_name == "behavioral_contract"));
}
