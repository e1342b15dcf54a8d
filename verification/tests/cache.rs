use creature_context::parsers::adapter::ParsedSymbol;
use creature_context::parsers::constructs::Construct;
use creature_context::parsers::incremental::{ParseCache, ParsedFile};

fn parsed(name: &str) -> ParsedFile {
    let mut p = ParsedFile::empty();
    p.symbols.push(ParsedSymbol {
        name: name.to_string(),
        construct: Construct::Shared("function".to_string()),
        start_line: 1,
        end_line: 2,
        exported: true,
    });
    p
}

#[test]
fn a_stored_parse_is_served_and_counted_as_a_hit() {
    let mut cache = ParseCache::new();
    assert!(cache.is_empty());
    cache.insert("abc".to_string(), parsed("f"));
    assert_eq!(cache.len(), 1);
    let hit = cache.get("abc").expect("hit");
    assert_eq!(hit.symbols[0].name, "f");
    assert_eq!(cache.stats(), (1, 0));
}

#[test]
fn an_unseen_fingerprint_is_a_miss() {
    let mut cache = ParseCache::new();
    assert!(cache.get("nope").is_none());
    assert!(cache.get("nope").is_none());
    assert_eq!(cache.stats(), (0, 2));
}

#[test]
fn reinserting_a_fingerprint_replaces_its_parse() {
    let mut cache = ParseCache::new();
    cache.insert("abc".to_string(), parsed("old"));
    cache.insert("abc".to_string(), parsed("new"));
    assert_eq!(cache.len(), 1);
    assert_eq!(cache.get("abc").expect("hit").symbols[0].name, "new");
}

#[test]
fn retaining_keeps_exactly_the_live_fingerprints() {
    let mut cache = ParseCache::new();
    cache.insert("a".to_string(), parsed("a"));
    cache.insert("b".to_string(), parsed("b"));
    cache.insert("c".to_string(), parsed("c"));
    cache.retain_fingerprints(&vec!["c".to_string(), "a".to_string(), "z".to_string()]);
    assert_eq!(cache.len(), 2);
    assert!(cache.get("b").is_none());
    assert_eq!(cache.get("a").expect("a").symbols[0].name, "a");
    assert_eq!(cache.get("c").expect("c").symbols[0].name, "c");
    assert_eq!(cache.stats(), (2, 1));
    cache.retain_fingerprints(&vec![]);
    assert!(cache.is_empty());
}

#[test]
fn an_empty_parse_holds_nothing() {
    let p = ParsedFile::empty();
    assert!(p.symbols.is_empty() && p.imports.is_empty() && p.macro_names.is_empty());
}
