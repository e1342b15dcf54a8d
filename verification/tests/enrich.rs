use creature_context::atlas::{
    AtlasEntity, AtlasSnapshot, EntityKind, EvidenceOutcome, FactSource, GreenAxis, HoleReason,
    ProofStrength, RelationshipKind, RelationshipPlane, ScopeScale, SocketDirection,
    SocketResolution,
};
use creature_context::parsers::adapter::ParsedImport;
use creature_context::parsers::incremental::{ParseCache, ParsedFile};
use creature_context::parsers::adapter::ParsedSymbol;
use creature_context::parsers::constructs::{Construct, NativeConstruct};
use creature_context::ids::uuid_text;
use creature_context::parsers::enrich::{
    construct_label, contains_edge, contains_edge_id, decimal, deterministic_uuid, enrich_with_parse,
    entity_kind, file_targets, leaf_name, lookup_cached, provides_socket_id,
    relax_unprovable_holes, requires_socket, requires_socket_id, socket_shape, store_parse,
    symbol_entity, symbol_entity_id,
};

fn reference_uuid(key: &str) -> u128 {
    let hash = blake3::hash(key.as_bytes());
    let mut bytes = [0u8; 16];
    bytes.copy_from_slice(&hash.as_bytes()[..16]);
    uuid::Uuid::from_bytes(bytes).as_u128()
}

#[test]
fn the_leaf_name_is_the_last_non_empty_segment() {
    assert_eq!(leaf_name("crate::widget::Widget"), "Widget");
    assert_eq!(leaf_name("pkg.module.Thing"), "Thing");
    assert_eq!(leaf_name("a/b/c"), "c");
    assert_eq!(leaf_name("trailing::"), "trailing");
    assert_eq!(leaf_name("plain"), "plain");
    assert_eq!(leaf_name("::"), "::");
    assert_eq!(leaf_name(""), "");
}

#[test]
fn constructs_map_to_entity_kinds() {
    let shared = |s: &str| Construct::Shared(s.to_string());
    assert_eq!(entity_kind(&shared("function")), EntityKind::Function);
    assert_eq!(entity_kind(&shared("method")), EntityKind::Function);
    assert_eq!(entity_kind(&shared("test")), EntityKind::Test);
    assert_eq!(entity_kind(&shared("product_type")), EntityKind::Type);
    assert_eq!(entity_kind(&shared("behavioral_contract")), EntityKind::Type);
    assert_eq!(entity_kind(&shared("module")), EntityKind::Component);
    assert_eq!(
        entity_kind(&Construct::Native(NativeConstruct::new("rust", "macro_definition"))),
        EntityKind::Component
    );
}

#[test]
fn construct_labels_name_shared_or_native_constructs() {
    assert_eq!(construct_label(&Construct::Shared("function".to_string())), "function");
    assert_eq!(
        construct_label(&Construct::Native(NativeConstruct::new("rust", "macro_definition"))),
        "native:macro_definition"
    );
}

#[test]
fn numbers_and_uuids_render_as_std_and_uuid_display_them() {
    for n in [0usize, 7, 10, 99, 1234567, usize::MAX] {
        assert_eq!(decimal(n), n.to_string());
    }
    for id in [0u128, 1, u128::MAX, 0x67e5504410b1426f9247bb680e5fe0c8] {
        assert_eq!(uuid_text(id), uuid::Uuid::from_u128(id).to_string());
    }
}

#[test]
fn derived_ids_take_the_leading_digest_bytes() {
    assert_eq!(deterministic_uuid("contains/x/y"), reference_uuid("contains/x/y"));
    assert_ne!(deterministic_uuid("a"), deterministic_uuid("b"));
}

#[test]
fn the_same_file_symbol_and_line_always_yield_the_same_id() {
    let file = 0x0191d5f07c3a7d2e8f000123456789ab_u128;
    let a = symbol_entity_id(file, "make_widget", 8);
    assert_eq!(a, symbol_entity_id(file, "make_widget", 8));
    assert_ne!(a, symbol_entity_id(file, "make_widget", 9));
    let key = format!("{}/make_widget/8", uuid::Uuid::from_u128(file));
    assert_eq!(a, reference_uuid(&key));
}

#[test]
fn edge_and_socket_ids_derive_from_their_keys() {
    let file = 11u128;
    let symbol = 22u128;
    let f = uuid::Uuid::from_u128(file);
    let s = uuid::Uuid::from_u128(symbol);
    assert_eq!(contains_edge_id(file, symbol), reference_uuid(&format!("contains/{f}/{s}")));
    assert_eq!(provides_socket_id(symbol, "Widget"), reference_uuid(&format!("provides/{s}/Widget")));
    assert_eq!(
        requires_socket_id(file, "crate::widget::Widget", 3),
        reference_uuid(&format!("requires/{f}/crate::widget::Widget/3"))
    );
}

#[test]
fn a_socket_shape_hashes_name_signature_and_version() {
    let shape = socket_shape("crate::widget::Widget", "product_type");
    assert_eq!(shape.qualified_name, "crate::widget::Widget");
    assert_eq!(shape.structural_signature, "product_type");
    assert_eq!(shape.version, "1");
    assert_eq!(
        shape.hash,
        blake3::hash(b"crate::widget::Widget|product_type|1").to_hex().to_string()
    );
}

#[test]
fn a_symbol_becomes_a_moon_under_its_file() {
    let symbol = ParsedSymbol {
        name: "Widget".to_string(),
        construct: Construct::Shared("product_type".to_string()),
        start_line: 4,
        end_line: 6,
        exported: true,
    };
    let e = symbol_entity(5, 1, "src/lib.rs", &symbol, "snap-1");
    assert_eq!(e.id, 5);
    assert_eq!(e.scale, ScopeScale::Moon);
    assert_eq!(e.kind, EntityKind::Type);
    assert_eq!(e.canonical_name, "Widget");
    assert_eq!(e.relative_path.as_deref(), Some("src/lib.rs"));
    assert_eq!(e.parent_id, Some(1));
    assert_eq!(e.structural_fingerprint, "product_type");
    assert!(e.green.is_none());
    assert!(e.deterministic_summary.is_empty());
    assert_eq!(e.sockets.len(), 1, "an exported declaration provides its shape");
    assert_eq!(e.sockets[0].direction, SocketDirection::Provides);
    assert_eq!(e.sockets[0].id, provides_socket_id(5, "Widget"));
    assert_eq!(e.sockets[0].shape.structural_signature, "product_type");
    assert_eq!(e.sockets[0].snapshot_id, "snap-1");
    assert_eq!(e.sockets[0].source_id, "creature-context-parsers");
    assert_eq!(e.snapshot_id, "snap-1");
    assert_eq!(e.source_spans.len(), 1);
    assert_eq!(e.source_spans[0].start_line, 4);
    assert_eq!(e.source_spans[0].end_line, 6);
    assert_eq!(e.source_spans[0].relative_path, "src/lib.rs");
    let axes: Vec<GreenAxis> = e.local_evidence.iter().map(|ev| ev.axis).collect();
    assert_eq!(axes, vec![GreenAxis::Content, GreenAxis::Structure]);
    assert!(e
        .local_evidence
        .iter()
        .all(|ev| ev.outcome == EvidenceOutcome::Pass
            && ev.source == FactSource::Parsed
            && ev.proof == ProofStrength::Syntax
            && ev.confidence == 1000
            && ev.snapshot_id == "snap-1"));
    let private = ParsedSymbol { exported: false, ..symbol };
    assert!(symbol_entity(6, 1, "src/lib.rs", &private, "snap-1").sockets.is_empty());
}

fn file_entity(id: u128, path: &str, fingerprint: &str) -> AtlasEntity {
    AtlasEntity {
        id,
        scale: ScopeScale::Moon,
        kind: EntityKind::File,
        canonical_name: path.to_string(),
        relative_path: Some(path.to_string()),
        parent_id: None,
        protected_decision_ids: vec![],
        sockets: vec![],
        source_spans: vec![],
        structural_fingerprint: fingerprint.to_string(),
        local_evidence: vec![],
        green: None,
        deterministic_summary: String::new(),
        inferred_summaries: vec![],
        snapshot_id: String::new(),
        observed_at: String::new(),
    }
}

fn widget_parse() -> ParsedFile {
    let mut parsed = ParsedFile::empty();
    parsed.symbols.push(ParsedSymbol {
        name: "Widget".to_string(),
        construct: Construct::Shared("product_type".to_string()),
        start_line: 4,
        end_line: 6,
        exported: true,
    });
    parsed.symbols.push(ParsedSymbol {
        name: "make".to_string(),
        construct: Construct::Shared("function".to_string()),
        start_line: 8,
        end_line: 9,
        exported: false,
    });
    parsed.imports.push(ParsedImport {
        path: "crate::model::Entity".to_string(),
        item: "Entity".to_string(),
        intra_repo: true,
        start_line: 1,
    });
    parsed.macro_names.push("generated_thing".to_string());
    parsed
}

#[test]
fn a_scanned_file_gains_its_declarations_edges_and_required_sockets() {
    let mut snapshot = AtlasSnapshot {
        id: "snap".to_string(),
        timestamp: "t".to_string(),
        entities: vec![file_entity(1, "src/lib.rs", "abc"), file_entity(2, "README.md", "")],
        edges: vec![],
        records: vec![],
    };
    let mut defined = vec!["earlier".to_string()];
    let added = enrich_with_parse(&mut snapshot, 1, "src/lib.rs", &widget_parse(), &mut defined);
    assert_eq!(added, 2);
    assert_eq!(snapshot.entities.len(), 4);
    let widget = &snapshot.entities[2];
    assert_eq!(widget.id, symbol_entity_id(1, "Widget", 4));
    assert_eq!(widget.parent_id, Some(1));
    assert_eq!(snapshot.entities[3].canonical_name, "make");
    assert_eq!(snapshot.edges.len(), 2);
    assert_eq!(snapshot.edges[0].kind, RelationshipKind::Contains);
    assert_eq!(snapshot.edges[0].plane, RelationshipPlane::Observed);
    assert_eq!(snapshot.edges[0].target_entity_id, widget.id);
    assert_eq!(snapshot.edges[1].id, contains_edge_id(1, snapshot.entities[3].id));
    let file = &snapshot.entities[0];
    assert_eq!(file.sockets.len(), 1);
    assert_eq!(file.sockets[0].direction, SocketDirection::Requires);
    assert_eq!(file.sockets[0].shape.qualified_name, "crate::model::Entity");
    assert_eq!(file.sockets[0].id, requires_socket_id(1, "crate::model::Entity", 1));
    assert!(snapshot.entities[1].sockets.is_empty());
    assert_eq!(defined, vec!["earlier", "Widget", "make", "generated_thing"]);
}

#[test]
fn only_moon_files_with_paths_are_enrichment_targets() {
    let mut planet = file_entity(3, "src", "");
    planet.scale = ScopeScale::Planet;
    let mut pathless = file_entity(4, "x", "");
    pathless.relative_path = None;
    let targets = file_targets(&vec![file_entity(1, "src/a.rs", "f1"), planet, pathless]);
    assert_eq!(targets, vec![(1, "src/a.rs".to_string(), "f1".to_string())]);
}

#[test]
fn a_file_without_a_fingerprint_is_never_looked_up_or_cached() {
    let mut cache = ParseCache::new();
    store_parse(&mut cache, "", widget_parse());
    assert!(cache.is_empty());
    assert!(lookup_cached(&mut cache, "").is_none());
    assert_eq!(cache.stats(), (0, 0));
    store_parse(&mut cache, "abc", widget_parse());
    assert_eq!(lookup_cached(&mut cache, "abc").expect("hit").symbols.len(), 2);
    assert!(lookup_cached(&mut cache, "def").is_none());
    assert_eq!(cache.stats(), (1, 1));
}

#[test]
fn a_no_match_hole_for_a_name_defined_out_of_sight_is_relaxed() {
    let import = |path: &str| ParsedImport {
        path: path.to_string(),
        item: String::new(),
        intra_repo: true,
        start_line: 2,
    };
    let hole = |reason| SocketResolution::Hole {
        reason,
        candidates: vec![],
    };
    let mut hidden = requires_socket(1, &import("crate::macros::generated_thing"), "snap-1");
    hidden.resolution = hole(HoleReason::NoMatch);
    let mut absent = requires_socket(1, &import("crate::nowhere::Ghost"), "snap-1");
    absent.resolution = hole(HoleReason::NoMatch);
    let mut ambiguous = requires_socket(1, &import("crate::a::generated_thing"), "snap-1");
    ambiguous.resolution = hole(HoleReason::Ambiguous);
    let mut file = file_entity(1, "src/lib.rs", "abc");
    file.sockets = vec![hidden, absent, ambiguous];
    let mut entities = vec![file];
    relax_unprovable_holes(&mut entities, &vec!["generated_thing".to_string()]);
    let sockets = &entities[0].sockets;
    assert!(matches!(sockets[0].resolution, SocketResolution::Unresolved));
    assert!(matches!(
        sockets[1].resolution,
        SocketResolution::Hole { reason: HoleReason::NoMatch, .. }
    ));
    assert!(matches!(
        sockets[2].resolution,
        SocketResolution::Hole { reason: HoleReason::Ambiguous, .. }
    ));
    assert_eq!(entities[0].canonical_name, "src/lib.rs");
}

#[test]
fn contains_edges_are_observed_and_not_required() {
    let edge = contains_edge(1, 2, "snap-1");
    assert_eq!(edge.evidence.len(), 1);
    assert_eq!(edge.evidence[0].axis, GreenAxis::Integration);
    assert_eq!(edge.evidence[0].outcome, EvidenceOutcome::Pass);
    assert_eq!(edge.snapshot_id, "snap-1");
    assert_eq!(edge.confidence, 1000);
    assert_eq!(edge.source_entity_id, 1);
    assert_eq!(edge.target_entity_id, 2);
    assert!(!edge.required);
}
