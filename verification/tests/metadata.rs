use creature_context::runtime::platform::{capabilities, watcher_capability};
use creature_context::atlas::{
    AtlasEntity, AtlasSnapshot, EntityKind, GreenAssessment, GreenCode, ScopeScale,
};
use creature_context::model::CapabilityState;
use creature_context::runtime::metadata::{apply, capability, project, tag_label, TagAssignment};
use creature_context::runtime::semantic::{model_available, protected, work_items};

fn entity(id: u128, path: &str, overall: GreenCode) -> AtlasEntity {
    AtlasEntity {
        id,
        scale: ScopeScale::Moon,
        kind: EntityKind::File,
        canonical_name: path.into(),
        relative_path: Some(path.into()),
        parent_id: None,
        protected_decision_ids: vec![],
        sockets: vec![],
        source_spans: vec![],
        structural_fingerprint: String::new(),
        local_evidence: vec![],
        green: Some(GreenAssessment {
            overall,
            axes: vec![],
        }),
        deterministic_summary: String::new(),
        inferred_summaries: vec![],
        snapshot_id: String::new(),
        observed_at: String::new(),
    }
}

fn snapshot(entities: Vec<AtlasEntity>) -> AtlasSnapshot {
    AtlasSnapshot {
        id: "snap-metadata".into(),
        timestamp: "2026-08-09T00:00:00Z".into(),
        entities,
        edges: vec![],
        records: vec![],
    }
}

#[test]
fn the_projection_derives_one_tag_per_evaluated_file() {
    let snap = snapshot(vec![
        entity(1, "src/a.rs", GreenCode::Green),
        entity(2, "src/b.rs", GreenCode::Red),
    ]);
    let mut assignments = project(&snap);
    assignments.sort_by(|x, y| x.relative_path.cmp(&y.relative_path));

    assert_eq!(
        assignments,
        vec![
            TagAssignment {
                relative_path: "src/a.rs".into(),
                tag: "Green".into()
            },
            TagAssignment {
                relative_path: "src/b.rs".into(),
                tag: "Red".into()
            },
        ]
    );
}

#[test]
fn an_unevaluated_entity_gets_no_tag() {
    let mut e = entity(3, "src/c.rs", GreenCode::Green);
    e.green = None;
    let assignments = project(&snapshot(vec![e]));
    assert!(
        assignments.is_empty(),
        "no Green, no projection — the tag reflects an assessment, not a guess"
    );
}

#[test]
fn tag_labels_cover_every_code() {
    assert_eq!(tag_label(GreenCode::Green), "Green");
    assert_eq!(tag_label(GreenCode::Yellow), "Yellow");
    assert_eq!(tag_label(GreenCode::Red), "Red");
    assert_eq!(tag_label(GreenCode::Unknown), "Unknown");
}

#[test]
fn the_platform_reports_its_true_capability() {
    assert_eq!(capability(), CapabilityState::Unavailable);
}

#[test]
fn an_entity_without_a_path_gets_no_tag() {
    let mut e = entity(4, "src/d.rs", GreenCode::Yellow);
    e.relative_path = None;
    let kept = entity(5, "src/e.rs", GreenCode::Yellow);
    let assignments = project(&snapshot(vec![e, kept]));
    assert_eq!(assignments.len(), 1);
    assert_eq!(assignments[0].relative_path, "src/e.rs");
    assert_eq!(assignments[0].tag, "Yellow");
}

#[test]
fn applying_without_an_adapter_tags_nothing() {
    let snap = snapshot(vec![entity(6, "src/a.rs", GreenCode::Green)]);
    assert_eq!(apply("/project", &snap), 0);
}

fn symbol(id: u128, kind: EntityKind) -> AtlasEntity {
    let mut e = entity(id, "src/lib.rs", GreenCode::Unknown);
    e.kind = kind;
    e.green = None;
    e
}

#[test]
fn work_items_are_unsummarised_code_symbols_within_budget() {
    let mut summarised = symbol(3, EntityKind::Function);
    summarised
        .inferred_summaries
        .push(creature_context::atlas::InferredSummary {
            value: "reads".into(),
            producer: "p".into(),
            model_id: "m".into(),
            snapshot_id: "s".into(),
        });
    let mut file = symbol(5, EntityKind::File);
    file.scale = ScopeScale::Planet;
    let snap = snapshot(vec![
        symbol(1, EntityKind::Function),
        symbol(2, EntityKind::Type),
        summarised,
        symbol(4, EntityKind::Test),
        file,
        symbol(6, EntityKind::Component),
    ]);
    assert_eq!(work_items(&snap, 10), vec![1, 2, 6]);
    assert_eq!(work_items(&snap, 2), vec![1, 2]);
    assert!(work_items(&snap, 0).is_empty());
}

#[test]
fn entities_with_protected_decisions_are_protected() {
    let mut guarded = symbol(7, EntityKind::Function);
    guarded.protected_decision_ids.push(99);
    let snap = snapshot(vec![symbol(8, EntityKind::Function), guarded]);
    assert_eq!(protected(&snap), vec![7]);
    assert!(!model_available("linux", true));
    assert!(!model_available("windows", false));
    assert!(model_available("windows", true));
    assert!(!model_available(
        "windows",
        creature_context::model::platform::available()
    ), "without the native bridge no model is ready");
}

#[test]
fn no_platform_reports_an_unrun_capability_as_verified() {
    let linux = capabilities("linux");
    assert_eq!(linux.os, "linux");
    assert_eq!(linux.metadata, CapabilityState::Unavailable);
    assert_eq!(linux.watcher, CapabilityState::Unavailable);
    assert_eq!(linux.supervisor, CapabilityState::Unavailable);
    let windows = capabilities("windows");
    assert_eq!(windows.metadata, CapabilityState::Unavailable);
    assert_eq!(windows.watcher, CapabilityState::ImplementedUnverified);
    assert_eq!(windows.supervisor, CapabilityState::ImplementedUnverified);
    assert_eq!(watcher_capability("macos"), CapabilityState::Unavailable);
}
