use creature_context::atlas::{AuthoritySource, ContextRecord, ContextRecordType};
use creature_context::atlas::{
    AtlasEdge, AtlasEntity, AtlasSnapshot, EntityKind, GreenAssessment, GreenCode, InferredSummary,
    RelationshipKind, ScopeScale,
};
use creature_context::model::lane::{apply_outcomes, AdmissionOutcome, AdmittedCandidate};
use creature_context::atlas::RelationshipPlane;
use creature_context::model::calibration::{tally, CandidatePayload, Expectation, TaskRun};
use creature_context::model::lane::LaneReport;
use creature_context::model::platform::{available, detect_state, detected_state, summarize};
use creature_context::model::CapabilityState;

#[test]
fn reports_unavailable_without_the_bridge() {
    assert!(!available());
    assert_eq!(detect_state(), CapabilityState::Unavailable);
}

#[test]
fn proposes_nothing_without_the_bridge() {
    assert!(summarize("In 12 words or fewer, describe what the Function named 'read_file' does.").is_none());
}

#[test]
fn readiness_alone_never_verifies_a_model() {
    assert_eq!(detected_state(true), CapabilityState::ImplementedUnverified);
    assert_eq!(detected_state(false), CapabilityState::Unavailable);
}

#[test]
fn a_summary_containing_the_token_satisfies_case_insensitively() {
    let expectation = Expectation::SummaryContains("File".to_string());
    let outputs = vec![CandidatePayload::Summary {
        value: "Reads a FILE from disk".to_string(),
    }];
    assert!(expectation.satisfied_by(&outputs));
}

#[test]
fn a_summary_without_the_token_does_not_satisfy() {
    let expectation = Expectation::SummaryContains("email".to_string());
    let outputs = vec![
        CandidatePayload::Summary {
            value: "Computes a total".to_string(),
        },
        CandidatePayload::Context,
        CandidatePayload::Edge {
            plane: RelationshipPlane::Inferred,
        },
    ];
    assert!(!expectation.satisfied_by(&outputs));
    assert!(!expectation.satisfied_by(&vec![]));
}

#[test]
fn only_an_inferred_edge_satisfies_an_edge_expectation() {
    let expectation = Expectation::ProposesInferredEdge;
    assert!(!expectation.satisfied_by(&vec![CandidatePayload::Edge {
        plane: RelationshipPlane::Observed,
    }]));
    assert!(expectation.satisfied_by(&vec![
        CandidatePayload::Summary {
            value: "x".to_string()
        },
        CandidatePayload::Edge {
            plane: RelationshipPlane::Inferred
        },
    ]));
}

#[test]
fn an_empty_token_is_contained_in_any_summary() {
    let expectation = Expectation::SummaryContains(String::new());
    assert!(expectation.satisfied_by(&vec![CandidatePayload::Summary {
        value: String::new()
    }]));
}

#[test]
fn a_fresh_lane_report_counts_nothing() {
    assert_eq!(
        LaneReport::default(),
        LaneReport {
            admitted: 0,
            review: 0,
            rejected: 0
        }
    );
}




fn moon(id: u128, name: &str) -> AtlasEntity {
    AtlasEntity {
        id,
        scale: ScopeScale::Moon,
        kind: EntityKind::Function,
        canonical_name: name.to_string(),
        relative_path: Some(format!("src/{name}.rs")),
        parent_id: None,
        protected_decision_ids: vec![],
        sockets: vec![],
        source_spans: vec![],
        structural_fingerprint: "function".to_string(),
        local_evidence: vec![],
        green: Some(GreenAssessment {
            overall: GreenCode::Green,
            axes: vec![],
        }),
        deterministic_summary: "reads a file".to_string(),
        inferred_summaries: vec![],
        snapshot_id: String::new(),
        observed_at: String::new(),
    }
}

fn summary(text: &str) -> InferredSummary {
    InferredSummary {
        value: text.to_string(),
        producer: "partner".to_string(),
        model_id: "model".to_string(),
        snapshot_id: "snap".to_string(),
    }
}

fn lane_snapshot(entities: Vec<AtlasEntity>) -> AtlasSnapshot {
    AtlasSnapshot {
        id: "snap-lane".to_string(),
        timestamp: "2026-08-09T00:00:00Z".to_string(),
        entities,
        edges: vec![],
        records: vec![],
    }
}

#[test]
fn with_no_model_the_lane_is_idle_and_changes_nothing() {
    // A rules-only partner proposes nothing, so admission hands back nothing.
    let mut snap = lane_snapshot(vec![moon(1, "build")]);
    let before = snap.clone();
    let report = apply_outcomes(&mut snap, vec![]);
    assert_eq!(report.admitted, 0, "rules-only proposes nothing");
    assert_eq!(
        snap, before,
        "the snapshot is untouched — the deterministic lane stands alone"
    );
}

#[test]
fn an_admitted_summary_enriches_without_touching_deterministic_state() {
    let mut snap = lane_snapshot(vec![moon(1, "build")]);
    let id = snap.entities[0].id;
    let deterministic_before = snap.entities[0].deterministic_summary.clone();
    let green_before = snap.entities[0].green.clone();

    let report = apply_outcomes(
        &mut snap,
        vec![AdmissionOutcome::Admitted(AdmittedCandidate::Summary {
            entity_id: id,
            summary: summary("inferred: build assembles a widget"),
        })],
    );

    assert_eq!(report.admitted, 1);
    let e = &snap.entities[0];
    assert_eq!(
        e.inferred_summaries.len(),
        1,
        "the admitted summary is added as an inferred enrichment"
    );
    assert!(e.inferred_summaries[0].value.contains("assembles a widget"));
    assert_eq!(
        e.deterministic_summary, deterministic_before,
        "the deterministic summary is untouched"
    );
    assert_eq!(e.green, green_before, "Green is untouched by the model");
}

#[test]
fn a_proposal_over_a_protected_entity_is_held_for_review_not_applied() {
    // Admission holds a proposal over a protected entity for review.
    let mut snap = lane_snapshot(vec![moon(1, "build")]);
    let report = apply_outcomes(&mut snap, vec![AdmissionOutcome::Review]);

    assert_eq!(report.review, 1, "a protected target is queued for a human");
    assert_eq!(report.admitted, 0);
    assert!(
        snap.entities[0].inferred_summaries.is_empty(),
        "nothing was applied to a protected entity"
    );
}

#[test]
fn admitted_enrichment_is_applied_and_the_rest_only_counted() {
    let mut snapshot = AtlasSnapshot {
        id: "snap".to_string(),
        timestamp: "t".to_string(),
        entities: vec![moon(1, "read_file"), moon(2, "send_email")],
        edges: vec![],
        records: vec![],
    };
    let edge = AtlasEdge {
        id: 9,
        source_entity_id: 1,
        target_entity_id: 2,
        kind: RelationshipKind::DependsOn,
        plane: RelationshipPlane::Inferred,
        required: false,
        evidence: vec![],
        source_id: "partner".to_string(),
        confidence: 850,
        observed_at: "t".to_string(),
        snapshot_id: "snap".to_string(),
    };
    let report = apply_outcomes(
        &mut snapshot,
        vec![
            AdmissionOutcome::Admitted(AdmittedCandidate::Summary {
                entity_id: 2,
                summary: summary("sends an email"),
            }),
            AdmissionOutcome::Review,
            AdmissionOutcome::Admitted(AdmittedCandidate::Edge(edge)),
            AdmissionOutcome::Rejected,
            AdmissionOutcome::Rejected,
            AdmissionOutcome::Admitted(AdmittedCandidate::Summary {
                entity_id: 77,
                summary: summary("nobody"),
            }),
            AdmissionOutcome::Admitted(AdmittedCandidate::Context(ContextRecord {
                id: 40,
                record_type: ContextRecordType::Decision,
                value: "use blake3 for fingerprints".to_string(),
                scope_id: 1,
                source_id: "partner".to_string(),
                authority: AuthoritySource::Model,
                confidence: 700,
                snapshot_id: "snap".to_string(),
            })),
        ],
    );
    assert_eq!(
        report,
        LaneReport {
            admitted: 4,
            review: 1,
            rejected: 2
        }
    );
    assert!(snapshot.entities[0].inferred_summaries.is_empty());
    assert_eq!(snapshot.entities[1].inferred_summaries.len(), 1);
    assert_eq!(snapshot.entities[1].inferred_summaries[0].value, "sends an email");
    assert_eq!(snapshot.entities[1].deterministic_summary, "reads a file");
    assert_eq!(
        snapshot.entities[1].green.as_ref().map(|g| g.overall),
        Some(GreenCode::Green)
    );
    assert_eq!(snapshot.edges.len(), 1);
    assert_eq!(snapshot.edges[0].id, 9);
    assert_eq!(snapshot.records.len(), 1, "an admitted context record is appended");
    assert_eq!(snapshot.records[0].id, 40);
}

fn run(token: &str, outputs: Vec<CandidatePayload>, ext: Option<&str>) -> TaskRun {
    TaskRun {
        role: "contextual".to_string(),
        expectation: Expectation::SummaryContains(token.to_string()),
        structured: !outputs.is_empty(),
        attributed: false,
        outputs,
        extension: ext.map(|e| e.to_string()),
    }
}

#[test]
fn a_battery_tally_counts_correct_answers_per_role() {
    let summary = |v: &str| CandidatePayload::Summary { value: v.to_string() };
    let mut runs = vec![
        run("file", vec![summary("Reads a FILE from disk")], Some("rs")),
        run("email", vec![summary("sends mail")], Some("rs")),
        run("total", vec![], Some("py")),
        run("account", vec![summary("a user account")], None),
    ];
    runs.push(TaskRun {
        role: "structural".to_string(),
        expectation: Expectation::ProposesInferredEdge,
        outputs: vec![CandidatePayload::Edge { plane: RelationshipPlane::Observed }],
        structured: false,
        attributed: true,
        extension: Some("go".to_string()),
    });
    let t = tally(&runs);
    assert_eq!(
        t.per_role,
        vec![("contextual".to_string(), 2, 4), ("structural".to_string(), 0, 1)]
    );
    assert_eq!(t.structured, 3);
    assert_eq!(t.attributed, 1);
    assert_eq!(t.tested_languages, vec!["go".to_string(), "py".to_string(), "rs".to_string()]);
}

#[test]
fn an_empty_battery_tallies_nothing() {
    let t = tally(&vec![]);
    assert!(t.per_role.is_empty());
    assert_eq!((t.structured, t.attributed), (0, 0));
    assert!(t.tested_languages.is_empty());
}

#[test]
fn admitted_summaries_for_one_entity_arrive_in_order() {
    let mut snapshot = AtlasSnapshot {
        id: "snap".to_string(),
        timestamp: "t".to_string(),
        entities: vec![moon(1, "build")],
        edges: vec![],
        records: vec![],
    };
    let report = apply_outcomes(
        &mut snapshot,
        vec![
            AdmissionOutcome::Admitted(AdmittedCandidate::Summary { entity_id: 1, summary: summary("first") }),
            AdmissionOutcome::Rejected,
            AdmissionOutcome::Admitted(AdmittedCandidate::Summary { entity_id: 1, summary: summary("second") }),
        ],
    );
    assert_eq!(report.admitted, 2);
    let values: Vec<&str> = snapshot.entities[0].inferred_summaries.iter().map(|s| s.value.as_str()).collect();
    assert_eq!(values, vec!["first", "second"]);
}
