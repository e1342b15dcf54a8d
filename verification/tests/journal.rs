use creature_context::runtime::events::{RuntimeEvent, RuntimeEventKind};
use creature_context::store::jsonl::{
    applied_ids, JournalFinding, JournalLine, JsonlError, JsonlJournal,
};
use std::collections::BTreeSet;

fn event(kind: RuntimeEventKind, path: &str) -> RuntimeEvent {
    RuntimeEvent::new(kind, "2026-08-05T00:00:00Z").with_path(path)
}

fn journal() -> JsonlJournal<RuntimeEvent> {
    JsonlJournal::at(
        "/p/.creature/journal.jsonl".to_string(),
        "/p/.creature/journal.applied".to_string(),
    )
}

fn good(e: RuntimeEvent) -> JournalLine<RuntimeEvent> {
    JournalLine {
        text: format!("{{\"id\":\"{}\"}}", e.id),
        bytes: 40,
        parsed: Ok(e),
    }
}

fn bad(text: &str) -> JournalLine<RuntimeEvent> {
    JournalLine {
        text: text.to_string(),
        bytes: text.len(),
        parsed: Err("EOF while parsing an object".to_string()),
    }
}

fn blank() -> JournalLine<RuntimeEvent> {
    JournalLine {
        text: "   ".to_string(),
        bytes: 3,
        parsed: Err("unused".to_string()),
    }
}

#[test]
fn appended_events_are_readable_and_reading_does_not_consume() {
    let recorded = event(RuntimeEventKind::FileModified, "src/main.rs");
    let id = recorded.id;
    let j = journal();
    let first = j.read_all(vec![good(recorded.clone())], true).expect("read");
    let again = j.read_all(vec![good(recorded)], true).expect("read again");
    assert_eq!(first.len(), 1);
    assert_eq!(again.len(), 1);
    assert_eq!(first[0].id, id);
}

#[test]
fn a_restart_does_not_reprocess_applied_events() {
    let first = event(RuntimeEventKind::FileModified, "src/a.rs");
    let second = event(RuntimeEventKind::FileAdded, "src/b.rs");
    let mut applied = BTreeSet::new();
    applied.insert(first.id);
    let j = journal();
    let lines = || vec![good(first.clone()), good(second.clone())];
    let pending = j.pending(lines(), true, &applied).expect("pending");
    assert_eq!(pending.len(), 1, "an applied event must not be handed back after a restart");
    assert_eq!(pending[0].id, second.id, "the unapplied event must survive");
    assert_eq!(j.read_all(lines(), true).expect("read").len(), 2);
}

#[test]
fn applying_every_event_leaves_nothing_pending() {
    let only = event(RuntimeEventKind::FileModified, "src/a.rs");
    let mut applied = BTreeSet::new();
    applied.insert(only.id);
    assert!(journal()
        .pending(vec![good(only)], true, &applied)
        .expect("pending")
        .is_empty());
}

#[test]
fn a_truncated_tail_is_reported_not_fabricated() {
    let (events, findings) = journal()
        .read_all_with_findings(vec![bad("{\"id\":\"0191")], false)
        .expect("read");
    assert!(events.is_empty(), "a partially written line is the absence of a record, not a record");
    assert_eq!(findings, vec![JournalFinding::TruncatedTail { bytes: 11 }]);
}

#[test]
fn corruption_before_the_final_line_is_an_error_not_a_truncation() {
    let tail = event(RuntimeEventKind::FileModified, "src/a.rs");
    let err = journal()
        .read_all_with_findings(vec![bad("{not json"), good(tail)], true)
        .unwrap_err();
    match err {
        JsonlError::Corrupt { path, line, message } => {
            assert_eq!(path, "/p/.creature/journal.jsonl");
            assert_eq!(line, 1);
            assert_eq!(message, "EOF while parsing an object");
        }
        other => panic!("expected corruption, got {other:?}"),
    }
}

#[test]
fn a_bad_final_line_of_a_cleanly_ended_file_is_corruption() {
    let err = journal()
        .read_all(vec![bad("{\"id\":")], true)
        .unwrap_err();
    assert!(matches!(err, JsonlError::Corrupt { line: 1, .. }));
}

#[test]
fn blank_lines_are_skipped() {
    let e = event(RuntimeEventKind::FileRemoved, "src/gone.rs");
    let id = e.id;
    let (events, findings) = journal()
        .read_all_with_findings(vec![blank(), good(e), blank()], true)
        .expect("read");
    assert_eq!(events.len(), 1);
    assert_eq!(events[0].id, id);
    assert!(findings.is_empty());
}

#[test]
fn applied_markers_are_the_lines_that_parse_as_uuids() {
    let a = "0191d5f0-7c3a-7d2e-8f00-0123456789ab";
    let b = "67e55044-10b1-426f-9247-bb680e5fe0c8";
    let contents = format!("{a}\n  {b}  \r\nnot-a-uuid\n\n");
    let ids = applied_ids(&contents);
    let expected: BTreeSet<u128> = [a, b]
        .iter()
        .map(|s| uuid::Uuid::parse_str(s).unwrap().as_u128())
        .collect();
    assert_eq!(ids, expected);
    assert!(applied_ids("").is_empty());
}

#[test]
fn a_journal_knows_its_paths() {
    let j = journal();
    assert_eq!(j.path, "/p/.creature/journal.jsonl");
    assert_eq!(j.applied_path, "/p/.creature/journal.applied");
}
