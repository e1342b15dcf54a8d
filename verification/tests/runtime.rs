use creature_context::runtime::coordinator::{after_reconcile, Coordinator, CoordinatorConfig};
use creature_context::runtime::events::{RuntimeEvent, RuntimeEventKind};
use creature_context::runtime::watcher::{
    classify, failure_event, is_ignored, normalise_separators, path_event, WatchKind,
};

fn file_event(path: &str) -> RuntimeEvent {
    RuntimeEvent::new(RuntimeEventKind::FileModified, "2026-08-05T00:00:00Z").with_path(path)
}

#[test]
fn one_atomic_save_produces_one_reconciliation() {
    let mut coordinator = Coordinator::new(CoordinatorConfig { debounce_ms: 250 });

    for _ in 0..100 {
        coordinator.enqueue(file_event("src/main.rs"));
    }

    assert!(coordinator.settle(), "a non-empty batch must reconcile");
    assert_eq!(
        coordinator.reconciliations(),
        1,
        "one hundred events for one save must produce one reconciliation, not one hundred"
    );
}

#[test]
fn an_empty_batch_does_not_reconcile() {
    let mut coordinator = Coordinator::default();
    assert!(!coordinator.settle(), "nothing pending means nothing to do");
    assert_eq!(coordinator.reconciliations(), 0);
}

#[test]
fn an_overflow_event_forces_a_full_scan() {
    let mut coordinator = Coordinator::default();
    coordinator.enqueue(RuntimeEvent::new(
        RuntimeEventKind::Overflow,
        "2026-08-05T00:00:00Z",
    ));

    assert!(coordinator.settle());
    assert_eq!(coordinator.reconciliations(), 1);
    assert!(
        coordinator.last_scan_was_bounded(),
        "a dropped-event overflow means the stream is untrustworthy and a full rescan is required"
    );
}

#[test]
fn a_plain_file_change_does_not_force_a_full_scan() {
    let mut coordinator = Coordinator::default();
    coordinator.enqueue(file_event("src/main.rs"));

    assert!(coordinator.settle());
    assert!(
        !coordinator.last_scan_was_bounded(),
        "a single file change is a targeted update, not a full rescan"
    );
}

#[test]
fn an_applied_event_is_not_reprocessed_after_restart() {
    let mut coordinator = Coordinator::default();
    let event = file_event("src/main.rs");
    let id = event.id;

    coordinator.mark_applied(&id);
    coordinator.enqueue(event);

    assert!(
        !coordinator.settle(),
        "the only pending event was already applied, so there is nothing to reconcile"
    );
    assert_eq!(coordinator.reconciliations(), 0);
    assert!(!coordinator.should_apply(&id));
}

#[test]
fn a_mixed_batch_reconciles_only_unapplied_events() {
    let mut coordinator = Coordinator::default();
    let done = file_event("src/done.rs");
    let fresh = file_event("src/fresh.rs");

    coordinator.mark_applied(&done.id);
    coordinator.enqueue(done);
    coordinator.enqueue(fresh);

    assert!(
        coordinator.settle(),
        "one unapplied event remains, so reconciliation must run"
    );
    assert_eq!(coordinator.reconciliations(), 1);
}

#[test]
fn stream_failure_kinds_demand_full_reconciliation() {
    for kind in [
        RuntimeEventKind::Overflow,
        RuntimeEventKind::RootUnavailable,
        RuntimeEventKind::PermissionChanged,
        RuntimeEventKind::RescanRequired,
    ] {
        assert!(
            RuntimeEvent::new(kind, "2026-08-05T00:00:00Z").requires_full_reconciliation(),
            "{kind:?} must force reconciliation rather than being handled as one path"
        );
    }
    for kind in [
        RuntimeEventKind::FileAdded,
        RuntimeEventKind::FileModified,
        RuntimeEventKind::FileRemoved,
    ] {
        assert!(
            !RuntimeEvent::new(kind, "2026-08-05T00:00:00Z").requires_full_reconciliation(),
            "{kind:?} describes one path and must not trigger a full rescan"
        );
    }
}

#[test]
fn the_default_debounce_is_a_quarter_second() {
    assert_eq!(CoordinatorConfig::default().debounce_ms, 250);
    let coordinator = Coordinator::default();
    assert_eq!(
        coordinator.debounce_duration(),
        std::time::Duration::from_millis(250)
    );
    let slow = Coordinator::new(CoordinatorConfig { debounce_ms: 1200 });
    assert_eq!(slow.debounce_duration(), std::time::Duration::from_millis(1200));
}

#[test]
fn settling_keeps_the_batch_until_it_is_cleared() {
    let mut coordinator = Coordinator::default();
    coordinator.enqueue(file_event("src/a.rs"));
    assert_eq!(coordinator.pending_events().len(), 1);
    assert!(coordinator.settle());
    assert_eq!(
        coordinator.pending_events().len(),
        1,
        "settling decides; the batch stays until the service has applied it"
    );
    coordinator.clear_pending();
    coordinator.enqueue(file_event("src/b.rs"));
    assert!(coordinator.settle());
    assert_eq!(coordinator.reconciliations(), 2);
    coordinator.clear_pending();
    assert!(!coordinator.settle());
    assert_eq!(coordinator.reconciliations(), 2);
}

#[test]
fn clearing_pending_drops_the_batch_without_reconciling() {
    let mut coordinator = Coordinator::default();
    coordinator.enqueue(file_event("src/a.rs"));
    coordinator.clear_pending();
    assert!(coordinator.pending_events().is_empty());
    assert!(!coordinator.settle());
    assert_eq!(coordinator.reconciliations(), 0);
}

#[test]
fn an_unapplied_event_should_be_applied() {
    let coordinator = Coordinator::default();
    let event = file_event("src/main.rs");
    assert!(coordinator.should_apply(&event.id));
}

#[test]
fn builders_keep_the_event_identity() {
    let event = RuntimeEvent::new(RuntimeEventKind::FileAdded, "t0");
    let id = event.id;
    let with = event.with_path("src/x.rs");
    assert_eq!(with.id, id);
    assert_eq!(with.entry_id(), id);
    assert_eq!(with.relative_path.as_deref(), Some("src/x.rs"));
    assert_eq!(with.observed_at, "t0");
    let payload = serde_json::Value::String("ok".to_string());
    let carried = with.with_payload(payload.clone());
    assert_eq!(carried.id, id);
    assert_eq!(carried.payload, Some(payload));
}

#[test]
fn fresh_events_have_distinct_ids() {
    let a = RuntimeEvent::new(RuntimeEventKind::FileAdded, "t0");
    let b = RuntimeEvent::new(RuntimeEventKind::FileAdded, "t0");
    assert_ne!(a.id, b.id);
}

#[test]
fn raw_notification_classes_map_to_event_kinds() {
    assert_eq!(classify(WatchKind::Create), Some(RuntimeEventKind::FileAdded));
    assert_eq!(classify(WatchKind::Modify), Some(RuntimeEventKind::FileModified));
    assert_eq!(classify(WatchKind::Remove), Some(RuntimeEventKind::FileRemoved));
    assert_eq!(classify(WatchKind::Any), Some(RuntimeEventKind::RescanRequired));
    assert_eq!(classify(WatchKind::Access), None);
    assert_eq!(classify(WatchKind::Other), None);
}

#[test]
fn own_output_and_excluded_directories_are_ignored() {
    assert!(is_ignored("ATLAS.idx"));
    assert!(is_ignored("src/ATLAS.idx"));
    assert!(is_ignored("src/.ATLAS.idx.tmp"));
    assert!(is_ignored(".git/HEAD"));
    assert!(is_ignored("crates/x/target/debug/build"));
    assert!(is_ignored(".creature/journal.jsonl"));
    assert!(!is_ignored("src/main.rs"));
    assert!(!is_ignored("src/targets.rs"));
}

#[test]
fn windows_separators_are_normalised_before_filtering() {
    assert_eq!(normalise_separators("src\\lib.rs"), "src/lib.rs");
    assert!(path_event(RuntimeEventKind::FileModified, "target\\debug\\x", "t").is_none());
    let event = path_event(RuntimeEventKind::FileModified, "src\\lib.rs", "t").expect("event");
    assert_eq!(event.kind, RuntimeEventKind::FileModified);
    assert_eq!(event.relative_path.as_deref(), Some("src/lib.rs"));
    assert_eq!(event.observed_at, "t");
}

#[test]
fn a_watcher_failure_becomes_an_overflow() {
    let event = failure_event("t1");
    assert_eq!(event.kind, RuntimeEventKind::Overflow);
    assert!(event.requires_full_reconciliation());
    assert!(event.relative_path.is_none());
}

#[test]
fn a_committed_reconcile_applies_the_batch_in_order() {
    let mut coordinator = Coordinator::default();
    let a = file_event("src/a.rs");
    let b = file_event("src/b.rs");
    let ids = vec![a.id, b.id];
    coordinator.enqueue(a);
    coordinator.enqueue(b);
    assert!(coordinator.settle());
    let applied = after_reconcile(&mut coordinator, true);
    assert_eq!(applied, ids);
    assert!(coordinator.pending_events().is_empty());
    assert!(ids.iter().all(|id| !coordinator.should_apply(id)));
    assert_eq!(coordinator.reconciliations(), 1);
}

#[test]
fn a_failed_reconcile_leaves_the_batch_pending() {
    let mut coordinator = Coordinator::default();
    let a = file_event("src/a.rs");
    let id = a.id;
    coordinator.enqueue(a);
    assert!(coordinator.settle());
    let applied = after_reconcile(&mut coordinator, false);
    assert!(applied.is_empty());
    assert_eq!(coordinator.pending_events().len(), 1);
    assert!(coordinator.should_apply(&id));
    // The next settle retries it.
    assert!(coordinator.settle());
    assert_eq!(coordinator.reconciliations(), 2);
}
