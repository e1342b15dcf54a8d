//! Normalised runtime events.
//!
//! Watcher notifications are hints, not truth. They are normalised into these
//! typed events, journalled before processing and marked applied after, so a
//! restart resumes rather than repeats. `Overflow`, `RootUnavailable`,
//! `PermissionChanged` and `RescanRequired` are first-class kinds, because a
//! filesystem event stream cannot be assumed complete.
use vstd::prelude::*;

verus! {

/// `serde_json::Value`: a carried payload the runtime never inspects.
#[verifier::external_type_specification]
#[verifier::external_body]
pub struct ExJsonValue(serde_json::Value);

#[derive(Clone, Copy, Debug, PartialEq, Eq, Hash, PartialOrd, Ord, Structural)]
pub enum RuntimeEventKind {
    FileAdded,
    FileModified,
    FileRemoved,
    FileRenamed,
    /// The notification stream dropped events.
    Overflow,
    /// The watched root disappeared — unmounted, deleted, or moved.
    RootUnavailable,
    /// Access to the root changed.
    PermissionChanged,
    /// A bounded rescan is required, whatever the reason.
    RescanRequired,
    /// Typed activity supplied by a client through `ingest`.
    ExternalActivity,
}

/// One observed event. `id` is the event's UUID as a 128-bit integer.
#[derive(Clone, Debug)]
pub struct RuntimeEvent {
    pub id: u128,
    pub kind: RuntimeEventKind,
    pub relative_path: Option<String>,
    pub observed_at: String,
    /// Typed payload carried by the event: an ingested build result or
    /// diagnostic is the evidence itself.
    pub payload: Option<serde_json::Value>,
}

/// `uuid::Uuid::now_v7`, as a 128-bit integer. The value depends on the clock
/// and on chance, so nothing is promised of it.
#[verifier::external_body]
fn fresh_event_id() -> u128 {
    uuid::Uuid::now_v7().as_u128()
}

/// The kinds that invalidate the current snapshot wholesale.
pub open spec fn demands_full_reconciliation(kind: RuntimeEventKind) -> bool {
    ||| kind == RuntimeEventKind::Overflow
    ||| kind == RuntimeEventKind::RootUnavailable
    ||| kind == RuntimeEventKind::PermissionChanged
    ||| kind == RuntimeEventKind::RescanRequired
}

impl RuntimeEvent {
    /// A fresh event of `kind`, observed at `observed_at`, with no path and no
    /// payload.
    pub fn new(kind: RuntimeEventKind, observed_at: &str) -> (r: Self)
        ensures
            r.kind == kind,
            r.observed_at@ == observed_at@,
            r.relative_path is None,
            r.payload is None,
    {
        RuntimeEvent {
            id: fresh_event_id(),
            kind,
            relative_path: None,
            observed_at: String::from_str(observed_at),
            payload: None,
        }
    }

    pub fn with_path(self, path: &str) -> (r: Self)
        ensures
            r.id == self.id,
            r.kind == self.kind,
            r.observed_at == self.observed_at,
            r.payload == self.payload,
            r.relative_path matches Some(p) && p@ == path@,
    {
        let mut e = self;
        e.relative_path = Some(String::from_str(path));
        e
    }

    pub fn with_payload(self, payload: serde_json::Value) -> (r: Self)
        ensures
            r.id == self.id,
            r.kind == self.kind,
            r.observed_at == self.observed_at,
            r.relative_path == self.relative_path,
            r.payload == Some(payload),
    {
        let mut e = self;
        e.payload = Some(payload);
        e
    }

    /// Whether this event invalidates the current snapshot wholesale rather
    /// than describing one path.
    pub fn requires_full_reconciliation(&self) -> (r: bool)
        ensures
            r == demands_full_reconciliation(self.kind),
    {
        match self.kind {
            RuntimeEventKind::Overflow
            | RuntimeEventKind::RootUnavailable
            | RuntimeEventKind::PermissionChanged
            | RuntimeEventKind::RescanRequired => true,
            _ => false,
        }
    }

    /// The journal address of this event.
    pub fn entry_id(&self) -> (r: u128)
        ensures
            r == self.id,
    {
        self.id
    }
}


/// A dropped stream, a vanished root, changed permissions and an explicit
/// rescan request invalidate the snapshot wholesale; a file change or
/// client activity never does.
pub proof fn law_stream_failures_demand_a_full_scan(kind: RuntimeEventKind)
    ensures
        kind == RuntimeEventKind::Overflow || kind == RuntimeEventKind::RootUnavailable || kind
            == RuntimeEventKind::PermissionChanged || kind == RuntimeEventKind::RescanRequired
            ==> demands_full_reconciliation(kind),
        kind == RuntimeEventKind::FileAdded || kind == RuntimeEventKind::FileModified || kind
            == RuntimeEventKind::FileRemoved || kind == RuntimeEventKind::FileRenamed || kind
            == RuntimeEventKind::ExternalActivity ==> !demands_full_reconciliation(kind),
{
}

} // verus!
