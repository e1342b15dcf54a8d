//! Reconciliation coordinator.
//!
//! Pure by design: it collects normalised events, collapses a burst into one
//! unit of work, and decides whether that work is a bounded targeted update or
//! a full rescan. It performs no I/O — the service owns the watcher, the
//! journal and the repository.
use vstd::prelude::*;
use std::collections::BTreeSet;
use crate::runtime::events::{RuntimeEvent, demands_full_reconciliation};

verus! {

broadcast use {vstd::laws_cmp::group_laws_cmp, vstd::std_specs::btree::group_btree_axioms};

/// What `std::time::Duration::from_millis` returns for `ms`.
pub uninterp spec fn duration_of_millis(ms: u64) -> std::time::Duration;

/// `std::time::Duration::from_millis`.
#[verifier::external_body]
fn duration_from_millis(ms: u64) -> (d: std::time::Duration)
    ensures
        d == duration_of_millis(ms),
{
    std::time::Duration::from_millis(ms)
}

#[derive(Clone, Debug)]
pub struct CoordinatorConfig {
    /// How long to let a burst of events settle before reconciling.
    pub debounce_ms: u64,
}

impl Default for CoordinatorConfig {
    fn default() -> (r: Self)
        ensures
            r.debounce_ms == 250,
    {
        CoordinatorConfig { debounce_ms: 250 }
    }
}

pub struct Coordinator {
    config: CoordinatorConfig,
    pending: Vec<RuntimeEvent>,
    applied: BTreeSet<u128>,
    reconciliations: usize,
    last_scan_bounded: bool,
}

/// Events whose id is not in `applied`, in arrival order.
pub open spec fn unapplied(pending: Seq<RuntimeEvent>, applied: Set<u128>) -> Seq<RuntimeEvent> {
    pending.filter(|e: RuntimeEvent| !applied.contains(e.id))
}

/// Whether any of `events` demands a full rescan.
pub open spec fn any_demands_full(events: Seq<RuntimeEvent>) -> bool {
    exists|i: int| 0 <= i < events.len() && demands_full_reconciliation(#[trigger] events[i].kind)
}

impl Coordinator {
    pub closed spec fn spec_pending(self) -> Seq<RuntimeEvent> {
        self.pending@
    }

    pub closed spec fn spec_applied(self) -> Set<u128> {
        self.applied@
    }

    pub closed spec fn spec_reconciliations(self) -> nat {
        self.reconciliations as nat
    }

    pub closed spec fn spec_last_scan_bounded(self) -> bool {
        self.last_scan_bounded
    }

    pub closed spec fn spec_debounce_ms(self) -> u64 {
        self.config.debounce_ms
    }

    pub fn new(config: CoordinatorConfig) -> (r: Self)
        ensures
            r.spec_pending().len() == 0,
            r.spec_applied() == Set::<u128>::empty(),
            r.spec_reconciliations() == 0,
            !r.spec_last_scan_bounded(),
            r.spec_debounce_ms() == config.debounce_ms,
    {
        Coordinator {
            config,
            pending: Vec::new(),
            applied: BTreeSet::new(),
            reconciliations: 0,
            last_scan_bounded: false,
        }
    }

    pub fn enqueue(&mut self, event: RuntimeEvent)
        ensures
            final(self).spec_pending() == old(self).spec_pending().push(event),
            final(self).spec_applied() == old(self).spec_applied(),
            final(self).spec_reconciliations() == old(self).spec_reconciliations(),
            final(self).spec_last_scan_bounded() == old(self).spec_last_scan_bounded(),
            final(self).spec_debounce_ms() == old(self).spec_debounce_ms(),
    {
        self.pending.push(event);
    }

    /// Record that an event was applied, so it is never processed again.
    pub fn mark_applied(&mut self, id: &u128)
        ensures
            final(self).spec_applied() == old(self).spec_applied().insert(*id),
            final(self).spec_pending() == old(self).spec_pending(),
            final(self).spec_reconciliations() == old(self).spec_reconciliations(),
            final(self).spec_last_scan_bounded() == old(self).spec_last_scan_bounded(),
            final(self).spec_debounce_ms() == old(self).spec_debounce_ms(),
    {
        self.applied.insert(*id);
    }

    /// Whether the event `id` still needs processing.
    pub fn should_apply(&self, id: &u128) -> (r: bool)
        ensures
            r == !self.spec_applied().contains(*id),
    {
        !self.applied.contains(id)
    }

    pub fn pending_events(&self) -> (r: &[RuntimeEvent])
        ensures
            r@ == self.spec_pending(),
    {
        self.pending.as_slice()
    }

    pub fn clear_pending(&mut self)
        ensures
            final(self).spec_pending().len() == 0,
            final(self).spec_applied() == old(self).spec_applied(),
            final(self).spec_reconciliations() == old(self).spec_reconciliations(),
            final(self).spec_last_scan_bounded() == old(self).spec_last_scan_bounded(),
            final(self).spec_debounce_ms() == old(self).spec_debounce_ms(),
    {
        self.pending.clear();
    }

    pub fn reconciliations(&self) -> (r: usize)
        ensures
            r == self.spec_reconciliations(),
    {
        self.reconciliations
    }

    /// Whether the last settled batch demanded a full rescan rather than a
    /// targeted update.
    pub fn last_scan_was_bounded(&self) -> (r: bool)
        ensures
            r == self.spec_last_scan_bounded(),
    {
        self.last_scan_bounded
    }

    /// Called after the debounce window closes. Drops already-applied events,
    /// then reports whether reconciliation should run; a whole burst counts as
    /// one reconciliation.
    pub fn settle(&mut self) -> (r: bool)
        requires
            old(self).spec_reconciliations() < usize::MAX,
        ensures
            final(self).spec_pending() == unapplied(old(self).spec_pending(), old(self).spec_applied()),
            r == (final(self).spec_pending().len() > 0),
            r ==> final(self).spec_reconciliations() == old(self).spec_reconciliations() + 1
                && final(self).spec_last_scan_bounded() == any_demands_full(old(self).spec_pending()),
            !r ==> final(self).spec_reconciliations() == old(self).spec_reconciliations()
                && final(self).spec_last_scan_bounded() == old(self).spec_last_scan_bounded(),
            final(self).spec_applied() == old(self).spec_applied(),
            final(self).spec_debounce_ms() == old(self).spec_debounce_ms(),
    {
        let ghost old_pending = self.pending@;
        let ghost applied = self.applied@;
        let mut requires_full = false;
        let mut i: usize = 0;
        while i < self.pending.len()
            invariant
                self.pending@ == old_pending,
                0 <= i <= self.pending.len(),
                requires_full == exists|j: int|
                    0 <= j < i && demands_full_reconciliation(#[trigger] old_pending[j].kind),
            decreases self.pending.len() - i,
        {
            if self.pending[i].requires_full_reconciliation() {
                requires_full = true;
            }
            i = i + 1;
        }
        let mut old_vec: Vec<RuntimeEvent> = Vec::new();
        std::mem::swap(&mut old_vec, &mut self.pending);
        let mut kept: Vec<RuntimeEvent> = Vec::new();
        for e in it: old_vec
            invariant
                it.seq() == old_pending,
                applied == self.applied@,
                kept@ == unapplied(old_pending.take(it.index() as int), applied),
        {
            let ghost idx = it.index();
            proof {
                assert(old_pending.take(idx + 1) =~= old_pending.take(idx as int).push(e));
                old_pending.take(idx as int).lemma_filter_push(
                    e,
                    |x: RuntimeEvent| !applied.contains(x.id),
                );
            }
            if !self.applied.contains(&e.id) {
                kept.push(e);
            }
        }
        proof {
            assert(old_pending.take(old_pending.len() as int) =~= old_pending);
        }
        self.pending = kept;
        if self.pending.len() == 0 {
            return false;
        }
        self.last_scan_bounded = requires_full;
        self.reconciliations = self.reconciliations + 1;
        true
    }

    /// How long a burst is allowed to settle.
    pub fn debounce_duration(&self) -> (r: std::time::Duration)
        ensures
            r == duration_of_millis(self.spec_debounce_ms()),
    {
        duration_from_millis(self.config.debounce_ms)
    }
}

/// The ids of `events`, in order.
pub open spec fn event_ids(events: Seq<RuntimeEvent>) -> Seq<u128> {
    events.map_values(|e: RuntimeEvent| e.id)
}

/// What follows a settled batch's reconcile. When it committed, every
/// pending event is marked applied and the batch is cleared; their ids come
/// back, in arrival order, for the journal to record. When it did not, the
/// batch stays pending for the next settle to retry, and nothing is applied.
pub fn after_reconcile(coordinator: &mut Coordinator, committed: bool) -> (applied: Vec<u128>)
    ensures
        committed ==> {
            &&& applied@ == event_ids(old(coordinator).spec_pending())
            &&& final(coordinator).spec_pending().len() == 0
            &&& final(coordinator).spec_applied() == old(coordinator).spec_applied().union(
                event_ids(old(coordinator).spec_pending()).to_set(),
            )
        },
        !committed ==> applied@.len() == 0 && final(coordinator).spec_pending() == old(
            coordinator,
        ).spec_pending() && final(coordinator).spec_applied() == old(coordinator).spec_applied(),
        final(coordinator).spec_reconciliations() == old(coordinator).spec_reconciliations(),
        final(coordinator).spec_last_scan_bounded() == old(coordinator).spec_last_scan_bounded(),
        final(coordinator).spec_debounce_ms() == old(coordinator).spec_debounce_ms(),
{
    let mut applied: Vec<u128> = Vec::new();
    if !committed {
        return applied;
    }
    let ghost pending = coordinator.spec_pending();
    let ghost ids = event_ids(pending);
    let ghost applied0 = coordinator.spec_applied();
    let n = coordinator.pending_events().len();
    let mut i: usize = 0;
    while i < n
        invariant
            0 <= i <= n,
            n == pending.len(),
            ids == event_ids(pending),
            coordinator.spec_pending() == pending,
            applied@ == ids.take(i as int),
            coordinator.spec_applied() == applied0.union(ids.take(i as int).to_set()),
            coordinator.spec_reconciliations() == old(coordinator).spec_reconciliations(),
            coordinator.spec_last_scan_bounded() == old(coordinator).spec_last_scan_bounded(),
            coordinator.spec_debounce_ms() == old(coordinator).spec_debounce_ms(),
        decreases n - i,
    {
        let id = coordinator.pending_events()[i].id;
        assert(id == ids[i as int]);
        applied.push(id);
        coordinator.mark_applied(&id);
        assert(ids.take(i + 1) =~= ids.take(i as int).push(id));
        proof {
            let t1 = ids.take(i + 1);
            let t0 = ids.take(i as int);
            assert forall|x: u128| t1.to_set().contains(x) <==> t0.to_set().insert(id).contains(
                x,
            ) by {
                if t1.contains(x) {
                    let j = choose|j: int| 0 <= j < t1.len() && #[trigger] t1[j] == x;
                    if j < i {
                        assert(t0[j] == x);
                    }
                }
                if t0.contains(x) {
                    let j = choose|j: int| 0 <= j < t0.len() && #[trigger] t0[j] == x;
                    assert(t1[j] == x);
                }
                if x == id {
                    assert(t1[i as int] == x);
                }
            }
            assert(t1.to_set() =~= t0.to_set().insert(id));
        }
        assert(applied0.union(ids.take(i + 1).to_set()) =~= applied0.union(
            ids.take(i as int).to_set(),
        ).insert(id));
        i = i + 1;
    }
    assert(ids.take(n as int) =~= ids);
    coordinator.clear_pending();
    applied
}

impl Default for Coordinator {
    fn default() -> (r: Self)
        ensures
            r.spec_pending().len() == 0,
            r.spec_applied() == Set::<u128>::empty(),
            r.spec_reconciliations() == 0,
            !r.spec_last_scan_bounded(),
            r.spec_debounce_ms() == 250,
    {
        Coordinator::new(CoordinatorConfig::default())
    }
}

/// A settled burst is one reconciliation: however many events were pending,
/// settling counts at most one, and none when every pending event had already
/// been applied.
pub proof fn law_a_burst_is_one_reconciliation(before: Coordinator, after: Coordinator, r: bool)
    requires
        after.spec_pending() == unapplied(before.spec_pending(), before.spec_applied()),
        r == (after.spec_pending().len() > 0),
        r ==> after.spec_reconciliations() == before.spec_reconciliations() + 1,
        !r ==> after.spec_reconciliations() == before.spec_reconciliations(),
    ensures
        after.spec_reconciliations() <= before.spec_reconciliations() + 1,
        (forall|i: int|
            0 <= i < before.spec_pending().len() ==> before.spec_applied().contains(
                #[trigger] before.spec_pending()[i].id,
            )) ==> after.spec_reconciliations() == before.spec_reconciliations(),
{
    if forall|i: int|
        0 <= i < before.spec_pending().len() ==> before.spec_applied().contains(
            #[trigger] before.spec_pending()[i].id,
        ) {
        let p = before.spec_pending();
        let pred = |e: RuntimeEvent| !before.spec_applied().contains(e.id);
        if p.filter(pred).len() > 0 {
            p.lemma_filter_pred(pred, 0);
            p.lemma_filter_contains_rev(pred, p.filter(pred)[0]);
        }
    }
}

/// An applied event is never handed back: after settling, no pending event
/// is one already marked applied.
pub proof fn law_settled_events_are_unapplied(pending: Seq<RuntimeEvent>, applied: Set<u128>)
    ensures
        forall|i: int|
            0 <= i < unapplied(pending, applied).len() ==> !applied.contains(
                #[trigger] unapplied(pending, applied)[i].id,
            ),
{
    let pred = |e: RuntimeEvent| !applied.contains(e.id);
    assert forall|i: int| 0 <= i < unapplied(pending, applied).len() implies !applied.contains(
        #[trigger] unapplied(pending, applied)[i].id,
    ) by {
        pending.lemma_filter_pred(pred, i);
    }
}

} // verus!
