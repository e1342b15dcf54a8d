//! The semantic lane's work selection: which entities a pass may ask a model
//! partner to enrich, and which it may only propose changes to.
use vstd::prelude::*;
use crate::atlas::{AtlasEntity, AtlasSnapshot, EntityKind, ScopeScale};

verus! {

/// A parsed code symbol — a function, type or component at Moon scale —
/// that has no model summary yet.
pub open spec fn is_work_item(e: AtlasEntity) -> bool {
    &&& e.scale == ScopeScale::Moon
    &&& (e.kind == EntityKind::Function || e.kind == EntityKind::Type || e.kind
        == EntityKind::Component)
    &&& e.inferred_summaries@.len() == 0
}

/// The ids of the entities satisfying `is_work_item`, in order.
pub open spec fn work_ids(entities: Seq<AtlasEntity>) -> Seq<u128> {
    entities.filter(|e: AtlasEntity| is_work_item(e)).map_values(|e: AtlasEntity| e.id)
}

/// Parsed code symbols that do not yet have a model summary, at most
/// `budget` of them, in entity order.
pub fn work_items(snapshot: &AtlasSnapshot, budget: usize) -> (r: Vec<u128>)
    ensures
        r@ == work_ids(snapshot.entities@).take(
            if budget < work_ids(snapshot.entities@).len() {
                budget as int
            } else {
                work_ids(snapshot.entities@).len() as int
            },
        ),
{
    let ghost all = snapshot.entities@;
    let mut out: Vec<u128> = Vec::new();
    let mut i: usize = 0;
    while i < snapshot.entities.len() && out.len() < budget
        invariant
            0 <= i <= snapshot.entities.len(),
            all == snapshot.entities@,
            out@ == work_ids(all.take(i as int)),
            out@.len() <= budget,
        decreases snapshot.entities.len() - i,
    {
        let e = &snapshot.entities[i];
        let ghost before = out@;
        proof {
            let t = all.take(i + 1);
            assert(t =~= all.take(i as int).push(*e));
            all.take(i as int).lemma_filter_push(*e, |x: AtlasEntity| is_work_item(x));
        }
        let selected = e.scale == ScopeScale::Moon && (e.kind == EntityKind::Function || e.kind
            == EntityKind::Type || e.kind == EntityKind::Component)
            && e.inferred_summaries.len() == 0;
        if selected {
            out.push(e.id);
            assert(out@ =~= work_ids(all.take(i + 1)));
        } else {
            assert(out@ =~= work_ids(all.take(i + 1)));
        }
        i = i + 1;
    }
    proof {
        lemma_work_ids_prefix(all, i as int);
        if i == all.len() {
            assert(all.take(i as int) =~= all);
        }
    }
    out
}

proof fn lemma_work_ids_prefix(all: Seq<AtlasEntity>, i: int)
    requires
        0 <= i <= all.len(),
    ensures
        work_ids(all.take(i)).is_prefix_of(work_ids(all)),
    decreases all.len() - i,
{
    if i < all.len() {
        lemma_work_ids_prefix(all, i + 1);
        let t = all.take(i + 1);
        assert(t =~= all.take(i).push(all[i]));
        all.take(i).lemma_filter_push(all[i], |x: AtlasEntity| is_work_item(x));
    } else {
        assert(all.take(i) =~= all);
    }
}

/// The ids of entities carrying a protected decision, in order.
pub open spec fn protected_ids(entities: Seq<AtlasEntity>) -> Seq<u128> {
    entities.filter(|e: AtlasEntity| e.protected_decision_ids@.len() > 0).map_values(
        |e: AtlasEntity| e.id,
    )
}

/// Entities a model may only propose changes to, never make them: those
/// carrying a protected decision.
pub fn protected(snapshot: &AtlasSnapshot) -> (r: Vec<u128>)
    ensures
        r@ == protected_ids(snapshot.entities@),
{
    let ghost all = snapshot.entities@;
    let mut out: Vec<u128> = Vec::new();
    let mut i: usize = 0;
    while i < snapshot.entities.len()
        invariant
            0 <= i <= snapshot.entities.len(),
            all == snapshot.entities@,
            out@ == protected_ids(all.take(i as int)),
        decreases snapshot.entities.len() - i,
    {
        let e = &snapshot.entities[i];
        proof {
            assert(all.take(i + 1) =~= all.take(i as int).push(*e));
            all.take(i as int).lemma_filter_push(
                *e,
                |x: AtlasEntity| x.protected_decision_ids@.len() > 0,
            );
        }
        if e.protected_decision_ids.len() > 0 {
            out.push(e.id);
        }
        assert(out@ =~= protected_ids(all.take(i + 1)));
        i = i + 1;
    }
    assert(all.take(all.len() as int) =~= all);
    out
}

/// Whether an on-device model partner is available on the host `os` (as
/// `std::env::consts::OS` names it), given what the model bridge measured:
/// on Windows, that measurement; on any other platform there is no model
/// adapter.
pub fn model_available(os: &str, bridge_ready: bool) -> (r: bool)
    ensures
        r == (os@ == "windows"@ && bridge_ready),
{
    crate::text::str_eq(os, "windows") && bridge_ready
}


/// The semantic lane works on code symbols only: a Moon function, type or
/// component that has no model summary yet is work; a file, module, test or
/// registry, anything above Moon scale, and anything already summarised is
/// not.
pub proof fn law_work_is_unsummarised_code_symbols(e: AtlasEntity)
    ensures
        e.scale == ScopeScale::Moon && (e.kind == EntityKind::Function || e.kind == EntityKind::Type
            || e.kind == EntityKind::Component) && e.inferred_summaries@.len() == 0
            ==> is_work_item(e),
        e.kind == EntityKind::File || e.kind == EntityKind::Module || e.kind == EntityKind::Test
            || e.kind == EntityKind::Registry ==> !is_work_item(e),
        e.scale != ScopeScale::Moon ==> !is_work_item(e),
        e.inferred_summaries@.len() > 0 ==> !is_work_item(e),
{
}

} // verus!
