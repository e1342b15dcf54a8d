//! The semantic lane: what one pass did, and how what admission let through
//! is applied. The lane only ever adds inferred enrichment — a summary onto
//! its entity, an edge onto the graph — and never writes a deterministic
//! field, so running it or not leaves the deterministic picture identical.
use vstd::prelude::*;
use crate::atlas::{AtlasEdge, AtlasEntity, AtlasSnapshot, ContextRecord, InferredSummary};

verus! {

/// What one pass of the lane did. Everything admitted was applied; everything
/// reviewed or rejected was not.
#[derive(Clone, Copy, Debug, PartialEq, Eq, Structural)]
pub struct LaneReport {
    pub admitted: usize,
    pub review: usize,
    pub rejected: usize,
}

impl Default for LaneReport {
    /// A pass that has done nothing yet.
    fn default() -> (r: Self)
        ensures
            r.admitted == 0,
            r.review == 0,
            r.rejected == 0,
    {
        LaneReport { admitted: 0, review: 0, rejected: 0 }
    }
}

/// An admitted proposal: a model summary of an entity, an inferred edge, or a
/// context record.
pub enum AdmittedCandidate {
    Summary { entity_id: u128, summary: InferredSummary },
    Edge(AtlasEdge),
    Context(ContextRecord),
}

/// What admission decided for one proposal.
pub enum AdmissionOutcome {
    Admitted(AdmittedCandidate),
    Review,
    Rejected,
}

/// The entity with id `id`, summarised by the first such entity.
pub open spec fn first_entity(es: Seq<AtlasEntity>, id: u128) -> Option<int>
    decreases es.len(),
{
    if es.len() == 0 {
        None
    } else if es[0].id == id {
        Some(0)
    } else {
        match first_entity(es.drop_first(), id) {
            Some(i) => Some(i + 1),
            None => None,
        }
    }
}

/// Everything about an entity but its model summaries.
pub open spec fn same_but_summaries(after: AtlasEntity, before: AtlasEntity) -> bool {
    after == (AtlasEntity { inferred_summaries: after.inferred_summaries, ..before })
}

/// The model summaries of entity `i` after a summary of `id` is applied:
/// extended by it exactly when `i` is the first entity with that id.
pub open spec fn summaries_after(
    after: AtlasEntity,
    before: Seq<AtlasEntity>,
    i: int,
    id: u128,
    summary: InferredSummary,
) -> bool {
    after.inferred_summaries@ == if first_entity(before, id) == Some(i) {
        before[i].inferred_summaries@.push(summary)
    } else {
        before[i].inferred_summaries@
    }
}

/// Append `summary` to the model summaries of the first entity with id
/// `id`, if there is one.
fn append_summary(entities: &mut Vec<AtlasEntity>, id: u128, summary: InferredSummary)
    ensures
        final(entities)@.len() == old(entities)@.len(),
        forall|i: int|
            0 <= i < final(entities)@.len() ==> same_but_summaries(
                #[trigger] final(entities)@[i],
                old(entities)@[i],
            ) && summaries_after(final(entities)@[i], old(entities)@, i, id, summary),
{
    let ghost before = entities@;
    let mut i: usize = 0;
    while i < entities.len()
        invariant
            0 <= i <= entities@.len(),
            entities@ == before,
            before == old(entities)@,
            forall|j: int| 0 <= j < i ==> (#[trigger] before[j]).id != id,
        decreases entities@.len() - i,
    {
        if entities[i].id == id {
            proof {
                lemma_first_entity(before, id, i as int);
            }
            let ghost added = summary;
            let mut e = entities.remove(i);
            e.inferred_summaries.push(summary);
            entities.insert(i, e);
            assert(entities@ =~= before.update(i as int, e));
            assert(e.inferred_summaries@ == before[i as int].inferred_summaries@.push(added));
            return;
        }
        i = i + 1;
    }
    proof {
        lemma_no_entity(before, id);
    }
}

/// Apply one admitted candidate as inferred enrichment: a summary is appended
/// to its entity's model summaries (when the entity is there), an edge is
/// appended to the graph, a context record is appended to the records.
pub fn apply_admitted(snapshot: &mut AtlasSnapshot, candidate: AdmittedCandidate)
    ensures
        final(snapshot).id == old(snapshot).id,
        final(snapshot).timestamp == old(snapshot).timestamp,
        final(snapshot).entities@.len() == old(snapshot).entities@.len(),
        forall|i: int|
            0 <= i < final(snapshot).entities@.len() ==> same_but_summaries(
                #[trigger] final(snapshot).entities@[i],
                old(snapshot).entities@[i],
            ),
        match candidate {
            AdmittedCandidate::Summary { entity_id, summary } => {
                &&& final(snapshot).edges == old(snapshot).edges
                &&& final(snapshot).records == old(snapshot).records
                &&& forall|i: int|
                    0 <= i < final(snapshot).entities@.len() ==> summaries_after(
                        #[trigger] final(snapshot).entities@[i],
                        old(snapshot).entities@,
                        i,
                        entity_id,
                        summary,
                    )
            },
            AdmittedCandidate::Edge(edge) => {
                &&& final(snapshot).entities == old(snapshot).entities
                &&& final(snapshot).edges@ == old(snapshot).edges@.push(edge)
                &&& final(snapshot).records == old(snapshot).records
            },
            AdmittedCandidate::Context(record) => {
                &&& final(snapshot).entities == old(snapshot).entities
                &&& final(snapshot).edges == old(snapshot).edges
                &&& final(snapshot).records@ == old(snapshot).records@.push(record)
            },
        },
{
    match candidate {
        AdmittedCandidate::Summary { entity_id, summary } => {
            append_summary(&mut snapshot.entities, entity_id, summary);
        },
        AdmittedCandidate::Edge(edge) => {
            snapshot.edges.push(edge);
        },
        AdmittedCandidate::Context(record) => {
            snapshot.records.push(record);
        },
    }
}

proof fn lemma_first_entity(es: Seq<AtlasEntity>, id: u128, i: int)
    requires
        0 <= i < es.len(),
        es[i].id == id,
        forall|j: int| 0 <= j < i ==> (#[trigger] es[j]).id != id,
    ensures
        first_entity(es, id) == Some(i),
    decreases i,
{
    if i > 0 {
        let rest = es.drop_first();
        assert forall|j: int| 0 <= j < i - 1 implies (#[trigger] rest[j]).id != id by {
            assert(rest[j] == es[j + 1]);
        }
        lemma_first_entity(rest, id, i - 1);
        assert(es[0].id != id);
    }
}

proof fn lemma_no_entity(es: Seq<AtlasEntity>, id: u128)
    requires
        forall|j: int| 0 <= j < es.len() ==> (#[trigger] es[j]).id != id,
    ensures
        first_entity(es, id) is None,
    decreases es.len(),
{
    if es.len() > 0 {
        let rest = es.drop_first();
        assert forall|j: int| 0 <= j < rest.len() implies (#[trigger] rest[j]).id != id by {
            assert(rest[j] == es[j + 1]);
        }
        lemma_no_entity(rest, id);
        assert(es[0].id != id);
    }
}

/// The edges admitted among `outcomes`, in order.
pub open spec fn admitted_edges(outcomes: Seq<AdmissionOutcome>) -> Seq<AtlasEdge>
    decreases outcomes.len(),
{
    if outcomes.len() == 0 {
        seq![]
    } else {
        let rest = admitted_edges(outcomes.drop_last());
        match outcomes.last() {
            AdmissionOutcome::Admitted(AdmittedCandidate::Edge(e)) => rest.push(e),
            _ => rest,
        }
    }
}

/// The context records admitted among `outcomes`, in order.
pub open spec fn admitted_records(outcomes: Seq<AdmissionOutcome>) -> Seq<ContextRecord>
    decreases outcomes.len(),
{
    if outcomes.len() == 0 {
        seq![]
    } else {
        let rest = admitted_records(outcomes.drop_last());
        match outcomes.last() {
            AdmissionOutcome::Admitted(AdmittedCandidate::Context(r)) => rest.push(r),
            _ => rest,
        }
    }
}

/// The summaries admitted among `outcomes` for the entity at `i` of `es` —
/// those naming an id whose first entity is `i` — in order.
pub open spec fn admitted_summaries(
    es: Seq<AtlasEntity>,
    outcomes: Seq<AdmissionOutcome>,
    i: int,
) -> Seq<InferredSummary>
    decreases outcomes.len(),
{
    if outcomes.len() == 0 {
        seq![]
    } else {
        let rest = admitted_summaries(es, outcomes.drop_last(), i);
        match outcomes.last() {
            AdmissionOutcome::Admitted(AdmittedCandidate::Summary { entity_id, summary }) => {
                if first_entity(es, entity_id) == Some(i) {
                    rest.push(summary)
                } else {
                    rest
                }
            },
            _ => rest,
        }
    }
}

/// Two entity lists with the same ids, position by position, have the same
/// first entity for every id.
proof fn lemma_first_entity_by_ids(a: Seq<AtlasEntity>, b: Seq<AtlasEntity>, id: u128)
    requires
        a.len() == b.len(),
        forall|i: int| 0 <= i < a.len() ==> (#[trigger] a[i]).id == b[i].id,
    ensures
        first_entity(a, id) == first_entity(b, id),
    decreases a.len(),
{
    if a.len() > 0 {
        let (ra, rb) = (a.drop_first(), b.drop_first());
        assert forall|i: int| 0 <= i < ra.len() implies (#[trigger] ra[i]).id == rb[i].id by {
            assert(ra[i] == a[i + 1]);
            assert(rb[i] == b[i + 1]);
        }
        lemma_first_entity_by_ids(ra, rb, id);
        assert(a[0].id == b[0].id);
    }
}

/// How many outcomes of each kind a list holds.
pub open spec fn tally(outcomes: Seq<AdmissionOutcome>) -> (nat, nat, nat)
    decreases outcomes.len(),
{
    if outcomes.len() == 0 {
        (0, 0, 0)
    } else {
        let (a, v, r) = tally(outcomes.drop_last());
        match outcomes.last() {
            AdmissionOutcome::Admitted(_) => (a + 1, v, r),
            AdmissionOutcome::Review => (a, v + 1, r),
            AdmissionOutcome::Rejected => (a, v, r + 1),
        }
    }
}

proof fn lemma_tally_bound(outcomes: Seq<AdmissionOutcome>)
    ensures
        tally(outcomes).0 + tally(outcomes).1 + tally(outcomes).2 == outcomes.len(),
    decreases outcomes.len(),
{
    if outcomes.len() > 0 {
        lemma_tally_bound(outcomes.drop_last());
    }
}

/// Apply a pass's admission outcomes to the snapshot, in order: every
/// admitted candidate is applied as inferred enrichment, and the reviewed and
/// rejected ones are counted and never applied. Deterministic state — every
/// entity field but its model summaries, and every edge already present — is
/// left exactly as it was.
pub fn apply_outcomes(snapshot: &mut AtlasSnapshot, outcomes: Vec<AdmissionOutcome>) -> (r:
    LaneReport)
    ensures
        r.admitted == tally(outcomes@).0,
        r.review == tally(outcomes@).1,
        r.rejected == tally(outcomes@).2,
        final(snapshot).id == old(snapshot).id,
        final(snapshot).timestamp == old(snapshot).timestamp,
        final(snapshot).entities@.len() == old(snapshot).entities@.len(),
        forall|i: int|
            0 <= i < final(snapshot).entities@.len() ==> same_but_summaries(
                #[trigger] final(snapshot).entities@[i],
                old(snapshot).entities@[i],
            ),
        forall|i: int|
            0 <= i < final(snapshot).entities@.len() ==> (#[trigger] final(snapshot).entities@[i]).inferred_summaries@
                == old(snapshot).entities@[i].inferred_summaries@ + admitted_summaries(old(snapshot).entities@, outcomes@, i),
        final(snapshot).edges@ == old(snapshot).edges@ + admitted_edges(outcomes@),
        final(snapshot).records@ == old(snapshot).records@ + admitted_records(outcomes@),
{
    let ghost all = outcomes@;
    let ghost start = *snapshot;
    let mut report = LaneReport::default();
    assert forall|i: int| 0 <= i < snapshot.entities@.len() implies (
    #[trigger] snapshot.entities@[i]).inferred_summaries@ == start.entities@[i].inferred_summaries@
        + admitted_summaries(start.entities@, all.take(0), i) by {
        assert(admitted_summaries(start.entities@, all.take(0), i) =~= Seq::<InferredSummary>::empty());
        assert(start.entities@[i].inferred_summaries@ + Seq::<InferredSummary>::empty()
            =~= start.entities@[i].inferred_summaries@);
    }
    assert(start.edges@ + admitted_edges(all.take(0)) =~= start.edges@);
    assert(start.records@ + admitted_records(all.take(0)) =~= start.records@);
    let n = outcomes.len();
    proof {
        lemma_tally_bound(all);
    }
    for outcome in it: outcomes
        invariant
            it.seq() == all,
            tally(all).0 + tally(all).1 + tally(all).2 == all.len(),
            all.len() <= usize::MAX,
            report.admitted == tally(all.take(it.index() as int)).0,
            report.review == tally(all.take(it.index() as int)).1,
            report.rejected == tally(all.take(it.index() as int)).2,
            snapshot.id == start.id,
            snapshot.timestamp == start.timestamp,
            snapshot.entities@.len() == start.entities@.len(),
            forall|i: int|
                0 <= i < snapshot.entities@.len() ==> same_but_summaries(
                    #[trigger] snapshot.entities@[i],
                    start.entities@[i],
                ),
            forall|i: int|
                0 <= i < snapshot.entities@.len() ==> (#[trigger] snapshot.entities@[i]).inferred_summaries@
                    == start.entities@[i].inferred_summaries@
                    + admitted_summaries(start.entities@, all.take(it.index() as int), i),
            snapshot.edges@ == start.edges@ + admitted_edges(all.take(it.index() as int)),
            snapshot.records@ == start.records@ + admitted_records(all.take(it.index() as int)),
    {
        let ghost idx = it.index();
        proof {
            assert(all.take(idx + 1).drop_last() =~= all.take(idx as int));
            assert(all.take(idx + 1).last() == outcome);
            lemma_tally_bound(all.take(idx + 1));
            lemma_tally_prefix(all, idx + 1);
        }
        let ghost mid = *snapshot;
        let ghost pre = all.take(idx as int);
        let ghost post = all.take(idx + 1);
        proof {
            assert(post.drop_last() =~= pre);
            assert(post.last() == outcome);
        }
        match outcome {
            AdmissionOutcome::Admitted(candidate) => {
                report.admitted = report.admitted + 1;
                let ghost c = candidate;
                apply_admitted(snapshot, candidate);
                assert forall|i: int| 0 <= i < snapshot.entities@.len() implies same_but_summaries(
                    #[trigger] snapshot.entities@[i],
                    start.entities@[i],
                ) by {
                    assert(same_but_summaries(snapshot.entities@[i], mid.entities@[i]));
                    assert(same_but_summaries(mid.entities@[i], start.entities@[i]));
                }
                proof {
                match c {
                    AdmittedCandidate::Summary { entity_id, summary } => {
                        assert forall|i: int| 0 <= i < mid.entities@.len() implies (
                        #[trigger] mid.entities@[i]).id == start.entities@[i].id by {
                            assert(same_but_summaries(mid.entities@[i], start.entities@[i]));
                        }
                        lemma_first_entity_by_ids(mid.entities@, start.entities@, entity_id);
                        assert forall|i: int|
                            0 <= i < snapshot.entities@.len() implies (
                            #[trigger] snapshot.entities@[i]).inferred_summaries@
                                == start.entities@[i].inferred_summaries@ + admitted_summaries(
                                start.entities@,
                                post,
                                i,
                            ) by {
                            assert(summaries_after(
                                snapshot.entities@[i],
                                mid.entities@,
                                i,
                                entity_id,
                                summary,
                            ));
                            assert(mid.entities@[i].inferred_summaries@
                                == start.entities@[i].inferred_summaries@ + admitted_summaries(
                                start.entities@,
                                pre,
                                i,
                            ));
                            if first_entity(start.entities@, entity_id) == Some(i) {
                                assert(start.entities@[i].inferred_summaries@ + admitted_summaries(
                                    start.entities@,
                                    pre,
                                    i,
                                ).push(summary) =~= (start.entities@[i].inferred_summaries@
                                    + admitted_summaries(start.entities@, pre, i)).push(summary));
                            }
                        }
                        assert(admitted_edges(post) == admitted_edges(pre));
                        assert(admitted_records(post) == admitted_records(pre));
                    },
                    AdmittedCandidate::Edge(edge) => {
                        assert(start.edges@ + admitted_edges(pre).push(edge) =~= (start.edges@
                            + admitted_edges(pre)).push(edge));
                        assert(admitted_records(post) == admitted_records(pre));
                        assert forall|i: int|
                            0 <= i < snapshot.entities@.len() implies (
                            #[trigger] snapshot.entities@[i]).inferred_summaries@
                                == start.entities@[i].inferred_summaries@ + admitted_summaries(
                                start.entities@,
                                post,
                                i,
                            ) by {
                            assert(snapshot.entities@[i] == mid.entities@[i]);
                        }
                    },
                    AdmittedCandidate::Context(record) => {
                        assert(start.records@ + admitted_records(pre).push(record) =~= (start.records@
                            + admitted_records(pre)).push(record));
                        assert(admitted_edges(post) == admitted_edges(pre));
                        assert forall|i: int|
                            0 <= i < snapshot.entities@.len() implies (
                            #[trigger] snapshot.entities@[i]).inferred_summaries@
                                == start.entities@[i].inferred_summaries@ + admitted_summaries(
                                start.entities@,
                                post,
                                i,
                            ) by {
                            assert(snapshot.entities@[i] == mid.entities@[i]);
                        }
                    },
                }
                }
            },
            AdmissionOutcome::Review => {
                report.review = report.review + 1;
                assert forall|i: int| 0 <= i < snapshot.entities@.len() implies (
                #[trigger] snapshot.entities@[i]).inferred_summaries@
                    == start.entities@[i].inferred_summaries@ + admitted_summaries(
                    start.entities@,
                    post,
                    i,
                ) by {}
            },
            AdmissionOutcome::Rejected => {
                report.rejected = report.rejected + 1;
                assert forall|i: int| 0 <= i < snapshot.entities@.len() implies (
                #[trigger] snapshot.entities@[i]).inferred_summaries@
                    == start.entities@[i].inferred_summaries@ + admitted_summaries(
                    start.entities@,
                    post,
                    i,
                ) by {}
            },
        }
    }
    proof {
        assert(all.take(all.len() as int) =~= all);
    }
    report
}

proof fn lemma_tally_prefix(all: Seq<AdmissionOutcome>, n: int)
    requires
        0 <= n <= all.len(),
    ensures
        tally(all.take(n)).0 <= tally(all).0,
        tally(all.take(n)).1 <= tally(all).1,
        tally(all.take(n)).2 <= tally(all).2,
    decreases all.len() - n,
{
    if n < all.len() {
        lemma_tally_prefix(all, n + 1);
        assert(all.take(n + 1).drop_last() =~= all.take(n));
    } else {
        assert(all.take(n) =~= all);
    }
}

/// The lane never writes deterministic state: applying any outcomes leaves
/// every entity's Green assessment, deterministic summary, name, path,
/// parent, sockets and fingerprint as they were, and every edge already in
/// the graph in place.
pub proof fn law_the_lane_only_adds_inferred_enrichment(before: AtlasEntity, after: AtlasEntity)
    requires
        same_but_summaries(after, before),
    ensures
        after.green == before.green,
        after.deterministic_summary == before.deterministic_summary,
        after.canonical_name == before.canonical_name,
        after.relative_path == before.relative_path,
        after.parent_id == before.parent_id,
        after.sockets == before.sockets,
        after.structural_fingerprint == before.structural_fingerprint,
        after.id == before.id,
        after.scale == before.scale,
        after.kind == before.kind,
{
}

} // verus!
