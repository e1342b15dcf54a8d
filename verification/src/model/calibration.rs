//! Scoring calibration output: each expectation is a deterministic check
//! against the candidates a partner proposed; no model grades another.
use vstd::prelude::*;
use crate::atlas::RelationshipPlane;
use crate::text::{chars_of, find_sub, find_sub_exec};

verus! {

/// What `str::to_lowercase` gives for a string: its Unicode lowercase mapping.
pub uninterp spec fn lowercase_of(s: Seq<char>) -> Seq<char>;

/// `str::to_lowercase`: the Unicode lowercase form of `s`.
#[verifier::external_body]
pub(crate) fn to_lowercase(s: &str) -> (r: String)
    ensures
        r@ == lowercase_of(s@),
{
    s.to_lowercase()
}

/// What a partner proposed, as far as scoring reads it: a summary's text, an
/// edge's plane, or a context record.
#[derive(Clone, Debug)]
pub enum CandidatePayload {
    Summary { value: String },
    Edge { plane: RelationshipPlane },
    Context,
}

/// How a task's output is scored.
pub enum Expectation {
    /// A contextual task: some proposed summary must contain this token.
    SummaryContains(String),
    /// A structural task: the partner must propose an inferred edge.
    ProposesInferredEdge,
}

/// Whether one candidate meets an expectation: a summary containing the
/// token, compared case-insensitively, or an edge on the inferred plane.
pub open spec fn meets(e: Expectation, c: CandidatePayload) -> bool {
    match (e, c) {
        (Expectation::SummaryContains(token), CandidatePayload::Summary { value }) => find_sub(
            lowercase_of(value@),
            lowercase_of(token@),
        ) is Some,
        (Expectation::ProposesInferredEdge, CandidatePayload::Edge { plane }) => plane
            == RelationshipPlane::Inferred,
        _ => false,
    }
}

/// Whether `pat` occurs in `s` (`str::contains`).
pub(crate) fn contains(s: &str, pat: &str) -> (r: bool)
    ensures
        r == (find_sub(s@, pat@) is Some),
{
    let sv = chars_of(s);
    let pv = chars_of(pat);
    if pv.len() == 0 {
        assert(s@.subrange(0, 0) =~= pat@);
        return true;
    }
    find_sub_exec(&sv, &pv).is_some()
}

impl Expectation {
    /// Whether any of the proposed candidates meets this expectation.
    pub fn satisfied_by(&self, outputs: &Vec<CandidatePayload>) -> (r: bool)
        ensures
            r == exists|i: int| 0 <= i < outputs@.len() && meets(*self, #[trigger] outputs@[i]),
    {
        let mut k: usize = 0;
        while k < outputs.len()
            invariant
                0 <= k <= outputs.len(),
                forall|i: int| 0 <= i < k ==> !meets(*self, #[trigger] outputs@[i]),
            decreases outputs.len() - k,
        {
            let hit = match (self, &outputs[k]) {
                (Expectation::SummaryContains(token), CandidatePayload::Summary { value }) => {
                    let v = to_lowercase(value.as_str());
                    let t = to_lowercase(token.as_str());
                    contains(v.as_str(), t.as_str())
                },
                (Expectation::ProposesInferredEdge, CandidatePayload::Edge { plane }) => {
                    match plane {
                        RelationshipPlane::Inferred => true,
                        _ => false,
                    }
                },
                _ => false,
            };
            if hit {
                assert(meets(*self, outputs@[k as int]));
                return true;
            }
            k = k + 1;
        }
        false
    }
}

} // verus!

verus! {

/// One calibration task as it ran: the role it measures, its expectation,
/// what the partner proposed for it, whether any output was well-formed and
/// whether any cited its sources (both read by the caller, since
/// well-formedness checks a confidence range), and the extension of the
/// task's file, if it has one.
pub struct TaskRun {
    pub role: String,
    pub expectation: Expectation,
    pub outputs: Vec<CandidatePayload>,
    pub structured: bool,
    pub attributed: bool,
    pub extension: Option<String>,
}

/// The integer measurements of a calibration battery: per role, how many
/// tasks were answered correctly out of how many (each role once, in order of
/// first appearance); how many tasks produced well-formed output and how many
/// cited their sources; and the extensions of the files tested, distinct and
/// in increasing order.
pub struct CalibrationTally {
    pub per_role: Vec<(String, u32, u32)>,
    pub structured: u32,
    pub attributed: u32,
    pub tested_languages: Vec<String>,
}

/// Whether a task's expectation is met by some output.
pub open spec fn satisfied(t: TaskRun) -> bool {
    exists|i: int| 0 <= i < t.outputs@.len() && meets(t.expectation, #[trigger] t.outputs@[i])
}

/// (correct, total) over the tasks of `role`.
pub open spec fn role_tally(ts: Seq<TaskRun>, role: Seq<char>) -> (nat, nat)
    decreases ts.len(),
{
    if ts.len() == 0 {
        (0, 0)
    } else {
        let (c, n) = role_tally(ts.drop_last(), role);
        if ts.last().role@ == role {
            (if satisfied(ts.last()) {
                c + 1
            } else {
                c
            }, n + 1)
        } else {
            (c, n)
        }
    }
}

/// How many tasks produced well-formed output.
pub open spec fn structured_count(ts: Seq<TaskRun>) -> nat
    decreases ts.len(),
{
    if ts.len() == 0 {
        0
    } else {
        structured_count(ts.drop_last()) + if ts.last().structured {
            1nat
        } else {
            0nat
        }
    }
}

/// How many tasks produced output citing its sources.
pub open spec fn attributed_count(ts: Seq<TaskRun>) -> nat
    decreases ts.len(),
{
    if ts.len() == 0 {
        0
    } else {
        attributed_count(ts.drop_last()) + if ts.last().attributed {
            1nat
        } else {
            0nat
        }
    }
}

/// The extensions of the tasks' files, in task order.
pub open spec fn extensions_of(ts: Seq<TaskRun>) -> Seq<Seq<char>>
    decreases ts.len(),
{
    if ts.len() == 0 {
        seq![]
    } else {
        let rest = extensions_of(ts.drop_last());
        match ts.last().extension {
            Some(e) => rest.push(e@),
            None => rest,
        }
    }
}

/// The first index of `role` among `names`.
pub open spec fn role_index(names: Seq<Seq<char>>, role: Seq<char>) -> Option<int>
    decreases names.len(),
{
    if names.len() == 0 {
        None
    } else {
        match role_index(names.drop_last(), role) {
            Some(i) => Some(i),
            None => if names.last() == role {
                Some(names.len() - 1)
            } else {
                None
            },
        }
    }
}

proof fn lemma_role_index(names: Seq<Seq<char>>, role: Seq<char>)
    ensures
        role_index(names, role) matches Some(i) ==> 0 <= i < names.len() && names[i] == role
            && forall|m: int| 0 <= m < i ==> names[m] != role,
        role_index(names, role) is None ==> forall|m: int| 0 <= m < names.len() ==> names[m] != role,
    decreases names.len(),
{
    if names.len() > 0 {
        let front = names.drop_last();
        lemma_role_index(front, role);
        assert forall|m: int| 0 <= m < front.len() implies front[m] == names[m] by {}
    }
}

/// Where `role` stands among `names`.
fn find_role(names: &Vec<String>, role: &str) -> (r: Option<usize>)
    ensures
        r matches Some(j) ==> j < names@.len() && names@[j as int]@ == role@,
        r is None ==> forall|m: int| 0 <= m < names@.len() ==> names@[m]@ != role@,
{
    let mut j: usize = 0;
    while j < names.len()
        invariant
            0 <= j <= names.len(),
            forall|m: int| 0 <= m < j ==> names@[m]@ != role@,
        decreases names.len() - j,
    {
        if crate::text::str_eq(names[j].as_str(), role) {
            return Some(j);
        }
        j = j + 1;
    }
    None
}

proof fn lemma_correct_within_total(ts: Seq<TaskRun>, role: Seq<char>)
    ensures
        role_tally(ts, role).0 <= role_tally(ts, role).1,
    decreases ts.len(),
{
    if ts.len() > 0 {
        lemma_correct_within_total(ts.drop_last(), role);
    }
}

/// The role names of a tally, in order.
pub open spec fn role_names(v: Seq<(String, u32, u32)>) -> Seq<Seq<char>> {
    v.map_values(|e: (String, u32, u32)| e.0@)
}

/// Tally a calibration battery's runs.
pub fn tally(runs: &Vec<TaskRun>) -> (r: CalibrationTally)
    requires
        runs@.len() < u32::MAX,
    ensures
        role_names(r.per_role@).no_duplicates(),
        forall|role: Seq<char>|
            match #[trigger] role_index(role_names(r.per_role@), role) {
                Some(i) => r.per_role@[i].1 as nat == role_tally(runs@, role).0
                    && r.per_role@[i].2 as nat == role_tally(runs@, role).1,
                None => role_tally(runs@, role).1 == 0,
            },
        forall|i: int| 0 <= i < r.per_role@.len() ==> #[trigger] r.per_role@[i].2 > 0,
        r.structured as nat == structured_count(runs@),
        r.attributed as nat == attributed_count(runs@),
        crate::order::string_views(r.tested_languages@) == crate::order::sorted_arrangement(
            extensions_of(runs@).to_set(),
        ),
{
    let mut names: Vec<String> = Vec::new();
    let mut correct: Vec<u32> = Vec::new();
    let mut total: Vec<u32> = Vec::new();
    let mut structured: u32 = 0;
    let mut attributed: u32 = 0;
    let mut extensions: Vec<String> = Vec::new();
    let mut k: usize = 0;
    while k < runs.len()
        invariant
            0 <= k <= runs.len(),
            runs@.len() < u32::MAX,
            names@.len() == correct@.len() == total@.len(),
            crate::order::string_views(names@).no_duplicates(),
            forall|role: Seq<char>|
                match #[trigger] role_index(crate::order::string_views(names@), role) {
                    Some(i) => correct@[i] as nat == role_tally(runs@.take(k as int), role).0
                        && total@[i] as nat == role_tally(runs@.take(k as int), role).1,
                    None => role_tally(runs@.take(k as int), role).1 == 0,
                },
            forall|i: int| 0 <= i < total@.len() ==> 0 < #[trigger] total@[i] <= k,
            forall|i: int| 0 <= i < total@.len() ==> #[trigger] correct@[i] <= total@[i],
            structured as nat == structured_count(runs@.take(k as int)),
            attributed as nat == attributed_count(runs@.take(k as int)),
            structured <= k,
            attributed <= k,
            crate::order::string_views(extensions@) == extensions_of(runs@.take(k as int)),
        decreases runs.len() - k,
    {
        let run = &runs[k];
        let ghost prev = runs@.take(k as int);
        let ghost next = runs@.take(k + 1);
        assert(next.drop_last() =~= prev);
        assert(next.last() == *run);
        let hit = run.expectation.satisfied_by(&run.outputs);
        let ghost nv = crate::order::string_views(names@);
        let ghost oc = correct@;
        let ghost ot = total@;
        let ghost role0 = run.role@;
        proof {
            lemma_role_index(nv, role0);
            assert(hit == satisfied(*run));
        }
        let found = find_role(&names, run.role.as_str());
        match found {
            Some(j) => {
                assert(nv[j as int] == role0);
                assert(role_index(nv, role0) == Some(j as int)) by {
                    if let Some(i) = role_index(nv, role0) {
                        if i != j as int {
                            assert(nv.no_duplicates());
                            assert(nv[i] == nv[j as int]);
                        }
                    }
                }
                let c = correct[j];
                let n = total[j];
                if hit {
                    correct.set(j, c + 1);
                }
                total.set(j, n + 1);
            },
            None => {
                assert forall|m: int| 0 <= m < nv.len() implies nv[m] != role0 by {
                    assert(nv[m] == names@[m]@);
                }
                assert(role_index(nv, role0) is None);
                names.push(run.role.clone());
                correct.push(if hit { 1 } else { 0 });
                total.push(1);
                proof {
                    let nv2 = crate::order::string_views(names@);
                    assert(nv2 =~= nv.push(role0));
                    assert forall|a: int, b: int|
                        0 <= a < nv2.len() && 0 <= b < nv2.len() && a != b implies nv2[a]
                        != nv2[b] by {
                        if a < nv.len() && b < nv.len() {
                            assert(nv.no_duplicates());
                        }
                    }
                }
            },
        }
        proof {
            let nv2 = crate::order::string_views(names@);
            assert forall|role: Seq<char>|
                match #[trigger] role_index(nv2, role) {
                    Some(i) => correct@[i] as nat == role_tally(next, role).0 && total@[i] as nat
                        == role_tally(next, role).1,
                    None => role_tally(next, role).1 == 0,
                } by {
                let pt = role_tally(prev, role);
                lemma_correct_within_total(prev, role);
                lemma_role_index(nv, role);
                assert(role_tally(next, role) == (if role0 == role {
                    (if satisfied(*run) {
                        pt.0 + 1
                    } else {
                        pt.0
                    }, pt.1 + 1)
                } else {
                    pt
                }));
                let old_at = role_index(nv, role);
                assert(match old_at {
                    Some(i) => oc[i] as nat == pt.0 && ot[i] as nat == pt.1,
                    None => pt.1 == 0,
                });
                match found {
                    Some(j) => {
                        assert(nv2 =~= nv);
                        if role == role0 {
                            assert(old_at == Some(j as int));
                        } else if let Some(i) = old_at {
                            assert(nv[i] == role);
                            assert(i != j as int);
                            assert(correct@[i] == oc[i]);
                            assert(total@[i] == ot[i]);
                        }
                    },
                    None => {
                        assert(nv2.drop_last() =~= nv);
                        assert(nv2.last() == role0);
                        if let Some(i) = old_at {
                            assert(role_index(nv2, role) == Some(i));
                            assert(correct@[i] == oc[i]);
                            assert(total@[i] == ot[i]);
                        } else if role == role0 {
                            assert(role_index(nv2, role) == Some(nv.len() as int));
                        } else {
                            assert(role_index(nv2, role) is None);
                        }
                    },
                }
            }
        }
        if run.structured {
            structured = structured + 1;
        }
        if run.attributed {
            attributed = attributed + 1;
        }
        match &run.extension {
            Some(e) => {
                extensions.push(e.clone());
                assert(crate::order::string_views(extensions@) =~= extensions_of(prev).push(e@));
            },
            None => {},
        }
        k = k + 1;
    }
    assert(runs@.take(runs@.len() as int) =~= runs@);
    let mut per_role: Vec<(String, u32, u32)> = Vec::new();
    let mut i: usize = 0;
    while i < names.len()
        invariant
            0 <= i <= names.len(),
            names@.len() == correct@.len() == total@.len(),
            per_role@.len() == i,
            forall|m: int|
                0 <= m < i ==> (#[trigger] per_role@[m]).0@ == names@[m]@ && per_role@[m].1
                    == correct@[m] && per_role@[m].2 == total@[m],
        decreases names.len() - i,
    {
        per_role.push((names[i].clone(), correct[i], total[i]));
        i = i + 1;
    }
    assert(role_names(per_role@) =~= crate::order::string_views(names@));
    assert forall|role: Seq<char>|
        match #[trigger] role_index(role_names(per_role@), role) {
            Some(i) => per_role@[i].1 as nat == role_tally(runs@, role).0 && per_role@[i].2 as nat
                == role_tally(runs@, role).1,
            None => role_tally(runs@, role).1 == 0,
        } by {
        let nv = crate::order::string_views(names@);
        assert(role_index(nv, role) == role_index(role_names(per_role@), role));
        lemma_role_index(nv, role);
        if let Some(i) = role_index(nv, role) {
            assert(per_role@[i].1 == correct@[i]);
            assert(per_role@[i].2 == total@[i]);
        }
    }
    let tested_languages = crate::order::sorted_distinct_strings(&extensions);
    CalibrationTally { per_role, structured, attributed, tested_languages }
}

} // verus!
