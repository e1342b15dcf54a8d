//! Incremental parsing: reuse a file's parse while its content is unchanged.
//!
//! What is cached is the parse, never the entities built from it. The key is
//! the file's content fingerprint, so a fingerprint can never claim a file is
//! unchanged when it is not; a missing or evicted entry costs a re-parse and is
//! never wrong.
use vstd::prelude::*;
use crate::parsers::adapter::{ParsedImport, ParsedSymbol};
use crate::text::{chars_eq, chars_of};

verus! {

/// Everything parsing a source file yields that enrichment needs.
#[derive(Clone, Debug)]
pub struct ParsedFile {
    /// Top-level declarations, which become Moon entities.
    pub symbols: Vec<ParsedSymbol>,
    /// Intra-repo imports, which become `requires` sockets.
    pub imports: Vec<ParsedImport>,
    /// Identifiers a macro expands from.
    pub macro_names: Vec<String>,
}

impl ParsedFile {
    /// A parse that found nothing.
    pub fn empty() -> (r: Self)
        ensures
            r.symbols@.len() == 0,
            r.imports@.len() == 0,
            r.macro_names@.len() == 0,
    {
        ParsedFile { symbols: Vec::new(), imports: Vec::new(), macro_names: Vec::new() }
    }
}

/// Parse results keyed by file content fingerprint.
#[derive(Debug)]
pub struct ParseCache {
    entries: Vec<(String, ParsedFile)>,
    hits: usize,
    misses: usize,
}

/// The position of the entry keyed `k`, searching from `i`.
pub open spec fn entry_index_from(es: Seq<(String, ParsedFile)>, k: Seq<char>, i: int) -> Option<
    int,
>
    decreases es.len() - i,
{
    if i < 0 || i >= es.len() {
        None
    } else if es[i].0@ == k {
        Some(i)
    } else {
        entry_index_from(es, k, i + 1)
    }
}

pub open spec fn entry_index(es: Seq<(String, ParsedFile)>, k: Seq<char>) -> Option<int> {
    entry_index_from(es, k, 0)
}

/// The fingerprints of a list of entries, in order.
pub open spec fn entry_keys(es: Seq<(String, ParsedFile)>) -> Seq<Seq<char>> {
    es.map_values(|e: (String, ParsedFile)| e.0@)
}

/// The entries as a map from fingerprint to parse.
pub open spec fn entries_map(es: Seq<(String, ParsedFile)>) -> Map<Seq<char>, ParsedFile> {
    Map::new(|k: Seq<char>| entry_index(es, k) is Some, |k: Seq<char>| es[entry_index(es, k)->0].1)
}

proof fn lemma_entry_index_from(es: Seq<(String, ParsedFile)>, k: Seq<char>, i: int)
    requires
        0 <= i,
    ensures
        entry_index_from(es, k, i) matches Some(j) ==> i <= j < es.len() && es[j].0@ == k
            && forall|m: int| i <= m < j ==> es[m].0@ != k,
        entry_index_from(es, k, i) is None ==> forall|m: int| i <= m < es.len() ==> es[m].0@ != k,
    decreases es.len() - i,
{
    if i < es.len() && es[i].0@ != k {
        lemma_entry_index_from(es, k, i + 1);
    }
}

/// With distinct keys, the entry keyed `k` is the one at `j` exactly when
/// `j` holds `k`.
proof fn lemma_entry_index_unique(es: Seq<(String, ParsedFile)>, k: Seq<char>, j: int)
    requires
        entry_keys(es).no_duplicates(),
        0 <= j < es.len(),
        es[j].0@ == k,
    ensures
        entry_index(es, k) == Some(j),
{
    lemma_entry_index_from(es, k, 0);
    match entry_index(es, k) {
        Some(m) => {
            if m != j {
                assert(entry_keys(es)[m] == entry_keys(es)[j]);
            }
        },
        None => {},
    }
}

impl View for ParseCache {
    type V = Map<Seq<char>, ParsedFile>;

    closed spec fn view(&self) -> Map<Seq<char>, ParsedFile> {
        entries_map(self.entries@)
    }
}

impl ParseCache {
    /// The fingerprints held, in insertion order, each once.
    pub closed spec fn keys(self) -> Seq<Seq<char>> {
        entry_keys(self.entries@)
    }

    pub closed spec fn spec_hits(self) -> nat {
        self.hits as nat
    }

    pub closed spec fn spec_misses(self) -> nat {
        self.misses as nat
    }

    /// A cache holds finitely many parses.
    pub proof fn lemma_domain_finite(self)
        ensures
            self@.dom().finite(),
    {
        let es = self.entries@;
        let ks = entry_keys(es).to_set();
        assert forall|k: Seq<char>| self@.dom().contains(k) implies ks.contains(k) by {
            lemma_entry_index_from(es, k, 0);
            let j = entry_index(es, k)->0;
            assert(entry_keys(es)[j] == k);
        }
        vstd::seq_lib::seq_to_set_is_finite(entry_keys(es));
        vstd::set_lib::lemma_set_subset_finite(ks, self@.dom());
    }

    #[verifier::type_invariant]
    closed spec fn wf(self) -> bool {
        entry_keys(self.entries@).no_duplicates()
    }

    /// The map view holds exactly the listed fingerprints.
    proof fn lemma_keys_are_domain(&self)
        requires
            entry_keys(self.entries@).no_duplicates(),
        ensures
            self.keys().no_duplicates(),
            self@.dom() == self.keys().to_set(),
            self@.dom().finite(),
            self@.dom().len() == self.keys().len(),
    {
        let es = self.entries@;
        assert forall|k: Seq<char>| self@.dom().contains(k) <==> self.keys().contains(k) by {
            lemma_entry_index_from(es, k, 0);
            if let Some(j) = entry_index(es, k) {
                assert(self.keys()[j] == k);
            }
            if self.keys().contains(k) {
                let j = choose|j: int| 0 <= j < self.keys().len() && self.keys()[j] == k;
                lemma_entry_index_unique(es, k, j);
            }
        }
        assert(self@.dom() =~= self.keys().to_set());
        self.keys().unique_seq_to_set();
    }

    /// An empty cache with no lookups recorded.
    pub fn new() -> (r: Self)
        ensures
            r@ == Map::<Seq<char>, ParsedFile>::empty(),
            r.spec_hits() == 0,
            r.spec_misses() == 0,
    {
        let r = ParseCache { entries: Vec::new(), hits: 0, misses: 0 };
        assert(r@ =~= Map::<Seq<char>, ParsedFile>::empty());
        r
    }

    fn find(&self, fingerprint: &Vec<char>) -> (r: Option<usize>)
        ensures
            opt_usize(r) == entry_index(self.entries@, fingerprint@),
            r matches Some(i) ==> i < self.entries@.len(),
    {
        let mut i: usize = 0;
        while i < self.entries.len()
            invariant
                0 <= i <= self.entries.len(),
                entry_index(self.entries@, fingerprint@) == entry_index_from(
                    self.entries@,
                    fingerprint@,
                    i as int,
                ),
            decreases self.entries.len() - i,
        {
            let key = chars_of(self.entries[i].0.as_str());
            if chars_eq(&key, fingerprint) {
                return Some(i);
            }
            i = i + 1;
        }
        None
    }

    /// The parse for `fingerprint`, if this content has been parsed before.
    /// Records the lookup as a hit or a miss.
    pub fn get(&mut self, fingerprint: &str) -> (r: Option<&ParsedFile>)
        requires
            old(self).spec_hits() < usize::MAX,
            old(self).spec_misses() < usize::MAX,
        ensures
            final(self)@ == old(self)@,
            final(self).keys() == old(self).keys(),
            match r {
                Some(p) => old(self)@.contains_key(fingerprint@) && *p == old(self)@[fingerprint@]
                    && final(self).spec_hits() == old(self).spec_hits() + 1
                    && final(self).spec_misses() == old(self).spec_misses(),
                None => !old(self)@.contains_key(fingerprint@) && final(self).spec_hits()
                    == old(self).spec_hits() && final(self).spec_misses() == old(
                    self,
                ).spec_misses() + 1,
            },
    {
        proof {
            use_type_invariant(&*self);
        }
        let key = chars_of(fingerprint);
        match self.find(&key) {
            Some(i) => {
                self.hits = self.hits + 1;
                Some(&self.entries[i].1)
            },
            None => {
                self.misses = self.misses + 1;
                None
            },
        }
    }

    /// Record a freshly parsed file under its content fingerprint.
    pub fn insert(&mut self, fingerprint: String, parsed: ParsedFile)
        ensures
            final(self)@ == old(self)@.insert(fingerprint@, parsed),
            final(self).spec_hits() == old(self).spec_hits(),
            final(self).spec_misses() == old(self).spec_misses(),
    {
        proof {
            use_type_invariant(&*self);
        }
        let key = chars_of(fingerprint.as_str());
        let ghost old_es = self.entries@;
        let ghost k = fingerprint@;
        match self.find(&key) {
            Some(i) => {
                let mut entries: Vec<(String, ParsedFile)> = Vec::new();
                std::mem::swap(&mut entries, &mut self.entries);
                entries.set(i, (fingerprint, parsed));
                proof {
                    lemma_entry_index_from(old_es, k, 0);
                    let es = entries@;
                    assert(entry_keys(es) =~= entry_keys(old_es));
                    assert forall|x: Seq<char>| #[trigger] entry_index(es, x) == entry_index(
                        old_es,
                        x,
                    ) by {
                        lemma_entry_index_from(es, x, 0);
                        lemma_entry_index_from(old_es, x, 0);
                        if entry_index(old_es, x) is Some {
                            let j = entry_index(old_es, x)->0;
                            lemma_entry_index_unique(es, x, j);
                        } else if entry_index(es, x) is Some {
                            let j = entry_index(es, x)->0;
                            assert(old_es[j].0@ == x);
                        }
                    }
                    assert forall|x: Seq<char>|
                        #[trigger] entries_map(es).dom().contains(x) implies entries_map(es)[x]
                        == entries_map(old_es).insert(k, parsed)[x] by {
                        assert(entry_index(es, x) == entry_index(old_es, x));
                        if x != k {
                            lemma_entry_index_from(old_es, x, 0);
                            let j = entry_index(old_es, x)->0;
                            assert(j != i);
                            assert(es[j] == old_es[j]);
                        } else {
                            assert(es[i as int] == (fingerprint, parsed));
                        }
                    }
                    assert(entries_map(es) =~= entries_map(old_es).insert(k, parsed));
                }
                self.entries = entries;
            },
            None => {
                let mut entries: Vec<(String, ParsedFile)> = Vec::new();
                std::mem::swap(&mut entries, &mut self.entries);
                entries.push((fingerprint, parsed));
                proof {
                    let es = entries@;
                    lemma_entry_index_from(old_es, k, 0);
                    assert(entry_keys(es) =~= entry_keys(old_es).push(k));
                    assert forall|a: int, b: int|
                        0 <= a < b < entry_keys(es).len() implies entry_keys(es)[a] != entry_keys(
                        es,
                    )[b] by {
                        if b == es.len() - 1 {
                            assert(old_es[a].0@ != k);
                        }
                    }
                    assert forall|x: Seq<char>|
                        #[trigger] entry_index(es, x) == if x == k {
                            Some(old_es.len() as int)
                        } else {
                            entry_index(old_es, x)
                        } by {
                        lemma_entry_index_from(es, x, 0);
                        lemma_entry_index_from(old_es, x, 0);
                        if x == k {
                            lemma_entry_index_unique(es, x, old_es.len() as int);
                        } else if entry_index(old_es, x) is Some {
                            let j = entry_index(old_es, x)->0;
                            lemma_entry_index_unique(es, x, j);
                        } else if entry_index(es, x) is Some {
                            let j = entry_index(es, x)->0;
                            assert(j < old_es.len());
                            assert(old_es[j].0@ == x);
                        }
                    }
                    assert forall|x: Seq<char>|
                        #[trigger] entries_map(es).dom().contains(x) implies entries_map(es)[x]
                        == entries_map(old_es).insert(k, parsed)[x] by {
                        if x != k {
                            assert(entry_index(es, x) == entry_index(old_es, x));
                            lemma_entry_index_from(old_es, x, 0);
                            let j = entry_index(old_es, x)->0;
                            assert(es[j] == old_es[j]);
                        }
                    }
                    assert(entries_map(es) =~= entries_map(old_es).insert(k, parsed));
                }
                self.entries = entries;
            },
        }
    }

    /// Drop entries for content no longer present, keeping exactly the
    /// fingerprints listed in `live`.
    pub fn retain_fingerprints(&mut self, live: &Vec<String>)
        ensures
            final(self)@ == old(self)@.restrict(string_set(live@)),
            final(self).spec_hits() == old(self).spec_hits(),
            final(self).spec_misses() == old(self).spec_misses(),
    {
        proof {
            use_type_invariant(&*self);
        }
        let ghost live_set = string_set(live@);
        let ghost old_es = self.entries@;
        let mut entries: Vec<(String, ParsedFile)> = Vec::new();
        std::mem::swap(&mut entries, &mut self.entries);
        let mut kept: Vec<(String, ParsedFile)> = Vec::new();
        for e in it: entries
            invariant
                it.seq() == old_es,
                live_set == string_set(live@),
                entry_keys(old_es).no_duplicates(),
                kept@ == old_es.take(it.index() as int).filter(live_pred(live_set)),
        {
            let ghost idx = it.index();
            proof {
                assert(old_es.take(idx + 1) =~= old_es.take(idx as int).push(e));
                old_es.take(idx as int).lemma_filter_push(e, live_pred(live_set));
            }
            let keep = contains_string(live, &e.0);
            assert(keep == live_set.contains(e.0@));
            assert(keep == live_pred(live_set)(e));
            if keep {
                kept.push(e);
            }
        }
        proof {
            assert(old_es.take(old_es.len() as int) =~= old_es);
            lemma_filter_restrict(old_es, live_set);
        }
        self.entries = kept;
    }

    /// Cached parses currently held.
    pub fn len(&self) -> (r: usize)
        ensures
            self@.dom().finite(),
            r == self@.dom().len(),
    {
        proof {
            use_type_invariant(self);
            self.lemma_keys_are_domain();
        }
        self.entries.len()
    }

    pub fn is_empty(&self) -> (r: bool)
        ensures
            self@.dom().finite(),
            r == (self@.dom().len() == 0),
    {
        proof {
            use_type_invariant(self);
            self.lemma_keys_are_domain();
        }
        self.entries.len() == 0
    }

    /// Files served from cache, and files that had to be parsed.
    pub fn stats(&self) -> (r: (usize, usize))
        ensures
            r.0 == self.spec_hits(),
            r.1 == self.spec_misses(),
    {
        (self.hits, self.misses)
    }
}

/// Keeps the entries whose fingerprint is in `live`.
pub open spec fn live_pred(live: Set<Seq<char>>) -> spec_fn((String, ParsedFile)) -> bool {
    |x: (String, ParsedFile)| live.contains(x.0@)
}

/// Filtering keeps keys distinct.
proof fn lemma_filter_distinct(
    es: Seq<(String, ParsedFile)>,
    pred: spec_fn((String, ParsedFile)) -> bool,
)
    requires
        entry_keys(es).no_duplicates(),
    ensures
        entry_keys(es.filter(pred)).no_duplicates(),
    decreases es.len(),
{
    reveal(Seq::filter);
    if es.len() > 0 {
        let init = es.drop_last();
        assert(entry_keys(init) =~= entry_keys(es).drop_last());
        lemma_filter_distinct(init, pred);
        assert(es =~= init.push(es.last()));
        init.lemma_filter_push(es.last(), pred);
        if pred(es.last()) {
            let f = init.filter(pred);
            let g = f.push(es.last());
            assert forall|a: int, b: int|
                0 <= a < b < entry_keys(g).len() implies entry_keys(g)[a] != entry_keys(g)[b] by {
                if b == g.len() - 1 {
                    assert(f.contains(f[a]));
                    init.lemma_filter_contains_rev(pred, f[a]);
                    let j = choose|j: int| 0 <= j < init.len() && #[trigger] init[j] == f[a];
                    assert(entry_keys(es)[j] != entry_keys(es)[es.len() - 1]);
                } else {
                    assert(entry_keys(f)[a] != entry_keys(f)[b]);
                }
            }
        }
    }
}

/// Filtering distinct-keyed entries by fingerprint restricts their map.
proof fn lemma_filter_restrict(es: Seq<(String, ParsedFile)>, live: Set<Seq<char>>)
    requires
        entry_keys(es).no_duplicates(),
    ensures
        entry_keys(es.filter(live_pred(live))).no_duplicates(),
        entries_map(es.filter(live_pred(live))) == entries_map(es).restrict(live),
{
    let p = live_pred(live);
    let f = es.filter(p);
    lemma_filter_distinct(es, p);
    assert forall|x: Seq<char>|
        #[trigger] entries_map(f).dom().contains(x) <==> entries_map(es).restrict(
            live,
        ).dom().contains(x) by {
        lemma_entry_index_from(f, x, 0);
        lemma_entry_index_from(es, x, 0);
        if let Some(j) = entry_index(f, x) {
            assert(f.contains(f[j]));
            es.lemma_filter_contains_rev(p, f[j]);
            es.lemma_filter_pred(p, j);
            let m = choose|m: int| 0 <= m < es.len() && #[trigger] es[m] == f[j];
            lemma_entry_index_unique(es, x, m);
        }
        if let Some(m) = entry_index(es, x) {
            if live.contains(x) {
                es.lemma_filter_contains(p, m);
                let j = choose|j: int| 0 <= j < f.len() && #[trigger] f[j] == es[m];
                lemma_entry_index_unique(f, x, j);
            }
        }
    }
    assert forall|x: Seq<char>|
        #[trigger] entries_map(f).dom().contains(x) implies entries_map(f)[x] == entries_map(
        es,
    )[x] by {
        lemma_entry_index_from(f, x, 0);
        let j = entry_index(f, x)->0;
        assert(f.contains(f[j]));
        es.lemma_filter_contains_rev(p, f[j]);
        let m = choose|m: int| 0 <= m < es.len() && #[trigger] es[m] == f[j];
        lemma_entry_index_unique(es, x, m);
    }
    assert(entries_map(f) =~= entries_map(es).restrict(live));
}

/// A found position, as a mathematical index.
pub open spec fn opt_usize(r: Option<usize>) -> Option<int> {
    match r {
        Some(i) => Some(i as int),
        None => None,
    }
}

/// The strings of a list, as a set of character sequences.
pub open spec fn string_set(v: Seq<String>) -> Set<Seq<char>> {
    v.map_values(|s: String| s@).to_set()
}

/// Whether `live` lists `s`.
fn contains_string(live: &Vec<String>, s: &String) -> (r: bool)
    ensures
        r == string_set(live@).contains(s@),
{
    let target = chars_of(s.as_str());
    let mut i: usize = 0;
    while i < live.len()
        invariant
            0 <= i <= live.len(),
            target@ == s@,
            forall|j: int| 0 <= j < i ==> live@[j]@ != s@,
        decreases live.len() - i,
    {
        let cand = chars_of(live[i].as_str());
        if chars_eq(&cand, &target) {
            assert(live@.map_values(|s: String| s@)[i as int] == s@);
            return true;
        }
        i = i + 1;
    }
    assert(!live@.map_values(|s: String| s@).contains(s@)) by {
        if live@.map_values(|s: String| s@).contains(s@) {
            let lv = live@.map_values(|s: String| s@);
            let j = choose|j: int| 0 <= j < lv.len() && #[trigger] lv[j] == s@;
            assert(live@[j]@ == s@);
        }
    }
    false
}

/// What is stored is what is served: after a parse is recorded under a
/// fingerprint, a lookup of that fingerprint finds exactly that parse, and a
/// lookup of any other fingerprint finds what it found before; retaining the
/// live fingerprints keeps every stored parse of live content unchanged.
pub proof fn law_a_stored_parse_is_served(
    cache: Map<Seq<char>, ParsedFile>,
    fingerprint: Seq<char>,
    parsed: ParsedFile,
    other: Seq<char>,
    live: Set<Seq<char>>,
)
    ensures
        cache.insert(fingerprint, parsed).contains_key(fingerprint),
        cache.insert(fingerprint, parsed)[fingerprint] == parsed,
        other != fingerprint ==> (cache.insert(fingerprint, parsed).contains_key(other)
            == cache.contains_key(other)) && (cache.contains_key(other) ==> cache.insert(
            fingerprint,
            parsed,
        )[other] == cache[other]),
        cache.contains_key(other) && live.contains(other) ==> cache.restrict(live).contains_key(
            other,
        ) && cache.restrict(live)[other] == cache[other],
        !live.contains(other) ==> !cache.restrict(live).contains_key(other),
{
}


/// How many of `lookups` are `Some(found)`.
pub open spec fn count_lookups(lookups: Seq<Option<bool>>, found: bool) -> nat
    decreases lookups.len(),
{
    if lookups.len() == 0 {
        0
    } else {
        count_lookups(lookups.drop_last(), found) + if lookups.last() == Some(found) {
            1nat
        } else {
            0nat
        }
    }
}

/// One call's effect on the counters, as each method's contract states it:
/// `Some(found)` is a lookup that found its key or did not, counting a hit
/// or a miss; `None` is any other call (insert, retain, length), which
/// counts nothing.
pub open spec fn counts_step(before: ParseCache, after: ParseCache, lookup: Option<bool>) -> bool {
    match lookup {
        Some(true) => after.spec_hits() == before.spec_hits() + 1 && after.spec_misses()
            == before.spec_misses(),
        Some(false) => after.spec_hits() == before.spec_hits() && after.spec_misses()
            == before.spec_misses() + 1,
        None => after.spec_hits() == before.spec_hits() && after.spec_misses()
            == before.spec_misses(),
    }
}

/// Over any sequence of calls on a new cache, the hits count the lookups
/// that were served and the misses the lookups that found nothing.
pub proof fn law_counters_count_lookups(caches: Seq<ParseCache>, lookups: Seq<Option<bool>>)
    requires
        caches.len() == lookups.len() + 1,
        caches[0].spec_hits() == 0,
        caches[0].spec_misses() == 0,
        forall|k: int| 0 <= k < lookups.len() ==> counts_step(caches[k], caches[k + 1], #[trigger] lookups[k]),
    ensures
        caches.last().spec_hits() == count_lookups(lookups, true),
        caches.last().spec_misses() == count_lookups(lookups, false),
    decreases lookups.len(),
{
    if lookups.len() > 0 {
        let n = lookups.len() as int;
        let front = caches.drop_last();
        assert forall|k: int| 0 <= k < lookups.drop_last().len() implies counts_step(
            front[k],
            front[k + 1],
            #[trigger] lookups.drop_last()[k],
        ) by {
            assert(lookups.drop_last()[k] == lookups[k]);
            assert(counts_step(caches[k], caches[k + 1], lookups[k]));
        }
        law_counters_count_lookups(front, lookups.drop_last());
        assert(counts_step(caches[n - 1], caches[n], lookups[n - 1]));
        assert(front.last() == caches[n - 1]);
    }
}

} // verus!
