//! Lexicographic order on character sequences, and sorting a list of strings
//! into its unique strictly increasing arrangement.
//!
//! `String`'s `Ord` compares UTF-8 bytes, and UTF-8 preserves the order of
//! code points, so this order is the one `sort` on `String`s uses.
use vstd::prelude::*;
use crate::text::chars_of;

verus! {

/// `a` precedes `b` in lexicographic code-point order.
pub open spec fn lex_lt(a: Seq<char>, b: Seq<char>) -> bool
    decreases a.len(),
{
    if a.len() == 0 {
        b.len() > 0
    } else if b.len() == 0 {
        false
    } else if (a[0] as int) < (b[0] as int) {
        true
    } else if a[0] == b[0] {
        lex_lt(a.drop_first(), b.drop_first())
    } else {
        false
    }
}

pub proof fn lemma_lex_irreflexive(a: Seq<char>)
    ensures
        !lex_lt(a, a),
    decreases a.len(),
{
    if a.len() > 0 {
        lemma_lex_irreflexive(a.drop_first());
    }
}

pub proof fn lemma_lex_transitive(a: Seq<char>, b: Seq<char>, c: Seq<char>)
    requires
        lex_lt(a, b),
        lex_lt(b, c),
    ensures
        lex_lt(a, c),
    decreases a.len(),
{
    if a.len() > 0 && b.len() > 0 && c.len() > 0 {
        if a[0] == b[0] && b[0] == c[0] {
            lemma_lex_transitive(a.drop_first(), b.drop_first(), c.drop_first());
        }
    }
}

pub proof fn lemma_lex_total(a: Seq<char>, b: Seq<char>)
    ensures
        a == b || lex_lt(a, b) || lex_lt(b, a),
    decreases a.len(),
{
    if a.len() > 0 && b.len() > 0 && a[0] == b[0] {
        lemma_lex_total(a.drop_first(), b.drop_first());
        if a.drop_first() == b.drop_first() {
            assert(a =~= seq![a[0]] + a.drop_first());
            assert(b =~= seq![b[0]] + b.drop_first());
        }
    } else if a.len() > 0 && b.len() > 0 {
        let x = a[0] as int;
        let y = b[0] as int;
        if x == y {
            assert(a[0] == b[0]);
        }
    } else if a.len() == 0 && b.len() == 0 {
        assert(a =~= b);
    }
}

pub proof fn lemma_lex_asymmetric(a: Seq<char>, b: Seq<char>)
    requires
        lex_lt(a, b),
    ensures
        !lex_lt(b, a),
{
    if lex_lt(b, a) {
        lemma_lex_transitive(a, b, a);
        lemma_lex_irreflexive(a);
    }
}

/// Strictly increasing in lexicographic order.
pub open spec fn sorted_distinct(s: Seq<Seq<char>>) -> bool {
    forall|i: int, j: int| 0 <= i < j < s.len() ==> lex_lt(#[trigger] s[i], #[trigger] s[j])
}

/// The strictly increasing arrangement of a finite set of sequences.
pub open spec fn sorted_arrangement(set: Set<Seq<char>>) -> Seq<Seq<char>> {
    choose|s: Seq<Seq<char>>| sorted_distinct(s) && s.to_set() == set
}

/// The character sequences of a list of strings.
pub open spec fn string_views(v: Seq<String>) -> Seq<Seq<char>> {
    v.map_values(|s: String| s@)
}

proof fn lemma_sorted_distinct_no_duplicates(s: Seq<Seq<char>>)
    requires
        sorted_distinct(s),
    ensures
        s.no_duplicates(),
{
    assert forall|i: int, j: int| 0 <= i < s.len() && 0 <= j < s.len() && i != j implies s[i]
        != s[j] by {
        if i < j {
            assert(lex_lt(s[i], s[j]));
            lemma_lex_irreflexive(s[i]);
        } else {
            assert(lex_lt(s[j], s[i]));
            lemma_lex_irreflexive(s[j]);
        }
    }
}

/// A finite set has exactly one strictly increasing arrangement.
pub proof fn lemma_sorted_distinct_unique(s1: Seq<Seq<char>>, s2: Seq<Seq<char>>)
    requires
        sorted_distinct(s1),
        sorted_distinct(s2),
        s1.to_set() == s2.to_set(),
    ensures
        s1 == s2,
    decreases s1.len(),
{
    lemma_sorted_distinct_no_duplicates(s1);
    lemma_sorted_distinct_no_duplicates(s2);
    s1.unique_seq_to_set();
    s2.unique_seq_to_set();
    if s1.len() == 0 {
        assert(s1 =~= s2);
    } else {
        assert(s1.to_set().contains(s1[0]));
        assert(s2.contains(s1[0]));
        let j = choose|j: int| 0 <= j < s2.len() && s2[j] == s1[0];
        assert(s1.to_set().contains(s2[0]));
        let i = choose|i: int| 0 <= i < s1.len() && s1[i] == s2[0];
        if j > 0 {
            assert(lex_lt(s2[0], s2[j]));
            if i > 0 {
                assert(lex_lt(s1[0], s1[i]));
                lemma_lex_asymmetric(s2[0], s2[j]);
            } else {
                lemma_lex_irreflexive(s1[0]);
            }
        }
        assert(s1[0] == s2[0]);
        let t1 = s1.drop_first();
        let t2 = s2.drop_first();
        assert forall|x: Seq<char>| t1.to_set().contains(x) <==> t2.to_set().contains(x) by {
            if t1.contains(x) {
                let a = choose|a: int| 0 <= a < t1.len() && t1[a] == x;
                assert(s1[a + 1] == x);
                assert(s1.contains(x));
                assert(s1.to_set().contains(x));
                assert(s2.to_set().contains(x));
                assert(s2.contains(x));
                let b = choose|b: int| 0 <= b < s2.len() && s2[b] == x;
                if b == 0 {
                    assert(lex_lt(s1[0], s1[a + 1]));
                    lemma_lex_irreflexive(x);
                }
                assert(t2[b - 1] == x);
            }
            if t2.contains(x) {
                let b = choose|b: int| 0 <= b < t2.len() && t2[b] == x;
                assert(s2[b + 1] == x);
                assert(s2.contains(x));
                assert(s2.to_set().contains(x));
                assert(s1.to_set().contains(x));
                let a = choose|a: int| 0 <= a < s1.len() && s1[a] == x;
                if a == 0 {
                    assert(lex_lt(s2[0], s2[b + 1]));
                    lemma_lex_irreflexive(x);
                }
                assert(t1[a - 1] == x);
            }
        }
        assert(t1.to_set() =~= t2.to_set());
        lemma_sorted_distinct_unique(t1, t2);
        assert(s1 =~= seq![s1[0]] + t1);
        assert(s2 =~= seq![s2[0]] + t2);
    }
}

proof fn lemma_push_to_set(s: Seq<Seq<char>>, x: Seq<char>)
    ensures
        s.push(x).to_set() == s.to_set().insert(x),
{
    assert forall|y: Seq<char>| s.push(x).contains(y) <==> s.to_set().insert(x).contains(y) by {
        if s.push(x).contains(y) {
            let a = choose|a: int| 0 <= a < s.push(x).len() && s.push(x)[a] == y;
            if a < s.len() {
                assert(s[a] == y);
            }
        }
        if s.contains(y) {
            let a = choose|a: int| 0 <= a < s.len() && s[a] == y;
            assert(s.push(x)[a] == y);
        }
        if y == x {
            assert(s.push(x)[s.len() as int] == y);
        }
    }
    assert(s.push(x).to_set() =~= s.to_set().insert(x));
}

/// `a` precedes `b` in lexicographic code-point order.
pub fn lex_less(a: &Vec<char>, b: &Vec<char>) -> (r: bool)
    ensures
        r == lex_lt(a@, b@),
{
    let mut i: usize = 0;
    assert(a@.skip(0) =~= a@);
    assert(b@.skip(0) =~= b@);
    while i < a.len() && i < b.len() && a[i] == b[i]
        invariant
            0 <= i <= a.len(),
            i <= b.len(),
            lex_lt(a@, b@) == lex_lt(a@.skip(i as int), b@.skip(i as int)),
        decreases a.len() - i,
    {
        assert(a@.skip(i as int).drop_first() =~= a@.skip(i + 1));
        assert(b@.skip(i as int).drop_first() =~= b@.skip(i + 1));
        i = i + 1;
    }
    if i == a.len() {
        i < b.len()
    } else if i == b.len() {
        false
    } else {
        a[i] < b[i]
    }
}

/// The distinct strings of `v`, in increasing order.
pub fn sorted_distinct_strings(v: &Vec<String>) -> (r: Vec<String>)
    ensures
        sorted_distinct(string_views(r@)),
        string_views(r@).to_set() == string_views(v@).to_set(),
        string_views(r@) == sorted_arrangement(string_views(v@).to_set()),
{
    let mut out: Vec<String> = Vec::new();
    let mut keys: Vec<Vec<char>> = Vec::new();
    let mut k: usize = 0;
    while k < v.len()
        invariant
            0 <= k <= v.len(),
            keys@.len() == out@.len(),
            forall|m: int| 0 <= m < keys@.len() ==> #[trigger] keys@[m]@ == out@[m]@,
            sorted_distinct(string_views(out@)),
            string_views(out@).to_set() == string_views(v@.take(k as int)).to_set(),
        decreases v.len() - k,
    {
        let x = chars_of(v[k].as_str());
        let ghost sv = string_views(out@);
        let mut p: usize = 0;
        while p < keys.len() && lex_less(&keys[p], &x)
            invariant
                0 <= p <= keys@.len(),
                keys@.len() == out@.len(),
                sv == string_views(out@),
                forall|m: int| 0 <= m < keys@.len() ==> #[trigger] keys@[m]@ == out@[m]@,
                forall|m: int| 0 <= m < p ==> lex_lt(#[trigger] sv[m], x@),
            decreases keys@.len() - p,
        {
            p = p + 1;
        }
        let present = p < keys.len() && crate::text::chars_eq(&keys[p], &x);
        let ghost before_take = v@.take(k as int);
        proof {
            assert(v@.take(k + 1) =~= before_take.push(v@[k as int]));
            assert(string_views(v@.take(k + 1)) =~= string_views(before_take).push(x@));
        }
        if present {
            proof {
                assert(sv[p as int] == x@);
                lemma_push_to_set(string_views(before_take), x@);
                assert(string_views(out@).to_set() =~= string_views(out@).to_set().insert(x@));
            }
        } else {
            proof {
                if p < keys@.len() {
                    lemma_lex_total(sv[p as int], x@);
                }
            }
            let s = v[k].clone();
            out.insert(p, s);
            keys.insert(p, x);
            proof {
                let nv = string_views(out@);
                assert(nv =~= sv.insert(p as int, x@));
                assert forall|i: int, j: int| 0 <= i < j < nv.len() implies lex_lt(
                    #[trigger] nv[i],
                    #[trigger] nv[j],
                ) by {
                    if j < p {
                        assert(nv[i] == sv[i] && nv[j] == sv[j]);
                    } else if j == p {
                        assert(nv[i] == sv[i]);
                    } else if i == p {
                        assert(nv[j] == sv[j - 1]);
                        if j - 1 > p {
                            assert(lex_lt(sv[p as int], sv[j - 1]));
                            lemma_lex_transitive(x@, sv[p as int], sv[j - 1]);
                        }
                    } else if i < p {
                        assert(nv[i] == sv[i] && nv[j] == sv[j - 1]);
                        if j - 1 == p as int {
                            lemma_lex_transitive(sv[i], x@, sv[j - 1]);
                        } else {
                            assert(lex_lt(sv[p as int], sv[j - 1]));
                            lemma_lex_transitive(x@, sv[p as int], sv[j - 1]);
                            lemma_lex_transitive(sv[i], x@, sv[j - 1]);
                        }
                    } else {
                        assert(nv[i] == sv[i - 1] && nv[j] == sv[j - 1]);
                    }
                }
                assert forall|y: Seq<char>| nv.to_set().contains(y) <==> sv.to_set().insert(
                    x@,
                ).contains(y) by {
                    if nv.contains(y) {
                        let a = choose|a: int| 0 <= a < nv.len() && nv[a] == y;
                        if a < p {
                            assert(sv[a] == y);
                        } else if a > p {
                            assert(sv[a - 1] == y);
                        }
                    }
                    if sv.contains(y) {
                        let a = choose|a: int| 0 <= a < sv.len() && sv[a] == y;
                        if a < p {
                            assert(nv[a] == y);
                        } else {
                            assert(nv[a + 1] == y);
                        }
                    }
                    if y == x@ {
                        assert(nv[p as int] == y);
                    }
                }
                assert(nv.to_set() =~= sv.to_set().insert(x@));
                lemma_push_to_set(string_views(before_take), x@);
                assert forall|m: int| 0 <= m < keys@.len() implies #[trigger] keys@[m]@
                    == out@[m]@ by {
                    if m < p {
                    } else if m > p {
                    } else {
                    }
                }
            }
        }
        k = k + 1;
    }
    proof {
        assert(v@.take(v@.len() as int) =~= v@);
        let target = string_views(v@).to_set();
        let sv = string_views(out@);
        assert(sorted_distinct(sv) && sv.to_set() == target);
        let c = sorted_arrangement(target);
        assert(sorted_distinct(c) && c.to_set() == target);
        lemma_sorted_distinct_unique(sv, c);
    }
    out
}

} // verus!
