//! Expanding the text of a Rust `use` path into the items it imports.
//!
//! Nested brace groups (`a::{b::{C, D}, E}`) are expanded by balanced
//! splitting; aliases import the pre-`as` name; globs and bare module keywords
//! name no item; only paths rooted at `crate`, `self` or `super` are kept,
//! because nothing inside the scanned repository could provide anything else.
use vstd::prelude::*;
use crate::text::{
    after_last, after_last_exec, before_first, before_first_exec, chars_eq, chars_of, find_char,
    find_char_exec, find_char_from, is_ws, rfind_char, rfind_char_below, rfind_char_exec,
    skip_ws_from, slice_chars, views, string_of, strip_suffixes, strip_suffixes_exec, trim, trim_chars,
    trim_start, trim_ws_back,
};
use crate::parsers::adapter::ParsedImport;

verus! {

pub open spec fn colons() -> Seq<char> {
    seq![':', ':']
}

pub open spec fn as_sep() -> Seq<char> {
    seq![' ', 'a', 's', ' ']
}

pub open spec fn kw_crate() -> Seq<char> {
    seq!['c', 'r', 'a', 't', 'e']
}

pub open spec fn kw_self() -> Seq<char> {
    seq!['s', 'e', 'l', 'f']
}

pub open spec fn kw_super() -> Seq<char> {
    seq!['s', 'u', 'p', 'e', 'r']
}

/// `crate`, `self` or `super`: the roots of a repository-relative path.
pub open spec fn is_path_keyword(s: Seq<char>) -> bool {
    s == kw_crate() || s == kw_self() || s == kw_super()
}

/// Commas at brace depth zero split `s`; this scans from `i` with the given
/// depth, the current part having started at `start`.
pub open spec fn split_scan(s: Seq<char>, i: int, depth: int, start: int) -> Seq<Seq<char>>
    decreases s.len() - i,
{
    if i < 0 || i >= s.len() {
        seq![s.subrange(start, s.len() as int)]
    } else if s[i] == '{' {
        split_scan(s, i + 1, depth + 1, start)
    } else if s[i] == '}' {
        split_scan(s, i + 1, depth - 1, start)
    } else if s[i] == ',' && depth == 0 {
        seq![s.subrange(start, i)] + split_scan(s, i + 1, depth, i + 1)
    } else {
        split_scan(s, i + 1, depth, start)
    }
}

/// The parts of `s` between commas that are not inside a `{…}` group.
pub open spec fn split_top(s: Seq<char>) -> Seq<Seq<char>> {
    split_scan(s, 0, 0, 0)
}

/// `prefix::segment`, where an empty side contributes nothing.
pub open spec fn join_path_spec(prefix: Seq<char>, segment: Seq<char>) -> Seq<char> {
    if prefix.len() == 0 {
        segment
    } else if segment.len() == 0 {
        prefix
    } else {
        prefix + colons() + segment
    }
}

/// The imports (path, item) named by `text` under `prefix`.
pub open spec fn expand_spec(prefix: Seq<char>, text: Seq<char>) -> Seq<(Seq<char>, Seq<char>)>
    decreases text.len(), 2int, 0int,
{
    expand_parts_spec(prefix, split_top(text), text.len() as int)
}

pub open spec fn expand_parts_spec(prefix: Seq<char>, parts: Seq<Seq<char>>, bound: int) -> Seq<
    (Seq<char>, Seq<char>),
>
    decreases bound, 1int, parts.len(),
{
    if parts.len() == 0 {
        seq![]
    } else {
        expand_part_spec(prefix, parts[0], bound) + expand_parts_spec(
            prefix,
            parts.drop_first(),
            bound,
        )
    }
}

/// Where the brace group of a trimmed part `p` opening at `b` closes: at its
/// last `}`, or at the end when there is none.
pub open spec fn group_close(p: Seq<char>) -> int {
    match rfind_char(p, '}') {
        Some(c) => c,
        None => p.len() as int,
    }
}

/// The path segment in front of a brace group.
pub open spec fn group_segment(p: Seq<char>, b: int) -> Seq<char> {
    trim(strip_suffixes(trim(p.take(b)), colons()))
}

/// The name a plain part imports: the text before ` as `, trimmed.
pub open spec fn import_name(p: Seq<char>) -> Seq<char> {
    trim(before_first(p, as_sep()))
}

/// The leaf item of a name: what follows its last `::`, trimmed.
pub open spec fn import_leaf(name: Seq<char>) -> Seq<char> {
    trim(after_last(name, colons()))
}

/// The imports a plain (brace-free) trimmed part yields under `prefix`.
pub open spec fn plain_part_spec(prefix: Seq<char>, p: Seq<char>) -> Seq<(Seq<char>, Seq<char>)> {
    let name = import_name(p);
    let leaf = import_leaf(name);
    let full = join_path_spec(prefix, name);
    let root = before_first(full, colons());
    if leaf.len() == 0 || leaf == seq!['*'] || is_path_keyword(leaf) {
        seq![]
    } else if !is_path_keyword(root) {
        seq![]
    } else {
        seq![(full, leaf)]
    }
}

pub open spec fn expand_part_spec(prefix: Seq<char>, part: Seq<char>, bound: int) -> Seq<
    (Seq<char>, Seq<char>),
>
    decreases bound, 0int, 0int,
{
    let p = trim(part);
    if p.len() == 0 || p.len() > bound {
        seq![]
    } else {
        match find_char(p, '{') {
            Some(b) => {
                let close = group_close(p);
                if 0 <= b && b + 1 <= close && close <= p.len() {
                    expand_spec(
                        join_path_spec(prefix, group_segment(p, b)),
                        p.subrange(b + 1, close),
                    )
                } else {
                    seq![]
                }
            },
            None => plain_part_spec(prefix, p),
        }
    }
}

/// Every brace group in `text` closes after it opens, at every depth: the
/// texts the expansion can slice without running backwards.
pub open spec fn use_text_ok(text: Seq<char>) -> bool
    decreases text.len(), 2int, 0int,
{
    parts_ok(split_top(text), text.len() as int)
}

pub open spec fn parts_ok(parts: Seq<Seq<char>>, bound: int) -> bool
    decreases bound, 1int, parts.len(),
{
    if parts.len() == 0 {
        true
    } else {
        part_ok(parts[0], bound) && parts_ok(parts.drop_first(), bound)
    }
}

pub open spec fn part_ok(part: Seq<char>, bound: int) -> bool
    decreases bound, 0int, 0int,
{
    let p = trim(part);
    if p.len() == 0 || p.len() > bound {
        true
    } else {
        match find_char(p, '{') {
            Some(b) => {
                let close = group_close(p);
                if 0 <= b && b + 1 <= close && close <= p.len() {
                    use_text_ok(p.subrange(b + 1, close))
                } else {
                    false
                }
            },
            None => true,
        }
    }
}

/// The (path, item) pairs of a list of imports.
pub open spec fn import_pairs(v: Seq<ParsedImport>) -> Seq<(Seq<char>, Seq<char>)> {
    v.map_values(|x: ParsedImport| (x.path@, x.item@))
}

proof fn lemma_find_char_from_range(s: Seq<char>, c: char, i: int)
    ensures
        find_char_from(s, c, i) matches Some(k) ==> i <= k < s.len() && s[k] == c,
    decreases s.len() - i,
{
    if 0 <= i < s.len() && s[i] != c {
        lemma_find_char_from_range(s, c, i + 1);
    }
}

proof fn lemma_rfind_char_below_range(s: Seq<char>, c: char, j: int)
    ensures
        rfind_char_below(s, c, j) matches Some(k) ==> 0 <= k < j && s[k] == c,
    decreases j,
{
    if 0 < j <= s.len() && s[j - 1] != c {
        lemma_rfind_char_below_range(s, c, j - 1);
    }
}

proof fn lemma_skip_ws_range(s: Seq<char>, i: int)
    requires
        0 <= i <= s.len(),
    ensures
        i <= skip_ws_from(s, i) <= s.len(),
    decreases s.len() - i,
{
    if i < s.len() && is_ws(s[i]) {
        lemma_skip_ws_range(s, i + 1);
    }
}

proof fn lemma_trim_ws_back_range(s: Seq<char>, j: int)
    requires
        0 <= j <= s.len(),
    ensures
        0 <= trim_ws_back(s, j) <= j,
    decreases j,
{
    if 0 < j && is_ws(s[j - 1]) {
        lemma_trim_ws_back_range(s, j - 1);
    }
}

/// Trimming never lengthens.
pub proof fn lemma_trim_len(s: Seq<char>)
    ensures
        trim(s).len() <= s.len(),
{
    lemma_skip_ws_range(s, 0);
    let t = trim_start(s);
    lemma_trim_ws_back_range(t, t.len() as int);
}

proof fn lemma_split_scan_parts_short(s: Seq<char>, i: int, depth: int, start: int)
    requires
        0 <= start <= i <= s.len(),
    ensures
        forall|k: int|
            0 <= k < split_scan(s, i, depth, start).len() ==> #[trigger] split_scan(
                s,
                i,
                depth,
                start,
            )[k].len() <= s.len(),
    decreases s.len() - i,
{
    let all = split_scan(s, i, depth, start);
    if i >= s.len() {
        assert(all == seq![s.subrange(start, s.len() as int)]);
        assert forall|k: int| 0 <= k < all.len() implies #[trigger] all[k].len() <= s.len() by {
            assert(all[k] == s.subrange(start, s.len() as int));
        }
    } else if s[i] == ',' && depth == 0 && s[i] != '{' && s[i] != '}' {
        lemma_split_scan_parts_short(s, i + 1, depth, i + 1);
        let rest = split_scan(s, i + 1, depth, i + 1);
        assert(all == seq![s.subrange(start, i)] + rest);
        assert forall|k: int| 0 <= k < all.len() implies #[trigger] all[k].len() <= s.len() by {
            if k > 0 {
                assert(all[k] == rest[k - 1]);
            }
        }
    } else {
        let d = if s[i] == '{' {
            depth + 1
        } else if s[i] == '}' {
            depth - 1
        } else {
            depth
        };
        lemma_split_scan_parts_short(s, i + 1, d, start);
        let rest = split_scan(s, i + 1, d, start);
        assert(all == rest);
        assert forall|k: int| 0 <= k < all.len() implies #[trigger] all[k].len() <= s.len() by {
            assert(all[k] == rest[k]);
        }
    }
}

/// Split `text` on commas that are not inside a `{…}` group.
pub fn split_top_level(text: &Vec<char>) -> (parts: Vec<Vec<char>>)
    ensures
        views(parts@) == split_top(text@),
        forall|k: int| 0 <= k < parts.len() ==> #[trigger] parts[k]@.len() <= text@.len(),
{
    let ghost s = text@;
    let mut parts: Vec<Vec<char>> = Vec::new();
    let mut depth: i128 = 0;
    let mut start: usize = 0;
    let mut i: usize = 0;
    proof {
        lemma_split_scan_parts_short(s, 0, 0, 0);
    }
    while i < text.len()
        invariant
            s == text@,
            0 <= start <= i <= text.len(),
            -(i as int) <= depth <= i as int,
            views(parts@) + split_scan(s, i as int, depth as int, start as int) == split_top(s),
            forall|k: int| 0 <= k < parts.len() ==> #[trigger] parts[k]@.len() <= s.len(),
        decreases text.len() - i,
    {
        let c = text[i];
        proof {
            lemma_split_scan_parts_short(s, i as int, depth as int, start as int);
        }
        if c == '{' {
            depth = depth + 1;
        } else if c == '}' {
            depth = depth - 1;
        } else if c == ',' && depth == 0 {
            let part = slice_chars(text, start, i);
            let ghost before = views(parts@);
            parts.push(part);
            assert(views(parts@) =~= before.push(s.subrange(start as int, i as int)));
            assert(seq![s.subrange(start as int, i as int)] + split_scan(
                s,
                i + 1,
                depth as int,
                i + 1,
            ) == split_scan(s, i as int, depth as int, start as int));
            assert(views(parts@) + split_scan(s, i + 1, depth as int, i + 1) =~= before + (seq![
                s.subrange(start as int, i as int),
            ] + split_scan(s, i + 1, depth as int, i + 1)));
            start = i + 1;
        }
        i = i + 1;
    }
    let last = slice_chars(text, start, text.len());
    let ghost before = views(parts@);
    parts.push(last);
    assert(views(parts@) =~= before.push(s.subrange(start as int, s.len() as int)));
    assert(views(parts@) =~= split_top(s));
    parts
}

/// `prefix::segment`, where an empty side contributes nothing.
pub fn join_path(prefix: &Vec<char>, segment: &Vec<char>) -> (r: Vec<char>)
    ensures
        r@ == join_path_spec(prefix@, segment@),
{
    if prefix.len() == 0 {
        segment.clone()
    } else if segment.len() == 0 {
        prefix.clone()
    } else {
        let mut r = prefix.clone();
        r.push(':');
        r.push(':');
        let mut k: usize = 0;
        while k < segment.len()
            invariant
                0 <= k <= segment.len(),
                r@ == prefix@ + colons() + segment@.take(k as int),
            decreases segment.len() - k,
        {
            r.push(segment[k]);
            k = k + 1;
        }
        assert(segment@.take(segment.len() as int) =~= segment@);
        r
    }
}

fn colons_vec() -> (v: Vec<char>)
    ensures
        v@ == colons(),
{
    let v = vec![':', ':'];
    assert(v@ =~= colons());
    v
}

fn as_sep_vec() -> (v: Vec<char>)
    ensures
        v@ == as_sep(),
{
    let v = vec![' ', 'a', 's', ' '];
    assert(v@ =~= as_sep());
    v
}

fn is_path_keyword_exec(s: &Vec<char>) -> (r: bool)
    ensures
        r == is_path_keyword(s@),
{
    let c = vec!['c', 'r', 'a', 't', 'e'];
    let sf = vec!['s', 'e', 'l', 'f'];
    let su = vec!['s', 'u', 'p', 'e', 'r'];
    assert(c@ =~= kw_crate());
    assert(sf@ =~= kw_self());
    assert(su@ =~= kw_super());
    chars_eq(s, &c) || chars_eq(s, &sf) || chars_eq(s, &su)
}

/// The import a plain trimmed part yields, if any.
fn plain_part(prefix: &Vec<char>, p: &Vec<char>, line: usize) -> (r: Option<ParsedImport>)
    ensures
        match r {
            Some(imp) => plain_part_spec(prefix@, p@) == seq![(imp.path@, imp.item@)]
                && imp.intra_repo && imp.start_line == line,
            None => plain_part_spec(prefix@, p@) == Seq::<(Seq<char>, Seq<char>)>::empty(),
        },
{
    let colons = colons_vec();
    let sep = as_sep_vec();
    let name = trim_chars(&before_first_exec(p, &sep));
    let leaf = trim_chars(&after_last_exec(&name, &colons));
    let star = vec!['*'];
    if leaf.len() == 0 || chars_eq(&leaf, &star) || is_path_keyword_exec(&leaf) {
        proof {
            assert(star@ =~= seq!['*']);
        }
        return None;
    }
    proof {
        assert(star@ =~= seq!['*']);
    }
    let full = join_path(prefix, &name);
    let root = before_first_exec(&full, &colons);
    if !is_path_keyword_exec(&root) {
        return None;
    }
    Some(ParsedImport { path: string_of(&full), item: string_of(&leaf), intra_repo: true, start_line: line })
}

/// Expand one `use` text under `prefix`, appending each import to `out`.
pub fn expand_use(prefix: &Vec<char>, text: &Vec<char>, line: usize, out: &mut Vec<ParsedImport>)
    requires
        use_text_ok(text@),
    ensures
        import_pairs(final(out)@) == import_pairs(old(out)@) + expand_spec(prefix@, text@),
        final(out)@.len() >= old(out)@.len(),
        forall|k: int| 0 <= k < old(out)@.len() ==> #[trigger] final(out)@[k] == old(out)@[k],
        forall|k: int|
            old(out)@.len() <= k < final(out)@.len() ==> #[trigger] final(out)@[k].intra_repo
                && final(out)@[k].start_line == line,
    decreases text@.len(), 1int,
{
    let parts = split_top_level(text);
    let ghost ps = views(parts@);
    let ghost bound = text@.len() as int;
    let ghost start_len = out@.len();
    let ghost start_out = out@;
    let mut k: usize = 0;
    assert(ps.skip(0) =~= ps);
    while k < parts.len()
        invariant
            ps == views(parts@),
            ps == split_top(text@),
            bound == text@.len(),
            parts_ok(ps, bound),
            forall|m: int| 0 <= m < parts.len() ==> #[trigger] parts[m]@.len() <= bound,
            0 <= k <= parts.len(),
            expand_parts_spec(prefix@, ps, bound) == (import_pairs(out@).skip(start_len as int)
                + expand_parts_spec(prefix@, ps.skip(k as int), bound)),
            parts_ok(ps.skip(k as int), bound),
            out@.len() >= start_len,
            start_len == start_out.len(),
            import_pairs(out@).take(start_len as int) == import_pairs(start_out),
            forall|m: int| 0 <= m < start_len ==> #[trigger] out@[m] == start_out[m],
            forall|m: int|
                start_len <= m < out@.len() ==> #[trigger] out@[m].intra_repo && out@[m].start_line
                    == line,
        decreases parts.len() - k,
    {
        let ghost rest = ps.skip(k as int);
        assert(rest[0] == parts[k as int]@);
        assert(rest.drop_first() =~= ps.skip(k + 1));
        let ghost before_out = out@;
        expand_one_part(prefix, &parts[k], line, Ghost(bound), out);
        proof {
            let added = expand_part_spec(prefix@, parts[k as int]@, bound);
            assert(import_pairs(out@) =~= import_pairs(before_out) + added);
            assert(import_pairs(out@).skip(start_len as int) =~= import_pairs(before_out).skip(
                start_len as int,
            ) + added);
            assert(import_pairs(out@).take(start_len as int) =~= import_pairs(before_out).take(
                start_len as int,
            ));
        }
        k = k + 1;
    }
    proof {
        assert(ps.skip(parts.len() as int) =~= Seq::<Seq<char>>::empty());
        assert(import_pairs(out@) =~= import_pairs(out@).take(start_len as int) + import_pairs(
            out@,
        ).skip(start_len as int));
    }
}

/// Expand one part of a split `use` text.
fn expand_one_part(
    prefix: &Vec<char>,
    part: &Vec<char>,
    line: usize,
    Ghost(bound): Ghost<int>,
    out: &mut Vec<ParsedImport>,
)
    requires
        part@.len() <= bound,
        part_ok(part@, bound),
    ensures
        import_pairs(final(out)@) == import_pairs(old(out)@) + expand_part_spec(
            prefix@,
            part@,
            bound,
        ),
        final(out)@.len() >= old(out)@.len(),
        forall|k: int| 0 <= k < old(out)@.len() ==> #[trigger] final(out)@[k] == old(out)@[k],
        forall|k: int|
            old(out)@.len() <= k < final(out)@.len() ==> #[trigger] final(out)@[k].intra_repo
                && final(out)@[k].start_line == line,
    decreases bound, 0int,
{
    let p = trim_chars(part);
    proof {
        lemma_trim_len(part@);
    }
    if p.len() == 0 {
        assert(import_pairs(out@) =~= import_pairs(out@) + Seq::<(Seq<char>, Seq<char>)>::empty());
        return;
    }
    match find_char_exec(&p, '{') {
        Some(brace) => {
            let close = match rfind_char_exec(&p, '}') {
                Some(c) => c,
                None => p.len(),
            };
            proof {
                lemma_find_char_from_range(p@, '{', 0);
            }
            let head = slice_chars(&p, 0, brace);
            assert(head@ =~= p@.take(brace as int));
            let colons = colons_vec();
            let segment = trim_chars(&strip_suffixes_exec(&trim_chars(&head), &colons));
            let inner = slice_chars(&p, brace + 1, close);
            let joined = join_path(prefix, &segment);
            expand_use(&joined, &inner, line, out);
        },
        None => {
            let ghost before = out@;
            match plain_part(prefix, &p, line) {
                Some(imp) => {
                    out.push(imp);
                    assert(import_pairs(out@) =~= import_pairs(before) + seq![(imp.path@, imp.item@)]);
                },
                None => {
                    assert(import_pairs(out@) =~= import_pairs(out@) + Seq::<
                        (Seq<char>, Seq<char>),
                    >::empty());
                },
            }
        },
    }
}

/// The imports named by one `use` path's text, each recorded at `line`.
pub fn expand_use_path(text: &str, line: usize, out: &mut Vec<ParsedImport>)
    requires
        use_text_ok(text@),
    ensures
        import_pairs(final(out)@) == import_pairs(old(out)@) + expand_spec(Seq::empty(), text@),
        forall|k: int| 0 <= k < old(out)@.len() ==> #[trigger] final(out)@[k] == old(out)@[k],
        forall|k: int|
            old(out)@.len() <= k < final(out)@.len() ==> #[trigger] final(out)@[k].intra_repo
                && final(out)@[k].start_line == line,
{
    let chars = chars_of(text);
    let empty: Vec<char> = Vec::new();
    assert(empty@ =~= Seq::<char>::empty());
    expand_use(&empty, &chars, line, out);
}

/// Whether every brace group in `text` closes after it opens, at every depth:
/// exactly the texts `expand_use` accepts.
pub fn use_text_expandable(text: &Vec<char>) -> (r: bool)
    ensures
        r == use_text_ok(text@),
    decreases text@.len(), 1int,
{
    let parts = split_top_level(text);
    let ghost ps = views(parts@);
    let ghost bound = text@.len() as int;
    let mut k: usize = 0;
    assert(ps.skip(0) =~= ps);
    while k < parts.len()
        invariant
            ps == views(parts@),
            ps == split_top(text@),
            bound == text@.len(),
            forall|m: int| 0 <= m < parts.len() ==> #[trigger] parts[m]@.len() <= bound,
            0 <= k <= parts.len(),
            use_text_ok(text@) == parts_ok(ps.skip(k as int), bound),
        decreases parts.len() - k,
    {
        let ghost rest = ps.skip(k as int);
        assert(rest[0] == parts[k as int]@);
        assert(rest.drop_first() =~= ps.skip(k + 1));
        if !part_expandable(&parts[k], Ghost(bound)) {
            return false;
        }
        k = k + 1;
    }
    assert(ps.skip(parts.len() as int) =~= Seq::<Seq<char>>::empty());
    true
}

fn part_expandable(part: &Vec<char>, Ghost(bound): Ghost<int>) -> (r: bool)
    requires
        part@.len() <= bound,
    ensures
        r == part_ok(part@, bound),
    decreases bound, 0int,
{
    let p = trim_chars(part);
    proof {
        lemma_trim_len(part@);
    }
    if p.len() == 0 {
        return true;
    }
    match find_char_exec(&p, '{') {
        Some(brace) => {
            let close = match rfind_char_exec(&p, '}') {
                Some(c) => c,
                None => p.len(),
            };
            proof {
                lemma_find_char_from_range(p@, '{', 0);
            }
            if brace + 1 <= close {
                let inner = slice_chars(&p, brace + 1, close);
                use_text_expandable(&inner)
            } else {
                false
            }
        },
        None => true,
    }
}

/// `s` holds no opening brace.
pub open spec fn brace_free(s: Seq<char>) -> bool {
    forall|i: int| 0 <= i < s.len() ==> s[i] != '{'
}

proof fn lemma_brace_free_trim(s: Seq<char>)
    requires
        brace_free(s),
    ensures
        brace_free(trim(s)),
{
    lemma_skip_ws_range(s, 0);
    let a = skip_ws_from(s, 0);
    let t = trim_start(s);
    assert forall|i: int| 0 <= i < t.len() implies t[i] != '{' by {
        assert(t[i] == s[i + a]);
    }
    lemma_trim_ws_back_range(t, t.len() as int);
    let b = trim_ws_back(t, t.len() as int);
    assert forall|i: int| 0 <= i < trim(s).len() implies trim(s)[i] != '{' by {
        assert(trim(s)[i] == t[i]);
    }
}

proof fn lemma_find_sub_from_matches(s: Seq<char>, pat: Seq<char>, i: int)
    ensures
        crate::text::find_sub_from(s, pat, i) matches Some(k) ==> crate::text::matches_at(
            s,
            pat,
            k,
        ),
    decreases s.len() + 1 - i,
{
    if !(i < 0 || i + pat.len() > s.len()) && !crate::text::matches_at(s, pat, i) {
        lemma_find_sub_from_matches(s, pat, i + 1);
    }
}

proof fn lemma_rfind_sub_below_matches(s: Seq<char>, pat: Seq<char>, j: int)
    ensures
        crate::text::rfind_sub_below(s, pat, j) matches Some(k) ==> crate::text::matches_at(
            s,
            pat,
            k,
        ),
    decreases j,
{
    if j > 0 && !crate::text::matches_at(s, pat, j - 1) {
        lemma_rfind_sub_below_matches(s, pat, j - 1);
    }
}

proof fn lemma_plain_part_items(prefix: Seq<char>, p: Seq<char>)
    requires
        brace_free(p),
    ensures
        forall|i: int|
            0 <= i < plain_part_spec(prefix, p).len() ==> import_item_ok(
                #[trigger] plain_part_spec(prefix, p)[i],
            ),
{
    let bf = before_first(p, as_sep());
    lemma_find_sub_from_matches(p, as_sep(), 0);
    assert(brace_free(bf)) by {
        assert forall|i: int| 0 <= i < bf.len() implies bf[i] != '{' by {
            assert(bf[i] == p[i]);
        }
    }
    lemma_brace_free_trim(bf);
    let name = import_name(p);
    if crate::text::rfind_sub(name, colons()).is_some() {
        lemma_rfind_sub_below_matches(name, colons(), name.len() - colons().len() + 1);
    }
    let al = after_last(name, colons());
    assert(brace_free(al)) by {
        assert forall|i: int| 0 <= i < al.len() implies al[i] != '{' by {
            match crate::text::rfind_sub(name, colons()) {
                Some(k) => {
                    assert(al[i] == name[i + k + 2]);
                },
                None => {},
            }
        }
    }
    lemma_brace_free_trim(al);
}

/// One expanded import is well formed: its item holds no opening brace, and
/// its path is rooted at `crate`, `self` or `super`.
pub open spec fn import_item_ok(pair: (Seq<char>, Seq<char>)) -> bool {
    brace_free(pair.1) && is_path_keyword(before_first(pair.0, colons()))
}

proof fn lemma_expand_items(prefix: Seq<char>, text: Seq<char>)
    ensures
        forall|i: int|
            0 <= i < expand_spec(prefix, text).len() ==> import_item_ok(
                #[trigger] expand_spec(prefix, text)[i],
            ),
    decreases text.len(), 2int, 0int,
{
    lemma_expand_parts_items(prefix, split_top(text), text.len() as int);
    assert(expand_spec(prefix, text) == expand_parts_spec(
        prefix,
        split_top(text),
        text.len() as int,
    ));
}

proof fn lemma_expand_parts_items(prefix: Seq<char>, parts: Seq<Seq<char>>, bound: int)
    ensures
        forall|i: int|
            0 <= i < expand_parts_spec(prefix, parts, bound).len() ==> import_item_ok(
                #[trigger] expand_parts_spec(prefix, parts, bound)[i],
            ),
    decreases bound, 1int, parts.len(),
{
    if parts.len() > 0 {
        lemma_expand_part_items(prefix, parts[0], bound);
        lemma_expand_parts_items(prefix, parts.drop_first(), bound);
        let a = expand_part_spec(prefix, parts[0], bound);
        let b = expand_parts_spec(prefix, parts.drop_first(), bound);
        assert forall|i: int| 0 <= i < (a + b).len() implies import_item_ok(#[trigger] (a + b)[i]) by {
            if i < a.len() {
                assert((a + b)[i] == a[i]);
            } else {
                assert((a + b)[i] == b[i - a.len()]);
            }
        }
    }
}

proof fn lemma_expand_part_items(prefix: Seq<char>, part: Seq<char>, bound: int)
    ensures
        forall|i: int|
            0 <= i < expand_part_spec(prefix, part, bound).len() ==> import_item_ok(
                #[trigger] expand_part_spec(prefix, part, bound)[i],
            ),
    decreases bound, 0int, 0int,
{
    let p = trim(part);
    let r = expand_part_spec(prefix, part, bound);
    if p.len() == 0 || p.len() > bound {
        assert(r == Seq::<(Seq<char>, Seq<char>)>::empty());
    } else {
        match find_char(p, '{') {
            Some(b) => {
                let close = group_close(p);
                if 0 <= b && b + 1 <= close && close <= p.len() {
                    lemma_expand_items(
                        join_path_spec(prefix, group_segment(p, b)),
                        p.subrange(b + 1, close),
                    );
                    assert(r == expand_spec(
                        join_path_spec(prefix, group_segment(p, b)),
                        p.subrange(b + 1, close),
                    ));
                } else {
                    assert(r == Seq::<(Seq<char>, Seq<char>)>::empty());
                }
            },
            None => {
                assert(brace_free(p)) by {
                    lemma_no_char_found(p, '{', 0);
                }
                lemma_plain_part_items(prefix, p);
                assert(r == plain_part_spec(prefix, p));
            },
        }
    }
}

proof fn lemma_no_char_found(s: Seq<char>, c: char, i: int)
    requires
        0 <= i,
        find_char_from(s, c, i) is None,
    ensures
        forall|j: int| i <= j < s.len() ==> s[j] != c,
    decreases s.len() - i,
{
    if i < s.len() {
        lemma_no_char_found(s, c, i + 1);
    }
}

/// What a `use` path expands to never leaks a brace into an item name, and
/// every import it yields is rooted at `crate`, `self` or `super`: an
/// external path yields nothing.
pub proof fn law_expanded_imports_are_intra_repo_items(text: Seq<char>)
    ensures
        forall|i: int|
            0 <= i < expand_spec(seq![], text).len() ==> import_item_ok(
                #[trigger] expand_spec(seq![], text)[i],
            ),
{
    lemma_expand_items(seq![], text);
}


/// A character of a Rust identifier.
pub open spec fn is_ident_char(c: char) -> bool {
    ('a' <= c && c <= 'z') || ('A' <= c && c <= 'Z') || ('0' <= c && c <= '9') || c == '_'
}

/// A character of a plain path: an identifier character or `:`.
pub open spec fn is_path_char(c: char) -> bool {
    is_ident_char(c) || c == ':'
}

proof fn lemma_path_char_not_ws(c: char)
    requires
        is_path_char(c),
    ensures
        !is_ws(c),
        c != ' ' && c != ',' && c != '{' && c != '}' && c != '*',
{
}

proof fn lemma_split_scan_whole(s: Seq<char>, i: int)
    requires
        0 <= i <= s.len(),
        forall|m: int| 0 <= m < s.len() ==> is_path_char(#[trigger] s[m]),
    ensures
        split_scan(s, i, 0, 0) == seq![s],
    decreases s.len() - i,
{
    if i < s.len() {
        lemma_path_char_not_ws(s[i]);
        lemma_split_scan_whole(s, i + 1);
    } else {
        assert(s.subrange(0, s.len() as int) =~= s);
    }
}

proof fn lemma_no_match_from(s: Seq<char>, pat: Seq<char>, i: int, k: int)
    requires
        0 <= i <= k,
        pat.len() > 0,
        forall|m: int| i <= m < k && m < s.len() ==> s[m] != pat[0],
        k + pat.len() <= s.len() ==> crate::text::matches_at(s, pat, k),
        k + pat.len() > s.len() ==> forall|m: int| i <= m < s.len() ==> s[m] != pat[0],
    ensures
        crate::text::find_sub_from(s, pat, i) == (if k + pat.len() <= s.len() {
            Some(k)
        } else {
            None::<int>
        }),
    decreases s.len() + 1 - i,
{
    if i + pat.len() > s.len() {
    } else if i < k {
        if crate::text::matches_at(s, pat, i) {
            assert(s.subrange(i, i + pat.len())[0] == s[i]);
        }
        lemma_no_match_from(s, pat, i + 1, k);
    } else if k + pat.len() > s.len() {
        if crate::text::matches_at(s, pat, i) {
            assert(s.subrange(i, i + pat.len())[0] == s[i]);
        }
        lemma_no_match_from(s, pat, i + 1, k);
    }
}

proof fn lemma_last_match_below(s: Seq<char>, pat: Seq<char>, j: int, k: int)
    requires
        0 <= k < j,
        crate::text::matches_at(s, pat, k),
        forall|m: int| k < m < j ==> !crate::text::matches_at(s, pat, m),
    ensures
        crate::text::rfind_sub_below(s, pat, j) == Some(k),
    decreases j,
{
    if j - 1 > k {
        lemma_last_match_below(s, pat, j - 1, k);
    }
}

proof fn lemma_trim_plain(s: Seq<char>)
    requires
        s.len() > 0,
        forall|m: int| 0 <= m < s.len() ==> is_path_char(#[trigger] s[m]),
    ensures
        trim(s) == s,
{
    lemma_path_char_not_ws(s[0]);
    lemma_path_char_not_ws(s[s.len() - 1]);
    assert(skip_ws_from(s, 0) == 0);
    assert(trim_start(s) =~= s);
    assert(trim_ws_back(s, s.len() as int) == s.len());
    assert(trim_start(s).take(s.len() as int) =~= s);
}

/// A plain path rooted at `crate`, `self` or `super` whose last segment is a
/// name imports exactly that path and that name: no repository-relative
/// path is dropped, whatever keyword roots it.
pub proof fn law_a_rooted_path_imports_its_leaf(root: Seq<char>, middle: Seq<char>, leaf: Seq<char>)
    requires
        root == seq!['c', 'r', 'a', 't', 'e'] || root == seq!['s', 'e', 'l', 'f'] || root
            == seq!['s', 'u', 'p', 'e', 'r'],
        forall|m: int| 0 <= m < middle.len() ==> is_path_char(#[trigger] middle[m]),
        middle.len() == 0 || (middle.len() >= 2 && middle[middle.len() - 1] == ':'
            && middle[middle.len() - 2] == ':'),
        leaf.len() > 0,
        forall|m: int| 0 <= m < leaf.len() ==> is_ident_char(#[trigger] leaf[m]),
        leaf != seq!['c', 'r', 'a', 't', 'e'] && leaf != seq!['s', 'e', 'l', 'f'] && leaf
            != seq!['s', 'u', 'p', 'e', 'r'],
    ensures
        expand_spec(seq![], root + seq![':', ':'] + middle + leaf) == seq![
            (root + seq![':', ':'] + middle + leaf, leaf),
        ],
{
    let p = root + seq![':', ':'] + middle + leaf;
    let r = root.len() as int;
    let n = p.len() as int;
    let l = leaf.len() as int;
    assert forall|m: int| 0 <= m < n implies is_path_char(#[trigger] p[m]) by {
        if m < r {
            assert(p[m] == root[m]);
        } else if m < r + 2 {
            assert(p[m] == ':');
        } else if m < r + 2 + middle.len() {
            assert(p[m] == middle[m - r - 2]);
        } else {
            assert(p[m] == leaf[m - r - 2 - middle.len()]);
        }
    }
    assert forall|m: int| n - l <= m < n implies p[m] == leaf[m - (n - l)] && p[m] != ':' by {
        assert(p[m] == leaf[m - (n - l)]);
    }
    // The text is one part, already trimmed, with no brace.
    lemma_split_scan_whole(p, 0);
    assert(split_top(p) == seq![p]);
    lemma_trim_plain(p);
    assert(find_char(p, '{') is None) by {
        lemma_find_char_from_range(p, '{', 0);
        if let Some(b) = find_char(p, '{') {
            lemma_path_char_not_ws(p[b]);
        }
    }
    // Nothing is aliased: the text holds no space.
    assert(crate::text::find_sub(p, as_sep()) is None) by {
        assert forall|m: int| 0 <= m < n implies p[m] != as_sep()[0] by {
            lemma_path_char_not_ws(p[m]);
        }
        lemma_no_match_from(p, as_sep(), 0, n);
    }
    assert(before_first(p, as_sep()) == p);
    let name = import_name(p);
    assert(name == p);
    // The leaf follows the last `::`.
    let k = n - l - 2;
    assert(p[k] == ':' && p[k + 1] == ':') by {
        if middle.len() == 0 {
            assert(p[k] == ':' && p[k + 1] == ':');
        } else {
            assert(p[k] == middle[middle.len() - 2]);
            assert(p[k + 1] == middle[middle.len() - 1]);
        }
    }
    assert(crate::text::matches_at(p, colons(), k)) by {
        assert(p.subrange(k, k + 2) =~= colons());
    }
    assert forall|m: int| k < m < n - 1 implies !crate::text::matches_at(p, colons(), m) by {
        if crate::text::matches_at(p, colons(), m) {
            assert(p.subrange(m, m + 2)[1] == p[m + 1]);
        }
    }
    lemma_last_match_below(p, colons(), n - 1, k);
    assert(crate::text::rfind_sub(p, colons()) == Some(k));
    assert(after_last(p, colons()) =~= leaf);
    lemma_trim_plain(leaf);
    assert(import_leaf(name) == leaf);
    // The root precedes the first `::`.
    assert(crate::text::matches_at(p, colons(), r)) by {
        assert(p.subrange(r, r + 2) =~= colons());
    }
    assert(crate::text::find_sub(p, colons()) == Some(r)) by {
        assert forall|m: int| 0 <= m < r && m < n implies p[m] != colons()[0] by {
            assert(p[m] == root[m]);
        }
        lemma_no_match_from(p, colons(), 0, r);
    }
    assert(before_first(p, colons()) =~= root);
    assert(join_path_spec(seq![], p) == p);
    assert(leaf != seq!['*']) by {
        assert(is_ident_char(leaf[0]));
    }
    assert(plain_part_spec(seq![], p) == seq![(p, leaf)]);
    assert(expand_part_spec(seq![], p, n) == seq![(p, leaf)]);
    assert(expand_parts_spec(seq![], seq![p], n) == seq![(p, leaf)]) by {
        assert(seq![p].drop_first() =~= Seq::<Seq<char>>::empty());
        assert(expand_parts_spec(seq![], seq![p].drop_first(), n) =~= Seq::<(Seq<char>, Seq<char>)>::empty());
        assert(seq![(p, leaf)] + Seq::<(Seq<char>, Seq<char>)>::empty() =~= seq![(p, leaf)]);
    }
}

} // verus!
