//! Character-sequence helpers shared by the parsers, the IDX codec and the
//! runtime. Strings are processed as `Vec<char>` so that every scan can be
//! stated and proved over `Seq<char>`.
use vstd::prelude::*;

verus! {

/// Unicode `White_Space`, the property `char::is_whitespace` tests.
pub open spec fn is_ws(c: char) -> bool {
    let u: u32 = c as u32;
    ||| u == 0x20
    ||| (0x09 <= u && u <= 0x0D)
    ||| u == 0x85
    ||| u == 0xA0
    ||| u == 0x1680
    ||| (0x2000 <= u && u <= 0x200A)
    ||| u == 0x2028
    ||| u == 0x2029
    ||| u == 0x202F
    ||| u == 0x205F
    ||| u == 0x3000
}

/// Whether `c` is Unicode whitespace.
pub fn is_whitespace(c: char) -> (r: bool)
    ensures
        r == is_ws(c),
{
    let u: u32 = c as u32;
    u == 0x20 || (0x09 <= u && u <= 0x0D) || u == 0x85 || u == 0xA0 || u == 0x1680 || (0x2000 <= u
        && u <= 0x200A) || u == 0x2028 || u == 0x2029 || u == 0x202F || u == 0x205F || u == 0x3000
}

/// Index of the first non-whitespace character at or after `i`.
pub open spec fn skip_ws_from(s: Seq<char>, i: int) -> int
    decreases s.len() - i,
{
    if 0 <= i < s.len() && is_ws(s[i]) {
        skip_ws_from(s, i + 1)
    } else {
        i
    }
}

/// One past the last non-whitespace character before `j`.
pub open spec fn trim_ws_back(s: Seq<char>, j: int) -> int
    decreases j,
{
    if 0 < j <= s.len() && is_ws(s[j - 1]) {
        trim_ws_back(s, j - 1)
    } else {
        j
    }
}

pub open spec fn trim_start(s: Seq<char>) -> Seq<char> {
    s.skip(skip_ws_from(s, 0))
}

pub open spec fn trim_end(s: Seq<char>) -> Seq<char> {
    s.take(trim_ws_back(s, s.len() as int))
}

/// `str::trim`: whitespace removed from both ends.
pub open spec fn trim(s: Seq<char>) -> Seq<char> {
    trim_end(trim_start(s))
}

/// First index at or after `i` holding `c`.
pub open spec fn find_char_from(s: Seq<char>, c: char, i: int) -> Option<int>
    decreases s.len() - i,
{
    if i < 0 || i >= s.len() {
        None
    } else if s[i] == c {
        Some(i)
    } else {
        find_char_from(s, c, i + 1)
    }
}

pub open spec fn find_char(s: Seq<char>, c: char) -> Option<int> {
    find_char_from(s, c, 0)
}

/// Last index below `j` holding `c`.
pub open spec fn rfind_char_below(s: Seq<char>, c: char, j: int) -> Option<int>
    decreases j,
{
    if j <= 0 || j > s.len() {
        None
    } else if s[j - 1] == c {
        Some(j - 1)
    } else {
        rfind_char_below(s, c, j - 1)
    }
}

pub open spec fn rfind_char(s: Seq<char>, c: char) -> Option<int> {
    rfind_char_below(s, c, s.len() as int)
}

/// `pat` occurs in `s` starting at `i`.
pub open spec fn matches_at(s: Seq<char>, pat: Seq<char>, i: int) -> bool {
    0 <= i && i + pat.len() <= s.len() && s.subrange(i, i + pat.len()) == pat
}

/// First start index at or after `i` where `pat` occurs.
pub open spec fn find_sub_from(s: Seq<char>, pat: Seq<char>, i: int) -> Option<int>
    decreases s.len() + 1 - i,
{
    if i < 0 || i + pat.len() > s.len() {
        None
    } else if matches_at(s, pat, i) {
        Some(i)
    } else {
        find_sub_from(s, pat, i + 1)
    }
}

pub open spec fn find_sub(s: Seq<char>, pat: Seq<char>) -> Option<int> {
    find_sub_from(s, pat, 0)
}

/// Last start index below `j` where `pat` occurs.
pub open spec fn rfind_sub_below(s: Seq<char>, pat: Seq<char>, j: int) -> Option<int>
    decreases j,
{
    if j <= 0 {
        None
    } else if matches_at(s, pat, j - 1) {
        Some(j - 1)
    } else {
        rfind_sub_below(s, pat, j - 1)
    }
}

pub open spec fn rfind_sub(s: Seq<char>, pat: Seq<char>) -> Option<int> {
    if s.len() < pat.len() {
        None
    } else {
        rfind_sub_below(s, pat, s.len() - pat.len() + 1)
    }
}

/// What precedes the first `pat` (`split(pat).next()`).
pub open spec fn before_first(s: Seq<char>, pat: Seq<char>) -> Seq<char> {
    match find_sub(s, pat) {
        Some(i) => s.take(i),
        None => s,
    }
}

/// What follows the last `pat` (`rsplit(pat).next()`).
pub open spec fn after_last(s: Seq<char>, pat: Seq<char>) -> Seq<char> {
    match rfind_sub(s, pat) {
        Some(i) => s.skip(i + pat.len()),
        None => s,
    }
}

pub open spec fn ends_with(s: Seq<char>, pat: Seq<char>) -> bool {
    pat.len() <= s.len() && s.skip(s.len() - pat.len()) == pat
}


/// `trim_end_matches(pat)` for a non-empty `pat`.
pub open spec fn strip_suffixes(s: Seq<char>, pat: Seq<char>) -> Seq<char>
    decreases s.len(),
{
    if pat.len() > 0 && ends_with(s, pat) {
        strip_suffixes(s.take(s.len() - pat.len()), pat)
    } else {
        s
    }
}

pub open spec fn contains_char(s: Seq<char>, c: char) -> bool {
    exists|i: int| 0 <= i < s.len() && s[i] == c
}

/// The character sequences of a list of character vectors.
pub open spec fn views(v: Seq<Vec<char>>) -> Seq<Seq<char>> {
    v.map_values(|p: Vec<char>| p@)
}

/// A found position, as a mathematical index.
pub open spec fn opt_index(r: Option<usize>) -> Option<int> {
    match r {
        Some(i) => Some(i as int),
        None => None,
    }
}

/// The characters of `s`, in order.
pub fn chars_of(s: &str) -> (v: Vec<char>)
    ensures
        v@ == s@,
{
    let mut v: Vec<char> = Vec::new();
    for c in it: s.chars()
        invariant
            v@ == it.seq().take(it.index() as int),
    {
        v.push(c);
    }
    v
}

/// `std::string::String::from_iter`: a `String` holding exactly the characters of `v`.
#[verifier::external_body]
pub(crate) fn string_of(v: &Vec<char>) -> (s: String)
    ensures
        s@ == v@,
{
    String::from_iter(v.iter())
}

/// `String::push`: appends one character.
#[verifier::external_body]
pub(crate) fn push_char(s: &mut String, c: char)
    ensures
        final(s)@ == old(s)@.push(c),
{
    s.push(c)
}

/// Appends the characters of `t` to `s`.
pub fn push_str(s: &mut String, t: &str)
    ensures
        final(s)@ == old(s)@ + t@,
{
    s.append(t);
}

/// `s@.subrange(lo, hi)` as a fresh vector.
pub fn slice_chars(s: &Vec<char>, lo: usize, hi: usize) -> (r: Vec<char>)
    requires
        lo <= hi <= s.len(),
    ensures
        r@ == s@.subrange(lo as int, hi as int),
{
    let mut r: Vec<char> = Vec::new();
    let mut i: usize = lo;
    while i < hi
        invariant
            lo <= i <= hi <= s.len(),
            r@ == s@.subrange(lo as int, i as int),
        decreases hi - i,
    {
        r.push(s[i]);
        i = i + 1;
    }
    r
}

/// Whether two character sequences are equal.
pub fn chars_eq(a: &Vec<char>, b: &Vec<char>) -> (r: bool)
    ensures
        r == (a@ == b@),
{
    if a.len() != b.len() {
        return false;
    }
    let mut i: usize = 0;
    while i < a.len()
        invariant
            a.len() == b.len(),
            0 <= i <= a.len(),
            forall|j: int| 0 <= j < i ==> a@[j] == b@[j],
        decreases a.len() - i,
    {
        if a[i] != b[i] {
            return false;
        }
        i = i + 1;
    }
    assert(a@ =~= b@);
    true
}

/// Whether `s` equals the string `t`.
pub fn chars_eq_str(s: &Vec<char>, t: &str) -> (r: bool)
    ensures
        r == (s@ == t@),
{
    let tv = chars_of(t);
    chars_eq(s, &tv)
}

/// Whether two strings are equal.
pub fn str_eq(a: &str, b: &str) -> (r: bool)
    ensures
        r == (a@ == b@),
{
    let av = chars_of(a);
    let bv = chars_of(b);
    chars_eq(&av, &bv)
}

/// `str::trim`.
pub fn trim_chars(s: &Vec<char>) -> (r: Vec<char>)
    ensures
        r@ == trim(s@),
{
    let mut i: usize = 0;
    while i < s.len() && is_whitespace(s[i])
        invariant
            0 <= i <= s.len(),
            skip_ws_from(s@, 0) == skip_ws_from(s@, i as int),
        decreases s.len() - i,
    {
        i = i + 1;
    }
    let start: usize = i;
    let ghost ts = s@.skip(start as int);
    let mut j: usize = s.len();
    while j > start && is_whitespace(s[j - 1])
        invariant
            start <= j <= s.len(),
            ts == s@.skip(start as int),
            trim_ws_back(ts, ts.len() as int) == trim_ws_back(ts, j - start),
        decreases j,
    {
        j = j - 1;
    }
    let r = slice_chars(s, start, j);
    assert(r@ =~= ts.take(j - start));
    r
}

/// `find` of a single character.
pub fn find_char_exec(s: &Vec<char>, c: char) -> (r: Option<usize>)
    ensures
        opt_index(r) == find_char(s@, c),
        r matches Some(i) ==> i < s.len(),
{
    let mut i: usize = 0;
    while i < s.len()
        invariant
            0 <= i <= s.len(),
            find_char(s@, c) == find_char_from(s@, c, i as int),
        decreases s.len() - i,
    {
        if s[i] == c {
            return Some(i);
        }
        i = i + 1;
    }
    None
}

/// `rfind` of a single character.
pub fn rfind_char_exec(s: &Vec<char>, c: char) -> (r: Option<usize>)
    ensures
        opt_index(r) == rfind_char(s@, c),
        r matches Some(i) ==> i < s.len(),
{
    let mut j: usize = s.len();
    while j > 0
        invariant
            0 <= j <= s.len(),
            rfind_char(s@, c) == rfind_char_below(s@, c, j as int),
        decreases j,
    {
        if s[j - 1] == c {
            return Some(j - 1);
        }
        j = j - 1;
    }
    None
}

/// Whether `pat` occurs in `s` at `i`.
pub fn matches_at_exec(s: &Vec<char>, pat: &Vec<char>, i: usize) -> (r: bool)
    ensures
        r == matches_at(s@, pat@, i as int),
{
    if i > s.len() || pat.len() > s.len() - i {
        return false;
    }
    let mut k: usize = 0;
    while k < pat.len()
        invariant
            i + pat.len() <= s.len(),
            0 <= k <= pat.len(),
            forall|m: int| 0 <= m < k ==> s@[i + m] == pat@[m],
        decreases pat.len() - k,
    {
        if s[i + k] != pat[k] {
            assert(s@.subrange(i as int, i + pat.len())[k as int] != pat@[k as int]);
            return false;
        }
        k = k + 1;
    }
    assert(s@.subrange(i as int, i + pat.len()) =~= pat@);
    true
}

/// `find` of a pattern.
pub fn find_sub_exec(s: &Vec<char>, pat: &Vec<char>) -> (r: Option<usize>)
    requires
        pat.len() > 0,
    ensures
        opt_index(r) == find_sub(s@, pat@),
        r matches Some(i) ==> i + pat.len() <= s.len(),
{
    if pat.len() > s.len() {
        return None;
    }
    let mut i: usize = 0;
    while i <= s.len() - pat.len()
        invariant
            0 < pat.len() <= s.len(),
            0 <= i <= s.len() - pat.len() + 1,
            find_sub(s@, pat@) == find_sub_from(s@, pat@, i as int),
        decreases s.len() - i,
    {
        if matches_at_exec(s, pat, i) {
            return Some(i);
        }
        i = i + 1;
    }
    None
}

/// `rfind` of a pattern.
pub fn rfind_sub_exec(s: &Vec<char>, pat: &Vec<char>) -> (r: Option<usize>)
    requires
        pat.len() > 0,
    ensures
        opt_index(r) == rfind_sub(s@, pat@),
        r matches Some(i) ==> i + pat.len() <= s.len(),
{
    if s.len() < pat.len() {
        return None;
    }
    let mut j: usize = s.len() - pat.len() + 1;
    while j > 0
        invariant
            0 < pat.len() <= s.len(),
            0 <= j <= s.len() - pat.len() + 1,
            rfind_sub(s@, pat@) == rfind_sub_below(s@, pat@, j as int),
        decreases j,
    {
        if matches_at_exec(s, pat, j - 1) {
            return Some(j - 1);
        }
        j = j - 1;
    }
    None
}

/// `s.split(pat).next()`.
pub fn before_first_exec(s: &Vec<char>, pat: &Vec<char>) -> (r: Vec<char>)
    requires
        pat.len() > 0,
    ensures
        r@ == before_first(s@, pat@),
{
    match find_sub_exec(s, pat) {
        Some(i) => {
            let r = slice_chars(s, 0, i);
            assert(r@ =~= s@.take(i as int));
            r
        },
        None => s.clone(),
    }
}

/// `s.rsplit(pat).next()`.
pub fn after_last_exec(s: &Vec<char>, pat: &Vec<char>) -> (r: Vec<char>)
    requires
        pat.len() > 0,
    ensures
        r@ == after_last(s@, pat@),
{
    match rfind_sub_exec(s, pat) {
        Some(i) => {
            let r = slice_chars(s, i + pat.len(), s.len());
            assert(r@ =~= s@.skip(i + pat.len()));
            r
        },
        None => s.clone(),
    }
}

/// Whether `s` ends with `pat`.
pub fn ends_with_exec(s: &Vec<char>, pat: &Vec<char>) -> (r: bool)
    ensures
        r == ends_with(s@, pat@),
{
    if pat.len() > s.len() {
        return false;
    }
    let r = matches_at_exec(s, pat, s.len() - pat.len());
    assert(s@.subrange(s.len() - pat.len(), s.len() as int) =~= s@.skip(s.len() - pat.len()));
    r
}

/// `trim_end_matches(pat)` for a non-empty pattern.
pub fn strip_suffixes_exec(s: &Vec<char>, pat: &Vec<char>) -> (r: Vec<char>)
    requires
        pat.len() > 0,
    ensures
        r@ == strip_suffixes(s@, pat@),
{
    let mut cur = s.clone();
    while ends_with_exec(&cur, pat)
        invariant
            pat.len() > 0,
            strip_suffixes(cur@, pat@) == strip_suffixes(s@, pat@),
        decreases cur.len(),
    {
        let n: usize = cur.len() - pat.len();
        let next = slice_chars(&cur, 0, n);
        assert(next@ =~= cur@.take(n as int));
        cur = next;
    }
    cur
}

/// The pieces of `s` between occurrences of `sep`, scanning from `i` with the
/// current piece having started at `start`.
pub open spec fn split_char_scan(s: Seq<char>, sep: char, i: int, start: int) -> Seq<Seq<char>>
    decreases s.len() - i,
{
    if i < 0 || i >= s.len() {
        seq![s.subrange(start, s.len() as int)]
    } else if s[i] == sep {
        seq![s.subrange(start, i)] + split_char_scan(s, sep, i + 1, i + 1)
    } else {
        split_char_scan(s, sep, i + 1, start)
    }
}

/// `str::split(sep)` for a single character.
pub open spec fn split_char(s: Seq<char>, sep: char) -> Seq<Seq<char>> {
    split_char_scan(s, sep, 0, 0)
}

/// `str::split(sep)` for a single character.
pub fn split_char_exec(s: &Vec<char>, sep: char) -> (parts: Vec<Vec<char>>)
    ensures
        views(parts@) == split_char(s@, sep),
{
    let ghost sv = s@;
    let mut parts: Vec<Vec<char>> = Vec::new();
    let mut start: usize = 0;
    let mut i: usize = 0;
    while i < s.len()
        invariant
            sv == s@,
            0 <= start <= i <= s.len(),
            views(parts@) + split_char_scan(sv, sep, i as int, start as int) == split_char(sv, sep),
        decreases s.len() - i,
    {
        if s[i] == sep {
            let part = slice_chars(s, start, i);
            let ghost before = views(parts@);
            parts.push(part);
            assert(views(parts@) =~= before.push(sv.subrange(start as int, i as int)));
            assert(views(parts@) + split_char_scan(sv, sep, i + 1, i + 1) =~= before + (seq![
                sv.subrange(start as int, i as int),
            ] + split_char_scan(sv, sep, i + 1, i + 1)));
            start = i + 1;
        }
        i = i + 1;
    }
    let last = slice_chars(s, start, s.len());
    let ghost before = views(parts@);
    parts.push(last);
    assert(views(parts@) =~= before.push(sv.subrange(start as int, sv.len() as int)));
    assert(views(parts@) =~= split_char(sv, sep));
    parts
}

/// Whether `c` separates path components: `/`, and on Windows also `\\`.
pub open spec fn is_path_separator(c: char, windows: bool) -> bool {
    c == '/' || (windows && c == '\\')
}

/// `Path::join` of a relative component on a host whose separator is `\\`
/// (Windows) or `/` (elsewhere): the component is appended with one
/// separator, unless the base is empty or already ends with one.
pub open spec fn path_join_on(base: Seq<char>, comp: Seq<char>, windows: bool) -> Seq<char> {
    if base.len() == 0 {
        comp
    } else if is_path_separator(base.last(), windows) {
        base + comp
    } else {
        base + seq![if windows {
            '\\'
        } else {
            '/'
        }] + comp
    }
}

/// `Path::join` of a relative component onto a base path, on a Windows host
/// or another.
pub fn path_join_on_exec(base: &str, comp: &str, windows: bool) -> (r: String)
    ensures
        r@ == path_join_on(base@, comp@, windows),
{
    let b = chars_of(base);
    if b.len() == 0 {
        return String::from_str(comp);
    }
    let last = b[b.len() - 1];
    let mut r = String::from_str(base);
    if !(last == '/' || (windows && last == '\\')) {
        push_char(&mut r, if windows {
            '\\'
        } else {
            '/'
        });
    }
    push_str(&mut r, comp);
    r
}

} // verus!
