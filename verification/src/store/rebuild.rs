//! Rebuilding the disposable database from the portable root `ATLAS.idx`:
//! what a rebuild reports, why it refuses, and the scope check made before
//! anything is decoded. A folder-scoped file decodes perfectly well into a
//! partial snapshot, which is why the scope is checked first.
use vstd::prelude::*;
use crate::text::{chars_of, find_char, find_char_exec, find_sub, find_sub_exec, slice_chars};

verus! {

/// Why a rebuild refused. Every failure is closed: nothing is replaced.
#[derive(Debug)]
pub enum RebuildError {
    /// There is no portable root to rebuild from.
    MissingRoot(String),
    /// The portable root could not be read.
    Unreadable { path: String, source: std::io::Error },
    /// The root is not galaxy-scoped; rebuilding from it would restore a
    /// partial snapshot.
    NotGalaxyScoped,
    /// The root does not decode.
    Malformed(String),
    /// The decoded snapshot holds no entity.
    EmptySnapshot,
}

/// What a successful rebuild restored.
#[derive(Debug, Clone, PartialEq, Eq)]
pub struct RebuildReport {
    pub snapshot_id: String,
    pub entities: usize,
    pub edges: usize,
    pub records: usize,
    /// Records whose type this build does not recognise, preserved verbatim.
    pub opaque_records: usize,
}

/// The first line of a text, as `str::lines().next()` gives it (empty for an
/// empty text): up to the first `\n`, a trailing `\r` removed.
pub open spec fn first_line(s: Seq<char>) -> Seq<char> {
    let end = match find_char(s, '\n') {
        Some(i) => i,
        None => s.len() as int,
    };
    let l = s.take(end);
    if l.len() > 0 && l.last() == '\r' {
        l.drop_last()
    } else {
        l
    }
}

/// A root whose header names an Atlas at Galaxy scale.
pub open spec fn galaxy_scoped(contents: Seq<char>) -> bool {
    find_sub(first_line(contents), "kind:atlas"@) is Some && find_sub(
        first_line(contents),
        "scale:galaxy"@,
    ) is Some
}

/// The scope check made on a portable root before it is decoded: its header
/// must name an Atlas at Galaxy scale, or the rebuild is refused.
pub fn check_portable_root(contents: &str) -> (r: Result<(), RebuildError>)
    ensures
        galaxy_scoped(contents@) ==> r is Ok,
        !galaxy_scoped(contents@) ==> r matches Err(RebuildError::NotGalaxyScoped),
{
    let cs = chars_of(contents);
    let end = match find_char_exec(&cs, '\n') {
        Some(i) => i,
        None => cs.len(),
    };
    proof {
        lemma_find_char_bound(cs@, '\n', 0);
    }
    let mut line = slice_chars(&cs, 0, end);
    assert(line@ =~= cs@.take(end as int));
    if line.len() > 0 && line[line.len() - 1] == '\r' {
        let n = line.len() - 1;
        line = slice_chars(&line, 0, n);
        assert(line@ =~= cs@.take(end as int).drop_last());
    }
    let kind = chars_of("kind:atlas");
    let scale = chars_of("scale:galaxy");
    proof {
        reveal_strlit("kind:atlas");
        reveal_strlit("scale:galaxy");
    }
    if find_sub_exec(&line, &kind).is_some() && find_sub_exec(&line, &scale).is_some() {
        Ok(())
    } else {
        Err(RebuildError::NotGalaxyScoped)
    }
}

proof fn lemma_find_char_bound(s: Seq<char>, c: char, i: int)
    requires
        0 <= i,
    ensures
        crate::text::find_char_from(s, c, i) matches Some(k) ==> i <= k < s.len(),
    decreases s.len() - i,
{
    if i < s.len() && s[i] != c {
        lemma_find_char_bound(s, c, i + 1);
    }
}

} // verus!
