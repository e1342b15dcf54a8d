//! What the filesystem watcher reports.
//!
//! Raw notifications are turned into normalised `RuntimeEvent`s, dropping
//! the noise a context service must never react to: its own `ATLAS.idx`
//! writes, temporary files, the `.creature` state directory, VCS and build
//! output. Without those exclusions the service would watch its own output and
//! reconcile forever. A watcher error becomes an `Overflow` event rather than
//! being swallowed: the stream may have dropped notifications.
//!
//! Paths here are repository-relative, with `/` separators.
use vstd::prelude::*;
use crate::runtime::events::{RuntimeEvent, RuntimeEventKind};
use crate::text::{
    chars_eq_str, chars_of, ends_with, ends_with_exec, split_char, split_char_exec, string_of,
    views,
};

verus! {

/// The classes of raw notification a watcher backend delivers.
#[derive(Clone, Copy, Debug, PartialEq, Eq, Structural)]
pub enum WatchKind {
    Create,
    Modify,
    Remove,
    /// The backend could not classify the change.
    Any,
    Access,
    Other,
}

/// Directories whose contents are never project source.
pub open spec fn excluded_dirs() -> Seq<Seq<char>> {
    seq![".git"@, ".creature"@, "target"@, "node_modules"@, ".build"@]
}

/// Some `/`-separated component of `rel` is an excluded directory.
pub open spec fn in_excluded_dir(rel: Seq<char>) -> bool {
    exists|k: int|
        0 <= k < split_char(rel, '/').len() && excluded_dirs().contains(
            #[trigger] split_char(rel, '/')[k],
        )
}

/// `rel` is one of the service's own outputs.
pub open spec fn is_own_output(rel: Seq<char>) -> bool {
    rel == "ATLAS.idx"@ || ends_with(rel, "/ATLAS.idx"@) || ends_with(rel, ".tmp"@)
}

/// A change at `rel` must not feed back into the service.
pub open spec fn is_ignored_spec(rel: Seq<char>) -> bool {
    in_excluded_dir(rel) || is_own_output(rel)
}

/// Backslashes turned into forward slashes.
pub open spec fn forward_slashes(s: Seq<char>) -> Seq<char> {
    s.map_values(|c: char| if c == '\\' { '/' } else { c })
}

/// The runtime event kind a raw notification class maps to, if any.
pub open spec fn classify_spec(kind: WatchKind) -> Option<RuntimeEventKind> {
    match kind {
        WatchKind::Create => Some(RuntimeEventKind::FileAdded),
        WatchKind::Modify => Some(RuntimeEventKind::FileModified),
        WatchKind::Remove => Some(RuntimeEventKind::FileRemoved),
        WatchKind::Any => Some(RuntimeEventKind::RescanRequired),
        WatchKind::Access | WatchKind::Other => None,
    }
}

/// The runtime event kind a raw notification class maps to. Accesses and
/// unclassified "other" notifications are not changes.
pub fn classify(kind: WatchKind) -> (r: Option<RuntimeEventKind>)
    ensures
        r == classify_spec(kind),
{
    match kind {
        WatchKind::Create => Some(RuntimeEventKind::FileAdded),
        WatchKind::Modify => Some(RuntimeEventKind::FileModified),
        WatchKind::Remove => Some(RuntimeEventKind::FileRemoved),
        WatchKind::Any => Some(RuntimeEventKind::RescanRequired),
        WatchKind::Access | WatchKind::Other => None,
    }
}

/// `relative` with every `\` turned into `/`.
pub fn normalise_separators(relative: &str) -> (r: String)
    ensures
        r@ == forward_slashes(relative@),
{
    let cs = chars_of(relative);
    let mut out: Vec<char> = Vec::new();
    let mut i: usize = 0;
    while i < cs.len()
        invariant
            0 <= i <= cs.len(),
            out@ == forward_slashes(cs@.take(i as int)),
        decreases cs.len() - i,
    {
        let c = cs[i];
        out.push(if c == '\\' { '/' } else { c });
        assert(cs@.take(i + 1) =~= cs@.take(i as int).push(c));
        assert(out@ =~= forward_slashes(cs@.take(i + 1)));
        i = i + 1;
    }
    assert(cs@.take(cs.len() as int) =~= cs@);
    string_of(&out)
}

fn is_excluded_component(c: &Vec<char>) -> (r: bool)
    ensures
        r == excluded_dirs().contains(c@),
{
    let r = chars_eq_str(c, ".git") || chars_eq_str(c, ".creature") || chars_eq_str(c, "target")
        || chars_eq_str(c, "node_modules") || chars_eq_str(c, ".build");
    proof {
        let e = excluded_dirs();
        if r {
            if c@ == ".git"@ {
                assert(e[0] == c@);
            } else if c@ == ".creature"@ {
                assert(e[1] == c@);
            } else if c@ == "target"@ {
                assert(e[2] == c@);
            } else if c@ == "node_modules"@ {
                assert(e[3] == c@);
            } else {
                assert(e[4] == c@);
            }
        }
    }
    r
}

/// Whether a change at the repository-relative path `relative` (with `/`
/// separators) must be ignored.
pub fn is_ignored(relative: &str) -> (r: bool)
    ensures
        r == is_ignored_spec(relative@),
{
    let rel = chars_of(relative);
    let parts = split_char_exec(&rel, '/');
    let ghost ps = split_char(rel@, '/');
    let mut k: usize = 0;
    while k < parts.len()
        invariant
            0 <= k <= parts.len(),
            views(parts@) == ps,
            ps == split_char(relative@, '/'),
            forall|m: int| 0 <= m < k ==> !excluded_dirs().contains(#[trigger] ps[m]),
        decreases parts.len() - k,
    {
        assert(ps[k as int] == parts[k as int]@);
        if is_excluded_component(&parts[k]) {
            return true;
        }
        k = k + 1;
    }
    let atlas = chars_of("/ATLAS.idx");
    let tmp = chars_of(".tmp");
    chars_eq_str(&rel, "ATLAS.idx") || ends_with_exec(&rel, &atlas) || ends_with_exec(&rel, &tmp)
}

/// The event for a change of class `kind` at the repository-relative
/// `relative` (any separators), observed at `observed_at`; none when the path
/// is the service's own output or lies in an excluded directory.
pub fn path_event(kind: RuntimeEventKind, relative: &str, observed_at: &str) -> (r: Option<
    RuntimeEvent,
>)
    ensures
        is_ignored_spec(forward_slashes(relative@)) <==> r is None,
        r matches Some(e) ==> {
            &&& e.kind == kind
            &&& e.observed_at@ == observed_at@
            &&& e.relative_path is Some
            &&& e.relative_path->0@ == forward_slashes(relative@)
            &&& e.payload is None
        },
{
    let normalised = normalise_separators(relative);
    if is_ignored(normalised.as_str()) {
        return None;
    }
    Some(RuntimeEvent::new(kind, observed_at).with_path(normalised.as_str()))
}

/// The event a failed or dropped notification becomes: the stream is no
/// longer trustworthy, so a rescan is demanded.
pub fn failure_event(observed_at: &str) -> (r: RuntimeEvent)
    ensures
        r.kind == RuntimeEventKind::Overflow,
        r.observed_at@ == observed_at@,
        r.relative_path is None,
{
    RuntimeEvent::new(RuntimeEventKind::Overflow, observed_at)
}


/// A change inside a `.git`, `.creature`, `target`, `node_modules` or
/// `.build` directory, at any depth, is never fed back to the service.
pub proof fn law_changes_in_excluded_directories_are_ignored(rel: Seq<char>, k: int)
    requires
        0 <= k < split_char(rel, '/').len(),
        split_char(rel, '/')[k] == ".git"@ || split_char(rel, '/')[k] == ".creature"@
            || split_char(rel, '/')[k] == "target"@ || split_char(rel, '/')[k] == "node_modules"@
            || split_char(rel, '/')[k] == ".build"@,
    ensures
        is_ignored_spec(rel),
{
    let c = split_char(rel, '/')[k];
    let e = excluded_dirs();
    if c == ".git"@ {
        assert(e[0] == c);
    } else if c == ".creature"@ {
        assert(e[1] == c);
    } else if c == "target"@ {
        assert(e[2] == c);
    } else if c == "node_modules"@ {
        assert(e[3] == c);
    } else {
        assert(e[4] == c);
    }
    assert(excluded_dirs().contains(split_char(rel, '/')[k]));
}


/// The service's own outputs never feed back: an `ATLAS.idx` at the root or
/// in any folder, and any temporary file, is ignored.
pub proof fn law_own_outputs_are_ignored(rel: Seq<char>)
    ensures
        rel == "ATLAS.idx"@ ==> is_ignored_spec(rel),
        ends_with(rel, "/ATLAS.idx"@) ==> is_ignored_spec(rel),
        ends_with(rel, ".tmp"@) ==> is_ignored_spec(rel),
{
}

/// Only accesses and unclassified notifications are dropped: a creation, a
/// modification and a removal each become the matching file event, and an
/// unclassified change asks for a rescan.
pub proof fn law_each_change_class_becomes_its_event(kind: WatchKind)
    ensures
        kind == WatchKind::Create ==> classify_spec(kind) == Some(RuntimeEventKind::FileAdded),
        kind == WatchKind::Modify ==> classify_spec(kind) == Some(RuntimeEventKind::FileModified),
        kind == WatchKind::Remove ==> classify_spec(kind) == Some(RuntimeEventKind::FileRemoved),
        kind == WatchKind::Any ==> classify_spec(kind) == Some(RuntimeEventKind::RescanRequired),
        kind == WatchKind::Access || kind == WatchKind::Other ==> classify_spec(kind) is None,
{
}

} // verus!
