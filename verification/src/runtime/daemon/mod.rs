//! Registering the resident service with the operating system.
//!
//! The portable half lives here: a stable per-project label and the
//! supervisor definition, generated as data before anything is written. Each
//! platform reports its true capability state; a platform whose adapter has
//! not been implemented and run says so rather than fabricating success.
//!
//! Paths are canonical and absolute, in the host's own form: resolving them
//! is the caller's I/O, as are running the supervisor's own commands. The host is
//! named by the caller, as `std::env::consts::OS` names it; on Windows the
//! supervisor is the Task Scheduler (`windows`).
use vstd::prelude::*;
use vstd::utf8::encode_utf8;
use crate::digest::{blake3_digest, blake3_of, hex, hex_spec, is_lower_hex, lemma_hex_form};
use crate::model::CapabilityState;
use crate::order::{sorted_arrangement, sorted_distinct_strings, string_views};
use crate::model::calibration::{contains, lowercase_of, to_lowercase};
use crate::text::find_sub;
use crate::text::{chars_of, path_join_on, path_join_on_exec, push_char, push_str, slice_chars, string_of};

pub mod windows;

verus! {

/// `std::io::Error`.
#[verifier::external_type_specification]
#[verifier::external_body]
pub struct ExIoError(std::io::Error);

#[derive(Debug)]
pub enum DaemonError {
    Unsupported,
    Root(std::io::Error),
    Binary(String),
    Supervisor(String),
}

/// A supervisor registration, as data.
#[derive(Clone, Debug, PartialEq, Eq)]
pub struct ServiceDefinition {
    /// The supervisor's identifier for this project's daemon.
    pub label: String,
    /// Where the definition file belongs.
    pub unit_path: String,
    /// The definition file's full contents.
    pub contents: String,
}

/// Whether this daemon is registered with the OS supervisor, and running.
#[derive(Clone, Debug, PartialEq, Eq)]
pub struct DaemonStatus {
    pub label: String,
    pub installed: bool,
    pub loaded: bool,
}

/// `parts` joined with the NUL character between consecutive items.
pub open spec fn join_nul(parts: Seq<Seq<char>>) -> Seq<char>
    decreases parts.len(),
{
    if parts.len() == 0 {
        seq![]
    } else if parts.len() == 1 {
        parts[0]
    } else {
        join_nul(parts.drop_last()) + seq!['\0'] + parts.last()
    }
}

pub open spec fn label_prefix() -> Seq<char> {
    "com.creature-context."@
}

/// The label for a set of canonical roots: derived from their distinct
/// paths in increasing order, so the same set always yields the same label
/// whatever the order it was given in.
pub open spec fn label_spec(roots: Set<Seq<char>>) -> Seq<char> {
    label_prefix() + hex_spec(blake3_of(encode_utf8(join_nul(sorted_arrangement(roots))))).take(16)
}

/// The label for a *set* of canonical roots supervised by one daemon.
pub fn label_for_roots(roots: &Vec<String>) -> (r: String)
    ensures
        r@ == label_spec(string_views(roots@).to_set()),
        r@.len() == label_prefix().len() + 16,
        forall|i: int| label_prefix().len() <= i < r@.len() ==> is_lower_hex(#[trigger] r@[i]),
{
    let sorted = sorted_distinct_strings(roots);
    let ghost sv = string_views(sorted@);
    let mut joined: Vec<char> = Vec::new();
    let mut i: usize = 0;
    while i < sorted.len()
        invariant
            0 <= i <= sorted.len(),
            sv == string_views(sorted@),
            joined@ == join_nul(sv.take(i as int)),
        decreases sorted.len() - i,
    {
        let piece = chars_of(sorted[i].as_str());
        let ghost before = joined@;
        if i > 0 {
            joined.push('\0');
        }
        let mut k: usize = 0;
        while k < piece.len()
            invariant
                0 <= k <= piece.len(),
                joined@ == (if i > 0 {
                    before + seq!['\0']
                } else {
                    before
                }) + piece@.take(k as int),
            decreases piece.len() - k,
        {
            joined.push(piece[k]);
            k = k + 1;
        }
        proof {
            assert(piece@.take(piece.len() as int) =~= piece@);
            let t = sv.take(i + 1);
            assert(t.drop_last() =~= sv.take(i as int));
            assert(t.last() == piece@);
            if i == 0 {
                assert(joined@ =~= join_nul(t));
            } else {
                assert(joined@ =~= join_nul(t));
            }
        }
        i = i + 1;
    }
    proof {
        assert(sv.take(sv.len() as int) =~= sv);
    }
    let text = string_of(&joined);
    let digest = blake3_digest(text.as_str().as_bytes());
    let rendered = hex(&digest);
    let digits = chars_of(rendered.as_str());
    let short = slice_chars(&digits, 0, 16);
    assert(short@ =~= digits@.take(16));
    let mut label = String::from_str("com.creature-context.");
    push_str(&mut label, string_of(&short).as_str());
    proof {
        lemma_hex_form(digest@);
        reveal_strlit("com.creature-context.");
        assert(label@ =~= label_prefix() + digits@.take(16));
        assert forall|i: int| label_prefix().len() <= i < label@.len() implies is_lower_hex(
            #[trigger] label@[i],
        ) by {
            assert(label@[i] == digits@[i - label_prefix().len()]);
        }
    }
    label
}

/// A stable, filesystem-safe label for the canonical root `root`'s daemon.
pub fn label_for(root: &str) -> (r: String)
    ensures
        r@ == label_spec(set![root@]),
        r@.len() == label_prefix().len() + 16,
        forall|i: int| label_prefix().len() <= i < r@.len() ==> is_lower_hex(#[trigger] r@[i]),
{
    let roots = vec![String::from_str(root)];
    proof {
        assert(string_views(roots@) =~= seq![root@]);
        assert(seq![root@].to_set() =~= set![root@]) by {
            assert(seq![root@][0] == root@);
        }
    }
    label_for_roots(&roots)
}

/// Where the daemon's own output is written: inside the project's
/// `.creature` directory, joined as the host `os` joins paths.
pub fn log_path(os: &str, root: &str) -> (r: String)
    ensures
        r@ == path_join_on(
            path_join_on(root@, ".creature"@, has_supervisor(os@)),
            "daemon.log"@,
            has_supervisor(os@),
        ),
{
    let windows = is_windows(os);
    let dir = path_join_on_exec(root, ".creature", windows);
    path_join_on_exec(dir.as_str(), "daemon.log", windows)
}

/// The host `os` (as `std::env::consts::OS` names it) has a supervisor
/// adapter: the Windows Task Scheduler.
pub open spec fn has_supervisor(os: Seq<char>) -> bool {
    os == "windows"@
}

fn is_windows(os: &str) -> (r: bool)
    ensures
        r == has_supervisor(os@),
{
    crate::text::str_eq(os, "windows")
}

/// Whether the host `os` can register the resident service with its
/// supervisor: implemented but not yet run on Windows, unavailable
/// elsewhere.
pub fn capability(os: &str) -> (r: CapabilityState)
    ensures
        has_supervisor(os@) ==> r == CapabilityState::ImplementedUnverified,
        !has_supervisor(os@) ==> r == CapabilityState::Unavailable,
{
    if is_windows(os) {
        windows::capability()
    } else {
        CapabilityState::Unavailable
    }
}

/// The supervisor definition for `roots` on the host `os`, with the binary
/// supplied, as data: on Windows the Task Scheduler definition, elsewhere
/// none.
pub fn definition_with_binary(os: &str, roots: &Vec<String>, binary: &str) -> (r: Result<
    ServiceDefinition,
    DaemonError,
>)
    ensures
        has_supervisor(os@) ==> windows::is_task_definition(string_views(roots@), binary@, r),
        !has_supervisor(os@) ==> r matches Err(DaemonError::Unsupported),
{
    if is_windows(os) {
        windows::definition(roots, binary)
    } else {
        Err(DaemonError::Unsupported)
    }
}

/// The registration to make for `roots` on the host `os`: on Windows the
/// Task Scheduler definition, which the caller stages and registers;
/// elsewhere the host refuses. Installing over an existing registration
/// replaces it.
pub fn install(os: &str, roots: &Vec<String>, binary: &str) -> (r: Result<
    ServiceDefinition,
    DaemonError,
>)
    ensures
        has_supervisor(os@) ==> windows::is_task_definition(string_views(roots@), binary@, r),
        !has_supervisor(os@) ==> r matches Err(DaemonError::Unsupported),
{
    definition_with_binary(os, roots, binary)
}

/// What stopping and removing the daemon of `roots` on the host `os` acts
/// on: on Windows the label of the task to end and delete; elsewhere the
/// host refuses.
pub fn uninstall(os: &str, roots: &Vec<String>) -> (r: Result<String, DaemonError>)
    ensures
        has_supervisor(os@) ==> (r matches Ok(label) && label@ == label_spec(
            string_views(roots@).to_set(),
        )),
        !has_supervisor(os@) ==> r matches Err(DaemonError::Unsupported),
{
    if is_windows(os) {
        Ok(label_for_roots(roots))
    } else {
        Err(DaemonError::Unsupported)
    }
}

/// The status of the daemon of `roots` on the host `os`, given what the
/// supervisor's query printed (`None` when the query failed, which is what
/// it does for a task that is not registered). On Windows the daemon is
/// installed exactly when the query succeeded, and loaded when its output
/// names a running instance, in any case; elsewhere the host refuses.
pub fn status(os: &str, roots: &Vec<String>, query: Option<String>) -> (r: Result<
    DaemonStatus,
    DaemonError,
>)
    ensures
        has_supervisor(os@) ==> (r matches Ok(st) && {
            &&& st.label@ == label_spec(string_views(roots@).to_set())
            &&& st.installed == query is Some
            &&& st.loaded == (query matches Some(t) && find_sub(
                lowercase_of(t@),
                "running"@,
            ) is Some)
        }),
        !has_supervisor(os@) ==> r matches Err(DaemonError::Unsupported),
{
    if !is_windows(os) {
        return Err(DaemonError::Unsupported);
    }
    let label = label_for_roots(roots);
    let (installed, loaded) = match &query {
        Some(text) => {
            let lower = to_lowercase(text.as_str());
            (true, contains(lower.as_str(), "running"))
        },
        None => (false, false),
    };
    Ok(DaemonStatus { label, installed, loaded })
}

/// One daemon per set of roots: two lists naming the same roots, in any
/// order and with any repetition, give the same label.
pub proof fn law_the_label_names_the_set_of_roots(a: Seq<Seq<char>>, b: Seq<Seq<char>>)
    requires
        a.to_set() == b.to_set(),
    ensures
        label_spec(a.to_set()) == label_spec(b.to_set()),
        label_spec(a.to_set()).take(label_prefix().len() as int) == label_prefix(),
{
    assert(label_spec(a.to_set()).take(label_prefix().len() as int) =~= label_prefix());
}

} // verus!
