//! Append-only JSONL journal with applied markers: what a read of the journal
//! yields.
//!
//! A crash mid-write leaves a truncated final line. That line is not a
//! record; it is the absence of one, and it is reported rather than parsed.
//! Corruption before the final line is a different matter and is an error: a
//! crash cannot damage a line that was already followed by others. A restart
//! must not reprocess work already applied, so applied markers are kept
//! separately and the pending entries are those not marked.
//!
//! Reading and writing the files, and decoding each line's JSON, is the
//! caller's; this module decides what the lines mean.
use vstd::prelude::*;
use std::collections::BTreeSet;
use std::marker::PhantomData;
use crate::runtime::daemon::ExIoError;
use crate::ids::{parse_uuid, uuid_parse_of};
use crate::text::{chars_of, slice_chars, trim, trim_chars};

verus! {

broadcast use {vstd::laws_cmp::group_laws_cmp, vstd::std_specs::btree::group_btree_axioms};

#[derive(Debug)]
pub enum JsonlError {
    Io { path: String, source: std::io::Error },
    Corrupt { path: String, line: usize, message: String },
}

/// What a read observed, so a caller can report a truncated tail rather than
/// silently discarding it.
#[derive(Clone, Debug, PartialEq, Eq, Structural)]
pub enum JournalFinding {
    TruncatedTail { bytes: usize },
}

/// An entry a journal can address, so applied markers can refer to it.
pub trait JournalEntry {
    spec fn spec_entry_id(&self) -> u128;

    fn entry_id(&self) -> (r: u128)
        ensures
            r == self.spec_entry_id(),
    ;
}

impl JournalEntry for crate::runtime::events::RuntimeEvent {
    open spec fn spec_entry_id(&self) -> u128 {
        self.id
    }

    fn entry_id(&self) -> (r: u128) {
        self.id
    }
}

/// One physical line of the journal: its text, its length in bytes, and the
/// outcome of decoding it as an entry (the decoder's message on failure).
pub struct JournalLine<T> {
    pub text: String,
    pub bytes: usize,
    pub parsed: Result<T, String>,
}

/// A journal at `path`, its applied markers at `applied_path`.
pub struct JsonlJournal<T> {
    pub path: String,
    pub applied_path: String,
    pub entry: PhantomData<T>,
}

/// What reading lines `i..` yields: the entries, the findings, or the
/// 1-based number and message of a corrupt line.
pub open spec fn scan_lines<T>(lines: Seq<JournalLine<T>>, clean: bool, i: int) -> Result<
    (Seq<T>, Seq<JournalFinding>),
    (int, Seq<char>),
>
    decreases lines.len() - i,
{
    if i < 0 || i >= lines.len() {
        Ok((seq![], seq![]))
    } else {
        let line = lines[i];
        if trim(line.text@).len() == 0 {
            scan_lines(lines, clean, i + 1)
        } else {
            match line.parsed {
                Ok(e) => match scan_lines(lines, clean, i + 1) {
                    Ok((es, fs)) => Ok((seq![e] + es, fs)),
                    Err(x) => Err(x),
                },
                Err(m) => if i == lines.len() - 1 && !clean {
                    match scan_lines(lines, clean, i + 1) {
                        Ok((es, fs)) => Ok(
                            (es, seq![JournalFinding::TruncatedTail { bytes: line.bytes }] + fs),
                        ),
                        Err(x) => Err(x),
                    }
                } else {
                    Err((i + 1, m@))
                },
            }
        }
    }
}

/// A line that holds nothing: blank once trimmed.
pub open spec fn is_blank<T>(line: JournalLine<T>) -> bool {
    trim(line.text@).len() == 0
}

/// Two reads in sequence: entries and findings of the first, then of the
/// second; the first error wins.
pub open spec fn then_read<T>(
    first: Result<(Seq<T>, Seq<JournalFinding>), (int, Seq<char>)>,
    second: Result<(Seq<T>, Seq<JournalFinding>), (int, Seq<char>)>,
) -> Result<(Seq<T>, Seq<JournalFinding>), (int, Seq<char>)> {
    match first {
        Err(x) => Err(x),
        Ok((es, fs)) => match second {
            Err(x) => Err(x),
            Ok((es2, fs2)) => Ok((es + es2, fs + fs2)),
        },
    }
}

proof fn lemma_scan_splits_off_the_last_line<T>(lines: Seq<JournalLine<T>>, clean: bool, i: int)
    requires
        lines.len() > 0,
        0 <= i <= lines.len() - 1,
    ensures
        scan_lines(lines, clean, i) == then_read(
            scan_lines(lines.drop_last(), true, i),
            scan_lines(lines, clean, lines.len() - 1),
        ),
    decreases lines.len() - i,
{
    let prefix = lines.drop_last();
    let n = lines.len() as int;
    if i == n - 1 {
        let tail = scan_lines(lines, clean, n - 1);
        match tail {
            Ok((es2, fs2)) => {
                assert(Seq::<T>::empty() + es2 =~= es2);
                assert(Seq::<JournalFinding>::empty() + fs2 =~= fs2);
            },
            Err(_) => {},
        }
    } else {
        lemma_scan_splits_off_the_last_line(lines, clean, i + 1);
        assert(prefix[i] == lines[i]);
        let tail = scan_lines(lines, clean, n - 1);
        let rest = scan_lines(prefix, true, i + 1);
        if !(trim(lines[i].text@).len() == 0) {
            match lines[i].parsed {
                Ok(e) => {
                    match (rest, tail) {
                        (Ok((es, fs)), Ok((es2, fs2))) => {
                            assert(seq![e] + (es + es2) =~= (seq![e] + es) + es2);
                        },
                        _ => {},
                    }
                },
                Err(_) => {},
            }
        }
    }
}

/// A crash part-way through writing the final line is reported, not
/// fabricated: when the file does not end in a newline and its last line does
/// not decode, that line yields no entry and one `TruncatedTail` finding, and
/// everything before it reads exactly as the journal without it.
pub proof fn law_a_truncated_tail_is_reported_not_fabricated<T>(lines: Seq<JournalLine<T>>, clean: bool)
    requires
        lines.len() > 0,
        !clean,
        !is_blank(lines.last()),
        lines.last().parsed is Err,
    ensures
        scan_lines(lines, clean, 0) == then_read(
            scan_lines(lines.drop_last(), true, 0),
            Ok((Seq::<T>::empty(), seq![JournalFinding::TruncatedTail { bytes: lines.last().bytes }])),
        ),
{
    let n = lines.len() as int;
    lemma_scan_splits_off_the_last_line(lines, clean, 0);
    assert(scan_lines(lines, clean, n) == Ok::<(Seq<T>, Seq<JournalFinding>), (int, Seq<char>)>(
        (seq![], seq![]),
    ));
    assert(seq![JournalFinding::TruncatedTail { bytes: lines.last().bytes }]
        + Seq::<JournalFinding>::empty() =~= seq![
        JournalFinding::TruncatedTail { bytes: lines.last().bytes },
    ]);
}

/// Corruption is not truncation: the first non-blank line that does not
/// decode, when it is not a final line cut short, fails the whole read with
/// its 1-based number and the decoder's message.
pub proof fn law_corruption_is_an_error_not_a_truncation<T>(
    lines: Seq<JournalLine<T>>,
    clean: bool,
    i: int,
)
    requires
        0 <= i < lines.len(),
        !is_blank(lines[i]),
        lines[i].parsed is Err,
        i < lines.len() - 1 || clean,
        forall|j: int| 0 <= j < i ==> is_blank(#[trigger] lines[j]) || lines[j].parsed is Ok,
    ensures
        scan_lines(lines, clean, 0) == Err::<(Seq<T>, Seq<JournalFinding>), (int, Seq<char>)>(
            (i + 1, lines[i].parsed->Err_0@),
        ),
{
    lemma_error_reaches_the_start(lines, clean, i, 0);
}

proof fn lemma_error_reaches_the_start<T>(lines: Seq<JournalLine<T>>, clean: bool, i: int, k: int)
    requires
        0 <= k <= i < lines.len(),
        !is_blank(lines[i]),
        lines[i].parsed is Err,
        i < lines.len() - 1 || clean,
        forall|j: int| 0 <= j < i ==> is_blank(#[trigger] lines[j]) || lines[j].parsed is Ok,
    ensures
        scan_lines(lines, clean, k) == Err::<(Seq<T>, Seq<JournalFinding>), (int, Seq<char>)>(
            (i + 1, lines[i].parsed->Err_0@),
        ),
    decreases i - k,
{
    if k < i {
        lemma_error_reaches_the_start(lines, clean, i, k + 1);
        assert(is_blank(lines[k]) || lines[k].parsed is Ok);
    }
}

/// The entries of `entries` whose id is not in `applied`.
pub open spec fn unapplied_entries<T: JournalEntry>(entries: Seq<T>, applied: Set<u128>) -> Seq<T> {
    entries.filter(|e: T| !applied.contains(e.spec_entry_id()))
}

impl<T: JournalEntry> JsonlJournal<T> {
    /// A journal at `path` whose applied markers live at `applied_path`.
    pub fn at(path: String, applied_path: String) -> (r: Self)
        ensures
            r.path == path,
            r.applied_path == applied_path,
    {
        JsonlJournal { path, applied_path, entry: PhantomData }
    }

    /// Every entry in the journal's `lines`, with a truncated final line
    /// reported rather than parsed. `ends_cleanly` is whether the file's last
    /// byte is a newline (or the file is empty).
    pub fn read_all_with_findings(&self, lines: Vec<JournalLine<T>>, ends_cleanly: bool) -> (r:
        Result<(Vec<T>, Vec<JournalFinding>), JsonlError>)
        ensures
            match r {
                Ok((es, fs)) => scan_lines(lines@, ends_cleanly, 0) == Ok::<
                    (Seq<T>, Seq<JournalFinding>),
                    (int, Seq<char>),
                >((es@, fs@)),
                Err(JsonlError::Corrupt { path, line, message }) => path == self.path
                    && scan_lines(lines@, ends_cleanly, 0) == Err::<
                    (Seq<T>, Seq<JournalFinding>),
                    (int, Seq<char>),
                >((line as int, message@)),
                Err(JsonlError::Io { .. }) => false,
            },
    {
        let ghost all = lines@;
        let n = lines.len();
        let mut entries: Vec<T> = Vec::new();
        let mut findings: Vec<JournalFinding> = Vec::new();
        let mut index: usize = 0;
        for line in it: lines
            invariant
                it.seq() == all,
                n == all.len(),
                index == it.index(),
                scan_lines(all, ends_cleanly, 0) == match scan_lines(
                    all,
                    ends_cleanly,
                    index as int,
                ) {
                    Ok((es, fs)) => Ok((entries@ + es, findings@ + fs)),
                    Err(x) => Err(x),
                },
        {
            let text = chars_of(line.text.as_str());
            let trimmed = trim_chars(&text);
            if trimmed.len() > 0 {
                let ghost rest = scan_lines(all, ends_cleanly, index + 1);
                match line.parsed {
                    Ok(entry) => {
                        let ghost before = entries@;
                        entries.push(entry);
                        proof {
                            match rest {
                                Ok((es, fs)) => {
                                    assert(entries@ + es =~= before + (seq![entry] + es));
                                },
                                Err(_) => {},
                            }
                        }
                    },
                    Err(message) => {
                        if index + 1 == n && !ends_cleanly {
                            let ghost before = findings@;
                            let finding = JournalFinding::TruncatedTail { bytes: line.bytes };
                            findings.push(finding);
                            proof {
                                match rest {
                                    Ok((es, fs)) => {
                                        assert(findings@ + fs =~= before + (seq![finding] + fs));
                                    },
                                    Err(_) => {},
                                }
                            }
                        } else {
                            return Err(
                                JsonlError::Corrupt {
                                    path: self.path.clone(),
                                    line: index + 1,
                                    message,
                                },
                            );
                        }
                    },
                }
            }
            index = index + 1;
        }
        proof {
            assert(entries@ + Seq::<T>::empty() =~= entries@);
            assert(findings@ + Seq::<JournalFinding>::empty() =~= findings@);
        }
        Ok((entries, findings))
    }

    /// Every entry in the journal's `lines`.
    pub fn read_all(&self, lines: Vec<JournalLine<T>>, ends_cleanly: bool) -> (r: Result<
        Vec<T>,
        JsonlError,
    >)
        ensures
            match r {
                Ok(es) => scan_lines(lines@, ends_cleanly, 0) matches Ok((all, _)) && es@ == all,
                Err(JsonlError::Corrupt { path, line, message }) => path == self.path
                    && scan_lines(lines@, ends_cleanly, 0) == Err::<
                    (Seq<T>, Seq<JournalFinding>),
                    (int, Seq<char>),
                >((line as int, message@)),
                Err(JsonlError::Io { .. }) => false,
            },
    {
        match self.read_all_with_findings(lines, ends_cleanly) {
            Ok((entries, _)) => Ok(entries),
            Err(e) => Err(e),
        }
    }

    /// Entries not yet marked applied — what a restart must process, and
    /// nothing more.
    pub fn pending(&self, lines: Vec<JournalLine<T>>, ends_cleanly: bool, applied: &BTreeSet<u128>) -> (r:
        Result<Vec<T>, JsonlError>)
        ensures
            match r {
                Ok(es) => scan_lines(lines@, ends_cleanly, 0) matches Ok((all, _)) && es@
                    == unapplied_entries(all, applied@),
                Err(JsonlError::Corrupt { path, line, message }) => path == self.path
                    && scan_lines(lines@, ends_cleanly, 0) == Err::<
                    (Seq<T>, Seq<JournalFinding>),
                    (int, Seq<char>),
                >((line as int, message@)),
                Err(JsonlError::Io { .. }) => false,
            },
    {
        let entries = match self.read_all(lines, ends_cleanly) {
            Ok(entries) => entries,
            Err(e) => return Err(e),
        };
        let ghost all = entries@;
        let ghost set = applied@;
        let mut kept: Vec<T> = Vec::new();
        for e in it: entries
            invariant
                it.seq() == all,
                set == applied@,
                kept@ == unapplied_entries(all.take(it.index() as int), set),
        {
            let ghost idx = it.index();
            proof {
                assert(all.take(idx + 1) =~= all.take(idx as int).push(e));
                all.take(idx as int).lemma_filter_push(
                    e,
                    |x: T| !set.contains(x.spec_entry_id()),
                );
            }
            let id = e.entry_id();
            if !applied.contains(&id) {
                kept.push(e);
            }
        }
        proof {
            assert(all.take(all.len() as int) =~= all);
        }
        Ok(kept)
    }
}

/// The lines of a text as `str::lines` yields them: split at `\n`, a
/// trailing `\r` removed from each, and no empty line after a final `\n`.
pub open spec fn text_lines(s: Seq<char>) -> Seq<Seq<char>> {
    let parts = crate::text::split_char(s, '\n');
    let kept = if s.len() > 0 && s.last() == '\n' {
        parts.drop_last()
    } else if s.len() == 0 {
        seq![]
    } else {
        parts
    };
    kept.map_values(
        |l: Seq<char>|
            if l.len() > 0 && l.last() == '\r' {
                l.drop_last()
            } else {
                l
            },
    )
}

/// The ids recorded in an applied-marker file's `contents`: every line that
/// parses as a UUID once trimmed.
pub open spec fn applied_ids_spec(contents: Seq<char>) -> Set<u128> {
    Set::new(
        |id: u128|
            exists|k: int|
                0 <= k < text_lines(contents).len() && uuid_parse_of(
                    trim(#[trigger] text_lines(contents)[k]),
                ) == Ok::<u128, Seq<char>>(id),
    )
}

/// The ids recorded in an applied-marker file's `contents`.
pub fn applied_ids(contents: &str) -> (r: BTreeSet<u128>)
    ensures
        r@ == applied_ids_spec(contents@),
{
    let cs = chars_of(contents);
    let parts = crate::text::split_char_exec(&cs, '\n');
    let ghost lines = text_lines(cs@);
    proof {
        lemma_split_char_nonempty(cs@, '\n', 0, 0);
    }
    let count: usize = if cs.len() > 0 && cs[cs.len() - 1] == '\n' {
        parts.len() - 1
    } else if cs.len() == 0 {
        0
    } else {
        parts.len()
    };
    proof {
        lemma_split_char_nonempty(cs@, '\n', 0, 0);
    }
    let mut ids: BTreeSet<u128> = BTreeSet::new();
    let mut k: usize = 0;
    while k < count
        invariant
            0 <= k <= count,
            cs@ == contents@,
            crate::text::views(parts@) == crate::text::split_char(cs@, '\n'),
            lines == text_lines(cs@),
            count == lines.len(),
            count <= parts@.len(),
            ids@ == Set::new(
                |id: u128|
                    exists|j: int|
                        0 <= j < k && uuid_parse_of(trim(#[trigger] lines[j])) == Ok::<u128, Seq<char>>(id),
            ),
        decreases count - k,
    {
        let raw = &parts[k];
        let line = if raw.len() > 0 && raw[raw.len() - 1] == '\r' {
            slice_chars(raw, 0, raw.len() - 1)
        } else {
            raw.clone()
        };
        proof {
            assert(lines[k as int] == line@) by {
                if raw@.len() > 0 && raw@.last() == '\r' {
                    assert(line@ =~= raw@.drop_last());
                }
            }
        }
        let trimmed = trim_chars(&line);
        let text = crate::text::string_of(&trimmed);
        let ghost before = ids@;
        match parse_uuid(text.as_str()) {
            Ok(id) => {
                ids.insert(id);
                proof {
                    assert(ids@ =~= Set::new(
                        |x: u128|
                            exists|j: int|
                                0 <= j < k + 1 && uuid_parse_of(trim(#[trigger] lines[j])) == Ok::<u128, Seq<char>>(
                                    x,
                                ),
                    )) by {
                        assert forall|x: u128| ids@.contains(x) implies exists|j: int|
                            0 <= j < k + 1 && uuid_parse_of(trim(#[trigger] lines[j])) == Ok::<u128, Seq<char>>(
                                x,
                            ) by {
                            if x == id {
                                assert(uuid_parse_of(trim(lines[k as int])) == Ok::<u128, Seq<char>>(x));
                            }
                        }
                    }
                }
            },
            Err(_) => {
                proof {
                    assert(ids@ =~= Set::new(
                        |x: u128|
                            exists|j: int|
                                0 <= j < k + 1 && uuid_parse_of(trim(#[trigger] lines[j])) == Ok::<u128, Seq<char>>(
                                    x,
                                ),
                    )) by {
                        assert forall|x: u128|
                            (exists|j: int|
                                0 <= j < k + 1 && uuid_parse_of(trim(#[trigger] lines[j]))
                                    == Ok::<u128, Seq<char>>(x)) implies ids@.contains(x) by {
                            let j = choose|j: int|
                                0 <= j < k + 1 && uuid_parse_of(trim(#[trigger] lines[j]))
                                    == Ok::<u128, Seq<char>>(x);
                            assert(j != k);
                        }
                    }
                }
            },
        }
        k = k + 1;
    }
    ids
}

/// Splitting always yields at least one piece.
proof fn lemma_split_char_nonempty(s: Seq<char>, sep: char, i: int, start: int)
    ensures
        crate::text::split_char_scan(s, sep, i, start).len() >= 1,
    decreases s.len() - i,
{
    if 0 <= i < s.len() {
        if s[i] == sep {
            lemma_split_char_nonempty(s, sep, i + 1, i + 1);
        } else {
            lemma_split_char_nonempty(s, sep, i + 1, start);
        }
    }
}

} // verus!
