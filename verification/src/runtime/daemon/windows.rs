//! Task Scheduler adapter: the resident service as a per-user logon task.
//!
//! A Scheduled Task registered under the current user needs no elevation and
//! runs in that user's session, with access to the user's own files. The
//! logon trigger starts it at logon and `RestartOnFailure` brings it back if it
//! exits; the execution-time limit is disabled because a resident daemon is
//! supposed to run indefinitely. The definition is pure data.
use vstd::prelude::*;
use crate::model::CapabilityState;
use crate::order::string_views;
use crate::runtime::daemon::{DaemonError, ServiceDefinition, label_for_roots, label_spec};
use crate::text::{chars_of, contains_char, matches_at, path_join_on, path_join_on_exec, push_char, push_str, string_of};

verus! {

/// Implemented but never executed on a Windows host: not `Verified`.
pub fn capability() -> (r: CapabilityState)
    ensures
        r == CapabilityState::ImplementedUnverified,
{
    CapabilityState::ImplementedUnverified
}

/// Where the task definition is staged before `schtasks` registers it.
pub fn definition_dir(primary: &str) -> (r: String)
    ensures
        r@ == path_join_on(primary@, ".creature"@, true),
{
    path_join_on_exec(primary, ".creature", true)
}

/// The escape of one character in XML element text.
pub open spec fn xml_escape_char(c: char) -> Seq<char> {
    if c == '&' {
        seq!['&', 'a', 'm', 'p', ';']
    } else if c == '<' {
        seq!['&', 'l', 't', ';']
    } else if c == '>' {
        seq!['&', 'g', 't', ';']
    } else if c == '"' {
        seq!['&', 'q', 'u', 'o', 't', ';']
    } else if c == '\'' {
        seq!['&', 'a', 'p', 'o', 's', ';']
    } else {
        seq![c]
    }
}

/// The five characters XML forbids in element text, escaped.
pub open spec fn xml_escape_spec(s: Seq<char>) -> Seq<char>
    decreases s.len(),
{
    if s.len() == 0 {
        seq![]
    } else {
        xml_escape_spec(s.drop_last()) + xml_escape_char(s.last())
    }
}

/// Escape the five characters XML forbids in element text, so a repository
/// path containing `&` produces a valid task definition.
pub fn xml_escape(value: &str) -> (r: String)
    ensures
        r@ == xml_escape_spec(value@),
{
    let cs = chars_of(value);
    let mut out = String::new();
    let mut i: usize = 0;
    while i < cs.len()
        invariant
            0 <= i <= cs.len(),
            out@ == xml_escape_spec(cs@.take(i as int)),
        decreases cs.len() - i,
    {
        let c = cs[i];
        let ghost before = out@;
        if c == '&' {
            push_char(&mut out, '&');
            push_char(&mut out, 'a');
            push_char(&mut out, 'm');
            push_char(&mut out, 'p');
            push_char(&mut out, ';');
        } else if c == '<' {
            push_char(&mut out, '&');
            push_char(&mut out, 'l');
            push_char(&mut out, 't');
            push_char(&mut out, ';');
        } else if c == '>' {
            push_char(&mut out, '&');
            push_char(&mut out, 'g');
            push_char(&mut out, 't');
            push_char(&mut out, ';');
        } else if c == '"' {
            push_char(&mut out, '&');
            push_char(&mut out, 'q');
            push_char(&mut out, 'u');
            push_char(&mut out, 'o');
            push_char(&mut out, 't');
            push_char(&mut out, ';');
        } else if c == '\'' {
            push_char(&mut out, '&');
            push_char(&mut out, 'a');
            push_char(&mut out, 'p');
            push_char(&mut out, 'o');
            push_char(&mut out, 's');
            push_char(&mut out, ';');
        } else {
            push_char(&mut out, c);
        }
        proof {
            let t = cs@.take(i + 1);
            assert(t.drop_last() =~= cs@.take(i as int));
            assert(out@ =~= before + xml_escape_char(c));
        }
        i = i + 1;
    }
    assert(cs@.take(cs.len() as int) =~= cs@);
    out
}

/// A command-line argument, quoted when it contains a space.
pub open spec fn quote_argument_spec(s: Seq<char>) -> Seq<char> {
    if contains_char(s, ' ') {
        seq!['"'] + s + seq!['"']
    } else {
        s
    }
}

/// Quote one command-line argument, so a root containing a space arrives as
/// one argument rather than two.
pub fn quote_argument(value: &str) -> (r: String)
    ensures
        r@ == quote_argument_spec(value@),
{
    let cs = chars_of(value);
    let mut i: usize = 0;
    while i < cs.len()
        invariant
            0 <= i <= cs.len(),
            cs@ == value@,
            forall|j: int| 0 <= j < i ==> cs@[j] != ' ',
        decreases cs.len() - i,
    {
        if cs[i] == ' ' {
            assert(cs@[i as int] == ' ');
            assert(contains_char(value@, ' '));
            let mut out = String::new();
            push_char(&mut out, '"');
            push_str(&mut out, value);
            push_char(&mut out, '"');
            return out;
        }
        i = i + 1;
    }
    String::from_str(value)
}

/// `run` followed by each root, quoted, separated by spaces.
pub open spec fn run_arguments(roots: Seq<Seq<char>>) -> Seq<char>
    decreases roots.len(),
{
    if roots.len() == 0 {
        seq!['r', 'u', 'n']
    } else {
        run_arguments(roots.drop_last()) + seq![' '] + quote_argument_spec(roots.last())
    }
}

/// A fixed piece of the task definition.
pub open spec fn task_head_spec() -> Seq<char> {
    "<?xml version=\"1.0\" encoding=\"UTF-16\"?>\n<Task version=\"1.4\" xmlns=\"http://schemas.microsoft.com/windows/2004/02/mit/task\">\n  <RegistrationInfo>\n    <Description>Creature Context resident service ("@
}

/// A fixed piece of the task definition.
pub open spec fn task_after_label_spec() -> Seq<char> {
    ")</Description>\n  </RegistrationInfo>\n  <Triggers>\n    <LogonTrigger>\n      <Enabled>true</Enabled>\n    </LogonTrigger>\n  </Triggers>\n  <Principals>\n    <Principal id=\"Author\">\n      <LogonType>InteractiveToken</LogonType>\n      <RunLevel>LeastPrivilege</RunLevel>\n    </Principal>\n  </Principals>\n  <Settings>\n    <MultipleInstancesPolicy>IgnoreNew</MultipleInstancesPolicy>\n    <DisallowStartIfOnBatteries>false</DisallowStartIfOnBatteries>\n    <StopIfGoingOnBatteries>false</StopIfGoingOnBatteries>\n    <AllowHardTerminate>true</AllowHardTerminate>\n    <StartWhenAvailable>true</StartWhenAvailable>\n    <RunOnlyIfNetworkAvailable>false</RunOnlyIfNetworkAvailable>\n    <Enabled>true</Enabled>\n    <Hidden>false</Hidden>\n    <RunOnlyIfIdle>false</RunOnlyIfIdle>\n    <RestartOnFailure>\n      <Interval>PT1M</Interval>\n      <Count>3</Count>\n    </RestartOnFailure>\n    <ExecutionTimeLimit>PT0S</ExecutionTimeLimit>\n    <Priority>7</Priority>\n  </Settings>\n  <Actions Context=\"Author\">\n    <Exec>\n      <Command>"@
}

/// A fixed piece of the task definition.
pub open spec fn task_after_command_spec() -> Seq<char> {
    "</Command>\n      <Arguments>"@
}

/// A fixed piece of the task definition.
pub open spec fn task_after_arguments_spec() -> Seq<char> {
    "</Arguments>\n      <WorkingDirectory>"@
}

/// A fixed piece of the task definition.
pub open spec fn task_tail_spec() -> Seq<char> {
    "</WorkingDirectory>\n    </Exec>\n  </Actions>\n</Task>\n"@
}

/// The task definition: fixed text around the escaped label, binary,
/// arguments and working directory.
pub open spec fn task_xml(
    label: Seq<char>,
    binary: Seq<char>,
    arguments: Seq<char>,
    working: Seq<char>,
) -> Seq<char> {
    task_head_spec() + xml_escape_spec(label) + task_after_label_spec() + xml_escape_spec(binary)
        + task_after_command_spec() + xml_escape_spec(arguments) + task_after_arguments_spec()
        + xml_escape_spec(working) + task_tail_spec()
}

fn task_head() -> (r: &'static str)
    ensures
        r@ == task_head_spec(),
{
    "<?xml version=\"1.0\" encoding=\"UTF-16\"?>\n<Task version=\"1.4\" xmlns=\"http://schemas.microsoft.com/windows/2004/02/mit/task\">\n  <RegistrationInfo>\n    <Description>Creature Context resident service ("
}

fn task_after_label() -> (r: &'static str)
    ensures
        r@ == task_after_label_spec(),
{
    ")</Description>\n  </RegistrationInfo>\n  <Triggers>\n    <LogonTrigger>\n      <Enabled>true</Enabled>\n    </LogonTrigger>\n  </Triggers>\n  <Principals>\n    <Principal id=\"Author\">\n      <LogonType>InteractiveToken</LogonType>\n      <RunLevel>LeastPrivilege</RunLevel>\n    </Principal>\n  </Principals>\n  <Settings>\n    <MultipleInstancesPolicy>IgnoreNew</MultipleInstancesPolicy>\n    <DisallowStartIfOnBatteries>false</DisallowStartIfOnBatteries>\n    <StopIfGoingOnBatteries>false</StopIfGoingOnBatteries>\n    <AllowHardTerminate>true</AllowHardTerminate>\n    <StartWhenAvailable>true</StartWhenAvailable>\n    <RunOnlyIfNetworkAvailable>false</RunOnlyIfNetworkAvailable>\n    <Enabled>true</Enabled>\n    <Hidden>false</Hidden>\n    <RunOnlyIfIdle>false</RunOnlyIfIdle>\n    <RestartOnFailure>\n      <Interval>PT1M</Interval>\n      <Count>3</Count>\n    </RestartOnFailure>\n    <ExecutionTimeLimit>PT0S</ExecutionTimeLimit>\n    <Priority>7</Priority>\n  </Settings>\n  <Actions Context=\"Author\">\n    <Exec>\n      <Command>"
}

fn task_after_command() -> (r: &'static str)
    ensures
        r@ == task_after_command_spec(),
{
    "</Command>\n      <Arguments>"
}

fn task_after_arguments() -> (r: &'static str)
    ensures
        r@ == task_after_arguments_spec(),
{
    "</Arguments>\n      <WorkingDirectory>"
}

fn task_tail() -> (r: &'static str)
    ensures
        r@ == task_tail_spec(),
{
    "</WorkingDirectory>\n    </Exec>\n  </Actions>\n</Task>\n"
}

/// `r` is the Task Scheduler definition for `roots` and `binary`: with no
/// roots, the error that there is nothing to supervise; otherwise the label
/// of the set of roots, the staging path under the first root, and the task
/// XML running `binary` over every root from the first.
pub open spec fn is_task_definition(
    roots: Seq<Seq<char>>,
    binary: Seq<char>,
    r: Result<ServiceDefinition, DaemonError>,
) -> bool {
    &&& roots.len() == 0 ==> (r matches Err(DaemonError::Supervisor(m)) && m@
        == "no project roots given"@)
    &&& roots.len() > 0 ==> (r matches Ok(d) && {
        let label = label_spec(roots.to_set());
        let primary = roots[0];
        &&& d.label@ == label
        &&& d.unit_path@ == path_join_on(
            path_join_on(primary, ".creature"@, true),
            label + ".task.xml"@,
            true,
        )
        &&& d.contents@ == task_xml(label, binary, run_arguments(roots), primary)
    })
}

/// The Task Scheduler definition for the canonical `roots`, as data. Pure —
/// writes nothing. The first root is the working directory and the home of
/// the staged definition; with no roots there is nothing to supervise.
pub fn definition(roots: &Vec<String>, binary: &str) -> (r: Result<ServiceDefinition, DaemonError>)
    ensures
        is_task_definition(string_views(roots@), binary@, r),
{
    let label = label_for_roots(roots);
    if roots.len() == 0 {
        return Err(DaemonError::Supervisor(String::from_str("no project roots given")));
    }
    let primary = roots[0].as_str();
    let mut arguments = String::from_str("run");
    let mut i: usize = 0;
    assert(arguments@ == run_arguments(string_views(roots@).take(0))) by {
        reveal_strlit("run");
    }
    while i < roots.len()
        invariant
            0 <= i <= roots.len(),
            arguments@ == run_arguments(string_views(roots@).take(i as int)),
        decreases roots.len() - i,
    {
        let quoted = quote_argument(roots[i].as_str());
        let ghost before = arguments@;
        push_char(&mut arguments, ' ');
        push_str(&mut arguments, quoted.as_str());
        proof {
            let t = string_views(roots@).take(i + 1);
            assert(t.drop_last() =~= string_views(roots@).take(i as int));
            assert(t.last() == roots@[i as int]@);
        }
        i = i + 1;
    }
    assert(string_views(roots@).take(roots@.len() as int) =~= string_views(roots@));
    let mut contents = String::from_str(task_head());
    push_str(&mut contents, xml_escape(label.as_str()).as_str());
    push_str(&mut contents, task_after_label());
    push_str(&mut contents, xml_escape(binary).as_str());
    push_str(&mut contents, task_after_command());
    push_str(&mut contents, xml_escape(arguments.as_str()).as_str());
    push_str(&mut contents, task_after_arguments());
    push_str(&mut contents, xml_escape(primary).as_str());
    push_str(&mut contents, task_tail());
    let mut file_name = label.clone();
    push_str(&mut file_name, ".task.xml");
    let dir = definition_dir(primary);
    let unit_path = path_join_on_exec(dir.as_str(), file_name.as_str(), true);
    Ok(ServiceDefinition { label, unit_path, contents })
}

/// The UTF-16 code units of one character.
pub open spec fn utf16_units(c: char) -> Seq<u16> {
    let u = c as int;
    if u < 0x10000 {
        seq![u as u16]
    } else {
        seq![(0xD800 + (u - 0x10000) / 1024) as u16, (0xDC00 + (u - 0x10000) % 1024) as u16]
    }
}

/// The little-endian bytes of one code unit.
pub open spec fn le_bytes(unit: u16) -> Seq<u8> {
    seq![(unit % 256) as u8, (unit / 256) as u8]
}

/// The UTF-16LE encoding of a character sequence.
pub open spec fn utf16le(s: Seq<char>) -> Seq<u8>
    decreases s.len(),
{
    if s.len() == 0 {
        seq![]
    } else {
        let units = utf16_units(s.last());
        utf16le(s.drop_last()) + if units.len() == 1 {
            le_bytes(units[0])
        } else {
            le_bytes(units[0]) + le_bytes(units[1])
        }
    }
}

/// The code point of a character.
fn char_code(c: char) -> (r: u32)
    ensures
        r == c as int,
        r <= 0x10FFFF,
{
    c as u32
}

/// Encode as UTF-16LE with a byte-order mark, which is what the
/// `encoding="UTF-16"` declaration promises and what `schtasks /XML` expects.
pub fn utf16le_with_bom(text: &str) -> (r: Vec<u8>)
    ensures
        r@ == seq![0xFFu8, 0xFEu8] + utf16le(text@),
{
    let cs = chars_of(text);
    let mut bytes: Vec<u8> = vec![0xFF, 0xFE];
    let mut i: usize = 0;
    while i < cs.len()
        invariant
            0 <= i <= cs.len(),
            bytes@ == seq![0xFFu8, 0xFEu8] + utf16le(cs@.take(i as int)),
        decreases cs.len() - i,
    {
        let c = cs[i];
        let u: u32 = char_code(c);
        let ghost before = bytes@;
        if u < 0x10000 {
            let unit: u16 = u as u16;
            assert(unit == c as int);
            bytes.push((unit % 256) as u8);
            bytes.push((unit / 256) as u8);
            assert(utf16_units(c) == seq![unit]);
        } else {
            let v: u32 = u - 0x10000;
            let hi: u16 = (0xD800 + v / 1024) as u16;
            let lo: u16 = (0xDC00 + v % 1024) as u16;
            bytes.push((hi % 256) as u8);
            bytes.push((hi / 256) as u8);
            bytes.push((lo % 256) as u8);
            bytes.push((lo / 256) as u8);
            assert(utf16_units(c) == seq![hi, lo]);
        }
        proof {
            let t = cs@.take(i + 1);
            assert(t.drop_last() =~= cs@.take(i as int));
            assert(t.last() == c);
            assert(bytes@ =~= before + (if utf16_units(c).len() == 1 {
                le_bytes(utf16_units(c)[0])
            } else {
                le_bytes(utf16_units(c)[0]) + le_bytes(utf16_units(c)[1])
            }));
        }
        i = i + 1;
    }
    assert(cs@.take(cs.len() as int) =~= cs@);
    bytes
}

proof fn lemma_escape_concat(a: Seq<char>, b: Seq<char>)
    ensures
        xml_escape_spec(a + b) == xml_escape_spec(a) + xml_escape_spec(b),
    decreases b.len(),
{
    if b.len() == 0 {
        assert(a + b =~= a);
        assert(xml_escape_spec(a) + Seq::<char>::empty() =~= xml_escape_spec(a));
    } else {
        lemma_escape_concat(a, b.drop_last());
        assert((a + b).drop_last() =~= a + b.drop_last());
        assert((a + b).last() == b.last());
        assert(xml_escape_spec(a) + xml_escape_spec(b.drop_last()) + xml_escape_char(b.last())
            =~= xml_escape_spec(a) + (xml_escape_spec(b.drop_last()) + xml_escape_char(
            b.last(),
        )));
    }
}

proof fn lemma_root_in_arguments(roots: Seq<Seq<char>>, i: int) -> (parts: (Seq<char>, Seq<char>))
    requires
        0 <= i < roots.len(),
    ensures
        run_arguments(roots) == parts.0 + quote_argument_spec(roots[i]) + parts.1,
    decreases roots.len(),
{
    let last = roots.len() - 1;
    if i == last {
        let pre = run_arguments(roots.drop_last()) + seq![' '];
        assert(run_arguments(roots) =~= pre + quote_argument_spec(roots[i]) + Seq::<char>::empty());
        (pre, Seq::<char>::empty())
    } else {
        let (pre, post) = lemma_root_in_arguments(roots.drop_last(), i);
        assert(roots.drop_last()[i] == roots[i]);
        let post2 = post + seq![' '] + quote_argument_spec(roots.last());
        assert(run_arguments(roots) =~= pre + quote_argument_spec(roots[i]) + post2);
        (pre, post2)
    }
}

/// Every watched root reaches the supervised command line: the escaped,
/// quoted form of each root appears in the task definition's arguments, so
/// the daemon never watches fewer projects than were installed.
pub proof fn law_every_root_reaches_the_command_line(
    roots: Seq<Seq<char>>,
    i: int,
    label: Seq<char>,
    binary: Seq<char>,
    working: Seq<char>,
)
    requires
        0 <= i < roots.len(),
    ensures
        exists|k: int|
            matches_at(
                task_xml(label, binary, run_arguments(roots), working),
                xml_escape_spec(quote_argument_spec(roots[i])),
                k,
            ),
{
    let (pre, post) = lemma_root_in_arguments(roots, i);
    let q = quote_argument_spec(roots[i]);
    lemma_escape_concat(pre, q);
    lemma_escape_concat(pre + q, post);
    let args = run_arguments(roots);
    assert(xml_escape_spec(args) == xml_escape_spec(pre) + xml_escape_spec(q) + xml_escape_spec(
        post,
    ));
    let front = task_head_spec() + xml_escape_spec(label) + task_after_label_spec()
        + xml_escape_spec(binary) + task_after_command_spec();
    let back = task_after_arguments_spec() + xml_escape_spec(working) + task_tail_spec();
    let whole = task_xml(label, binary, args, working);
    assert(whole =~= front + xml_escape_spec(pre) + xml_escape_spec(q) + xml_escape_spec(post)
        + back);
    let k: int = front.len() as int + xml_escape_spec(pre).len() as int;
    let eq = xml_escape_spec(q);
    assert(whole.subrange(k, k + eq.len()) =~= eq);
    assert(matches_at(whole, eq, k));
}


/// The markup characters that escaped element text never holds raw.
pub open spec fn is_markup_char(c: char) -> bool {
    c == '<' || c == '>' || c == '"' || c == '\''
}

/// Escaping leaves no raw markup character: whatever a root or binary path
/// holds, it cannot open, close or quote an element of the task definition.
pub proof fn law_escaped_text_holds_no_raw_markup(s: Seq<char>)
    ensures
        forall|k: int|
            0 <= k < xml_escape_spec(s).len() ==> !is_markup_char(#[trigger] xml_escape_spec(s)[k]),
    decreases s.len(),
{
    if s.len() > 0 {
        law_escaped_text_holds_no_raw_markup(s.drop_last());
        let pre = xml_escape_spec(s.drop_last());
        let tail = xml_escape_char(s.last());
        assert(xml_escape_spec(s) == pre + tail);
        assert forall|k: int| 0 <= k < tail.len() implies !is_markup_char(#[trigger] tail[k]) by {
        }
        assert forall|k: int| 0 <= k < xml_escape_spec(s).len() implies !is_markup_char(
            #[trigger] xml_escape_spec(s)[k],
        ) by {
            if k < pre.len() {
                assert(xml_escape_spec(s)[k] == pre[k]);
            } else {
                assert(xml_escape_spec(s)[k] == tail[k - pre.len()]);
            }
        }
    }
}


/// Each of the five markup characters is written as its XML entity —
/// `&amp;`, `&lt;`, `&gt;`, `&quot;`, `&apos;` — and every other character
/// as itself.
pub proof fn law_markup_characters_become_entities(c: char)
    ensures
        c == '&' ==> xml_escape_char(c) == "&amp;"@,
        c == '<' ==> xml_escape_char(c) == "&lt;"@,
        c == '>' ==> xml_escape_char(c) == "&gt;"@,
        c == '"' ==> xml_escape_char(c) == "&quot;"@,
        c == '\'' ==> xml_escape_char(c) == "&apos;"@,
        !(c == '&' || c == '<' || c == '>' || c == '"' || c == '\'') ==> xml_escape_char(c)
            == seq![c],
{
    reveal_strlit("&amp;");
    reveal_strlit("&lt;");
    reveal_strlit("&gt;");
    reveal_strlit("&quot;");
    reveal_strlit("&apos;");
    assert("&amp;"@ =~= seq!['&', 'a', 'm', 'p', ';']);
    assert("&lt;"@ =~= seq!['&', 'l', 't', ';']);
    assert("&gt;"@ =~= seq!['&', 'g', 't', ';']);
    assert("&quot;"@ =~= seq!['&', 'q', 'u', 'o', 't', ';']);
    assert("&apos;"@ =~= seq!['&', 'a', 'p', 'o', 's', ';']);
}

} // verus!
