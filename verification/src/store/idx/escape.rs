//! Rendering one IDX field value.
use vstd::prelude::*;
use crate::store::idx::json::{is_json_literal, json_literal, json_quote, json_unquote_outcome, lemma_json_literal_is_literal};
use crate::store::idx::tokens::field_of;
use crate::text::{contains_char, find_char, find_char_from};
use crate::text::chars_of;

verus! {

/// `char::is_ascii_alphanumeric`.
pub open spec fn is_ascii_alnum(c: char) -> bool {
    ('a' <= c && c <= 'z') || ('A' <= c && c <= 'Z') || ('0' <= c && c <= '9')
}

/// A character that may stand unquoted in a field value.
pub open spec fn is_atom_char(c: char) -> bool {
    is_ascii_alnum(c) || c == '-' || c == '_' || c == '.' || c == '/'
}

/// A bare atom: non-empty, and nothing that would make the `key:value`
/// split ambiguous.
pub open spec fn is_bare(s: Seq<char>) -> bool {
    s.len() > 0 && forall|i: int| 0 <= i < s.len() ==> is_atom_char(#[trigger] s[i])
}

/// The rendering of a field value: bare atoms as they are, anything else as
/// its JSON string literal.
pub open spec fn field_spec(value: Seq<char>) -> Seq<char> {
    if is_bare(value) {
        value
    } else {
        json_literal(value)
    }
}

fn is_atom_char_exec(c: char) -> (r: bool)
    ensures
        r == is_atom_char(c),
{
    ('a' <= c && c <= 'z') || ('A' <= c && c <= 'Z') || ('0' <= c && c <= '9') || c == '-' || c
        == '_' || c == '.' || c == '/'
}

/// Whether `value` is a bare atom.
pub fn is_bare_exec(value: &str) -> (r: bool)
    ensures
        r == is_bare(value@),
{
    let cs = chars_of(value);
    if cs.len() == 0 {
        return false;
    }
    let mut i: usize = 0;
    while i < cs.len()
        invariant
            0 <= i <= cs.len(),
            cs@ == value@,
            forall|j: int| 0 <= j < i ==> is_atom_char(#[trigger] cs@[j]),
        decreases cs.len() - i,
    {
        if !is_atom_char_exec(cs[i]) {
            return false;
        }
        i = i + 1;
    }
    true
}

/// How a rendered field value is read back: one that starts with a quote is
/// JSON-decoded, anything else is taken as it stands.
pub open spec fn read_value(v: Seq<char>) -> Result<Seq<char>, Seq<char>> {
    if v.len() > 0 && v[0] == '"' {
        json_unquote_outcome(v)
    } else {
        Ok(v)
    }
}

/// Render an IDX field value: bare atoms unquoted, everything else with JSON
/// string escaping. Read back, the rendering gives the value again.
pub fn field(value: &str) -> (r: String)
    ensures
        r@ == field_spec(value@),
        read_value(r@) == Ok::<Seq<char>, Seq<char>>(value@),
        r@ == value@ <==> is_bare(value@),
        is_bare(r@) || is_json_literal(r@),
{
    if is_bare_exec(value) {
        proof {
            assert(is_atom_char(value@[0]));
        }
        String::from_str(value)
    } else {
        let q = json_quote(value);
        proof {
            lemma_json_literal_is_literal(value@);
        }
        q
    }
}

proof fn lemma_find_separator(key: Seq<char>, rest: Seq<char>, i: int)
    requires
        0 <= i <= key.len(),
        !contains_char(key, ':'),
    ensures
        find_char_from(key + seq![':'] + rest, ':', i) == Some(key.len() as int),
    decreases key.len() - i,
{
    let t = key + seq![':'] + rest;
    if i < key.len() {
        assert(t[i] == key[i]);
        lemma_find_separator(key, rest, i + 1);
    } else {
        assert(t[i] == ':');
    }
}

/// A `key:value` token whose key has no colon reads as that key and the
/// value read back from its rendering: the field a record line holds is the
/// one that was written.
pub proof fn law_a_rendered_field_reads_back(key: Seq<char>, rendered: Seq<char>)
    requires
        !contains_char(key, ':'),
        read_value(rendered) is Ok,
    ensures
        field_of(key + seq![':'] + rendered) == Ok::<(Seq<char>, Seq<char>), Seq<char>>(
            (key, read_value(rendered)->Ok_0),
        ),
{
    let t = key + seq![':'] + rendered;
    lemma_find_separator(key, rendered, 0);
    assert(find_char(t, ':') == Some(key.len() as int));
    assert(t.take(key.len() as int) =~= key);
    assert(t.skip(key.len() as int + 1) =~= rendered);
}

} // verus!
