//! The two JSON string operations the IDX form needs, performed by
//! `serde_json`.
use vstd::prelude::*;

verus! {

/// What `serde_json::from_str::<String>` gives for `s`: the decoded string,
/// or the error's message.
pub uninterp spec fn json_unquote_outcome(s: Seq<char>) -> Result<Seq<char>, Seq<char>>;

/// The characters between the quotes of a JSON string literal: no bare
/// quote, and every backslash opens an escape that takes the character after
/// it.
pub open spec fn is_json_body(b: Seq<char>) -> bool
    decreases b.len(),
{
    if b.len() == 0 {
        true
    } else if b[0] == '"' {
        false
    } else if b[0] == '\\' {
        b.len() >= 2 && is_json_body(b.skip(2))
    } else {
        is_json_body(b.skip(1))
    }
}

/// A JSON string literal: a quote, an escaped body, a closing quote.
pub open spec fn is_json_literal(q: Seq<char>) -> bool {
    q.len() >= 2 && q[0] == '"' && q[q.len() - 1] == '"' && is_json_body(
        q.subrange(1, q.len() - 1),
    )
}

/// The JSON escape of one character: a quote and a backslash escaped by a
/// backslash, the five named control characters by their letters, every other
/// control character as `\u00` and two lowercase hex digits, and anything
/// else as it is.
pub open spec fn json_escape_char(c: char) -> Seq<char> {
    if c == '"' {
        seq!['\\', '"']
    } else if c == '\\' {
        seq!['\\', '\\']
    } else if c == '\u{8}' {
        seq!['\\', 'b']
    } else if c == '\t' {
        seq!['\\', 't']
    } else if c == '\n' {
        seq!['\\', 'n']
    } else if c == '\u{c}' {
        seq!['\\', 'f']
    } else if c == '\r' {
        seq!['\\', 'r']
    } else if (c as u32) < 0x20 {
        seq![
            '\\',
            'u',
            '0',
            '0',
            crate::digest::hex_digit(((c as u32) / 16) as u8),
            crate::digest::hex_digit(((c as u32) % 16) as u8),
        ]
    } else {
        seq![c]
    }
}

/// The escaped characters of `s`, in order.
pub open spec fn json_escape(s: Seq<char>) -> Seq<char>
    decreases s.len(),
{
    if s.len() == 0 {
        seq![]
    } else {
        json_escape(s.drop_last()) + json_escape_char(s.last())
    }
}

/// The JSON string literal of `s`: its escape between quotes.
pub open spec fn json_literal(s: Seq<char>) -> Seq<char> {
    seq!['"'] + json_escape(s) + seq!['"']
}

proof fn lemma_json_body_concat(a: Seq<char>, b: Seq<char>)
    requires
        is_json_body(a),
        is_json_body(b),
    ensures
        is_json_body(a + b),
    decreases a.len(),
{
    if a.len() > 0 {
        if a[0] == '\\' {
            assert((a + b).skip(2) =~= a.skip(2) + b);
            lemma_json_body_concat(a.skip(2), b);
        } else {
            assert((a + b).skip(1) =~= a.skip(1) + b);
            lemma_json_body_concat(a.skip(1), b);
        }
        assert((a + b)[0] == a[0]);
    } else {
        assert(a + b =~= b);
    }
}

proof fn lemma_plain_body(p: Seq<char>)
    requires
        forall|i: int| 0 <= i < p.len() ==> #[trigger] p[i] != '"' && p[i] != '\\',
    ensures
        is_json_body(p),
    decreases p.len(),
{
    if p.len() > 0 {
        assert forall|i: int| 0 <= i < p.skip(1).len() implies #[trigger] p.skip(1)[i] != '"'
            && p.skip(1)[i] != '\\' by {
            assert(p.skip(1)[i] == p[i + 1]);
        }
        lemma_plain_body(p.skip(1));
    }
}

/// The escape of `s` is a body no bare quote ends, so its literal is one.
pub proof fn lemma_json_literal_is_literal(s: Seq<char>)
    ensures
        is_json_literal(json_literal(s)),
        json_literal(s).len() >= s.len() + 2,
    decreases s.len(),
{
    let q = json_literal(s);
    assert(q.subrange(1, q.len() - 1) =~= json_escape(s));
    lemma_json_escape(s);
}

proof fn lemma_json_escape(s: Seq<char>)
    ensures
        is_json_body(json_escape(s)),
        json_escape(s).len() >= s.len(),
    decreases s.len(),
{
    if s.len() > 0 {
        lemma_json_escape(s.drop_last());
        let e = json_escape_char(s.last());
        let c = s.last();
        if e.len() > 1 {
            assert(e[0] == '\\');
            let t = e.skip(2);
            assert forall|i: int| 0 <= i < t.len() implies #[trigger] t[i] != '"' && t[i] != '\\' by {
                assert(t[i] == e[i + 2]);
                if (c as u32) < 0x20 && !(c == '\u{8}' || c == '\t' || c == '\n' || c == '\u{c}' || c == '\r') {
                    let hi = ((c as u32) / 16) as u8;
                    let lo = ((c as u32) % 16) as u8;
                    assert(crate::digest::is_lower_hex(crate::digest::hex_digit(hi))) by {
                        crate::digest::lemma_hex_digit_is_lower(hi);
                    }
                    assert(crate::digest::is_lower_hex(crate::digest::hex_digit(lo))) by {
                        crate::digest::lemma_hex_digit_is_lower(lo);
                    }
                }
            }
            lemma_plain_body(t);
        } else {
            lemma_plain_body(e);
        }
        lemma_json_body_concat(json_escape(s.drop_last()), e);
    }
}

/// The view of an optional string.
pub open spec fn opt_string_view(r: Option<String>) -> Option<Seq<char>> {
    match r {
        Some(s) => Some(s@),
        None => None,
    }
}

/// The view of a string result.
pub open spec fn string_result_view(r: Result<String, String>) -> Result<Seq<char>, Seq<char>> {
    match r {
        Ok(s) => Ok(s@),
        Err(e) => Err(e@),
    }
}

/// `serde_json::to_string(value)` for a string, which never fails: its
/// JSON string literal — a quote, the string's characters with every quote,
/// backslash and control character written as a backslash escape, and a
/// closing quote — which decodes back to the same string.
#[verifier::external_body]
pub(crate) fn json_quote(value: &str) -> (r: String)
    ensures
        r@ == json_literal(value@),
        json_unquote_outcome(r@) is Ok && json_unquote_outcome(r@)->Ok_0 == value@,
{
    serde_json::to_string(value).unwrap_or_default()
}

/// `serde_json::from_str::<String>(text)`: the string a JSON string literal
/// denotes, or the error's message.
#[verifier::external_body]
pub(crate) fn json_unquote(text: &str) -> (r: Result<String, String>)
    ensures
        string_result_view(r) == json_unquote_outcome(text@),
{
    serde_json::from_str::<String>(text).map_err(|e| e.to_string())
}

} // verus!
