//! Reading an IDX line: splitting it into its tag and `key:value` fields,
//! looking fields up, and parsing the scalar values they hold.
use vstd::prelude::*;
use crate::atlas::GreenCode;
use crate::store::idx::IdxError;
use crate::store::idx::json::{is_json_body, is_json_literal, json_unquote, json_unquote_outcome};
use crate::text::{chars_eq_str, chars_of, find_char, find_char_exec, is_whitespace, skip_ws_from, slice_chars, string_of, trim_start};

verus! {

/// Scans `s` from `i` for space-separated tokens. Spaces inside a
/// JSON-quoted string do not separate; a backslash inside quotes escapes the
/// next character. Returns the tokens and whether a quote was left open.
pub open spec fn tok_scan(s: Seq<char>, i: int, inq: bool, esc: bool, cur: Seq<char>) -> (
    Seq<Seq<char>>,
    bool,
)
    decreases s.len() - i,
{
    if i < 0 || i >= s.len() {
        (
            if cur.len() > 0 {
                seq![cur]
            } else {
                seq![]
            },
            inq,
        )
    } else {
        let c = s[i];
        if esc {
            tok_scan(s, i + 1, inq, false, cur.push(c))
        } else if c == '\\' && inq {
            tok_scan(s, i + 1, inq, true, cur.push(c))
        } else if c == '"' {
            tok_scan(s, i + 1, !inq, false, cur.push(c))
        } else if c == ' ' && !inq {
            let rest = tok_scan(s, i + 1, inq, false, seq![]);
            if cur.len() > 0 {
                (seq![cur] + rest.0, rest.1)
            } else {
                rest
            }
        } else {
            tok_scan(s, i + 1, inq, false, cur.push(c))
        }
    }
}

/// One `key:value` token read as a field: the value is JSON-decoded when it
/// starts with a quote.
pub open spec fn field_of(token: Seq<char>) -> Result<(Seq<char>, Seq<char>), Seq<char>> {
    match find_char(token, ':') {
        None => Err("field without key:value separator: "@ + token),
        Some(k) => {
            let key = token.take(k);
            let value = token.skip(k + 1);
            if value.len() > 0 && value[0] == '"' {
                match json_unquote_outcome(value) {
                    Ok(v) => Ok((key, v)),
                    Err(e) => Err("invalid quoted value "@ + value + ": "@ + e),
                }
            } else {
                Ok((key, value))
            }
        },
    }
}

/// The fields of a list of tokens, or the first token's error.
pub open spec fn fields_of(tokens: Seq<Seq<char>>) -> Result<Seq<(Seq<char>, Seq<char>)>, Seq<char>>
    decreases tokens.len(),
{
    if tokens.len() == 0 {
        Ok(seq![])
    } else {
        match field_of(tokens[0]) {
            Err(e) => Err(e),
            Ok(f) => match fields_of(tokens.drop_first()) {
                Err(e) => Err(e),
                Ok(fs) => Ok(seq![f] + fs),
            },
        }
    }
}

/// A record line read as its tag and fields, or the reason it cannot be.
pub open spec fn tokenize_spec(line: Seq<char>) -> Result<
    (Seq<char>, Seq<(Seq<char>, Seq<char>)>),
    Seq<char>,
> {
    let (toks, open) = tok_scan(line, 0, false, false, seq![]);
    if open {
        Err("unterminated quote in line: "@ + line)
    } else if toks.len() == 0 {
        Err("empty record line"@)
    } else {
        match fields_of(toks.drop_first()) {
            Ok(fs) => Ok((toks[0], fs)),
            Err(e) => Err(e),
        }
    }
}

/// The fields as plain values.
pub open spec fn fields_view(v: Seq<(String, String)>) -> Seq<(Seq<char>, Seq<char>)> {
    v.map_values(|f: (String, String)| (f.0@, f.1@))
}

/// The message of a parse error.
pub open spec fn parse_message(e: IdxError) -> Option<Seq<char>> {
    match e {
        IdxError::Parse(m) => Some(m@),
        IdxError::Serialization(_) => None,
    }
}

/// The plain value of a tokenize result.
pub open spec fn tokenize_view(r: Result<(String, Vec<(String, String)>), IdxError>) -> Result<
    (Seq<char>, Seq<(Seq<char>, Seq<char>)>),
    Seq<char>,
> {
    match r {
        Ok((tag, fields)) => Ok((tag@, fields_view(fields@))),
        Err(e) => match parse_message(e) {
            Some(m) => Err(m),
            None => Err(seq![]),
        },
    }
}

pub(crate) fn parse_error(parts: Vec<&str>) -> (r: IdxError)
    ensures
        parse_message(r) == Some(concat_views(parts@)),
{
    let mut m = String::new();
    let mut i: usize = 0;
    while i < parts.len()
        invariant
            0 <= i <= parts.len(),
            m@ == concat_views(parts@.take(i as int)),
        decreases parts.len() - i,
    {
        crate::text::push_str(&mut m, parts[i]);
        assert(parts@.take(i + 1).drop_last() =~= parts@.take(i as int));
        i = i + 1;
    }
    assert(parts@.take(parts@.len() as int) =~= parts@);
    IdxError::Parse(m)
}

/// The concatenation of a list of strings.
pub open spec fn concat_views(parts: Seq<&str>) -> Seq<char>
    decreases parts.len(),
{
    if parts.len() == 0 {
        seq![]
    } else {
        concat_views(parts.drop_last()) + parts.last()@
    }
}

/// One token read as a field.
fn field_from_token(token: &Vec<char>) -> (r: Result<(String, String), IdxError>)
    ensures
        match r {
            Ok(f) => field_of(token@) == Ok::<(Seq<char>, Seq<char>), Seq<char>>((f.0@, f.1@)),
            Err(e) => field_of(token@) matches Err(m) && parse_message(e) == Some(m),
        },
{
    let text = string_of(token);
    match find_char_exec(token, ':') {
        None => {
            let e = parse_error(vec!["field without key:value separator: ", text.as_str()]);
            proof {
                reveal_with_fuel(concat_views, 3);
            }
            Err(e)
        },
        Some(k) => {
            let key = slice_chars(token, 0, k);
            let value = slice_chars(token, k + 1, token.len());
            assert(key@ =~= token@.take(k as int));
            assert(value@ =~= token@.skip(k + 1));
            let value_text = string_of(&value);
            if value.len() > 0 && value[0] == '"' {
                match json_unquote(value_text.as_str()) {
                    Ok(v) => Ok((string_of(&key), v)),
                    Err(m) => {
                        let e = parse_error(
                            vec!["invalid quoted value ", value_text.as_str(), ": ", m.as_str()],
                        );
                        proof {
                            reveal_with_fuel(concat_views, 5);
                        }
                        Err(e)
                    },
                }
            } else {
                Ok((string_of(&key), value_text))
            }
        },
    }
}

/// Split one IDX line into its record tag and its `key:value` fields.
pub fn tokenize(line: &str) -> (r: Result<(String, Vec<(String, String)>), IdxError>)
    ensures
        tokenize_view(r) == tokenize_spec(line@),
        r matches Err(e) ==> parse_message(e) is Some,
{
    let s = chars_of(line);
    let ghost sv = s@;
    let mut tokens: Vec<Vec<char>> = Vec::new();
    let mut current: Vec<char> = Vec::new();
    let mut in_quotes = false;
    let mut escaped = false;
    let mut i: usize = 0;
    let ghost whole = tok_scan(sv, 0, false, false, seq![]);
    while i < s.len()
        invariant
            sv == s@,
            sv == line@,
            0 <= i <= s.len(),
            whole == tok_scan(sv, 0, false, false, seq![]),
            crate::text::views(tokens@) + tok_scan(sv, i as int, in_quotes, escaped, current@).0
                == whole.0,
            tok_scan(sv, i as int, in_quotes, escaped, current@).1 == whole.1,
        decreases s.len() - i,
    {
        let ch = s[i];
        if escaped {
            current.push(ch);
            escaped = false;
        } else if ch == '\\' && in_quotes {
            escaped = true;
            current.push(ch);
        } else if ch == '"' {
            in_quotes = !in_quotes;
            current.push(ch);
        } else if ch == ' ' && !in_quotes {
            if current.len() > 0 {
                let ghost before = crate::text::views(tokens@);
                let ghost cur = current@;
                let mut taken: Vec<char> = Vec::new();
                std::mem::swap(&mut taken, &mut current);
                tokens.push(taken);
                proof {
                    assert(crate::text::views(tokens@) =~= before.push(cur));
                    let rest = tok_scan(sv, i + 1, in_quotes, false, seq![]);
                    assert(crate::text::views(tokens@) + rest.0 =~= before + (seq![cur] + rest.0));
                    assert(current@ =~= Seq::<char>::empty());
                }
            } else {
                assert(current@ =~= Seq::<char>::empty());
            }
        } else {
            current.push(ch);
        }
        i = i + 1;
    }
    if current.len() > 0 {
        let ghost before = crate::text::views(tokens@);
        let ghost cur = current@;
        tokens.push(current);
        assert(crate::text::views(tokens@) =~= before.push(cur));
    } else {
        assert(crate::text::views(tokens@) =~= crate::text::views(tokens@) + Seq::<
            Seq<char>,
        >::empty());
    }
    let ghost toks = crate::text::views(tokens@);
    assert(toks == whole.0);
    if in_quotes {
        let e = parse_error(vec!["unterminated quote in line: ", line]);
        proof {
            reveal_with_fuel(concat_views, 3);
        }
        return Err(e);
    }
    if tokens.len() == 0 {
        let e = parse_error(vec!["empty record line"]);
        proof {
            reveal_with_fuel(concat_views, 2);
        }
        return Err(e);
    }
    let tag = string_of(&tokens[0]);
    let ghost tail = toks.drop_first();
    let mut fields: Vec<(String, String)> = Vec::new();
    let mut k: usize = 1;
    assert(tail.skip(0) =~= tail);
    while k < tokens.len()
        invariant
            !whole.1,
            whole.0 == toks,
            sv == line@,
            whole == tok_scan(sv, 0, false, false, seq![]),
            1 <= k <= tokens.len(),
            toks == crate::text::views(tokens@),
            tail == toks.drop_first(),
            fields_of(tail) == match fields_of(tail.skip(k - 1)) {
                Ok(fs) => Ok(fields_view(fields@) + fs),
                Err(e) => Err(e),
            },
        decreases tokens.len() - k,
    {
        let ghost rest = tail.skip(k - 1);
        assert(rest[0] == tokens@[k as int]@);
        assert(rest.drop_first() =~= tail.skip(k as int));
        match field_from_token(&tokens[k]) {
            Ok(f) => {
                let ghost before = fields_view(fields@);
                fields.push(f);
                proof {
                    assert(fields_view(fields@) =~= before.push((f.0@, f.1@)));
                    match fields_of(tail.skip(k as int)) {
                        Ok(fs) => {
                            assert(fields_view(fields@) + fs =~= before + (seq![(f.0@, f.1@)]
                                + fs));
                        },
                        Err(_) => {},
                    }
                }
            },
            Err(e) => {
                proof {
                    let m = field_of(rest[0])->Err_0;
                    assert(fields_of(rest) == Err::<Seq<(Seq<char>, Seq<char>)>, Seq<char>>(m));
                    assert(fields_of(tail) == Err::<Seq<(Seq<char>, Seq<char>)>, Seq<char>>(m));
                    assert(!whole.1);
                    assert(whole.0.len() > 0);
                    assert(tokenize_spec(line@) == Err::<
                        (Seq<char>, Seq<(Seq<char>, Seq<char>)>),
                        Seq<char>,
                    >(m));
                    assert(parse_message(e) == Some(m));
                }
                return Err(e);
            },
        }
        k = k + 1;
    }
    assert(tail.skip(tokens.len() - 1) =~= Seq::<Seq<char>>::empty());
    assert(fields_view(fields@) + Seq::<(Seq<char>, Seq<char>)>::empty() =~= fields_view(fields@));
    Ok((tag, fields))
}

/// Scans `s` from `i` for the first space outside a quoted string. Returns
/// its position, if any, and whether a quote was left open.
pub open spec fn first_space_scan(s: Seq<char>, i: int, inq: bool, esc: bool) -> (Option<int>, bool)
    decreases s.len() - i,
{
    if i < 0 || i >= s.len() {
        (None, inq)
    } else {
        let c = s[i];
        if esc {
            first_space_scan(s, i + 1, inq, false)
        } else if c == '\\' && inq {
            first_space_scan(s, i + 1, inq, true)
        } else if c == '"' {
            first_space_scan(s, i + 1, !inq, false)
        } else if c == ' ' && !inq {
            (Some(i), inq)
        } else {
            first_space_scan(s, i + 1, inq, false)
        }
    }
}

/// The first token of `s` and what follows it (leading whitespace removed),
/// or the reason there is none.
pub open spec fn split_first_token_spec(s: Seq<char>) -> Result<(Seq<char>, Seq<char>), Seq<char>> {
    match first_space_scan(s, 0, false, false) {
        (Some(i), _) => Ok((s.take(i), trim_start(s.skip(i + 1)))),
        (None, true) => Err("unterminated quote while splitting token"@),
        (None, false) => Ok((s, seq![])),
    }
}

proof fn lemma_first_space_scan_range(s: Seq<char>, i: int, inq: bool, esc: bool)
    requires
        0 <= i,
    ensures
        first_space_scan(s, i, inq, esc).0 matches Some(k) ==> i <= k < s.len(),
    decreases s.len() - i,
{
    if i < s.len() {
        let c = s[i];
        if esc {
            lemma_first_space_scan_range(s, i + 1, inq, false);
        } else if c == '\\' && inq {
            lemma_first_space_scan_range(s, i + 1, inq, true);
        } else if c == '"' {
            lemma_first_space_scan_range(s, i + 1, !inq, false);
        } else if c == ' ' && !inq {
        } else {
            lemma_first_space_scan_range(s, i + 1, inq, false);
        }
    }
}

/// Split off the first space-delimited token of `input`, respecting
/// JSON-quoted strings that may contain spaces.
pub fn split_first_token(input: &str) -> (r: Result<(&str, &str), IdxError>)
    ensures
        match r {
            Ok((a, b)) => split_first_token_spec(input@) == Ok::<
                (Seq<char>, Seq<char>),
                Seq<char>,
            >((a@, b@)),
            Err(e) => split_first_token_spec(input@) matches Err(m) && parse_message(e) == Some(m),
        },
{
    let s = chars_of(input);
    let mut in_quotes = false;
    let mut escaped = false;
    let mut i: usize = 0;
    while i < s.len()
        invariant
            s@ == input@,
            0 <= i <= s.len(),
            first_space_scan(s@, 0, false, false) == first_space_scan(
                s@,
                i as int,
                in_quotes,
                escaped,
            ),
        decreases s.len() - i,
    {
        let ch = s[i];
        if escaped {
            escaped = false;
        } else if ch == '\\' && in_quotes {
            escaped = true;
        } else if ch == '"' {
            in_quotes = !in_quotes;
        } else if ch == ' ' && !in_quotes {
            let head = input.substring_char(0, i);
            let mut j: usize = i + 1;
            while j < s.len() && is_whitespace(s[j])
                invariant
                    s@ == input@,
                    i + 1 <= j <= s.len(),
                    skip_ws_from(s@.skip(i + 1), 0) == skip_ws_from(s@.skip(i + 1), j - (i + 1)),
                decreases s.len() - j,
            {
                assert(s@.skip(i + 1)[j - (i + 1)] == s@[j as int]);
                j = j + 1;
            }
            let tail = input.substring_char(j, s.len());
            proof {
                assert(head@ =~= s@.take(i as int));
                if j < s.len() {
                    assert(s@.skip(i + 1)[j - (i + 1)] == s@[j as int]);
                }
                assert(tail@ =~= trim_start(s@.skip(i + 1)));
            }
            return Ok((head, tail));
        }
        i = i + 1;
    }
    if in_quotes {
        let e = parse_error(vec!["unterminated quote while splitting token"]);
        proof {
            reveal_with_fuel(concat_views, 2);
        }
        return Err(e);
    }
    let empty = input.substring_char(0, 0);
    assert(empty@ =~= Seq::<char>::empty());
    Ok((input, empty))
}

/// The value of the first field named `key`, if any.
pub open spec fn lookup_field(fields: Seq<(Seq<char>, Seq<char>)>, key: Seq<char>, i: int) -> Option<
    Seq<char>,
>
    decreases fields.len() - i,
{
    if i < 0 || i >= fields.len() {
        None
    } else if fields[i].0 == key {
        Some(fields[i].1)
    } else {
        lookup_field(fields, key, i + 1)
    }
}

/// The value of the first field named `key`, if any.
pub fn get_opt<'a>(fields: &'a [(String, String)], key: &str) -> (r: Option<&'a str>)
    ensures
        match r {
            Some(v) => lookup_field(fields_view(fields@), key@, 0) == Some(v@),
            None => lookup_field(fields_view(fields@), key@, 0) is None,
        },
{
    let k = chars_of(key);
    let ghost fv = fields_view(fields@);
    let mut i: usize = 0;
    while i < fields.len()
        invariant
            0 <= i <= fields.len(),
            k@ == key@,
            fv == fields_view(fields@),
            lookup_field(fv, key@, 0) == lookup_field(fv, key@, i as int),
        decreases fields.len() - i,
    {
        let name = chars_of(fields[i].0.as_str());
        if crate::text::chars_eq(&name, &k) {
            return Some(fields[i].1.as_str());
        }
        i = i + 1;
    }
    None
}

/// The value of the required field named `key`.
pub fn get<'a>(fields: &'a [(String, String)], key: &str) -> (r: Result<&'a str, IdxError>)
    ensures
        match r {
            Ok(v) => lookup_field(fields_view(fields@), key@, 0) == Some(v@),
            Err(e) => lookup_field(fields_view(fields@), key@, 0) is None && parse_message(e)
                == Some("missing required field "@ + key@),
        },
{
    match get_opt(fields, key) {
        Some(v) => Ok(v),
        None => {
            let e = parse_error(vec!["missing required field ", key]);
            proof {
                reveal_with_fuel(concat_views, 3);
            }
            Err(e)
        },
    }
}

/// `true` or `false`, exactly.
pub fn parse_bool(value: &str) -> (r: Result<bool, IdxError>)
    ensures
        value@ == "true"@ ==> r == Ok::<bool, IdxError>(true),
        value@ == "false"@ ==> r == Ok::<bool, IdxError>(false),
        value@ != "true"@ && value@ != "false"@ ==> (r matches Err(e) && parse_message(e) == Some(
            "invalid bool "@ + value@,
        )),
{
    let v = chars_of(value);
    proof {
        reveal_strlit("true");
        reveal_strlit("false");
    }
    if chars_eq_str(&v, "true") {
        Ok(true)
    } else if chars_eq_str(&v, "false") {
        Ok(false)
    } else {
        let e = parse_error(vec!["invalid bool ", value]);
        proof {
            reveal_with_fuel(concat_views, 3);
        }
        Err(e)
    }
}

/// A Green code, by its letter or its name.
pub open spec fn green_code_spec(v: Seq<char>) -> Option<GreenCode> {
    if v == "G"@ || v == "green"@ {
        Some(GreenCode::Green)
    } else if v == "Y"@ || v == "yellow"@ {
        Some(GreenCode::Yellow)
    } else if v == "R"@ || v == "red"@ {
        Some(GreenCode::Red)
    } else if v == "U"@ || v == "unknown"@ {
        Some(GreenCode::Unknown)
    } else {
        None
    }
}

/// A Green code, by its letter or its name.
pub fn parse_green_code(value: &str) -> (r: Result<GreenCode, IdxError>)
    ensures
        match r {
            Ok(c) => green_code_spec(value@) == Some(c),
            Err(e) => green_code_spec(value@) is None && parse_message(e) == Some(
                "invalid GreenCode "@ + value@,
            ),
        },
{
    let v = chars_of(value);
    if chars_eq_str(&v, "G") || chars_eq_str(&v, "green") {
        Ok(GreenCode::Green)
    } else if chars_eq_str(&v, "Y") || chars_eq_str(&v, "yellow") {
        Ok(GreenCode::Yellow)
    } else if chars_eq_str(&v, "R") || chars_eq_str(&v, "red") {
        Ok(GreenCode::Red)
    } else if chars_eq_str(&v, "U") || chars_eq_str(&v, "unknown") {
        Ok(GreenCode::Unknown)
    } else {
        let e = parse_error(vec!["invalid GreenCode ", value]);
        proof {
            reveal_with_fuel(concat_views, 3);
        }
        Err(e)
    }
}

/// Why a decimal text is not a `u32`, in `ParseIntError`'s words.
pub open spec fn empty_message() -> Seq<char> {
    "cannot parse integer from empty string"@
}

pub open spec fn invalid_digit_message() -> Seq<char> {
    "invalid digit found in string"@
}

pub open spec fn overflow_message() -> Seq<char> {
    "number too large to fit in target type"@
}

pub open spec fn is_digit(c: char) -> bool {
    '0' <= c && c <= '9'
}

/// Reads the digits of `d` from `i` onward into `acc`, left to right, as
/// `str::parse::<u32>` does: the first non-digit or the first overflow
/// decides the error.
pub open spec fn digits_scan(d: Seq<char>, i: int, acc: int) -> Result<int, Seq<char>>
    decreases d.len() - i,
{
    if i < 0 || i >= d.len() {
        Ok(acc)
    } else if !is_digit(d[i]) {
        Err(invalid_digit_message())
    } else if acc * 10 + (d[i] as int - '0' as int) > u32::MAX {
        Err(overflow_message())
    } else {
        digits_scan(d, i + 1, acc * 10 + (d[i] as int - '0' as int))
    }
}

/// `str::parse::<u32>`: an optional `+`, then at least one decimal digit,
/// fitting in 32 bits.
pub open spec fn u32_spec(v: Seq<char>) -> Result<int, Seq<char>> {
    if v.len() == 0 {
        Err(empty_message())
    } else if v == seq!['+'] || v == seq!['-'] {
        Err(invalid_digit_message())
    } else if v[0] == '+' {
        digits_scan(v, 1, 0)
    } else {
        digits_scan(v, 0, 0)
    }
}

proof fn lemma_digits_scan_bound(d: Seq<char>, i: int, acc: int)
    requires
        0 <= acc <= u32::MAX,
    ensures
        digits_scan(d, i, acc) matches Ok(n) ==> 0 <= n <= u32::MAX,
    decreases d.len() - i,
{
    if 0 <= i < d.len() && is_digit(d[i]) && acc * 10 + (d[i] as int - '0' as int) <= u32::MAX {
        lemma_digits_scan_bound(d, i + 1, acc * 10 + (d[i] as int - '0' as int));
    }
}

/// Reads the digits of `v` from `start`, as `digits_scan` does.
fn read_digits(v: &Vec<char>, start: usize) -> (r: Result<u32, &'static str>)
    requires
        start <= v.len(),
    ensures
        match r {
            Ok(n) => digits_scan(v@, start as int, 0) == Ok::<int, Seq<char>>(n as int),
            Err(why) => digits_scan(v@, start as int, 0) == Err::<int, Seq<char>>(why@),
        },
{
    let mut i: usize = start;
    let mut acc: u32 = 0;
    while i < v.len()
        invariant
            start <= i <= v.len(),
            digits_scan(v@, start as int, 0) == digits_scan(v@, i as int, acc as int),
        decreases v.len() - i,
    {
        let c = v[i];
        if !('0' <= c && c <= '9') {
            return Err("invalid digit found in string");
        }
        let d: u32 = (c as u32) - ('0' as u32);
        assert(d == c as int - '0' as int);
        if acc > 429496729 || (acc == 429496729 && d > 5) {
            return Err("number too large to fit in target type");
        }
        acc = acc * 10 + d;
        i = i + 1;
    }
    Ok(acc)
}

/// A `u32` in decimal.
pub fn parse_u32(value: &str) -> (r: Result<u32, IdxError>)
    ensures
        match r {
            Ok(n) => u32_spec(value@) == Ok::<int, Seq<char>>(n as int),
            Err(e) => u32_spec(value@) matches Err(why) && parse_message(e) == Some(
                "invalid u32 "@ + value@ + ": "@ + why,
            ),
        },
{
    let v = chars_of(value);
    let outcome: Result<u32, &'static str> = if v.len() == 0 {
        Err("cannot parse integer from empty string")
    } else if v.len() == 1 && (v[0] == '+' || v[0] == '-') {
        assert(v@ =~= seq![v@[0]]);
        Err("invalid digit found in string")
    } else {
        proof {
            if v@ == seq!['+'] || v@ == seq!['-'] {
                assert(v@.len() == 1);
            }
        }
        if v[0] == '+' {
            read_digits(&v, 1)
        } else {
            read_digits(&v, 0)
        }
    };
    match outcome {
        Ok(n) => Ok(n),
        Err(why) => {
            let e = parse_error(vec!["invalid u32 ", value, ": ", why]);
            proof {
                reveal_with_fuel(concat_views, 5);
            }
            Err(e)
        },
    }
}

} // verus!

verus! {

/// A character that neither separates tokens nor opens a quote or escape.
pub open spec fn is_plain_char(c: char) -> bool {
    c != ' ' && c != '"' && c != '\\'
}

/// Every character of `s` is plain.
pub open spec fn is_plain(s: Seq<char>) -> bool {
    forall|i: int| 0 <= i < s.len() ==> is_plain_char(#[trigger] s[i])
}

/// A run of plain characters outside quotes only extends the current token.
proof fn lemma_plain_run(s: Seq<char>, i: int, j: int, cur: Seq<char>)
    requires
        0 <= i <= j <= s.len(),
        forall|m: int| i <= m < j ==> is_plain_char(#[trigger] s[m]),
    ensures
        tok_scan(s, i, false, false, cur) == tok_scan(s, j, false, false, cur + s.subrange(i, j)),
    decreases j - i,
{
    if i < j {
        assert(is_plain_char(s[i]));
        lemma_plain_run(s, i + 1, j, cur.push(s[i]));
        assert(cur.push(s[i]) + s.subrange(i + 1, j) =~= cur + s.subrange(i, j));
    } else {
        assert(cur + s.subrange(i, j) =~= cur);
    }
}

/// Inside quotes, an escaped body only extends the current token and leaves
/// the quote open.
proof fn lemma_json_body_run(s: Seq<char>, i: int, j: int, cur: Seq<char>)
    requires
        0 <= i <= j <= s.len(),
        is_json_body(s.subrange(i, j)),
    ensures
        tok_scan(s, i, true, false, cur) == tok_scan(s, j, true, false, cur + s.subrange(i, j)),
    decreases j - i,
{
    let b = s.subrange(i, j);
    if i == j {
        assert(cur + b =~= cur);
    } else if s[i] == '\\' {
        assert(b[0] == s[i]);
        assert(b.skip(2) =~= s.subrange(i + 2, j));
        let c1 = cur.push(s[i]);
        let c2 = c1.push(s[i + 1]);
        assert(tok_scan(s, i, true, false, cur) == tok_scan(s, i + 1, true, true, c1));
        assert(tok_scan(s, i + 1, true, true, c1) == tok_scan(s, i + 2, true, false, c2));
        lemma_json_body_run(s, i + 2, j, c2);
        assert(c2 + s.subrange(i + 2, j) =~= cur + b);
    } else {
        assert(b[0] == s[i]);
        assert(b.skip(1) =~= s.subrange(i + 1, j));
        lemma_json_body_run(s, i + 1, j, cur.push(s[i]));
        assert(cur.push(s[i]) + s.subrange(i + 1, j) =~= cur + b);
    }
}

/// A rendered field — a bare atom or a JSON string literal — stays one token
/// of its record line, so a line of one field reads back as its tag and that
/// field's value, when tag and key hold no space, quote or backslash and the
/// key no colon.
pub proof fn law_a_rendered_field_reads_back_through_its_line(
    tag: Seq<char>,
    key: Seq<char>,
    rendered: Seq<char>,
)
    requires
        tag.len() > 0,
        is_plain(tag),
        is_plain(key),
        !crate::text::contains_char(key, ':'),
        crate::store::idx::escape::is_bare(rendered) || is_json_literal(rendered),
        crate::store::idx::escape::read_value(rendered) is Ok,
    ensures
        tokenize_spec(tag + seq![' '] + key + seq![':'] + rendered) == Ok::<
            (Seq<char>, Seq<(Seq<char>, Seq<char>)>),
            Seq<char>,
        >((tag, seq![(key, crate::store::idx::escape::read_value(rendered)->Ok_0)])),
{
    let token = key + seq![':'] + rendered;
    let line = tag + seq![' '] + token;
    assert(line =~= tag + seq![' '] + key + seq![':'] + rendered);
    let t = tag.len() as int;
    let n = line.len() as int;
    assert forall|m: int| 0 <= m < t implies is_plain_char(#[trigger] line[m]) by {
        assert(line[m] == tag[m]);
    }
    lemma_plain_run(line, 0, t, seq![]);
    assert(seq![] + line.subrange(0, t) =~= tag);
    assert(line[t] == ' ');
    let v0 = t + 1 + key.len() + 1;
    assert forall|m: int| t + 1 <= m < v0 implies is_plain_char(#[trigger] line[m]) by {
        let q = m - (t + 1);
        assert(line[m] == token[q]);
        if q < key.len() {
            assert(token[q] == key[q]);
        } else {
            assert(token[q] == ':');
        }
    }
    lemma_plain_run(line, t + 1, v0, seq![]);
    let head = seq![] + line.subrange(t + 1, v0);
    assert(head =~= key + seq![':']);
    assert forall|q: int| 0 <= q < rendered.len() implies line[v0 + q] == rendered[q] by {
        assert(line[v0 + q] == token[key.len() + 1 + q]);
    }
    if crate::store::idx::escape::is_bare(rendered) {
        assert forall|m: int| v0 <= m < n implies is_plain_char(#[trigger] line[m]) by {
            assert(line[m] == rendered[m - v0]);
            assert(crate::store::idx::escape::is_atom_char(rendered[m - v0]));
        }
        lemma_plain_run(line, v0, n, head);
        assert(head + line.subrange(v0, n) =~= token);
        assert(crate::store::idx::escape::is_atom_char(rendered[0]));
    } else {
        let r = rendered.len() as int;
        assert(line[v0] == '"');
        assert(tok_scan(line, v0, false, false, head) == tok_scan(
            line,
            v0 + 1,
            true,
            false,
            head.push('"'),
        ));
        assert(line.subrange(v0 + 1, n - 1) =~= rendered.subrange(1, r - 1));
        lemma_json_body_run(line, v0 + 1, n - 1, head.push('"'));
        let before_close = head.push('"') + line.subrange(v0 + 1, n - 1);
        assert(line[n - 1] == '"');
        assert(tok_scan(line, n - 1, true, false, before_close) == tok_scan(
            line,
            n,
            false,
            false,
            before_close.push('"'),
        ));
        assert(before_close.push('"') =~= token);
    }
    let rest = tok_scan(line, t + 1, false, false, seq![]);
    assert(rest == tok_scan(line, n, false, false, token));
    assert(token.len() > 0);
    assert(rest == (seq![token], false));
    assert(tok_scan(line, 0, false, false, seq![]) == (seq![tag] + rest.0, rest.1));
    let toks = seq![tag] + seq![token];
    assert(toks.drop_first() =~= seq![token]);
    crate::store::idx::escape::law_a_rendered_field_reads_back(key, rendered);
    let v = crate::store::idx::escape::read_value(rendered)->Ok_0;
    assert(field_of(token) == Ok::<(Seq<char>, Seq<char>), Seq<char>>((key, v)));
    assert(fields_of(seq![token]) == Ok::<Seq<(Seq<char>, Seq<char>)>, Seq<char>>(
        seq![(key, v)],
    )) by {
        reveal_with_fuel(fields_of, 2);
        assert(seq![token][0] == token);
        assert(seq![token].drop_first() =~= Seq::<Seq<char>>::empty());
        assert(seq![(key, v)] =~= seq![(key, v)] + Seq::<(Seq<char>, Seq<char>)>::empty());
    }
}

} // verus!
