//! The `@green` record: an entity's Green assessment as one IDX line, and
//! reading it back.
use vstd::prelude::*;
use crate::atlas::{GreenAssessment, GreenAxis, GreenCode};
use crate::ids::{parse_uuid, uuid_parse_of};
use crate::store::idx::IdxError;
use crate::store::idx::escape::{law_a_rendered_field_reads_back, read_value};
use crate::store::idx::tokens::{
    concat_views, field_of, fields_of, fields_view, get, get_opt, green_code_spec, lookup_field,
    parse_error, parse_green_code, parse_message, tok_scan, tokenize_spec,
};
use crate::text::{contains_char, push_char, push_str};

verus! {

/// Every axis, in the order a record lists them.
pub open spec fn all_axes() -> Seq<GreenAxis> {
    seq![
        GreenAxis::Content,
        GreenAxis::Structure,
        GreenAxis::Integration,
        GreenAxis::Verification,
        GreenAxis::Freshness,
        GreenAxis::Coherence,
    ]
}

/// The single letter that names an axis in a record.
pub open spec fn axis_letter_spec(axis: GreenAxis) -> char {
    match axis {
        GreenAxis::Content => 'C',
        GreenAxis::Structure => 'S',
        GreenAxis::Integration => 'I',
        GreenAxis::Verification => 'V',
        GreenAxis::Freshness => 'F',
        GreenAxis::Coherence => 'H',
    }
}

/// The letter that names `axis` in a record.
pub fn axis_letter(axis: GreenAxis) -> (r: char)
    ensures
        r == axis_letter_spec(axis),
{
    match axis {
        GreenAxis::Content => 'C',
        GreenAxis::Structure => 'S',
        GreenAxis::Integration => 'I',
        GreenAxis::Verification => 'V',
        GreenAxis::Freshness => 'F',
        GreenAxis::Coherence => 'H',
    }
}

fn axis_at(k: usize) -> (r: GreenAxis)
    requires
        k < 6,
    ensures
        r == all_axes()[k as int],
{
    if k == 0 {
        GreenAxis::Content
    } else if k == 1 {
        GreenAxis::Structure
    } else if k == 2 {
        GreenAxis::Integration
    } else if k == 3 {
        GreenAxis::Verification
    } else if k == 4 {
        GreenAxis::Freshness
    } else {
        GreenAxis::Coherence
    }
}

fn axis_key(axis: GreenAxis) -> (r: &'static str)
    ensures
        r@ == seq![axis_letter_spec(axis)],
{
    proof {
        reveal_strlit("C");
        reveal_strlit("S");
        reveal_strlit("I");
        reveal_strlit("V");
        reveal_strlit("F");
        reveal_strlit("H");
    }
    match axis {
        GreenAxis::Content => "C",
        GreenAxis::Structure => "S",
        GreenAxis::Integration => "I",
        GreenAxis::Verification => "V",
        GreenAxis::Freshness => "F",
        GreenAxis::Coherence => "H",
    }
}

/// The code an assessment gives `axis`: the first entry for it, or Unknown
/// when it was not assessed.
pub open spec fn axis_code(axes: Seq<(GreenAxis, GreenCode)>, axis: GreenAxis) -> GreenCode
    decreases axes.len(),
{
    if axes.len() == 0 {
        GreenCode::Unknown
    } else if axes[0].0 == axis {
        axes[0].1
    } else {
        axis_code(axes.drop_first(), axis)
    }
}

fn axis_code_exec(axes: &Vec<(GreenAxis, GreenCode)>, axis: GreenAxis) -> (r: GreenCode)
    ensures
        r == axis_code(axes@, axis),
{
    let mut i: usize = 0;
    assert(axes@.skip(0) =~= axes@);
    while i < axes.len()
        invariant
            0 <= i <= axes.len(),
            axis_code(axes@, axis) == axis_code(axes@.skip(i as int), axis),
        decreases axes.len() - i,
    {
        let ghost rest = axes@.skip(i as int);
        assert(rest[0] == axes@[i as int]);
        assert(rest.drop_first() =~= axes@.skip(i + 1));
        if axes[i].0 == axis {
            return axes[i].1;
        }
        i = i + 1;
    }
    GreenCode::Unknown
}

/// ` X:c` for each of the first `k` axes, in order.
pub open spec fn axes_text(axes: Seq<(GreenAxis, GreenCode)>, k: nat) -> Seq<char>
    decreases k,
{
    if k == 0 {
        seq![]
    } else {
        let a = all_axes()[k - 1];
        axes_text(axes, (k - 1) as nat) + seq![
            ' ',
            axis_letter_spec(a),
            ':',
            axis_code(axes, a).spec_short(),
        ]
    }
}

/// The `@green` line for the entity `target`: each axis by its letter and
/// code (`U` when unassessed), then the overall code.
pub open spec fn green_line_spec(
    target: Seq<char>,
    axes: Seq<(GreenAxis, GreenCode)>,
    overall: GreenCode,
) -> Seq<char> {
    "@green target:"@ + target + axes_text(axes, 6) + " overall:"@ + seq![overall.spec_short()]
}

/// Render an entity's Green assessment as its `@green` line.
pub fn green_line(target: &str, green: &GreenAssessment) -> (r: String)
    ensures
        r@ == green_line_spec(target@, green.axes@, green.overall),
{
    let mut line = String::from_str("@green target:");
    push_str(&mut line, target);
    let ghost head = line@;
    let mut k: usize = 0;
    while k < 6
        invariant
            0 <= k <= 6,
            line@ == head + axes_text(green.axes@, k as nat),
        decreases 6 - k,
    {
        let a = axis_at(k);
        let code = axis_code_exec(&green.axes, a);
        push_char(&mut line, ' ');
        push_char(&mut line, axis_letter(a));
        push_char(&mut line, ':');
        push_char(&mut line, code.short());
        assert(line@ =~= head + axes_text(green.axes@, (k + 1) as nat));
        k = k + 1;
    }
    push_str(&mut line, " overall:");
    push_char(&mut line, green.overall.short());
    assert(line@ =~= green_line_spec(target@, green.axes@, green.overall));
    line
}

/// The code a field gives: Unknown when absent, an error when it is not a
/// Green code.
pub open spec fn code_field(fields: Seq<(Seq<char>, Seq<char>)>, key: Seq<char>) -> Result<
    GreenCode,
    Seq<char>,
> {
    match lookup_field(fields, key, 0) {
        None => Ok(GreenCode::Unknown),
        Some(v) => match green_code_spec(v) {
            Some(c) => Ok(c),
            None => Err("invalid GreenCode "@ + v),
        },
    }
}

/// The codes of the first `k` axes, read from their letter fields in axis
/// order; the first invalid code is the error.
pub open spec fn axes_from(fields: Seq<(Seq<char>, Seq<char>)>, k: nat) -> Result<
    Seq<(GreenAxis, GreenCode)>,
    Seq<char>,
>
    decreases k,
{
    if k == 0 {
        Ok(seq![])
    } else {
        match axes_from(fields, (k - 1) as nat) {
            Err(e) => Err(e),
            Ok(prev) => {
                let a = all_axes()[k - 1];
                match code_field(fields, seq![axis_letter_spec(a)]) {
                    Err(e) => Err(e),
                    Ok(c) => Ok(prev.push((a, c))),
                }
            },
        }
    }
}

proof fn lemma_axes_error_persists(fields: Seq<(Seq<char>, Seq<char>)>, k: nat, j: nat)
    requires
        k <= j,
        axes_from(fields, k) is Err,
    ensures
        axes_from(fields, j) == axes_from(fields, k),
    decreases j - k,
{
    if k < j {
        lemma_axes_error_persists(fields, k, (j - 1) as nat);
    }
}

/// A `@green` record's fields read as the target's id, a code for every axis
/// in axis order, and the overall code.
pub open spec fn parse_green_spec(fields: Seq<(Seq<char>, Seq<char>)>) -> Result<
    (u128, Seq<(GreenAxis, GreenCode)>, GreenCode),
    Seq<char>,
> {
    match lookup_field(fields, "target"@, 0) {
        None => Err("missing required field target"@),
        Some(t) => match uuid_parse_of(t) {
            Err(e) => Err("invalid uuid "@ + t + ": "@ + e),
            Ok(id) => match axes_from(fields, 6) {
                Err(e) => Err(e),
                Ok(axes) => match code_field(fields, "overall"@) {
                    Err(e) => Err(e),
                    Ok(o) => Ok((id, axes, o)),
                },
            },
        },
    }
}

fn code_from_field(fields: &[(String, String)], key: &str) -> (r: Result<GreenCode, IdxError>)
    ensures
        match r {
            Ok(c) => code_field(fields_view(fields@), key@) == Ok::<GreenCode, Seq<char>>(c),
            Err(e) => code_field(fields_view(fields@), key@) matches Err(m) && parse_message(e)
                == Some(m),
        },
{
    match get_opt(fields, key) {
        None => Ok(GreenCode::Unknown),
        Some(v) => parse_green_code(v),
    }
}

/// Read a `@green` record's fields: the target entity and its assessment,
/// with an unlisted axis or overall code read as Unknown.
pub fn parse_green(fields: &[(String, String)]) -> (r: Result<(u128, GreenAssessment), IdxError>)
    ensures
        match r {
            Ok((id, g)) => parse_green_spec(fields_view(fields@)) == Ok::<
                (u128, Seq<(GreenAxis, GreenCode)>, GreenCode),
                Seq<char>,
            >((id, g.axes@, g.overall)),
            Err(e) => parse_green_spec(fields_view(fields@)) matches Err(m) && parse_message(e)
                == Some(m),
        },
{
    let ghost fv = fields_view(fields@);
    proof {
        reveal_strlit("target");
        reveal_strlit("overall");
        reveal_strlit("missing required field ");
        reveal_strlit("missing required field target");
    }
    let target = match get(fields, "target") {
        Ok(t) => t,
        Err(e) => {
            assert("missing required field "@ + "target"@ =~= "missing required field target"@);
            return Err(e);
        },
    };
    let id = match parse_uuid(target) {
        Ok(id) => id,
        Err(m) => {
            let parts = vec!["invalid uuid ", target, ": ", m.as_str()];
            let e = parse_error(parts);
            proof {
                reveal_with_fuel(concat_views, 5);
                assert(concat_views(parts@) =~= "invalid uuid "@ + target@ + ": "@ + m@);
            }
            return Err(e);
        },
    };
    let mut axes: Vec<(GreenAxis, GreenCode)> = Vec::new();
    let mut k: usize = 0;
    while k < 6
        invariant
            0 <= k <= 6,
            fv == fields_view(fields@),
            lookup_field(fv, "target"@, 0) == Some(target@),
            uuid_parse_of(target@) == Ok::<u128, Seq<char>>(id),
            axes_from(fv, k as nat) == Ok::<Seq<(GreenAxis, GreenCode)>, Seq<char>>(axes@),
        decreases 6 - k,
    {
        let a = axis_at(k);
        match code_from_field(fields, axis_key(a)) {
            Ok(c) => {
                axes.push((a, c));
            },
            Err(e) => {
                proof {
                    lemma_axes_error_persists(fv, (k + 1) as nat, 6);
                }
                return Err(e);
            },
        }
        k = k + 1;
    }
    let overall = match code_from_field(fields, "overall") {
        Ok(c) => c,
        Err(e) => return Err(e),
    };
    Ok((id, GreenAssessment { overall, axes }))
}

/// A character that neither separates, quotes nor escapes in a record line.
pub open spec fn plain_char(c: char) -> bool {
    c != ' ' && c != '"' && c != '\\'
}

pub open spec fn is_plain(s: Seq<char>) -> bool {
    forall|i: int| 0 <= i < s.len() ==> plain_char(#[trigger] s[i])
}

/// Tokens joined by single spaces.
pub open spec fn join_tokens(toks: Seq<Seq<char>>) -> Seq<char>
    decreases toks.len(),
{
    if toks.len() == 0 {
        seq![]
    } else if toks.len() == 1 {
        toks[0]
    } else {
        toks[0] + seq![' '] + join_tokens(toks.drop_first())
    }
}

proof fn lemma_scan_shift(
    p: Seq<char>,
    b: Seq<char>,
    k: int,
    inq: bool,
    esc: bool,
    cur: Seq<char>,
)
    requires
        0 <= k <= b.len(),
    ensures
        tok_scan(p + b, p.len() + k, inq, esc, cur) == tok_scan(b, k, inq, esc, cur),
    decreases b.len() - k,
{
    let s = p + b;
    if k < b.len() {
        let c = b[k];
        assert(s[p.len() + k] == c);
        if esc {
            lemma_scan_shift(p, b, k + 1, inq, false, cur.push(c));
        } else if c == '\\' && inq {
            lemma_scan_shift(p, b, k + 1, inq, true, cur.push(c));
        } else if c == '"' {
            lemma_scan_shift(p, b, k + 1, !inq, false, cur.push(c));
        } else if c == ' ' && !inq {
            lemma_scan_shift(p, b, k + 1, inq, false, seq![]);
        } else {
            lemma_scan_shift(p, b, k + 1, inq, false, cur.push(c));
        }
    }
}

proof fn lemma_scan_plain_to_end(s: Seq<char>, i: int, cur: Seq<char>)
    requires
        0 <= i <= s.len(),
        forall|j: int| i <= j < s.len() ==> plain_char(#[trigger] s[j]),
    ensures
        tok_scan(s, i, false, false, cur) == (
            if (cur + s.skip(i)).len() > 0 {
                seq![cur + s.skip(i)]
            } else {
                Seq::<Seq<char>>::empty()
            },
            false,
        ),
    decreases s.len() - i,
{
    if i < s.len() {
        assert(plain_char(s[i]));
        lemma_scan_plain_to_end(s, i + 1, cur.push(s[i]));
        assert(cur.push(s[i]) + s.skip(i + 1) =~= cur + s.skip(i));
    } else {
        assert(cur + s.skip(i) =~= cur);
    }
}

proof fn lemma_scan_plain_to_space(s: Seq<char>, i: int, cur: Seq<char>, w: int)
    requires
        0 <= i <= w < s.len(),
        s[w] == ' ',
        forall|j: int| i <= j < w ==> plain_char(#[trigger] s[j]),
    ensures
        tok_scan(s, i, false, false, cur) == ({
            let rest = tok_scan(s, w + 1, false, false, seq![]);
            let tok = cur + s.subrange(i, w);
            if tok.len() > 0 {
                (seq![tok] + rest.0, rest.1)
            } else {
                rest
            }
        }),
    decreases w - i,
{
    if i < w {
        assert(plain_char(s[i]));
        lemma_scan_plain_to_space(s, i + 1, cur.push(s[i]), w);
        assert(cur.push(s[i]) + s.subrange(i + 1, w) =~= cur + s.subrange(i, w));
    } else {
        assert(cur + s.subrange(i, w) =~= cur);
    }
}

/// Non-empty plain tokens joined by single spaces scan back to exactly those
/// tokens, with no quote left open.
proof fn lemma_scan_join(toks: Seq<Seq<char>>)
    requires
        toks.len() > 0,
        forall|i: int| 0 <= i < toks.len() ==> (#[trigger] toks[i]).len() > 0 && is_plain(toks[i]),
    ensures
        tok_scan(join_tokens(toks), 0, false, false, seq![]) == (toks, false),
    decreases toks.len(),
{
    let t0 = toks[0];
    assert(is_plain(t0));
    if toks.len() == 1 {
        let s = join_tokens(toks);
        assert(s == t0);
        lemma_scan_plain_to_end(s, 0, seq![]);
        assert(Seq::<char>::empty() + s.skip(0) =~= t0);
        assert(seq![t0] =~= toks);
    } else {
        let rest = toks.drop_first();
        assert forall|i: int| 0 <= i < rest.len() implies (#[trigger] rest[i]).len() > 0
            && is_plain(rest[i]) by {
            assert(rest[i] == toks[i + 1]);
        }
        lemma_scan_join(rest);
        let p = t0 + seq![' '];
        let b = join_tokens(rest);
        let s = join_tokens(toks);
        assert(s =~= p + b);
        assert forall|j: int| 0 <= j < t0.len() implies plain_char(#[trigger] s[j]) by {
            assert(s[j] == t0[j]);
        }
        lemma_scan_plain_to_space(s, 0, seq![], t0.len() as int);
        lemma_scan_shift(p, b, 0, false, false, seq![]);
        assert(Seq::<char>::empty() + s.subrange(0, t0.len() as int) =~= t0);
        assert(seq![t0] + rest =~= toks);
    }
}

/// The `key:value` tokens of some fields.
pub open spec fn field_tokens(pairs: Seq<(Seq<char>, Seq<char>)>) -> Seq<Seq<char>> {
    pairs.map_values(|p: (Seq<char>, Seq<char>)| p.0 + seq![':'] + p.1)
}

proof fn lemma_fields_of_tokens(pairs: Seq<(Seq<char>, Seq<char>)>)
    requires
        forall|i: int|
            0 <= i < pairs.len() ==> !contains_char((#[trigger] pairs[i]).0, ':') && (
            pairs[i].1.len() == 0 || pairs[i].1[0] != '"'),
    ensures
        fields_of(field_tokens(pairs)) == Ok::<Seq<(Seq<char>, Seq<char>)>, Seq<char>>(pairs),
    decreases pairs.len(),
{
    if pairs.len() > 0 {
        let rest = pairs.drop_first();
        assert forall|i: int| 0 <= i < rest.len() implies !contains_char(
            (#[trigger] rest[i]).0,
            ':',
        ) && (rest[i].1.len() == 0 || rest[i].1[0] != '"') by {
            assert(rest[i] == pairs[i + 1]);
        }
        lemma_fields_of_tokens(rest);
        assert(field_tokens(pairs).drop_first() =~= field_tokens(rest));
        let p = pairs[0];
        assert(field_tokens(pairs)[0] == p.0 + seq![':'] + p.1);
        assert(read_value(p.1) == Ok::<Seq<char>, Seq<char>>(p.1));
        law_a_rendered_field_reads_back(p.0, p.1);
        assert(field_of(field_tokens(pairs)[0]) == Ok::<(Seq<char>, Seq<char>), Seq<char>>(
            (p.0, p.1),
        ));
        assert(fields_of(field_tokens(pairs)) == Ok::<Seq<(Seq<char>, Seq<char>)>, Seq<char>>(
            seq![p] + rest,
        ));
        assert(seq![p] + rest =~= pairs);
    } else {
        assert(field_tokens(pairs).len() == 0);
        assert(pairs =~= Seq::<(Seq<char>, Seq<char>)>::empty());
    }
}

/// The fields a `@green` line carries.
pub open spec fn green_fields(
    target: Seq<char>,
    axes: Seq<(GreenAxis, GreenCode)>,
    overall: GreenCode,
) -> Seq<(Seq<char>, Seq<char>)> {
    seq![("target"@, target)] + all_axes().map_values(
        |a: GreenAxis| (seq![axis_letter_spec(a)], seq![axis_code(axes, a).spec_short()]),
    ) + seq![("overall"@, seq![overall.spec_short()])]
}

/// Each axis with the code an assessment gives it, in axis order.
pub open spec fn normalised_axes(axes: Seq<(GreenAxis, GreenCode)>) -> Seq<(GreenAxis, GreenCode)> {
    all_axes().map_values(|a: GreenAxis| (a, axis_code(axes, a)))
}

proof fn lemma_short_code_reads_back(c: GreenCode)
    ensures
        green_code_spec(seq![c.spec_short()]) == Some(c),
{
    reveal_strlit("G");
    reveal_strlit("Y");
    reveal_strlit("R");
    reveal_strlit("U");
    reveal_strlit("green");
    reveal_strlit("yellow");
    reveal_strlit("red");
    reveal_strlit("unknown");
    let v = seq![c.spec_short()];
    assert(v.len() == 1);
    assert("green"@.len() == 5);
    assert("yellow"@.len() == 6);
    assert("red"@.len() == 3);
    assert("unknown"@.len() == 7);
    assert("G"@ =~= seq!['G']);
    assert("Y"@ =~= seq!['Y']);
    assert("R"@ =~= seq!['R']);
    assert("U"@ =~= seq!['U']);
    match c {
        GreenCode::Green => {
            assert(v =~= "G"@);
        },
        GreenCode::Yellow => {
            assert(v[0] != "G"@[0]);
            assert(v =~= "Y"@);
        },
        GreenCode::Red => {
            assert(v[0] != "G"@[0]);
            assert(v[0] != "Y"@[0]);
            assert(v =~= "R"@);
        },
        GreenCode::Unknown => {
            assert(v[0] != "G"@[0]);
            assert(v[0] != "Y"@[0]);
            assert(v[0] != "R"@[0]);
            assert(v =~= "U"@);
        },
    }
}

proof fn lemma_lookup_at(fields: Seq<(Seq<char>, Seq<char>)>, key: Seq<char>, i: int, j: int)
    requires
        0 <= i <= j < fields.len(),
        fields[j].0 == key,
        forall|m: int| i <= m < j ==> (#[trigger] fields[m]).0 != key,
    ensures
        lookup_field(fields, key, i) == Some(fields[j].1),
    decreases j - i,
{
    if i < j {
        lemma_lookup_at(fields, key, i + 1, j);
    }
}

/// ` key:value` for each field, in order.
pub open spec fn fields_text(pairs: Seq<(Seq<char>, Seq<char>)>) -> Seq<char>
    decreases pairs.len(),
{
    if pairs.len() == 0 {
        seq![]
    } else {
        seq![' '] + pairs[0].0 + seq![':'] + pairs[0].1 + fields_text(pairs.drop_first())
    }
}

proof fn lemma_join_fields(head: Seq<char>, pairs: Seq<(Seq<char>, Seq<char>)>)
    ensures
        join_tokens(seq![head] + field_tokens(pairs)) == head + fields_text(pairs),
    decreases pairs.len(),
{
    let toks = seq![head] + field_tokens(pairs);
    if pairs.len() == 0 {
        assert(toks =~= seq![head]);
        assert(head + fields_text(pairs) =~= head);
    } else {
        let p = pairs[0];
        let tok = p.0 + seq![':'] + p.1;
        let rest = pairs.drop_first();
        lemma_join_fields(tok, rest);
        assert(toks.drop_first() =~= seq![tok] + field_tokens(rest));
        assert(toks[0] == head);
        assert(join_tokens(toks) == head + seq![' '] + join_tokens(toks.drop_first()));
        assert(head + seq![' '] + (tok + fields_text(rest)) =~= head + fields_text(pairs));
    }
}

proof fn lemma_fields_text_append(a: Seq<(Seq<char>, Seq<char>)>, b: Seq<(Seq<char>, Seq<char>)>)
    ensures
        fields_text(a + b) == fields_text(a) + fields_text(b),
    decreases a.len(),
{
    if a.len() == 0 {
        assert(a + b =~= b);
        assert(fields_text(a) + fields_text(b) =~= fields_text(b));
    } else {
        lemma_fields_text_append(a.drop_first(), b);
        assert((a + b).drop_first() =~= a.drop_first() + b);
        assert((a + b)[0] == a[0]);
        let h = seq![' '] + a[0].0 + seq![':'] + a[0].1;
        assert(h + (fields_text(a.drop_first()) + fields_text(b)) =~= (h + fields_text(
            a.drop_first(),
        )) + fields_text(b));
    }
}

/// An axis and its code as a field.
pub open spec fn axis_field(axes: Seq<(GreenAxis, GreenCode)>, a: GreenAxis) -> (Seq<char>, Seq<char>) {
    (seq![axis_letter_spec(a)], seq![axis_code(axes, a).spec_short()])
}

proof fn lemma_axes_text_is_fields_text(axes: Seq<(GreenAxis, GreenCode)>, k: nat)
    requires
        k <= 6,
    ensures
        fields_text(all_axes().take(k as int).map_values(|a: GreenAxis| axis_field(axes, a)))
            == axes_text(axes, k),
    decreases k,
{
    let f = |a: GreenAxis| axis_field(axes, a);
    if k == 0 {
        assert(all_axes().take(0).map_values(f) =~= Seq::<(Seq<char>, Seq<char>)>::empty());
    } else {
        lemma_axes_text_is_fields_text(axes, (k - 1) as nat);
        let a = all_axes()[k - 1];
        let prev = all_axes().take(k - 1).map_values(f);
        assert(all_axes().take(k as int).map_values(f) =~= prev + seq![axis_field(axes, a)]);
        lemma_fields_text_append(prev, seq![axis_field(axes, a)]);
        assert(seq![axis_field(axes, a)].drop_first() =~= Seq::<(Seq<char>, Seq<char>)>::empty());
        reveal_with_fuel(fields_text, 2);
        assert(fields_text(seq![axis_field(axes, a)]) =~= seq![
            ' ',
            axis_letter_spec(a),
            ':',
            axis_code(axes, a).spec_short(),
        ]);
    }
}

proof fn lemma_green_line_is_joined_fields(
    target: Seq<char>,
    axes: Seq<(GreenAxis, GreenCode)>,
    overall: GreenCode,
)
    ensures
        green_line_spec(target, axes, overall) == join_tokens(
            seq!["@green"@] + field_tokens(green_fields(target, axes, overall)),
        ),
{
    reveal_strlit("@green");
    reveal_strlit("target");
    reveal_strlit("overall");
    reveal_strlit("@green target:");
    reveal_strlit(" overall:");
    let f = |a: GreenAxis| axis_field(axes, a);
    let mid = all_axes().map_values(f);
    let first = seq![("target"@, target)];
    let last = seq![("overall"@, seq![overall.spec_short()])];
    assert(green_fields(target, axes, overall) =~= first + mid + last);
    lemma_join_fields("@green"@, first + mid + last);
    lemma_fields_text_append(first + mid, last);
    lemma_fields_text_append(first, mid);
    lemma_axes_text_is_fields_text(axes, 6);
    assert(all_axes().take(6) =~= all_axes());
    assert(first.drop_first() =~= Seq::<(Seq<char>, Seq<char>)>::empty());
    assert(last.drop_first() =~= Seq::<(Seq<char>, Seq<char>)>::empty());
    reveal_with_fuel(fields_text, 2);
    assert(fields_text(first) =~= seq![' '] + "target"@ + seq![':'] + target);
    assert(fields_text(last) =~= seq![' '] + "overall"@ + seq![':'] + seq![overall.spec_short()]);
    assert(green_line_spec(target, axes, overall) =~= "@green"@ + (fields_text(first)
        + fields_text(mid) + fields_text(last)));
}

proof fn lemma_green_fields_tokenize(
    target: Seq<char>,
    axes: Seq<(GreenAxis, GreenCode)>,
    overall: GreenCode,
)
    requires
        is_plain(target),
    ensures
        tokenize_spec(green_line_spec(target, axes, overall)) == Ok::<
            (Seq<char>, Seq<(Seq<char>, Seq<char>)>),
            Seq<char>,
        >(("@green"@, green_fields(target, axes, overall))),
{
    reveal_strlit("@green");
    reveal_strlit("target");
    reveal_strlit("overall");
    let fields = green_fields(target, axes, overall);
    let toks = seq!["@green"@] + field_tokens(fields);
    assert(fields.len() == 8);
    assert forall|i: int| 0 <= i < fields.len() implies !contains_char((#[trigger] fields[i]).0, ':')
        && (fields[i].1.len() == 0 || fields[i].1[0] != '"') && is_plain(fields[i].0) && is_plain(
        fields[i].1,
    ) by {
        if i == 0 {
            assert(fields[i] == ("target"@, target));
        } else if i == 7 {
            assert(fields[i] == ("overall"@, seq![overall.spec_short()]));
        } else {
            assert(fields[i] == axis_field(axes, all_axes()[i - 1]));
        }
    }
    lemma_fields_of_tokens(fields);
    assert forall|i: int| 0 <= i < toks.len() implies (#[trigger] toks[i]).len() > 0 && is_plain(
        toks[i],
    ) by {
        if i > 0 {
            let fl = fields[i - 1];
            assert(toks[i] == fl.0 + seq![':'] + fl.1);
            assert forall|j: int| 0 <= j < toks[i].len() implies plain_char(#[trigger] toks[i][j]) by {
                if j < fl.0.len() {
                    assert(toks[i][j] == fl.0[j]);
                } else if j > fl.0.len() {
                    assert(toks[i][j] == fl.1[j - fl.0.len() - 1]);
                }
            }
        }
    }
    lemma_scan_join(toks);
    lemma_green_line_is_joined_fields(target, axes, overall);
    assert(toks.drop_first() =~= field_tokens(fields));
}

proof fn lemma_green_fields_parse(
    target: Seq<char>,
    axes: Seq<(GreenAxis, GreenCode)>,
    overall: GreenCode,
)
    ensures
        lookup_field(green_fields(target, axes, overall), "target"@, 0) == Some(target),
        axes_from(green_fields(target, axes, overall), 6) == Ok::<
            Seq<(GreenAxis, GreenCode)>,
            Seq<char>,
        >(normalised_axes(axes)),
        code_field(green_fields(target, axes, overall), "overall"@) == Ok::<GreenCode, Seq<char>>(
            overall,
        ),
{
    reveal_strlit("target");
    reveal_strlit("overall");
    let fields = green_fields(target, axes, overall);
    assert(fields.len() == 8);
    assert(fields[0] == ("target"@, target));
    assert(fields[7] == ("overall"@, seq![overall.spec_short()]));
    assert forall|m: int| 1 <= m < 7 implies #[trigger] fields[m] == axis_field(
        axes,
        all_axes()[m - 1],
    ) by {}
    assert("target"@.len() == 6);
    assert("overall"@.len() == 7);
    lemma_lookup_at(fields, "target"@, 0, 0);
    assert forall|m: int| 0 <= m < 7 implies (#[trigger] fields[m]).0 != "overall"@ by {
        if m > 0 {
            assert(fields[m].0.len() == 1);
        }
    }
    lemma_lookup_at(fields, "overall"@, 0, 7);
    lemma_short_code_reads_back(overall);
    let codes = normalised_axes(axes);
    assert forall|k: int| 0 <= k < 6 implies code_field(
        fields,
        seq![axis_letter_spec(#[trigger] all_axes()[k])],
    ) == Ok::<GreenCode, Seq<char>>(axis_code(axes, all_axes()[k])) by {
        let key = seq![axis_letter_spec(all_axes()[k])];
        assert forall|m: int| 0 <= m < k + 1 implies (#[trigger] fields[m]).0 != key by {
            if m == 0 {
                assert(fields[m].0.len() == 6);
            } else {
                assert(fields[m].0[0] != key[0]);
            }
        }
        lemma_lookup_at(fields, key, 0, k + 1);
        lemma_short_code_reads_back(axis_code(axes, all_axes()[k]));
    }
    assert forall|k: nat| k <= 6 implies axes_from(fields, k) == Ok::<
        Seq<(GreenAxis, GreenCode)>,
        Seq<char>,
    >(#[trigger] codes.take(k as int)) by {
        lemma_axes_from_prefix(target, axes, overall, k);
    }
    assert(codes.take(6) =~= codes);
}

proof fn lemma_axes_from_prefix(
    target: Seq<char>,
    axes: Seq<(GreenAxis, GreenCode)>,
    overall: GreenCode,
    k: nat,
)
    requires
        k <= 6,
        forall|j: int|
            0 <= j < 6 ==> code_field(
                green_fields(target, axes, overall),
                seq![axis_letter_spec(#[trigger] all_axes()[j])],
            ) == Ok::<GreenCode, Seq<char>>(axis_code(axes, all_axes()[j])),
    ensures
        axes_from(green_fields(target, axes, overall), k) == Ok::<
            Seq<(GreenAxis, GreenCode)>,
            Seq<char>,
        >(normalised_axes(axes).take(k as int)),
    decreases k,
{
    if k > 0 {
        lemma_axes_from_prefix(target, axes, overall, (k - 1) as nat);
        let a = all_axes()[k - 1];
        assert(normalised_axes(axes).take(k as int) =~= normalised_axes(axes).take(k - 1).push(
            (a, axis_code(axes, a)),
        ));
    } else {
        assert(normalised_axes(axes).take(0) =~= Seq::<(GreenAxis, GreenCode)>::empty());
    }
}

/// A `@green` record reads back as written: its line tokenizes to the
/// `@green` tag and its fields, and those fields give every axis the code the
/// assessment gave it (Unknown where it gave none), the overall code, and the
/// target as `uuid::Uuid::parse_str` reads it — for any target that neither
/// separates, quotes nor escapes.
pub proof fn law_a_green_record_reads_back(
    target: Seq<char>,
    axes: Seq<(GreenAxis, GreenCode)>,
    overall: GreenCode,
)
    requires
        is_plain(target),
    ensures
        tokenize_spec(green_line_spec(target, axes, overall)) == Ok::<
            (Seq<char>, Seq<(Seq<char>, Seq<char>)>),
            Seq<char>,
        >(("@green"@, green_fields(target, axes, overall))),
        parse_green_spec(green_fields(target, axes, overall)) == match uuid_parse_of(target) {
            Ok(id) => Ok((id, normalised_axes(axes), overall)),
            Err(e) => Err("invalid uuid "@ + target + ": "@ + e),
        },
{
    lemma_green_fields_tokenize(target, axes, overall);
    lemma_green_fields_parse(target, axes, overall);
}

} // verus!
