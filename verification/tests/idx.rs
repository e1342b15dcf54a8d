use creature_context::atlas::{GreenAssessment, GreenAxis};
use creature_context::ids::uuid_text;
use creature_context::store::idx::green::{axis_letter, green_line, parse_green};
use creature_context::atlas::GreenCode;
use creature_context::store::idx::escape::{field, is_bare_exec};
use creature_context::store::idx::tokens::{
    get, get_opt, parse_bool, parse_green_code, parse_u32, split_first_token, tokenize,
};
use creature_context::store::idx::IdxError;

fn message(e: IdxError) -> String {
    match e {
        IdxError::Parse(m) => m,
        IdxError::Serialization(e) => panic!("unexpected serialisation error {e}"),
    }
}

#[test]
fn tokenize_respects_quoted_strings() {
    let line = r#"@entity id:abc name:"hello world" path:src/a.rs"#;
    let (tag, fields) = tokenize(line).unwrap();
    assert_eq!(tag, "@entity");
    assert_eq!(fields.len(), 3);
    assert_eq!(fields[1].1, "hello world");
}

#[test]
fn tokenize_handles_escaped_quotes() {
    let line = r#"@entity id:abc name:"say \"hi\"" path:src/a.rs"#;
    let (_tag, fields) = tokenize(line).unwrap();
    assert_eq!(fields[1].1, r#"say "hi""#);
}

#[test]
fn bare_atoms_are_unquoted() {
    assert_eq!(field("src/a.rs"), "src/a.rs");
    assert_eq!(field("kebab-case_name.rs"), "kebab-case_name.rs");
}

#[test]
fn values_needing_escape_are_quoted() {
    assert_eq!(field("has space"), r#""has space""#);
    assert_eq!(field(r#"has "quote""#), r#""has \"quote\"""#);
    assert_eq!(field(""), r#""""#);
}

#[test]
fn a_rendered_field_reads_back_as_its_value() {
    for value in ["src/a.rs", "has space", "say \"hi\"", "", "tab\there", "colon:inside"] {
        let line = format!("@x k:{}", field(value));
        let (_tag, fields) = tokenize(&line).expect("tokenize");
        assert_eq!(fields.len(), 1, "{line}");
        assert_eq!(fields[0].0, "k");
        assert_eq!(fields[0].1, value, "{line}");
    }
}

#[test]
fn bareness_is_decided_by_the_atom_alphabet() {
    assert!(is_bare_exec("a-b_c.d/e9"));
    assert!(!is_bare_exec(""));
    assert!(!is_bare_exec("a b"));
    assert!(!is_bare_exec("a:b"));
    assert!(!is_bare_exec("é"));
}

#[test]
fn json_quoting_round_trips_through_a_field() {
    let value = "line\nbreak \"and\" quote";
    let rendered = field(value);
    assert_eq!(rendered, "\"line\\nbreak \\\"and\\\" quote\"");
    let (_tag, fields) = tokenize(&format!("@x k:{rendered}")).expect("tokenize");
    assert_eq!(fields[0].1, value);
}

#[test]
fn an_unterminated_quote_is_an_error() {
    let err = tokenize(r#"@entity name:"open"#).unwrap_err();
    assert!(message(err).starts_with("unterminated quote in line: "));
}

#[test]
fn an_empty_line_is_an_error() {
    assert_eq!(message(tokenize("   ").unwrap_err()), "empty record line");
}

#[test]
fn a_field_without_a_separator_is_an_error() {
    assert_eq!(
        message(tokenize("@entity lonely").unwrap_err()),
        "field without key:value separator: lonely"
    );
}

#[test]
fn an_invalid_quoted_value_is_an_error() {
    let err = tokenize(r#"@entity name:"bad\q""#).unwrap_err();
    assert!(message(err).starts_with(r#"invalid quoted value "bad\q": "#));
}

#[test]
fn repeated_spaces_separate_like_one() {
    let (tag, fields) = tokenize("@t  a:1   b:2 ").unwrap();
    assert_eq!(tag, "@t");
    assert_eq!(
        fields,
        vec![("a".to_string(), "1".to_string()), ("b".to_string(), "2".to_string())]
    );
}

#[test]
fn the_first_token_splits_off_respecting_quotes() {
    let (first, rest) = split_first_token(r#""2026-08-05 10:00" producer:x   deterministic:true"#)
        .unwrap();
    assert_eq!(first, r#""2026-08-05 10:00""#);
    assert_eq!(rest, "producer:x   deterministic:true");
    let (only, none) = split_first_token("single").unwrap();
    assert_eq!(only, "single");
    assert_eq!(none, "");
    assert_eq!(
        message(split_first_token("\"open here").unwrap_err()),
        "unterminated quote while splitting token"
    );
}

#[test]
fn field_lookup_takes_the_first_match() {
    let fields = vec![
        ("id".to_string(), "1".to_string()),
        ("id".to_string(), "2".to_string()),
    ];
    assert_eq!(get_opt(&fields, "id"), Some("1"));
    assert_eq!(get_opt(&fields, "name"), None);
    assert_eq!(get(&fields, "id").unwrap(), "1");
    assert_eq!(
        message(get(&fields, "name").unwrap_err()),
        "missing required field name"
    );
}

#[test]
fn booleans_parse_exactly() {
    assert!(parse_bool("true").unwrap());
    assert!(!parse_bool("false").unwrap());
    assert_eq!(message(parse_bool("True").unwrap_err()), "invalid bool True");
}

#[test]
fn green_codes_parse_by_letter_or_name() {
    assert_eq!(parse_green_code("G").unwrap(), GreenCode::Green);
    assert_eq!(parse_green_code("yellow").unwrap(), GreenCode::Yellow);
    assert_eq!(parse_green_code("R").unwrap(), GreenCode::Red);
    assert_eq!(parse_green_code("unknown").unwrap(), GreenCode::Unknown);
    assert_eq!(
        message(parse_green_code("g").unwrap_err()),
        "invalid GreenCode g"
    );
}

#[test]
fn unsigned_integers_parse_as_std_does() {
    assert_eq!(parse_u32("0").unwrap(), 0);
    assert_eq!(parse_u32("+42").unwrap(), 42);
    assert_eq!(parse_u32("4294967295").unwrap(), u32::MAX);
    for bad in ["", "-1", "4294967296", "12a", "+"] {
        let expected = format!("invalid u32 {bad}: {}", bad.parse::<u32>().unwrap_err());
        assert_eq!(message(parse_u32(bad).unwrap_err()), expected);
    }
}


#[test]
fn green_axes_render_as_single_character_codes() {
    let green = GreenAssessment {
        overall: GreenCode::Yellow,
        axes: vec![
            (GreenAxis::Content, GreenCode::Yellow),
            (GreenAxis::Structure, GreenCode::Yellow),
            (GreenAxis::Integration, GreenCode::Yellow),
            (GreenAxis::Verification, GreenCode::Yellow),
            (GreenAxis::Freshness, GreenCode::Yellow),
            (GreenAxis::Coherence, GreenCode::Yellow),
        ],
    };
    let line = green_line("67e55044-10b1-426f-9247-bb680e5fe0c8", &green);
    for axis in ["C", "S", "I", "V", "F", "H"] {
        assert!(line.contains(&format!("{axis}:Y")), "{line}");
    }
    assert!(line.contains("overall:Y"), "{line}");
}

#[test]
fn an_unassessed_axis_renders_unknown() {
    let green = GreenAssessment {
        overall: GreenCode::Red,
        axes: vec![(GreenAxis::Structure, GreenCode::Green)],
    };
    assert_eq!(
        green_line("t", &green),
        "@green target:t C:U S:G I:U V:U F:U H:U overall:R"
    );
    assert_eq!(axis_letter(GreenAxis::Coherence), 'H');
}

#[test]
fn a_green_record_reads_back_as_written() {
    let id: u128 = 0x67e5504410b1426f9247bb680e5fe0c8;
    let green = GreenAssessment {
        overall: GreenCode::Yellow,
        axes: vec![
            (GreenAxis::Verification, GreenCode::Red),
            (GreenAxis::Content, GreenCode::Green),
        ],
    };
    let line = green_line(&uuid_text(id), &green);
    let (tag, fields) = tokenize(&line).expect("tokenize");
    assert_eq!(tag, "@green");
    let (target, read) = parse_green(&fields).expect("parse");
    assert_eq!(target, id);
    assert_eq!(read.overall, GreenCode::Yellow);
    assert_eq!(
        read.axes,
        vec![
            (GreenAxis::Content, GreenCode::Green),
            (GreenAxis::Structure, GreenCode::Unknown),
            (GreenAxis::Integration, GreenCode::Unknown),
            (GreenAxis::Verification, GreenCode::Red),
            (GreenAxis::Freshness, GreenCode::Unknown),
            (GreenAxis::Coherence, GreenCode::Unknown),
        ]
    );
}

#[test]
fn a_green_record_fails_closed() {
    let fields = |pairs: &[(&str, &str)]| -> Vec<(String, String)> {
        pairs.iter().map(|(k, v)| (k.to_string(), v.to_string())).collect()
    };
    assert_eq!(
        message(parse_green(&fields(&[("C", "G")])).unwrap_err()),
        "missing required field target"
    );
    let bad_id = message(parse_green(&fields(&[("target", "not-a-uuid")])).unwrap_err());
    let expected = format!(
        "invalid uuid not-a-uuid: {}",
        uuid::Uuid::parse_str("not-a-uuid").unwrap_err()
    );
    assert_eq!(bad_id, expected);
    let target = "67e55044-10b1-426f-9247-bb680e5fe0c8";
    assert_eq!(
        message(parse_green(&fields(&[("target", target), ("S", "Q")])).unwrap_err()),
        "invalid GreenCode Q"
    );
    let (_, g) = parse_green(&fields(&[("target", target)])).expect("parse");
    assert_eq!(g.overall, GreenCode::Unknown);
    assert!(g.axes.iter().all(|(_, c)| *c == GreenCode::Unknown));
}

#[test]
fn uuids_display_and_parse_back() {
    let id: u128 = 0x0191d5f07c3a7d2e8f000123456789ab;
    assert_eq!(uuid_text(id), "0191d5f0-7c3a-7d2e-8f00-0123456789ab");
    let fields = vec![("target".to_string(), uuid_text(id))];
    assert_eq!(parse_green(&fields).expect("parse").0, id);
    let short = vec![("target".to_string(), "0191d5f0".to_string())];
    assert!(parse_green(&short).is_err());
}

#[test]
fn a_rendered_field_reads_back_through_a_whole_line() {
    for value in ["src/lib.rs", "has space", "quote\"inside", "back\\slash", ""] {
        let line = format!("@t k:{}", field(value));
        assert_eq!(
            tokenize(&line).unwrap(),
            ("@t".to_string(), vec![("k".to_string(), value.to_string())]),
            "{line}"
        );
    }
}
