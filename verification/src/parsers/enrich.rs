//! What enrichment derives from a parsed declaration: its entity kind and
//! construct label, the leaf name a socket is matched on, the shape it
//! exposes, and identifiers derived deterministically from stable keys, so a
//! rescan of unchanged content yields the same ids.
use vstd::prelude::*;
use vstd::utf8::encode_utf8;
use crate::atlas::SocketShape;
use crate::atlas::{
    AtlasEdge, AtlasEntity, AtlasSnapshot, AtlasSocket, EntityKind, Evidence, EvidenceOutcome,
    FactSource, GreenAxis, HoleReason, ProofStrength, RelationshipKind, RelationshipPlane,
    ScopeScale, SocketDirection, SocketResolution, SourceSpan,
};
use crate::digest::{be_value, blake3_digest, blake3_of, hex, hex_spec, leading_id};
use crate::ids::{uuid_text, uuid_text_spec};
use crate::parsers::adapter::{ParsedImport, ParsedSymbol};
use crate::parsers::incremental::{ParseCache, ParsedFile};
use crate::parsers::constructs::Construct;
use crate::text::{chars_of, push_char, push_str, slice_chars, str_eq, string_of};

verus! {

/// A separator between the segments of a qualified name.
pub open spec fn is_name_separator(c: char) -> bool {
    c == ':' || c == '.' || c == '/'
}

/// Where the run of non-separators ending just before `j` begins.
pub open spec fn segment_start(s: Seq<char>, j: int) -> int
    decreases j,
{
    if j <= 0 {
        0
    } else if is_name_separator(s[j - 1]) {
        j
    } else {
        segment_start(s, j - 1)
    }
}

/// The last non-empty segment of `s` that ends at or before `j`, or `s`
/// itself when there is none.
pub open spec fn leaf_before(s: Seq<char>, j: int) -> Seq<char>
    decreases j,
{
    if j <= 0 {
        s
    } else if is_name_separator(s[j - 1]) {
        leaf_before(s, j - 1)
    } else {
        s.subrange(segment_start(s, j), j)
    }
}

/// The item name a socket shape is matched on: the final non-empty
/// `:`/`.`/`/`-separated segment, or the whole name when it has none.
pub open spec fn leaf_name_spec(q: Seq<char>) -> Seq<char> {
    leaf_before(q, q.len() as int)
}

fn is_name_separator_exec(c: char) -> (r: bool)
    ensures
        r == is_name_separator(c),
{
    c == ':' || c == '.' || c == '/'
}

/// The final non-empty segment of a qualified name.
pub fn leaf_name(qualified_name: &str) -> (r: String)
    ensures
        r@ == leaf_name_spec(qualified_name@),
{
    let s = chars_of(qualified_name);
    let mut j: usize = s.len();
    while j > 0 && is_name_separator_exec(s[j - 1])
        invariant
            0 <= j <= s.len(),
            s@ == qualified_name@,
            leaf_before(s@, s.len() as int) == leaf_before(s@, j as int),
        decreases j,
    {
        j = j - 1;
    }
    if j == 0 {
        return String::from_str(qualified_name);
    }
    let end: usize = j;
    let mut i: usize = j;
    while i > 0 && !is_name_separator_exec(s[i - 1])
        invariant
            0 <= i <= end <= s.len(),
            end > 0,
            !is_name_separator(s@[end - 1]),
            segment_start(s@, end as int) == segment_start(s@, i as int),
        decreases i,
    {
        i = i - 1;
    }
    let seg = slice_chars(&s, i, end);
    string_of(&seg)
}

/// The entity kind of a construct: shared function-like constructs are
/// functions, tests are tests, type-like ones are types, and everything else
/// is a component.
pub open spec fn entity_kind_spec(c: Construct) -> EntityKind {
    match c {
        Construct::Shared(name) => {
            let n = name@;
            if n == "function"@ || n == "closure"@ || n == "procedure"@ || n == "method"@ {
                EntityKind::Function
            } else if n == "test"@ {
                EntityKind::Test
            } else if n == "product_type"@ || n == "class"@ || n == "enumeration"@ || n
                == "behavioral_contract"@ || n == "type_alias"@ {
                EntityKind::Type
            } else {
                EntityKind::Component
            }
        },
        Construct::Native(_) => EntityKind::Component,
    }
}

/// The entity kind a declaration of construct `c` becomes.
pub fn entity_kind(c: &Construct) -> (r: EntityKind)
    ensures
        r == entity_kind_spec(*c),
{
    match c {
        Construct::Shared(name) => {
            let n = name.as_str();
            if str_eq(n, "function") || str_eq(n, "closure") || str_eq(n, "procedure") || str_eq(
                n,
                "method",
            ) {
                EntityKind::Function
            } else if str_eq(n, "test") {
                EntityKind::Test
            } else if str_eq(n, "product_type") || str_eq(n, "class") || str_eq(n, "enumeration")
                || str_eq(n, "behavioral_contract") || str_eq(n, "type_alias") {
                EntityKind::Type
            } else {
                EntityKind::Component
            }
        },
        Construct::Native(_) => EntityKind::Component,
    }
}

/// The label of a construct: the shared construct's canonical name, or
/// `native:` and the node type.
pub open spec fn construct_label_spec(c: Construct) -> Seq<char> {
    match c {
        Construct::Shared(name) => name@,
        Construct::Native(n) => "native:"@ + n.name@,
    }
}

/// The label recorded as a symbol entity's structural fingerprint.
pub fn construct_label(c: &Construct) -> (r: String)
    ensures
        r@ == construct_label_spec(*c),
{
    match c {
        Construct::Shared(name) => String::from_str(name.as_str()),
        Construct::Native(n) => {
            let mut r = String::from_str("native:");
            push_str(&mut r, n.name.as_str());
            r
        },
    }
}

/// The decimal digit for a value below 10.
pub open spec fn decimal_digit(d: nat) -> char {
    (48 + d) as char
}

/// The decimal rendering of `n`, without leading zeros.
pub open spec fn decimal_spec(n: nat) -> Seq<char>
    decreases n,
{
    if n < 10 {
        seq![decimal_digit(n)]
    } else {
        decimal_spec(n / 10).push(decimal_digit(n % 10))
    }
}

/// The decimal rendering of `n`.
pub fn decimal(n: usize) -> (r: String)
    ensures
        r@ == decimal_spec(n as nat),
{
    let mut v: usize = n;
    let mut tail: Vec<char> = Vec::new();
    while v >= 10
        invariant
            decimal_spec(n as nat) == decimal_spec(v as nat) + tail@,
        decreases v,
    {
        let d = v % 10;
        let c = ((48 + d) as u8) as char;
        assert(c == decimal_digit(d as nat));
        let ghost old_tail = tail@;
        tail.insert(0, c);
        assert(decimal_spec(v as nat) == decimal_spec((v / 10) as nat).push(c));
        assert(decimal_spec((v / 10) as nat).push(c) + old_tail =~= decimal_spec((v / 10) as nat)
            + tail@);
        v = v / 10;
    }
    let c = ((48 + v) as u8) as char;
    assert(c == decimal_digit(v as nat));
    tail.insert(0, c);
    assert(tail@ =~= decimal_spec(n as nat));
    string_of(&tail)
}

/// The identifier derived from a key: the first sixteen bytes of the BLAKE3
/// digest of its UTF-8 bytes, read big-endian.
pub open spec fn derived_id(key: Seq<char>) -> nat {
    be_value(blake3_of(encode_utf8(key)).take(16))
}

/// A UUID derived deterministically from a key, so a rescan produces the same
/// ids.
pub fn deterministic_uuid(key: &str) -> (r: u128)
    ensures
        r as nat == derived_id(key@),
{
    let digest = blake3_digest(key.as_bytes());
    leading_id(&digest)
}

/// The key a symbol's entity id is derived from: its file's id, its name and
/// its first line.
pub open spec fn symbol_key(file: u128, name: Seq<char>, start_line: nat) -> Seq<char> {
    uuid_text_spec(file) + "/"@ + name + "/"@ + decimal_spec(start_line)
}

/// The entity id of a declaration: the same file, name and line always yield
/// the same id.
pub fn symbol_entity_id(file: u128, name: &str, start_line: usize) -> (r: u128)
    ensures
        r as nat == derived_id(symbol_key(file, name@, start_line as nat)),
{
    let mut key = uuid_text(file);
    push_char(&mut key, '/');
    push_str(&mut key, name);
    push_char(&mut key, '/');
    push_str(&mut key, decimal(start_line).as_str());
    proof {
        reveal_strlit("/");
    }
    assert(key@ =~= symbol_key(file, name@, start_line as nat));
    deterministic_uuid(key.as_str())
}

/// The key of the edge by which a file contains a symbol.
pub open spec fn contains_key(file: u128, symbol: u128) -> Seq<char> {
    "contains/"@ + uuid_text_spec(file) + "/"@ + uuid_text_spec(symbol)
}

/// The id of the observed edge by which `file` contains `symbol`.
pub fn contains_edge_id(file: u128, symbol: u128) -> (r: u128)
    ensures
        r as nat == derived_id(contains_key(file, symbol)),
{
    let mut key = String::from_str("contains/");
    push_str(&mut key, uuid_text(file).as_str());
    push_char(&mut key, '/');
    push_str(&mut key, uuid_text(symbol).as_str());
    proof {
        reveal_strlit("/");
    }
    assert(key@ =~= contains_key(file, symbol));
    deterministic_uuid(key.as_str())
}

/// The key of the socket an exported declaration provides.
pub open spec fn provides_key(entity: u128, name: Seq<char>) -> Seq<char> {
    "provides/"@ + uuid_text_spec(entity) + "/"@ + name
}

/// The id of the `provides` socket of the declaration `name` of `entity`.
pub fn provides_socket_id(entity: u128, name: &str) -> (r: u128)
    ensures
        r as nat == derived_id(provides_key(entity, name@)),
{
    let mut key = String::from_str("provides/");
    push_str(&mut key, uuid_text(entity).as_str());
    push_char(&mut key, '/');
    push_str(&mut key, name);
    proof {
        reveal_strlit("/");
    }
    assert(key@ =~= provides_key(entity, name@));
    deterministic_uuid(key.as_str())
}

/// The key of the socket an import requires.
pub open spec fn requires_key(file: u128, path: Seq<char>, start_line: nat) -> Seq<char> {
    "requires/"@ + uuid_text_spec(file) + "/"@ + path + "/"@ + decimal_spec(start_line)
}

/// The id of the `requires` socket of the import of `path` on `start_line` of
/// `file`.
pub fn requires_socket_id(file: u128, path: &str, start_line: usize) -> (r: u128)
    ensures
        r as nat == derived_id(requires_key(file, path@, start_line as nat)),
{
    let mut key = String::from_str("requires/");
    push_str(&mut key, uuid_text(file).as_str());
    push_char(&mut key, '/');
    push_str(&mut key, path);
    push_char(&mut key, '/');
    push_str(&mut key, decimal(start_line).as_str());
    proof {
        reveal_strlit("/");
    }
    assert(key@ =~= requires_key(file, path@, start_line as nat));
    deterministic_uuid(key.as_str())
}

/// The text a shape's hash is taken over.
pub open spec fn shape_key(name: Seq<char>, signature: Seq<char>) -> Seq<char> {
    name + "|"@ + signature + "|1"@
}

/// The shape of `qualified_name` with `signature`, at version `1`; its hash
/// is the hexadecimal BLAKE3 digest of `name|signature|1`.
pub fn socket_shape(qualified_name: &str, signature: &str) -> (r: SocketShape)
    ensures
        r.qualified_name@ == qualified_name@,
        r.structural_signature@ == signature@,
        r.version@ == "1"@,
        r.hash@ == hex_spec(blake3_of(encode_utf8(shape_key(qualified_name@, signature@)))),
{
    let mut key = String::from_str(qualified_name);
    push_char(&mut key, '|');
    push_str(&mut key, signature);
    push_str(&mut key, "|1");
    proof {
        reveal_strlit("|");
    }
    assert(key@ =~= shape_key(qualified_name@, signature@));
    let hash = hex(&blake3_digest(key.as_str().as_bytes()));
    SocketShape {
        hash,
        qualified_name: String::from_str(qualified_name),
        structural_signature: String::from_str(signature),
        version: String::from_str("1"),
    }
}

/// Who asserts what parsing finds.
pub open spec fn parser_source() -> Seq<char> {
    "creature-context-parsers"@
}

/// When parsing asserts what it finds.
pub open spec fn parse_time() -> Seq<char> {
    "2026-08-07T00:00:00Z"@
}

/// Certainty, in thousandths.
pub open spec fn certain() -> u32 {
    1000
}

/// The evidence a parse asserts on one axis: a passing fact from parsing,
/// of syntax strength and certain, fingerprinted with and stamped by the
/// snapshot it was taken in.
pub open spec fn is_parse_evidence(ev: Evidence, axis: GreenAxis, snapshot: Seq<char>) -> bool {
    &&& ev.axis == axis
    &&& ev.source == FactSource::Parsed
    &&& ev.proof == ProofStrength::Syntax
    &&& ev.outcome == EvidenceOutcome::Pass
    &&& ev.confidence == certain()
    &&& ev.fingerprint@ == snapshot
    &&& ev.observed_at@ == parse_time()
    &&& ev.producer@ == parser_source()
    &&& ev.snapshot_id@ == snapshot
    &&& ev.message@.len() == 0
}

/// The span of a declaration of `file_path`: its first to its last line, at
/// column 1, with no content hash.
pub open spec fn is_symbol_span(sp: SourceSpan, file_path: Seq<char>, symbol: ParsedSymbol) -> bool {
    &&& sp.source_id@ == file_path
    &&& sp.relative_path@ == file_path
    &&& sp.start_line == symbol.start_line as u32
    &&& sp.start_column == 1
    &&& sp.end_line == symbol.end_line as u32
    &&& sp.end_column == 1
    &&& sp.content_hash@.len() == 0
}

/// A socket as parsing asserts it: certain, from the parser, in `snapshot`.
pub open spec fn is_parsed_socket(s: AtlasSocket, snapshot: Seq<char>) -> bool {
    &&& s.source_id@ == parser_source()
    &&& s.confidence == certain()
    &&& s.observed_at@ == parse_time()
    &&& s.snapshot_id@ == snapshot
}

/// The `provides` socket of an exported declaration: the shape it exposes,
/// named by the declaration and signed by its construct.
pub open spec fn is_provides_socket(
    s: AtlasSocket,
    entity: u128,
    symbol: ParsedSymbol,
    snapshot: Seq<char>,
) -> bool {
    &&& s.id as nat == derived_id(provides_key(entity, symbol.name@))
    &&& s.entity_id == entity
    &&& s.direction == SocketDirection::Provides
    &&& s.shape.qualified_name@ == symbol.name@
    &&& s.shape.structural_signature@ == construct_label_spec(symbol.construct)
    &&& s.shape.version@ == "1"@
    &&& s.shape.hash@ == hex_spec(
        blake3_of(encode_utf8(shape_key(symbol.name@, construct_label_spec(symbol.construct)))),
    )
    &&& !s.optional
    &&& s.resolution is Unresolved
    &&& is_parsed_socket(s, snapshot)
}

/// The `requires` socket of an intra-repository import: the shape its file
/// needs, named by the import's path; an import reveals no signature.
pub open spec fn is_requires_socket(
    s: AtlasSocket,
    file: u128,
    import: ParsedImport,
    snapshot: Seq<char>,
) -> bool {
    &&& s.id as nat == derived_id(requires_key(file, import.path@, import.start_line as nat))
    &&& s.entity_id == file
    &&& s.direction == SocketDirection::Requires
    &&& s.shape.qualified_name@ == import.path@
    &&& s.shape.structural_signature@ == Seq::<char>::empty()
    &&& s.shape.version@ == "1"@
    &&& s.shape.hash@ == hex_spec(blake3_of(encode_utf8(shape_key(import.path@, seq![]))))
    &&& !s.optional
    &&& s.resolution is Unresolved
    &&& is_parsed_socket(s, snapshot)
}

/// The observed edge by which `file` contains `symbol`, with the parse's
/// Integration evidence.
pub open spec fn is_contains_edge(e: AtlasEdge, file: u128, symbol: u128, snapshot: Seq<char>) -> bool {
    &&& e.id as nat == derived_id(contains_key(file, symbol))
    &&& e.source_entity_id == file
    &&& e.target_entity_id == symbol
    &&& e.kind == RelationshipKind::Contains
    &&& e.plane == RelationshipPlane::Observed
    &&& !e.required
    &&& e.evidence@.len() == 1
    &&& is_parse_evidence(e.evidence@[0], GreenAxis::Integration, snapshot)
    &&& e.source_id@ == parser_source()
    &&& e.confidence == certain()
    &&& e.observed_at@ == parse_time()
    &&& e.snapshot_id@ == snapshot
}

/// The Moon entity a declaration of `file_path` becomes under the file
/// entity `parent` in `snapshot`: one span covering the declaration, the
/// parse's passing Content and Structure evidence, its construct's label as
/// fingerprint, a provides socket when exported, and no Green assessment or
/// summary until evidence and models supply them.
pub open spec fn is_symbol_entity(
    e: AtlasEntity,
    id: u128,
    parent: u128,
    file_path: Seq<char>,
    symbol: ParsedSymbol,
    snapshot: Seq<char>,
) -> bool {
    &&& e.id == id
    &&& e.scale == ScopeScale::Moon
    &&& e.kind == entity_kind_spec(symbol.construct)
    &&& e.canonical_name@ == symbol.name@
    &&& e.relative_path matches Some(p) && p@ == file_path
    &&& e.parent_id == Some(parent)
    &&& e.protected_decision_ids@.len() == 0
    &&& e.sockets@.len() == (if symbol.exported {
        1int
    } else {
        0int
    })
    &&& symbol.exported ==> is_provides_socket(e.sockets@[0], id, symbol, snapshot)
    &&& e.source_spans@.len() == 1
    &&& is_symbol_span(e.source_spans@[0], file_path, symbol)
    &&& e.structural_fingerprint@ == construct_label_spec(symbol.construct)
    &&& e.local_evidence@.len() == 2
    &&& is_parse_evidence(e.local_evidence@[0], GreenAxis::Content, snapshot)
    &&& is_parse_evidence(e.local_evidence@[1], GreenAxis::Structure, snapshot)
    &&& e.green is None
    &&& e.deterministic_summary@.len() == 0
    &&& e.inferred_summaries@.len() == 0
    &&& e.snapshot_id@ == snapshot
    &&& e.observed_at@ == parse_time()
}

/// The parse's evidence on `axis`, taken in `snapshot`.
pub fn parse_evidence(axis: GreenAxis, snapshot: &str) -> (r: Evidence)
    ensures
        is_parse_evidence(r, axis, snapshot@),
{
    Evidence {
        axis,
        source: FactSource::Parsed,
        proof: ProofStrength::Syntax,
        outcome: EvidenceOutcome::Pass,
        confidence: 1000,
        fingerprint: String::from_str(snapshot),
        observed_at: String::from_str("2026-08-07T00:00:00Z"),
        producer: String::from_str("creature-context-parsers"),
        snapshot_id: String::from_str(snapshot),
        message: String::new(),
    }
}

/// The socket an exported declaration of `entity` provides.
pub fn provides_socket(entity: u128, symbol: &ParsedSymbol, snapshot: &str) -> (r: AtlasSocket)
    ensures
        is_provides_socket(r, entity, *symbol, snapshot@),
{
    let label = construct_label(&symbol.construct);
    AtlasSocket {
        id: provides_socket_id(entity, symbol.name.as_str()),
        entity_id: entity,
        direction: SocketDirection::Provides,
        shape: socket_shape(symbol.name.as_str(), label.as_str()),
        optional: false,
        resolution: SocketResolution::Unresolved,
        source_id: String::from_str("creature-context-parsers"),
        confidence: 1000,
        observed_at: String::from_str("2026-08-07T00:00:00Z"),
        snapshot_id: String::from_str(snapshot),
    }
}

/// The socket an intra-repository import of `file` requires.
pub fn requires_socket(file: u128, import: &ParsedImport, snapshot: &str) -> (r: AtlasSocket)
    ensures
        is_requires_socket(r, file, *import, snapshot@),
{
    let shape = socket_shape(import.path.as_str(), "");
    proof {
        reveal_strlit("");
        assert(""@ =~= Seq::<char>::empty());
    }
    AtlasSocket {
        id: requires_socket_id(file, import.path.as_str(), import.start_line),
        entity_id: file,
        direction: SocketDirection::Requires,
        shape,
        optional: false,
        resolution: SocketResolution::Unresolved,
        source_id: String::from_str("creature-context-parsers"),
        confidence: 1000,
        observed_at: String::from_str("2026-08-07T00:00:00Z"),
        snapshot_id: String::from_str(snapshot),
    }
}

/// The observed edge by which `file` contains `symbol`.
pub fn contains_edge(file: u128, symbol: u128, snapshot: &str) -> (r: AtlasEdge)
    ensures
        is_contains_edge(r, file, symbol, snapshot@),
{
    let mut evidence: Vec<Evidence> = Vec::new();
    evidence.push(parse_evidence(GreenAxis::Integration, snapshot));
    AtlasEdge {
        id: contains_edge_id(file, symbol),
        source_entity_id: file,
        target_entity_id: symbol,
        kind: RelationshipKind::Contains,
        plane: RelationshipPlane::Observed,
        required: false,
        evidence,
        source_id: String::from_str("creature-context-parsers"),
        confidence: 1000,
        observed_at: String::from_str("2026-08-07T00:00:00Z"),
        snapshot_id: String::from_str(snapshot),
    }
}

/// The Moon entity for a parsed declaration of the file `file_path`, under
/// the file entity `parent`, in the snapshot `snapshot`.
pub fn symbol_entity(
    id: u128,
    parent: u128,
    file_path: &str,
    symbol: &ParsedSymbol,
    snapshot: &str,
) -> (r: AtlasEntity)
    ensures
        is_symbol_entity(r, id, parent, file_path@, *symbol, snapshot@),
{
    let mut sockets: Vec<AtlasSocket> = Vec::new();
    if symbol.exported {
        sockets.push(provides_socket(id, symbol, snapshot));
    }
    let span = SourceSpan {
        source_id: String::from_str(file_path),
        relative_path: String::from_str(file_path),
        start_line: symbol.start_line as u32,
        start_column: 1,
        end_line: symbol.end_line as u32,
        end_column: 1,
        content_hash: String::new(),
    };
    let mut source_spans: Vec<SourceSpan> = Vec::new();
    source_spans.push(span);
    let mut local_evidence: Vec<Evidence> = Vec::new();
    local_evidence.push(parse_evidence(GreenAxis::Content, snapshot));
    local_evidence.push(parse_evidence(GreenAxis::Structure, snapshot));
    AtlasEntity {
        id,
        scale: ScopeScale::Moon,
        kind: entity_kind(&symbol.construct),
        canonical_name: String::from_str(symbol.name.as_str()),
        relative_path: Some(String::from_str(file_path)),
        parent_id: Some(parent),
        protected_decision_ids: Vec::new(),
        sockets,
        source_spans,
        structural_fingerprint: construct_label(&symbol.construct),
        local_evidence,
        green: None,
        deterministic_summary: String::new(),
        inferred_summaries: Vec::new(),
        snapshot_id: String::from_str(snapshot),
        observed_at: String::from_str("2026-08-07T00:00:00Z"),
    }
}

/// A file enrichment reads: a Moon entity with a path.
pub open spec fn is_file_target(e: AtlasEntity) -> bool {
    e.scale == ScopeScale::Moon && e.relative_path is Some
}

/// The files of a snapshot as plain values: id, path and content
/// fingerprint, in entity order.
pub open spec fn file_targets_spec(es: Seq<AtlasEntity>) -> Seq<(u128, Seq<char>, Seq<char>)>
    decreases es.len(),
{
    if es.len() == 0 {
        seq![]
    } else {
        let rest = file_targets_spec(es.drop_last());
        let e = es.last();
        if is_file_target(e) {
            rest.push((e.id, e.relative_path->0@, e.structural_fingerprint@))
        } else {
            rest
        }
    }
}

/// The targets as plain values.
pub open spec fn targets_view(v: Seq<(u128, String, String)>) -> Seq<(u128, Seq<char>, Seq<char>)> {
    v.map_values(|t: (u128, String, String)| (t.0, t.1@, t.2@))
}

/// The files enrichment parses: each Moon entity with a path, with its id,
/// path and the fingerprint of its content.
pub fn file_targets(entities: &Vec<AtlasEntity>) -> (r: Vec<(u128, String, String)>)
    ensures
        targets_view(r@) == file_targets_spec(entities@),
{
    let mut out: Vec<(u128, String, String)> = Vec::new();
    let mut k: usize = 0;
    while k < entities.len()
        invariant
            0 <= k <= entities.len(),
            targets_view(out@) == file_targets_spec(entities@.take(k as int)),
        decreases entities.len() - k,
    {
        let e = &entities[k];
        assert(entities@.take(k + 1).drop_last() =~= entities@.take(k as int));
        assert(entities@.take(k + 1).last() == entities@[k as int]);
        let ghost before = out@;
        let is_moon = match e.scale {
            ScopeScale::Moon => true,
            _ => false,
        };
        if is_moon {
            if let Some(path) = &e.relative_path {
                out.push((e.id, path.clone(), e.structural_fingerprint.clone()));
                assert(targets_view(out@) =~= targets_view(before).push(
                    (e.id, path@, e.structural_fingerprint@),
                ));
            }
        }
        k = k + 1;
    }
    assert(entities@.take(entities@.len() as int) =~= entities@);
    out
}

/// The cached parse for a file's content, counting one lookup. A file with
/// no content fingerprint cannot be proven unchanged, so it is never looked
/// up: it is always parsed and never cached.
pub fn lookup_cached<'a>(cache: &'a mut ParseCache, fingerprint: &str) -> (r: Option<&'a ParsedFile>)
    requires
        old(cache).spec_hits() < usize::MAX,
        old(cache).spec_misses() < usize::MAX,
    ensures
        final(cache)@ == old(cache)@,
        fingerprint@.len() == 0 ==> r is None && final(cache).spec_hits() == old(cache).spec_hits()
            && final(cache).spec_misses() == old(cache).spec_misses(),
        fingerprint@.len() > 0 ==> match r {
            Some(p) => old(cache)@.contains_key(fingerprint@) && *p == old(cache)@[fingerprint@]
                && final(cache).spec_hits() == old(cache).spec_hits() + 1
                && final(cache).spec_misses() == old(cache).spec_misses(),
            None => !old(cache)@.contains_key(fingerprint@) && final(cache).spec_hits()
                == old(cache).spec_hits() && final(cache).spec_misses() == old(cache).spec_misses()
                + 1,
        },
{
    if chars_of(fingerprint).len() == 0 {
        None
    } else {
        cache.get(fingerprint)
    }
}

/// Record a fresh parse under its content fingerprint, unless there is none.
pub fn store_parse(cache: &mut ParseCache, fingerprint: &str, parsed: ParsedFile)
    ensures
        fingerprint@.len() == 0 ==> final(cache)@ == old(cache)@,
        fingerprint@.len() > 0 ==> final(cache)@ == old(cache)@.insert(fingerprint@, parsed),
        final(cache).spec_hits() == old(cache).spec_hits(),
        final(cache).spec_misses() == old(cache).spec_misses(),
{
    if chars_of(fingerprint).len() > 0 {
        cache.insert(String::from_str(fingerprint), parsed);
    }
}

/// The index of the first entity with id `id`.
pub open spec fn first_with_id(es: Seq<AtlasEntity>, id: u128) -> Option<int>
    decreases es.len(),
{
    if es.len() == 0 {
        None
    } else if es[0].id == id {
        Some(0)
    } else {
        match first_with_id(es.drop_first(), id) {
            Some(i) => Some(i + 1),
            None => None,
        }
    }
}

fn find_entity(es: &Vec<AtlasEntity>, id: u128) -> (r: Option<usize>)
    ensures
        match r {
            Some(i) => first_with_id(es@, id) == Some(i as int) && i < es@.len(),
            None => first_with_id(es@, id) is None,
        },
{
    let mut i: usize = 0;
    while i < es.len()
        invariant
            0 <= i <= es.len(),
            forall|j: int| 0 <= j < i ==> (#[trigger] es@[j]).id != id,
        decreases es.len() - i,
    {
        if es[i].id == id {
            proof {
                lemma_first_with_id(es@, id, i as int);
            }
            return Some(i);
        }
        i = i + 1;
    }
    proof {
        lemma_no_entity_with_id(es@, id);
    }
    None
}

proof fn lemma_first_with_id(es: Seq<AtlasEntity>, id: u128, i: int)
    requires
        0 <= i < es.len(),
        es[i].id == id,
        forall|j: int| 0 <= j < i ==> (#[trigger] es[j]).id != id,
    ensures
        first_with_id(es, id) == Some(i),
    decreases i,
{
    if i > 0 {
        let rest = es.drop_first();
        assert forall|j: int| 0 <= j < i - 1 implies (#[trigger] rest[j]).id != id by {
            assert(rest[j] == es[j + 1]);
        }
        lemma_first_with_id(rest, id, i - 1);
        assert(es[0].id != id);
    }
}

proof fn lemma_no_entity_with_id(es: Seq<AtlasEntity>, id: u128)
    requires
        forall|j: int| 0 <= j < es.len() ==> (#[trigger] es[j]).id != id,
    ensures
        first_with_id(es, id) is None,
    decreases es.len(),
{
    if es.len() > 0 {
        let rest = es.drop_first();
        assert forall|j: int| 0 <= j < rest.len() implies (#[trigger] rest[j]).id != id by {
            assert(rest[j] == es[j + 1]);
        }
        lemma_no_entity_with_id(rest, id);
        assert(es[0].id != id);
    }
}

/// The names a parse defines: its declarations' names, then the identifiers
/// its macros expand from.
pub open spec fn defined_by(parsed: ParsedFile) -> Seq<Seq<char>> {
    parsed.symbols@.map_values(|s: ParsedSymbol| s.name@) + parsed.macro_names@.map_values(
        |n: String| n@,
    )
}

/// The entity id of the `k`th declaration of a parse of `file`.
pub open spec fn symbol_id_of(file: u128, symbol: ParsedSymbol) -> nat {
    derived_id(symbol_key(file, symbol.name@, symbol.start_line as nat))
}

/// Add one file's parse to the snapshot: a Moon entity under the file for
/// each declaration, joined to it by an observed `contains` edge, and a
/// `requires` socket on the file for each intra-repository import. The names
/// the parse defines are added to `defined`. Returns the number of entities
/// added.
pub fn enrich_with_parse(
    snapshot: &mut AtlasSnapshot,
    file_id: u128,
    file_path: &str,
    parsed: &ParsedFile,
    defined: &mut Vec<String>,
) -> (added: usize)
    ensures
        added == parsed.symbols@.len(),
        final(snapshot).id == old(snapshot).id,
        final(snapshot).timestamp == old(snapshot).timestamp,
        final(snapshot).entities@.len() == old(snapshot).entities@.len() + added,
        forall|k: int|
            0 <= k < old(snapshot).entities@.len() && first_with_id(old(snapshot).entities@, file_id)
                != Some(k) ==> #[trigger] final(snapshot).entities@[k] == old(snapshot).entities@[k],
        first_with_id(old(snapshot).entities@, file_id) matches Some(f) ==> {
            let before = old(snapshot).entities@[f];
            let after = final(snapshot).entities@[f];
            &&& after == (AtlasEntity { sockets: after.sockets, ..before })
            &&& after.sockets@.len() == before.sockets@.len() + parsed.imports@.len()
            &&& forall|j: int|
                0 <= j < before.sockets@.len() ==> #[trigger] after.sockets@[j]
                    == before.sockets@[j]
            &&& forall|j: int|
                0 <= j < parsed.imports@.len() ==> is_requires_socket(
                    #[trigger] after.sockets@[before.sockets@.len() + j],
                    file_id,
                    parsed.imports@[j],
                    old(snapshot).id@,
                )
        },
        forall|k: int|
            0 <= k < added ==> is_symbol_entity(
                #[trigger] final(snapshot).entities@[old(snapshot).entities@.len() + k],
                final(snapshot).entities@[old(snapshot).entities@.len() + k].id,
                file_id,
                file_path@,
                parsed.symbols@[k],
                old(snapshot).id@,
            ) && final(snapshot).entities@[old(snapshot).entities@.len() + k].id as nat
                == symbol_id_of(file_id, parsed.symbols@[k]),
        final(snapshot).edges@.len() == old(snapshot).edges@.len() + added,
        forall|k: int|
            0 <= k < old(snapshot).edges@.len() ==> #[trigger] final(snapshot).edges@[k] == old(
                snapshot,
            ).edges@[k],
        forall|k: int|
            0 <= k < added ==> is_contains_edge(
                #[trigger] final(snapshot).edges@[old(snapshot).edges@.len() + k],
                file_id,
                final(snapshot).entities@[old(snapshot).entities@.len() + k].id,
                old(snapshot).id@,
            ),
        crate::order::string_views(final(defined)@) == crate::order::string_views(old(defined)@)
            + defined_by(*parsed),
{
    let ghost old_entities = snapshot.entities@;
    let ghost old_edges = snapshot.edges@;
    let ghost old_defined = crate::order::string_views(defined@);
    let snapshot_id = snapshot.id.clone();
    let n0 = snapshot.entities.len();
    let target = find_entity(&snapshot.entities, file_id);
    let mut k: usize = 0;
    while k < parsed.symbols.len()
        invariant
            0 <= k <= parsed.symbols.len(),
            n0 == old_entities.len(),
            snapshot_id@ == old(snapshot).id@,
            snapshot.entities@.len() == n0 + k,
            snapshot.edges@.len() == old_edges.len() + k,
            snapshot.id == old(snapshot).id,
            snapshot.timestamp == old(snapshot).timestamp,
            forall|j: int| 0 <= j < n0 ==> #[trigger] snapshot.entities@[j] == old_entities[j],
            forall|j: int| 0 <= j < old_edges.len() ==> #[trigger] snapshot.edges@[j] == old_edges[j],
            forall|j: int|
                0 <= j < k ==> is_symbol_entity(
                    #[trigger] snapshot.entities@[n0 + j],
                    snapshot.entities@[n0 + j].id,
                    file_id,
                    file_path@,
                    parsed.symbols@[j],
                    old(snapshot).id@,
                ) && snapshot.entities@[n0 + j].id as nat == symbol_id_of(
                    file_id,
                    parsed.symbols@[j],
                ),
            forall|j: int|
                0 <= j < k ==> is_contains_edge(
                    #[trigger] snapshot.edges@[old_edges.len() + j],
                    file_id,
                    snapshot.entities@[n0 + j].id,
                    old(snapshot).id@,
                ),
            crate::order::string_views(defined@) == old_defined + parsed.symbols@.take(
                k as int,
            ).map_values(|s: ParsedSymbol| s.name@),
        decreases parsed.symbols.len() - k,
    {
        let symbol = &parsed.symbols[k];
        let ghost dv = crate::order::string_views(defined@);
        defined.push(String::from_str(symbol.name.as_str()));
        assert(parsed.symbols@.take(k + 1) =~= parsed.symbols@.take(k as int).push(*symbol));
        assert(crate::order::string_views(defined@) =~= dv.push(symbol.name@));
        let id = symbol_entity_id(file_id, symbol.name.as_str(), symbol.start_line);
        let entity = symbol_entity(id, file_id, file_path, symbol, snapshot_id.as_str());
        snapshot.entities.push(entity);
        snapshot.edges.push(contains_edge(file_id, id, snapshot_id.as_str()));
        k = k + 1;
    }
    assert(parsed.symbols@.take(parsed.symbols@.len() as int) =~= parsed.symbols@);
    let mut m: usize = 0;
    while m < parsed.macro_names.len()
        invariant
            0 <= m <= parsed.macro_names.len(),
            crate::order::string_views(defined@) == old_defined + parsed.symbols@.map_values(
                |s: ParsedSymbol| s.name@,
            ) + parsed.macro_names@.take(m as int).map_values(|n: String| n@),
        decreases parsed.macro_names.len() - m,
    {
        let ghost dv = crate::order::string_views(defined@);
        defined.push(String::from_str(parsed.macro_names[m].as_str()));
        assert(crate::order::string_views(defined@) =~= dv.push(parsed.macro_names@[m as int]@));
        assert(parsed.macro_names@.take(m + 1) =~= parsed.macro_names@.take(m as int).push(
            parsed.macro_names@[m as int],
        ));
        m = m + 1;
    }
    assert(parsed.macro_names@.take(parsed.macro_names@.len() as int) =~= parsed.macro_names@);
    assert(crate::order::string_views(defined@) =~= old_defined + defined_by(*parsed));
    if let Some(f) = target {
        let ghost mid = snapshot.entities@;
        let mut file = snapshot.entities.remove(f);
        let ghost before_sockets = file.sockets@;
        let mut j: usize = 0;
        while j < parsed.imports.len()
            invariant
                0 <= j <= parsed.imports.len(),
                file.sockets@.len() == before_sockets.len() + j,
                snapshot_id@ == old(snapshot).id@,
                file == (AtlasEntity { sockets: file.sockets, ..mid[f as int] }),
                forall|i: int|
                    0 <= i < before_sockets.len() ==> #[trigger] file.sockets@[i]
                        == before_sockets[i],
                forall|i: int|
                    0 <= i < j ==> is_requires_socket(
                        #[trigger] file.sockets@[before_sockets.len() + i],
                        file_id,
                        parsed.imports@[i],
                        old(snapshot).id@,
                    ),
            decreases parsed.imports.len() - j,
        {
            file.sockets.push(requires_socket(file_id, &parsed.imports[j], snapshot_id.as_str()));
            j = j + 1;
        }
        snapshot.entities.insert(f, file);
        assert(snapshot.entities@ =~= mid.update(f as int, file));
    }
    k
}

/// A required socket left as a `no_match` hole although the repository
/// defines its name by means the parse cannot see (a private or
/// macro-generated declaration) is not proof of absence: it is relaxed to
/// unresolved. Every other socket stands.
pub open spec fn relaxed(s: AtlasSocket, defined: Set<Seq<char>>) -> AtlasSocket {
    if s.direction == SocketDirection::Requires && (s.resolution matches SocketResolution::Hole {
        reason,
        ..
    } && reason == HoleReason::NoMatch) && defined.contains(
        leaf_name_spec(s.shape.qualified_name@),
    ) {
        AtlasSocket { resolution: SocketResolution::Unresolved, ..s }
    } else {
        s
    }
}

fn contains_name(names: &Vec<String>, name: &String) -> (r: bool)
    ensures
        r == crate::order::string_views(names@).contains(name@),
{
    let mut i: usize = 0;
    while i < names.len()
        invariant
            0 <= i <= names.len(),
            forall|j: int| 0 <= j < i ==> names@[j]@ != name@,
        decreases names.len() - i,
    {
        if str_eq(names[i].as_str(), name.as_str()) {
            assert(crate::order::string_views(names@)[i as int] == name@);
            return true;
        }
        i = i + 1;
    }
    assert(!crate::order::string_views(names@).contains(name@)) by {
        if crate::order::string_views(names@).contains(name@) {
            let j = choose|j: int|
                0 <= j < crate::order::string_views(names@).len() && crate::order::string_views(
                    names@,
                )[j] == name@;
            assert(names@[j]@ == name@);
        }
    }
    false
}

fn relax(s: AtlasSocket, defined: &Vec<String>) -> (r: AtlasSocket)
    ensures
        r == relaxed(s, crate::order::string_views(defined@).to_set()),
{
    let is_required = match s.direction {
        SocketDirection::Requires => true,
        SocketDirection::Provides => false,
    };
    let is_no_match = match &s.resolution {
        SocketResolution::Hole { reason, .. } => match reason {
            HoleReason::NoMatch => true,
            HoleReason::Ambiguous => false,
        },
        _ => false,
    };
    if is_required && is_no_match {
        let leaf = leaf_name(s.shape.qualified_name.as_str());
        if contains_name(defined, &leaf) {
            return AtlasSocket { resolution: SocketResolution::Unresolved, ..s };
        }
    }
    s
}

/// After sockets are resolved: relax every `no_match` hole whose name the
/// repository defines somewhere the parse cannot see, leaving everything
/// else about the entities as it was. A name absent everywhere stays a hole.
pub fn relax_unprovable_holes(entities: &mut Vec<AtlasEntity>, defined: &Vec<String>)
    ensures
        final(entities)@.len() == old(entities)@.len(),
        forall|i: int|
            0 <= i < final(entities)@.len() ==> {
                let before = old(entities)@[i];
                let after = #[trigger] final(entities)@[i];
                &&& after == (AtlasEntity { sockets: after.sockets, ..before })
                &&& after.sockets@ == before.sockets@.map_values(
                    |s: AtlasSocket| relaxed(s, crate::order::string_views(defined@).to_set()),
                )
            },
{
    let ghost names = crate::order::string_views(defined@).to_set();
    let ghost original = entities@;
    let mut i: usize = 0;
    while i < entities.len()
        invariant
            0 <= i <= entities@.len(),
            entities@.len() == original.len(),
            names == crate::order::string_views(defined@).to_set(),
            forall|j: int| i <= j < entities@.len() ==> #[trigger] entities@[j] == original[j],
            forall|j: int|
                0 <= j < i ==> {
                    let before = original[j];
                    let after = #[trigger] entities@[j];
                    &&& after == (AtlasEntity { sockets: after.sockets, ..before })
                    &&& after.sockets@ == before.sockets@.map_values(
                        |s: AtlasSocket| relaxed(s, names),
                    )
                },
        decreases entities@.len() - i,
    {
        let ghost mid = entities@;
        let mut e = entities.remove(i);
        let mut old_sockets: Vec<AtlasSocket> = Vec::new();
        std::mem::swap(&mut old_sockets, &mut e.sockets);
        let ghost olds = old_sockets@;
        for s in it: old_sockets
            invariant
                it.seq() == olds,
                names == crate::order::string_views(defined@).to_set(),
                e == (AtlasEntity { sockets: e.sockets, ..original[i as int] }),
                e.sockets@ == olds.take(it.index() as int).map_values(
                    |x: AtlasSocket| relaxed(x, names),
                ),
        {
            let ghost idx = it.index();
            e.sockets.push(relax(s, defined));
            assert(olds.take(idx + 1) =~= olds.take(idx as int).push(s));
            assert(e.sockets@ =~= olds.take(idx + 1).map_values(|x: AtlasSocket| relaxed(x, names)));
        }
        assert(olds.take(olds.len() as int) =~= olds);
        entities.insert(i, e);
        assert(entities@ =~= mid.update(i as int, e));
        i = i + 1;
    }
}


/// What a declaration becomes is fixed by its construct: functions,
/// closures, procedures and methods become functions; tests become tests;
/// classes, product types, enumerations, behavioral contracts and type
/// aliases become types; every other shared construct, and every construct
/// unique to its language, becomes a component.
pub proof fn law_each_construct_becomes_its_entity_kind(c: Construct)
    ensures
        c matches Construct::Shared(n) && (n@ == "function"@ || n@ == "closure"@ || n@
            == "procedure"@ || n@ == "method"@) ==> entity_kind_spec(c) == EntityKind::Function,
        c matches Construct::Shared(n) && n@ == "test"@ ==> entity_kind_spec(c) == EntityKind::Test,
        c matches Construct::Shared(n) && (n@ == "class"@ || n@ == "product_type"@ || n@
            == "enumeration"@ || n@ == "behavioral_contract"@ || n@ == "type_alias"@)
            ==> entity_kind_spec(c) == EntityKind::Type,
        c matches Construct::Shared(n) && !(n@ == "function"@ || n@ == "closure"@ || n@
            == "procedure"@ || n@ == "method"@ || n@ == "test"@ || n@ == "class"@ || n@
            == "product_type"@ || n@ == "enumeration"@ || n@ == "behavioral_contract"@ || n@
            == "type_alias"@) ==> entity_kind_spec(c) == EntityKind::Component,
        c is Native ==> entity_kind_spec(c) == EntityKind::Component,
{
    reveal_strlit("function");
    assert("function"@.len() == 8);
    reveal_strlit("closure");
    assert("closure"@.len() == 7);
    reveal_strlit("procedure");
    assert("procedure"@.len() == 9);
    reveal_strlit("method");
    assert("method"@.len() == 6);
    reveal_strlit("test");
    assert("test"@.len() == 4);
    reveal_strlit("product_type");
    assert("product_type"@.len() == 12);
    reveal_strlit("class");
    assert("class"@.len() == 5);
    reveal_strlit("enumeration");
    assert("enumeration"@.len() == 11);
    reveal_strlit("behavioral_contract");
    assert("behavioral_contract"@.len() == 19);
    reveal_strlit("type_alias");
    assert("type_alias"@.len() == 10);
}

} // verus!
