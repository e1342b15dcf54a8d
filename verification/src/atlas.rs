//! The Atlas as the library's logic reads it: scales, kinds, Green codes and
//! axes, and the entity and snapshot fields that projection, metadata and the
//! semantic lane decide on. Identifiers are UUIDs held as 128-bit integers.
use vstd::prelude::*;

verus! {

/// The nested scopes of the Atlas, widest first.
#[derive(Clone, Copy, Debug, PartialEq, Eq, Hash, Structural)]
pub enum ScopeScale {
    Universe,
    Galaxy,
    System,
    Planet,
    Moon,
}

/// What an entity is.
#[derive(Clone, Copy, Debug, PartialEq, Eq, Hash, Structural)]
pub enum EntityKind {
    File,
    Module,
    Function,
    Type,
    Component,
    Test,
    Registry,
}

/// A Green code: the state of one axis or of the whole assessment.
#[derive(Clone, Copy, Debug, PartialEq, Eq, Hash, Structural)]
pub enum GreenCode {
    Green,
    Yellow,
    Red,
    Unknown,
}

impl GreenCode {
    pub open spec fn spec_short(self) -> char {
        match self {
            GreenCode::Green => 'G',
            GreenCode::Yellow => 'Y',
            GreenCode::Red => 'R',
            GreenCode::Unknown => 'U',
        }
    }

    /// The single-character code.
    pub fn short(&self) -> (r: char)
        ensures
            r == self.spec_short(),
    {
        match self {
            GreenCode::Green => 'G',
            GreenCode::Yellow => 'Y',
            GreenCode::Red => 'R',
            GreenCode::Unknown => 'U',
        }
    }
}

/// The axes a Green assessment covers.
#[derive(Clone, Copy, Debug, PartialEq, Eq, Hash, PartialOrd, Ord, Structural)]
pub enum GreenAxis {
    Content,
    Structure,
    Integration,
    Verification,
    Freshness,
    Coherence,
}

/// An entity's Green assessment: the overall code and the code of each axis
/// that was assessed.
#[derive(Clone, Debug, PartialEq, Eq)]
pub struct GreenAssessment {
    pub overall: GreenCode,
    pub axes: Vec<(GreenAxis, GreenCode)>,
}

/// A model's summary of an entity, attributed to its producer and model.
#[derive(Clone, Debug, PartialEq, Eq)]
pub struct InferredSummary {
    pub value: String,
    pub producer: String,
    pub model_id: String,
    pub snapshot_id: String,
}

/// Where an evidence record's fact came from.
#[derive(Clone, Copy, Debug, PartialEq, Eq, Structural)]
pub enum FactSource {
    Parsed,
    Observed,
}

/// How strongly an evidence record proves its fact.
#[derive(Clone, Copy, Debug, PartialEq, Eq, Structural)]
pub enum ProofStrength {
    Syntax,
    Test,
    Unknown,
}

/// What an evidence record found.
#[derive(Clone, Copy, Debug, PartialEq, Eq, Structural)]
pub enum EvidenceOutcome {
    Unknown,
    Pass,
    Warning,
    Fail,
}

/// One recorded fact about an entity or edge, on one Green axis.
/// `confidence` is in thousandths: 1000 is certainty.
#[derive(Clone, Debug, PartialEq, Eq)]
pub struct Evidence {
    pub axis: GreenAxis,
    pub source: FactSource,
    pub proof: ProofStrength,
    pub outcome: EvidenceOutcome,
    pub confidence: u32,
    pub fingerprint: String,
    pub observed_at: String,
    pub producer: String,
    pub snapshot_id: String,
    pub message: String,
}

/// A region of a source file: 1-indexed lines and columns.
#[derive(Clone, Debug, PartialEq, Eq)]
pub struct SourceSpan {
    pub source_id: String,
    pub relative_path: String,
    pub start_line: u32,
    pub start_column: u32,
    pub end_line: u32,
    pub end_column: u32,
    pub content_hash: String,
}

/// Whether a socket is a shape its entity needs or one it offers.
#[derive(Clone, Copy, Debug, PartialEq, Eq, Structural)]
pub enum SocketDirection {
    Requires,
    Provides,
}

/// Why a required socket found no single fit.
#[derive(Clone, Copy, Debug, PartialEq, Eq, Structural)]
pub enum HoleReason {
    /// Nothing provides the shape.
    NoMatch,
    /// Several providers fit equally well.
    Ambiguous,
}

/// What the reconciler decided for a socket: nothing yet, the provided
/// socket that fits it, or a hole with its candidates.
#[derive(Clone, Debug, PartialEq, Eq)]
pub enum SocketResolution {
    Unresolved,
    Fit { provided_socket_id: u128 },
    Hole { reason: HoleReason, candidates: Vec<u128> },
}

/// A shape for socket matching: the name it is matched on, the signature,
/// the shape version, and a hash spanning all three.
#[derive(Clone, Debug, PartialEq, Eq)]
pub struct SocketShape {
    pub hash: String,
    pub qualified_name: String,
    pub structural_signature: String,
    pub version: String,
}

/// A shape an entity requires or provides.
#[derive(Clone, Debug, PartialEq, Eq)]
pub struct AtlasSocket {
    pub id: u128,
    pub entity_id: u128,
    pub direction: SocketDirection,
    pub shape: SocketShape,
    pub optional: bool,
    pub resolution: SocketResolution,
    /// Who asserted the socket.
    pub source_id: String,
    /// In thousandths.
    pub confidence: u32,
    pub observed_at: String,
    pub snapshot_id: String,
}

/// The plane a relationship belongs to.
#[derive(Clone, Copy, Debug, PartialEq, Eq, Structural)]
pub enum RelationshipPlane {
    Declared,
    Observed,
    Inferred,
}

/// What a relationship between two entities is.
#[derive(Clone, Copy, Debug, PartialEq, Eq, Structural)]
pub enum RelationshipKind {
    Contains,
    DependsOn,
    Provides,
    Requires,
}

/// A relationship from one entity to another.
#[derive(Clone, Debug, PartialEq, Eq)]
pub struct AtlasEdge {
    pub id: u128,
    pub source_entity_id: u128,
    pub target_entity_id: u128,
    pub kind: RelationshipKind,
    pub plane: RelationshipPlane,
    pub required: bool,
    pub evidence: Vec<Evidence>,
    /// Who asserted the edge.
    pub source_id: String,
    /// In thousandths.
    pub confidence: u32,
    pub observed_at: String,
    pub snapshot_id: String,
}

/// One Atlas entity, with the fields the library's logic reads.
#[derive(Clone, Debug, PartialEq, Eq)]
pub struct AtlasEntity {
    pub id: u128,
    pub scale: ScopeScale,
    pub kind: EntityKind,
    pub canonical_name: String,
    pub relative_path: Option<String>,
    pub parent_id: Option<u128>,
    pub protected_decision_ids: Vec<u128>,
    pub sockets: Vec<AtlasSocket>,
    pub source_spans: Vec<SourceSpan>,
    pub structural_fingerprint: String,
    pub local_evidence: Vec<Evidence>,
    pub green: Option<GreenAssessment>,
    pub deterministic_summary: String,
    pub inferred_summaries: Vec<InferredSummary>,
    pub snapshot_id: String,
    pub observed_at: String,
}

/// What kind of context a record holds.
#[derive(Clone, Copy, Debug, PartialEq, Eq, Structural)]
pub enum ContextRecordType {
    Purpose,
    Decision,
    Constraint,
    Task,
    Requirement,
    Question,
    Finding,
    Permission,
    Activity,
    Summary,
}

/// Who asserted a context record.
#[derive(Clone, Copy, Debug, PartialEq, Eq, Structural)]
pub enum AuthoritySource {
    System,
    Human,
    Project,
    Tool,
    Model,
}

/// A piece of project context — a purpose, decision, constraint, task,
/// summary… — scoped to an entity and attributed to its source.
/// `confidence` is in thousandths.
#[derive(Clone, Debug, PartialEq, Eq)]
pub struct ContextRecord {
    pub id: u128,
    pub record_type: ContextRecordType,
    pub value: String,
    pub scope_id: u128,
    pub source_id: String,
    pub authority: AuthoritySource,
    pub confidence: u32,
    pub snapshot_id: String,
}

/// A snapshot of the Atlas: its identity, its entities, its edges and its
/// context records, in order.
#[derive(Clone, Debug, PartialEq, Eq)]
pub struct AtlasSnapshot {
    pub id: String,
    pub timestamp: String,
    pub entities: Vec<AtlasEntity>,
    pub edges: Vec<AtlasEdge>,
    pub records: Vec<ContextRecord>,
}

} // verus!
