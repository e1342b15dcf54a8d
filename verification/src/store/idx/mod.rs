//! Canonical IDX: compact UTF-8, LF endings, one typed record per line, stable
//! field ordering. A record line is a tag followed by space-separated
//! `key:value` fields whose values are bare atoms or JSON-quoted strings.
use vstd::prelude::*;

pub mod escape;
pub mod green;
pub mod json;
pub mod tokens;

verus! {

/// `serde_json::Error`.
#[verifier::external_type_specification]
#[verifier::external_body]
pub struct ExJsonError(serde_json::Error);

#[derive(Debug)]
pub enum IdxError {
    Parse(String),
    Serialization(serde_json::Error),
}

} // verus!
