//! The portable store: the canonical IDX text form, the JSONL journal, and the
//! folder structure of the distributed Atlas files.
pub mod idx;
pub mod jsonl;
pub mod projections;
pub mod rebuild;
