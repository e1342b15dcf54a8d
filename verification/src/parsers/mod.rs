//! Structural extraction: construct registry, language dispatch, declaration
//! and import extraction over a syntax tree, and the parse cache.
pub mod adapter;
pub mod constructs;
pub mod enrich;
pub mod imports;
pub mod incremental;
pub mod languages;
pub mod syntax;
