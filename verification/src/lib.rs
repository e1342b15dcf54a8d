//! Creature Context: a verified core for the multi-scale project atlas.
pub mod atlas;
pub mod digest;
pub mod ids;
pub mod model;
pub mod order;
pub mod parsers;
pub mod store;
pub mod runtime;
pub mod text;
