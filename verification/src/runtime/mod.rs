//! The resident runtime's decisions: normalised events, the reconciliation
//! coordinator, the watcher's filter, the supervisor definition, the native
//! metadata projection and the semantic lane's work selection.
pub mod coordinator;
pub mod daemon;
pub mod events;
pub mod metadata;
pub mod platform;
pub mod semantic;
pub mod watcher;
