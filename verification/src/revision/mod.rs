//! Static, Git-like revision control for agent compositions.
//!
//! Specifications of agents are stored, compared and merged; no agent is executed.

pub mod conflict_laws;
pub mod controller;
pub mod diff;
pub mod diff_laws;
pub mod document_laws;
pub mod error;
pub mod history;
pub mod identity_laws;
pub mod ids;
pub mod laws;
pub mod local_laws;
pub mod local_store;
pub mod merge;
pub mod merge_laws;
pub mod outcome_laws;
pub mod revision;
pub mod revision_codec;
pub mod revision_spelling;
pub mod spec;
pub mod spec_codec;
pub mod store;
pub mod store_laws;
