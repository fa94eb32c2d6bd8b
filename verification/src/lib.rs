//! Verified core of an agent runtime.

pub mod codec;
pub mod desktop;
pub mod desktop_laws;
pub mod digest;
pub mod document;
pub mod error_laws;
pub mod eval;
pub mod fields;
pub mod json;
pub mod json_laws;
pub mod kernel;
pub mod observability;
pub mod openai;
pub mod pretty;
pub mod pretty_laws;
pub mod prune;
pub mod prune_laws;
pub mod repeat_laws;
pub mod revision;
pub mod runtime;
pub mod same;
pub mod shape;
pub mod shape_laws;
pub mod spelling;
pub mod text;
pub mod text_laws;
pub mod text_map;
pub mod time_span;
pub mod tools;
pub mod typed;
pub mod written;
