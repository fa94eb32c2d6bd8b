//! Tools of an agent.

pub mod kernel_ops;
pub mod path;
pub mod sandbox;
pub mod sandbox_laws;
pub mod search_laws;
pub mod web_search;
pub mod windows_fake;
