//! What can be observed of an agent.

pub mod metrics;
pub mod sample_laws;
