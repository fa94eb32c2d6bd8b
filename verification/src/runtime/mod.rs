//! The turn loop, its functions and what it reports.

pub mod active_laws;
pub mod active_turns;
pub mod agent_loop;
pub mod error;
pub mod error_laws;
pub mod function_laws;
pub mod functions;
pub mod laws;
pub mod metrics;
pub mod record_laws;
pub mod recovery_laws;
pub mod resume;
pub mod resume_laws;
pub mod turn;
pub mod turn_laws;
pub mod turn_order;
pub mod turn_rules;
