//! Business-agnostic evaluation environments for tool-using agents.
//!
//! An environment owns the state of a task and produces observations. A policy turns each
//! observation into an action. The runner drives that interaction and sends the factual trajectory
//! to a referee after the environment terminates.

pub mod action;
pub mod decision_laws;
pub mod decision_tool;
pub mod environment;
pub mod environment_laws;
pub mod error;
pub mod graph_environment;
pub mod policy;
pub mod program;
pub mod program_laws;
pub mod runner;
pub mod runner_laws;
pub mod state;
pub mod state_codec;
pub mod state_laws;
pub mod vm;
pub mod vm_laws;
