//! Errors of the runtime.

use crate::kernel::events::RevisionToken;
use crate::same::Replica;
use crate::text::{decimal, decimal_text};
use vstd::prelude::*;

verus! {

/// Why a turn, or a step of it, could not be carried out.
#[derive(Debug, PartialEq, Eq)]
pub enum AgentError {
    SessionCoordinator(String),
    TurnNotActive(String),
    TurnAlreadyActive(String),
    TurnNotFound(String),
    ThreadNotFound(String),
    SuspendedTurn { thread_id: String, suspension_id: String },
    RevisionConflict { thread_id: String, expected: RevisionToken, actual: RevisionToken },
    Function { name: String, message: String },
    FunctionNotFound(String),
    FunctionTimeout { name: String, timeout_ms: u128 },
    InvalidFunctionTimeout { name: String },
    InvalidFunctionOutputLimit { name: String },
    FunctionOutputTooLarge { name: String, max_bytes: usize },
    InvalidFunctionArguments { name: String, message: String },
    MaxFunctionCalls(usize),
    MaxIterations(usize),
    Http(String),
    Model(String),
    Serialization(String),
}

/// What an [`AgentError`] holds.
#[verifier::ext_equal]
pub enum AgentErrorView {
    SessionCoordinator(Seq<char>),
    TurnNotActive(Seq<char>),
    TurnAlreadyActive(Seq<char>),
    TurnNotFound(Seq<char>),
    ThreadNotFound(Seq<char>),
    SuspendedTurn { thread_id: Seq<char>, suspension_id: Seq<char> },
    RevisionConflict { thread_id: Seq<char>, expected: RevisionToken, actual: RevisionToken },
    Function { name: Seq<char>, message: Seq<char> },
    FunctionNotFound(Seq<char>),
    FunctionTimeout { name: Seq<char>, timeout_ms: u128 },
    InvalidFunctionTimeout { name: Seq<char> },
    InvalidFunctionOutputLimit { name: Seq<char> },
    FunctionOutputTooLarge { name: Seq<char>, max_bytes: usize },
    InvalidFunctionArguments { name: Seq<char>, message: Seq<char> },
    MaxFunctionCalls(usize),
    MaxIterations(usize),
    Http(Seq<char>),
    Model(Seq<char>),
    Serialization(Seq<char>),
}

impl DeepView for AgentError {
    type V = AgentErrorView;

    open spec fn deep_view(&self) -> Self::V {
        match self {
            AgentError::SessionCoordinator(value) => AgentErrorView::SessionCoordinator(
                value.deep_view(),
            ),
            AgentError::TurnNotActive(value) => AgentErrorView::TurnNotActive(value.deep_view()),
            AgentError::TurnAlreadyActive(value) => AgentErrorView::TurnAlreadyActive(
                value.deep_view(),
            ),
            AgentError::TurnNotFound(value) => AgentErrorView::TurnNotFound(value.deep_view()),
            AgentError::ThreadNotFound(value) => AgentErrorView::ThreadNotFound(value.deep_view()),
            AgentError::SuspendedTurn { thread_id, suspension_id } =>
                AgentErrorView::SuspendedTurn {
                thread_id: thread_id.deep_view(),
                suspension_id: suspension_id.deep_view(),
            },
            AgentError::RevisionConflict { thread_id, expected, actual } =>
                AgentErrorView::RevisionConflict {
                thread_id: thread_id.deep_view(),
                expected: expected.deep_view(),
                actual: actual.deep_view(),
            },
            AgentError::Function { name, message } => AgentErrorView::Function {
                name: name.deep_view(),
                message: message.deep_view(),
            },
            AgentError::FunctionNotFound(value) => AgentErrorView::FunctionNotFound(
                value.deep_view(),
            ),
            AgentError::FunctionTimeout { name, timeout_ms } => AgentErrorView::FunctionTimeout {
                name: name.deep_view(),
                timeout_ms: timeout_ms.deep_view(),
            },
            AgentError::InvalidFunctionTimeout { name } => AgentErrorView::InvalidFunctionTimeout {
                name: name.deep_view(),
            },
            AgentError::InvalidFunctionOutputLimit { name } =>
                AgentErrorView::InvalidFunctionOutputLimit {
                name: name.deep_view(),
            },
            AgentError::FunctionOutputTooLarge { name, max_bytes } =>
                AgentErrorView::FunctionOutputTooLarge {
                name: name.deep_view(),
                max_bytes: max_bytes.deep_view(),
            },
            AgentError::InvalidFunctionArguments { name, message } =>
                AgentErrorView::InvalidFunctionArguments {
                name: name.deep_view(),
                message: message.deep_view(),
            },
            AgentError::MaxFunctionCalls(value) => AgentErrorView::MaxFunctionCalls(
                value.deep_view(),
            ),
            AgentError::MaxIterations(value) => AgentErrorView::MaxIterations(value.deep_view()),
            AgentError::Http(value) => AgentErrorView::Http(value.deep_view()),
            AgentError::Model(value) => AgentErrorView::Model(value.deep_view()),
            AgentError::Serialization(value) => AgentErrorView::Serialization(value.deep_view()),
        }
    }
}

impl Replica for AgentError {
    fn replica(&self) -> (r: Self) {
        match self {
            AgentError::SessionCoordinator(value) => AgentError::SessionCoordinator(
                value.replica(),
            ),
            AgentError::TurnNotActive(value) => AgentError::TurnNotActive(value.replica()),
            AgentError::TurnAlreadyActive(value) => AgentError::TurnAlreadyActive(value.replica()),
            AgentError::TurnNotFound(value) => AgentError::TurnNotFound(value.replica()),
            AgentError::ThreadNotFound(value) => AgentError::ThreadNotFound(value.replica()),
            AgentError::SuspendedTurn { thread_id, suspension_id } => AgentError::SuspendedTurn {
                thread_id: thread_id.replica(),
                suspension_id: suspension_id.replica(),
            },
            AgentError::RevisionConflict { thread_id, expected, actual } =>
                AgentError::RevisionConflict {
                thread_id: thread_id.replica(),
                expected: expected.replica(),
                actual: actual.replica(),
            },
            AgentError::Function { name, message } => AgentError::Function {
                name: name.replica(),
                message: message.replica(),
            },
            AgentError::FunctionNotFound(value) => AgentError::FunctionNotFound(value.replica()),
            AgentError::FunctionTimeout { name, timeout_ms } => AgentError::FunctionTimeout {
                name: name.replica(),
                timeout_ms: timeout_ms.replica(),
            },
            AgentError::InvalidFunctionTimeout { name } => AgentError::InvalidFunctionTimeout {
                name: name.replica(),
            },
            AgentError::InvalidFunctionOutputLimit { name } =>
                AgentError::InvalidFunctionOutputLimit {
                name: name.replica(),
            },
            AgentError::FunctionOutputTooLarge { name, max_bytes } =>
                AgentError::FunctionOutputTooLarge {
                name: name.replica(),
                max_bytes: max_bytes.replica(),
            },
            AgentError::InvalidFunctionArguments { name, message } =>
                AgentError::InvalidFunctionArguments {
                name: name.replica(),
                message: message.replica(),
            },
            AgentError::MaxFunctionCalls(value) => AgentError::MaxFunctionCalls(value.replica()),
            AgentError::MaxIterations(value) => AgentError::MaxIterations(value.replica()),
            AgentError::Http(value) => AgentError::Http(value.replica()),
            AgentError::Model(value) => AgentError::Model(value.replica()),
            AgentError::Serialization(value) => AgentError::Serialization(value.replica()),
        }
    }
}

impl Clone for AgentError {
    fn clone(&self) -> (r: Self)
        ensures
            r.deep_view() == self.deep_view(),
    {
        self.replica()
    }
}

/// The message of an error.
pub open spec fn error_text(error: AgentErrorView) -> Seq<char> {
    match error {
        AgentErrorView::SessionCoordinator(message) => "session coordinator failed: "@ + message,
        AgentErrorView::TurnNotActive(id) => "turn not active: "@ + id,
        AgentErrorView::TurnAlreadyActive(id) => "turn already active: "@ + id,
        AgentErrorView::TurnNotFound(id) => "turn not found: "@ + id,
        AgentErrorView::ThreadNotFound(id) => "thread not found: "@ + id,
        AgentErrorView::SuspendedTurn { thread_id, suspension_id } =>
            "thread "@ + thread_id + " waits on suspension "@ + suspension_id,
        AgentErrorView::RevisionConflict { thread_id, expected, actual } =>
            "thread "@
                + thread_id
                + " changed: expected revision "@
                + decimal(expected.value as nat)
                + ", found "@
                + decimal(actual.value as nat),
        AgentErrorView::Function { name, message } => "function "@ + name + " failed: "@ + message,
        AgentErrorView::FunctionNotFound(name) => "function not found: "@ + name,
        AgentErrorView::FunctionTimeout { name, timeout_ms } =>
            "function "@ + name + " timed out after "@ + decimal(timeout_ms as nat) + " ms"@,
        AgentErrorView::InvalidFunctionTimeout { name } => "function "@
            + name
            + " has an invalid time budget"@,
        AgentErrorView::InvalidFunctionOutputLimit { name } =>
            "function "@ + name + " has an invalid output limit"@,
        AgentErrorView::FunctionOutputTooLarge { name, max_bytes } =>
            "output of function "@ + name + " exceeds "@ + decimal(max_bytes as nat) + " bytes"@,
        AgentErrorView::InvalidFunctionArguments { name, message } =>
            "invalid arguments for function "@ + name + ": "@ + message,
        AgentErrorView::MaxFunctionCalls(limit) => "max function calls exceeded: "@
            + decimal(limit as nat),
        AgentErrorView::MaxIterations(limit) => "max iterations exceeded: "@
            + decimal(limit as nat),
        AgentErrorView::Http(message) => "http request failed: "@ + message,
        AgentErrorView::Model(message) => "model failed: "@ + message,
        AgentErrorView::Serialization(message) => "serialization failed: "@ + message,
    }
}

impl AgentError {
    /// The message of the error.
    pub fn text(&self) -> (r: String)
        ensures
            r@ == error_text(self.deep_view()),
    {
        match self {
            AgentError::SessionCoordinator(message) => {
                let mut out = "session coordinator failed: ".to_owned();
                out.append(message.as_str());
                out
            },
            AgentError::TurnNotActive(id) => {
                let mut out = "turn not active: ".to_owned();
                out.append(id.as_str());
                out
            },
            AgentError::TurnAlreadyActive(id) => {
                let mut out = "turn already active: ".to_owned();
                out.append(id.as_str());
                out
            },
            AgentError::TurnNotFound(id) => {
                let mut out = "turn not found: ".to_owned();
                out.append(id.as_str());
                out
            },
            AgentError::ThreadNotFound(id) => {
                let mut out = "thread not found: ".to_owned();
                out.append(id.as_str());
                out
            },
            AgentError::SuspendedTurn { thread_id, suspension_id } => {
                let mut out = "thread ".to_owned();
                out.append(thread_id.as_str());
                out.append(" waits on suspension ");
                out.append(suspension_id.as_str());
                out
            },
            AgentError::RevisionConflict { thread_id, expected, actual } => {
                let mut out = "thread ".to_owned();
                out.append(thread_id.as_str());
                out.append(" changed: expected revision ");
                out.append(decimal_text(expected.value as u128).as_str());
                out.append(", found ");
                out.append(decimal_text(actual.value as u128).as_str());
                out
            },
            AgentError::Function { name, message } => {
                let mut out = "function ".to_owned();
                out.append(name.as_str());
                out.append(" failed: ");
                out.append(message.as_str());
                out
            },
            AgentError::FunctionNotFound(name) => {
                let mut out = "function not found: ".to_owned();
                out.append(name.as_str());
                out
            },
            AgentError::FunctionTimeout { name, timeout_ms } => {
                let mut out = "function ".to_owned();
                out.append(name.as_str());
                out.append(" timed out after ");
                out.append(decimal_text(*timeout_ms).as_str());
                out.append(" ms");
                out
            },
            AgentError::InvalidFunctionTimeout { name } => {
                let mut out = "function ".to_owned();
                out.append(name.as_str());
                out.append(" has an invalid time budget");
                out
            },
            AgentError::InvalidFunctionOutputLimit { name } => {
                let mut out = "function ".to_owned();
                out.append(name.as_str());
                out.append(" has an invalid output limit");
                out
            },
            AgentError::FunctionOutputTooLarge { name, max_bytes } => {
                let mut out = "output of function ".to_owned();
                out.append(name.as_str());
                out.append(" exceeds ");
                out.append(decimal_text(*max_bytes as u128).as_str());
                out.append(" bytes");
                out
            },
            AgentError::InvalidFunctionArguments { name, message } => {
                let mut out = "invalid arguments for function ".to_owned();
                out.append(name.as_str());
                out.append(": ");
                out.append(message.as_str());
                out
            },
            AgentError::MaxFunctionCalls(limit) => {
                let mut out = "max function calls exceeded: ".to_owned();
                out.append(decimal_text(*limit as u128).as_str());
                out
            },
            AgentError::MaxIterations(limit) => {
                let mut out = "max iterations exceeded: ".to_owned();
                out.append(decimal_text(*limit as u128).as_str());
                out
            },
            AgentError::Http(message) => {
                let mut out = "http request failed: ".to_owned();
                out.append(message.as_str());
                out
            },
            AgentError::Model(message) => {
                let mut out = "model failed: ".to_owned();
                out.append(message.as_str());
                out
            },
            AgentError::Serialization(message) => {
                let mut out = "serialization failed: ".to_owned();
                out.append(message.as_str());
                out
            },
        }
    }
}

/// The result of a step of a turn.
pub type Result<T> = core::result::Result<T, AgentError>;

} // verus!
