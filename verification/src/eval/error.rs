//! Errors of evaluations.

use crate::runtime::error::{error_text, AgentError, AgentErrorView};
use crate::same::Replica;
use crate::text::glue2;
use vstd::prelude::*;

verus! {

/// Why an evaluation failed.
#[derive(Debug, PartialEq, Eq)]
pub enum EvalError {
    InvalidTaskGraph(String),
    InvalidEnvironmentAction(String),
    InvalidCommand(String),
    Environment(String),
    Role(String),
    Agent(AgentError),
    Serialization(String),
}

/// What an [`EvalError`] holds.
#[verifier::ext_equal]
pub enum EvalErrorView {
    InvalidTaskGraph(Seq<char>),
    InvalidEnvironmentAction(Seq<char>),
    InvalidCommand(Seq<char>),
    Environment(Seq<char>),
    Role(Seq<char>),
    Agent(AgentErrorView),
    Serialization(Seq<char>),
}

impl DeepView for EvalError {
    type V = EvalErrorView;

    open spec fn deep_view(&self) -> Self::V {
        match self {
            EvalError::InvalidTaskGraph(value) => EvalErrorView::InvalidTaskGraph(
                value.deep_view(),
            ),
            EvalError::InvalidEnvironmentAction(value) => EvalErrorView::InvalidEnvironmentAction(
                value.deep_view(),
            ),
            EvalError::InvalidCommand(value) => EvalErrorView::InvalidCommand(value.deep_view()),
            EvalError::Environment(value) => EvalErrorView::Environment(value.deep_view()),
            EvalError::Role(value) => EvalErrorView::Role(value.deep_view()),
            EvalError::Agent(value) => EvalErrorView::Agent(value.deep_view()),
            EvalError::Serialization(value) => EvalErrorView::Serialization(value.deep_view()),
        }
    }
}

impl Replica for EvalError {
    fn replica(&self) -> (r: Self) {
        match self {
            EvalError::InvalidTaskGraph(value) => EvalError::InvalidTaskGraph(value.replica()),
            EvalError::InvalidEnvironmentAction(value) => EvalError::InvalidEnvironmentAction(
                value.replica(),
            ),
            EvalError::InvalidCommand(value) => EvalError::InvalidCommand(value.replica()),
            EvalError::Environment(value) => EvalError::Environment(value.replica()),
            EvalError::Role(value) => EvalError::Role(value.replica()),
            EvalError::Agent(value) => EvalError::Agent(value.replica()),
            EvalError::Serialization(value) => EvalError::Serialization(value.replica()),
        }
    }
}

impl Clone for EvalError {
    fn clone(&self) -> (r: Self)
        ensures
            r.deep_view() == self.deep_view(),
    {
        self.replica()
    }
}

/// A result of an evaluation.
pub type Result<T> = core::result::Result<T, EvalError>;

/// How an error is told.
pub open spec fn eval_error_text(error: EvalErrorView) -> Seq<char> {
    match error {
        EvalErrorView::InvalidTaskGraph(message) => "invalid task graph: "@ + message,
        EvalErrorView::InvalidEnvironmentAction(message) => "invalid environment action: "@
            + message,
        EvalErrorView::InvalidCommand(message) => "invalid command: "@ + message,
        EvalErrorView::Environment(message) => "environment failed: "@ + message,
        EvalErrorView::Role(message) => "evaluation role failed: "@ + message,
        EvalErrorView::Agent(error) => "agent runtime failed: "@ + error_text(error),
        EvalErrorView::Serialization(message) => "serialization failed: "@ + message,
    }
}

impl EvalError {
    /// How the error is told.
    pub fn text(&self) -> (r: String)
        ensures
            r@ == eval_error_text(self.deep_view()),
    {
        match self {
            EvalError::InvalidTaskGraph(message) => glue2("invalid task graph: ", message.as_str()),
            EvalError::InvalidEnvironmentAction(message) => glue2(
                "invalid environment action: ",
                message.as_str(),
            ),
            EvalError::InvalidCommand(message) => glue2("invalid command: ", message.as_str()),
            EvalError::Environment(message) => glue2("environment failed: ", message.as_str()),
            EvalError::Role(message) => glue2("evaluation role failed: ", message.as_str()),
            EvalError::Agent(error) => glue2("agent runtime failed: ", error.text().as_str()),
            EvalError::Serialization(message) => glue2("serialization failed: ", message.as_str()),
        }
    }
}

} // verus!
