//! What an evaluated agent does.

use crate::json::{Json, JsonView};
use crate::same::{Replica, Same};
use vstd::prelude::*;

verus! {

/// How an agent ended its turn.
#[derive(Clone, Copy, Debug, PartialEq, Eq, Structural)]
pub enum AgentActionStatus {
    Completed,
    Suspended,
    Failed,
    Aborted,
}

impl DeepView for AgentActionStatus {
    type V = AgentActionStatus;

    open spec fn deep_view(&self) -> Self::V {
        *self
    }
}

impl Replica for AgentActionStatus {
    fn replica(&self) -> (r: Self) {
        *self
    }
}

impl Same for AgentActionStatus {
    fn same(&self, other: &Self) -> (r: bool) {
        *self == *other
    }
}

/// What an agent did in its turn.
#[derive(Debug, PartialEq, Eq)]
pub enum AgentActionEvent {
    AssistantText { text: String },
    FunctionCallsRequested { calls: Json },
    FunctionStarted { call_id: String, name: String },
    FunctionCompleted { call_id: String, name: String },
    FunctionFailed { call_id: String, name: String, error: String },
    Runtime { source: String, message: String, metadata: Json },
    TokenUsage { usage: Json },
}

/// What an [`AgentActionEvent`] holds.
#[verifier::ext_equal]
pub enum AgentActionEventView {
    AssistantText { text: Seq<char> },
    FunctionCallsRequested { calls: JsonView },
    FunctionStarted { call_id: Seq<char>, name: Seq<char> },
    FunctionCompleted { call_id: Seq<char>, name: Seq<char> },
    FunctionFailed { call_id: Seq<char>, name: Seq<char>, error: Seq<char> },
    Runtime { source: Seq<char>, message: Seq<char>, metadata: JsonView },
    TokenUsage { usage: JsonView },
}

impl DeepView for AgentActionEvent {
    type V = AgentActionEventView;

    open spec fn deep_view(&self) -> Self::V {
        match self {
            AgentActionEvent::AssistantText { text } => AgentActionEventView::AssistantText {
                text: text.deep_view(),
            },
            AgentActionEvent::FunctionCallsRequested { calls } =>
                AgentActionEventView::FunctionCallsRequested {
                calls: calls.deep_view(),
            },
            AgentActionEvent::FunctionStarted { call_id, name } =>
                AgentActionEventView::FunctionStarted {
                call_id: call_id.deep_view(),
                name: name.deep_view(),
            },
            AgentActionEvent::FunctionCompleted { call_id, name } =>
                AgentActionEventView::FunctionCompleted {
                call_id: call_id.deep_view(),
                name: name.deep_view(),
            },
            AgentActionEvent::FunctionFailed { call_id, name, error } =>
                AgentActionEventView::FunctionFailed {
                call_id: call_id.deep_view(),
                name: name.deep_view(),
                error: error.deep_view(),
            },
            AgentActionEvent::Runtime { source, message, metadata } =>
                AgentActionEventView::Runtime {
                source: source.deep_view(),
                message: message.deep_view(),
                metadata: metadata.deep_view(),
            },
            AgentActionEvent::TokenUsage { usage } => AgentActionEventView::TokenUsage {
                usage: usage.deep_view(),
            },
        }
    }
}

impl Replica for AgentActionEvent {
    fn replica(&self) -> (r: Self) {
        match self {
            AgentActionEvent::AssistantText { text } => AgentActionEvent::AssistantText {
                text: text.replica(),
            },
            AgentActionEvent::FunctionCallsRequested { calls } =>
                AgentActionEvent::FunctionCallsRequested {
                calls: calls.replica(),
            },
            AgentActionEvent::FunctionStarted { call_id, name } =>
                AgentActionEvent::FunctionStarted {
                call_id: call_id.replica(),
                name: name.replica(),
            },
            AgentActionEvent::FunctionCompleted { call_id, name } =>
                AgentActionEvent::FunctionCompleted {
                call_id: call_id.replica(),
                name: name.replica(),
            },
            AgentActionEvent::FunctionFailed { call_id, name, error } =>
                AgentActionEvent::FunctionFailed {
                call_id: call_id.replica(),
                name: name.replica(),
                error: error.replica(),
            },
            AgentActionEvent::Runtime { source, message, metadata } => AgentActionEvent::Runtime {
                source: source.replica(),
                message: message.replica(),
                metadata: metadata.replica(),
            },
            AgentActionEvent::TokenUsage { usage } => AgentActionEvent::TokenUsage {
                usage: usage.replica(),
            },
        }
    }
}

impl Clone for AgentActionEvent {
    fn clone(&self) -> (r: Self)
        ensures
            r.deep_view() == self.deep_view(),
    {
        self.replica()
    }
}

impl Same for AgentActionEvent {
    fn same(&self, other: &Self) -> (r: bool) {
        match (self, other) {
            (
                AgentActionEvent::AssistantText { text: a_text },
                AgentActionEvent::AssistantText { text: b_text },
            ) => a_text.same(b_text),
            (
                AgentActionEvent::FunctionCallsRequested { calls: a_calls },
                AgentActionEvent::FunctionCallsRequested { calls: b_calls },
            ) => a_calls.same(b_calls),
            (
                AgentActionEvent::FunctionStarted { call_id: a_call_id, name: a_name },
                AgentActionEvent::FunctionStarted { call_id: b_call_id, name: b_name },
            ) => a_call_id.same(b_call_id) && a_name.same(b_name),
            (
                AgentActionEvent::FunctionCompleted { call_id: a_call_id, name: a_name },
                AgentActionEvent::FunctionCompleted { call_id: b_call_id, name: b_name },
            ) => a_call_id.same(b_call_id) && a_name.same(b_name),
            (
                AgentActionEvent::FunctionFailed {
                    call_id: a_call_id,
                    name: a_name,
                    error: a_error,
                },
                AgentActionEvent::FunctionFailed {
                    call_id: b_call_id,
                    name: b_name,
                    error: b_error,
                },
            ) => a_call_id.same(b_call_id) && a_name.same(b_name) && a_error.same(b_error),
            (
                AgentActionEvent::Runtime {
                    source: a_source,
                    message: a_message,
                    metadata: a_metadata,
                },
                AgentActionEvent::Runtime {
                    source: b_source,
                    message: b_message,
                    metadata: b_metadata,
                },
            ) => a_source.same(b_source) && a_message.same(b_message) && a_metadata.same(b_metadata),
            (
                AgentActionEvent::TokenUsage { usage: a_usage },
                AgentActionEvent::TokenUsage { usage: b_usage },
            ) => a_usage.same(b_usage),
            _ => false,
        }
    }
}

/// The turn of an agent.
#[derive(Debug, PartialEq, Eq)]
pub struct AgentAction {
    pub status: AgentActionStatus,
    pub assistant_text: String,
    pub events: Vec<AgentActionEvent>,
}

/// What an [`AgentAction`] holds.
#[verifier::ext_equal]
pub struct AgentActionView {
    pub status: AgentActionStatus,
    pub assistant_text: Seq<char>,
    pub events: Seq<AgentActionEventView>,
}

impl DeepView for AgentAction {
    type V = AgentActionView;

    open spec fn deep_view(&self) -> Self::V {
        AgentActionView {
            status: self.status.deep_view(),
            assistant_text: self.assistant_text.deep_view(),
            events: self.events.deep_view(),
        }
    }
}

impl Replica for AgentAction {
    fn replica(&self) -> (r: Self) {
        AgentAction {
            status: self.status.replica(),
            assistant_text: self.assistant_text.replica(),
            events: self.events.replica(),
        }
    }
}

impl Clone for AgentAction {
    fn clone(&self) -> (r: Self)
        ensures
            r.deep_view() == self.deep_view(),
    {
        self.replica()
    }
}

impl Same for AgentAction {
    fn same(&self, other: &Self) -> (r: bool) {
        self.status.same(&other.status)
            && self.assistant_text.same(&other.assistant_text)
            && self.events.same(&other.events)
    }
}

} // verus!
