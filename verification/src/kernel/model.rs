//! Requests to a model and its answers.

use crate::json::{Json, JsonView};
use crate::kernel::events::TokenUsage;
use crate::kernel::projection::{ChatMessage, ChatMessageView};
use crate::same::{Replica, Same};
use vstd::prelude::*;

verus! {

/// A function as the model sees it.
#[derive(Debug, PartialEq, Eq)]
pub struct FunctionSpec {
    pub name: String,
    pub description: String,
    pub parameters: Json,
}

/// What a [`FunctionSpec`] holds.
#[verifier::ext_equal]
pub struct FunctionSpecView {
    pub name: Seq<char>,
    pub description: Seq<char>,
    pub parameters: JsonView,
}

impl DeepView for FunctionSpec {
    type V = FunctionSpecView;

    open spec fn deep_view(&self) -> Self::V {
        FunctionSpecView {
            name: self.name.deep_view(),
            description: self.description.deep_view(),
            parameters: self.parameters.deep_view(),
        }
    }
}

impl Replica for FunctionSpec {
    fn replica(&self) -> (r: Self) {
        FunctionSpec {
            name: self.name.replica(),
            description: self.description.replica(),
            parameters: self.parameters.replica(),
        }
    }
}

impl Clone for FunctionSpec {
    fn clone(&self) -> (r: Self)
        ensures
            r.deep_view() == self.deep_view(),
    {
        self.replica()
    }
}

impl Same for FunctionSpec {
    fn same(&self, other: &Self) -> (r: bool) {
        self.name.same(&other.name)
            && self.description.same(&other.description)
            && self.parameters.same(&other.parameters)
    }
}

/// What a model adapter wants handed back with the history.
#[derive(Debug, PartialEq, Eq)]
pub struct ModelContinuation {
    /// Versioned adapter-specific format; interpreted only by a matching adapter.
    pub format: String,
    pub payload: Json,
}

/// What a [`ModelContinuation`] holds.
#[verifier::ext_equal]
pub struct ModelContinuationView {
    pub format: Seq<char>,
    pub payload: JsonView,
}

impl DeepView for ModelContinuation {
    type V = ModelContinuationView;

    open spec fn deep_view(&self) -> Self::V {
        ModelContinuationView {
            format: self.format.deep_view(),
            payload: self.payload.deep_view(),
        }
    }
}

impl Replica for ModelContinuation {
    fn replica(&self) -> (r: Self) {
        ModelContinuation {
            format: self.format.replica(),
            payload: self.payload.replica(),
        }
    }
}

impl Clone for ModelContinuation {
    fn clone(&self) -> (r: Self)
        ensures
            r.deep_view() == self.deep_view(),
    {
        self.replica()
    }
}

/// A function call that the model asks for.
#[derive(Debug, PartialEq, Eq)]
pub struct ModelFunctionCall {
    pub call_id: String,
    pub name: String,
    pub arguments: Json,
}

/// What a [`ModelFunctionCall`] holds.
#[verifier::ext_equal]
pub struct ModelFunctionCallView {
    pub call_id: Seq<char>,
    pub name: Seq<char>,
    pub arguments: JsonView,
}

impl DeepView for ModelFunctionCall {
    type V = ModelFunctionCallView;

    open spec fn deep_view(&self) -> Self::V {
        ModelFunctionCallView {
            call_id: self.call_id.deep_view(),
            name: self.name.deep_view(),
            arguments: self.arguments.deep_view(),
        }
    }
}

impl Replica for ModelFunctionCall {
    fn replica(&self) -> (r: Self) {
        ModelFunctionCall {
            call_id: self.call_id.replica(),
            name: self.name.replica(),
            arguments: self.arguments.replica(),
        }
    }
}

impl Clone for ModelFunctionCall {
    fn clone(&self) -> (r: Self)
        ensures
            r.deep_view() == self.deep_view(),
    {
        self.replica()
    }
}

/// What a model answers.
#[derive(Debug, PartialEq, Eq)]
pub enum ModelResponse {
    Assistant {
        continuation: Option<ModelContinuation>,
        text: Option<String>,
        function_calls: Vec<ModelFunctionCall>,
    },
    AssistantMessage { text: String },
    FunctionCalls { calls: Vec<ModelFunctionCall> },
}

/// What a [`ModelResponse`] holds.
#[verifier::ext_equal]
pub enum ModelResponseView {
    Assistant {
        continuation: Option<ModelContinuationView>,
        text: Option<Seq<char>>,
        function_calls: Seq<ModelFunctionCallView>,
    },
    AssistantMessage { text: Seq<char> },
    FunctionCalls { calls: Seq<ModelFunctionCallView> },
}

impl DeepView for ModelResponse {
    type V = ModelResponseView;

    open spec fn deep_view(&self) -> Self::V {
        match self {
            ModelResponse::Assistant { continuation, text, function_calls } =>
                ModelResponseView::Assistant {
                continuation: continuation.deep_view(),
                text: text.deep_view(),
                function_calls: function_calls.deep_view(),
            },
            ModelResponse::AssistantMessage { text } => ModelResponseView::AssistantMessage {
                text: text.deep_view(),
            },
            ModelResponse::FunctionCalls { calls } => ModelResponseView::FunctionCalls {
                calls: calls.deep_view(),
            },
        }
    }
}

impl Replica for ModelResponse {
    fn replica(&self) -> (r: Self) {
        match self {
            ModelResponse::Assistant { continuation, text, function_calls } =>
                ModelResponse::Assistant {
                continuation: continuation.replica(),
                text: text.replica(),
                function_calls: function_calls.replica(),
            },
            ModelResponse::AssistantMessage { text } => ModelResponse::AssistantMessage {
                text: text.replica(),
            },
            ModelResponse::FunctionCalls { calls } => ModelResponse::FunctionCalls {
                calls: calls.replica(),
            },
        }
    }
}

impl Clone for ModelResponse {
    fn clone(&self) -> (r: Self)
        ensures
            r.deep_view() == self.deep_view(),
    {
        self.replica()
    }
}

/// What a model reports while it answers.
#[derive(Debug, PartialEq, Eq)]
pub enum ModelStreamEvent {
    /// One provider chunk with text or tool-call output, before the events that present it.
    OutputProgress,
    AssistantDelta { text: String },
    TokenUsage { usage: TokenUsage },
}

/// What a [`ModelStreamEvent`] holds.
#[verifier::ext_equal]
pub enum ModelStreamEventView {
    OutputProgress,
    AssistantDelta { text: Seq<char> },
    TokenUsage { usage: TokenUsage },
}

impl DeepView for ModelStreamEvent {
    type V = ModelStreamEventView;

    open spec fn deep_view(&self) -> Self::V {
        match self {
            ModelStreamEvent::OutputProgress => ModelStreamEventView::OutputProgress,
            ModelStreamEvent::AssistantDelta { text } => ModelStreamEventView::AssistantDelta {
                text: text.deep_view(),
            },
            ModelStreamEvent::TokenUsage { usage } => ModelStreamEventView::TokenUsage {
                usage: usage.deep_view(),
            },
        }
    }
}

impl Replica for ModelStreamEvent {
    fn replica(&self) -> (r: Self) {
        match self {
            ModelStreamEvent::OutputProgress => ModelStreamEvent::OutputProgress,
            ModelStreamEvent::AssistantDelta { text } => ModelStreamEvent::AssistantDelta {
                text: text.replica(),
            },
            ModelStreamEvent::TokenUsage { usage } => ModelStreamEvent::TokenUsage {
                usage: usage.replica(),
            },
        }
    }
}

impl Clone for ModelStreamEvent {
    fn clone(&self) -> (r: Self)
        ensures
            r.deep_view() == self.deep_view(),
    {
        self.replica()
    }
}

/// What a model is asked.
#[derive(Debug, PartialEq, Eq)]
pub struct ModelRequest {
    pub messages: Vec<ChatMessage>,
    pub functions: Vec<FunctionSpec>,
}

/// What a [`ModelRequest`] holds.
#[verifier::ext_equal]
pub struct ModelRequestView {
    pub messages: Seq<ChatMessageView>,
    pub functions: Seq<FunctionSpecView>,
}

impl DeepView for ModelRequest {
    type V = ModelRequestView;

    open spec fn deep_view(&self) -> Self::V {
        ModelRequestView {
            messages: self.messages.deep_view(),
            functions: self.functions.deep_view(),
        }
    }
}

impl Replica for ModelRequest {
    fn replica(&self) -> (r: Self) {
        ModelRequest {
            messages: self.messages.replica(),
            functions: self.functions.replica(),
        }
    }
}

impl Clone for ModelRequest {
    fn clone(&self) -> (r: Self)
        ensures
            r.deep_view() == self.deep_view(),
    {
        self.replica()
    }
}

/// Which model a client talks to.
#[derive(Debug, PartialEq, Eq)]
pub struct ModelDescriptor {
    pub fqn: String,
    pub settings: Json,
}

/// What a [`ModelDescriptor`] holds.
#[verifier::ext_equal]
pub struct ModelDescriptorView {
    pub fqn: Seq<char>,
    pub settings: JsonView,
}

impl DeepView for ModelDescriptor {
    type V = ModelDescriptorView;

    open spec fn deep_view(&self) -> Self::V {
        ModelDescriptorView {
            fqn: self.fqn.deep_view(),
            settings: self.settings.deep_view(),
        }
    }
}

impl Replica for ModelDescriptor {
    fn replica(&self) -> (r: Self) {
        ModelDescriptor {
            fqn: self.fqn.replica(),
            settings: self.settings.replica(),
        }
    }
}

impl Clone for ModelDescriptor {
    fn clone(&self) -> (r: Self)
        ensures
            r.deep_view() == self.deep_view(),
    {
        self.replica()
    }
}

} // verus!
