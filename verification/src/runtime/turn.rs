//! What a turn is told, what it reports and how it ends.

use crate::json::{Json, JsonView};
use crate::kernel::events::{
    capped_sum, Suspension, SuspensionView, TokenUsage, ToolResult, ToolResultView,
};
use crate::kernel::model::{ModelFunctionCall, ModelFunctionCallView};
use crate::kernel::projection::{ThreadProjection, ThreadProjectionView};
use crate::runtime::functions::FunctionRecoveryPolicy;
use crate::runtime::metrics::{RuntimeMetric, RuntimeMetricView};
use crate::same::{Replica, Same};
use vstd::prelude::*;

verus! {

/// How much a turn may do.
#[derive(Clone, Copy, Debug, PartialEq, Eq, Structural)]
pub struct TurnExecutionLimits {
    pub max_model_iterations: usize,
    pub max_function_calls: usize,
}

impl DeepView for TurnExecutionLimits {
    type V = TurnExecutionLimits;

    open spec fn deep_view(&self) -> Self::V {
        *self
    }
}

impl Replica for TurnExecutionLimits {
    fn replica(&self) -> (r: Self) {
        *self
    }
}

impl Same for TurnExecutionLimits {
    fn same(&self, other: &Self) -> (r: bool) {
        *self == *other
    }
}

/// How an agent is set up.
#[derive(Debug, PartialEq, Eq)]
pub struct AgentConfig {
    pub turn_execution_limits: TurnExecutionLimits,
    pub system_prompt: String,
}

/// What an [`AgentConfig`] holds.
#[verifier::ext_equal]
pub struct AgentConfigView {
    pub turn_execution_limits: TurnExecutionLimits,
    pub system_prompt: Seq<char>,
}

impl DeepView for AgentConfig {
    type V = AgentConfigView;

    open spec fn deep_view(&self) -> Self::V {
        AgentConfigView {
            turn_execution_limits: self.turn_execution_limits.deep_view(),
            system_prompt: self.system_prompt.deep_view(),
        }
    }
}

impl Replica for AgentConfig {
    fn replica(&self) -> (r: Self) {
        AgentConfig {
            turn_execution_limits: self.turn_execution_limits.replica(),
            system_prompt: self.system_prompt.replica(),
        }
    }
}

impl Clone for AgentConfig {
    fn clone(&self) -> (r: Self)
        ensures
            r.deep_view() == self.deep_view(),
    {
        self.replica()
    }
}

/// How a turn ended.
#[derive(Debug, PartialEq, Eq)]
pub enum TurnOutcome {
    AssistantMessage { text: String },
    Suspended { suspension: Suspension },
    Failed { error: String },
    Aborted { reason: String },
}

/// What a [`TurnOutcome`] holds.
#[verifier::ext_equal]
pub enum TurnOutcomeView {
    AssistantMessage { text: Seq<char> },
    Suspended { suspension: SuspensionView },
    Failed { error: Seq<char> },
    Aborted { reason: Seq<char> },
}

impl DeepView for TurnOutcome {
    type V = TurnOutcomeView;

    open spec fn deep_view(&self) -> Self::V {
        match self {
            TurnOutcome::AssistantMessage { text } => TurnOutcomeView::AssistantMessage {
                text: text.deep_view(),
            },
            TurnOutcome::Suspended { suspension } => TurnOutcomeView::Suspended {
                suspension: suspension.deep_view(),
            },
            TurnOutcome::Failed { error } => TurnOutcomeView::Failed {
                error: error.deep_view(),
            },
            TurnOutcome::Aborted { reason } => TurnOutcomeView::Aborted {
                reason: reason.deep_view(),
            },
        }
    }
}

impl Replica for TurnOutcome {
    fn replica(&self) -> (r: Self) {
        match self {
            TurnOutcome::AssistantMessage { text } => TurnOutcome::AssistantMessage {
                text: text.replica(),
            },
            TurnOutcome::Suspended { suspension } => TurnOutcome::Suspended {
                suspension: suspension.replica(),
            },
            TurnOutcome::Failed { error } => TurnOutcome::Failed {
                error: error.replica(),
            },
            TurnOutcome::Aborted { reason } => TurnOutcome::Aborted {
                reason: reason.replica(),
            },
        }
    }
}

impl Clone for TurnOutcome {
    fn clone(&self) -> (r: Self)
        ensures
            r.deep_view() == self.deep_view(),
    {
        self.replica()
    }
}

/// A change of state of a turn.
#[derive(Debug, PartialEq, Eq)]
pub enum TurnStateEvent {
    TurnStarted { thread_id: String, turn_id: String },
    FunctionCallsRequested { calls: Vec<ModelFunctionCall> },
    FunctionStarted { call_id: String, name: String },
    FunctionCompleted { call_id: String, name: String },
    FunctionFailed { call_id: String, name: String, error: String },
    Suspended { suspension: Suspension },
    TurnFinished { outcome: TurnOutcome },
    TurnFailed { error: String },
    TurnAborted { reason: String },
    TurnTokenUsage { usage: TokenUsage },
}

/// What a [`TurnStateEvent`] holds.
#[verifier::ext_equal]
pub enum TurnStateEventView {
    TurnStarted { thread_id: Seq<char>, turn_id: Seq<char> },
    FunctionCallsRequested { calls: Seq<ModelFunctionCallView> },
    FunctionStarted { call_id: Seq<char>, name: Seq<char> },
    FunctionCompleted { call_id: Seq<char>, name: Seq<char> },
    FunctionFailed { call_id: Seq<char>, name: Seq<char>, error: Seq<char> },
    Suspended { suspension: SuspensionView },
    TurnFinished { outcome: TurnOutcomeView },
    TurnFailed { error: Seq<char> },
    TurnAborted { reason: Seq<char> },
    TurnTokenUsage { usage: TokenUsage },
}

impl DeepView for TurnStateEvent {
    type V = TurnStateEventView;

    open spec fn deep_view(&self) -> Self::V {
        match self {
            TurnStateEvent::TurnStarted { thread_id, turn_id } => TurnStateEventView::TurnStarted {
                thread_id: thread_id.deep_view(),
                turn_id: turn_id.deep_view(),
            },
            TurnStateEvent::FunctionCallsRequested { calls } =>
                TurnStateEventView::FunctionCallsRequested {
                calls: calls.deep_view(),
            },
            TurnStateEvent::FunctionStarted { call_id, name } =>
                TurnStateEventView::FunctionStarted {
                call_id: call_id.deep_view(),
                name: name.deep_view(),
            },
            TurnStateEvent::FunctionCompleted { call_id, name } =>
                TurnStateEventView::FunctionCompleted {
                call_id: call_id.deep_view(),
                name: name.deep_view(),
            },
            TurnStateEvent::FunctionFailed { call_id, name, error } =>
                TurnStateEventView::FunctionFailed {
                call_id: call_id.deep_view(),
                name: name.deep_view(),
                error: error.deep_view(),
            },
            TurnStateEvent::Suspended { suspension } => TurnStateEventView::Suspended {
                suspension: suspension.deep_view(),
            },
            TurnStateEvent::TurnFinished { outcome } => TurnStateEventView::TurnFinished {
                outcome: outcome.deep_view(),
            },
            TurnStateEvent::TurnFailed { error } => TurnStateEventView::TurnFailed {
                error: error.deep_view(),
            },
            TurnStateEvent::TurnAborted { reason } => TurnStateEventView::TurnAborted {
                reason: reason.deep_view(),
            },
            TurnStateEvent::TurnTokenUsage { usage } => TurnStateEventView::TurnTokenUsage {
                usage: usage.deep_view(),
            },
        }
    }
}

impl Replica for TurnStateEvent {
    fn replica(&self) -> (r: Self) {
        match self {
            TurnStateEvent::TurnStarted { thread_id, turn_id } => TurnStateEvent::TurnStarted {
                thread_id: thread_id.replica(),
                turn_id: turn_id.replica(),
            },
            TurnStateEvent::FunctionCallsRequested { calls } =>
                TurnStateEvent::FunctionCallsRequested {
                calls: calls.replica(),
            },
            TurnStateEvent::FunctionStarted { call_id, name } => TurnStateEvent::FunctionStarted {
                call_id: call_id.replica(),
                name: name.replica(),
            },
            TurnStateEvent::FunctionCompleted { call_id, name } =>
                TurnStateEvent::FunctionCompleted {
                call_id: call_id.replica(),
                name: name.replica(),
            },
            TurnStateEvent::FunctionFailed { call_id, name, error } =>
                TurnStateEvent::FunctionFailed {
                call_id: call_id.replica(),
                name: name.replica(),
                error: error.replica(),
            },
            TurnStateEvent::Suspended { suspension } => TurnStateEvent::Suspended {
                suspension: suspension.replica(),
            },
            TurnStateEvent::TurnFinished { outcome } => TurnStateEvent::TurnFinished {
                outcome: outcome.replica(),
            },
            TurnStateEvent::TurnFailed { error } => TurnStateEvent::TurnFailed {
                error: error.replica(),
            },
            TurnStateEvent::TurnAborted { reason } => TurnStateEvent::TurnAborted {
                reason: reason.replica(),
            },
            TurnStateEvent::TurnTokenUsage { usage } => TurnStateEvent::TurnTokenUsage {
                usage: usage.replica(),
            },
        }
    }
}

impl Clone for TurnStateEvent {
    fn clone(&self) -> (r: Self)
        ensures
            r.deep_view() == self.deep_view(),
    {
        self.replica()
    }
}

/// What a turn hears from the model.
#[derive(Debug, PartialEq, Eq)]
pub enum TurnModelEvent {
    RequestStarted { iteration: usize },
    AssistantMessage { text: String },
    AssistantDelta { text: String },
}

/// What a [`TurnModelEvent`] holds.
#[verifier::ext_equal]
pub enum TurnModelEventView {
    RequestStarted { iteration: usize },
    AssistantMessage { text: Seq<char> },
    AssistantDelta { text: Seq<char> },
}

impl DeepView for TurnModelEvent {
    type V = TurnModelEventView;

    open spec fn deep_view(&self) -> Self::V {
        match self {
            TurnModelEvent::RequestStarted { iteration } => TurnModelEventView::RequestStarted {
                iteration: iteration.deep_view(),
            },
            TurnModelEvent::AssistantMessage { text } => TurnModelEventView::AssistantMessage {
                text: text.deep_view(),
            },
            TurnModelEvent::AssistantDelta { text } => TurnModelEventView::AssistantDelta {
                text: text.deep_view(),
            },
        }
    }
}

impl Replica for TurnModelEvent {
    fn replica(&self) -> (r: Self) {
        match self {
            TurnModelEvent::RequestStarted { iteration } => TurnModelEvent::RequestStarted {
                iteration: iteration.replica(),
            },
            TurnModelEvent::AssistantMessage { text } => TurnModelEvent::AssistantMessage {
                text: text.replica(),
            },
            TurnModelEvent::AssistantDelta { text } => TurnModelEvent::AssistantDelta {
                text: text.replica(),
            },
        }
    }
}

impl Clone for TurnModelEvent {
    fn clone(&self) -> (r: Self)
        ensures
            r.deep_view() == self.deep_view(),
    {
        self.replica()
    }
}

/// A message of the runtime itself.
#[derive(Debug, PartialEq, Eq)]
pub struct RuntimeEvent {
    pub source: String,
    pub message: String,
    pub metadata: Json,
}

/// What a [`RuntimeEvent`] holds.
#[verifier::ext_equal]
pub struct RuntimeEventView {
    pub source: Seq<char>,
    pub message: Seq<char>,
    pub metadata: JsonView,
}

impl DeepView for RuntimeEvent {
    type V = RuntimeEventView;

    open spec fn deep_view(&self) -> Self::V {
        RuntimeEventView {
            source: self.source.deep_view(),
            message: self.message.deep_view(),
            metadata: self.metadata.deep_view(),
        }
    }
}

impl Replica for RuntimeEvent {
    fn replica(&self) -> (r: Self) {
        RuntimeEvent {
            source: self.source.replica(),
            message: self.message.replica(),
            metadata: self.metadata.replica(),
        }
    }
}

impl Clone for RuntimeEvent {
    fn clone(&self) -> (r: Self)
        ensures
            r.deep_view() == self.deep_view(),
    {
        self.replica()
    }
}

/// What a turn reports while it runs.
#[derive(Debug, PartialEq, Eq)]
pub enum TurnStreamEvent {
    State(TurnStateEvent),
    Model(TurnModelEvent),
    Runtime(RuntimeEvent),
}

/// What a [`TurnStreamEvent`] holds.
#[verifier::ext_equal]
pub enum TurnStreamEventView {
    State(TurnStateEventView),
    Model(TurnModelEventView),
    Runtime(RuntimeEventView),
}

impl DeepView for TurnStreamEvent {
    type V = TurnStreamEventView;

    open spec fn deep_view(&self) -> Self::V {
        match self {
            TurnStreamEvent::State(value) => TurnStreamEventView::State(value.deep_view()),
            TurnStreamEvent::Model(value) => TurnStreamEventView::Model(value.deep_view()),
            TurnStreamEvent::Runtime(value) => TurnStreamEventView::Runtime(value.deep_view()),
        }
    }
}

impl Replica for TurnStreamEvent {
    fn replica(&self) -> (r: Self) {
        match self {
            TurnStreamEvent::State(value) => TurnStreamEvent::State(value.replica()),
            TurnStreamEvent::Model(value) => TurnStreamEvent::Model(value.replica()),
            TurnStreamEvent::Runtime(value) => TurnStreamEvent::Runtime(value.replica()),
        }
    }
}

impl Clone for TurnStreamEvent {
    fn clone(&self) -> (r: Self)
        ensures
            r.deep_view() == self.deep_view(),
    {
        self.replica()
    }
}

/// How a traced turn ended.
#[derive(Clone, Copy, Debug, PartialEq, Eq, Structural)]
pub enum TraceTurnStatus {
    Completed,
    Suspended,
    Failed,
    Aborted,
}

impl DeepView for TraceTurnStatus {
    type V = TraceTurnStatus;

    open spec fn deep_view(&self) -> Self::V {
        *self
    }
}

impl Replica for TraceTurnStatus {
    fn replica(&self) -> (r: Self) {
        *self
    }
}

impl Same for TraceTurnStatus {
    fn same(&self, other: &Self) -> (r: bool) {
        *self == *other
    }
}

/// What a trace of a turn records.
#[derive(Debug, PartialEq, Eq)]
pub enum TraceEventKind {
    UserInput { text: String, response_to: Option<String> },
    ModelResponse { text: Option<String>, function_calls: Vec<ModelFunctionCall> },
    FunctionCall { call_id: String, name: String, arguments: Json },
    ToolOutput { call_id: String, name: String, result: ToolResult },
    SuspensionCreated { suspension: Suspension },
    RecoveryStarted { call_id: String, name: String, attempt: u32, policy: FunctionRecoveryPolicy },
    TurnFinished { status: TraceTurnStatus },
}

/// What a [`TraceEventKind`] holds.
#[verifier::ext_equal]
pub enum TraceEventKindView {
    UserInput { text: Seq<char>, response_to: Option<Seq<char>> },
    ModelResponse { text: Option<Seq<char>>, function_calls: Seq<ModelFunctionCallView> },
    FunctionCall { call_id: Seq<char>, name: Seq<char>, arguments: JsonView },
    ToolOutput { call_id: Seq<char>, name: Seq<char>, result: ToolResultView },
    SuspensionCreated { suspension: SuspensionView },
    RecoveryStarted {
        call_id: Seq<char>,
        name: Seq<char>,
        attempt: u32,
        policy: FunctionRecoveryPolicy,
    },
    TurnFinished { status: TraceTurnStatus },
}

impl DeepView for TraceEventKind {
    type V = TraceEventKindView;

    open spec fn deep_view(&self) -> Self::V {
        match self {
            TraceEventKind::UserInput { text, response_to } => TraceEventKindView::UserInput {
                text: text.deep_view(),
                response_to: response_to.deep_view(),
            },
            TraceEventKind::ModelResponse { text, function_calls } =>
                TraceEventKindView::ModelResponse {
                text: text.deep_view(),
                function_calls: function_calls.deep_view(),
            },
            TraceEventKind::FunctionCall { call_id, name, arguments } =>
                TraceEventKindView::FunctionCall {
                call_id: call_id.deep_view(),
                name: name.deep_view(),
                arguments: arguments.deep_view(),
            },
            TraceEventKind::ToolOutput { call_id, name, result } => TraceEventKindView::ToolOutput {
                call_id: call_id.deep_view(),
                name: name.deep_view(),
                result: result.deep_view(),
            },
            TraceEventKind::SuspensionCreated { suspension } =>
                TraceEventKindView::SuspensionCreated {
                suspension: suspension.deep_view(),
            },
            TraceEventKind::RecoveryStarted { call_id, name, attempt, policy } =>
                TraceEventKindView::RecoveryStarted {
                call_id: call_id.deep_view(),
                name: name.deep_view(),
                attempt: attempt.deep_view(),
                policy: policy.deep_view(),
            },
            TraceEventKind::TurnFinished { status } => TraceEventKindView::TurnFinished {
                status: status.deep_view(),
            },
        }
    }
}

impl Replica for TraceEventKind {
    fn replica(&self) -> (r: Self) {
        match self {
            TraceEventKind::UserInput { text, response_to } => TraceEventKind::UserInput {
                text: text.replica(),
                response_to: response_to.replica(),
            },
            TraceEventKind::ModelResponse { text, function_calls } =>
                TraceEventKind::ModelResponse {
                text: text.replica(),
                function_calls: function_calls.replica(),
            },
            TraceEventKind::FunctionCall { call_id, name, arguments } =>
                TraceEventKind::FunctionCall {
                call_id: call_id.replica(),
                name: name.replica(),
                arguments: arguments.replica(),
            },
            TraceEventKind::ToolOutput { call_id, name, result } => TraceEventKind::ToolOutput {
                call_id: call_id.replica(),
                name: name.replica(),
                result: result.replica(),
            },
            TraceEventKind::SuspensionCreated { suspension } => TraceEventKind::SuspensionCreated {
                suspension: suspension.replica(),
            },
            TraceEventKind::RecoveryStarted { call_id, name, attempt, policy } =>
                TraceEventKind::RecoveryStarted {
                call_id: call_id.replica(),
                name: name.replica(),
                attempt: attempt.replica(),
                policy: policy.replica(),
            },
            TraceEventKind::TurnFinished { status } => TraceEventKind::TurnFinished {
                status: status.replica(),
            },
        }
    }
}

impl Clone for TraceEventKind {
    fn clone(&self) -> (r: Self)
        ensures
            r.deep_view() == self.deep_view(),
    {
        self.replica()
    }
}

/// What a hook is told about a function call.
#[derive(Debug, PartialEq, Eq)]
pub struct FunctionCallHookContext {
    pub thread_id: String,
    pub turn_id: String,
    pub call_id: String,
    pub name: String,
    pub arguments: Json,
    pub projection: ThreadProjection,
}

/// What a [`FunctionCallHookContext`] holds.
#[verifier::ext_equal]
pub struct FunctionCallHookContextView {
    pub thread_id: Seq<char>,
    pub turn_id: Seq<char>,
    pub call_id: Seq<char>,
    pub name: Seq<char>,
    pub arguments: JsonView,
    pub projection: ThreadProjectionView,
}

impl DeepView for FunctionCallHookContext {
    type V = FunctionCallHookContextView;

    open spec fn deep_view(&self) -> Self::V {
        FunctionCallHookContextView {
            thread_id: self.thread_id.deep_view(),
            turn_id: self.turn_id.deep_view(),
            call_id: self.call_id.deep_view(),
            name: self.name.deep_view(),
            arguments: self.arguments.deep_view(),
            projection: self.projection.deep_view(),
        }
    }
}

impl Replica for FunctionCallHookContext {
    fn replica(&self) -> (r: Self) {
        FunctionCallHookContext {
            thread_id: self.thread_id.replica(),
            turn_id: self.turn_id.replica(),
            call_id: self.call_id.replica(),
            name: self.name.replica(),
            arguments: self.arguments.replica(),
            projection: self.projection.replica(),
        }
    }
}

impl Clone for FunctionCallHookContext {
    fn clone(&self) -> (r: Self)
        ensures
            r.deep_view() == self.deep_view(),
    {
        self.replica()
    }
}

/// What a hook is told about the end of a function call.
#[derive(Debug, PartialEq, Eq)]
pub enum FunctionCallHookResult {
    Completed { output: Json },
    Suspended { suspension: Suspension, output: Json },
    Failed { error: String },
}

/// What a [`FunctionCallHookResult`] holds.
#[verifier::ext_equal]
pub enum FunctionCallHookResultView {
    Completed { output: JsonView },
    Suspended { suspension: SuspensionView, output: JsonView },
    Failed { error: Seq<char> },
}

impl DeepView for FunctionCallHookResult {
    type V = FunctionCallHookResultView;

    open spec fn deep_view(&self) -> Self::V {
        match self {
            FunctionCallHookResult::Completed { output } => FunctionCallHookResultView::Completed {
                output: output.deep_view(),
            },
            FunctionCallHookResult::Suspended { suspension, output } =>
                FunctionCallHookResultView::Suspended {
                suspension: suspension.deep_view(),
                output: output.deep_view(),
            },
            FunctionCallHookResult::Failed { error } => FunctionCallHookResultView::Failed {
                error: error.deep_view(),
            },
        }
    }
}

impl Replica for FunctionCallHookResult {
    fn replica(&self) -> (r: Self) {
        match self {
            FunctionCallHookResult::Completed { output } => FunctionCallHookResult::Completed {
                output: output.replica(),
            },
            FunctionCallHookResult::Suspended { suspension, output } =>
                FunctionCallHookResult::Suspended {
                suspension: suspension.replica(),
                output: output.replica(),
            },
            FunctionCallHookResult::Failed { error } => FunctionCallHookResult::Failed {
                error: error.replica(),
            },
        }
    }
}

impl Clone for FunctionCallHookResult {
    fn clone(&self) -> (r: Self)
        ensures
            r.deep_view() == self.deep_view(),
    {
        self.replica()
    }
}

/// Something a turn reports, in the order in which it happens.
#[derive(Debug, PartialEq, Eq)]
pub enum TurnEffect {
    Emit(TurnStreamEvent),
    Trace { sequence: u64, kind: TraceEventKind },
    Metric(RuntimeMetric),
}

/// What a [`TurnEffect`] holds.
#[verifier::ext_equal]
pub enum TurnEffectView {
    Emit(TurnStreamEventView),
    Trace { sequence: u64, kind: TraceEventKindView },
    Metric(RuntimeMetricView),
}

impl DeepView for TurnEffect {
    type V = TurnEffectView;

    open spec fn deep_view(&self) -> Self::V {
        match self {
            TurnEffect::Emit(value) => TurnEffectView::Emit(value.deep_view()),
            TurnEffect::Trace { sequence, kind } => TurnEffectView::Trace {
                sequence: sequence.deep_view(),
                kind: kind.deep_view(),
            },
            TurnEffect::Metric(value) => TurnEffectView::Metric(value.deep_view()),
        }
    }
}

impl Replica for TurnEffect {
    fn replica(&self) -> (r: Self) {
        match self {
            TurnEffect::Emit(value) => TurnEffect::Emit(value.replica()),
            TurnEffect::Trace { sequence, kind } => TurnEffect::Trace {
                sequence: sequence.replica(),
                kind: kind.replica(),
            },
            TurnEffect::Metric(value) => TurnEffect::Metric(value.replica()),
        }
    }
}

impl Clone for TurnEffect {
    fn clone(&self) -> (r: Self)
        ensures
            r.deep_view() == self.deep_view(),
    {
        self.replica()
    }
}

/// What a step of a turn reports, and the last sequence number of its trace.
#[derive(Debug, PartialEq, Eq)]
pub struct EffectLog {
    pub effects: Vec<TurnEffect>,
    pub sequence: u64,
}

/// What an [`EffectLog`] holds.
#[verifier::ext_equal]
pub struct EffectLogView {
    pub effects: Seq<TurnEffectView>,
    pub sequence: u64,
}

impl DeepView for EffectLog {
    type V = EffectLogView;

    open spec fn deep_view(&self) -> Self::V {
        EffectLogView {
            effects: self.effects.deep_view(),
            sequence: self.sequence.deep_view(),
        }
    }
}

impl Replica for EffectLog {
    fn replica(&self) -> (r: Self) {
        EffectLog {
            effects: self.effects.replica(),
            sequence: self.sequence.replica(),
        }
    }
}

impl Clone for EffectLog {
    fn clone(&self) -> (r: Self)
        ensures
            r.deep_view() == self.deep_view(),
    {
        self.replica()
    }
}

impl Default for TurnExecutionLimits {
    fn default() -> (r: Self)
        ensures
            r == (TurnExecutionLimits { max_model_iterations: 128, max_function_calls: 1024 }),
    {
        TurnExecutionLimits { max_model_iterations: 128, max_function_calls: 1024 }
    }
}

impl Default for AgentConfig {
    fn default() -> (r: Self)
        ensures
            r.deep_view() == (AgentConfigView {
                turn_execution_limits: TurnExecutionLimits {
                    max_model_iterations: 128,
                    max_function_calls: 1024,
                },
                system_prompt: "You are an agent runtime assistant. Use functions only when they are useful. Thread goal is explicit durable state. Turn items are factual append-only records. Ask the user when required information is missing."@,
            }),
    {
        AgentConfig {
            turn_execution_limits: TurnExecutionLimits::default(),
            system_prompt: "You are an agent runtime assistant. Use functions only when they are useful. Thread goal is explicit durable state. Turn items are factual append-only records. Ask the user when required information is missing.".to_owned(),
        }
    }
}

impl EffectLogView {
    /// With one more event.
    pub open spec fn emit(self, event: TurnStreamEventView) -> EffectLogView {
        EffectLogView { effects: self.effects.push(TurnEffectView::Emit(event)), ..self }
    }

    /// With one more change of state.
    pub open spec fn state(self, event: TurnStateEventView) -> EffectLogView {
        self.emit(TurnStreamEventView::State(event))
    }

    /// With one more measurement.
    pub open spec fn metric(self, metric: RuntimeMetricView) -> EffectLogView {
        EffectLogView { effects: self.effects.push(TurnEffectView::Metric(metric)), ..self }
    }

    /// With one more trace record, under the next sequence number.
    pub open spec fn trace(self, kind: TraceEventKindView) -> EffectLogView {
        let sequence = capped_sum(self.sequence, 1);
        EffectLogView {
            effects: self.effects.push(TurnEffectView::Trace { sequence, kind }),
            sequence,
        }
    }
}

/// A log without effects yet.
pub open spec fn empty_log(sequence: u64) -> EffectLogView {
    EffectLogView { effects: Seq::empty(), sequence }
}

impl EffectLog {
    /// A log without effects yet.
    pub fn new(sequence: u64) -> (r: Self)
        ensures
            r.deep_view() == empty_log(sequence),
    {
        let r = EffectLog { effects: Vec::new(), sequence };
        assert(r.effects.deep_view() =~= Seq::empty());
        r
    }

    /// Adds an event.
    pub fn emit(&mut self, event: TurnStreamEvent)
        ensures
            final(self).deep_view() == old(self).deep_view().emit(event.deep_view()),
    {
        let ghost before = self.effects.deep_view();
        self.effects.push(TurnEffect::Emit(event));
        assert(self.effects.deep_view() =~= before.push(TurnEffectView::Emit(event.deep_view())));
    }

    /// Adds a change of state.
    pub fn state(&mut self, event: TurnStateEvent)
        ensures
            final(self).deep_view() == old(self).deep_view().state(event.deep_view()),
    {
        self.emit(TurnStreamEvent::State(event));
    }

    /// Adds a measurement.
    pub fn metric(&mut self, metric: RuntimeMetric)
        ensures
            final(self).deep_view() == old(self).deep_view().metric(metric.deep_view()),
    {
        let ghost before = self.effects.deep_view();
        self.effects.push(TurnEffect::Metric(metric));
        assert(self.effects.deep_view() =~= before.push(TurnEffectView::Metric(metric.deep_view())));
    }

    /// Adds a trace record under the next sequence number.
    pub fn trace(&mut self, kind: TraceEventKind)
        ensures
            final(self).deep_view() == old(self).deep_view().trace(kind.deep_view()),
    {
        let ghost before = self.effects.deep_view();
        self.sequence = self.sequence.saturating_add(1);
        let sequence: u64 = self.sequence;
        self.effects.push(TurnEffect::Trace { sequence, kind });
        assert(self.effects.deep_view() =~= before.push(
            TurnEffectView::Trace { sequence, kind: kind.deep_view() },
        ));
    }
}

} // verus!
