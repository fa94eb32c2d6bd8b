//! Measurements of the runtime.

use crate::same::{Replica, Same};
use crate::time_span::TimeSpan;
use vstd::prelude::*;

verus! {

/// How a turn or a model request ended.
#[derive(Clone, Copy, Debug, PartialEq, Eq, Structural)]
pub enum MetricStatus {
    Completed,
    Suspended,
    Failed,
    Aborted,
}

impl DeepView for MetricStatus {
    type V = MetricStatus;

    open spec fn deep_view(&self) -> Self::V {
        *self
    }
}

impl Replica for MetricStatus {
    fn replica(&self) -> (r: Self) {
        *self
    }
}

impl Same for MetricStatus {
    fn same(&self, other: &Self) -> (r: bool) {
        *self == *other
    }
}

impl MetricStatus {
    /// The name under which the value is reported.
    pub open spec fn label(self) -> Seq<char> {
        match self {
            MetricStatus::Completed => "completed"@,
            MetricStatus::Suspended => "suspended"@,
            MetricStatus::Failed => "failed"@,
            MetricStatus::Aborted => "aborted"@,
        }
    }

    /// The name under which the value is reported.
    pub fn as_str(self) -> (r: &'static str)
        ensures
            r@ == self.label(),
    {
        match self {
            MetricStatus::Completed => "completed",
            MetricStatus::Suspended => "suspended",
            MetricStatus::Failed => "failed",
            MetricStatus::Aborted => "aborted",
        }
    }
}

/// How a function call ended.
#[derive(Clone, Copy, Debug, PartialEq, Eq, Structural)]
pub enum FunctionCallOutcome {
    Completed,
    Suspended,
    Failed,
    Aborted,
}

impl DeepView for FunctionCallOutcome {
    type V = FunctionCallOutcome;

    open spec fn deep_view(&self) -> Self::V {
        *self
    }
}

impl Replica for FunctionCallOutcome {
    fn replica(&self) -> (r: Self) {
        *self
    }
}

impl Same for FunctionCallOutcome {
    fn same(&self, other: &Self) -> (r: bool) {
        *self == *other
    }
}

impl FunctionCallOutcome {
    /// The name under which the value is reported.
    pub open spec fn label(self) -> Seq<char> {
        match self {
            FunctionCallOutcome::Completed => "completed"@,
            FunctionCallOutcome::Suspended => "suspended"@,
            FunctionCallOutcome::Failed => "failed"@,
            FunctionCallOutcome::Aborted => "aborted"@,
        }
    }

    /// The name under which the value is reported.
    pub fn as_str(self) -> (r: &'static str)
        ensures
            r@ == self.label(),
    {
        match self {
            FunctionCallOutcome::Completed => "completed",
            FunctionCallOutcome::Suspended => "suspended",
            FunctionCallOutcome::Failed => "failed",
            FunctionCallOutcome::Aborted => "aborted",
        }
    }
}

/// Why a function call was not carried out.
#[derive(Clone, Copy, Debug, PartialEq, Eq, Structural)]
pub enum FunctionCallSkipReason {
    MaxCallsPerTurn,
    PreviousFunctionSuspended,
    NonIdempotentRecovery,
    TurnAborted,
}

impl DeepView for FunctionCallSkipReason {
    type V = FunctionCallSkipReason;

    open spec fn deep_view(&self) -> Self::V {
        *self
    }
}

impl Replica for FunctionCallSkipReason {
    fn replica(&self) -> (r: Self) {
        *self
    }
}

impl Same for FunctionCallSkipReason {
    fn same(&self, other: &Self) -> (r: bool) {
        *self == *other
    }
}

impl FunctionCallSkipReason {
    /// The name under which the value is reported.
    pub open spec fn label(self) -> Seq<char> {
        match self {
            FunctionCallSkipReason::MaxCallsPerTurn => "max_calls_per_turn"@,
            FunctionCallSkipReason::PreviousFunctionSuspended => "previous_function_suspended"@,
            FunctionCallSkipReason::NonIdempotentRecovery => "non_idempotent_recovery"@,
            FunctionCallSkipReason::TurnAborted => "turn_aborted"@,
        }
    }

    /// The name under which the value is reported.
    pub fn as_str(self) -> (r: &'static str)
        ensures
            r@ == self.label(),
    {
        match self {
            FunctionCallSkipReason::MaxCallsPerTurn => "max_calls_per_turn",
            FunctionCallSkipReason::PreviousFunctionSuspended => "previous_function_suspended",
            FunctionCallSkipReason::NonIdempotentRecovery => "non_idempotent_recovery",
            FunctionCallSkipReason::TurnAborted => "turn_aborted",
        }
    }
}

/// A measurement of the runtime.
#[derive(Debug, PartialEq, Eq)]
pub enum RuntimeMetric {
    TurnFinished { status: MetricStatus, duration: TimeSpan, function_calls: usize },
    ModelRequestFinished { status: MetricStatus, duration: TimeSpan },
    FunctionCallFinished { name: String, outcome: FunctionCallOutcome, duration: TimeSpan },
    FunctionCallSkipped { name: String, reason: FunctionCallSkipReason },
    TimeToFirstToken { duration: TimeSpan },
    ModelStreamingThroughput { output_tokens: u64, streaming_duration: TimeSpan },
    ModelInterChunkLatency { duration: TimeSpan },
    TokenUsage {
        input_tokens: u64,
        cached_input_tokens: u64,
        output_tokens: u64,
        total_tokens: u64,
    },
}

/// What a [`RuntimeMetric`] holds.
#[verifier::ext_equal]
pub enum RuntimeMetricView {
    TurnFinished { status: MetricStatus, duration: nat, function_calls: usize },
    ModelRequestFinished { status: MetricStatus, duration: nat },
    FunctionCallFinished { name: Seq<char>, outcome: FunctionCallOutcome, duration: nat },
    FunctionCallSkipped { name: Seq<char>, reason: FunctionCallSkipReason },
    TimeToFirstToken { duration: nat },
    ModelStreamingThroughput { output_tokens: u64, streaming_duration: nat },
    ModelInterChunkLatency { duration: nat },
    TokenUsage {
        input_tokens: u64,
        cached_input_tokens: u64,
        output_tokens: u64,
        total_tokens: u64,
    },
}

impl DeepView for RuntimeMetric {
    type V = RuntimeMetricView;

    open spec fn deep_view(&self) -> Self::V {
        match self {
            RuntimeMetric::TurnFinished { status, duration, function_calls } =>
                RuntimeMetricView::TurnFinished {
                status: status.deep_view(),
                duration: duration.deep_view(),
                function_calls: function_calls.deep_view(),
            },
            RuntimeMetric::ModelRequestFinished { status, duration } =>
                RuntimeMetricView::ModelRequestFinished {
                status: status.deep_view(),
                duration: duration.deep_view(),
            },
            RuntimeMetric::FunctionCallFinished { name, outcome, duration } =>
                RuntimeMetricView::FunctionCallFinished {
                name: name.deep_view(),
                outcome: outcome.deep_view(),
                duration: duration.deep_view(),
            },
            RuntimeMetric::FunctionCallSkipped { name, reason } =>
                RuntimeMetricView::FunctionCallSkipped {
                name: name.deep_view(),
                reason: reason.deep_view(),
            },
            RuntimeMetric::TimeToFirstToken { duration } => RuntimeMetricView::TimeToFirstToken {
                duration: duration.deep_view(),
            },
            RuntimeMetric::ModelStreamingThroughput { output_tokens, streaming_duration } =>
                RuntimeMetricView::ModelStreamingThroughput {
                output_tokens: output_tokens.deep_view(),
                streaming_duration: streaming_duration.deep_view(),
            },
            RuntimeMetric::ModelInterChunkLatency { duration } =>
                RuntimeMetricView::ModelInterChunkLatency {
                duration: duration.deep_view(),
            },
            RuntimeMetric::TokenUsage {
                input_tokens,
                cached_input_tokens,
                output_tokens,
                total_tokens,
            } =>
                RuntimeMetricView::TokenUsage {
                input_tokens: input_tokens.deep_view(),
                cached_input_tokens: cached_input_tokens.deep_view(),
                output_tokens: output_tokens.deep_view(),
                total_tokens: total_tokens.deep_view(),
            },
        }
    }
}

impl Replica for RuntimeMetric {
    fn replica(&self) -> (r: Self) {
        match self {
            RuntimeMetric::TurnFinished { status, duration, function_calls } =>
                RuntimeMetric::TurnFinished {
                status: status.replica(),
                duration: duration.replica(),
                function_calls: function_calls.replica(),
            },
            RuntimeMetric::ModelRequestFinished { status, duration } =>
                RuntimeMetric::ModelRequestFinished {
                status: status.replica(),
                duration: duration.replica(),
            },
            RuntimeMetric::FunctionCallFinished { name, outcome, duration } =>
                RuntimeMetric::FunctionCallFinished {
                name: name.replica(),
                outcome: outcome.replica(),
                duration: duration.replica(),
            },
            RuntimeMetric::FunctionCallSkipped { name, reason } =>
                RuntimeMetric::FunctionCallSkipped {
                name: name.replica(),
                reason: reason.replica(),
            },
            RuntimeMetric::TimeToFirstToken { duration } => RuntimeMetric::TimeToFirstToken {
                duration: duration.replica(),
            },
            RuntimeMetric::ModelStreamingThroughput { output_tokens, streaming_duration } =>
                RuntimeMetric::ModelStreamingThroughput {
                output_tokens: output_tokens.replica(),
                streaming_duration: streaming_duration.replica(),
            },
            RuntimeMetric::ModelInterChunkLatency { duration } =>
                RuntimeMetric::ModelInterChunkLatency {
                duration: duration.replica(),
            },
            RuntimeMetric::TokenUsage {
                input_tokens,
                cached_input_tokens,
                output_tokens,
                total_tokens,
            } =>
                RuntimeMetric::TokenUsage {
                input_tokens: input_tokens.replica(),
                cached_input_tokens: cached_input_tokens.replica(),
                output_tokens: output_tokens.replica(),
                total_tokens: total_tokens.replica(),
            },
        }
    }
}

impl Clone for RuntimeMetric {
    fn clone(&self) -> (r: Self)
        ensures
            r.deep_view() == self.deep_view(),
    {
        self.replica()
    }
}

/// Takes measurements of the runtime.
pub trait MetricsRecorder {
    fn record(&self, metric: RuntimeMetric);
}

/// Takes measurements and forgets them.
#[derive(Debug, Clone, Copy)]
pub struct NoopMetricsRecorder;

impl MetricsRecorder for NoopMetricsRecorder {
    fn record(&self, metric: RuntimeMetric) {
    }
}

} // verus!
