//! Measurements as samples in families.

use crate::runtime::metrics::{RuntimeMetric, RuntimeMetricView};
use crate::same::{Replica, Same};
use crate::time_span::TimeSpan;
use crate::tools::web_search::{WebSearchMetric, WebSearchMetricView};
use vstd::prelude::*;

verus! {

/// How the samples of a family add up.
#[derive(Clone, Copy, Debug, PartialEq, Eq, Structural)]
pub enum FamilyKind {
    Counter,
    Histogram,
}

impl DeepView for FamilyKind {
    type V = FamilyKind;

    open spec fn deep_view(&self) -> Self::V {
        *self
    }
}

impl Replica for FamilyKind {
    fn replica(&self) -> (r: Self) {
        *self
    }
}

impl Same for FamilyKind {
    fn same(&self, other: &Self) -> (r: bool) {
        *self == *other
    }
}

/// Samples that are kept together.
#[derive(Debug, PartialEq, Eq)]
pub struct MetricFamily {
    pub name: String,
    pub help: String,
    pub kind: FamilyKind,
    pub labels: Vec<String>,
}

/// What a [`MetricFamily`] holds.
#[verifier::ext_equal]
pub struct MetricFamilyView {
    pub name: Seq<char>,
    pub help: Seq<char>,
    pub kind: FamilyKind,
    pub labels: Seq<Seq<char>>,
}

impl DeepView for MetricFamily {
    type V = MetricFamilyView;

    open spec fn deep_view(&self) -> Self::V {
        MetricFamilyView {
            name: self.name.deep_view(),
            help: self.help.deep_view(),
            kind: self.kind.deep_view(),
            labels: self.labels.deep_view(),
        }
    }
}

impl Replica for MetricFamily {
    fn replica(&self) -> (r: Self) {
        MetricFamily {
            name: self.name.replica(),
            help: self.help.replica(),
            kind: self.kind.replica(),
            labels: self.labels.replica(),
        }
    }
}

impl Clone for MetricFamily {
    fn clone(&self) -> (r: Self)
        ensures
            r.deep_view() == self.deep_view(),
    {
        self.replica()
    }
}

/// What was measured.
#[derive(Debug, PartialEq, Eq)]
pub enum SampleValue {
    /// So many more.
    Count(u64),
    /// A number.
    Number(u64),
    /// A time, in seconds.
    Seconds(TimeSpan),
    /// An amount per second of a time that is not zero.
    PerSecond { amount: u64, duration: TimeSpan },
}

/// What a [`SampleValue`] holds.
#[verifier::ext_equal]
pub enum SampleValueView {
    Count(u64),
    Number(u64),
    Seconds(nat),
    PerSecond { amount: u64, duration: nat },
}

impl DeepView for SampleValue {
    type V = SampleValueView;

    open spec fn deep_view(&self) -> Self::V {
        match self {
            SampleValue::Count(value) => SampleValueView::Count(value.deep_view()),
            SampleValue::Number(value) => SampleValueView::Number(value.deep_view()),
            SampleValue::Seconds(value) => SampleValueView::Seconds(value.deep_view()),
            SampleValue::PerSecond { amount, duration } => SampleValueView::PerSecond {
                amount: amount.deep_view(),
                duration: duration.deep_view(),
            },
        }
    }
}

impl Replica for SampleValue {
    fn replica(&self) -> (r: Self) {
        match self {
            SampleValue::Count(value) => SampleValue::Count(value.replica()),
            SampleValue::Number(value) => SampleValue::Number(value.replica()),
            SampleValue::Seconds(value) => SampleValue::Seconds(value.replica()),
            SampleValue::PerSecond { amount, duration } => SampleValue::PerSecond {
                amount: amount.replica(),
                duration: duration.replica(),
            },
        }
    }
}

impl Clone for SampleValue {
    fn clone(&self) -> (r: Self)
        ensures
            r.deep_view() == self.deep_view(),
    {
        self.replica()
    }
}

/// A measurement in a family.
#[derive(Debug, PartialEq, Eq)]
pub struct Sample {
    pub family: String,
    pub labels: Vec<String>,
    pub value: SampleValue,
}

/// What a [`Sample`] holds.
#[verifier::ext_equal]
pub struct SampleView {
    pub family: Seq<char>,
    pub labels: Seq<Seq<char>>,
    pub value: SampleValueView,
}

impl DeepView for Sample {
    type V = SampleView;

    open spec fn deep_view(&self) -> Self::V {
        SampleView {
            family: self.family.deep_view(),
            labels: self.labels.deep_view(),
            value: self.value.deep_view(),
        }
    }
}

impl Replica for Sample {
    fn replica(&self) -> (r: Self) {
        Sample {
            family: self.family.replica(),
            labels: self.labels.replica(),
            value: self.value.replica(),
        }
    }
}

impl Clone for Sample {
    fn clone(&self) -> (r: Self)
        ensures
            r.deep_view() == self.deep_view(),
    {
        self.replica()
    }
}

fn texts0() -> (r: Vec<String>)
    ensures
        r.deep_view() == Seq::<Seq<char>>::empty(),
{
    let r: Vec<String> = Vec::new();
    assert(r.deep_view() =~= Seq::<Seq<char>>::empty());
    r
}

fn texts1(a: &str) -> (r: Vec<String>)
    ensures
        r.deep_view() == seq![a@],
{
    let r: Vec<String> = vec![a.to_owned()];
    assert(r.deep_view() =~= seq![a@]);
    r
}

fn texts2(a: &str, b: &str) -> (r: Vec<String>)
    ensures
        r.deep_view() == seq![a@, b@],
{
    let r: Vec<String> = vec![a.to_owned(), b.to_owned()];
    assert(r.deep_view() =~= seq![a@, b@]);
    r
}

/// The families of the runtime.
pub open spec fn runtime_families() -> Seq<MetricFamilyView> {
    seq![
        MetricFamilyView {
            name: "canary_agent_turns_total"@,
            help: "Agent turn outcomes"@,
            kind: FamilyKind::Counter,
            labels: seq!["status"@],
        },
        MetricFamilyView {
            name: "canary_agent_turn_latency_seconds"@,
            help: "Agent turn latency"@,
            kind: FamilyKind::Histogram,
            labels: seq!["status"@],
        },
        MetricFamilyView {
            name: "canary_agent_function_calls_per_turn"@,
            help: "Function calls per turn"@,
            kind: FamilyKind::Histogram,
            labels: Seq::<Seq<char>>::empty(),
        },
        MetricFamilyView {
            name: "canary_agent_time_to_first_token_seconds"@,
            help: "Time to first streamed token"@,
            kind: FamilyKind::Histogram,
            labels: Seq::<Seq<char>>::empty(),
        },
        MetricFamilyView {
            name: "canary_agent_model_request_duration_seconds"@,
            help: "Model request duration"@,
            kind: FamilyKind::Histogram,
            labels: seq!["status"@],
        },
        MetricFamilyView {
            name: "canary_agent_model_streaming_output_tokens_per_second"@,
            help: "Streamed output tokens per second"@,
            kind: FamilyKind::Histogram,
            labels: Seq::<Seq<char>>::empty(),
        },
        MetricFamilyView {
            name: "canary_agent_model_inter_chunk_latency_seconds"@,
            help: "Time between streamed chunks"@,
            kind: FamilyKind::Histogram,
            labels: Seq::<Seq<char>>::empty(),
        },
        MetricFamilyView {
            name: "canary_agent_function_call_duration_seconds"@,
            help: "Function call duration"@,
            kind: FamilyKind::Histogram,
            labels: seq!["function"@, "status"@],
        },
        MetricFamilyView {
            name: "canary_agent_function_calls_skipped_total"@,
            help: "Skipped function calls"@,
            kind: FamilyKind::Counter,
            labels: seq!["function"@, "reason"@],
        },
        MetricFamilyView {
            name: "canary_agent_tokens_total"@,
            help: "Model token usage"@,
            kind: FamilyKind::Counter,
            labels: seq!["kind"@],
        },
    ]
}

/// The families of the runtime.
pub fn make_runtime_families() -> (r: Vec<MetricFamily>)
    ensures
        r.deep_view() == runtime_families(),
{
    let r: Vec<MetricFamily> = vec![
        MetricFamily {
            name: "canary_agent_turns_total".to_owned(),
            help: "Agent turn outcomes".to_owned(),
            kind: FamilyKind::Counter,
            labels: texts1("status"),
        },
        MetricFamily {
            name: "canary_agent_turn_latency_seconds".to_owned(),
            help: "Agent turn latency".to_owned(),
            kind: FamilyKind::Histogram,
            labels: texts1("status"),
        },
        MetricFamily {
            name: "canary_agent_function_calls_per_turn".to_owned(),
            help: "Function calls per turn".to_owned(),
            kind: FamilyKind::Histogram,
            labels: texts0(),
        },
        MetricFamily {
            name: "canary_agent_time_to_first_token_seconds".to_owned(),
            help: "Time to first streamed token".to_owned(),
            kind: FamilyKind::Histogram,
            labels: texts0(),
        },
        MetricFamily {
            name: "canary_agent_model_request_duration_seconds".to_owned(),
            help: "Model request duration".to_owned(),
            kind: FamilyKind::Histogram,
            labels: texts1("status"),
        },
        MetricFamily {
            name: "canary_agent_model_streaming_output_tokens_per_second".to_owned(),
            help: "Streamed output tokens per second".to_owned(),
            kind: FamilyKind::Histogram,
            labels: texts0(),
        },
        MetricFamily {
            name: "canary_agent_model_inter_chunk_latency_seconds".to_owned(),
            help: "Time between streamed chunks".to_owned(),
            kind: FamilyKind::Histogram,
            labels: texts0(),
        },
        MetricFamily {
            name: "canary_agent_function_call_duration_seconds".to_owned(),
            help: "Function call duration".to_owned(),
            kind: FamilyKind::Histogram,
            labels: texts2("function", "status"),
        },
        MetricFamily {
            name: "canary_agent_function_calls_skipped_total".to_owned(),
            help: "Skipped function calls".to_owned(),
            kind: FamilyKind::Counter,
            labels: texts2("function", "reason"),
        },
        MetricFamily {
            name: "canary_agent_tokens_total".to_owned(),
            help: "Model token usage".to_owned(),
            kind: FamilyKind::Counter,
            labels: texts1("kind"),
        },
    ];
    assert(r.deep_view() =~= runtime_families());
    r
}

/// The families of web searches.
pub open spec fn web_search_families() -> Seq<MetricFamilyView> {
    seq![
        MetricFamilyView {
            name: "canary_agent_web_searches_total"@,
            help: "Web search outcomes"@,
            kind: FamilyKind::Counter,
            labels: seq!["outcome"@],
        },
        MetricFamilyView {
            name: "canary_agent_web_search_duration_seconds"@,
            help: "Web search duration"@,
            kind: FamilyKind::Histogram,
            labels: seq!["outcome"@],
        },
        MetricFamilyView {
            name: "canary_agent_web_search_result_count"@,
            help: "Number of results returned by web search"@,
            kind: FamilyKind::Histogram,
            labels: seq!["outcome"@],
        },
        MetricFamilyView {
            name: "canary_agent_web_search_response_bytes"@,
            help: "Serialized web search response size"@,
            kind: FamilyKind::Histogram,
            labels: seq!["outcome"@],
        },
    ]
}

/// The families of web searches.
pub fn make_web_search_families() -> (r: Vec<MetricFamily>)
    ensures
        r.deep_view() == web_search_families(),
{
    let r: Vec<MetricFamily> = vec![
        MetricFamily {
            name: "canary_agent_web_searches_total".to_owned(),
            help: "Web search outcomes".to_owned(),
            kind: FamilyKind::Counter,
            labels: texts1("outcome"),
        },
        MetricFamily {
            name: "canary_agent_web_search_duration_seconds".to_owned(),
            help: "Web search duration".to_owned(),
            kind: FamilyKind::Histogram,
            labels: texts1("outcome"),
        },
        MetricFamily {
            name: "canary_agent_web_search_result_count".to_owned(),
            help: "Number of results returned by web search".to_owned(),
            kind: FamilyKind::Histogram,
            labels: texts1("outcome"),
        },
        MetricFamily {
            name: "canary_agent_web_search_response_bytes".to_owned(),
            help: "Serialized web search response size".to_owned(),
            kind: FamilyKind::Histogram,
            labels: texts1("outcome"),
        },
    ];
    assert(r.deep_view() =~= web_search_families());
    r
}

/// The families of commands.
pub open spec fn exec_command_families() -> Seq<MetricFamilyView> {
    seq![
        MetricFamilyView {
            name: "canary_agent_exec_commands_total"@,
            help: "Exec command outcomes"@,
            kind: FamilyKind::Counter,
            labels: seq!["outcome"@],
        },
        MetricFamilyView {
            name: "canary_agent_exec_command_duration_seconds"@,
            help: "Exec command duration"@,
            kind: FamilyKind::Histogram,
            labels: seq!["outcome"@],
        },
        MetricFamilyView {
            name: "canary_agent_exec_command_output_bytes"@,
            help: "Exec command output bytes"@,
            kind: FamilyKind::Histogram,
            labels: seq!["stream"@],
        },
        MetricFamilyView {
            name: "canary_agent_exec_command_output_truncated_total"@,
            help: "Exec command output truncations"@,
            kind: FamilyKind::Counter,
            labels: seq!["stream"@],
        },
    ]
}

/// The families of commands.
pub fn make_exec_command_families() -> (r: Vec<MetricFamily>)
    ensures
        r.deep_view() == exec_command_families(),
{
    let r: Vec<MetricFamily> = vec![
        MetricFamily {
            name: "canary_agent_exec_commands_total".to_owned(),
            help: "Exec command outcomes".to_owned(),
            kind: FamilyKind::Counter,
            labels: texts1("outcome"),
        },
        MetricFamily {
            name: "canary_agent_exec_command_duration_seconds".to_owned(),
            help: "Exec command duration".to_owned(),
            kind: FamilyKind::Histogram,
            labels: texts1("outcome"),
        },
        MetricFamily {
            name: "canary_agent_exec_command_output_bytes".to_owned(),
            help: "Exec command output bytes".to_owned(),
            kind: FamilyKind::Histogram,
            labels: texts1("stream"),
        },
        MetricFamily {
            name: "canary_agent_exec_command_output_truncated_total".to_owned(),
            help: "Exec command output truncations".to_owned(),
            kind: FamilyKind::Counter,
            labels: texts1("stream"),
        },
    ];
    assert(r.deep_view() =~= exec_command_families());
    r
}

/// The samples that a measurement of the runtime gives. A throughput over no time gives none.
pub open spec fn runtime_samples(metric: RuntimeMetricView) -> Seq<SampleView> {
    match metric {
        RuntimeMetricView::TurnFinished { status, duration, function_calls } => seq![
            SampleView {
                family: "canary_agent_turns_total"@,
                labels: seq![status.label()],
                value: SampleValueView::Count(1),
            },
            SampleView {
                family: "canary_agent_turn_latency_seconds"@,
                labels: seq![status.label()],
                value: SampleValueView::Seconds(duration),
            },
            SampleView {
                family: "canary_agent_function_calls_per_turn"@,
                labels: Seq::<Seq<char>>::empty(),
                value: SampleValueView::Number(function_calls as u64),
            },
        ],
        RuntimeMetricView::ModelRequestFinished { status, duration } => seq![
            SampleView {
                family: "canary_agent_model_request_duration_seconds"@,
                labels: seq![status.label()],
                value: SampleValueView::Seconds(duration),
            },
        ],
        RuntimeMetricView::FunctionCallFinished { name, outcome, duration } => seq![
            SampleView {
                family: "canary_agent_function_call_duration_seconds"@,
                labels: seq![name, outcome.label()],
                value: SampleValueView::Seconds(duration),
            },
        ],
        RuntimeMetricView::FunctionCallSkipped { name, reason } => seq![
            SampleView {
                family: "canary_agent_function_calls_skipped_total"@,
                labels: seq![name, reason.label()],
                value: SampleValueView::Count(1),
            },
        ],
        RuntimeMetricView::TimeToFirstToken { duration } => seq![
            SampleView {
                family: "canary_agent_time_to_first_token_seconds"@,
                labels: Seq::<Seq<char>>::empty(),
                value: SampleValueView::Seconds(duration),
            },
        ],
        RuntimeMetricView::ModelInterChunkLatency { duration } => seq![
            SampleView {
                family: "canary_agent_model_inter_chunk_latency_seconds"@,
                labels: Seq::<Seq<char>>::empty(),
                value: SampleValueView::Seconds(duration),
            },
        ],
        RuntimeMetricView::TokenUsage {
            input_tokens,
            cached_input_tokens,
            output_tokens,
            total_tokens,
        } =>
            seq![
            SampleView {
                family: "canary_agent_tokens_total"@,
                labels: seq!["input"@],
                value: SampleValueView::Count(input_tokens),
            },
            SampleView {
                family: "canary_agent_tokens_total"@,
                labels: seq!["cached_input"@],
                value: SampleValueView::Count(cached_input_tokens),
            },
            SampleView {
                family: "canary_agent_tokens_total"@,
                labels: seq!["output"@],
                value: SampleValueView::Count(output_tokens),
            },
            SampleView {
                family: "canary_agent_tokens_total"@,
                labels: seq!["total"@],
                value: SampleValueView::Count(total_tokens),
            },
        ],
        RuntimeMetricView::ModelStreamingThroughput { output_tokens, streaming_duration } => if streaming_duration
            == 0 {
            Seq::empty()
        } else {
            seq![
                SampleView {
                    family: "canary_agent_model_streaming_output_tokens_per_second"@,
                    labels: Seq::<Seq<char>>::empty(),
                    value: SampleValueView::PerSecond {
                        amount: output_tokens,
                        duration: streaming_duration,
                    },
                },
            ]
        },
    }
}

/// The samples that a measurement of the runtime gives.
pub fn make_runtime_samples(metric: &RuntimeMetric) -> (r: Vec<Sample>)
    ensures
        r.deep_view() == runtime_samples(metric.deep_view()),
{
    let r: Vec<Sample> = match metric {
        RuntimeMetric::TurnFinished { status, duration, function_calls } => vec![
            Sample {
                family: "canary_agent_turns_total".to_owned(),
                labels: texts1(status.as_str()),
                value: SampleValue::Count(1),
            },
            Sample {
                family: "canary_agent_turn_latency_seconds".to_owned(),
                labels: texts1(status.as_str()),
                value: SampleValue::Seconds(duration.replica()),
            },
            Sample {
                family: "canary_agent_function_calls_per_turn".to_owned(),
                labels: texts0(),
                value: SampleValue::Number(*function_calls as u64),
            },
        ],
        RuntimeMetric::ModelRequestFinished { status, duration } => vec![
            Sample {
                family: "canary_agent_model_request_duration_seconds".to_owned(),
                labels: texts1(status.as_str()),
                value: SampleValue::Seconds(duration.replica()),
            },
        ],
        RuntimeMetric::FunctionCallFinished { name, outcome, duration } => vec![
            Sample {
                family: "canary_agent_function_call_duration_seconds".to_owned(),
                labels: texts2(name.as_str(), outcome.as_str()),
                value: SampleValue::Seconds(duration.replica()),
            },
        ],
        RuntimeMetric::FunctionCallSkipped { name, reason } => vec![
            Sample {
                family: "canary_agent_function_calls_skipped_total".to_owned(),
                labels: texts2(name.as_str(), reason.as_str()),
                value: SampleValue::Count(1),
            },
        ],
        RuntimeMetric::TimeToFirstToken { duration } => vec![
            Sample {
                family: "canary_agent_time_to_first_token_seconds".to_owned(),
                labels: texts0(),
                value: SampleValue::Seconds(duration.replica()),
            },
        ],
        RuntimeMetric::ModelInterChunkLatency { duration } => vec![
            Sample {
                family: "canary_agent_model_inter_chunk_latency_seconds".to_owned(),
                labels: texts0(),
                value: SampleValue::Seconds(duration.replica()),
            },
        ],
        RuntimeMetric::TokenUsage {
            input_tokens,
            cached_input_tokens,
            output_tokens,
            total_tokens,
        } =>
            vec![
            Sample {
                family: "canary_agent_tokens_total".to_owned(),
                labels: texts1("input"),
                value: SampleValue::Count(*input_tokens),
            },
            Sample {
                family: "canary_agent_tokens_total".to_owned(),
                labels: texts1("cached_input"),
                value: SampleValue::Count(*cached_input_tokens),
            },
            Sample {
                family: "canary_agent_tokens_total".to_owned(),
                labels: texts1("output"),
                value: SampleValue::Count(*output_tokens),
            },
            Sample {
                family: "canary_agent_tokens_total".to_owned(),
                labels: texts1("total"),
                value: SampleValue::Count(*total_tokens),
            },
        ],
        RuntimeMetric::ModelStreamingThroughput { output_tokens, streaming_duration } => {
            if streaming_duration.is_zero() {
                Vec::new()
            } else {
                vec![
                    Sample {
                        family: "canary_agent_model_streaming_output_tokens_per_second".to_owned(),
                        labels: texts0(),
                        value: SampleValue::PerSecond {
                            amount: *output_tokens,
                            duration: streaming_duration.replica(),
                        },
                    },
                ]
            }
        },
    };
    assert(r.deep_view() =~= runtime_samples(metric.deep_view()));
    r
}

/// The samples that a measurement of a search gives.
pub open spec fn web_search_samples(metric: WebSearchMetricView) -> Seq<SampleView> {
    match metric {
        WebSearchMetricView::Finished { outcome, duration, result_count, response_bytes } => seq![
            SampleView {
                family: "canary_agent_web_searches_total"@,
                labels: seq![outcome.label()],
                value: SampleValueView::Count(1),
            },
            SampleView {
                family: "canary_agent_web_search_duration_seconds"@,
                labels: seq![outcome.label()],
                value: SampleValueView::Seconds(duration),
            },
            SampleView {
                family: "canary_agent_web_search_result_count"@,
                labels: seq![outcome.label()],
                value: SampleValueView::Number(result_count as u64),
            },
            SampleView {
                family: "canary_agent_web_search_response_bytes"@,
                labels: seq![outcome.label()],
                value: SampleValueView::Number(response_bytes as u64),
            },
        ],
    }
}

/// The samples that a measurement of a search gives.
pub fn make_web_search_samples(metric: &WebSearchMetric) -> (r: Vec<Sample>)
    ensures
        r.deep_view() == web_search_samples(metric.deep_view()),
{
    let r: Vec<Sample> = match metric {
        WebSearchMetric::Finished { outcome, duration, result_count, response_bytes } => vec![
            Sample {
                family: "canary_agent_web_searches_total".to_owned(),
                labels: texts1(outcome.as_str()),
                value: SampleValue::Count(1),
            },
            Sample {
                family: "canary_agent_web_search_duration_seconds".to_owned(),
                labels: texts1(outcome.as_str()),
                value: SampleValue::Seconds(duration.replica()),
            },
            Sample {
                family: "canary_agent_web_search_result_count".to_owned(),
                labels: texts1(outcome.as_str()),
                value: SampleValue::Number(*result_count as u64),
            },
            Sample {
                family: "canary_agent_web_search_response_bytes".to_owned(),
                labels: texts1(outcome.as_str()),
                value: SampleValue::Number(*response_bytes as u64),
            },
        ],
    };
    assert(r.deep_view() =~= web_search_samples(metric.deep_view()));
    r
}

/// What is measured of a command.
#[derive(Debug, PartialEq, Eq)]
pub enum ExecCommandMetric {
    Finished {
        outcome: String,
        duration: TimeSpan,
        stdout_bytes: usize,
        stderr_bytes: usize,
        stdout_truncated: bool,
        stderr_truncated: bool,
    },
}

/// What an [`ExecCommandMetric`] holds.
#[verifier::ext_equal]
pub enum ExecCommandMetricView {
    Finished {
        outcome: Seq<char>,
        duration: nat,
        stdout_bytes: usize,
        stderr_bytes: usize,
        stdout_truncated: bool,
        stderr_truncated: bool,
    },
}

impl DeepView for ExecCommandMetric {
    type V = ExecCommandMetricView;

    open spec fn deep_view(&self) -> Self::V {
        match self {
            ExecCommandMetric::Finished {
                outcome,
                duration,
                stdout_bytes,
                stderr_bytes,
                stdout_truncated,
                stderr_truncated,
            } =>
                ExecCommandMetricView::Finished {
                outcome: outcome.deep_view(),
                duration: duration.deep_view(),
                stdout_bytes: stdout_bytes.deep_view(),
                stderr_bytes: stderr_bytes.deep_view(),
                stdout_truncated: stdout_truncated.deep_view(),
                stderr_truncated: stderr_truncated.deep_view(),
            },
        }
    }
}

impl Replica for ExecCommandMetric {
    fn replica(&self) -> (r: Self) {
        match self {
            ExecCommandMetric::Finished {
                outcome,
                duration,
                stdout_bytes,
                stderr_bytes,
                stdout_truncated,
                stderr_truncated,
            } =>
                ExecCommandMetric::Finished {
                outcome: outcome.replica(),
                duration: duration.replica(),
                stdout_bytes: stdout_bytes.replica(),
                stderr_bytes: stderr_bytes.replica(),
                stdout_truncated: stdout_truncated.replica(),
                stderr_truncated: stderr_truncated.replica(),
            },
        }
    }
}

impl Clone for ExecCommandMetric {
    fn clone(&self) -> (r: Self)
        ensures
            r.deep_view() == self.deep_view(),
    {
        self.replica()
    }
}

/// One more truncation of a stream, where it was truncated.
pub open spec fn truncation_sample(stream: Seq<char>, truncated: bool) -> Seq<SampleView> {
    if truncated {
        seq![
            SampleView {
                family: "canary_agent_exec_command_output_truncated_total"@,
                labels: seq![stream],
                value: SampleValueView::Count(1),
            },
        ]
    } else {
        Seq::empty()
    }
}

/// The samples that a measurement of a command gives.
pub open spec fn exec_command_samples(metric: ExecCommandMetricView) -> Seq<SampleView> {
    match metric {
        ExecCommandMetricView::Finished {
            outcome,
            duration,
            stdout_bytes,
            stderr_bytes,
            stdout_truncated,
            stderr_truncated,
        } => seq![
            SampleView {
                family: "canary_agent_exec_commands_total"@,
                labels: seq![outcome],
                value: SampleValueView::Count(1),
            },
            SampleView {
                family: "canary_agent_exec_command_duration_seconds"@,
                labels: seq![outcome],
                value: SampleValueView::Seconds(duration),
            },
            SampleView {
                family: "canary_agent_exec_command_output_bytes"@,
                labels: seq!["stdout"@],
                value: SampleValueView::Number(stdout_bytes as u64),
            },
            SampleView {
                family: "canary_agent_exec_command_output_bytes"@,
                labels: seq!["stderr"@],
                value: SampleValueView::Number(stderr_bytes as u64),
            },
        ] + truncation_sample("stdout"@, stdout_truncated) + truncation_sample(
            "stderr"@,
            stderr_truncated,
        ),
    }
}

/// The samples that a measurement of a command gives.
pub fn make_exec_command_samples(metric: &ExecCommandMetric) -> (r: Vec<Sample>)
    ensures
        r.deep_view() == exec_command_samples(metric.deep_view()),
{
    match metric {
        ExecCommandMetric::Finished {
            outcome,
            duration,
            stdout_bytes,
            stderr_bytes,
            stdout_truncated,
            stderr_truncated,
        } => {
            let mut r: Vec<Sample> = vec![
                Sample {
                    family: "canary_agent_exec_commands_total".to_owned(),
                    labels: texts1(outcome.as_str()),
                    value: SampleValue::Count(1),
                },
                Sample {
                    family: "canary_agent_exec_command_duration_seconds".to_owned(),
                    labels: texts1(outcome.as_str()),
                    value: SampleValue::Seconds(duration.replica()),
                },
                Sample {
                    family: "canary_agent_exec_command_output_bytes".to_owned(),
                    labels: texts1("stdout"),
                    value: SampleValue::Number(*stdout_bytes as u64),
                },
                Sample {
                    family: "canary_agent_exec_command_output_bytes".to_owned(),
                    labels: texts1("stderr"),
                    value: SampleValue::Number(*stderr_bytes as u64),
                },
            ];
            let ghost start = r.deep_view();
            assert(start =~= exec_command_samples(metric.deep_view()).take(4));
            if *stdout_truncated {
                r.push(
                    Sample {
                        family: "canary_agent_exec_command_output_truncated_total".to_owned(),
                        labels: texts1("stdout"),
                        value: SampleValue::Count(1),
                    },
                );
            }
            assert(r.deep_view() =~= start + truncation_sample("stdout"@, *stdout_truncated));
            let ghost more = r.deep_view();
            if *stderr_truncated {
                r.push(
                    Sample {
                        family: "canary_agent_exec_command_output_truncated_total".to_owned(),
                        labels: texts1("stderr"),
                        value: SampleValue::Count(1),
                    },
                );
            }
            assert(r.deep_view() =~= more + truncation_sample("stderr"@, *stderr_truncated));
            assert(r.deep_view() =~= exec_command_samples(metric.deep_view()));
            r
        },
    }
}

/// A sample belongs to a family: it has its name and a value for each of its labels, and it counts
/// exactly where the family does.
pub open spec fn fits(sample: SampleView, family: MetricFamilyView) -> bool {
    &&& sample.family == family.name
    &&& sample.labels.len() == family.labels.len()
    &&& (sample.value is Count) == (family.kind == FamilyKind::Counter)
}

/// A sample belongs to one of the families.
pub open spec fn fits_one(sample: SampleView, families: Seq<MetricFamilyView>) -> bool {
    exists|i: int| 0 <= i < families.len() && fits(sample, #[trigger] families[i])
}

/// Every sample of the runtime belongs to one of its families.
pub proof fn law_runtime_samples_fit(metric: RuntimeMetricView)
    ensures
        forall|i: int|
            0 <= i < runtime_samples(metric).len() ==> fits_one(
                #[trigger] runtime_samples(metric)[i],
                runtime_families(),
            ),
{
    let families = runtime_families();
    let samples = runtime_samples(metric);
    assert forall|i: int| 0 <= i < samples.len() implies fits_one(#[trigger] samples[i], families) by {
        match metric {
            RuntimeMetricView::TurnFinished { .. } => {
                assert(i == 0 ==> fits(samples[0], families[0]));
                assert(i == 1 ==> fits(samples[1], families[1]));
                assert(i == 2 ==> fits(samples[2], families[2]));
            },
            RuntimeMetricView::ModelRequestFinished { .. } => {
                assert(i == 0 ==> fits(samples[0], families[4]));
            },
            RuntimeMetricView::FunctionCallFinished { .. } => {
                assert(i == 0 ==> fits(samples[0], families[7]));
            },
            RuntimeMetricView::FunctionCallSkipped { .. } => {
                assert(i == 0 ==> fits(samples[0], families[8]));
            },
            RuntimeMetricView::TimeToFirstToken { .. } => {
                assert(i == 0 ==> fits(samples[0], families[3]));
            },
            RuntimeMetricView::ModelInterChunkLatency { .. } => {
                assert(i == 0 ==> fits(samples[0], families[6]));
            },
            RuntimeMetricView::TokenUsage { .. } => {
                assert(i == 0 ==> fits(samples[0], families[9]));
                assert(i == 1 ==> fits(samples[1], families[9]));
                assert(i == 2 ==> fits(samples[2], families[9]));
                assert(i == 3 ==> fits(samples[3], families[9]));
            },
            RuntimeMetricView::ModelStreamingThroughput { .. } => {
                assert(i == 0 ==> fits(samples[0], families[5]));
            },
        }
    }
}

/// Every sample of a search belongs to one of the families of searches.
pub proof fn law_web_search_samples_fit(metric: WebSearchMetricView)
    ensures
        forall|i: int|
            0 <= i < web_search_samples(metric).len() ==> fits_one(
                #[trigger] web_search_samples(metric)[i],
                web_search_families(),
            ),
{
    let families = web_search_families();
    let samples = web_search_samples(metric);
    assert(fits(samples[0], families[0]));
    assert(fits(samples[1], families[1]));
    assert(fits(samples[2], families[2]));
    assert(fits(samples[3], families[3]));
}

/// Every sample of a command belongs to one of the families of commands.
pub proof fn law_exec_command_samples_fit(metric: ExecCommandMetricView)
    ensures
        forall|i: int|
            0 <= i < exec_command_samples(metric).len() ==> fits_one(
                #[trigger] exec_command_samples(metric)[i],
                exec_command_families(),
            ),
{
    let families = exec_command_families();
    let samples = exec_command_samples(metric);
    assert(fits(samples[0], families[0]));
    assert(fits(samples[1], families[1]));
    assert(fits(samples[2], families[2]));
    assert(fits(samples[3], families[2]));
    assert forall|i: int| 0 <= i < samples.len() implies fits_one(#[trigger] samples[i], families) by {
        if i >= 4 {
            assert(fits(samples[i], families[3]));
        }
    }
}

} // verus!
