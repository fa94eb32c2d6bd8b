//! What is recorded of a measurement.

use crate::observability::metrics::{
    exec_command_samples, runtime_samples, web_search_samples, ExecCommandMetricView, SampleValueView,
    SampleView,
};
use crate::runtime::metrics::{
    FunctionCallOutcome, FunctionCallSkipReason, MetricStatus, RuntimeMetricView,
};
use crate::tools::web_search::{WebSearchMetricView, WebSearchOutcome};
use vstd::prelude::*;

verus! {

/// A value is recorded in a family under labels.
pub open spec fn records(
    samples: Seq<SampleView>,
    family: Seq<char>,
    labels: Seq<Seq<char>>,
    value: SampleValueView,
) -> bool {
    exists|i: int|
        0 <= i < samples.len() && #[trigger] samples[i] == (SampleView { family, labels, value })
}

proof fn lemma_records(samples: Seq<SampleView>, i: int)
    requires
        0 <= i < samples.len(),
    ensures
        records(samples, samples[i].family, samples[i].labels, samples[i].value),
{
    assert(samples[i] == (SampleView {
        family: samples[i].family,
        labels: samples[i].labels,
        value: samples[i].value,
    }));
}

/// Of a turn it is recorded how it ended, how long it took and how many calls it made; of a request
/// and of a call how they ended and how long they took; of a skipped call why; of tokens how many of
/// each kind; of a stream its first token, its gaps and its rate, where it took any time. Nothing
/// else is recorded.
pub proof fn law_runtime_measurements_are_recorded(metric: RuntimeMetricView)
    ensures
        ({
            let samples = runtime_samples(metric);
            match metric {
                RuntimeMetricView::TurnFinished { status, duration, function_calls } => {
                    &&& samples.len() == 3
                    &&& records(
                        samples,
                        "canary_agent_turns_total"@,
                        seq![status.label()],
                        SampleValueView::Count(1),
                    )
                    &&& records(
                        samples,
                        "canary_agent_turn_latency_seconds"@,
                        seq![status.label()],
                        SampleValueView::Seconds(duration),
                    )
                    &&& records(
                        samples,
                        "canary_agent_function_calls_per_turn"@,
                        seq![],
                        SampleValueView::Number(function_calls as u64),
                    )
                },
                RuntimeMetricView::ModelRequestFinished { status, duration } => samples.len() == 1
                    && records(
                    samples,
                    "canary_agent_model_request_duration_seconds"@,
                    seq![status.label()],
                    SampleValueView::Seconds(duration),
                ),
                RuntimeMetricView::FunctionCallFinished { name, outcome, duration } =>
                    samples.len() == 1 && records(
                    samples,
                    "canary_agent_function_call_duration_seconds"@,
                    seq![name, outcome.label()],
                    SampleValueView::Seconds(duration),
                ),
                RuntimeMetricView::FunctionCallSkipped { name, reason } => samples.len() == 1
                    && records(
                    samples,
                    "canary_agent_function_calls_skipped_total"@,
                    seq![name, reason.label()],
                    SampleValueView::Count(1),
                ),
                RuntimeMetricView::TimeToFirstToken { duration } => samples.len() == 1 && records(
                    samples,
                    "canary_agent_time_to_first_token_seconds"@,
                    seq![],
                    SampleValueView::Seconds(duration),
                ),
                RuntimeMetricView::ModelInterChunkLatency { duration } => samples.len() == 1
                    && records(
                    samples,
                    "canary_agent_model_inter_chunk_latency_seconds"@,
                    seq![],
                    SampleValueView::Seconds(duration),
                ),
                RuntimeMetricView::ModelStreamingThroughput { output_tokens, streaming_duration } =>
                    if streaming_duration == 0 {
                    samples.len() == 0
                } else {
                    samples.len() == 1 && records(
                        samples,
                        "canary_agent_model_streaming_output_tokens_per_second"@,
                        seq![],
                        SampleValueView::PerSecond {
                            amount: output_tokens,
                            duration: streaming_duration,
                        },
                    )
                },
                RuntimeMetricView::TokenUsage {
                    input_tokens,
                    cached_input_tokens,
                    output_tokens,
                    total_tokens,
                } => {
                    let family = "canary_agent_tokens_total"@;
                    &&& samples.len() == 4
                    &&& records(
                        samples,
                        family,
                        seq!["input"@],
                        SampleValueView::Count(input_tokens),
                    )
                    &&& records(
                        samples,
                        family,
                        seq!["cached_input"@],
                        SampleValueView::Count(cached_input_tokens),
                    )
                    &&& records(
                        samples,
                        family,
                        seq!["output"@],
                        SampleValueView::Count(output_tokens),
                    )
                    &&& records(
                        samples,
                        family,
                        seq!["total"@],
                        SampleValueView::Count(total_tokens),
                    )
                },
            }
        }),
{
    let samples = runtime_samples(metric);
    if samples.len() > 0 {
        lemma_records(samples, 0);
    }
    if samples.len() > 2 {
        lemma_records(samples, 1);
        lemma_records(samples, 2);
    }
    if samples.len() > 3 {
        lemma_records(samples, 3);
    }
}

/// Of a search it is recorded how it ended, how long it took, how many results it gave and how long
/// its answer was.
pub proof fn law_searches_are_recorded(metric: WebSearchMetricView)
    ensures
        metric matches WebSearchMetricView::Finished {
            outcome,
            duration,
            result_count,
            response_bytes,
        } && {
            let samples = web_search_samples(metric);
            &&& samples.len() == 4
            &&& records(
                samples,
                "canary_agent_web_searches_total"@,
                seq![outcome.label()],
                SampleValueView::Count(1),
            )
            &&& records(
                samples,
                "canary_agent_web_search_duration_seconds"@,
                seq![outcome.label()],
                SampleValueView::Seconds(duration),
            )
            &&& records(
                samples,
                "canary_agent_web_search_result_count"@,
                seq![outcome.label()],
                SampleValueView::Number(result_count as u64),
            )
            &&& records(
                samples,
                "canary_agent_web_search_response_bytes"@,
                seq![outcome.label()],
                SampleValueView::Number(response_bytes as u64),
            )
        },
{
    let samples = web_search_samples(metric);
    lemma_records(samples, 0);
    lemma_records(samples, 1);
    lemma_records(samples, 2);
    lemma_records(samples, 3);
}

/// Of a command it is recorded how it ended, how long it took, how much it wrote to each stream, and
/// which streams were cut off.
pub proof fn law_commands_are_recorded(metric: ExecCommandMetricView)
    ensures
        metric matches ExecCommandMetricView::Finished {
            outcome,
            duration,
            stdout_bytes,
            stderr_bytes,
            stdout_truncated,
            stderr_truncated,
        } && {
            let samples = exec_command_samples(metric);
            let cut = "canary_agent_exec_command_output_truncated_total"@;
            &&& records(
                samples,
                "canary_agent_exec_commands_total"@,
                seq![outcome],
                SampleValueView::Count(1),
            )
            &&& records(
                samples,
                "canary_agent_exec_command_duration_seconds"@,
                seq![outcome],
                SampleValueView::Seconds(duration),
            )
            &&& records(
                samples,
                "canary_agent_exec_command_output_bytes"@,
                seq!["stdout"@],
                SampleValueView::Number(stdout_bytes as u64),
            )
            &&& records(
                samples,
                "canary_agent_exec_command_output_bytes"@,
                seq!["stderr"@],
                SampleValueView::Number(stderr_bytes as u64),
            )
            &&& stdout_truncated ==> records(
                samples,
                cut,
                seq!["stdout"@],
                SampleValueView::Count(1),
            )
            &&& stderr_truncated ==> records(
                samples,
                cut,
                seq!["stderr"@],
                SampleValueView::Count(1),
            )
            &&& samples.len() == 4 + (if stdout_truncated {
                1int
            } else {
                0
            }) + (if stderr_truncated {
                1int
            } else {
                0
            })
        },
{
    let samples = exec_command_samples(metric);
    lemma_records(samples, 0);
    lemma_records(samples, 1);
    lemma_records(samples, 2);
    lemma_records(samples, 3);
    if samples.len() > 4 {
        lemma_records(samples, 4);
    }
    if samples.len() > 5 {
        lemma_records(samples, 5);
    }
}

/// How something ended is told apart by its label.
pub proof fn law_labels_tell_apart(
    a: MetricStatus,
    b: MetricStatus,
    c: FunctionCallOutcome,
    d: FunctionCallOutcome,
    e: FunctionCallSkipReason,
    f: FunctionCallSkipReason,
    g: WebSearchOutcome,
    h: WebSearchOutcome,
)
    ensures
        a.label() == b.label() ==> a == b,
        c.label() == d.label() ==> c == d,
        e.label() == f.label() ==> e == f,
        g.label() == h.label() ==> g == h,
{
    reveal_strlit("completed");
    reveal_strlit("suspended");
    reveal_strlit("failed");
    reveal_strlit("aborted");
    assert("completed"@.len() == 9 && "completed"@[0] == 'c');
    assert("suspended"@.len() == 9 && "suspended"@[0] == 's');
    assert("failed"@.len() == 6);
    assert("aborted"@.len() == 7);
    reveal_strlit("max_calls_per_turn");
    reveal_strlit("previous_function_suspended");
    reveal_strlit("non_idempotent_recovery");
    reveal_strlit("turn_aborted");
    assert("max_calls_per_turn"@.len() == 18);
    assert("previous_function_suspended"@.len() == 27);
    assert("non_idempotent_recovery"@.len() == 23);
    assert("turn_aborted"@.len() == 12);
    reveal_strlit("succeeded");
    reveal_strlit("invalid_arguments");
    reveal_strlit("http_error");
    assert("succeeded"@.len() == 9);
    assert("invalid_arguments"@.len() == 17);
    assert("http_error"@.len() == 10);
}

} // verus!
