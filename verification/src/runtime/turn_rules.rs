//! The rules of a turn: what each reply from outside leads to.

use crate::json::{JsonView, NumberView};
use crate::kernel::events::{
    appended, SuspensionKind, SuspensionView, ThreadView, TokenUsage, ToolResultView,
    TurnItemKindView, TurnItemSource, TurnItemView, TurnStatus, TurnView,
};
use crate::kernel::model::{
    ModelContinuationView, ModelFunctionCallView, ModelResponseView, ModelStreamEventView,
};
use crate::kernel::projection::{active_turn, current_goal, pending_suspension, projected};
use crate::runtime::agent_loop::{
    CallEndView, Expected, RecoveryMark, TurnCommandView, TurnCoreView, TurnPhaseView, TurnRunView, TurnStepView,
};
use crate::runtime::error::{error_text, AgentErrorView};
use crate::runtime::functions::{
    FunctionCallExecutionView, FunctionContextView, FunctionRecoveryPolicy, RegisteredFunctionView,
    RuntimeEffectView,
};
use crate::runtime::metrics::{
    FunctionCallOutcome, FunctionCallSkipReason, MetricStatus, RuntimeMetricView,
};
use crate::runtime::turn::{
    empty_log, EffectLogView, FunctionCallHookContextView, FunctionCallHookResultView,
    TraceEventKindView, TraceTurnStatus, TurnModelEventView, TurnOutcomeView, TurnStateEventView,
    TurnStreamEventView,
};
use vstd::prelude::*;

verus! {

/// The reason of every abort.
pub open spec fn abort_reason() -> Seq<char> {
    "turn aborted by caller"@
}

/// The reason recorded for a call that an abort cut off.
pub open spec fn cut_off_reason() -> Seq<char> {
    "function execution aborted before a result was recorded"@
}

/// The error recorded for a call behind one that suspended the turn.
pub open spec fn suspended_error() -> Seq<char> {
    "function not executed because a previous function suspended the turn"@
}

/// The record of how a call ended.
pub open spec fn output_item(call: ModelFunctionCallView, result: ToolResultView) -> TurnItemView {
    TurnItemView {
        source: TurnItemSource::Tool,
        kind: TurnItemKindView::ToolOutput { call_id: call.call_id, name: call.name, result },
    }
}

/// A record of the runtime itself.
pub open spec fn runtime_item(kind: TurnItemKindView) -> TurnItemView {
    TurnItemView { source: TurnItemSource::Runtime, kind }
}

/// The record that a call was started.
pub open spec fn started_item(call: ModelFunctionCallView, attempt: u32) -> TurnItemView {
    runtime_item(
        TurnItemKindView::FunctionCallStarted { call_id: call.call_id, name: call.name, attempt },
    )
}

/// The records of calls that are given the same result, from a position on.
pub open spec fn output_items(
    calls: Seq<ModelFunctionCallView>,
    from: int,
    result: ToolResultView,
) -> Seq<TurnItemView> {
    Seq::new((calls.len() - from) as nat, |i: int| output_item(calls[from + i], result))
}

/// The records of what a runtime command does to a thread.
pub open spec fn effect_items(
    thread: ThreadView,
    effects: Seq<RuntimeEffectView>,
) -> Seq<TurnItemView> {
    Seq::new(
        effects.len(),
        |i: int|
            runtime_item(
                TurnItemKindView::GoalUpdated {
                    previous: current_goal(thread.turns),
                    current: effects[i]->SetGoal_0,
                },
            ),
    )
}

/// The result of a step.
pub type StepResult = core::result::Result<TurnStepView, AgentErrorView>;

/// A step after which `phase` waits for what `command` brings.
pub open spec fn step_to(
    core: TurnCoreView,
    log: EffectLogView,
    phase: TurnPhaseView,
    command: TurnCommandView,
) -> StepResult {
    Ok(
        TurnStepView {
            run: TurnRunView { core: TurnCoreView { sequence: log.sequence, ..core }, phase },
            effects: log.effects,
            command,
        },
    )
}

/// A step after which `phase` waits for a commit.
pub open spec fn committing(
    core: TurnCoreView,
    log: EffectLogView,
    phase: TurnPhaseView,
) -> StepResult {
    step_to(core, log, phase, TurnCommandView::Commit)
}

/// The turn has left the thread.
pub open spec fn turn_gone(core: TurnCoreView) -> StepResult {
    Err(AgentErrorView::TurnNotFound(core.turn_id))
}

/// The thread with the tokens of the turn added.
pub open spec fn with_usage(thread: ThreadView, usage: TokenUsage) -> ThreadView {
    if usage == TokenUsage::zero() {
        thread
    } else {
        ThreadView { token_usage: thread.token_usage.plus(usage), ..thread }
    }
}

/// The turn comes to its end.
pub open spec fn closing(
    core: TurnCoreView,
    log: EffectLogView,
    outcome: TurnOutcomeView,
) -> StepResult {
    committing(
        TurnCoreView { thread: with_usage(core.thread, core.usage), ..core },
        log.metric(
            RuntimeMetricView::TokenUsage {
                input_tokens: core.usage.input_tokens,
                cached_input_tokens: core.usage.cached_input_tokens,
                output_tokens: core.usage.output_tokens,
                total_tokens: core.usage.total_tokens,
            },
        ),
        TurnPhaseView::Closing { outcome },
    )
}

/// The turn fails.
pub open spec fn failing(core: TurnCoreView, log: EffectLogView, error: Seq<char>) -> StepResult {
    match appended(
        core.thread,
        core.turn_id,
        seq![runtime_item(TurnItemKindView::TurnFailed { error })],
        Some(TurnStatus::Failed),
    ) {
        Some(thread) => closing(
            TurnCoreView { thread, ..core },
            log,
            TurnOutcomeView::Failed { error },
        ),
        None => turn_gone(core),
    }
}

/// The turn asks the model again, unless it has asked as often as it may.
pub open spec fn asking(core: TurnCoreView, log: EffectLogView) -> StepResult {
    if core.iteration < core.limits.max_model_iterations {
        step_to(
            core,
            log,
            TurnPhaseView::Asking,
            TurnCommandView::BuildRequest { projection: projected(core.thread) },
        )
    } else {
        failing(
            core,
            log,
            error_text(AgentErrorView::MaxIterations(core.limits.max_model_iterations)),
        )
    }
}

/// What the hooks of a call are told.
pub open spec fn hook_context(
    core: TurnCoreView,
    call: ModelFunctionCallView,
) -> FunctionCallHookContextView {
    FunctionCallHookContextView {
        thread_id: core.thread.id,
        turn_id: core.turn_id,
        call_id: call.call_id,
        name: call.name,
        arguments: call.arguments,
        projection: projected(core.thread),
    }
}

/// What a function is told.
pub open spec fn function_context(
    core: TurnCoreView,
    call: ModelFunctionCallView,
) -> FunctionContextView {
    FunctionContextView {
        thread_id: core.thread.id,
        metadata: core.thread.metadata,
        turn_id: core.turn_id,
        call_id: call.call_id,
        projection: projected(core.thread),
    }
}

/// The error of a turn that asks for more calls than it may.
pub open spec fn too_many_calls(core: TurnCoreView) -> Seq<char> {
    error_text(AgentErrorView::MaxFunctionCalls(core.limits.max_function_calls))
}

/// The error recorded for a call beyond those that the turn may make.
pub open spec fn not_admitted(error: Seq<char>) -> Seq<char> {
    "function call not executed because "@ + error
}

/// One measurement for each skipped call, from one position to another.
pub open spec fn skip_metrics(
    log: EffectLogView,
    calls: Seq<ModelFunctionCallView>,
    from: int,
    to: int,
    reason: FunctionCallSkipReason,
) -> EffectLogView
    decreases to - from,
{
    if to <= from {
        log
    } else {
        skip_metrics(log, calls, from, to - 1, reason).metric(
            RuntimeMetricView::FunctionCallSkipped { name: calls[to - 1].name, reason },
        )
    }
}

/// One trace record for each skipped call.
pub open spec fn skip_traces(
    log: EffectLogView,
    calls: Seq<ModelFunctionCallView>,
    from: int,
    to: int,
    error: Seq<char>,
) -> EffectLogView
    decreases to - from,
{
    if to <= from {
        log
    } else {
        skip_traces(log, calls, from, to - 1, error).trace(failure_trace(calls[to - 1], error))
    }
}

/// One event for each skipped call.
pub open spec fn skip_events(
    log: EffectLogView,
    calls: Seq<ModelFunctionCallView>,
    from: int,
    to: int,
    error: Seq<char>,
) -> EffectLogView
    decreases to - from,
{
    if to <= from {
        log
    } else {
        skip_events(log, calls, from, to - 1, error).state(failure_event(calls[to - 1], error))
    }
}

/// One trace record and one event for each call that was not admitted.
pub open spec fn limit_reports(
    log: EffectLogView,
    calls: Seq<ModelFunctionCallView>,
    from: int,
    to: int,
    error: Seq<char>,
) -> EffectLogView
    decreases to - from,
{
    if to <= from {
        log
    } else {
        limit_reports(log, calls, from, to - 1, error).trace(
            failure_trace(calls[to - 1], error),
        ).state(
            failure_event(calls[to - 1], error),
        )
    }
}

/// The trace of how a call ended.
pub open spec fn output_trace(
    call: ModelFunctionCallView,
    result: ToolResultView,
) -> TraceEventKindView {
    TraceEventKindView::ToolOutput { call_id: call.call_id, name: call.name, result }
}

/// The trace of a call that failed.
pub open spec fn failure_trace(
    call: ModelFunctionCallView,
    error: Seq<char>,
) -> TraceEventKindView {
    output_trace(call, ToolResultView::Error { error })
}

/// The report of a call that failed.
pub open spec fn failure_event(
    call: ModelFunctionCallView,
    error: Seq<char>,
) -> TurnStateEventView {
    TurnStateEventView::FunctionFailed { call_id: call.call_id, name: call.name, error }
}

/// The report of a call that is done.
pub open spec fn completed_event(call: ModelFunctionCallView) -> TurnStateEventView {
    TurnStateEventView::FunctionCompleted { call_id: call.call_id, name: call.name }
}

/// The report of a call that begins.
pub open spec fn started_event(call: ModelFunctionCallView) -> TurnStateEventView {
    TurnStateEventView::FunctionStarted { call_id: call.call_id, name: call.name }
}

/// The trace of a call that begins.
pub open spec fn call_trace(call: ModelFunctionCallView) -> TraceEventKindView {
    TraceEventKindView::FunctionCall {
        call_id: call.call_id,
        name: call.name,
        arguments: call.arguments,
    }
}

/// The calls of an answer are taken up in order: the next one is begun, or those that were not
/// admitted end the turn, or the model is asked again.
pub open spec fn next_call(
    core: TurnCoreView,
    log: EffectLogView,
    calls: Seq<ModelFunctionCallView>,
    admitted: usize,
    index: usize,
) -> StepResult {
    if index < admitted {
        let call = calls[index as int];
        step_to(
            core,
            log.state(started_event(call)).trace(call_trace(call)),
            TurnPhaseView::Entering { calls, admitted, index },
            TurnCommandView::EnterHooks { context: hook_context(core, call) },
        )
    } else if admitted < calls.len() {
        let error = too_many_calls(core);
        let log = skip_metrics(
            log,
            calls,
            admitted as int,
            calls.len() as int,
            FunctionCallSkipReason::MaxCallsPerTurn,
        );
        match appended(
            core.thread,
            core.turn_id,
            output_items(
                calls,
                admitted as int,
                ToolResultView::Error { error: not_admitted(error) },
            ).push(
                runtime_item(TurnItemKindView::TurnFailed { error }),
            ),
            Some(TurnStatus::Failed),
        ) {
            Some(thread) => committing(
                TurnCoreView { thread, ..core },
                log,
                TurnPhaseView::Limiting { calls, admitted, error },
            ),
            None => turn_gone(core),
        }
    } else {
        asking(TurnCoreView { iteration: (core.iteration + 1) as usize, ..core }, log)
    }
}

/// How many of `requested` calls a turn may still make.
pub open spec fn admitted_calls(core: TurnCoreView, requested: nat) -> usize {
    let remaining: int = if core.function_call_count < core.limits.max_function_calls {
        core.limits.max_function_calls - core.function_call_count
    } else {
        0
    };
    if requested <= remaining {
        requested as usize
    } else {
        remaining as usize
    }
}

/// The text, calls and continuation of an answer.
pub open spec fn answer_parts(response: ModelResponseView) -> (
    Option<Seq<char>>,
    Seq<ModelFunctionCallView>,
    Option<ModelContinuationView>,
) {
    match response {
        ModelResponseView::Assistant { continuation, text, function_calls } => (
            text,
            function_calls,
            continuation,
        ),
        ModelResponseView::AssistantMessage { text } => (Some(text), Seq::empty(), None),
        ModelResponseView::FunctionCalls { calls } => (None, calls, None),
    }
}

/// The model has answered.
pub open spec fn answered(
    core: TurnCoreView,
    log: EffectLogView,
    response: ModelResponseView,
) -> StepResult {
    let (text, calls, continuation) = answer_parts(response);
    if text is None && calls.len() == 0 {
        failing(core, log, "model returned neither assistant text nor function calls"@)
    } else {
        let log = match text {
            Some(text) => log.emit(
                TurnStreamEventView::Model(TurnModelEventView::AssistantMessage { text }),
            ),
            None => log,
        };
        let item = TurnItemView {
            source: TurnItemSource::Model,
            kind: TurnItemKindView::ModelResponse { text, function_calls: calls, continuation },
        };
        let ends = calls.len() == 0;
        match appended(
            core.thread,
            core.turn_id,
            seq![item],
            if ends {
                Some(TurnStatus::Completed)
            } else {
                None
            },
        ) {
            None => turn_gone(core),
            Some(thread) => {
                let core = TurnCoreView { thread, ..core };
                if ends {
                    committing(core, log, TurnPhaseView::Answering { text: text->0 })
                } else {
                    committing(
                        core,
                        log.state(TurnStateEventView::FunctionCallsRequested { calls }),
                        TurnPhaseView::Requested { text, calls },
                    )
                }
            },
        }
    }
}

/// How a model request is counted.
pub open spec fn request_status(
    response: Option<core::result::Result<ModelResponseView, AgentErrorView>>,
) -> MetricStatus {
    match response {
        None => MetricStatus::Aborted,
        Some(Ok(_)) => MetricStatus::Completed,
        Some(Err(_)) => MetricStatus::Failed,
    }
}

/// The turn is aborted, with nothing to record but that.
pub open spec fn aborting(core: TurnCoreView, log: EffectLogView) -> StepResult {
    match appended(
        core.thread,
        core.turn_id,
        seq![runtime_item(TurnItemKindView::TurnAborted { reason: abort_reason() })],
        Some(TurnStatus::Aborted),
    ) {
        Some(thread) => closing(
            TurnCoreView { thread, ..core },
            log,
            TurnOutcomeView::Aborted { reason: abort_reason() },
        ),
        None => turn_gone(core),
    }
}

/// The model request has ended: with an answer, with an error, or by an abort.
pub open spec fn after_model(
    core: TurnCoreView,
    response: Option<core::result::Result<ModelResponseView, AgentErrorView>>,
    elapsed: nat,
) -> StepResult {
    let log = empty_log(core.sequence).metric(
        RuntimeMetricView::ModelRequestFinished {
            status: request_status(response),
            duration: elapsed,
        },
    );
    match response {
        None => aborting(core, log),
        Some(Err(error)) => failing(core, log, error_text(error)),
        Some(Ok(response)) => answered(core, log, response),
    }
}

/// How a function call is counted.
pub open spec fn call_outcome(
    execution: core::result::Result<FunctionCallExecutionView, AgentErrorView>,
) -> FunctionCallOutcome {
    match execution {
        Ok(FunctionCallExecutionView::Completed { .. }) => FunctionCallOutcome::Completed,
        Ok(FunctionCallExecutionView::SuspendedBeforeExecution { .. }) =>
            FunctionCallOutcome::Suspended,
        Ok(FunctionCallExecutionView::SuspendedAfterExecution { .. }) =>
            FunctionCallOutcome::Suspended,
        Err(_) => FunctionCallOutcome::Failed,
    }
}

/// The record of a call that is done.
pub open spec fn success_item(call: ModelFunctionCallView, output: JsonView) -> TurnItemView {
    output_item(call, ToolResultView::Success { output })
}

/// The record of a suspension.
pub open spec fn suspension_item(suspension: SuspensionView) -> TurnItemView {
    runtime_item(TurnItemKindView::SuspensionCreated { suspension })
}

/// The outputs of the calls behind one that suspended the turn.
pub open spec fn skipped_items(calls: Seq<ModelFunctionCallView>, index: int) -> Seq<TurnItemView> {
    output_items(calls, index + 1, ToolResultView::Error { error: suspended_error() })
}

/// What is recorded when a call of an answer has returned: the items, the status of the turn
/// where it changes, and how the call ended.
pub open spec fn call_records(
    core: TurnCoreView,
    calls: Seq<ModelFunctionCallView>,
    index: int,
    execution: core::result::Result<FunctionCallExecutionView, AgentErrorView>,
) -> (Seq<TurnItemView>, Option<TurnStatus>, CallEndView) {
    let call = calls[index];
    match execution {
        Ok(FunctionCallExecutionView::Completed { output, effects }) => (
            effect_items(core.thread, effects).push(success_item(call, output)),
            None,
            CallEndView::Completed { output },
        ),
        Ok(FunctionCallExecutionView::SuspendedBeforeExecution { suspension, effects }) => (
            effect_items(core.thread, effects).push(suspension_item(suspension)) + skipped_items(
                calls,
                index,
            ),
            Some(TurnStatus::Suspended),
            CallEndView::SuspendedBefore { suspension },
        ),
        Ok(FunctionCallExecutionView::SuspendedAfterExecution { suspension, output, effects }) => (
            effect_items(core.thread, effects).push(success_item(call, output)).push(
                suspension_item(suspension),
            ) + skipped_items(calls, index),
            Some(TurnStatus::Suspended),
            CallEndView::SuspendedAfter { suspension, output },
        ),
        Err(error) => (
            seq![output_item(call, ToolResultView::Error { error: error_text(error) })],
            None,
            CallEndView::Failed { error: error_text(error) },
        ),
    }
}

/// The measurements of a call that has returned.
pub open spec fn call_metrics(
    log: EffectLogView,
    calls: Seq<ModelFunctionCallView>,
    index: int,
    execution: core::result::Result<FunctionCallExecutionView, AgentErrorView>,
    elapsed: nat,
) -> EffectLogView {
    let log = log.metric(
        RuntimeMetricView::FunctionCallFinished {
            name: calls[index].name,
            outcome: call_outcome(execution),
            duration: elapsed,
        },
    );
    if call_outcome(execution) == FunctionCallOutcome::Suspended {
        skip_metrics(
            log,
            calls,
            index + 1,
            calls.len() as int,
            FunctionCallSkipReason::PreviousFunctionSuspended,
        )
    } else {
        log
    }
}

/// A function call of an answer has returned.
pub open spec fn call_returned(
    core: TurnCoreView,
    log: EffectLogView,
    calls: Seq<ModelFunctionCallView>,
    admitted: usize,
    index: usize,
    entered: usize,
    execution: core::result::Result<FunctionCallExecutionView, AgentErrorView>,
    elapsed: nat,
) -> StepResult {
    let log = call_metrics(log, calls, index as int, execution, elapsed);
    let (items, status, end) = call_records(core, calls, index as int, execution);
    match appended(core.thread, core.turn_id, items, status) {
        Some(thread) => committing(
            TurnCoreView { thread, ..core },
            log,
            TurnPhaseView::Recording { calls, admitted, index, entered, end },
        ),
        None => turn_gone(core),
    }
}

/// What is recorded when an abort cuts calls off, from a position on.
pub open spec fn abort_records(calls: Seq<ModelFunctionCallView>, index: int) -> Seq<TurnItemView> {
    seq![runtime_item(TurnItemKindView::TurnAborted { reason: abort_reason() })] + output_items(
        calls,
        index,
        ToolResultView::Aborted { reason: cut_off_reason() },
    )
}

/// The measurements of a call that an abort cut off, and of those behind it.
pub open spec fn abort_metrics(
    log: EffectLogView,
    calls: Seq<ModelFunctionCallView>,
    index: int,
    elapsed: nat,
) -> EffectLogView {
    skip_metrics(
        log.metric(
            RuntimeMetricView::FunctionCallFinished {
                name: calls[index].name,
                outcome: FunctionCallOutcome::Aborted,
                duration: elapsed,
            },
        ),
        calls,
        index + 1,
        calls.len() as int,
        FunctionCallSkipReason::TurnAborted,
    )
}

/// A function call of an answer was cut off by an abort.
pub open spec fn call_cut_off(
    core: TurnCoreView,
    log: EffectLogView,
    calls: Seq<ModelFunctionCallView>,
    index: usize,
    elapsed: nat,
) -> StepResult {
    let log = abort_metrics(log, calls, index as int, elapsed);
    match appended(
        core.thread,
        core.turn_id,
        abort_records(calls, index as int),
        Some(TurnStatus::Aborted),
    ) {
        Some(thread) => closing(
            TurnCoreView { thread, ..core },
            log,
            TurnOutcomeView::Aborted { reason: abort_reason() },
        ),
        None => turn_gone(core),
    }
}

/// The hooks before a call are through: the start of the call is marked, or the error of a hook
/// takes the place of the call's own.
pub open spec fn after_entering(
    core: TurnCoreView,
    calls: Seq<ModelFunctionCallView>,
    admitted: usize,
    index: usize,
    entered: usize,
    allowed: core::result::Result<(), AgentErrorView>,
    elapsed: nat,
) -> StepResult {
    let log = empty_log(core.sequence);
    match allowed {
        Ok(_) => match appended(
            core.thread,
            core.turn_id,
            seq![started_item(calls[index as int], 1)],
            None,
        ) {
            Some(thread) => committing(
                TurnCoreView { thread, ..core },
                log,
                TurnPhaseView::Starting { calls, admitted, index, entered },
            ),
            None => turn_gone(core),
        },
        Err(error) => call_returned(
            core,
            log,
            calls,
            admitted,
            index,
            entered,
            Err(error),
            elapsed,
        ),
    }
}

/// The hooks after a call are run.
pub open spec fn leaving(
    core: TurnCoreView,
    log: EffectLogView,
    calls: Seq<ModelFunctionCallView>,
    admitted: usize,
    index: usize,
    entered: usize,
    result: FunctionCallHookResultView,
) -> StepResult {
    step_to(
        core,
        log,
        TurnPhaseView::Leaving { calls, admitted, index, result },
        TurnCommandView::LeaveHooks {
            context: hook_context(core, calls[index as int]),
            result,
            entered,
        },
    )
}

/// What a call returned is committed.
pub open spec fn after_recording(
    core: TurnCoreView,
    calls: Seq<ModelFunctionCallView>,
    admitted: usize,
    index: usize,
    entered: usize,
    end: CallEndView,
) -> StepResult {
    let call = calls[index as int];
    let log = empty_log(core.sequence);
    let total = calls.len() as int;
    match end {
        CallEndView::Completed { output } => leaving(
            core,
            log.trace(output_trace(call, ToolResultView::Success { output })),
            calls,
            admitted,
            index,
            entered,
            FunctionCallHookResultView::Completed { output },
        ),
        CallEndView::Failed { error } => leaving(
            core,
            log.trace(failure_trace(call, error)),
            calls,
            admitted,
            index,
            entered,
            FunctionCallHookResultView::Failed { error },
        ),
        CallEndView::SuspendedAfter { suspension, output } => leaving(
            core,
            skip_traces(
                log.trace(TraceEventKindView::SuspensionCreated { suspension }).trace(
                    output_trace(call, ToolResultView::Success { output }),
                ),
                calls,
                index + 1,
                total,
                suspended_error(),
            ),
            calls,
            admitted,
            index,
            entered,
            FunctionCallHookResultView::Suspended { suspension, output },
        ),
        CallEndView::SuspendedBefore { suspension } => closing(
            core,
            skip_events(
                skip_traces(
                    log.trace(TraceEventKindView::SuspensionCreated { suspension }),
                    calls,
                    index + 1,
                    total,
                    suspended_error(),
                ).state(TurnStateEventView::Suspended { suspension }),
                calls,
                index + 1,
                total,
                suspended_error(),
            ),
            TurnOutcomeView::Suspended { suspension },
        ),
    }
}

/// The hooks after a call are through.
pub open spec fn after_leaving(
    core: TurnCoreView,
    calls: Seq<ModelFunctionCallView>,
    admitted: usize,
    index: usize,
    result: FunctionCallHookResultView,
) -> StepResult {
    let call = calls[index as int];
    let log = empty_log(core.sequence);
    let next = (index + 1) as usize;
    match result {
        FunctionCallHookResultView::Completed { output } => next_call(
            core,
            log.state(completed_event(call)),
            calls,
            admitted,
            next,
        ),
        FunctionCallHookResultView::Failed { error } => next_call(
            core,
            log.state(failure_event(call, error)),
            calls,
            admitted,
            next,
        ),
        FunctionCallHookResultView::Suspended { suspension, output } => closing(
            core,
            skip_events(
                log.state(completed_event(call)).state(
                    TurnStateEventView::Suspended { suspension },
                ),
                calls,
                index + 1,
                calls.len() as int,
                suspended_error(),
            ),
            TurnOutcomeView::Suspended { suspension },
        ),
    }
}

/// Where the last answer with function calls stands among some records.
pub open spec fn last_request(items: Seq<TurnItemView>) -> Option<int>
    decreases items.len(),
{
    if items.len() == 0 {
        None
    } else {
        match items.last().kind {
            TurnItemKindView::ModelResponse { text, function_calls, continuation } => if function_calls.len()
                > 0 {
                Some(items.len() - 1)
            } else {
                last_request(items.drop_last())
            },
            _ => last_request(items.drop_last()),
        }
    }
}

/// The attempt of a call that was started last among some records.
pub open spec fn last_attempt(items: Seq<TurnItemView>, call_id: Seq<char>) -> Option<u32>
    decreases items.len(),
{
    if items.len() == 0 {
        None
    } else {
        match items.last().kind {
            TurnItemKindView::FunctionCallStarted { call_id: started, name, attempt } => if started
                == call_id {
                Some(attempt)
            } else {
                last_attempt(items.drop_last(), call_id)
            },
            _ => last_attempt(items.drop_last(), call_id),
        }
    }
}

/// Whether a record is the output of a call.
pub open spec fn is_output_of(item: TurnItemView, call_id: Seq<char>) -> bool {
    match item.kind {
        TurnItemKindView::ToolOutput { call_id: done, name, result } => done == call_id,
        _ => false,
    }
}

/// Whether some records hold an output of a call.
pub open spec fn has_output(items: Seq<TurnItemView>, call_id: Seq<char>) -> bool {
    exists|i: int| 0 <= i < items.len() && is_output_of(#[trigger] items[i], call_id)
}

/// The calls that have no output among the records behind their request.
pub open spec fn unanswered(calls: Seq<ModelFunctionCallView>, behind: Seq<TurnItemView>) -> Seq<
    ModelFunctionCallView,
>
    decreases calls.len(),
{
    if calls.len() == 0 {
        Seq::empty()
    } else {
        let rest = unanswered(calls.drop_last(), behind);
        if has_output(behind, calls.last().call_id) {
            rest
        } else {
            rest.push(calls.last())
        }
    }
}

/// The calls of the last answer, and the records behind it.
pub open spec fn last_requested(items: Seq<TurnItemView>) -> (
    Seq<ModelFunctionCallView>,
    Seq<TurnItemView>,
) {
    match last_request(items) {
        Some(i) => (items[i].kind->ModelResponse_function_calls, items.skip(i + 1)),
        None => (Seq::empty(), Seq::empty()),
    }
}

/// The records of a turn, nothing when the thread does not have it.
pub open spec fn turn_items(thread: ThreadView, turn_id: Seq<char>) -> Seq<TurnItemView> {
    let i = crate::kernel::events::turn_position(thread.turns, turn_id);
    if i < thread.turns.len() {
        thread.turns[i as int].items
    } else {
        Seq::empty()
    }
}

/// The calls that a turn asked for last and that have no output.
pub open spec fn pending_calls(
    thread: ThreadView,
    turn_id: Seq<char>,
) -> Seq<ModelFunctionCallView> {
    let (calls, behind) = last_requested(turn_items(thread, turn_id));
    unanswered(calls, behind)
}

/// What is known of the calls that have no output.
pub open spec fn pending_marks(
    thread: ThreadView,
    turn_id: Seq<char>,
    functions: Map<Seq<char>, RegisteredFunctionView>,
) -> Seq<RecoveryMark> {
    let (_, behind) = last_requested(turn_items(thread, turn_id));
    pending_calls(thread, turn_id).map_values(
        |call: ModelFunctionCallView|
            RecoveryMark {
                started: last_attempt(behind, call.call_id),
                policy: if functions.contains_key(call.name) {
                    Some(functions[call.name].descriptor.recovery_policy)
                } else {
                    None
                },
            },
    )
}

/// The number of the attempt that comes next.
pub open spec fn next_attempt(started: Option<u32>) -> u32 {
    match started {
        Some(attempt) => if attempt == u32::MAX {
            u32::MAX
        } else {
            (attempt + 1) as u32
        },
        None => 1,
    }
}

/// The suspension of a turn whose recovery is not safe to go on by itself.
pub open spec fn recovery_suspension(
    id: Seq<char>,
    call: ModelFunctionCallView,
    attempt: u32,
) -> SuspensionView {
    SuspensionView {
        id,
        kind: SuspensionKind::FunctionRecovery,
        payload: JsonView::Object(
            Map::<Seq<char>, JsonView>::empty()
                .insert("call_id"@, JsonView::Text(call.call_id))
                .insert(
                "name"@,
                JsonView::Text(call.name),
            ).insert("attempt"@, JsonView::Number(NumberView::Unsigned(attempt as u64))).insert(
                "deferred"@,
                JsonView::Bool(true),
            ).insert("recovery"@, JsonView::Bool(true)).insert(
                "reason"@,
                JsonView::Text("function started but no terminal output was recorded"@),
            ),
        ),
    }
}

/// The calls without output are taken up in order: one that was never started, or whose function
/// is idempotent, is started; one that was started and whose function is not idempotent suspends
/// the turn; and with one whose function is not there the recovery fails, once what happened so far
/// is told. Once all are through the model is asked.
pub open spec fn recover_next(
    core: TurnCoreView,
    log: EffectLogView,
    calls: Seq<ModelFunctionCallView>,
    marks: Seq<RecoveryMark>,
    index: usize,
) -> StepResult {
    if index >= calls.len() {
        asking(core, log)
    } else {
        let call = calls[index as int];
        let mark = marks[index as int];
        let attempt = next_attempt(mark.started);
        match mark.policy {
            None => step_to(
                core,
                log,
                TurnPhaseView::Finished,
                TurnCommandView::Fail { error: AgentErrorView::FunctionNotFound(call.name) },
            ),
            Some(policy) => {
                let log = log.trace(
                    TraceEventKindView::RecoveryStarted {
                        call_id: call.call_id,
                        name: call.name,
                        attempt,
                        policy,
                    },
                );
                if mark.started is Some && policy == FunctionRecoveryPolicy::NonIdempotent {
                    let suspension = recovery_suspension(core.suspension_id, call, attempt);
                    match appended(
                        core.thread,
                        core.turn_id,
                        seq![suspension_item(suspension)],
                        Some(TurnStatus::Suspended),
                    ) {
                        Some(thread) => committing(
                            TurnCoreView { thread, ..core },
                            log,
                            TurnPhaseView::RecoverySuspending { suspension },
                        ),
                        None => turn_gone(core),
                    }
                } else {
                    match appended(
                        core.thread,
                        core.turn_id,
                        seq![started_item(call, attempt)],
                        None,
                    ) {
                        Some(thread) => committing(
                            TurnCoreView { thread, ..core },
                            log,
                            TurnPhaseView::RecoveryStarting { calls, marks, index },
                        ),
                        None => turn_gone(core),
                    }
                }
            },
        }
    }
}

/// What is recorded when a recovered call has returned.
pub open spec fn recovery_records(
    core: TurnCoreView,
    calls: Seq<ModelFunctionCallView>,
    index: int,
    execution: core::result::Result<FunctionCallExecutionView, AgentErrorView>,
) -> (Seq<TurnItemView>, Option<TurnStatus>, CallEndView) {
    let call = calls[index];
    match execution {
        Ok(FunctionCallExecutionView::Completed { output, effects }) => (
            effect_items(core.thread, effects).push(success_item(call, output)),
            None,
            CallEndView::Completed { output },
        ),
        Ok(FunctionCallExecutionView::SuspendedBeforeExecution { suspension, effects }) => (
            seq![suspension_item(suspension)] + skipped_items(calls, index),
            Some(TurnStatus::Suspended),
            CallEndView::SuspendedBefore { suspension },
        ),
        Ok(FunctionCallExecutionView::SuspendedAfterExecution { suspension, output, effects }) => (
            seq![suspension_item(suspension)] + skipped_items(calls, index),
            Some(TurnStatus::Suspended),
            CallEndView::SuspendedBefore { suspension },
        ),
        Err(error) => (
            seq![output_item(call, ToolResultView::Error { error: error_text(error) })],
            None,
            CallEndView::Failed { error: error_text(error) },
        ),
    }
}

/// A recovered call has returned, or an abort has cut it off.
pub open spec fn recovery_returned(
    core: TurnCoreView,
    calls: Seq<ModelFunctionCallView>,
    marks: Seq<RecoveryMark>,
    index: usize,
    execution: Option<core::result::Result<FunctionCallExecutionView, AgentErrorView>>,
    elapsed: nat,
) -> StepResult {
    let log = empty_log(core.sequence);
    match execution {
        None => match appended(
            core.thread,
            core.turn_id,
            abort_records(calls, index as int),
            Some(TurnStatus::Aborted),
        ) {
            Some(thread) => committing(
                TurnCoreView { thread, ..core },
                abort_metrics(log, calls, index as int, elapsed),
                TurnPhaseView::RecoveryAborting,
            ),
            None => turn_gone(core),
        },
        Some(execution) => {
            let (items, status, end) = recovery_records(core, calls, index as int, execution);
            match appended(core.thread, core.turn_id, items, status) {
                Some(thread) => committing(
                    TurnCoreView { thread, ..core },
                    log.metric(
                        RuntimeMetricView::FunctionCallFinished {
                            name: calls[index as int].name,
                            outcome: call_outcome(execution),
                            duration: elapsed,
                        },
                    ),
                    TurnPhaseView::RecoveryRecording { calls, marks, index, end },
                ),
                None => turn_gone(core),
            }
        },
    }
}

/// What a recovered call returned is committed.
pub open spec fn after_recovery(
    core: TurnCoreView,
    calls: Seq<ModelFunctionCallView>,
    marks: Seq<RecoveryMark>,
    index: usize,
    end: CallEndView,
) -> StepResult {
    let call = calls[index as int];
    let log = empty_log(core.sequence);
    let next = (index + 1) as usize;
    match end {
        CallEndView::Completed { output } => recover_next(
            core,
            log.trace(
                output_trace(call, ToolResultView::Success { output }),
            ).state(completed_event(call)),
            calls,
            marks,
            next,
        ),
        CallEndView::Failed { error } => recover_next(
            core,
            log.state(failure_event(call, error)),
            calls,
            marks,
            next,
        ),
        CallEndView::SuspendedBefore { suspension } => suspending(core, log, suspension),
        CallEndView::SuspendedAfter { suspension, output } => suspending(core, log, suspension),
    }
}

/// The turn ends suspended.
pub open spec fn suspending(
    core: TurnCoreView,
    log: EffectLogView,
    suspension: SuspensionView,
) -> StepResult {
    closing(
        core,
        log.trace(TraceEventKindView::SuspensionCreated { suspension }).state(
            TurnStateEventView::Suspended { suspension },
        ),
        TurnOutcomeView::Suspended { suspension },
    )
}

/// How a turn that ended is counted.
pub open spec fn outcome_status(outcome: TurnOutcomeView) -> MetricStatus {
    match outcome {
        TurnOutcomeView::AssistantMessage { .. } => MetricStatus::Completed,
        TurnOutcomeView::Suspended { .. } => MetricStatus::Suspended,
        TurnOutcomeView::Failed { .. } => MetricStatus::Failed,
        TurnOutcomeView::Aborted { .. } => MetricStatus::Aborted,
    }
}

/// How a turn that ended is traced.
pub open spec fn outcome_trace(outcome: TurnOutcomeView) -> TraceTurnStatus {
    match outcome {
        TurnOutcomeView::AssistantMessage { .. } => TraceTurnStatus::Completed,
        TurnOutcomeView::Suspended { .. } => TraceTurnStatus::Suspended,
        TurnOutcomeView::Failed { .. } => TraceTurnStatus::Failed,
        TurnOutcomeView::Aborted { .. } => TraceTurnStatus::Aborted,
    }
}

/// The turn has ended.
pub open spec fn finished(
    core: TurnCoreView,
    outcome: TurnOutcomeView,
    elapsed: nat,
) -> StepResult {
    let log = empty_log(core.sequence).metric(
        RuntimeMetricView::TurnFinished {
            status: outcome_status(outcome),
            duration: elapsed,
            function_calls: core.function_call_count,
        },
    ).trace(TraceEventKindView::TurnFinished { status: outcome_trace(outcome) });
    let log = match outcome {
        TurnOutcomeView::Failed { error } => log.state(TurnStateEventView::TurnFailed { error }),
        TurnOutcomeView::Aborted { reason } => log.state(
            TurnStateEventView::TurnAborted { reason },
        ),
        _ => log,
    };
    let log = if core.usage == TokenUsage::zero() {
        log
    } else {
        log.state(TurnStateEventView::TurnTokenUsage { usage: core.usage })
    };
    step_to(
        core,
        log.state(TurnStateEventView::TurnFinished { outcome }),
        TurnPhaseView::Finished,
        TurnCommandView::Finish { outcome },
    )
}

/// The report of a turn that begins.
pub open spec fn turn_started(core: TurnCoreView) -> TurnStateEventView {
    TurnStateEventView::TurnStarted { thread_id: core.thread_id, turn_id: core.turn_id }
}

/// The trace of an answer of the model.
pub open spec fn response_trace(
    text: Option<Seq<char>>,
    calls: Seq<ModelFunctionCallView>,
) -> TraceEventKindView {
    TraceEventKindView::ModelResponse { text, function_calls: calls }
}

/// The thread is committed as `thread`.
pub open spec fn after_commit(run: TurnRunView, thread: ThreadView, elapsed: nat) -> StepResult {
    let core = TurnCoreView { thread, ..run.core };
    let log = empty_log(core.sequence);
    match run.phase {
        TurnPhaseView::Opening { text } => asking(
            core,
            log.trace(TraceEventKindView::UserInput { text, response_to: None }).state(
                turn_started(core),
            ),
        ),
        TurnPhaseView::Answering { text } => closing(
            core,
            log.trace(response_trace(Some(text), Seq::empty())),
            TurnOutcomeView::AssistantMessage { text },
        ),
        TurnPhaseView::Requested { text, calls } => {
            let admitted = admitted_calls(core, calls.len());
            next_call(
                TurnCoreView {
                    function_call_count: (core.function_call_count + admitted) as usize,
                    ..core
                },
                log.trace(response_trace(text, calls)),
                calls,
                admitted,
                0,
            )
        },
        TurnPhaseView::Starting { calls, admitted, index, entered } => step_to(
            core,
            log,
            TurnPhaseView::Calling { calls, admitted, index, entered },
            TurnCommandView::CallFunction {
                call: calls[index as int],
                context: function_context(core, calls[index as int]),
            },
        ),
        TurnPhaseView::Recording { calls, admitted, index, entered, end } => after_recording(
            core,
            calls,
            admitted,
            index,
            entered,
            end,
        ),
        TurnPhaseView::Limiting { calls, admitted, error } => closing(
            core,
            limit_reports(log, calls, admitted as int, calls.len() as int, not_admitted(error)),
            TurnOutcomeView::Failed { error },
        ),
        TurnPhaseView::RecoverySuspending { suspension } => suspending(core, log, suspension),
        TurnPhaseView::RecoveryStarting { calls, marks, index } => step_to(
            core,
            log.state(started_event(calls[index as int])).trace(call_trace(calls[index as int])),
            TurnPhaseView::RecoveryCalling { calls, marks, index },
            TurnCommandView::CallFunction {
                call: calls[index as int],
                context: function_context(core, calls[index as int]),
            },
        ),
        TurnPhaseView::RecoveryRecording { calls, marks, index, end } => after_recovery(
            core,
            calls,
            marks,
            index,
            end,
        ),
        TurnPhaseView::RecoveryAborting => closing(
            core,
            log,
            TurnOutcomeView::Aborted { reason: abort_reason() },
        ),
        TurnPhaseView::Closing { outcome } => finished(core, outcome, elapsed),
        _ => turn_gone(core),
    }
}

/// A function has returned, or an abort has cut it off.
pub open spec fn after_call(
    run: TurnRunView,
    execution: Option<core::result::Result<FunctionCallExecutionView, AgentErrorView>>,
    elapsed: nat,
) -> StepResult {
    match run.phase {
        TurnPhaseView::Calling { calls, admitted, index, entered } => match execution {
            Some(execution) => call_returned(
                run.core,
                empty_log(run.core.sequence),
                calls,
                admitted,
                index,
                entered,
                execution,
                elapsed,
            ),
            None => call_cut_off(run.core, empty_log(run.core.sequence), calls, index, elapsed),
        },
        TurnPhaseView::RecoveryCalling { calls, marks, index } => recovery_returned(
            run.core,
            calls,
            marks,
            index,
            execution,
            elapsed,
        ),
        _ => turn_gone(run.core),
    }
}

/// The thread that a turn begins with: what was loaded, or a new one where none is stored.
pub open spec fn initial_thread(
    thread_id: Seq<char>,
    loaded: core::result::Result<ThreadView, AgentErrorView>,
    metadata: Option<JsonView>,
) -> core::result::Result<ThreadView, AgentErrorView> {
    match loaded {
        Ok(thread) => Ok(thread),
        Err(AgentErrorView::ThreadNotFound(_)) => Ok(
            ThreadView {
                id: thread_id,
                turns: Seq::empty(),
                metadata: match metadata {
                    Some(metadata) => metadata,
                    None => JsonView::Null,
                },
                token_usage: TokenUsage::zero(),
                revision: crate::kernel::events::RevisionToken { value: 0 },
            },
        ),
        Err(error) => Err(error),
    }
}

/// What a turn starts out with.
pub open spec fn initial_core(
    thread_id: Seq<char>,
    turn_id: Seq<char>,
    thread: ThreadView,
    limits: crate::runtime::turn::TurnExecutionLimits,
    sequence: u64,
    suspension_id: Seq<char>,
) -> TurnCoreView {
    TurnCoreView {
        thread_id,
        turn_id,
        thread,
        limits,
        usage: TokenUsage::zero(),
        function_call_count: 0,
        first_token_recorded: false,
        iteration: 0,
        sequence,
        suspension_id,
    }
}

/// A new turn begins with the user's input, unless the thread waits on a suspension.
pub open spec fn begin_turn(
    thread_id: Seq<char>,
    loaded: core::result::Result<ThreadView, AgentErrorView>,
    metadata: JsonView,
    user_text: Seq<char>,
    turn_id: Seq<char>,
    limits: crate::runtime::turn::TurnExecutionLimits,
) -> StepResult {
    match initial_thread(thread_id, loaded, Some(metadata)) {
        Err(error) => Err(error),
        Ok(thread) => match pending_suspension(thread.turns) {
            Some(pending) => Err(
                AgentErrorView::SuspendedTurn { thread_id, suspension_id: pending.suspension.id },
            ),
            None => {
                let turn = TurnView {
                    id: turn_id,
                    status: TurnStatus::Running,
                    items: seq![
                        TurnItemView {
                            source: TurnItemSource::User,
                            kind: TurnItemKindView::UserInput {
                                text: user_text,
                                response_to: None,
                            },
                        },
                    ],
                };
                let core = initial_core(
                    thread_id,
                    turn_id,
                    ThreadView { turns: thread.turns.push(turn), ..thread },
                    limits,
                    0,
                    Seq::empty(),
                );
                committing(core, empty_log(0), TurnPhaseView::Opening { text: user_text })
            },
        },
    }
}

/// A turn that was left running is taken up again, unless the thread waits on a suspension.
pub open spec fn begin_recovery(
    thread_id: Seq<char>,
    loaded: core::result::Result<ThreadView, AgentErrorView>,
    functions: Map<Seq<char>, RegisteredFunctionView>,
    limits: crate::runtime::turn::TurnExecutionLimits,
    sequence: u64,
    suspension_id: Seq<char>,
) -> StepResult {
    match initial_thread(thread_id, loaded, None) {
        Err(error) => Err(error),
        Ok(thread) => match pending_suspension(thread.turns) {
            Some(pending) => Err(
                AgentErrorView::SuspendedTurn { thread_id, suspension_id: pending.suspension.id },
            ),
            None => match active_turn(thread.turns) {
                None => Err(AgentErrorView::TurnNotFound(thread_id)),
                Some(turn_id) => {
                    let core = initial_core(
                        thread_id,
                        turn_id,
                        thread,
                        limits,
                        sequence,
                        suspension_id,
                    );
                    recover_next(
                        core,
                        empty_log(sequence).state(turn_started(core)),
                        pending_calls(thread, turn_id),
                        pending_marks(thread, turn_id, functions),
                        0,
                    )
                },
            },
        },
    }
}

/// Whether the calls of a phase are where the phase says.
pub open spec fn phase_ok(core: TurnCoreView, phase: TurnPhaseView) -> bool {
    let asked = core.iteration < core.limits.max_model_iterations;
    match phase {
        TurnPhaseView::Asking => asked,
        TurnPhaseView::Streaming => asked,
        TurnPhaseView::Requested { text, calls } => asked && calls.len() <= usize::MAX,
        TurnPhaseView::Entering { calls, admitted, index } => asked && index < admitted
            && admitted <= calls.len(),
        TurnPhaseView::Starting { calls, admitted, index, entered } => asked && index < admitted
            && admitted <= calls.len(),
        TurnPhaseView::Calling { calls, admitted, index, entered } => asked && index < admitted
            && admitted <= calls.len(),
        TurnPhaseView::Recording { calls, admitted, index, entered, end } =>
            asked && index < admitted
            && admitted <= calls.len(),
        TurnPhaseView::Leaving { calls, admitted, index, result } => asked && index < admitted
            && admitted <= calls.len(),
        TurnPhaseView::Limiting { calls, admitted, error } => admitted <= calls.len(),
        TurnPhaseView::RecoveryStarting { calls, marks, index } => index < calls.len()
            && marks.len() == calls.len(),
        TurnPhaseView::RecoveryCalling { calls, marks, index } => index < calls.len()
            && marks.len() == calls.len(),
        TurnPhaseView::RecoveryRecording { calls, marks, index, end } => index < calls.len()
            && marks.len() == calls.len(),
        _ => true,
    }
}

/// What a phase waits for.
pub open spec fn expected_by(phase: TurnPhaseView) -> Expected {
    match phase {
        TurnPhaseView::Asking => Expected::Request,
        TurnPhaseView::Streaming => Expected::Answer,
        TurnPhaseView::Entering { .. } => Expected::EnteredHooks,
        TurnPhaseView::Calling { .. } => Expected::Return,
        TurnPhaseView::RecoveryCalling { .. } => Expected::Return,
        TurnPhaseView::Leaving { .. } => Expected::LeftHooks,
        TurnPhaseView::Finished => Expected::Nothing,
        _ => Expected::Commit,
    }
}

/// The context of a model request is there.
pub open spec fn request_built(run: TurnRunView) -> StepResult {
    step_to(
        run.core,
        empty_log(run.core.sequence).emit(
            TurnStreamEventView::Model(
                TurnModelEventView::RequestStarted { iteration: run.core.iteration },
            ),
        ),
        TurnPhaseView::Streaming,
        TurnCommandView::AwaitModel,
    )
}

/// What a report of the model changes.
pub open spec fn after_model_event(
    core: TurnCoreView,
    event: ModelStreamEventView,
    elapsed: nat,
) -> (
    TurnCoreView,
    EffectLogView,
) {
    let log = empty_log(core.sequence);
    match event {
        ModelStreamEventView::OutputProgress => (core, log),
        ModelStreamEventView::AssistantDelta { text } => {
            let log = if core.first_token_recorded {
                log
            } else {
                log.metric(RuntimeMetricView::TimeToFirstToken { duration: elapsed })
            };
            (
                TurnCoreView { first_token_recorded: true, ..core },
                log.emit(TurnStreamEventView::Model(TurnModelEventView::AssistantDelta { text })),
            )
        },
        ModelStreamEventView::TokenUsage { usage } => (
            TurnCoreView { usage: core.usage.plus(usage), ..core },
            log,
        ),
    }
}

} // verus!
