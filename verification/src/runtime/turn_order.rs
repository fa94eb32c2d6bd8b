//! Laws of a whole turn: every call is answered once and in order, and the model is asked no more
//! often than it may be.

use crate::json::JsonView;
use crate::kernel::events::{
    appended, lemma_turn_position, ThreadView, ToolResultView, TurnItemKindView, TurnItemSource,
    TurnItemView, TurnStatus,
};
use crate::kernel::model::{ModelFunctionCallView, ModelResponseView, ModelStreamEventView};
use crate::kernel::projection::{active_turn, pending_suspension};
use crate::runtime::agent_loop::{
    CallEndView, RecoveryMark, TurnCoreView, TurnPhaseView, TurnRunView,
};
use crate::runtime::error::{error_text, AgentErrorView};
use crate::runtime::functions::{FunctionCallExecutionView, RegisteredFunctionView};
use crate::runtime::metrics::RuntimeMetricView;
use crate::runtime::turn::{
    empty_log, EffectLogView, FunctionCallHookResultView, TraceEventKindView, TurnExecutionLimits,
    TurnOutcomeView,
};
use crate::runtime::turn_laws::{
    asks_for_calls, calls_to_come, is_awaited, is_sound, is_suspending, law_every_step_is_sound,
    law_turn_begins_soundly, lemma_appended, lemma_last_request, lemma_request_position, replied,
    TurnReply,
};
use crate::runtime::turn_rules::{
    abort_metrics, abort_reason, abort_records, aborting, admitted_calls, after_commit,
    after_entering, after_model_event, answer_parts, answered, asking, begin_recovery, begin_turn,
    call_cut_off, call_records, call_returned, closing, completed_event, cut_off_reason,
    effect_items, failing, failure_event, initial_core, initial_thread, is_output_of, last_request,
    last_requested, limit_reports, next_attempt, next_call, not_admitted, output_items,
    output_trace, pending_calls, pending_marks, recover_next, recovery_records, recovery_returned,
    request_status, response_trace, runtime_item, started_item, too_many_calls, turn_items,
    turn_started, with_usage, StepResult,
};
use vstd::prelude::*;

verus! {

/// The calls that some records are outputs of, in the order of the records.
pub open spec fn output_ids(items: Seq<TurnItemView>) -> Seq<Seq<char>>
    decreases items.len(),
{
    if items.len() == 0 {
        Seq::empty()
    } else {
        match items.last().kind {
            TurnItemKindView::ToolOutput { call_id, name: _, result: _ } => output_ids(
                items.drop_last(),
            ).push(call_id),
            _ => output_ids(items.drop_last()),
        }
    }
}

/// The names of some calls.
pub open spec fn call_ids(calls: Seq<ModelFunctionCallView>) -> Seq<Seq<char>> {
    calls.map_values(|call: ModelFunctionCallView| call.call_id)
}

/// The outputs behind the last request, and then the calls that are still to come, are the calls
/// that were asked for: each once, and in the order of the request.
pub open spec fn is_in_order(
    thread: ThreadView,
    turn_id: Seq<char>,
    to_come: Seq<ModelFunctionCallView>,
) -> bool {
    let (requested, behind) = last_requested(turn_items(thread, turn_id));
    output_ids(behind) + call_ids(to_come) == call_ids(requested)
}

/// A turn answers its calls in order, as long as it is not about to end suspended.
pub open spec fn is_orderly(run: TurnRunView) -> bool {
    is_suspending(run.phase) || run.phase is Finished || is_in_order(
        run.core.thread,
        run.core.turn_id,
        calls_to_come(run.phase),
    )
}

/// A step leaves the turn in order.
pub open spec fn is_orderly_step(step: StepResult) -> bool {
    step matches Ok(next) ==> is_orderly(next.run)
}

proof fn lemma_more_outputs(a: Seq<TurnItemView>, b: Seq<TurnItemView>)
    ensures
        output_ids(a + b) == output_ids(a) + output_ids(b),
    decreases b.len(),
{
    if b.len() == 0 {
        assert(a + b =~= a);
        assert(output_ids(a) + output_ids(b) =~= output_ids(a));
    } else {
        assert((a + b).drop_last() =~= a + b.drop_last());
        assert((a + b).last() == b.last());
        lemma_more_outputs(a, b.drop_last());
        assert(output_ids(a + b) =~= output_ids(a) + output_ids(b));
    }
}

proof fn lemma_no_outputs(items: Seq<TurnItemView>)
    requires
        forall|i: int| 0 <= i < items.len() ==> !((#[trigger] items[i]).kind is ToolOutput),
    ensures
        output_ids(items) == Seq::<Seq<char>>::empty(),
    decreases items.len(),
{
    if items.len() > 0 {
        let init = items.drop_last();
        assert forall|i: int| 0 <= i < init.len() implies !((#[trigger] init[i]).kind is ToolOutput) by {
            assert(init[i] == items[i]);
        }
        assert(!(items[items.len() - 1].kind is ToolOutput));
        lemma_no_outputs(init);
    }
}

proof fn lemma_all_outputs(items: Seq<TurnItemView>, calls: Seq<ModelFunctionCallView>)
    requires
        items.len() == calls.len(),
        forall|i: int|
            0 <= i < items.len() ==> is_output_of(#[trigger] items[i], calls[i].call_id),
    ensures
        output_ids(items) == call_ids(calls),
    decreases items.len(),
{
    if items.len() > 0 {
        let init = items.drop_last();
        assert forall|i: int| 0 <= i < init.len() implies is_output_of(
            #[trigger] init[i],
            calls.drop_last()[i].call_id,
        ) by {
            assert(is_output_of(items[i], calls[i].call_id));
        }
        assert(is_output_of(items[items.len() - 1], calls[items.len() - 1].call_id));
        lemma_all_outputs(init, calls.drop_last());
    }
    assert(output_ids(items) =~= call_ids(calls));
}

/// The outputs of the calls from a position on are those calls.
proof fn lemma_outputs_from(calls: Seq<ModelFunctionCallView>, from: int, result: ToolResultView)
    requires
        0 <= from <= calls.len(),
    ensures
        output_ids(output_items(calls, from, result)) == call_ids(calls.skip(from)),
        forall|i: int|
            0 <= i < output_items(calls, from, result).len() ==> !asks_for_calls(
                #[trigger] output_items(calls, from, result)[i],
            ),
{
    lemma_all_outputs(output_items(calls, from, result), calls.skip(from));
}

/// Records that ask for no calls, and answer the first of those to come, leave the others to come.
proof fn lemma_recorded(
    thread: ThreadView,
    turn_id: Seq<char>,
    items: Seq<TurnItemView>,
    status: Option<TurnStatus>,
    to_come: Seq<ModelFunctionCallView>,
    left: Seq<ModelFunctionCallView>,
)
    requires
        appended(thread, turn_id, items, status) is Some,
        is_in_order(thread, turn_id, to_come),
        forall|i: int| 0 <= i < items.len() ==> !asks_for_calls(#[trigger] items[i]),
        output_ids(items) + call_ids(left) == call_ids(to_come),
    ensures
        is_in_order(appended(thread, turn_id, items, status)->Some_0, turn_id, left),
{
    lemma_appended(thread, turn_id, items, status);
    let before = turn_items(thread, turn_id);
    lemma_last_request(before, items);
    lemma_request_position(before);
    match last_request(before) {
        None => {
            assert(call_ids(to_come).len() == 0);
            assert(output_ids(Seq::<TurnItemView>::empty()) + call_ids(left) =~= Seq::empty());
        },
        Some(at) => {
            let behind = before.skip(at + 1);
            assert((before + items).skip(at + 1) =~= behind + items);
            assert((before + items)[at] == before[at]);
            lemma_more_outputs(behind, items);
            assert(output_ids(behind) + output_ids(items) + call_ids(left) =~= output_ids(behind)
                + call_ids(to_come));
        },
    }
}

/// A new request has all of its calls to come.
proof fn lemma_requested(
    thread: ThreadView,
    turn_id: Seq<char>,
    item: TurnItemView,
    status: Option<TurnStatus>,
)
    requires
        appended(thread, turn_id, seq![item], status) is Some,
        asks_for_calls(item),
    ensures
        is_in_order(
            appended(thread, turn_id, seq![item], status)->Some_0,
            turn_id,
            item.kind->ModelResponse_function_calls,
        ),
{
    lemma_appended(thread, turn_id, seq![item], status);
    let items = turn_items(thread, turn_id) + seq![item];
    assert(items.last() == item);
    assert(last_request(items) == Some(items.len() - 1));
    assert(items.skip(items.len() as int) =~= Seq::empty());
    let (requested, behind) = last_requested(items);
    assert(output_ids(behind) =~= Seq::empty());
    assert(output_ids(behind) + call_ids(requested) =~= call_ids(requested));
}

proof fn lemma_same_turns(a: ThreadView, b: ThreadView, turn_id: Seq<char>)
    requires
        a.turns == b.turns,
    ensures
        turn_items(a, turn_id) == turn_items(b, turn_id),
{
}

proof fn lemma_closing(core: TurnCoreView, log: EffectLogView, outcome: TurnOutcomeView)
    requires
        outcome is Suspended || is_in_order(core.thread, core.turn_id, Seq::empty()),
    ensures
        is_orderly_step(closing(core, log, outcome)),
{
    lemma_same_turns(core.thread, with_usage(core.thread, core.usage), core.turn_id);
}

proof fn lemma_failing(core: TurnCoreView, log: EffectLogView, error: Seq<char>)
    requires
        is_in_order(core.thread, core.turn_id, Seq::empty()),
    ensures
        is_orderly_step(failing(core, log, error)),
{
    let items = seq![
        runtime_item(TurnItemKindView::TurnFailed { error }),
    ];
    let status = Some(TurnStatus::Failed);
    if appended(core.thread, core.turn_id, items, status) is Some {
        lemma_no_outputs(items);
        assert(output_ids(items) + call_ids(Seq::empty()) =~= call_ids(Seq::empty()));
        lemma_recorded(core.thread, core.turn_id, items, status, Seq::empty(), Seq::empty());
        let thread = appended(core.thread, core.turn_id, items, status)->Some_0;
        lemma_closing(
            TurnCoreView { thread, ..core },
            log,
            TurnOutcomeView::Failed { error },
        );
    }
}

proof fn lemma_asking(core: TurnCoreView, log: EffectLogView)
    requires
        is_in_order(core.thread, core.turn_id, Seq::empty()),
    ensures
        is_orderly_step(asking(core, log)),
{
    if core.iteration >= core.limits.max_model_iterations {
        lemma_failing(
            core,
            log,
            error_text(
                AgentErrorView::MaxIterations(core.limits.max_model_iterations),
            ),
        );
    }
}

proof fn lemma_aborting(core: TurnCoreView, log: EffectLogView)
    requires
        is_in_order(core.thread, core.turn_id, Seq::empty()),
    ensures
        is_orderly_step(aborting(core, log)),
{
    let reason = abort_reason();
    let items = seq![
        runtime_item(TurnItemKindView::TurnAborted { reason }),
    ];
    let status = Some(TurnStatus::Aborted);
    if appended(core.thread, core.turn_id, items, status) is Some {
        lemma_no_outputs(items);
        assert(output_ids(items) + call_ids(Seq::empty()) =~= call_ids(Seq::empty()));
        lemma_recorded(core.thread, core.turn_id, items, status, Seq::empty(), Seq::empty());
        let thread = appended(core.thread, core.turn_id, items, status)->Some_0;
        lemma_closing(
            TurnCoreView { thread, ..core },
            log,
            TurnOutcomeView::Aborted { reason },
        );
    }
}

proof fn lemma_next_call(
    core: TurnCoreView,
    log: EffectLogView,
    calls: Seq<ModelFunctionCallView>,
    admitted: usize,
    index: usize,
)
    requires
        is_in_order(core.thread, core.turn_id, calls.skip(index as int)),
        index <= admitted <= calls.len(),
    ensures
        is_orderly_step(next_call(core, log, calls, admitted, index)),
{
    if index < admitted {
    } else if admitted < calls.len() {
        let error = too_many_calls(core);
        let result = ToolResultView::Error {
            error: not_admitted(error),
        };
        let outputs = output_items(calls, admitted as int, result);
        let last = runtime_item(
            TurnItemKindView::TurnFailed { error },
        );
        let items = outputs.push(last);
        let status = Some(TurnStatus::Failed);
        if appended(core.thread, core.turn_id, items, status) is Some {
            lemma_outputs_from(calls, admitted as int, result);
            assert(items.drop_last() =~= outputs);
            assert(output_ids(items) == output_ids(outputs));
            assert forall|i: int| 0 <= i < items.len() implies !asks_for_calls(#[trigger] items[i]) by {
                if i < outputs.len() {
                    assert(items[i] == outputs[i]);
                }
            }
            assert(output_ids(items) + call_ids(Seq::empty()) =~= output_ids(items));
            lemma_recorded(
                core.thread,
                core.turn_id,
                items,
                status,
                calls.skip(index as int),
                Seq::empty(),
            );
        }
    } else {
        assert(calls.skip(index as int) =~= Seq::empty());
        let later = TurnCoreView { iteration: (core.iteration + 1) as usize, ..core };
        lemma_asking(later, log);
    }
}

proof fn lemma_answered(core: TurnCoreView, log: EffectLogView, response: ModelResponseView)
    requires
        is_in_order(core.thread, core.turn_id, Seq::empty()),
    ensures
        is_orderly_step(answered(core, log, response)),
{
    let (text, calls, continuation) = answer_parts(response);
    if text is None && calls.len() == 0 {
        lemma_failing(
            core,
            log,
            "model returned neither assistant text nor function calls"@,
        );
    } else {
        let item = TurnItemView {
            source: TurnItemSource::Model,
            kind: TurnItemKindView::ModelResponse { text, function_calls: calls, continuation },
        };
        let status = if calls.len() == 0 {
            Some(TurnStatus::Completed)
        } else {
            None
        };
        if appended(core.thread, core.turn_id, seq![item], status) is Some {
            if calls.len() == 0 {
                lemma_no_outputs(seq![item]);
                assert(output_ids(seq![item]) + call_ids(Seq::empty()) =~= call_ids(Seq::empty()));
                lemma_recorded(
                    core.thread,
                    core.turn_id,
                    seq![item],
                    status,
                    Seq::empty(),
                    Seq::empty(),
                );
            } else {
                lemma_requested(core.thread, core.turn_id, item, status);
            }
        }
    }
}

/// What a call that did not suspend the turn leaves behind is its output alone.
proof fn lemma_call_records(
    core: TurnCoreView,
    calls: Seq<ModelFunctionCallView>,
    index: int,
    execution: core::result::Result<FunctionCallExecutionView, AgentErrorView>,
    records: (Seq<TurnItemView>, Option<TurnStatus>, CallEndView),
)
    requires
        0 <= index < calls.len(),
        records == call_records(core, calls, index, execution) || records == recovery_records(
            core,
            calls,
            index,
            execution,
        ),
        records.2 is Completed || records.2 is Failed,
    ensures
        forall|i: int| 0 <= i < records.0.len() ==> !asks_for_calls(#[trigger] records.0[i]),
        output_ids(records.0) + call_ids(calls.skip(index + 1)) == call_ids(calls.skip(index)),
{
    let items = records.0;
    match execution {
        Ok(FunctionCallExecutionView::Completed { output, effects }) => {
            let told = effect_items(core.thread, effects);
            lemma_no_outputs(told);
            assert(items.drop_last() =~= told);
            assert(output_ids(items) =~= seq![calls[index].call_id]);
        },
        _ => {
            assert(items.len() == 1);
            assert(output_ids(items.drop_last()).len() == 0);
            assert(output_ids(items) =~= seq![calls[index].call_id]);
        },
    }
    assert(calls.skip(index)[0] == calls[index]);
    assert(seq![calls[index].call_id] + call_ids(calls.skip(index + 1)) =~= call_ids(
        calls.skip(index),
    ));
}

proof fn lemma_call_returned(
    core: TurnCoreView,
    log: EffectLogView,
    calls: Seq<ModelFunctionCallView>,
    admitted: usize,
    index: usize,
    entered: usize,
    execution: core::result::Result<FunctionCallExecutionView, AgentErrorView>,
    elapsed: nat,
)
    requires
        is_in_order(core.thread, core.turn_id, calls.skip(index as int)),
        index < calls.len(),
    ensures
        is_orderly_step(
            call_returned(core, log, calls, admitted, index, entered, execution, elapsed),
        ),
{
    let records = call_records(core, calls, index as int, execution);
    let (items, status, end) = records;
    if appended(core.thread, core.turn_id, items, status) is Some && (end is Completed || end
        is Failed) {
        lemma_call_records(core, calls, index as int, execution, records);
        lemma_recorded(
            core.thread,
            core.turn_id,
            items,
            status,
            calls.skip(index as int),
            calls.skip(index + 1),
        );
    }
}

/// What an abort leaves behind answers every call to come.
proof fn lemma_abort_records(
    thread: ThreadView,
    turn_id: Seq<char>,
    calls: Seq<ModelFunctionCallView>,
    index: int,
)
    requires
        0 <= index <= calls.len(),
        is_in_order(thread, turn_id, calls.skip(index)),
        appended(thread, turn_id, abort_records(calls, index), Some(TurnStatus::Aborted)) is Some,
    ensures
        is_in_order(
            appended(
                thread,
                turn_id,
                abort_records(calls, index),
                Some(TurnStatus::Aborted),
            )->Some_0,
            turn_id,
            Seq::empty(),
        ),
{
    let result = ToolResultView::Aborted {
        reason: cut_off_reason(),
    };
    let outputs = output_items(calls, index, result);
    let first = seq![
        runtime_item(
            TurnItemKindView::TurnAborted { reason: abort_reason() },
        ),
    ];
    let items = abort_records(calls, index);
    lemma_outputs_from(calls, index, result);
    lemma_no_outputs(first);
    lemma_more_outputs(first, outputs);
    assert forall|i: int| 0 <= i < items.len() implies !asks_for_calls(#[trigger] items[i]) by {
        if i >= 1 {
            assert(items[i] == outputs[i - 1]);
        }
    }
    assert(output_ids(items) + call_ids(Seq::empty()) =~= call_ids(calls.skip(index)));
    lemma_recorded(
        thread,
        turn_id,
        items,
        Some(TurnStatus::Aborted),
        calls.skip(index),
        Seq::empty(),
    );
}

proof fn lemma_call_cut_off(
    core: TurnCoreView,
    log: EffectLogView,
    calls: Seq<ModelFunctionCallView>,
    index: usize,
    elapsed: nat,
)
    requires
        is_in_order(core.thread, core.turn_id, calls.skip(index as int)),
        index <= calls.len(),
    ensures
        is_orderly_step(call_cut_off(core, log, calls, index, elapsed)),
{
    let items = abort_records(calls, index as int);
    let status = Some(TurnStatus::Aborted);
    if appended(core.thread, core.turn_id, items, status) is Some {
        lemma_abort_records(core.thread, core.turn_id, calls, index as int);
        let thread = appended(core.thread, core.turn_id, items, status)->Some_0;
        lemma_closing(
            TurnCoreView { thread, ..core },
            abort_metrics(log, calls, index as int, elapsed),
            TurnOutcomeView::Aborted { reason: abort_reason() },
        );
    }
}

/// The mark that a call was started leaves the calls to come as they are.
proof fn lemma_started(
    thread: ThreadView,
    turn_id: Seq<char>,
    call: ModelFunctionCallView,
    attempt: u32,
    to_come: Seq<ModelFunctionCallView>,
)
    requires
        is_in_order(thread, turn_id, to_come),
        appended(
            thread,
            turn_id,
            seq![started_item(call, attempt)],
            None,
        ) is Some,
    ensures
        is_in_order(
            appended(
                thread,
                turn_id,
                seq![started_item(call, attempt)],
                None,
            )->Some_0,
            turn_id,
            to_come,
        ),
{
    let items = seq![started_item(call, attempt)];
    lemma_no_outputs(items);
    assert(output_ids(items) + call_ids(to_come) =~= call_ids(to_come));
    lemma_recorded(thread, turn_id, items, None, to_come, to_come);
}

proof fn lemma_after_entering(
    core: TurnCoreView,
    calls: Seq<ModelFunctionCallView>,
    admitted: usize,
    index: usize,
    entered: usize,
    allowed: core::result::Result<(), AgentErrorView>,
    elapsed: nat,
)
    requires
        is_in_order(core.thread, core.turn_id, calls.skip(index as int)),
        index < calls.len(),
    ensures
        is_orderly_step(after_entering(core, calls, admitted, index, entered, allowed, elapsed)),
{
    match allowed {
        Ok(_) => {
            let call = calls[index as int];
            let items = seq![started_item(call, 1)];
            if appended(core.thread, core.turn_id, items, None) is Some {
                lemma_started(core.thread, core.turn_id, call, 1, calls.skip(index as int));
            }
        },
        Err(error) => {
            lemma_call_returned(
                core,
                empty_log(core.sequence),
                calls,
                admitted,
                index,
                entered,
                Err(error),
                elapsed,
            );
        },
    }
}

proof fn lemma_recover_next(
    core: TurnCoreView,
    log: EffectLogView,
    calls: Seq<ModelFunctionCallView>,
    marks: Seq<RecoveryMark>,
    index: usize,
)
    requires
        is_in_order(core.thread, core.turn_id, calls.skip(index as int)),
        index <= calls.len(),
    ensures
        is_orderly_step(recover_next(core, log, calls, marks, index)),
{
    if index >= calls.len() {
        assert(calls.skip(index as int) =~= Seq::empty());
        lemma_asking(core, log);
    } else {
        let call = calls[index as int];
        let attempt = next_attempt(marks[index as int].started);
        let items = seq![started_item(call, attempt)];
        if appended(core.thread, core.turn_id, items, None) is Some {
            lemma_started(core.thread, core.turn_id, call, attempt, calls.skip(index as int));
        }
    }
}

proof fn lemma_recovery_returned(
    core: TurnCoreView,
    calls: Seq<ModelFunctionCallView>,
    marks: Seq<RecoveryMark>,
    index: usize,
    execution: Option<core::result::Result<FunctionCallExecutionView, AgentErrorView>>,
    elapsed: nat,
)
    requires
        is_in_order(core.thread, core.turn_id, calls.skip(index as int)),
        index < calls.len(),
    ensures
        is_orderly_step(recovery_returned(core, calls, marks, index, execution, elapsed)),
{
    match execution {
        None => {
            let items = abort_records(calls, index as int);
            if appended(core.thread, core.turn_id, items, Some(TurnStatus::Aborted)) is Some {
                lemma_abort_records(core.thread, core.turn_id, calls, index as int);
            }
        },
        Some(execution) => {
            let records = recovery_records(core, calls, index as int, execution);
            let (items, status, end) = records;
            if appended(core.thread, core.turn_id, items, status) is Some && (end is Completed
                || end is Failed) {
                lemma_call_records(core, calls, index as int, execution, records);
                lemma_recorded(
                    core.thread,
                    core.turn_id,
                    items,
                    status,
                    calls.skip(index as int),
                    calls.skip(index + 1),
                );
            }
        },
    }
}

/// A commit leaves the turn in order.
proof fn lemma_after_commit(run: TurnRunView, thread: ThreadView, elapsed: nat)
    requires
        is_sound(run),
        is_orderly(run),
        thread == (ThreadView { revision: thread.revision, ..run.core.thread }),
    ensures
        is_orderly_step(after_commit(run, thread, elapsed)),
{
    let core = TurnCoreView { thread, ..run.core };
    let log = empty_log(core.sequence);
    lemma_same_turns(thread, run.core.thread, core.turn_id);
    match run.phase {
        TurnPhaseView::Opening { text } => {
            lemma_asking(
                core,
                log.trace(
                    TraceEventKindView::UserInput { text, response_to: None },
                ).state(turn_started(core)),
            );
        },
        TurnPhaseView::Answering { text } => {
            lemma_closing(
                core,
                log.trace(
                    response_trace(Some(text), Seq::empty()),
                ),
                TurnOutcomeView::AssistantMessage { text },
            );
        },
        TurnPhaseView::Requested { text, calls } => {
            let admitted = admitted_calls(core, calls.len());
            assert(calls.skip(0) =~= calls);
            lemma_next_call(
                TurnCoreView {
                    function_call_count: (core.function_call_count + admitted) as usize,
                    ..core
                },
                log.trace(response_trace(text, calls)),
                calls,
                admitted,
                0,
            );
        },
        TurnPhaseView::Limiting { calls, admitted, error } => {
            lemma_closing(
                core,
                limit_reports(
                    log,
                    calls,
                    admitted as int,
                    calls.len() as int,
                    not_admitted(error),
                ),
                TurnOutcomeView::Failed { error },
            );
        },
        TurnPhaseView::RecoveryRecording { calls, marks, index, end } => {
            let call = calls[index as int];
            let next = (index + 1) as usize;
            match end {
                CallEndView::Completed { output } => {
                    lemma_recover_next(
                        core,
                        log.trace(
                            output_trace(
                                call,
                                ToolResultView::Success { output },
                            ),
                        ).state(completed_event(call)),
                        calls,
                        marks,
                        next,
                    );
                },
                CallEndView::Failed { error } => {
                    lemma_recover_next(
                        core,
                        log.state(failure_event(call, error)),
                        calls,
                        marks,
                        next,
                    );
                },
                _ => {},
            }
        },
        TurnPhaseView::RecoveryAborting => {
            lemma_closing(
                core,
                log,
                TurnOutcomeView::Aborted { reason: abort_reason() },
            );
        },
        _ => {},
    }
}

/// Every step keeps the calls in order: the outputs behind the last request, and then the calls that
/// are still to come, are the calls that were asked for.
pub proof fn law_every_step_keeps_the_order(run: TurnRunView, reply: TurnReply)
    requires
        is_sound(run),
        is_orderly(run),
        is_awaited(run, reply),
    ensures
        is_orderly_step(replied(run, reply)),
{
    let core = run.core;
    match reply {
        TurnReply::Committed { thread, elapsed } => {
            lemma_after_commit(run, thread, elapsed);
        },
        TurnReply::RequestBuilt => {},
        TurnReply::Answered { response, elapsed } => {
            let log = empty_log(core.sequence).metric(
                RuntimeMetricView::ModelRequestFinished {
                    status: request_status(response),
                    duration: elapsed,
                },
            );
            match response {
                None => {
                    lemma_aborting(core, log);
                },
                Some(Err(error)) => {
                    lemma_failing(core, log, error_text(error));
                },
                Some(Ok(response)) => {
                    lemma_answered(core, log, response);
                },
            }
        },
        TurnReply::HooksEntered { entered, allowed, elapsed } => {
            if let TurnPhaseView::Entering { calls, admitted, index } = run.phase {
                lemma_after_entering(core, calls, admitted, index, entered, allowed, elapsed);
            }
        },
        TurnReply::Returned { execution, elapsed } => {
            match run.phase {
                TurnPhaseView::Calling { calls, admitted, index, entered } => match execution {
                    Some(execution) => {
                        lemma_call_returned(
                            core,
                            empty_log(core.sequence),
                            calls,
                            admitted,
                            index,
                            entered,
                            execution,
                            elapsed,
                        );
                    },
                    None => {
                        lemma_call_cut_off(
                            core,
                            empty_log(core.sequence),
                            calls,
                            index,
                            elapsed,
                        );
                    },
                },
                TurnPhaseView::RecoveryCalling { calls, marks, index } => {
                    lemma_recovery_returned(core, calls, marks, index, execution, elapsed);
                },
                _ => {},
            }
        },
        TurnReply::HooksLeft => {
            if let TurnPhaseView::Leaving { calls, admitted, index, result } = run.phase {
                let log = empty_log(core.sequence);
                let call = calls[index as int];
                let next = (index + 1) as usize;
                match result {
                    FunctionCallHookResultView::Completed { output } => {
                        lemma_next_call(
                            core,
                            log.state(completed_event(call)),
                            calls,
                            admitted,
                            next,
                        );
                    },
                    FunctionCallHookResultView::Failed { error } => {
                        lemma_next_call(
                            core,
                            log.state(failure_event(call, error)),
                            calls,
                            admitted,
                            next,
                        );
                    },
                    _ => {},
                }
            }
        },
    }
}

/// A new turn begins in order, given a name that no turn of the thread has.
pub proof fn law_turn_begins_in_order(
    thread_id: Seq<char>,
    loaded: core::result::Result<ThreadView, AgentErrorView>,
    metadata: JsonView,
    user_text: Seq<char>,
    turn_id: Seq<char>,
    limits: TurnExecutionLimits,
)
    requires
        loaded matches Ok(thread) ==> forall|i: int|
            0 <= i < thread.turns.len() ==> (#[trigger] thread.turns[i]).id != turn_id,
    ensures
        begin_turn(thread_id, loaded, metadata, user_text, turn_id, limits) matches Ok(step)
            ==> is_orderly(step.run),
{
    if let Ok(step) = begin_turn(thread_id, loaded, metadata, user_text, turn_id, limits) {
        let thread = initial_thread(thread_id, loaded, Some(metadata))->Ok_0;
        let turns = step.run.core.thread.turns;
        assert forall|i: int| 0 <= i < turns.len() - 1 implies (#[trigger] turns[i]).id != turn_id by {
            assert(turns[i] == thread.turns[i]);
        }
        lemma_turn_position(turns, turn_id, (turns.len() - 1) as nat);
        let items = turn_items(step.run.core.thread, turn_id);
        assert(items.len() == 1);
        assert(!asks_for_calls(items[0]));
        assert(items.drop_last().len() == 0);
        assert(last_request(items) == last_request(items.drop_last()));
        let (requested, behind) = last_requested(items);
        assert(output_ids(behind) + call_ids(Seq::empty()) =~= call_ids(requested));
    }
}

/// A recovery begins in order where the turn was left in order: what is without an output is the end
/// of what was asked for.
pub proof fn law_recovery_begins_in_order(
    thread_id: Seq<char>,
    loaded: core::result::Result<ThreadView, AgentErrorView>,
    functions: Map<Seq<char>, RegisteredFunctionView>,
    limits: TurnExecutionLimits,
    sequence: u64,
    suspension_id: Seq<char>,
)
    requires
        initial_thread(thread_id, loaded, None) matches Ok(thread) ==> (active_turn(thread.turns)
            matches Some(turn_id) ==> is_in_order(
            thread,
            turn_id,
            pending_calls(thread, turn_id),
        )),
    ensures
        is_orderly_step(
            begin_recovery(thread_id, loaded, functions, limits, sequence, suspension_id),
        ),
{
    if let Ok(thread) = initial_thread(thread_id, loaded, None) {
        if pending_suspension(thread.turns) is None {
            if let Some(turn_id) = active_turn(thread.turns) {
                let core = initial_core(
                    thread_id,
                    turn_id,
                    thread,
                    limits,
                    sequence,
                    suspension_id,
                );
                let calls = pending_calls(thread, turn_id);
                assert(calls.skip(0) =~= calls);
                lemma_recover_next(
                    core,
                    empty_log(sequence).state(turn_started(core)),
                    calls,
                    pending_marks(thread, turn_id, functions),
                    0,
                );
            }
        }
    }
}

/// How many of some records are outputs of a call.
pub open spec fn outputs_of(items: Seq<TurnItemView>, call_id: Seq<char>) -> nat
    decreases items.len(),
{
    if items.len() == 0 {
        0
    } else if is_output_of(items.last(), call_id) {
        outputs_of(items.drop_last(), call_id) + 1
    } else {
        outputs_of(items.drop_last(), call_id)
    }
}

proof fn lemma_one_output(items: Seq<TurnItemView>, call_id: Seq<char>)
    requires
        output_ids(items).no_duplicates(),
    ensures
        outputs_of(items, call_id) == if output_ids(items).contains(call_id) {
            1nat
        } else {
            0nat
        },
    decreases items.len(),
{
    if items.len() > 0 {
        let ids = output_ids(items);
        let init = output_ids(items.drop_last());
        if items.last().kind is ToolOutput {
            assert(ids.drop_last() =~= init);
            assert forall|i: int, j: int|
                0 <= i < init.len() && 0 <= j < init.len() && i != j implies init[i] != init[j] by {
                assert(ids[i] != ids[j]);
            }
            assert(ids[ids.len() - 1] == items.last().kind->ToolOutput_call_id);
            assert(forall|i: int| 0 <= i < init.len() ==> ids[i] == init[i]);
            assert forall|id: Seq<char>| #[trigger] ids.contains(id) <==> init.contains(id) || id
                == ids.last() by {
                if ids.contains(id) && id != ids.last() {
                    let i = choose|i: int| 0 <= i < ids.len() && ids[i] == id;
                    assert(init[i] == id);
                }
                if init.contains(id) {
                    let i = choose|i: int| 0 <= i < init.len() && init[i] == id;
                    assert(ids[i] == id);
                }
            }
            assert(!init.contains(ids.last())) by {
                if init.contains(ids.last()) {
                    let i = choose|i: int| 0 <= i < init.len() && init[i] == ids.last();
                    assert(ids[i] != ids[ids.len() - 1]);
                }
            }
        }
        lemma_one_output(items.drop_last(), call_id);
    }
}

/// Before the model is asked, and while its answer is awaited, the outputs behind the last request
/// are those of the calls that were asked for, in the order of the request; and where the calls have
/// different names, each has exactly one output.
pub proof fn law_calls_are_answered_once_and_in_order(run: TurnRunView)
    requires
        is_orderly(run),
        run.phase is Asking || run.phase is Streaming,
    ensures
        ({
            let (requested, behind) = last_requested(
                turn_items(run.core.thread, run.core.turn_id),
            );
            &&& output_ids(behind) == call_ids(requested)
            &&& call_ids(requested).no_duplicates() ==> forall|i: int|
                0 <= i < requested.len() ==> outputs_of(
                    behind,
                    (#[trigger] requested[i]).call_id,
                ) == 1
        }),
{
    let (requested, behind) = last_requested(turn_items(run.core.thread, run.core.turn_id));
    assert(output_ids(behind) + call_ids(Seq::empty()) =~= output_ids(behind));
    if call_ids(requested).no_duplicates() {
        assert forall|i: int| 0 <= i < requested.len() implies outputs_of(
            behind,
            (#[trigger] requested[i]).call_id,
        ) == 1 by {
            assert(call_ids(requested)[i] == requested[i].call_id);
            lemma_one_output(behind, requested[i].call_id);
        }
    }
}

/// How often a turn can have asked the model by the time that it is where it is.
pub open spec fn most_requests(run: TurnRunView) -> nat {
    match run.phase {
        TurnPhaseView::Streaming => run.core.iteration as nat + 1,
        TurnPhaseView::Requested { .. } => run.core.iteration as nat + 1,
        TurnPhaseView::Entering { .. } => run.core.iteration as nat + 1,
        TurnPhaseView::Starting { .. } => run.core.iteration as nat + 1,
        TurnPhaseView::Calling { .. } => run.core.iteration as nat + 1,
        TurnPhaseView::Recording { .. } => run.core.iteration as nat + 1,
        TurnPhaseView::Leaving { .. } => run.core.iteration as nat + 1,
        TurnPhaseView::Answering { .. } => run.core.limits.max_model_iterations as nat,
        TurnPhaseView::Limiting { .. } => run.core.limits.max_model_iterations as nat,
        TurnPhaseView::Closing { .. } => run.core.limits.max_model_iterations as nat,
        TurnPhaseView::Finished => run.core.limits.max_model_iterations as nat,
        _ => run.core.iteration as nat,
    }
}

/// A step makes room for the request that it sends, if it sends one.
proof fn lemma_requests_are_counted(run: TurnRunView, reply: TurnReply)
    requires
        is_sound(run),
        is_awaited(run, reply),
    ensures
        replied(run, reply) matches Ok(next) ==> {
            &&& most_requests(run) + (if reply is RequestBuilt {
                1nat
            } else {
                0nat
            }) <= most_requests(next.run)
            &&& most_requests(next.run) <= run.core.limits.max_model_iterations
        },
{
    law_every_step_is_sound(run, reply);
}

/// What happens to a turn: a reply that it waits for, or a report of the model that it asked.
pub enum TurnMove {
    Reply { reply: TurnReply },
    Report { event: ModelStreamEventView, elapsed: nat },
}

/// One run follows from another.
pub open spec fn follows(run: TurnRunView, action: TurnMove, next: TurnRunView) -> bool {
    match action {
        TurnMove::Reply { reply } => {
            &&& is_awaited(run, reply)
            &&& replied(run, reply) is Ok
            &&& replied(run, reply)->Ok_0.run == next
        },
        TurnMove::Report { event, elapsed } => {
            &&& run.phase is Streaming
            &&& next == (TurnRunView {
                core: after_model_event(run.core, event, elapsed).0,
                phase: run.phase,
            })
        },
    }
}

/// The runs of a turn, one after the other.
pub open spec fn is_turn_course(runs: Seq<TurnRunView>, moves: Seq<TurnMove>) -> bool {
    &&& runs.len() == moves.len() + 1
    &&& forall|i: int| 0 <= i < moves.len() ==> follows(runs[i], #[trigger] moves[i], runs[i + 1])
}

/// How often the model is asked in the course of a turn.
pub open spec fn requests_sent(moves: Seq<TurnMove>) -> nat
    decreases moves.len(),
{
    if moves.len() == 0 {
        0
    } else {
        requests_sent(moves.drop_last()) + (if moves.last() matches TurnMove::Reply { reply }
            && reply is RequestBuilt {
            1nat
        } else {
            0nat
        })
    }
}

proof fn lemma_course(runs: Seq<TurnRunView>, moves: Seq<TurnMove>)
    requires
        is_turn_course(runs, moves),
        is_sound(runs[0]),
        is_orderly(runs[0]),
        most_requests(runs[0]) == 0,
    ensures
        is_sound(runs.last()),
        is_orderly(runs.last()),
        requests_sent(moves) <= most_requests(runs.last()),
        requests_sent(moves) <= runs[0].core.limits.max_model_iterations,
        runs.last().core.limits == runs[0].core.limits,
    decreases moves.len(),
{
    if moves.len() > 0 {
        let earlier = runs.drop_last();
        let before = moves.drop_last();
        assert forall|i: int| 0 <= i < before.len() implies follows(
            earlier[i],
            #[trigger] before[i],
            earlier[i + 1],
        ) by {
            assert(follows(runs[i], moves[i], runs[i + 1]));
        }
        lemma_course(earlier, before);
        let run = earlier.last();
        let action = moves.last();
        assert(follows(runs[moves.len() - 1], moves[moves.len() - 1], runs[moves.len() as int]));
        assert(runs[moves.len() - 1] == run);
        match action {
            TurnMove::Reply { reply } => {
                law_every_step_is_sound(run, reply);
                law_every_step_keeps_the_order(run, reply);
                lemma_requests_are_counted(run, reply);
            },
            TurnMove::Report { event, elapsed } => {},
        }
    }
}

/// A turn that begins with the user's input asks the model at most as often as it may; and wherever
/// it has come to, it is sound and answers its calls in order, so that
/// [`law_model_waits_for_every_call`] and [`law_calls_are_answered_once_and_in_order`] hold of every
/// request.
///
/// [`law_model_waits_for_every_call`]: crate::runtime::turn_laws::law_model_waits_for_every_call
pub proof fn law_turn_asks_no_more_than_it_may(
    thread_id: Seq<char>,
    loaded: core::result::Result<ThreadView, AgentErrorView>,
    metadata: JsonView,
    user_text: Seq<char>,
    turn_id: Seq<char>,
    limits: TurnExecutionLimits,
    runs: Seq<TurnRunView>,
    moves: Seq<TurnMove>,
)
    requires
        loaded matches Ok(thread) ==> forall|i: int|
            0 <= i < thread.turns.len() ==> (#[trigger] thread.turns[i]).id != turn_id,
        begin_turn(thread_id, loaded, metadata, user_text, turn_id, limits) is Ok,
        is_turn_course(runs, moves),
        runs[0] == begin_turn(
            thread_id,
            loaded,
            metadata,
            user_text,
            turn_id,
            limits,
        )->Ok_0.run,
    ensures
        requests_sent(moves) <= limits.max_model_iterations,
        forall|i: int|
            0 <= i < runs.len() ==> is_sound(#[trigger] runs[i]) && is_orderly(runs[i]),
{
    law_turn_begins_soundly(thread_id, loaded, metadata, user_text, turn_id, limits);
    law_turn_begins_in_order(thread_id, loaded, metadata, user_text, turn_id, limits);
    lemma_course(runs, moves);
    assert forall|i: int| 0 <= i < runs.len() implies is_sound(#[trigger] runs[i]) && is_orderly(
        runs[i],
    ) by {
        let earlier = runs.take(i + 1);
        let before = moves.take(i);
        assert forall|j: int| 0 <= j < before.len() implies follows(
            earlier[j],
            #[trigger] before[j],
            earlier[j + 1],
        ) by {
            assert(follows(runs[j], moves[j], runs[j + 1]));
        }
        lemma_course(earlier, before);
        assert(earlier.last() == runs[i]);
    }
}

} // verus!
