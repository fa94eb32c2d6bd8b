//! What the recovery of an interrupted turn does with the calls that were left open.

use crate::json::{JsonView, NumberView};
use crate::kernel::events::{
    turn_position, SuspensionKind, SuspensionView, ThreadView, TokenUsage, ToolResultView,
    TurnItemKindView, TurnItemView, TurnStatus,
};
use crate::kernel::model::ModelFunctionCallView;
use crate::kernel::projection::{active_turn, pending_suspension};
use crate::runtime::agent_loop::{
    CallEndView, RecoveryMark, TurnCommandView, TurnCoreView, TurnPhaseView, TurnRunView,
    TurnStepView,
};
use crate::runtime::error::{error_text, AgentErrorView};
use crate::runtime::functions::{
    FunctionCallExecutionView, FunctionRecoveryPolicy, RegisteredFunctionView,
};
use crate::runtime::metrics::{FunctionCallOutcome, FunctionCallSkipReason, RuntimeMetricView};
use crate::runtime::record_laws::{
    after_number, all_given, asks, call_measured, commits, ends, goals_set, held_back, is_first,
    lemma_asking, lemma_closing, lemma_first, lemma_recorded, lemma_skips_measured, noted,
    output_of, output_traced, skips_measured, told, told_to_function, traced,
};
use crate::runtime::turn::{
    empty_log, EffectLogView, TraceEventKindView, TurnEffectView, TurnExecutionLimits,
    TurnOutcomeView, TurnStateEventView,
};
use crate::runtime::turn_rules::{
    after_call, after_commit, begin_recovery, last_attempt, last_request, pending_calls,
    pending_marks, recover_next, unanswered, StepResult,
};
use vstd::prelude::*;

verus! {

/// A record is an answer that asks for calls.
pub open spec fn is_request(item: TurnItemView) -> bool {
    item.kind is ModelResponse && item.kind->ModelResponse_function_calls.len() > 0
}

/// Among some records there is an output of a call.
pub open spec fn is_answered(behind: Seq<TurnItemView>, call_id: Seq<char>) -> bool {
    exists|i: int| 0 <= i < behind.len() && (#[trigger] behind[i]).kind is ToolOutput
        && behind[i].kind->ToolOutput_call_id == call_id
}

/// A record marks that a call was started.
pub open spec fn starts(item: TurnItemView, call_id: Seq<char>) -> bool {
    item.kind is FunctionCallStarted && item.kind->FunctionCallStarted_call_id == call_id
}

/// The attempt in which a call was started last.
pub open spec fn was_started_last(
    behind: Seq<TurnItemView>,
    call_id: Seq<char>,
    attempt: Option<u32>,
) -> bool {
    match attempt {
        Some(attempt) => exists|i: int|
            0 <= i < behind.len() && starts(#[trigger] behind[i], call_id)
                && behind[i].kind->FunctionCallStarted_attempt == attempt && forall|j: int|
                i < j < behind.len() ==> !starts(#[trigger] behind[j], call_id),
        None => forall|j: int| 0 <= j < behind.len() ==> !starts(#[trigger] behind[j], call_id),
    }
}

proof fn lemma_last_request(items: Seq<TurnItemView>)
    ensures
        match last_request(items) {
            Some(i) => 0 <= i < items.len() && is_request(items[i]) && forall|j: int|
                i < j < items.len() ==> !is_request(#[trigger] items[j]),
            None => forall|j: int| 0 <= j < items.len() ==> !is_request(#[trigger] items[j]),
        },
    decreases items.len(),
{
    if items.len() > 0 && !is_request(items.last()) {
        let init = items.drop_last();
        lemma_last_request(init);
        let from: int = match last_request(init) {
            Some(i) => i,
            None => -1,
        };
        assert forall|j: int| from < j < items.len() implies !is_request(#[trigger] items[j]) by {
            if j < init.len() {
                assert(items[j] == init[j]);
            }
        }
    }
}

proof fn lemma_last_attempt(items: Seq<TurnItemView>, call_id: Seq<char>)
    ensures
        was_started_last(items, call_id, last_attempt(items, call_id)),
    decreases items.len(),
{
    if items.len() > 0 {
        if starts(items.last(), call_id) {
            assert(starts(items[items.len() - 1], call_id));
        } else {
            let init = items.drop_last();
            lemma_last_attempt(init, call_id);
            match last_attempt(init, call_id) {
                Some(attempt) => {
                    let i = choose|i: int|
                        0 <= i < init.len() && starts(#[trigger] init[i], call_id)
                            && init[i].kind->FunctionCallStarted_attempt == attempt && forall|j: int|
                            i < j < init.len() ==> !starts(#[trigger] init[j], call_id);
                    assert(items[i] == init[i]);
                    assert forall|j: int| i < j < items.len() implies !starts(
                        #[trigger] items[j],
                        call_id,
                    ) by {
                        if j < init.len() {
                            assert(items[j] == init[j]);
                        }
                    }
                },
                None => {
                    assert forall|j: int| 0 <= j < items.len() implies !starts(
                        #[trigger] items[j],
                        call_id,
                    ) by {
                        if j < init.len() {
                            assert(items[j] == init[j]);
                        }
                    }
                },
            }
        }
    }
}

proof fn lemma_unanswered(calls: Seq<ModelFunctionCallView>, behind: Seq<TurnItemView>)
    ensures
        unanswered(calls, behind) == calls.filter(
            |call: ModelFunctionCallView| !is_answered(behind, call.call_id),
        ),
    decreases calls.len(),
{
    reveal(Seq::filter);
    if calls.len() > 0 {
        lemma_unanswered(calls.drop_last(), behind);
        let id = calls.last().call_id;
        assert(crate::runtime::turn_rules::has_output(behind, id) == is_answered(behind, id)) by {
            if crate::runtime::turn_rules::has_output(behind, id) {
                let i = choose|i: int|
                    0 <= i < behind.len() && crate::runtime::turn_rules::is_output_of(
                        #[trigger] behind[i],
                        id,
                    );
                assert(behind[i].kind is ToolOutput);
            }
            if is_answered(behind, id) {
                let i = choose|i: int|
                    0 <= i < behind.len() && (#[trigger] behind[i]).kind is ToolOutput
                        && behind[i].kind->ToolOutput_call_id == id;
                assert(crate::runtime::turn_rules::is_output_of(behind[i], id));
            }
        }
    }
}

/// The calls that a turn left open, and what is known of them.
pub open spec fn are_open(
    items: Seq<TurnItemView>,
    functions: Map<Seq<char>, RegisteredFunctionView>,
    calls: Seq<ModelFunctionCallView>,
    marks: Seq<RecoveryMark>,
) -> bool {
    if forall|j: int| 0 <= j < items.len() ==> !is_request(#[trigger] items[j]) {
        calls.len() == 0 && marks.len() == 0
    } else {
        exists|i: int|
            0 <= i < items.len() && is_request(#[trigger] items[i]) && (forall|j: int|
                i < j < items.len() ==> !is_request(#[trigger] items[j])) && calls
                == items[i].kind->ModelResponse_function_calls.filter(
                |call: ModelFunctionCallView| !is_answered(items.skip(i + 1), call.call_id),
            ) && marks.len() == calls.len() && forall|k: int|
                0 <= k < calls.len() ==> was_started_last(
                    items.skip(i + 1),
                    calls[k].call_id,
                    (#[trigger] marks[k]).started,
                ) && marks[k].policy == if functions.contains_key(calls[k].name) {
                    Some(functions[calls[k].name].descriptor.recovery_policy)
                } else {
                    None::<FunctionRecoveryPolicy>
                }
    }
}

/// The calls that a recovery takes up are those of the last answer that asks for calls, in its order,
/// without those that have an output behind it; of each it is known in which attempt it was started
/// last, if at all, and whether its function can be called again.
pub proof fn law_open_calls_are_those_without_output(
    thread: ThreadView,
    turn_id: Seq<char>,
    functions: Map<Seq<char>, RegisteredFunctionView>,
)
    ensures
        forall|t: int| #[trigger] is_first(thread.turns, turn_id, t) ==> are_open(
            thread.turns[t].items,
            functions,
            pending_calls(thread, turn_id),
            pending_marks(thread, turn_id, functions),
        ),
{
    lemma_first(thread.turns, turn_id);
    let at = turn_position(thread.turns, turn_id) as int;
    assert forall|t: int| #[trigger] is_first(thread.turns, turn_id, t) implies are_open(
        thread.turns[t].items,
        functions,
        pending_calls(thread, turn_id),
        pending_marks(thread, turn_id, functions),
    ) by {
        if t < at {
            assert(thread.turns[t].id != turn_id);
        } else if at < t {
            assert(thread.turns[at].id != turn_id);
        }
        let items = thread.turns[t].items;
        let calls = pending_calls(thread, turn_id);
        let marks = pending_marks(thread, turn_id, functions);
        lemma_last_request(items);
        match last_request(items) {
            None => {},
            Some(i) => {
                let behind = items.skip(i + 1);
                lemma_unanswered(items[i].kind->ModelResponse_function_calls, behind);
                assert forall|k: int| 0 <= k < calls.len() implies was_started_last(
                    behind,
                    calls[k].call_id,
                    (#[trigger] marks[k]).started,
                ) by {
                    lemma_last_attempt(behind, calls[k].call_id);
                }
                assert(is_request(items[i]));
            },
        }
    }
}

/// The attempt behind the one in which a call was started last.
pub open spec fn attempt_behind(started: Option<u32>) -> u32 {
    match started {
        None => 1,
        Some(attempt) => if attempt < u32::MAX {
            (attempt + 1) as u32
        } else {
            u32::MAX
        },
    }
}

/// The suspension with which a recovery asks what to do.
pub open spec fn asks_what_to_do(
    id: Seq<char>,
    call: ModelFunctionCallView,
    attempt: u32,
    suspension: SuspensionView,
) -> bool {
    &&& suspension.id == id
    &&& suspension.kind == SuspensionKind::FunctionRecovery
    &&& suspension.payload is Object
    &&& ({
        let members = suspension.payload->Object_0;
        &&& members.dom() == set![
            "call_id"@,
            "name"@,
            "attempt"@,
            "deferred"@,
            "recovery"@,
            "reason"@,
        ]
        &&& members["call_id"@] == JsonView::Text(call.call_id)
        &&& members["name"@] == JsonView::Text(call.name)
        &&& members["attempt"@] == JsonView::Number(NumberView::Unsigned(attempt as u64))
        &&& members["deferred"@] == JsonView::Bool(true)
        &&& members["recovery"@] == JsonView::Bool(true)
        &&& members["reason"@] == JsonView::Text(
            "function started but no terminal output was recorded"@,
        )
    })
}

proof fn lemma_suspension(id: Seq<char>, call: ModelFunctionCallView, attempt: u32)
    ensures
        asks_what_to_do(
            id,
            call,
            attempt,
            crate::runtime::turn_rules::recovery_suspension(id, call, attempt),
        ),
{
    reveal_strlit("call_id");
    reveal_strlit("name");
    reveal_strlit("attempt");
    reveal_strlit("deferred");
    reveal_strlit("recovery");
    reveal_strlit("reason");
    assert("call_id"@.len() != "name"@.len());
    assert("call_id"@[0] != "attempt"@[0]);
    assert("call_id"@.len() != "deferred"@.len());
    assert("call_id"@.len() != "recovery"@.len());
    assert("call_id"@.len() != "reason"@.len());
    assert("name"@.len() != "attempt"@.len());
    assert("name"@.len() != "deferred"@.len());
    assert("name"@.len() != "recovery"@.len());
    assert("name"@.len() != "reason"@.len());
    assert("attempt"@.len() != "deferred"@.len());
    assert("attempt"@.len() != "recovery"@.len());
    assert("attempt"@.len() != "reason"@.len());
    assert("deferred"@[0] != "recovery"@[0]);
    assert("deferred"@.len() != "reason"@.len());
    assert("recovery"@.len() != "reason"@.len());
    let members = crate::runtime::turn_rules::recovery_suspension(
        id,
        call,
        attempt,
    ).payload->Object_0;
    assert(members.dom() =~= set![
        "call_id"@,
        "name"@,
        "attempt"@,
        "deferred"@,
        "recovery"@,
        "reason"@,
    ]);
}

/// The open call at a position is taken up: where its function is not registered the recovery fails;
/// where it was started and must not be repeated the turn asks what to do; otherwise it is marked as
/// started once more. Behind the last one the model is asked.
pub open spec fn recovers(
    result: StepResult,
    core: TurnCoreView,
    calls: Seq<ModelFunctionCallView>,
    marks: Seq<RecoveryMark>,
    index: usize,
    effects: Seq<TurnEffectView>,
) -> bool {
    if index >= calls.len() {
        asks(result, core, effects)
    } else {
        let call = calls[index as int];
        let mark = marks[index as int];
        let attempt = attempt_behind(mark.started);
        if mark.policy is None {
            result == Ok::<TurnStepView, AgentErrorView>(
                TurnStepView {
                    run: TurnRunView { core, phase: TurnPhaseView::Finished },
                    effects,
                    command: TurnCommandView::Fail {
                        error: AgentErrorView::FunctionNotFound(call.name),
                    },
                },
            )
        } else {
            let policy = mark.policy->Some_0;
            let sequence = after_number(core.sequence);
            let announced = effects.push(
                traced(
                    sequence,
                    TraceEventKindView::RecoveryStarted {
                        call_id: call.call_id,
                        name: call.name,
                        attempt,
                        policy,
                    },
                ),
            );
            if mark.started is Some && policy == FunctionRecoveryPolicy::NonIdempotent {
                exists|suspension: SuspensionView| #[trigger] asks_what_to_do(
                    core.suspension_id,
                    call,
                    attempt,
                    suspension,
                ) && commits(
                    result,
                    TurnCoreView { sequence, ..core },
                    seq![noted(TurnItemKindView::SuspensionCreated { suspension })],
                    Some(TurnStatus::Suspended),
                    TurnPhaseView::RecoverySuspending { suspension },
                    announced,
                )
            } else {
                commits(
                    result,
                    TurnCoreView { sequence, ..core },
                    seq![
                        noted(
                            TurnItemKindView::FunctionCallStarted {
                                call_id: call.call_id,
                                name: call.name,
                                attempt,
                            },
                        ),
                    ],
                    None,
                    TurnPhaseView::RecoveryStarting { calls, marks, index },
                    announced,
                )
            }
        }
    }
}

proof fn lemma_recover_next(
    core: TurnCoreView,
    log: EffectLogView,
    calls: Seq<ModelFunctionCallView>,
    marks: Seq<RecoveryMark>,
    index: usize,
)
    ensures
        recovers(
            recover_next(core, log, calls, marks, index),
            TurnCoreView { sequence: log.sequence, ..core },
            calls,
            marks,
            index,
            log.effects,
        ),
{
    if index >= calls.len() {
        lemma_asking(core, log);
    } else {
        let call = calls[index as int];
        let mark = marks[index as int];
        let attempt = attempt_behind(mark.started);
        let suspension = crate::runtime::turn_rules::recovery_suspension(
            core.suspension_id,
            call,
            attempt,
        );
        lemma_suspension(core.suspension_id, call, attempt);
        lemma_recorded(
            core.thread,
            core.turn_id,
            seq![noted(TurnItemKindView::SuspensionCreated { suspension })],
            Some(TurnStatus::Suspended),
        );
        lemma_recorded(
            core.thread,
            core.turn_id,
            seq![
                noted(
                    TurnItemKindView::FunctionCallStarted {
                        call_id: call.call_id,
                        name: call.name,
                        attempt,
                    },
                ),
            ],
            None,
        );
    }
}

/// A recovery takes up the active turn of the stored thread, with its open calls from the first on,
/// and changes nothing before that. A thread that waits on a suspension, or has no active turn, is
/// refused.
pub proof fn law_recovery_takes_up_the_active_turn(
    thread_id: Seq<char>,
    loaded: core::result::Result<ThreadView, AgentErrorView>,
    functions: Map<Seq<char>, RegisteredFunctionView>,
    limits: TurnExecutionLimits,
    sequence: u64,
    suspension_id: Seq<char>,
)
    ensures
        ({
            let result = begin_recovery(
                thread_id,
                loaded,
                functions,
                limits,
                sequence,
                suspension_id,
            );
            match loaded {
                Err(error) => result == Err::<TurnStepView, AgentErrorView>(
                    if error is ThreadNotFound {
                        AgentErrorView::TurnNotFound(thread_id)
                    } else {
                        error
                    },
                ),
                Ok(thread) => if pending_suspension(thread.turns) is Some {
                    result == Err::<TurnStepView, AgentErrorView>(
                        AgentErrorView::SuspendedTurn {
                            thread_id,
                            suspension_id: pending_suspension(thread.turns)->Some_0.suspension.id,
                        },
                    )
                } else if active_turn(thread.turns) is None {
                    result == Err::<TurnStepView, AgentErrorView>(
                        AgentErrorView::TurnNotFound(thread_id),
                    )
                } else {
                    let turn_id = active_turn(thread.turns)->Some_0;
                    recovers(
                        result,
                        TurnCoreView {
                            thread_id,
                            turn_id,
                            thread,
                            limits,
                            usage: TokenUsage {
                                input_tokens: 0,
                                cached_input_tokens: 0,
                                output_tokens: 0,
                                total_tokens: 0,
                            },
                            function_call_count: 0,
                            first_token_recorded: false,
                            iteration: 0,
                            sequence,
                            suspension_id,
                        },
                        pending_calls(thread, turn_id),
                        pending_marks(thread, turn_id, functions),
                        0,
                        seq![told(TurnStateEventView::TurnStarted { thread_id, turn_id })],
                    )
                },
            }
        }),
{
    match loaded {
        Ok(thread) => {
            if pending_suspension(thread.turns) is None && active_turn(thread.turns) is Some {
                let turn_id = active_turn(thread.turns)->Some_0;
                let core = crate::runtime::turn_rules::initial_core(
                    thread_id,
                    turn_id,
                    thread,
                    limits,
                    sequence,
                    suspension_id,
                );
                let log = empty_log(sequence).state(
                    TurnStateEventView::TurnStarted { thread_id, turn_id },
                );
                assert(log.effects =~= seq![
                    told(TurnStateEventView::TurnStarted { thread_id, turn_id }),
                ]);
                lemma_recover_next(
                    core,
                    log,
                    pending_calls(thread, turn_id),
                    pending_marks(thread, turn_id, functions),
                    0,
                );
            }
        },
        Err(_) => {},
    }
}

/// A recovered call that is marked as started is made with what the model gave it.
pub proof fn law_recovered_call_is_made(run: TurnRunView, thread: ThreadView, elapsed: nat)
    requires
        run.phase is RecoveryStarting,
    ensures
        ({
            let calls = run.phase->RecoveryStarting_calls;
            let index = run.phase->RecoveryStarting_index;
            let call = calls[index as int];
            let sequence = after_number(run.core.sequence);
            let core = TurnCoreView { thread, sequence, ..run.core };
            after_commit(run, thread, elapsed) == Ok::<TurnStepView, AgentErrorView>(
                TurnStepView {
                    run: TurnRunView {
                        core,
                        phase: TurnPhaseView::RecoveryCalling {
                            calls,
                            marks: run.phase->RecoveryStarting_marks,
                            index,
                        },
                    },
                    effects: seq![
                        told(
                            TurnStateEventView::FunctionStarted {
                                call_id: call.call_id,
                                name: call.name,
                            },
                        ),
                        traced(
                            sequence,
                            TraceEventKindView::FunctionCall {
                                call_id: call.call_id,
                                name: call.name,
                                arguments: call.arguments,
                            },
                        ),
                    ],
                    command: TurnCommandView::CallFunction {
                        call,
                        context: told_to_function(core, call),
                    },
                },
            )
        }),
{
    let calls = run.phase->RecoveryStarting_calls;
    let call = calls[run.phase->RecoveryStarting_index as int];
    assert(after_commit(run, thread, elapsed)->Ok_0.effects =~= seq![
        told(
            TurnStateEventView::FunctionStarted { call_id: call.call_id, name: call.name },
        ),
        traced(
            after_number(run.core.sequence),
            TraceEventKindView::FunctionCall {
                call_id: call.call_id,
                name: call.name,
                arguments: call.arguments,
            },
        ),
    ]);
}

/// What a recovered call returned is what is recorded for it: its output, or the text of its error. One
/// that suspends the turn leaves the suspension, and one that is cut off is recorded as aborted; the
/// calls behind it are given the same.
pub proof fn law_what_a_recovered_call_returned_is_recorded(
    run: TurnRunView,
    execution: Option<core::result::Result<FunctionCallExecutionView, AgentErrorView>>,
    elapsed: nat,
)
    requires
        run.phase matches TurnPhaseView::RecoveryCalling { calls, marks, index } && index
            < calls.len(),
    ensures
        ({
            let core = run.core;
            let calls = run.phase->RecoveryCalling_calls;
            let marks = run.phase->RecoveryCalling_marks;
            let index = run.phase->RecoveryCalling_index;
            let call = calls[index as int];
            let result = after_call(run, execution, elapsed);
            match execution {
                None => commits(
                    result,
                    core,
                    seq![noted(TurnItemKindView::TurnAborted { reason: "turn aborted by caller"@ })]
                        + all_given(
                        calls,
                        index as int,
                        ToolResultView::Aborted {
                            reason: "function execution aborted before a result was recorded"@,
                        },
                    ),
                    Some(TurnStatus::Aborted),
                    TurnPhaseView::RecoveryAborting,
                    seq![call_measured(call, FunctionCallOutcome::Aborted, elapsed)]
                        + skips_measured(calls, index + 1, FunctionCallSkipReason::TurnAborted),
                ),
                Some(Ok(FunctionCallExecutionView::Completed { output, effects })) => commits(
                    result,
                    core,
                    goals_set(core.thread, effects).push(
                        output_of(call, ToolResultView::Success { output }),
                    ),
                    None,
                    TurnPhaseView::RecoveryRecording {
                        calls,
                        marks,
                        index,
                        end: CallEndView::Completed { output },
                    },
                    seq![call_measured(call, FunctionCallOutcome::Completed, elapsed)],
                ),
                Some(Err(error)) => commits(
                    result,
                    core,
                    seq![output_of(call, ToolResultView::Error { error: error_text(error) })],
                    None,
                    TurnPhaseView::RecoveryRecording {
                        calls,
                        marks,
                        index,
                        end: CallEndView::Failed { error: error_text(error) },
                    },
                    seq![call_measured(call, FunctionCallOutcome::Failed, elapsed)],
                ),
                Some(Ok(ended)) => {
                    let suspension = if ended is SuspendedBeforeExecution {
                        ended->SuspendedBeforeExecution_suspension
                    } else {
                        ended->SuspendedAfterExecution_suspension
                    };
                    commits(
                        result,
                        core,
                        seq![noted(TurnItemKindView::SuspensionCreated { suspension })]
                            + all_given(calls, index + 1, held_back()),
                        Some(TurnStatus::Suspended),
                        TurnPhaseView::RecoveryRecording {
                            calls,
                            marks,
                            index,
                            end: CallEndView::SuspendedBefore { suspension },
                        },
                        seq![call_measured(call, FunctionCallOutcome::Suspended, elapsed)],
                    )
                },
            }
        }),
{
    let core = run.core;
    let calls = run.phase->RecoveryCalling_calls;
    let index = run.phase->RecoveryCalling_index as int;
    let call = calls[index];
    let result = after_call(run, execution, elapsed);
    match execution {
        None => {
            let items = seq![
                noted(TurnItemKindView::TurnAborted { reason: "turn aborted by caller"@ }),
            ] + all_given(
                calls,
                index,
                ToolResultView::Aborted {
                    reason: "function execution aborted before a result was recorded"@,
                },
            );
            assert(items =~= crate::runtime::turn_rules::abort_records(calls, index));
            lemma_recorded(core.thread, core.turn_id, items, Some(TurnStatus::Aborted));
            let first = empty_log(core.sequence).metric(
                RuntimeMetricView::FunctionCallFinished {
                    name: call.name,
                    outcome: FunctionCallOutcome::Aborted,
                    duration: elapsed,
                },
            );
            assert(first.effects =~= seq![
                call_measured(call, FunctionCallOutcome::Aborted, elapsed),
            ]);
            assert(calls.take(calls.len() as int) =~= calls);
            lemma_skips_measured(
                first,
                calls,
                index + 1,
                calls.len() as int,
                FunctionCallSkipReason::TurnAborted,
            );
        },
        Some(execution) => {
            let (items, status, _) = crate::runtime::turn_rules::recovery_records(
                core,
                calls,
                index,
                execution,
            );
            lemma_recorded(core.thread, core.turn_id, items, status);
            let outcome = match execution {
                Ok(FunctionCallExecutionView::Completed { .. }) => FunctionCallOutcome::Completed,
                Ok(_) => FunctionCallOutcome::Suspended,
                Err(_) => FunctionCallOutcome::Failed,
            };
            if result is Ok {
                assert(result->Ok_0.effects =~= seq![call_measured(call, outcome, elapsed)]);
            }
            match execution {
                Ok(FunctionCallExecutionView::Completed { output, effects }) => {
                    assert(items =~= goals_set(core.thread, effects).push(
                        output_of(call, ToolResultView::Success { output }),
                    ));
                },
                Ok(ended) => {
                    let suspension = if ended is SuspendedBeforeExecution {
                        ended->SuspendedBeforeExecution_suspension
                    } else {
                        ended->SuspendedAfterExecution_suspension
                    };
                    assert(items =~= seq![
                        noted(TurnItemKindView::SuspensionCreated { suspension }),
                    ] + all_given(calls, index + 1, held_back()));
                },
                Err(_) => {},
            }
        },
    }
}

/// Once what a recovered call came to is stored it is told, and the next open call is taken up; a
/// suspension ends the turn.
pub proof fn law_next_open_call_follows(run: TurnRunView, thread: ThreadView, elapsed: nat)
    requires
        run.phase matches TurnPhaseView::RecoveryRecording { calls, marks, index, end } && index
            < calls.len() && calls.len() <= usize::MAX,
    ensures
        ({
            let calls = run.phase->RecoveryRecording_calls;
            let marks = run.phase->RecoveryRecording_marks;
            let index = run.phase->RecoveryRecording_index;
            let call = calls[index as int];
            let next = (index + 1) as usize;
            let first = after_number(run.core.sequence);
            let result = after_commit(run, thread, elapsed);
            match run.phase->RecoveryRecording_end {
                CallEndView::Completed { output } => recovers(
                    result,
                    TurnCoreView { thread, sequence: first, ..run.core },
                    calls,
                    marks,
                    next,
                    seq![
                        output_traced(first, call, ToolResultView::Success { output }),
                        told(
                            TurnStateEventView::FunctionCompleted {
                                call_id: call.call_id,
                                name: call.name,
                            },
                        ),
                    ],
                ),
                CallEndView::Failed { error } => recovers(
                    result,
                    TurnCoreView { thread, ..run.core },
                    calls,
                    marks,
                    next,
                    seq![
                        told(
                            TurnStateEventView::FunctionFailed {
                                call_id: call.call_id,
                                name: call.name,
                                error,
                            },
                        ),
                    ],
                ),
                CallEndView::SuspendedBefore { suspension } => suspends(
                    result,
                    run.core,
                    thread,
                    suspension,
                ),
                CallEndView::SuspendedAfter { suspension, output } => suspends(
                    result,
                    run.core,
                    thread,
                    suspension,
                ),
            }
        }),
{
    let calls = run.phase->RecoveryRecording_calls;
    let marks = run.phase->RecoveryRecording_marks;
    let index = run.phase->RecoveryRecording_index;
    let call = calls[index as int];
    let next = (index + 1) as usize;
    let core = TurnCoreView { thread, ..run.core };
    let log = empty_log(core.sequence);
    match run.phase->RecoveryRecording_end {
        CallEndView::Completed { output } => {
            let done = log.trace(
                TraceEventKindView::ToolOutput {
                    call_id: call.call_id,
                    name: call.name,
                    result: ToolResultView::Success { output },
                },
            ).state(
                TurnStateEventView::FunctionCompleted { call_id: call.call_id, name: call.name },
            );
            assert(done.effects =~= seq![
                output_traced(
                    after_number(run.core.sequence),
                    call,
                    ToolResultView::Success { output },
                ),
                told(
                    TurnStateEventView::FunctionCompleted {
                        call_id: call.call_id,
                        name: call.name,
                    },
                ),
            ]);
            lemma_recover_next(core, done, calls, marks, next);
        },
        CallEndView::Failed { error } => {
            let failed = TurnStateEventView::FunctionFailed {
                call_id: call.call_id,
                name: call.name,
                error,
            };
            assert(log.state(failed).effects =~= seq![told(failed)]);
            lemma_recover_next(core, log.state(failed), calls, marks, next);
        },
        CallEndView::SuspendedBefore { suspension } => {
            lemma_suspends(run.core, thread, suspension);
        },
        CallEndView::SuspendedAfter { suspension, output } => {
            lemma_suspends(run.core, thread, suspension);
        },
    }
}

/// The turn ends suspended, which is traced and told.
pub open spec fn suspends(
    result: StepResult,
    core: TurnCoreView,
    thread: ThreadView,
    suspension: SuspensionView,
) -> bool {
    let sequence = after_number(core.sequence);
    ends(
        result,
        TurnCoreView { thread, sequence, ..core },
        TurnOutcomeView::Suspended { suspension },
        seq![
            traced(sequence, TraceEventKindView::SuspensionCreated { suspension }),
            told(TurnStateEventView::Suspended { suspension }),
        ],
    )
}

proof fn lemma_suspends(core: TurnCoreView, thread: ThreadView, suspension: SuspensionView)
    ensures
        suspends(
            crate::runtime::turn_rules::suspending(
                TurnCoreView { thread, ..core },
                empty_log(core.sequence),
                suspension,
            ),
            core,
            thread,
            suspension,
        ),
{
    let log = empty_log(core.sequence).trace(
        TraceEventKindView::SuspensionCreated { suspension },
    ).state(TurnStateEventView::Suspended { suspension });
    assert(log.effects =~= seq![
        traced(after_number(core.sequence), TraceEventKindView::SuspensionCreated { suspension }),
        told(TurnStateEventView::Suspended { suspension }),
    ]);
    lemma_closing(
        TurnCoreView { thread, ..core },
        log,
        TurnOutcomeView::Suspended { suspension },
    );
}

/// A recovery that asks what to do ends the turn suspended; one that was aborted ends it aborted.
pub proof fn law_stopped_recovery_ends_the_turn(
    run: TurnRunView,
    thread: ThreadView,
    elapsed: nat,
)
    ensures
        run.phase matches TurnPhaseView::RecoverySuspending { suspension } ==> suspends(
            after_commit(run, thread, elapsed),
            run.core,
            thread,
            suspension,
        ),
        run.phase is RecoveryAborting ==> ends(
            after_commit(run, thread, elapsed),
            TurnCoreView { thread, ..run.core },
            TurnOutcomeView::Aborted { reason: "turn aborted by caller"@ },
            Seq::empty(),
        ),
{
    if run.phase is RecoverySuspending {
        lemma_suspends(run.core, thread, run.phase->RecoverySuspending_suspension);
    } else if run.phase is RecoveryAborting {
        lemma_closing(
            TurnCoreView { thread, ..run.core },
            empty_log(run.core.sequence),
            TurnOutcomeView::Aborted { reason: "turn aborted by caller"@ },
        );
    }
}

} // verus!
