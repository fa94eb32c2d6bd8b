//! What the steps of a turn leave in the thread.

use crate::json::JsonView;
use crate::kernel::events::{
    appended, turn_position, RevisionToken, ThreadView, TokenUsage, ToolResultView,
    TurnItemKindView, TurnItemSource, TurnItemView, TurnStatus, TurnView,
};
use crate::kernel::model::{
    ModelContinuationView, ModelFunctionCallView, ModelResponseView, ModelStreamEventView,
};
use crate::kernel::projection::{current_goal, pending_suspension, projected};
use crate::runtime::agent_loop::{
    CallEndView, TurnCommandView, TurnCoreView, TurnPhaseView, TurnRunView, TurnStepView,
};
use crate::runtime::error::{error_text, AgentErrorView};
use crate::runtime::functions::{
    FunctionCallExecutionView, FunctionContextView, RuntimeEffectView,
};
use crate::runtime::metrics::{
    FunctionCallOutcome, FunctionCallSkipReason, MetricStatus, RuntimeMetricView,
};
use crate::runtime::turn::{
    empty_log, EffectLogView, FunctionCallHookContextView, FunctionCallHookResultView,
    TraceEventKindView, TraceTurnStatus, TurnEffectView, TurnExecutionLimits, TurnModelEventView,
    TurnOutcomeView, TurnStateEventView, TurnStreamEventView,
};
use crate::runtime::turn_rules::{
    after_call, after_commit, after_entering, after_leaving, after_model, after_model_event,
    begin_turn, request_built, skip_events, skip_metrics, skip_traces, limit_reports, StepResult,
};
use crate::text::decimal;
use vstd::prelude::*;

verus! {

/// The first turn with an id stands at position `i`.
pub open spec fn is_first(turns: Seq<TurnView>, id: Seq<char>, i: int) -> bool {
    &&& 0 <= i < turns.len()
    &&& turns[i].id == id
    &&& forall|j: int| 0 <= j < i ==> (#[trigger] turns[j]).id != id
}

/// A thread without a turn.
pub open spec fn lacks_turn(thread: ThreadView, id: Seq<char>) -> bool {
    forall|j: int| 0 <= j < thread.turns.len() ==> (#[trigger] thread.turns[j]).id != id
}

/// A thread after records were added at the end of one of its turns, whose status may have changed.
/// Everything else is as it was.
pub open spec fn has_recorded(
    before: ThreadView,
    after: ThreadView,
    turn_id: Seq<char>,
    items: Seq<TurnItemView>,
    status: Option<TurnStatus>,
) -> bool {
    exists|i: int| #[trigger] is_first(before.turns, turn_id, i) && after == (ThreadView {
        id: before.id,
        turns: before.turns.update(
            i,
            TurnView {
                id: turn_id,
                status: if status is Some { status->Some_0 } else { before.turns[i].status },
                items: before.turns[i].items + items,
            },
        ),
        metadata: before.metadata,
        token_usage: before.token_usage,
        revision: before.revision,
    })
}

pub proof fn lemma_first(turns: Seq<TurnView>, id: Seq<char>)
    ensures
        turn_position(turns, id) <= turns.len(),
        turn_position(turns, id) < turns.len() ==> is_first(turns, id, turn_position(turns, id) as int),
        turn_position(turns, id) == turns.len() ==> forall|j: int|
            0 <= j < turns.len() ==> (#[trigger] turns[j]).id != id,
    decreases turns.len(),
{
    if turns.len() > 0 && turns[0].id != id {
        let rest = turns.drop_first();
        lemma_first(rest, id);
        assert forall|j: int| 0 <= j < turn_position(turns, id) implies (#[trigger] turns[j]).id != id by {
            if j > 0 {
                assert(rest[j - 1].id != id);
            }
        }
    }
}

/// What is appended is recorded.
pub proof fn lemma_recorded(
    thread: ThreadView,
    turn_id: Seq<char>,
    items: Seq<TurnItemView>,
    status: Option<TurnStatus>,
)
    ensures
        match appended(thread, turn_id, items, status) {
            Some(after) => has_recorded(thread, after, turn_id, items, status),
            None => lacks_turn(thread, turn_id),
        },
{
    lemma_first(thread.turns, turn_id);
}

/// The record of what a call came to.
pub open spec fn output_of(call: ModelFunctionCallView, result: ToolResultView) -> TurnItemView {
    TurnItemView {
        source: TurnItemSource::Tool,
        kind: TurnItemKindView::ToolOutput { call_id: call.call_id, name: call.name, result },
    }
}

/// A record that the runtime makes.
pub open spec fn noted(kind: TurnItemKindView) -> TurnItemView {
    TurnItemView { source: TurnItemSource::Runtime, kind }
}

/// The records of the goals that a call sets.
pub open spec fn goals_set(thread: ThreadView, effects: Seq<RuntimeEffectView>) -> Seq<TurnItemView> {
    Seq::new(
        effects.len(),
        |i: int|
            noted(
                TurnItemKindView::GoalUpdated {
                    previous: current_goal(thread.turns),
                    current: effects[i]->SetGoal_0,
                },
            ),
    )
}

/// The same result for the calls from a position on.
pub open spec fn all_given(
    calls: Seq<ModelFunctionCallView>,
    from: int,
    result: ToolResultView,
) -> Seq<TurnItemView> {
    Seq::new((calls.len() - from) as nat, |k: int| output_of(calls[from + k], result))
}

/// What calls behind one that suspends the turn are given.
pub open spec fn held_back() -> ToolResultView {
    ToolResultView::Error {
        error: "function not executed because a previous function suspended the turn"@,
    }
}

/// A measurement.
pub open spec fn measured(metric: RuntimeMetricView) -> TurnEffectView {
    TurnEffectView::Metric(metric)
}

/// A change of state that is told.
pub open spec fn told(event: TurnStateEventView) -> TurnEffectView {
    TurnEffectView::Emit(TurnStreamEventView::State(event))
}

/// A trace record.
pub open spec fn traced(sequence: u64, kind: TraceEventKindView) -> TurnEffectView {
    TurnEffectView::Trace { sequence, kind }
}

/// The number behind `n`.
pub open spec fn after_number(n: u64) -> u64 {
    if n == u64::MAX {
        n
    } else {
        (n + 1) as u64
    }
}

/// What a call that ran is measured as.
pub open spec fn call_measured(
    call: ModelFunctionCallView,
    outcome: FunctionCallOutcome,
    elapsed: nat,
) -> TurnEffectView {
    measured(
        RuntimeMetricView::FunctionCallFinished { name: call.name, outcome, duration: elapsed },
    )
}

/// The measurements of calls that were not made, from a position on.
pub open spec fn skips_measured(
    calls: Seq<ModelFunctionCallView>,
    from: int,
    reason: FunctionCallSkipReason,
) -> Seq<TurnEffectView> {
    Seq::new(
        (calls.len() - from) as nat,
        |k: int|
            measured(
                RuntimeMetricView::FunctionCallSkipped { name: calls[from + k].name, reason },
            ),
    )
}

pub proof fn lemma_skips_measured(
    log: EffectLogView,
    calls: Seq<ModelFunctionCallView>,
    from: int,
    to: int,
    reason: FunctionCallSkipReason,
)
    requires
        0 <= from <= to <= calls.len(),
    ensures
        skip_metrics(log, calls, from, to, reason).sequence == log.sequence,
        skip_metrics(log, calls, from, to, reason).effects == log.effects + skips_measured(
            calls.take(to),
            from,
            reason,
        ),
    decreases to - from,
{
    if from < to {
        lemma_skips_measured(log, calls, from, to - 1, reason);
        assert(skip_metrics(log, calls, from, to, reason).effects =~= log.effects + skips_measured(
            calls.take(to),
            from,
            reason,
        ));
    } else {
        assert(skip_metrics(log, calls, from, to, reason).effects =~= log.effects + skips_measured(
            calls.take(to),
            from,
            reason,
        ));
    }
}

/// A step that waits for the commit of what it recorded, or the turn is not in the thread.
pub open spec fn commits(
    result: StepResult,
    core: TurnCoreView,
    items: Seq<TurnItemView>,
    status: Option<TurnStatus>,
    phase: TurnPhaseView,
    effects: Seq<TurnEffectView>,
) -> bool {
    match result {
        Ok(step) => {
            &&& has_recorded(core.thread, step.run.core.thread, core.turn_id, items, status)
            &&& step.run.core == (TurnCoreView { thread: step.run.core.thread, ..core })
            &&& step.run.phase == phase
            &&& step.command == TurnCommandView::Commit
            &&& step.effects == effects
        },
        Err(error) => error == AgentErrorView::TurnNotFound(core.turn_id) && lacks_turn(
            core.thread,
            core.turn_id,
        ),
    }
}

/// What a function returned is what the turn records for the call: its output where it completed,
/// the text of its error where it failed; and the model is not asked before that is committed. A
/// call that suspends the turn leaves the suspension, and every call behind it is told so.
pub proof fn law_what_a_function_returned_is_recorded(
    run: TurnRunView,
    execution: core::result::Result<FunctionCallExecutionView, AgentErrorView>,
    elapsed: nat,
)
    requires
        run.phase matches TurnPhaseView::Calling { calls, admitted, index, entered } && index
            < calls.len(),
    ensures
        ({
            let core = run.core;
            let calls = run.phase->Calling_calls;
            let index = run.phase->Calling_index;
            let call = calls[index as int];
            let entered = run.phase->Calling_entered;
            let admitted = run.phase->Calling_admitted;
            let result = after_call(run, Some(execution), elapsed);
            let skipped = skips_measured(
                calls,
                index + 1,
                FunctionCallSkipReason::PreviousFunctionSuspended,
            );
            match execution {
                Ok(FunctionCallExecutionView::Completed { output, effects }) => commits(
                    result,
                    core,
                    goals_set(core.thread, effects).push(
                        output_of(call, ToolResultView::Success { output }),
                    ),
                    None,
                    TurnPhaseView::Recording {
                        calls,
                        admitted,
                        index,
                        entered,
                        end: CallEndView::Completed { output },
                    },
                    seq![call_measured(call, FunctionCallOutcome::Completed, elapsed)],
                ),
                Err(error) => commits(
                    result,
                    core,
                    seq![output_of(call, ToolResultView::Error { error: error_text(error) })],
                    None,
                    TurnPhaseView::Recording {
                        calls,
                        admitted,
                        index,
                        entered,
                        end: CallEndView::Failed { error: error_text(error) },
                    },
                    seq![call_measured(call, FunctionCallOutcome::Failed, elapsed)],
                ),
                Ok(FunctionCallExecutionView::SuspendedBeforeExecution { suspension, effects }) =>
                    commits(
                    result,
                    core,
                    goals_set(core.thread, effects) + seq![
                        noted(TurnItemKindView::SuspensionCreated { suspension }),
                    ] + all_given(calls, index + 1, held_back()),
                    Some(TurnStatus::Suspended),
                    TurnPhaseView::Recording {
                        calls,
                        admitted,
                        index,
                        entered,
                        end: CallEndView::SuspendedBefore { suspension },
                    },
                    seq![call_measured(call, FunctionCallOutcome::Suspended, elapsed)] + skipped,
                ),
                Ok(
                    FunctionCallExecutionView::SuspendedAfterExecution {
                        suspension,
                        output,
                        effects,
                    },
                ) => commits(
                    result,
                    core,
                    goals_set(core.thread, effects) + seq![
                        output_of(call, ToolResultView::Success { output }),
                        noted(TurnItemKindView::SuspensionCreated { suspension }),
                    ] + all_given(calls, index + 1, held_back()),
                    Some(TurnStatus::Suspended),
                    TurnPhaseView::Recording {
                        calls,
                        admitted,
                        index,
                        entered,
                        end: CallEndView::SuspendedAfter { suspension, output },
                    },
                    seq![call_measured(call, FunctionCallOutcome::Suspended, elapsed)] + skipped,
                ),
            }
        }),
{
    let core = run.core;
    let calls = run.phase->Calling_calls;
    let index = run.phase->Calling_index as int;
    lemma_call_records(core, empty_log(core.sequence), calls, index, execution, elapsed);
    let (items, status, _) = crate::runtime::turn_rules::call_records(core, calls, index, execution);
    lemma_recorded(core.thread, core.turn_id, items, status);
}

proof fn lemma_call_records(
    core: TurnCoreView,
    log: EffectLogView,
    calls: Seq<ModelFunctionCallView>,
    index: int,
    execution: core::result::Result<FunctionCallExecutionView, AgentErrorView>,
    elapsed: nat,
)
    requires
        0 <= index < calls.len(),
        log.effects.len() == 0,
    ensures
        ({
            let call = calls[index];
            let (items, status, end) = crate::runtime::turn_rules::call_records(
                core,
                calls,
                index,
                execution,
            );
            let metrics = crate::runtime::turn_rules::call_metrics(
                log,
                calls,
                index,
                execution,
                elapsed,
            );
            let skipped = skips_measured(
                calls,
                index + 1,
                FunctionCallSkipReason::PreviousFunctionSuspended,
            );
            &&& metrics.sequence == log.sequence
            &&& match execution {
                Ok(FunctionCallExecutionView::Completed { output, effects }) => {
                    &&& items == goals_set(core.thread, effects).push(
                        output_of(call, ToolResultView::Success { output }),
                    )
                    &&& metrics.effects == seq![
                        call_measured(call, FunctionCallOutcome::Completed, elapsed),
                    ]
                },
                Err(error) => {
                    &&& items == seq![
                        output_of(call, ToolResultView::Error { error: error_text(error) }),
                    ]
                    &&& metrics.effects == seq![
                        call_measured(call, FunctionCallOutcome::Failed, elapsed),
                    ]
                },
                Ok(FunctionCallExecutionView::SuspendedBeforeExecution { suspension, effects }) => {
                    &&& items == goals_set(core.thread, effects) + seq![
                        noted(TurnItemKindView::SuspensionCreated { suspension }),
                    ] + all_given(calls, index + 1, held_back())
                    &&& metrics.effects == seq![
                        call_measured(call, FunctionCallOutcome::Suspended, elapsed),
                    ] + skipped
                },
                Ok(
                    FunctionCallExecutionView::SuspendedAfterExecution {
                        suspension,
                        output,
                        effects,
                    },
                ) => {
                    &&& items == goals_set(core.thread, effects) + seq![
                        output_of(call, ToolResultView::Success { output }),
                        noted(TurnItemKindView::SuspensionCreated { suspension }),
                    ] + all_given(calls, index + 1, held_back())
                    &&& metrics.effects == seq![
                        call_measured(call, FunctionCallOutcome::Suspended, elapsed),
                    ] + skipped
                },
            }
        }),
{
    let call = calls[index];
    let (items, status, end) = crate::runtime::turn_rules::call_records(
        core,
        calls,
        index,
        execution,
    );
    let outcome = match execution {
        Ok(FunctionCallExecutionView::Completed { .. }) => FunctionCallOutcome::Completed,
        Ok(_) => FunctionCallOutcome::Suspended,
        Err(_) => FunctionCallOutcome::Failed,
    };
    let first = log.metric(
        RuntimeMetricView::FunctionCallFinished { name: call.name, outcome, duration: elapsed },
    );
    assert(first.effects =~= seq![call_measured(call, outcome, elapsed)]);
    assert(calls.take(calls.len() as int) =~= calls);
    lemma_skips_measured(
        first,
        calls,
        index + 1,
        calls.len() as int,
        FunctionCallSkipReason::PreviousFunctionSuspended,
    );
    match execution {
        Ok(FunctionCallExecutionView::Completed { output, effects }) => {
            assert(items =~= goals_set(core.thread, effects).push(
                output_of(call, ToolResultView::Success { output }),
            ));
        },
        Ok(FunctionCallExecutionView::SuspendedBeforeExecution { suspension, effects }) => {
            assert(items =~= goals_set(core.thread, effects) + seq![
                noted(TurnItemKindView::SuspensionCreated { suspension }),
            ] + all_given(calls, index + 1, held_back()));
        },
        Ok(FunctionCallExecutionView::SuspendedAfterExecution { suspension, output, effects }) => {
            assert(items =~= goals_set(core.thread, effects) + seq![
                output_of(call, ToolResultView::Success { output }),
                noted(TurnItemKindView::SuspensionCreated { suspension }),
            ] + all_given(calls, index + 1, held_back()));
        },
        Err(error) => {},
    }
}

/// The sum of two counts, or the greatest count.
pub open spec fn added(a: u64, b: u64) -> u64 {
    if a + b <= u64::MAX {
        (a + b) as u64
    } else {
        u64::MAX
    }
}

/// The tokens of both.
pub open spec fn tokens_added(a: TokenUsage, b: TokenUsage) -> TokenUsage {
    TokenUsage {
        input_tokens: added(a.input_tokens, b.input_tokens),
        cached_input_tokens: added(a.cached_input_tokens, b.cached_input_tokens),
        output_tokens: added(a.output_tokens, b.output_tokens),
        total_tokens: added(a.total_tokens, b.total_tokens),
    }
}

/// The tokens of a turn as they are measured.
pub open spec fn tokens_measured(usage: TokenUsage) -> TurnEffectView {
    measured(
        RuntimeMetricView::TokenUsage {
            input_tokens: usage.input_tokens,
            cached_input_tokens: usage.cached_input_tokens,
            output_tokens: usage.output_tokens,
            total_tokens: usage.total_tokens,
        },
    )
}

/// A step to the end of the turn: the thread is given the tokens of the turn, what was recorded is
/// committed, and the turn ends as `outcome` says.
pub open spec fn closes(
    result: StepResult,
    core: TurnCoreView,
    items: Seq<TurnItemView>,
    status: Option<TurnStatus>,
    outcome: TurnOutcomeView,
    effects: Seq<TurnEffectView>,
) -> bool {
    match result {
        Ok(step) => {
            let thread = step.run.core.thread;
            &&& has_recorded(
                core.thread,
                ThreadView { token_usage: core.thread.token_usage, ..thread },
                core.turn_id,
                items,
                status,
            )
            &&& thread.token_usage == tokens_added(core.thread.token_usage, core.usage)
            &&& step.run.core == (TurnCoreView { thread, ..core })
            &&& step.run.phase == (TurnPhaseView::Closing { outcome })
            &&& step.command == TurnCommandView::Commit
            &&& step.effects == effects.push(tokens_measured(core.usage))
        },
        Err(error) => error == AgentErrorView::TurnNotFound(core.turn_id) && lacks_turn(
            core.thread,
            core.turn_id,
        ),
    }
}

/// A step to the end of the turn that records nothing more.
pub open spec fn ends(
    result: StepResult,
    core: TurnCoreView,
    outcome: TurnOutcomeView,
    effects: Seq<TurnEffectView>,
) -> bool {
    &&& result is Ok
    &&& result->Ok_0.run.core == (TurnCoreView {
        thread: ThreadView {
            token_usage: tokens_added(core.thread.token_usage, core.usage),
            ..core.thread
        },
        ..core
    })
    &&& result->Ok_0.run.phase == (TurnPhaseView::Closing { outcome })
    &&& result->Ok_0.command == TurnCommandView::Commit
    &&& result->Ok_0.effects == effects.push(tokens_measured(core.usage))
}

/// The turn fails with an error, which is recorded.
pub open spec fn fails(
    result: StepResult,
    core: TurnCoreView,
    error: Seq<char>,
    effects: Seq<TurnEffectView>,
) -> bool {
    closes(
        result,
        core,
        seq![noted(TurnItemKindView::TurnFailed { error })],
        Some(TurnStatus::Failed),
        TurnOutcomeView::Failed { error },
        effects,
    )
}

/// The model is asked, unless it was asked as often as the turn may ask.
pub open spec fn asks(
    result: StepResult,
    core: TurnCoreView,
    effects: Seq<TurnEffectView>,
) -> bool {
    if core.iteration < core.limits.max_model_iterations {
        result == Ok::<TurnStepView, AgentErrorView>(
            TurnStepView {
                run: TurnRunView { core, phase: TurnPhaseView::Asking },
                effects,
                command: TurnCommandView::BuildRequest { projection: projected(core.thread) },
            },
        )
    } else {
        fails(
            result,
            core,
            "max iterations exceeded: "@ + decimal(core.limits.max_model_iterations as nat),
            effects,
        )
    }
}

proof fn lemma_zero_tokens(usage: TokenUsage)
    ensures
        tokens_added(usage, TokenUsage::zero()) == usage,
{
}

proof fn lemma_failing(core: TurnCoreView, log: EffectLogView, error: Seq<char>)
    ensures
        fails(
            crate::runtime::turn_rules::failing(core, log, error),
            TurnCoreView { sequence: log.sequence, ..core },
            error,
            log.effects,
        ),
{
    lemma_zero_tokens(core.thread.token_usage);
    lemma_recorded(
        core.thread,
        core.turn_id,
        seq![noted(TurnItemKindView::TurnFailed { error })],
        Some(TurnStatus::Failed),
    );
    let result = crate::runtime::turn_rules::failing(core, log, error);
    if result is Ok {
        let thread = result->Ok_0.run.core.thread;
        let mid = appended(
            core.thread,
            core.turn_id,
            seq![noted(TurnItemKindView::TurnFailed { error })],
            Some(TurnStatus::Failed),
        )->Some_0;
        assert(ThreadView { token_usage: core.thread.token_usage, ..thread } == mid);
    }
}

pub proof fn lemma_asking(core: TurnCoreView, log: EffectLogView)
    ensures
        asks(
            crate::runtime::turn_rules::asking(core, log),
            TurnCoreView { sequence: log.sequence, ..core },
            log.effects,
        ),
{
    lemma_failing(
        core,
        log,
        error_text(AgentErrorView::MaxIterations(core.limits.max_model_iterations)),
    );
}

pub proof fn lemma_closing(core: TurnCoreView, log: EffectLogView, outcome: TurnOutcomeView)
    ensures
        ends(
            crate::runtime::turn_rules::closing(core, log, outcome),
            TurnCoreView { sequence: log.sequence, ..core },
            outcome,
            log.effects,
        ),
{
    lemma_zero_tokens(core.thread.token_usage);
}

/// A turn opens with what the user said, as the last turn of the thread as it was stored. A thread
/// that is not stored yet is made with the given metadata. A thread that waits on a suspension takes
/// no new turn.
pub proof fn law_turn_opens_with_the_input(
    thread_id: Seq<char>,
    loaded: core::result::Result<ThreadView, AgentErrorView>,
    metadata: JsonView,
    text: Seq<char>,
    turn_id: Seq<char>,
    limits: TurnExecutionLimits,
)
    ensures
        ({
            let result = begin_turn(thread_id, loaded, metadata, text, turn_id, limits);
            let stored = match loaded {
                Ok(thread) => thread,
                Err(_) => ThreadView {
                    id: thread_id,
                    turns: Seq::empty(),
                    metadata,
                    token_usage: TokenUsage {
                        input_tokens: 0,
                        cached_input_tokens: 0,
                        output_tokens: 0,
                        total_tokens: 0,
                    },
                    revision: RevisionToken { value: 0 },
                },
            };
            if loaded matches Err(error) && !(error is ThreadNotFound) {
                result == Err::<TurnStepView, AgentErrorView>(loaded->Err_0)
            } else if pending_suspension(stored.turns) is Some {
                result == Err::<TurnStepView, AgentErrorView>(
                    AgentErrorView::SuspendedTurn {
                        thread_id,
                        suspension_id: pending_suspension(stored.turns)->Some_0.suspension.id,
                    },
                )
            } else {
                &&& result is Ok
                &&& result->Ok_0.effects.len() == 0
                &&& result->Ok_0.command == TurnCommandView::Commit
                &&& result->Ok_0.run.phase == (TurnPhaseView::Opening { text })
                &&& result->Ok_0.run.core == (TurnCoreView {
                    thread_id,
                    turn_id,
                    thread: ThreadView {
                        turns: stored.turns.push(
                            TurnView {
                                id: turn_id,
                                status: TurnStatus::Running,
                                items: seq![
                                    TurnItemView {
                                        source: TurnItemSource::User,
                                        kind: TurnItemKindView::UserInput {
                                            text,
                                            response_to: None,
                                        },
                                    },
                                ],
                            },
                        ),
                        ..stored
                    },
                    limits,
                    usage: TokenUsage {
                        input_tokens: 0,
                        cached_input_tokens: 0,
                        output_tokens: 0,
                        total_tokens: 0,
                    },
                    function_call_count: 0,
                    first_token_recorded: false,
                    iteration: 0,
                    sequence: 0,
                    suspension_id: Seq::empty(),
                })
            }
        }),
{
}

/// Once the user's input is stored the turn is told to have begun, and the model is asked.
pub proof fn law_opened_turn_asks_the_model(run: TurnRunView, thread: ThreadView, elapsed: nat)
    requires
        run.phase is Opening,
    ensures
        ({
            let sequence = after_number(run.core.sequence);
            asks(
                after_commit(run, thread, elapsed),
                TurnCoreView { thread, sequence, ..run.core },
                seq![
                    traced(
                        sequence,
                        TraceEventKindView::UserInput {
                            text: run.phase->Opening_text,
                            response_to: None,
                        },
                    ),
                    told(
                        TurnStateEventView::TurnStarted {
                            thread_id: run.core.thread_id,
                            turn_id: run.core.turn_id,
                        },
                    ),
                ],
            )
        }),
{
    let core = TurnCoreView { thread, ..run.core };
    let log = empty_log(core.sequence).trace(
        TraceEventKindView::UserInput { text: run.phase->Opening_text, response_to: None },
    ).state(crate::runtime::turn_rules::turn_started(core));
    lemma_asking(core, log);
    assert(log.effects =~= seq![
        traced(
            after_number(run.core.sequence),
            TraceEventKindView::UserInput { text: run.phase->Opening_text, response_to: None },
        ),
        told(
            TurnStateEventView::TurnStarted {
                thread_id: run.core.thread_id,
                turn_id: run.core.turn_id,
            },
        ),
    ]);
}

/// What the model streams is passed on as it comes: each piece of text once and unchanged, the
/// tokens added up, and the first piece timed.
pub proof fn law_stream_is_passed_on(
    core: TurnCoreView,
    event: ModelStreamEventView,
    elapsed: nat,
)
    ensures
        ({
            let (after, log) = after_model_event(core, event, elapsed);
            &&& log.sequence == core.sequence
            &&& match event {
                ModelStreamEventView::OutputProgress => after == core && log.effects.len() == 0,
                ModelStreamEventView::AssistantDelta { text } => {
                    &&& after == (TurnCoreView { first_token_recorded: true, ..core })
                    &&& log.effects == (if core.first_token_recorded {
                        Seq::empty()
                    } else {
                        seq![measured(RuntimeMetricView::TimeToFirstToken { duration: elapsed })]
                    }).push(
                        TurnEffectView::Emit(
                            TurnStreamEventView::Model(TurnModelEventView::AssistantDelta { text }),
                        ),
                    )
                },
                ModelStreamEventView::TokenUsage { usage } => {
                    &&& after == (TurnCoreView { usage: tokens_added(core.usage, usage), ..core })
                    &&& log.effects.len() == 0
                },
            }
        }),
{
    let (after, log) = after_model_event(core, event, elapsed);
    match event {
        ModelStreamEventView::AssistantDelta { text } => {
            assert(log.effects =~= (if core.first_token_recorded {
                Seq::empty()
            } else {
                seq![measured(RuntimeMetricView::TimeToFirstToken { duration: elapsed })]
            }).push(
                TurnEffectView::Emit(
                    TurnStreamEventView::Model(TurnModelEventView::AssistantDelta { text }),
                ),
            ));
        },
        _ => {},
    }
}

/// A request that is built is sent, and told with its number.
pub proof fn law_built_request_is_sent(run: TurnRunView)
    ensures
        request_built(run) == Ok::<TurnStepView, AgentErrorView>(
            TurnStepView {
                run: TurnRunView { core: run.core, phase: TurnPhaseView::Streaming },
                effects: seq![
                    TurnEffectView::Emit(
                        TurnStreamEventView::Model(
                            TurnModelEventView::RequestStarted { iteration: run.core.iteration },
                        ),
                    ),
                ],
                command: TurnCommandView::AwaitModel,
            },
        ),
{
    assert(request_built(run)->Ok_0.effects =~= seq![
        TurnEffectView::Emit(
            TurnStreamEventView::Model(
                TurnModelEventView::RequestStarted { iteration: run.core.iteration },
            ),
        ),
    ]);
}

/// How a model request is measured.
pub open spec fn request_measured(status: MetricStatus, elapsed: nat) -> Seq<TurnEffectView> {
    seq![measured(RuntimeMetricView::ModelRequestFinished { status, duration: elapsed })]
}

/// The text of an answer.
pub open spec fn said(response: ModelResponseView) -> Option<Seq<char>> {
    match response {
        ModelResponseView::Assistant { continuation, text, function_calls } => text,
        ModelResponseView::AssistantMessage { text } => Some(text),
        ModelResponseView::FunctionCalls { calls } => None,
    }
}

/// The calls that an answer asks for.
pub open spec fn asked_for(response: ModelResponseView) -> Seq<ModelFunctionCallView> {
    match response {
        ModelResponseView::Assistant { continuation, text, function_calls } => function_calls,
        ModelResponseView::AssistantMessage { text } => Seq::empty(),
        ModelResponseView::FunctionCalls { calls } => calls,
    }
}

/// The continuation of an answer.
pub open spec fn continued_by(response: ModelResponseView) -> Option<ModelContinuationView> {
    match response {
        ModelResponseView::Assistant { continuation, text, function_calls } => continuation,
        _ => None,
    }
}

/// What the model answers is recorded as it is: its text, its calls and its continuation. With calls
/// the turn goes on with all of them; without, the text is the outcome. An answer with neither fails
/// the turn, and so does an error, under its own text; an abort ends the turn as aborted.
pub proof fn law_what_the_model_answers_is_recorded(
    core: TurnCoreView,
    response: Option<core::result::Result<ModelResponseView, AgentErrorView>>,
    elapsed: nat,
)
    ensures
        ({
            let result = after_model(core, response, elapsed);
            match response {
                None => closes(
                    result,
                    core,
                    seq![noted(TurnItemKindView::TurnAborted { reason: "turn aborted by caller"@ })],
                    Some(TurnStatus::Aborted),
                    TurnOutcomeView::Aborted { reason: "turn aborted by caller"@ },
                    request_measured(MetricStatus::Aborted, elapsed),
                ),
                Some(Err(error)) => fails(
                    result,
                    core,
                    error_text(error),
                    request_measured(MetricStatus::Failed, elapsed),
                ),
                Some(Ok(answer)) => {
                    let item = TurnItemView {
                        source: TurnItemSource::Model,
                        kind: TurnItemKindView::ModelResponse {
                            text: said(answer),
                            function_calls: asked_for(answer),
                            continuation: continued_by(answer),
                        },
                    };
                    let measure = request_measured(MetricStatus::Completed, elapsed);
                    let spoken = if said(answer) is Some {
                        seq![
                            TurnEffectView::Emit(
                                TurnStreamEventView::Model(
                                    TurnModelEventView::AssistantMessage {
                                        text: said(answer)->Some_0,
                                    },
                                ),
                            ),
                        ]
                    } else {
                        Seq::empty()
                    };
                    if asked_for(answer).len() > 0 {
                        commits(
                            result,
                            core,
                            seq![item],
                            None,
                            TurnPhaseView::Requested {
                                text: said(answer),
                                calls: asked_for(answer),
                            },
                            measure + spoken + seq![
                                told(
                                    TurnStateEventView::FunctionCallsRequested {
                                        calls: asked_for(answer),
                                    },
                                ),
                            ],
                        )
                    } else if said(answer) is Some {
                        commits(
                            result,
                            core,
                            seq![item],
                            Some(TurnStatus::Completed),
                            TurnPhaseView::Answering { text: said(answer)->Some_0 },
                            measure + spoken,
                        )
                    } else {
                        fails(
                            result,
                            core,
                            "model returned neither assistant text nor function calls"@,
                            measure,
                        )
                    }
                },
            }
        }),
{
    let status = match response {
        None => MetricStatus::Aborted,
        Some(Err(_)) => MetricStatus::Failed,
        Some(Ok(_)) => MetricStatus::Completed,
    };
    let log = empty_log(core.sequence).metric(
        RuntimeMetricView::ModelRequestFinished { status, duration: elapsed },
    );
    assert(log.effects =~= request_measured(status, elapsed));
    let result = after_model(core, response, elapsed);
    match response {
        None => {
            let items = seq![
                noted(TurnItemKindView::TurnAborted { reason: "turn aborted by caller"@ }),
            ];
            lemma_recorded(core.thread, core.turn_id, items, Some(TurnStatus::Aborted));
            lemma_zero_tokens(core.thread.token_usage);
            if result is Ok {
                let thread = result->Ok_0.run.core.thread;
                let mid = appended(
                    core.thread,
                    core.turn_id,
                    items,
                    Some(TurnStatus::Aborted),
                )->Some_0;
                assert(ThreadView { token_usage: core.thread.token_usage, ..thread } == mid);
            }
        },
        Some(Err(error)) => {
            lemma_failing(core, log, error_text(error));
        },
        Some(Ok(answer)) => {
            let item = TurnItemView {
                source: TurnItemSource::Model,
                kind: TurnItemKindView::ModelResponse {
                    text: said(answer),
                    function_calls: asked_for(answer),
                    continuation: continued_by(answer),
                },
            };
            lemma_recorded(core.thread, core.turn_id, seq![item], None);
            lemma_recorded(core.thread, core.turn_id, seq![item], Some(TurnStatus::Completed));
            lemma_failing(
                core,
                log,
                "model returned neither assistant text nor function calls"@,
            );
            let measure = request_measured(status, elapsed);
            let spoken = if said(answer) is Some {
                seq![
                    TurnEffectView::Emit(
                        TurnStreamEventView::Model(
                            TurnModelEventView::AssistantMessage { text: said(answer)->Some_0 },
                        ),
                    ),
                ]
            } else {
                Seq::empty()
            };
            if result is Ok && asked_for(answer).len() > 0 {
                assert(result->Ok_0.effects =~= measure + spoken + seq![
                    told(
                        TurnStateEventView::FunctionCallsRequested { calls: asked_for(answer) },
                    ),
                ]);
            } else if result is Ok && said(answer) is Some {
                assert(result->Ok_0.effects =~= measure + spoken);
            }
        },
    }
}

/// An answer without calls that is stored ends the turn with its text.
pub proof fn law_stored_answer_is_the_outcome(run: TurnRunView, thread: ThreadView, elapsed: nat)
    requires
        run.phase is Answering,
    ensures
        ({
            let sequence = after_number(run.core.sequence);
            let text = run.phase->Answering_text;
            ends(
                after_commit(run, thread, elapsed),
                TurnCoreView { thread, sequence, ..run.core },
                TurnOutcomeView::AssistantMessage { text },
                seq![
                    traced(
                        sequence,
                        TraceEventKindView::ModelResponse {
                            text: Some(text),
                            function_calls: Seq::empty(),
                        },
                    ),
                ],
            )
        }),
{
    let text = run.phase->Answering_text;
    let core = TurnCoreView { thread, ..run.core };
    let log = empty_log(core.sequence).trace(
        TraceEventKindView::ModelResponse { text: Some(text), function_calls: Seq::empty() },
    );
    lemma_closing(core, log, TurnOutcomeView::AssistantMessage { text });
    assert(log.effects =~= seq![
        traced(
            after_number(run.core.sequence),
            TraceEventKindView::ModelResponse { text: Some(text), function_calls: Seq::empty() },
        ),
    ]);
}

/// What hooks are told of a call.
pub open spec fn told_to_hooks(
    core: TurnCoreView,
    call: ModelFunctionCallView,
) -> FunctionCallHookContextView {
    FunctionCallHookContextView {
        thread_id: core.thread.id,
        turn_id: core.turn_id,
        call_id: call.call_id,
        name: call.name,
        arguments: call.arguments,
        projection: projected(core.thread),
    }
}

/// What a function is told of its call.
pub open spec fn told_to_function(
    core: TurnCoreView,
    call: ModelFunctionCallView,
) -> FunctionContextView {
    FunctionContextView {
        thread_id: core.thread.id,
        metadata: core.thread.metadata,
        turn_id: core.turn_id,
        call_id: call.call_id,
        projection: projected(core.thread),
    }
}

/// The calls of an answer go on at a position: the call there is begun where it is among the first
/// `admitted`; otherwise those beyond are refused and the turn fails, or the model is asked again.
pub open spec fn goes_on(
    result: StepResult,
    core: TurnCoreView,
    calls: Seq<ModelFunctionCallView>,
    admitted: usize,
    index: usize,
    effects: Seq<TurnEffectView>,
) -> bool {
    if index < admitted {
        let call = calls[index as int];
        let sequence = after_number(core.sequence);
        result == Ok::<TurnStepView, AgentErrorView>(
            TurnStepView {
                run: TurnRunView {
                    core: TurnCoreView { sequence, ..core },
                    phase: TurnPhaseView::Entering { calls, admitted, index },
                },
                effects: effects + seq![
                    told(
                        TurnStateEventView::FunctionStarted {
                            call_id: call.call_id,
                            name: call.name,
                        },
                    ),
                    traced(
                        sequence,
                        TraceEventKindView::FunctionCall {
                            call_id: call.call_id,
                            name: call.name,
                            arguments: call.arguments,
                        },
                    ),
                ],
                command: TurnCommandView::EnterHooks { context: told_to_hooks(core, call) },
            },
        )
    } else if admitted < calls.len() {
        let error = "max function calls exceeded: "@ + decimal(
            core.limits.max_function_calls as nat,
        );
        commits(
            result,
            core,
            all_given(
                calls,
                admitted as int,
                ToolResultView::Error {
                    error: "function call not executed because "@ + error,
                },
            ).push(noted(TurnItemKindView::TurnFailed { error })),
            Some(TurnStatus::Failed),
            TurnPhaseView::Limiting { calls, admitted, error },
            effects + skips_measured(
                calls,
                admitted as int,
                FunctionCallSkipReason::MaxCallsPerTurn,
            ),
        )
    } else {
        asks(result, TurnCoreView { iteration: (core.iteration + 1) as usize, ..core }, effects)
    }
}

proof fn lemma_next_call(
    core: TurnCoreView,
    log: EffectLogView,
    calls: Seq<ModelFunctionCallView>,
    admitted: usize,
    index: usize,
)
    ensures
        goes_on(
            crate::runtime::turn_rules::next_call(core, log, calls, admitted, index),
            TurnCoreView { sequence: log.sequence, ..core },
            calls,
            admitted,
            index,
            log.effects,
        ),
{
    let result = crate::runtime::turn_rules::next_call(core, log, calls, admitted, index);
    if index < admitted {
        let call = calls[index as int];
        assert(result->Ok_0.effects =~= log.effects + seq![
            told(
                TurnStateEventView::FunctionStarted { call_id: call.call_id, name: call.name },
            ),
            traced(
                after_number(log.sequence),
                TraceEventKindView::FunctionCall {
                    call_id: call.call_id,
                    name: call.name,
                    arguments: call.arguments,
                },
            ),
        ]);
    } else if admitted < calls.len() {
        let error = "max function calls exceeded: "@ + decimal(
            core.limits.max_function_calls as nat,
        );
        let items = all_given(
            calls,
            admitted as int,
            ToolResultView::Error { error: "function call not executed because "@ + error },
        ).push(noted(TurnItemKindView::TurnFailed { error }));
        assert(items =~= crate::runtime::turn_rules::output_items(
            calls,
            admitted as int,
            ToolResultView::Error { error: "function call not executed because "@ + error },
        ).push(noted(TurnItemKindView::TurnFailed { error })));
        lemma_recorded(core.thread, core.turn_id, items, Some(TurnStatus::Failed));
        assert(calls.take(calls.len() as int) =~= calls);
        lemma_skips_measured(
            log,
            calls,
            admitted as int,
            calls.len() as int,
            FunctionCallSkipReason::MaxCallsPerTurn,
        );
    } else {
        lemma_asking(TurnCoreView { iteration: (core.iteration + 1) as usize, ..core }, log);
    }
}

/// Of the calls that an answer asks for, as many are made as the turn has left, from the first on;
/// they are counted at once.
pub proof fn law_calls_are_made_while_any_are_left(
    run: TurnRunView,
    thread: ThreadView,
    elapsed: nat,
)
    requires
        run.phase matches TurnPhaseView::Requested { text, calls } && calls.len() <= usize::MAX,
    ensures
        ({
            let core = run.core;
            let calls = run.phase->Requested_calls;
            let left: int = if core.function_call_count <= core.limits.max_function_calls {
                core.limits.max_function_calls - core.function_call_count
            } else {
                0
            };
            let admitted: usize = (if calls.len() <= left { calls.len() as int } else { left }) as usize;
            let sequence = after_number(core.sequence);
            goes_on(
                after_commit(run, thread, elapsed),
                TurnCoreView {
                    thread,
                    sequence,
                    function_call_count: (core.function_call_count + admitted) as usize,
                    ..core
                },
                calls,
                admitted,
                0,
                seq![
                    traced(
                        sequence,
                        TraceEventKindView::ModelResponse {
                            text: run.phase->Requested_text,
                            function_calls: calls,
                        },
                    ),
                ],
            )
        }),
{
    let calls = run.phase->Requested_calls;
    let text = run.phase->Requested_text;
    let core = TurnCoreView { thread, ..run.core };
    let admitted = crate::runtime::turn_rules::admitted_calls(core, calls.len());
    let log = empty_log(core.sequence).trace(
        TraceEventKindView::ModelResponse { text, function_calls: calls },
    );
    lemma_next_call(
        TurnCoreView {
            function_call_count: (core.function_call_count + admitted) as usize,
            ..core
        },
        log,
        calls,
        admitted,
        0,
    );
    assert(log.effects =~= seq![
        traced(
            after_number(run.core.sequence),
            TraceEventKindView::ModelResponse { text, function_calls: calls },
        ),
    ]);
}

/// A call that the hooks let pass is marked as started, as its first attempt; one that a hook stops
/// is recorded as failed with the hook's error, and its function is not called.
pub proof fn law_hooks_decide_whether_a_call_starts(
    core: TurnCoreView,
    calls: Seq<ModelFunctionCallView>,
    admitted: usize,
    index: usize,
    entered: usize,
    allowed: core::result::Result<(), AgentErrorView>,
    elapsed: nat,
)
    requires
        index < calls.len(),
    ensures
        ({
            let call = calls[index as int];
            let result = after_entering(core, calls, admitted, index, entered, allowed, elapsed);
            match allowed {
                Ok(_) => commits(
                    result,
                    core,
                    seq![
                        noted(
                            TurnItemKindView::FunctionCallStarted {
                                call_id: call.call_id,
                                name: call.name,
                                attempt: 1,
                            },
                        ),
                    ],
                    None,
                    TurnPhaseView::Starting { calls, admitted, index, entered },
                    Seq::empty(),
                ),
                Err(error) => commits(
                    result,
                    core,
                    seq![output_of(call, ToolResultView::Error { error: error_text(error) })],
                    None,
                    TurnPhaseView::Recording {
                        calls,
                        admitted,
                        index,
                        entered,
                        end: CallEndView::Failed { error: error_text(error) },
                    },
                    seq![call_measured(call, FunctionCallOutcome::Failed, elapsed)],
                ),
            }
        }),
{
    let call = calls[index as int];
    match allowed {
        Ok(_) => {
            lemma_recorded(
                core.thread,
                core.turn_id,
                seq![
                    noted(
                        TurnItemKindView::FunctionCallStarted {
                            call_id: call.call_id,
                            name: call.name,
                            attempt: 1,
                        },
                    ),
                ],
                None,
            );
        },
        Err(error) => {
            let execution = Err::<FunctionCallExecutionView, AgentErrorView>(error);
            lemma_call_records(
                core,
                empty_log(core.sequence),
                calls,
                index as int,
                execution,
                elapsed,
            );
            let (items, status, _) = crate::runtime::turn_rules::call_records(
                core,
                calls,
                index as int,
                execution,
            );
            lemma_recorded(core.thread, core.turn_id, items, status);
        },
    }
}

/// A started call is made: the function that the model named is called with what the model gave it.
pub proof fn law_started_call_is_made(run: TurnRunView, thread: ThreadView, elapsed: nat)
    requires
        run.phase is Starting,
    ensures
        ({
            let core = TurnCoreView { thread, ..run.core };
            let calls = run.phase->Starting_calls;
            let index = run.phase->Starting_index;
            after_commit(run, thread, elapsed) == Ok::<TurnStepView, AgentErrorView>(
                TurnStepView {
                    run: TurnRunView {
                        core,
                        phase: TurnPhaseView::Calling {
                            calls,
                            admitted: run.phase->Starting_admitted,
                            index,
                            entered: run.phase->Starting_entered,
                        },
                    },
                    effects: Seq::empty(),
                    command: TurnCommandView::CallFunction {
                        call: calls[index as int],
                        context: told_to_function(core, calls[index as int]),
                    },
                },
            )
        }),
{
}

/// A call that an abort cuts off is recorded as aborted, with every call behind it, and the turn ends
/// as aborted.
pub proof fn law_cut_off_calls_are_recorded(run: TurnRunView, elapsed: nat)
    requires
        run.phase matches TurnPhaseView::Calling { calls, admitted, index, entered } && index
            < calls.len(),
    ensures
        ({
            let calls = run.phase->Calling_calls;
            let index = run.phase->Calling_index as int;
            closes(
                after_call(run, None, elapsed),
                run.core,
                seq![noted(TurnItemKindView::TurnAborted { reason: "turn aborted by caller"@ })]
                    + all_given(
                    calls,
                    index,
                    ToolResultView::Aborted {
                        reason: "function execution aborted before a result was recorded"@,
                    },
                ),
                Some(TurnStatus::Aborted),
                TurnOutcomeView::Aborted { reason: "turn aborted by caller"@ },
                seq![call_measured(calls[index], FunctionCallOutcome::Aborted, elapsed)]
                    + skips_measured(calls, index + 1, FunctionCallSkipReason::TurnAborted),
            )
        }),
{
    let core = run.core;
    let calls = run.phase->Calling_calls;
    let index = run.phase->Calling_index as int;
    let items = seq![noted(TurnItemKindView::TurnAborted { reason: "turn aborted by caller"@ })]
        + all_given(
        calls,
        index,
        ToolResultView::Aborted {
            reason: "function execution aborted before a result was recorded"@,
        },
    );
    assert(items =~= crate::runtime::turn_rules::abort_records(calls, index));
    lemma_recorded(core.thread, core.turn_id, items, Some(TurnStatus::Aborted));
    lemma_zero_tokens(core.thread.token_usage);
    let first = empty_log(core.sequence).metric(
        RuntimeMetricView::FunctionCallFinished {
            name: calls[index].name,
            outcome: FunctionCallOutcome::Aborted,
            duration: elapsed,
        },
    );
    assert(first.effects =~= seq![
        call_measured(calls[index], FunctionCallOutcome::Aborted, elapsed),
    ]);
    assert(calls.take(calls.len() as int) =~= calls);
    lemma_skips_measured(
        first,
        calls,
        index + 1,
        calls.len() as int,
        FunctionCallSkipReason::TurnAborted,
    );
    let result = after_call(run, None, elapsed);
    if result is Ok {
        let thread = result->Ok_0.run.core.thread;
        let mid = appended(core.thread, core.turn_id, items, Some(TurnStatus::Aborted))->Some_0;
        assert(ThreadView { token_usage: core.thread.token_usage, ..thread } == mid);
    }
}

/// The number `k` behind `n`.
pub open spec fn number_behind(n: u64, k: nat) -> u64 {
    if n + k <= u64::MAX {
        (n + k) as u64
    } else {
        u64::MAX
    }
}

/// The trace of what a call came to.
pub open spec fn output_traced(
    sequence: u64,
    call: ModelFunctionCallView,
    result: ToolResultView,
) -> TurnEffectView {
    traced(
        sequence,
        TraceEventKindView::ToolOutput { call_id: call.call_id, name: call.name, result },
    )
}

/// The traces of calls that are given an error, from a position on.
pub open spec fn errors_traced(
    sequence: u64,
    calls: Seq<ModelFunctionCallView>,
    from: int,
    error: Seq<char>,
) -> Seq<TurnEffectView> {
    Seq::new(
        (calls.len() - from) as nat,
        |k: int|
            output_traced(
                number_behind(sequence, (k + 1) as nat),
                calls[from + k],
                ToolResultView::Error { error },
            ),
    )
}

/// The reports of calls that are given an error, from a position on.
pub open spec fn errors_told(
    calls: Seq<ModelFunctionCallView>,
    from: int,
    error: Seq<char>,
) -> Seq<TurnEffectView> {
    Seq::new(
        (calls.len() - from) as nat,
        |k: int|
            told(
                TurnStateEventView::FunctionFailed {
                    call_id: calls[from + k].call_id,
                    name: calls[from + k].name,
                    error,
                },
            ),
    )
}

proof fn lemma_errors_traced(
    log: EffectLogView,
    calls: Seq<ModelFunctionCallView>,
    from: int,
    to: int,
    error: Seq<char>,
)
    requires
        0 <= from <= to <= calls.len(),
    ensures
        skip_traces(log, calls, from, to, error).sequence == number_behind(
            log.sequence,
            (to - from) as nat,
        ),
        skip_traces(log, calls, from, to, error).effects == log.effects + errors_traced(
            log.sequence,
            calls.take(to),
            from,
            error,
        ),
    decreases to - from,
{
    if from < to {
        lemma_errors_traced(log, calls, from, to - 1, error);
    }
    assert(skip_traces(log, calls, from, to, error).effects =~= log.effects + errors_traced(
        log.sequence,
        calls.take(to),
        from,
        error,
    ));
}

proof fn lemma_errors_told(
    log: EffectLogView,
    calls: Seq<ModelFunctionCallView>,
    from: int,
    to: int,
    error: Seq<char>,
)
    requires
        0 <= from <= to <= calls.len(),
    ensures
        skip_events(log, calls, from, to, error).sequence == log.sequence,
        skip_events(log, calls, from, to, error).effects == log.effects + errors_told(
            calls.take(to),
            from,
            error,
        ),
    decreases to - from,
{
    if from < to {
        lemma_errors_told(log, calls, from, to - 1, error);
    }
    assert(skip_events(log, calls, from, to, error).effects =~= log.effects + errors_told(
        calls.take(to),
        from,
        error,
    ));
}

/// The hooks that were passed are told how a call ended.
pub open spec fn leaves(
    result: StepResult,
    core: TurnCoreView,
    calls: Seq<ModelFunctionCallView>,
    admitted: usize,
    index: usize,
    entered: usize,
    ended: FunctionCallHookResultView,
    effects: Seq<TurnEffectView>,
) -> bool {
    result == Ok::<TurnStepView, AgentErrorView>(
        TurnStepView {
            run: TurnRunView {
                core,
                phase: TurnPhaseView::Leaving { calls, admitted, index, result: ended },
            },
            effects,
            command: TurnCommandView::LeaveHooks {
                context: told_to_hooks(core, calls[index as int]),
                result: ended,
                entered,
            },
        },
    )
}

/// Once what a call came to is stored, its hooks are told the same: its output, its error, or its
/// suspension. A call that was suspended before it ran ends the turn as suspended.
pub proof fn law_hooks_are_told_what_was_recorded(
    run: TurnRunView,
    thread: ThreadView,
    elapsed: nat,
)
    requires
        run.phase matches TurnPhaseView::Recording { calls, admitted, index, entered, end } && index
            < calls.len() && calls.len() <= usize::MAX,
    ensures
        ({
            let calls = run.phase->Recording_calls;
            let admitted = run.phase->Recording_admitted;
            let index = run.phase->Recording_index;
            let entered = run.phase->Recording_entered;
            let call = calls[index as int];
            let first = after_number(run.core.sequence);
            let skipped = (calls.len() - index - 1) as nat;
            let result = after_commit(run, thread, elapsed);
            let held = held_back()->Error_error;
            match run.phase->Recording_end {
                CallEndView::Completed { output } => leaves(
                    result,
                    TurnCoreView { thread, sequence: first, ..run.core },
                    calls,
                    admitted,
                    index,
                    entered,
                    FunctionCallHookResultView::Completed { output },
                    seq![output_traced(first, call, ToolResultView::Success { output })],
                ),
                CallEndView::Failed { error } => leaves(
                    result,
                    TurnCoreView { thread, sequence: first, ..run.core },
                    calls,
                    admitted,
                    index,
                    entered,
                    FunctionCallHookResultView::Failed { error },
                    seq![output_traced(first, call, ToolResultView::Error { error })],
                ),
                CallEndView::SuspendedAfter { suspension, output } => leaves(
                    result,
                    TurnCoreView {
                        thread,
                        sequence: number_behind(after_number(first), skipped),
                        ..run.core
                    },
                    calls,
                    admitted,
                    index,
                    entered,
                    FunctionCallHookResultView::Suspended { suspension, output },
                    seq![
                        traced(first, TraceEventKindView::SuspensionCreated { suspension }),
                        output_traced(
                            after_number(first),
                            call,
                            ToolResultView::Success { output },
                        ),
                    ] + errors_traced(after_number(first), calls, index + 1, held),
                ),
                CallEndView::SuspendedBefore { suspension } => ends(
                    result,
                    TurnCoreView { thread, sequence: number_behind(first, skipped), ..run.core },
                    TurnOutcomeView::Suspended { suspension },
                    seq![traced(first, TraceEventKindView::SuspensionCreated { suspension })]
                        + errors_traced(first, calls, index + 1, held) + seq![
                        told(TurnStateEventView::Suspended { suspension }),
                    ] + errors_told(calls, index + 1, held),
                ),
            }
        }),
{
    let calls = run.phase->Recording_calls;
    let index = run.phase->Recording_index;
    let call = calls[index as int];
    let core = TurnCoreView { thread, ..run.core };
    let first = after_number(run.core.sequence);
    let log = empty_log(core.sequence);
    let held = held_back()->Error_error;
    let result = after_commit(run, thread, elapsed);
    assert(calls.take(calls.len() as int) =~= calls);
    match run.phase->Recording_end {
        CallEndView::Completed { output } => {
            assert(result->Ok_0.effects =~= seq![
                output_traced(first, call, ToolResultView::Success { output }),
            ]);
        },
        CallEndView::Failed { error } => {
            assert(result->Ok_0.effects =~= seq![
                output_traced(first, call, ToolResultView::Error { error }),
            ]);
        },
        CallEndView::SuspendedAfter { suspension, output } => {
            let both = log.trace(TraceEventKindView::SuspensionCreated { suspension }).trace(
                TraceEventKindView::ToolOutput {
                    call_id: call.call_id,
                    name: call.name,
                    result: ToolResultView::Success { output },
                },
            );
            assert(both.effects =~= seq![
                traced(first, TraceEventKindView::SuspensionCreated { suspension }),
                output_traced(after_number(first), call, ToolResultView::Success { output }),
            ]);
            lemma_errors_traced(both, calls, index + 1, calls.len() as int, held);
        },
        CallEndView::SuspendedBefore { suspension } => {
            let one = log.trace(TraceEventKindView::SuspensionCreated { suspension });
            assert(one.effects =~= seq![
                traced(first, TraceEventKindView::SuspensionCreated { suspension }),
            ]);
            lemma_errors_traced(one, calls, index + 1, calls.len() as int, held);
            let more = skip_traces(one, calls, index + 1, calls.len() as int, held).state(
                TurnStateEventView::Suspended { suspension },
            );
            lemma_errors_told(more, calls, index + 1, calls.len() as int, held);
            let all = skip_events(more, calls, index + 1, calls.len() as int, held);
            assert(all.effects =~= seq![
                traced(first, TraceEventKindView::SuspensionCreated { suspension }),
            ] + errors_traced(first, calls, index + 1, held) + seq![
                told(TurnStateEventView::Suspended { suspension }),
            ] + errors_told(calls, index + 1, held));
            lemma_closing(core, all, TurnOutcomeView::Suspended { suspension });
        },
    }
}

/// Once the hooks are through, the end of the call is told, and the next call is taken up; a
/// suspension ends the turn.
pub proof fn law_next_call_follows(
    core: TurnCoreView,
    calls: Seq<ModelFunctionCallView>,
    admitted: usize,
    index: usize,
    ended: FunctionCallHookResultView,
)
    requires
        index < calls.len() <= usize::MAX,
    ensures
        ({
            let call = calls[index as int];
            let result = after_leaving(core, calls, admitted, index, ended);
            let completed = told(
                TurnStateEventView::FunctionCompleted { call_id: call.call_id, name: call.name },
            );
            let held = held_back()->Error_error;
            match ended {
                FunctionCallHookResultView::Completed { output } => goes_on(
                    result,
                    core,
                    calls,
                    admitted,
                    (index + 1) as usize,
                    seq![completed],
                ),
                FunctionCallHookResultView::Failed { error } => goes_on(
                    result,
                    core,
                    calls,
                    admitted,
                    (index + 1) as usize,
                    seq![
                        told(
                            TurnStateEventView::FunctionFailed {
                                call_id: call.call_id,
                                name: call.name,
                                error,
                            },
                        ),
                    ],
                ),
                FunctionCallHookResultView::Suspended { suspension, output } => ends(
                    result,
                    core,
                    TurnOutcomeView::Suspended { suspension },
                    seq![completed, told(TurnStateEventView::Suspended { suspension })]
                        + errors_told(calls, index + 1, held),
                ),
            }
        }),
{
    let call = calls[index as int];
    let log = empty_log(core.sequence);
    let completed = TurnStateEventView::FunctionCompleted {
        call_id: call.call_id,
        name: call.name,
    };
    let held = held_back()->Error_error;
    assert(calls.take(calls.len() as int) =~= calls);
    match ended {
        FunctionCallHookResultView::Completed { output } => {
            let log = log.state(completed);
            assert(log.effects =~= seq![told(completed)]);
            lemma_next_call(core, log, calls, admitted, (index + 1) as usize);
        },
        FunctionCallHookResultView::Failed { error } => {
            let failed = TurnStateEventView::FunctionFailed {
                call_id: call.call_id,
                name: call.name,
                error,
            };
            let log = log.state(failed);
            assert(log.effects =~= seq![told(failed)]);
            lemma_next_call(core, log, calls, admitted, (index + 1) as usize);
        },
        FunctionCallHookResultView::Suspended { suspension, output } => {
            let log = log.state(completed).state(TurnStateEventView::Suspended { suspension });
            assert(log.effects =~= seq![
                told(completed),
                told(TurnStateEventView::Suspended { suspension }),
            ]);
            lemma_errors_told(log, calls, index + 1, calls.len() as int, held);
            lemma_closing(
                core,
                skip_events(log, calls, index + 1, calls.len() as int, held),
                TurnOutcomeView::Suspended { suspension },
            );
        },
    }
}

/// The traces and reports of calls that were refused, in turn.
pub open spec fn refusals(
    sequence: u64,
    calls: Seq<ModelFunctionCallView>,
    from: int,
    error: Seq<char>,
) -> Seq<TurnEffectView> {
    Seq::new(
        (2 * (calls.len() - from)) as nat,
        |k: int|
            if k % 2 == 0 {
                errors_traced(sequence, calls, from, error)[k / 2]
            } else {
                errors_told(calls, from, error)[k / 2]
            },
    )
}

proof fn lemma_refusals(
    log: EffectLogView,
    calls: Seq<ModelFunctionCallView>,
    from: int,
    to: int,
    error: Seq<char>,
)
    requires
        0 <= from <= to <= calls.len(),
    ensures
        limit_reports(log, calls, from, to, error).sequence == number_behind(
            log.sequence,
            (to - from) as nat,
        ),
        limit_reports(log, calls, from, to, error).effects == log.effects + refusals(
            log.sequence,
            calls.take(to),
            from,
            error,
        ),
    decreases to - from,
{
    let got = limit_reports(log, calls, from, to, error);
    let want = refusals(log.sequence, calls.take(to), from, error);
    if from < to {
        lemma_refusals(log, calls, from, to - 1, error);
        let front = refusals(log.sequence, calls.take(to - 1), from, error);
        let n = 2 * (to - 1 - from);
        assert(front.len() == n);
        assert(want.len() == n + 2);
        assert forall|k: int| 0 <= k < n implies #[trigger] want[k] == front[k] by {
            assert(0 <= k / 2 < to - 1 - from);
        }
        assert(n % 2 == 0 && n / 2 == to - 1 - from);
        assert((n + 1) % 2 == 1 && (n + 1) / 2 == to - 1 - from);
        assert(got.effects =~= log.effects + want);
    } else {
        assert(got.effects =~= log.effects + want);
    }
}

/// Calls beyond what the turn may make are told to have been refused, and the turn ends as failed.
pub proof fn law_refused_calls_fail_the_turn(run: TurnRunView, thread: ThreadView, elapsed: nat)
    requires
        run.phase matches TurnPhaseView::Limiting { calls, admitted, error } && admitted
            <= calls.len(),
    ensures
        ({
            let calls = run.phase->Limiting_calls;
            let admitted = run.phase->Limiting_admitted as int;
            let error = run.phase->Limiting_error;
            ends(
                after_commit(run, thread, elapsed),
                TurnCoreView {
                    thread,
                    sequence: number_behind(run.core.sequence, (calls.len() - admitted) as nat),
                    ..run.core
                },
                TurnOutcomeView::Failed { error },
                refusals(
                    run.core.sequence,
                    calls,
                    admitted,
                    "function call not executed because "@ + error,
                ),
            )
        }),
{
    let calls = run.phase->Limiting_calls;
    let admitted = run.phase->Limiting_admitted as int;
    let error = run.phase->Limiting_error;
    let core = TurnCoreView { thread, ..run.core };
    let log = empty_log(core.sequence);
    let text = "function call not executed because "@ + error;
    assert(calls.take(calls.len() as int) =~= calls);
    lemma_refusals(log, calls, admitted, calls.len() as int, text);
    let reports = limit_reports(log, calls, admitted, calls.len() as int, text);
    assert(reports.effects =~= refusals(run.core.sequence, calls, admitted, text));
    lemma_closing(core, reports, TurnOutcomeView::Failed { error });
}

/// A turn that is stored in its end is over: it is measured, traced and told, last of all with its
/// outcome, and nothing is asked for any more.
pub proof fn law_closed_turn_is_over(run: TurnRunView, thread: ThreadView, elapsed: nat)
    requires
        run.phase is Closing,
    ensures
        ({
            let outcome = run.phase->Closing_outcome;
            let sequence = after_number(run.core.sequence);
            let core = TurnCoreView { thread, sequence, ..run.core };
            let usage = run.core.usage;
            let used = usage.input_tokens > 0 || usage.cached_input_tokens > 0
                || usage.output_tokens > 0 || usage.total_tokens > 0;
            let result = after_commit(run, thread, elapsed);
            &&& result is Ok
            &&& result->Ok_0.run == (TurnRunView { core, phase: TurnPhaseView::Finished })
            &&& result->Ok_0.command == (TurnCommandView::Finish { outcome })
            &&& result->Ok_0.effects == seq![
                measured(
                    RuntimeMetricView::TurnFinished {
                        status: match outcome {
                            TurnOutcomeView::AssistantMessage { text } => MetricStatus::Completed,
                            TurnOutcomeView::Suspended { suspension } => MetricStatus::Suspended,
                            TurnOutcomeView::Failed { error } => MetricStatus::Failed,
                            TurnOutcomeView::Aborted { reason } => MetricStatus::Aborted,
                        },
                        duration: elapsed,
                        function_calls: run.core.function_call_count,
                    },
                ),
                traced(
                    sequence,
                    TraceEventKindView::TurnFinished {
                        status: match outcome {
                            TurnOutcomeView::AssistantMessage { text } => TraceTurnStatus::Completed,
                            TurnOutcomeView::Suspended { suspension } => TraceTurnStatus::Suspended,
                            TurnOutcomeView::Failed { error } => TraceTurnStatus::Failed,
                            TurnOutcomeView::Aborted { reason } => TraceTurnStatus::Aborted,
                        },
                    },
                ),
            ] + (match outcome {
                TurnOutcomeView::Failed { error } => seq![
                    told(TurnStateEventView::TurnFailed { error }),
                ],
                TurnOutcomeView::Aborted { reason } => seq![
                    told(TurnStateEventView::TurnAborted { reason }),
                ],
                _ => Seq::empty(),
            }) + (if used {
                seq![told(TurnStateEventView::TurnTokenUsage { usage })]
            } else {
                Seq::empty()
            }) + seq![told(TurnStateEventView::TurnFinished { outcome })]
        }),
{
    let outcome = run.phase->Closing_outcome;
    let usage = run.core.usage;
    let used = usage.input_tokens > 0 || usage.cached_input_tokens > 0 || usage.output_tokens > 0
        || usage.total_tokens > 0;
    assert(used == (usage != TokenUsage::zero()));
    let sequence = after_number(run.core.sequence);
    let result = after_commit(run, thread, elapsed);
    let own = match outcome {
        TurnOutcomeView::Failed { error } => seq![told(TurnStateEventView::TurnFailed { error })],
        TurnOutcomeView::Aborted { reason } => seq![
            told(TurnStateEventView::TurnAborted { reason }),
        ],
        _ => Seq::empty(),
    };
    let tokens = if used {
        seq![told(TurnStateEventView::TurnTokenUsage { usage })]
    } else {
        Seq::empty()
    };
    assert(result->Ok_0.effects =~= seq![result->Ok_0.effects[0], result->Ok_0.effects[1]] + own
        + tokens + seq![told(TurnStateEventView::TurnFinished { outcome })]);
}

} // verus!
