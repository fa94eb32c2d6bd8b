//! Laws of a turn: what holds after every step, whatever the replies from outside are.

use crate::json::JsonView;
use crate::kernel::events::{
    appended, lemma_turn_position, turn_position, RevisionToken, SuspensionView, ThreadView, ToolResultView,
    TurnItemKindView, TurnItemSource, TurnItemView, TurnStatus, TurnView,
};
use crate::kernel::model::{ModelFunctionCallView, ModelResponseView};
use crate::kernel::projection::active_turn;
use crate::runtime::agent_loop::{
    CallEndView, Expected, RecoveryMark, TurnCommandView, TurnCoreView, TurnPhaseView, TurnRunView,
};
use crate::runtime::error::{error_text, AgentErrorView};
use crate::runtime::functions::{
    FunctionCallExecutionView, FunctionRecoveryPolicy, RegisteredFunctionView,
};
use crate::runtime::metrics::RuntimeMetricView;
use crate::runtime::turn::{
    empty_log, EffectLogView, FunctionCallHookResultView, TraceEventKindView, TurnExecutionLimits,
    TurnOutcomeView, TurnStateEventView,
};
use crate::runtime::turn_rules::{
    abort_metrics, abort_reason, abort_records, aborting, admitted_calls, after_call, after_commit,
    after_entering, after_leaving, after_model, after_recording, after_recovery, answer_parts,
    answered, asking, begin_recovery, begin_turn, call_cut_off, call_records, call_returned,
    closing, completed_event, cut_off_reason, expected_by, failing, failure_event, has_output,
    initial_core, initial_thread, is_output_of, last_request, last_requested, limit_reports,
    next_attempt, next_call, not_admitted, output_items, output_trace, pending_calls,
    pending_marks, phase_ok, recover_next, recovery_records, recovery_returned,
    recovery_suspension, request_built, request_status, response_trace, runtime_item, skip_events,
    skip_traces, started_item, suspended_error, suspending, suspension_item, too_many_calls,
    turn_gone, turn_items, turn_started, unanswered, with_usage, StepResult,
};
use vstd::prelude::*;

verus! {

/// A reply to a running turn.
pub enum TurnReply {
    /// The thread is committed.
    Committed { thread: ThreadView, elapsed: nat },
    /// The request is built.
    RequestBuilt,
    /// The model has answered, has failed, or was cut off.
    Answered {
        response: Option<core::result::Result<ModelResponseView, AgentErrorView>>,
        elapsed: nat,
    },
    /// The hooks before a call are through.
    HooksEntered {
        entered: usize,
        allowed: core::result::Result<(), AgentErrorView>,
        elapsed: nat,
    },
    /// A function has returned, or was cut off.
    Returned {
        execution: Option<core::result::Result<FunctionCallExecutionView, AgentErrorView>>,
        elapsed: nat,
    },
    /// The hooks after a call are through.
    HooksLeft,
}

/// What a reply leads to.
pub open spec fn replied(run: TurnRunView, reply: TurnReply) -> StepResult {
    match reply {
        TurnReply::Committed { thread, elapsed } => after_commit(run, thread, elapsed),
        TurnReply::RequestBuilt => request_built(run),
        TurnReply::Answered { response, elapsed } => after_model(run.core, response, elapsed),
        TurnReply::HooksEntered { entered, allowed, elapsed } => match run.phase {
            TurnPhaseView::Entering { calls, admitted, index } => after_entering(
                run.core,
                calls,
                admitted,
                index,
                entered,
                allowed,
                elapsed,
            ),
            _ => turn_gone(run.core),
        },
        TurnReply::Returned { execution, elapsed } => after_call(run, execution, elapsed),
        TurnReply::HooksLeft => match run.phase {
            TurnPhaseView::Leaving { calls, admitted, index, result } => after_leaving(
                run.core,
                calls,
                admitted,
                index,
                result,
            ),
            _ => turn_gone(run.core),
        },
    }
}

/// A reply is what the turn waits for; a thread is committed as the turn left it, under a new
/// revision.
pub open spec fn is_awaited(run: TurnRunView, reply: TurnReply) -> bool {
    match reply {
        TurnReply::Committed { thread, elapsed: _ } => expected_by(run.phase) == Expected::Commit
            && thread == (ThreadView { revision: thread.revision, ..run.core.thread }),
        TurnReply::RequestBuilt => expected_by(run.phase) == Expected::Request,
        TurnReply::Answered { response, elapsed: _ } => expected_by(run.phase) == Expected::Answer
            && (response matches Some(Ok(answer)) ==> answer_parts(answer).1.len() <= usize::MAX),
        TurnReply::HooksEntered { .. } => expected_by(run.phase) == Expected::EnteredHooks,
        TurnReply::Returned { .. } => expected_by(run.phase) == Expected::Return,
        TurnReply::HooksLeft => expected_by(run.phase) == Expected::LeftHooks,
    }
}

/// The thread has the turn.
pub open spec fn has_turn(thread: ThreadView, turn_id: Seq<char>) -> bool {
    turn_position(thread.turns, turn_id) < thread.turns.len()
}

/// The status of the turn.
pub open spec fn status_of(thread: ThreadView, turn_id: Seq<char>) -> TurnStatus {
    thread.turns[turn_position(thread.turns, turn_id) as int].status
}

/// The records of a turn only grow, and every other turn stays as it is.
pub open spec fn only_grows(before: ThreadView, after: ThreadView, turn_id: Seq<char>) -> bool {
    let at = turn_position(before.turns, turn_id);
    &&& turn_position(after.turns, turn_id) == at
    &&& after.turns.len() == before.turns.len()
    &&& forall|i: int|
        0 <= i < before.turns.len() && i != at ==> #[trigger] after.turns[i] == before.turns[i]
    &&& turn_items(before, turn_id).len() <= turn_items(after, turn_id).len()
    &&& turn_items(after, turn_id).take(turn_items(before, turn_id).len() as int) == turn_items(
        before,
        turn_id,
    )
}

/// Every call that was asked for last has an output, or is among those that are still to come.
pub open spec fn is_covered(
    thread: ThreadView,
    turn_id: Seq<char>,
    to_come: Seq<ModelFunctionCallView>,
) -> bool {
    let (requested, behind) = last_requested(turn_items(thread, turn_id));
    forall|i: int|
        0 <= i < requested.len() ==> has_output(behind, (#[trigger] requested[i]).call_id)
            || is_named(to_come, requested[i].call_id)
}

/// One of the calls has a name.
pub open spec fn is_named(calls: Seq<ModelFunctionCallView>, call_id: Seq<char>) -> bool {
    exists|j: int| 0 <= j < calls.len() && (#[trigger] calls[j]).call_id == call_id
}

/// How the status of a turn tells an outcome.
pub open spec fn outcome_fits(status: TurnStatus, outcome: TurnOutcomeView) -> bool {
    match outcome {
        TurnOutcomeView::AssistantMessage { .. } => status == TurnStatus::Completed,
        TurnOutcomeView::Suspended { .. } => status == TurnStatus::Suspended,
        TurnOutcomeView::Failed { .. } => status == TurnStatus::Failed,
        TurnOutcomeView::Aborted { .. } => status == TurnStatus::Aborted,
    }
}

/// The calls that are still to come in a phase.
pub open spec fn calls_to_come(phase: TurnPhaseView) -> Seq<ModelFunctionCallView> {
    match phase {
        TurnPhaseView::Requested { text: _, calls } => calls,
        TurnPhaseView::Entering { calls, admitted: _, index } => calls.skip(index as int),
        TurnPhaseView::Starting { calls, admitted: _, index, entered: _ } =>
            calls.skip(index as int),
        TurnPhaseView::Calling { calls, admitted: _, index, entered: _ } =>
            calls.skip(index as int),
        TurnPhaseView::Recording { calls, admitted: _, index, entered: _, end } => after_end(
            calls,
            index as int,
            end,
        ),
        TurnPhaseView::Leaving { calls, admitted: _, index, result } => match result {
            FunctionCallHookResultView::Suspended { .. } => Seq::empty(),
            _ => calls.skip(index + 1),
        },
        TurnPhaseView::RecoveryStarting { calls, marks: _, index } => calls.skip(index as int),
        TurnPhaseView::RecoveryCalling { calls, marks: _, index } => calls.skip(index as int),
        TurnPhaseView::RecoveryRecording { calls, marks: _, index, end } => after_end(
            calls,
            index as int,
            end,
        ),
        _ => Seq::empty(),
    }
}

/// The calls that are still to come once one has ended.
pub open spec fn after_end(calls: Seq<ModelFunctionCallView>, index: int, end: CallEndView) -> Seq<
    ModelFunctionCallView,
> {
    match end {
        CallEndView::SuspendedBefore { .. } => seq![calls[index]],
        CallEndView::SuspendedAfter { .. } => Seq::empty(),
        _ => calls.skip(index + 1),
    }
}

/// A turn in this phase will end suspended, if it ends from here.
pub open spec fn is_suspending(phase: TurnPhaseView) -> bool {
    match phase {
        TurnPhaseView::Recording { calls: _, admitted: _, index: _, entered: _, end } => end
            is SuspendedBefore || end is SuspendedAfter,
        TurnPhaseView::Leaving { calls: _, admitted: _, index: _, result } => result is Suspended,
        TurnPhaseView::RecoveryRecording { calls: _, marks: _, index: _, end } => end
            is SuspendedBefore || end is SuspendedAfter,
        TurnPhaseView::RecoverySuspending { .. } => true,
        TurnPhaseView::Closing { outcome } => outcome is Suspended,
        _ => false,
    }
}

/// How the status of a turn fits what the turn waits for.
pub open spec fn status_fits(status: TurnStatus, phase: TurnPhaseView) -> bool {
    match phase {
        TurnPhaseView::Answering { .. } => status == TurnStatus::Completed,
        TurnPhaseView::Limiting { .. } => status == TurnStatus::Failed,
        TurnPhaseView::RecoveryAborting => status == TurnStatus::Aborted,
        TurnPhaseView::Closing { outcome } => outcome_fits(status, outcome),
        _ => is_suspending(phase) ==> status == TurnStatus::Suspended,
    }
}

/// A recovered call may be started: it never was, or its function can be called again.
pub open spec fn may_start(mark: RecoveryMark) -> bool {
    !(mark.started is Some && mark.policy == Some(FunctionRecoveryPolicy::NonIdempotent))
}

/// What always holds of a running turn: it made and asked no more than it may, its status fits what
/// it waits for, every call has an output unless it is still to come or the turn is suspended, and
/// no call is started again that must not be.
pub open spec fn is_sound(run: TurnRunView) -> bool {
    let core = run.core;
    &&& has_turn(core.thread, core.turn_id)
    &&& core.function_call_count <= core.limits.max_function_calls
    &&& core.iteration <= core.limits.max_model_iterations
    &&& status_fits(status_of(core.thread, core.turn_id), run.phase)
    &&& (is_suspending(run.phase) || run.phase is Finished || is_covered(
        core.thread,
        core.turn_id,
        calls_to_come(run.phase),
    ))
    &&& match run.phase {
        TurnPhaseView::RecoveryStarting { calls, marks, index } => calls.len() <= usize::MAX
            && may_start(marks[index as int]),
        TurnPhaseView::RecoveryCalling { calls, marks, index } => calls.len() <= usize::MAX
            && may_start(marks[index as int]),
        TurnPhaseView::RecoveryRecording { calls, marks: _, index: _, end: _ } => calls.len()
            <= usize::MAX,
        _ => true,
    }
    &&& phase_ok(core, run.phase)
}

/// What always holds of a step: the turn stays sound, its records only grow, and where it ends, its
/// status tells how, and unless it is suspended every call has its output.
pub open spec fn is_sound_step(before: TurnCoreView, step: StepResult) -> bool {
    match step {
        Err(_) => true,
        Ok(next) => {
            let core = next.run.core;
            &&& is_sound(next.run)
            &&& core.thread_id == before.thread_id
            &&& core.turn_id == before.turn_id
            &&& core.limits == before.limits
            &&& only_grows(before.thread, core.thread, core.turn_id)
            &&& next.command matches TurnCommandView::Finish { outcome } ==> {
                &&& outcome_fits(status_of(core.thread, core.turn_id), outcome)
                &&& outcome is Suspended || is_covered(core.thread, core.turn_id, Seq::empty())
            }
        },
    }
}

/// A record that asks for calls.
pub open spec fn asks_for_calls(item: TurnItemView) -> bool {
    match item.kind {
        TurnItemKindView::ModelResponse { text: _, function_calls, continuation: _ } =>
            function_calls.len()
            > 0,
        _ => false,
    }
}

/// Records that ask for no calls leave the last request where it is.
pub proof fn lemma_last_request(items: Seq<TurnItemView>, more: Seq<TurnItemView>)
    requires
        forall|i: int| 0 <= i < more.len() ==> !asks_for_calls(#[trigger] more[i]),
    ensures
        last_request(items + more) == last_request(items),
    decreases more.len(),
{
    if more.len() == 0 {
        assert(items + more =~= items);
    } else {
        assert((items + more).drop_last() =~= items + more.drop_last());
        assert((items + more).last() == more[more.len() - 1]);
        assert forall|i: int| 0 <= i < more.drop_last().len() implies !asks_for_calls(
            #[trigger] more.drop_last()[i],
        ) by {
            assert(!asks_for_calls(more[i]));
        }
        lemma_last_request(items, more.drop_last());
    }
}

/// The last request stands where it is said to stand.
pub proof fn lemma_request_position(items: Seq<TurnItemView>)
    ensures
        last_request(items) matches Some(at) ==> 0 <= at < items.len() && asks_for_calls(items[at]),
    decreases items.len(),
{
    if items.len() > 0 && !asks_for_calls(items.last()) {
        lemma_request_position(items.drop_last());
        if last_request(items) is Some {
            let at = last_request(items)->Some_0;
            assert(items.drop_last()[at] == items[at]);
        }
    }
}

/// More records that ask for no calls leave what was asked for as it is.
proof fn lemma_more_records(items: Seq<TurnItemView>, more: Seq<TurnItemView>)
    requires
        forall|i: int| 0 <= i < more.len() ==> !asks_for_calls(#[trigger] more[i]),
    ensures
        last_requested(items + more).0 == last_requested(items).0,
        forall|call_id: Seq<char>|
            has_output(last_requested(items).1, call_id) ==> #[trigger] has_output(
                last_requested(items + more).1,
                call_id,
            ),
        last_request(items) is Some ==> forall|call_id: Seq<char>|
            has_output(more, call_id) ==> #[trigger] has_output(
                last_requested(items + more).1,
                call_id,
            ),
{
    lemma_last_request(items, more);
    lemma_request_position(items);
    match last_request(items) {
        None => {},
        Some(at) => {
            let behind = items.skip(at + 1);
            let now = (items + more).skip(at + 1);
            assert(now =~= behind + more);
            assert((items + more)[at] == items[at]);
            assert forall|call_id: Seq<char>| has_output(behind, call_id) implies #[trigger] has_output(
                now,
                call_id,
            ) by {
                let i = choose|i: int|
                    0 <= i < behind.len() && is_output_of(#[trigger] behind[i], call_id);
                assert(is_output_of(now[i], call_id));
            }
            assert forall|call_id: Seq<char>| has_output(more, call_id) implies #[trigger] has_output(
                now,
                call_id,
            ) by {
                let i = choose|i: int| 0 <= i < more.len() && is_output_of(
                    #[trigger] more[i],
                    call_id,
                );
                assert(now[behind.len() + i] == more[i]);
                assert(is_output_of(now[behind.len() + i], call_id));
            }
        },
    }
}

proof fn lemma_position(turns: Seq<TurnView>, id: Seq<char>)
    ensures
        turn_position(turns, id) <= turns.len(),
        forall|j: int| 0 <= j < turn_position(turns, id) ==> (#[trigger] turns[j]).id != id,
        turn_position(turns, id) < turns.len() ==> turns[turn_position(turns, id) as int].id == id,
    decreases turns.len(),
{
    if turns.len() > 0 && turns[0].id != id {
        let rest = turns.drop_first();
        lemma_position(rest, id);
        assert forall|j: int| 0 <= j < turn_position(turns, id) implies (#[trigger] turns[j]).id
            != id by {
            if j > 0 {
                assert(rest[j - 1] == turns[j]);
            }
        }
    }
}

/// What is appended to a turn stands behind what the turn held, and nothing else changes.
pub proof fn lemma_appended(
    thread: ThreadView,
    turn_id: Seq<char>,
    items: Seq<TurnItemView>,
    status: Option<TurnStatus>,
)
    requires
        appended(thread, turn_id, items, status) is Some,
    ensures
        ({
            let after = appended(thread, turn_id, items, status)->Some_0;
            &&& has_turn(thread, turn_id)
            &&& has_turn(after, turn_id)
            &&& only_grows(thread, after, turn_id)
            &&& turn_items(after, turn_id) == turn_items(thread, turn_id) + items
            &&& status_of(after, turn_id) == match status {
                Some(status) => status,
                None => status_of(thread, turn_id),
            }
        }),
{
    let after = appended(thread, turn_id, items, status)->Some_0;
    let at = turn_position(thread.turns, turn_id);
    lemma_position(thread.turns, turn_id);
    assert forall|j: int| 0 <= j < at implies (#[trigger] after.turns[j]).id != turn_id by {
        assert(after.turns[j] == thread.turns[j]);
    }
    lemma_turn_position(after.turns, turn_id, at);
    let before_items = turn_items(thread, turn_id);
    assert((before_items + items).take(before_items.len() as int) =~= before_items);
}

proof fn lemma_grows_further(
    a: ThreadView,
    b: ThreadView,
    c: ThreadView,
    turn_id: Seq<char>,
)
    requires
        only_grows(a, b, turn_id),
        only_grows(b, c, turn_id),
    ensures
        only_grows(a, c, turn_id),
{
    let x = turn_items(a, turn_id);
    let y = turn_items(b, turn_id);
    let z = turn_items(c, turn_id);
    assert(z.take(x.len() as int) =~= z.take(y.len() as int).take(x.len() as int));
    assert forall|i: int|
        0 <= i < a.turns.len() && i != turn_position(a.turns, turn_id) implies #[trigger] c.turns[i]
        == a.turns[i] by {
        assert(b.turns[i] == a.turns[i]);
    }
}

proof fn lemma_grows_at_all(a: ThreadView, turn_id: Seq<char>)
    ensures
        only_grows(a, a, turn_id),
{
    let x = turn_items(a, turn_id);
    assert(x.take(x.len() as int) =~= x);
}

/// Threads with the same turns are covered, and grow, alike.
proof fn lemma_same_turns(a: ThreadView, b: ThreadView, turn_id: Seq<char>)
    requires
        a.turns == b.turns,
    ensures
        turn_items(a, turn_id) == turn_items(b, turn_id),
        status_of(a, turn_id) == status_of(b, turn_id),
        has_turn(a, turn_id) == has_turn(b, turn_id),
        only_grows(a, b, turn_id),
        forall|to_come: Seq<ModelFunctionCallView>| #[trigger]
            is_covered(a, turn_id, to_come) == is_covered(b, turn_id, to_come),
{
    let x = turn_items(a, turn_id);
    assert(x.take(x.len() as int) =~= x);
}

/// Records that ask for no calls keep what is covered, and cover what they answer.
proof fn lemma_covered(
    thread: ThreadView,
    turn_id: Seq<char>,
    items: Seq<TurnItemView>,
    status: Option<TurnStatus>,
    to_come: Seq<ModelFunctionCallView>,
    left: Seq<ModelFunctionCallView>,
)
    requires
        appended(thread, turn_id, items, status) is Some,
        is_covered(thread, turn_id, to_come),
        forall|i: int| 0 <= i < items.len() ==> !asks_for_calls(#[trigger] items[i]),
        forall|i: int|
            0 <= i < to_come.len() ==> has_output(items, (#[trigger] to_come[i]).call_id)
                || is_named(left, to_come[i].call_id),
    ensures
        is_covered(appended(thread, turn_id, items, status)->Some_0, turn_id, left),
{
    let after = appended(thread, turn_id, items, status)->Some_0;
    lemma_appended(thread, turn_id, items, status);
    let old_items = turn_items(thread, turn_id);
    lemma_more_records(old_items, items);
    lemma_request_position(old_items);
    let (requested, behind) = last_requested(old_items);
    let (now_requested, now_behind) = last_requested(old_items + items);
    assert forall|i: int| 0 <= i < now_requested.len() implies has_output(
        now_behind,
        (#[trigger] now_requested[i]).call_id,
    ) || is_named(left, now_requested[i].call_id) by {
        let id = requested[i].call_id;
        if !has_output(behind, id) {
            assert(is_named(to_come, id));
            let j = choose|j: int| 0 <= j < to_come.len() && (#[trigger] to_come[j]).call_id == id;
            assert(has_output(items, to_come[j].call_id) || is_named(left, to_come[j].call_id));
            assert(last_request(old_items) is Some);
            if has_output(items, id) {
                assert(has_output(now_behind, id));
            }
        }
    }
}

/// A new request is covered by its own calls.
proof fn lemma_covered_by_request(
    thread: ThreadView,
    turn_id: Seq<char>,
    item: TurnItemView,
    status: Option<TurnStatus>,
)
    requires
        appended(thread, turn_id, seq![item], status) is Some,
        asks_for_calls(item),
    ensures
        is_covered(
            appended(thread, turn_id, seq![item], status)->Some_0,
            turn_id,
            item.kind->ModelResponse_function_calls,
        ),
{
    lemma_appended(thread, turn_id, seq![item], status);
    let items = turn_items(thread, turn_id) + seq![item];
    assert(items.last() == item);
    assert(last_request(items) == Some(items.len() - 1));
    let (requested, _) = last_requested(items);
    assert forall|i: int| 0 <= i < requested.len() implies is_named(
        item.kind->ModelResponse_function_calls,
        (#[trigger] requested[i]).call_id,
    ) by {
        assert(item.kind->ModelResponse_function_calls[i].call_id == requested[i].call_id);
    }
}

proof fn lemma_outputs(calls: Seq<ModelFunctionCallView>, from: int, result: ToolResultView)
    requires
        0 <= from <= calls.len(),
    ensures
        forall|i: int|
            from <= i < calls.len() ==> has_output(
                output_items(calls, from, result),
                (#[trigger] calls[i]).call_id,
            ),
{
    let items = output_items(calls, from, result);
    assert forall|i: int| from <= i < calls.len() implies has_output(
        items,
        (#[trigger] calls[i]).call_id,
    ) by {
        assert(is_output_of(items[i - from], calls[i].call_id));
    }
}

proof fn lemma_has_output_in(a: Seq<TurnItemView>, b: Seq<TurnItemView>, call_id: Seq<char>)
    ensures
        has_output(a, call_id) ==> has_output(a + b, call_id),
        has_output(b, call_id) ==> has_output(a + b, call_id),
{
    if has_output(a, call_id) {
        let i = choose|i: int| 0 <= i < a.len() && is_output_of(#[trigger] a[i], call_id);
        assert(is_output_of((a + b)[i], call_id));
    }
    if has_output(b, call_id) {
        let i = choose|i: int| 0 <= i < b.len() && is_output_of(#[trigger] b[i], call_id);
        assert((a + b)[a.len() + i] == b[i]);
        assert(is_output_of((a + b)[a.len() + i], call_id));
    }
}

/// A turn that can end as it stands.
pub open spec fn can_close(core: TurnCoreView, outcome: TurnOutcomeView) -> bool {
    &&& has_turn(core.thread, core.turn_id)
    &&& core.function_call_count <= core.limits.max_function_calls
    &&& core.iteration <= core.limits.max_model_iterations
    &&& outcome_fits(status_of(core.thread, core.turn_id), outcome)
    &&& outcome is Suspended || is_covered(core.thread, core.turn_id, Seq::empty())
}

proof fn lemma_closing(
    before: TurnCoreView,
    core: TurnCoreView,
    log: EffectLogView,
    outcome: TurnOutcomeView,
)
    requires
        can_close(core, outcome),
        core.thread_id == before.thread_id,
        core.turn_id == before.turn_id,
        core.limits == before.limits,
        only_grows(before.thread, core.thread, core.turn_id),
    ensures
        is_sound_step(before, closing(core, log, outcome)),
{
    let after = with_usage(core.thread, core.usage);
    assert(after.turns == core.thread.turns);
    lemma_same_turns(core.thread, after, core.turn_id);
    lemma_grows_further(before.thread, core.thread, after, core.turn_id);
}

/// A turn that is to go on as it stands: nothing is still to come.
pub open spec fn can_go_on(core: TurnCoreView) -> bool {
    &&& has_turn(core.thread, core.turn_id)
    &&& core.function_call_count <= core.limits.max_function_calls
    &&& core.iteration <= core.limits.max_model_iterations
    &&& is_covered(core.thread, core.turn_id, Seq::empty())
}

/// What a step keeps of a turn.
pub open spec fn is_same_turn(before: TurnCoreView, core: TurnCoreView) -> bool {
    &&& core.thread_id == before.thread_id
    &&& core.turn_id == before.turn_id
    &&& core.limits == before.limits
    &&& only_grows(before.thread, core.thread, core.turn_id)
}

proof fn lemma_failing(
    before: TurnCoreView,
    core: TurnCoreView,
    log: EffectLogView,
    error: Seq<char>,
)
    requires
        can_go_on(core),
        is_same_turn(before, core),
    ensures
        is_sound_step(before, failing(core, log, error)),
{
    let items = seq![
        runtime_item(TurnItemKindView::TurnFailed { error }),
    ];
    let status = Some(TurnStatus::Failed);
    if appended(core.thread, core.turn_id, items, status) is Some {
        let thread = appended(core.thread, core.turn_id, items, status)->Some_0;
        lemma_appended(core.thread, core.turn_id, items, status);
        lemma_covered(core.thread, core.turn_id, items, status, Seq::empty(), Seq::empty());
        lemma_grows_further(before.thread, core.thread, thread, core.turn_id);
        lemma_closing(
            before,
            TurnCoreView { thread, ..core },
            log,
            TurnOutcomeView::Failed { error },
        );
    }
}

proof fn lemma_asking(before: TurnCoreView, core: TurnCoreView, log: EffectLogView)
    requires
        can_go_on(core),
        is_same_turn(before, core),
    ensures
        is_sound_step(before, asking(core, log)),
{
    if core.iteration >= core.limits.max_model_iterations {
        lemma_failing(
            before,
            core,
            log,
            error_text(
                AgentErrorView::MaxIterations(core.limits.max_model_iterations),
            ),
        );
    }
}

/// A turn that is to take up calls: those from a place on are still to come.
pub open spec fn can_take_up(core: TurnCoreView, to_come: Seq<ModelFunctionCallView>) -> bool {
    &&& has_turn(core.thread, core.turn_id)
    &&& core.function_call_count <= core.limits.max_function_calls
    &&& core.iteration <= core.limits.max_model_iterations
    &&& is_covered(core.thread, core.turn_id, to_come)
}

proof fn lemma_next_call(
    before: TurnCoreView,
    core: TurnCoreView,
    log: EffectLogView,
    calls: Seq<ModelFunctionCallView>,
    admitted: usize,
    index: usize,
)
    requires
        can_take_up(core, calls.skip(index as int)),
        is_same_turn(before, core),
        index <= admitted <= calls.len(),
        core.iteration < core.limits.max_model_iterations,
    ensures
        is_sound_step(before, next_call(core, log, calls, admitted, index)),
{
    if index < admitted {
    } else if admitted < calls.len() {
        let error = too_many_calls(core);
        let result = ToolResultView::Error {
            error: not_admitted(error),
        };
        let outputs = output_items(calls, admitted as int, result);
        let last = runtime_item(TurnItemKindView::TurnFailed { error });
        let items = outputs.push(last);
        let status = Some(TurnStatus::Failed);
        if appended(core.thread, core.turn_id, items, status) is Some {
            let thread = appended(core.thread, core.turn_id, items, status)->Some_0;
            lemma_appended(core.thread, core.turn_id, items, status);
            lemma_outputs(calls, admitted as int, result);
            let to_come = calls.skip(index as int);
            assert(items =~= outputs + seq![last]);
            assert forall|i: int| 0 <= i < to_come.len() implies has_output(
                items,
                (#[trigger] to_come[i]).call_id,
            ) by {
                assert(to_come[i] == calls[index + i]);
                assert(has_output(outputs, calls[index + i].call_id));
                lemma_has_output_in(outputs, seq![last], to_come[i].call_id);
            }
            lemma_covered(core.thread, core.turn_id, items, status, to_come, Seq::empty());
            lemma_grows_further(before.thread, core.thread, thread, core.turn_id);
        }
    } else {
        assert(calls.skip(index as int) =~= Seq::<ModelFunctionCallView>::empty());
        let later = TurnCoreView { iteration: (core.iteration + 1) as usize, ..core };
        lemma_asking(before, later, log);
    }
}

proof fn lemma_answered(
    before: TurnCoreView,
    core: TurnCoreView,
    log: EffectLogView,
    response: ModelResponseView,
)
    requires
        can_go_on(core),
        is_same_turn(before, core),
        core.iteration < core.limits.max_model_iterations,
        answer_parts(response).1.len() <= usize::MAX,
    ensures
        is_sound_step(before, answered(core, log, response)),
{
    let (text, calls, continuation) = answer_parts(response);
    if text is None && calls.len() == 0 {
        lemma_failing(
            before,
            core,
            log,
            "model returned neither assistant text nor function calls"@,
        );
    } else {
        let item = TurnItemView {
            source: TurnItemSource::Model,
            kind: TurnItemKindView::ModelResponse { text, function_calls: calls, continuation },
        };
        let status = if calls.len() == 0 {
            Some(TurnStatus::Completed)
        } else {
            None
        };
        if appended(core.thread, core.turn_id, seq![item], status) is Some {
            let thread = appended(core.thread, core.turn_id, seq![item], status)->Some_0;
            lemma_appended(core.thread, core.turn_id, seq![item], status);
            lemma_grows_further(before.thread, core.thread, thread, core.turn_id);
            if calls.len() == 0 {
                lemma_covered(
                    core.thread,
                    core.turn_id,
                    seq![item],
                    status,
                    Seq::empty(),
                    Seq::empty(),
                );
            } else {
                lemma_covered_by_request(core.thread, core.turn_id, item, status);
            }
        }
    }
}

proof fn lemma_aborting(before: TurnCoreView, core: TurnCoreView, log: EffectLogView)
    requires
        can_go_on(core),
        is_same_turn(before, core),
    ensures
        is_sound_step(before, aborting(core, log)),
{
    let items = seq![
        runtime_item(
            TurnItemKindView::TurnAborted { reason: abort_reason() },
        ),
    ];
    let status = Some(TurnStatus::Aborted);
    if appended(core.thread, core.turn_id, items, status) is Some {
        let thread = appended(core.thread, core.turn_id, items, status)->Some_0;
        lemma_appended(core.thread, core.turn_id, items, status);
        lemma_covered(core.thread, core.turn_id, items, status, Seq::empty(), Seq::empty());
        lemma_grows_further(before.thread, core.thread, thread, core.turn_id);
        lemma_closing(
            before,
            TurnCoreView { thread, ..core },
            log,
            TurnOutcomeView::Aborted { reason: abort_reason() },
        );
    }
}

/// What a call leaves behind answers it, or leaves it as the only one to come.
proof fn lemma_call_records(
    core: TurnCoreView,
    calls: Seq<ModelFunctionCallView>,
    index: int,
    execution: core::result::Result<FunctionCallExecutionView, AgentErrorView>,
    records: (Seq<TurnItemView>, Option<TurnStatus>, CallEndView),
)
    requires
        0 <= index < calls.len(),
        records == call_records(core, calls, index, execution) || records == recovery_records(
            core,
            calls,
            index,
            execution,
        ),
    ensures
        forall|i: int| 0 <= i < records.0.len() ==> !asks_for_calls(#[trigger] records.0[i]),
        records.2 is SuspendedBefore || records.2 is SuspendedAfter || has_output(
            records.0,
            calls[index].call_id,
        ),
        (records.2 is SuspendedBefore || records.2 is SuspendedAfter) == (records.1 == Some(
            TurnStatus::Suspended,
        )),
{
    let (items, status, end) = records;
    match execution {
        Ok(FunctionCallExecutionView::Completed { output, effects }) => {
            assert(is_output_of(items[items.len() - 1], calls[index].call_id));
        },
        Err(error) => {
            assert(is_output_of(items[0], calls[index].call_id));
        },
        _ => {},
    }
}

proof fn lemma_call_returned(
    before: TurnCoreView,
    core: TurnCoreView,
    log: EffectLogView,
    calls: Seq<ModelFunctionCallView>,
    admitted: usize,
    index: usize,
    entered: usize,
    execution: core::result::Result<FunctionCallExecutionView, AgentErrorView>,
    elapsed: nat,
)
    requires
        can_take_up(core, calls.skip(index as int)),
        is_same_turn(before, core),
        index < admitted <= calls.len(),
        core.iteration < core.limits.max_model_iterations,
    ensures
        is_sound_step(
            before,
            call_returned(core, log, calls, admitted, index, entered, execution, elapsed),
        ),
{
    let records = call_records(core, calls, index as int, execution);
    let (items, status, end) = records;
    lemma_call_records(core, calls, index as int, execution, records);
    if appended(core.thread, core.turn_id, items, status) is Some {
        let thread = appended(core.thread, core.turn_id, items, status)->Some_0;
        lemma_appended(core.thread, core.turn_id, items, status);
        lemma_grows_further(before.thread, core.thread, thread, core.turn_id);
        if !(end is SuspendedBefore || end is SuspendedAfter) {
            lemma_one_less(core, calls, index as int, items, status);
        }
    }
}

/// A call that is answered is no longer to come.
proof fn lemma_one_less(
    core: TurnCoreView,
    calls: Seq<ModelFunctionCallView>,
    index: int,
    items: Seq<TurnItemView>,
    status: Option<TurnStatus>,
)
    requires
        0 <= index < calls.len(),
        appended(core.thread, core.turn_id, items, status) is Some,
        is_covered(core.thread, core.turn_id, calls.skip(index)),
        forall|i: int| 0 <= i < items.len() ==> !asks_for_calls(#[trigger] items[i]),
        has_output(items, calls[index].call_id),
    ensures
        is_covered(
            appended(core.thread, core.turn_id, items, status)->Some_0,
            core.turn_id,
            calls.skip(index + 1),
        ),
{
    let to_come = calls.skip(index);
    let left = calls.skip(index + 1);
    assert forall|i: int| 0 <= i < to_come.len() implies has_output(
        items,
        (#[trigger] to_come[i]).call_id,
    ) || is_named(left, to_come[i].call_id) by {
        if i > 0 {
            assert(left[i - 1] == to_come[i]);
        }
    }
    lemma_covered(core.thread, core.turn_id, items, status, to_come, left);
}

/// Records that ask for no calls leave the same calls to come.
proof fn lemma_none_less(
    core: TurnCoreView,
    to_come: Seq<ModelFunctionCallView>,
    items: Seq<TurnItemView>,
    status: Option<TurnStatus>,
)
    requires
        appended(core.thread, core.turn_id, items, status) is Some,
        is_covered(core.thread, core.turn_id, to_come),
        forall|i: int| 0 <= i < items.len() ==> !asks_for_calls(#[trigger] items[i]),
    ensures
        is_covered(
            appended(core.thread, core.turn_id, items, status)->Some_0,
            core.turn_id,
            to_come,
        ),
{
    assert forall|i: int| 0 <= i < to_come.len() implies is_named(
        to_come,
        (#[trigger] to_come[i]).call_id,
    ) by {
    }
    lemma_covered(core.thread, core.turn_id, items, status, to_come, to_come);
}

/// An abort answers every call that was to come.
proof fn lemma_abort_records(
    core: TurnCoreView,
    calls: Seq<ModelFunctionCallView>,
    index: int,
)
    requires
        0 <= index <= calls.len(),
        is_covered(core.thread, core.turn_id, calls.skip(index)),
        appended(
            core.thread,
            core.turn_id,
            abort_records(calls, index),
            Some(TurnStatus::Aborted),
        ) is Some,
    ensures
        is_covered(
            appended(
                core.thread,
                core.turn_id,
                abort_records(calls, index),
                Some(TurnStatus::Aborted),
            )->Some_0,
            core.turn_id,
            Seq::empty(),
        ),
{
    let items = abort_records(calls, index);
    let result = ToolResultView::Aborted { reason: cut_off_reason() };
    let first = seq![
        runtime_item(
            TurnItemKindView::TurnAborted { reason: abort_reason() },
        ),
    ];
    let outputs = output_items(calls, index, result);
    assert(items =~= first + outputs);
    lemma_outputs(calls, index, result);
    let to_come = calls.skip(index);
    assert forall|i: int| 0 <= i < to_come.len() implies has_output(
        items,
        (#[trigger] to_come[i]).call_id,
    ) by {
        assert(to_come[i] == calls[index + i]);
        lemma_has_output_in(first, outputs, to_come[i].call_id);
    }
    assert forall|i: int| 0 <= i < items.len() implies !asks_for_calls(#[trigger] items[i]) by {
        if i > 0 {
            assert(items[i] == outputs[i - 1]);
        }
    }
    lemma_covered(
        core.thread,
        core.turn_id,
        items,
        Some(TurnStatus::Aborted),
        to_come,
        Seq::empty(),
    );
}

proof fn lemma_call_cut_off(
    before: TurnCoreView,
    core: TurnCoreView,
    log: EffectLogView,
    calls: Seq<ModelFunctionCallView>,
    index: usize,
    elapsed: nat,
)
    requires
        can_take_up(core, calls.skip(index as int)),
        is_same_turn(before, core),
        index < calls.len(),
    ensures
        is_sound_step(before, call_cut_off(core, log, calls, index, elapsed)),
{
    let items = abort_records(calls, index as int);
    let status = Some(TurnStatus::Aborted);
    if appended(core.thread, core.turn_id, items, status) is Some {
        let thread = appended(core.thread, core.turn_id, items, status)->Some_0;
        lemma_appended(core.thread, core.turn_id, items, status);
        lemma_abort_records(core, calls, index as int);
        lemma_grows_further(before.thread, core.thread, thread, core.turn_id);
        lemma_closing(
            before,
            TurnCoreView { thread, ..core },
            abort_metrics(log, calls, index as int, elapsed),
            TurnOutcomeView::Aborted { reason: abort_reason() },
        );
    }
}

proof fn lemma_recover_next(
    before: TurnCoreView,
    core: TurnCoreView,
    log: EffectLogView,
    calls: Seq<ModelFunctionCallView>,
    marks: Seq<RecoveryMark>,
    index: usize,
)
    requires
        can_take_up(core, calls.skip(index as int)),
        is_same_turn(before, core),
        index <= calls.len() <= usize::MAX,
        marks.len() == calls.len(),
    ensures
        is_sound_step(before, recover_next(core, log, calls, marks, index)),
{
    if index >= calls.len() {
        assert(calls.skip(index as int) =~= Seq::<ModelFunctionCallView>::empty());
        lemma_asking(before, core, log);
    } else {
        let call = calls[index as int];
        let mark = marks[index as int];
        let attempt = next_attempt(mark.started);
        if mark.policy is Some {
            if may_start(mark) {
                let items = seq![started_item(call, attempt)];
                if appended(core.thread, core.turn_id, items, None) is Some {
                    let thread = appended(core.thread, core.turn_id, items, None)->Some_0;
                    lemma_appended(core.thread, core.turn_id, items, None);
                    lemma_none_less(core, calls.skip(index as int), items, None);
                    lemma_grows_further(before.thread, core.thread, thread, core.turn_id);
                }
            } else {
                let suspension = recovery_suspension(
                    core.suspension_id,
                    call,
                    attempt,
                );
                let items = seq![suspension_item(suspension)];
                let status = Some(TurnStatus::Suspended);
                if appended(core.thread, core.turn_id, items, status) is Some {
                    let thread = appended(core.thread, core.turn_id, items, status)->Some_0;
                    lemma_appended(core.thread, core.turn_id, items, status);
                    lemma_grows_further(before.thread, core.thread, thread, core.turn_id);
                }
            }
        }
    }
}

proof fn lemma_recovery_returned(
    before: TurnCoreView,
    core: TurnCoreView,
    calls: Seq<ModelFunctionCallView>,
    marks: Seq<RecoveryMark>,
    index: usize,
    execution: Option<core::result::Result<FunctionCallExecutionView, AgentErrorView>>,
    elapsed: nat,
)
    requires
        can_take_up(core, calls.skip(index as int)),
        is_same_turn(before, core),
        index < calls.len() <= usize::MAX,
        marks.len() == calls.len(),
    ensures
        is_sound_step(before, recovery_returned(core, calls, marks, index, execution, elapsed)),
{
    match execution {
        None => {
            let items = abort_records(calls, index as int);
            let status = Some(TurnStatus::Aborted);
            if appended(core.thread, core.turn_id, items, status) is Some {
                let thread = appended(core.thread, core.turn_id, items, status)->Some_0;
                lemma_appended(core.thread, core.turn_id, items, status);
                lemma_abort_records(core, calls, index as int);
                lemma_grows_further(before.thread, core.thread, thread, core.turn_id);
            }
        },
        Some(execution) => {
            let records = recovery_records(core, calls, index as int, execution);
            let (items, status, end) = records;
            lemma_call_records(core, calls, index as int, execution, records);
            if appended(core.thread, core.turn_id, items, status) is Some {
                let thread = appended(core.thread, core.turn_id, items, status)->Some_0;
                lemma_appended(core.thread, core.turn_id, items, status);
                lemma_grows_further(before.thread, core.thread, thread, core.turn_id);
                if !(end is SuspendedBefore || end is SuspendedAfter) {
                    lemma_one_less(core, calls, index as int, items, status);
                }
            }
        },
    }
}

proof fn lemma_commit_step(run: TurnRunView, thread: ThreadView, elapsed: nat)
    requires
        is_sound(run),
        is_awaited(run, TurnReply::Committed { thread, elapsed }),
    ensures
        is_sound_step(run.core, after_commit(run, thread, elapsed)),
{
    let before = run.core;
    let core = TurnCoreView { thread, ..before };
    lemma_same_turns(before.thread, thread, before.turn_id);
    let log = empty_log(core.sequence);
    match run.phase {
        TurnPhaseView::Opening { text } => {
            lemma_asking(
                before,
                core,
                log.trace(TraceEventKindView::UserInput { text, response_to: None }).state(
                    turn_started(core),
                ),
            );
        },
        TurnPhaseView::Answering { text } => {
            lemma_closing(
                before,
                core,
                log.trace(response_trace(Some(text), Seq::empty())),
                TurnOutcomeView::AssistantMessage { text },
            );
        },
        TurnPhaseView::Requested { text, calls } => {
            let admitted = admitted_calls(core, calls.len());
            assert(calls.skip(0) =~= calls);
            lemma_next_call(
                before,
                TurnCoreView {
                    function_call_count: (core.function_call_count + admitted) as usize,
                    ..core
                },
                log.trace(response_trace(text, calls)),
                calls,
                admitted,
                0,
            );
        },
        TurnPhaseView::Limiting { calls, admitted, error } => {
            lemma_closing(
                before,
                core,
                limit_reports(log, calls, admitted as int, calls.len() as int, not_admitted(error)),
                TurnOutcomeView::Failed { error },
            );
        },
        TurnPhaseView::RecoverySuspending { suspension } => {
            lemma_suspending(before, core, log, suspension);
        },
        TurnPhaseView::RecoveryAborting => {
            lemma_closing(before, core, log, TurnOutcomeView::Aborted { reason: abort_reason() });
        },
        TurnPhaseView::Recording { calls, admitted, index, entered, end } => {
            lemma_after_recording(before, core, calls, admitted, index, entered, end);
        },
        TurnPhaseView::RecoveryRecording { calls, marks, index, end } => {
            lemma_after_recovery(before, core, calls, marks, index, end);
        },
        _ => {},
    }
}

proof fn lemma_suspending(
    before: TurnCoreView,
    core: TurnCoreView,
    log: EffectLogView,
    suspension: SuspensionView,
)
    requires
        can_close(core, TurnOutcomeView::Suspended { suspension }),
        is_same_turn(before, core),
    ensures
        is_sound_step(before, suspending(core, log, suspension)),
{
    lemma_closing(
        before,
        core,
        log.trace(TraceEventKindView::SuspensionCreated { suspension }).state(
            TurnStateEventView::Suspended { suspension },
        ),
        TurnOutcomeView::Suspended { suspension },
    );
}

proof fn lemma_after_recording(
    before: TurnCoreView,
    core: TurnCoreView,
    calls: Seq<ModelFunctionCallView>,
    admitted: usize,
    index: usize,
    entered: usize,
    end: CallEndView,
)
    requires
        is_sound(
            TurnRunView {
                core,
                phase: TurnPhaseView::Recording { calls, admitted, index, entered, end },
            },
        ),
        is_same_turn(before, core),
    ensures
        is_sound_step(before, after_recording(core, calls, admitted, index, entered, end)),
{
    if let CallEndView::SuspendedBefore { suspension } = end {
        let log = empty_log(core.sequence);
        let total = calls.len() as int;
        lemma_closing(
            before,
            core,
            skip_events(
                skip_traces(
                    log.trace(TraceEventKindView::SuspensionCreated { suspension }),
                    calls,
                    index + 1,
                    total,
                    suspended_error(),
                ).state(TurnStateEventView::Suspended { suspension }),
                calls,
                index + 1,
                total,
                suspended_error(),
            ),
            TurnOutcomeView::Suspended { suspension },
        );
    }
}

proof fn lemma_after_recovery(
    before: TurnCoreView,
    core: TurnCoreView,
    calls: Seq<ModelFunctionCallView>,
    marks: Seq<RecoveryMark>,
    index: usize,
    end: CallEndView,
)
    requires
        is_sound(
            TurnRunView {
                core,
                phase: TurnPhaseView::RecoveryRecording { calls, marks, index, end },
            },
        ),
        is_same_turn(before, core),
        calls.len() <= usize::MAX,
    ensures
        is_sound_step(before, after_recovery(core, calls, marks, index, end)),
{
    let call = calls[index as int];
    let log = empty_log(core.sequence);
    let next = (index + 1) as usize;
    match end {
        CallEndView::Completed { output } => {
            lemma_recover_next(
                before,
                core,
                log.trace(output_trace(call, ToolResultView::Success { output })).state(
                    completed_event(call),
                ),
                calls,
                marks,
                next,
            );
        },
        CallEndView::Failed { error } => {
            lemma_recover_next(
                before,
                core,
                log.state(failure_event(call, error)),
                calls,
                marks,
                next,
            );
        },
        CallEndView::SuspendedBefore { suspension } => {
            lemma_suspending(before, core, log, suspension);
        },
        CallEndView::SuspendedAfter { suspension, output } => {
            lemma_suspending(before, core, log, suspension);
        },
    }
}

proof fn lemma_after_leaving(
    core: TurnCoreView,
    calls: Seq<ModelFunctionCallView>,
    admitted: usize,
    index: usize,
    result: FunctionCallHookResultView,
)
    requires
        is_sound(
            TurnRunView {
                core,
                phase: TurnPhaseView::Leaving { calls, admitted, index, result },
            },
        ),
    ensures
        is_sound_step(core, after_leaving(core, calls, admitted, index, result)),
{
    let call = calls[index as int];
    let log = empty_log(core.sequence);
    let next = (index + 1) as usize;
    lemma_grows_at_all(core.thread, core.turn_id);
    match result {
        FunctionCallHookResultView::Completed { output } => {
            lemma_next_call(core, core, log.state(completed_event(call)), calls, admitted, next);
        },
        FunctionCallHookResultView::Failed { error } => {
            lemma_next_call(
                core,
                core,
                log.state(failure_event(call, error)),
                calls,
                admitted,
                next,
            );
        },
        FunctionCallHookResultView::Suspended { suspension, output } => {
            lemma_closing(
                core,
                core,
                skip_events(
                    log.state(completed_event(call)).state(
                        TurnStateEventView::Suspended { suspension },
                    ),
                    calls,
                    index + 1,
                    calls.len() as int,
                    suspended_error(),
                ),
                TurnOutcomeView::Suspended { suspension },
            );
        },
    }
}

proof fn lemma_after_entering(
    core: TurnCoreView,
    calls: Seq<ModelFunctionCallView>,
    admitted: usize,
    index: usize,
    entered: usize,
    allowed: core::result::Result<(), AgentErrorView>,
    elapsed: nat,
)
    requires
        is_sound(
            TurnRunView { core, phase: TurnPhaseView::Entering { calls, admitted, index } },
        ),
    ensures
        is_sound_step(
            core,
            after_entering(core, calls, admitted, index, entered, allowed, elapsed),
        ),
{
    lemma_grows_at_all(core.thread, core.turn_id);
    match allowed {
        Ok(_) => {
            let items = seq![started_item(calls[index as int], 1)];
            if appended(core.thread, core.turn_id, items, None) is Some {
                lemma_appended(core.thread, core.turn_id, items, None);
                lemma_none_less(core, calls.skip(index as int), items, None);
            }
        },
        Err(error) => {
            lemma_call_returned(
                core,
                core,
                empty_log(core.sequence),
                calls,
                admitted,
                index,
                entered,
                Err(error),
                elapsed,
            );
        },
    }
}

/// Whatever is replied to a sound turn that waits for such a reply, the step is sound: the turn
/// makes no more calls and asks the model no more often than it may, its records only grow, no
/// call that must not be started again is, and where the turn ends its status tells how, and
/// unless it is suspended every call that was asked for has its output.
pub proof fn law_every_step_is_sound(run: TurnRunView, reply: TurnReply)
    requires
        is_sound(run),
        is_awaited(run, reply),
    ensures
        is_sound_step(run.core, replied(run, reply)),
{
    let core = run.core;
    lemma_grows_at_all(core.thread, core.turn_id);
    match reply {
        TurnReply::Committed { thread, elapsed } => {
            lemma_commit_step(run, thread, elapsed);
        },
        TurnReply::RequestBuilt => {},
        TurnReply::Answered { response, elapsed } => {
            let log = empty_log(core.sequence).metric(
                RuntimeMetricView::ModelRequestFinished {
                    status: request_status(response),
                    duration: elapsed,
                },
            );
            match response {
                None => {
                    lemma_aborting(core, core, log);
                },
                Some(Err(error)) => {
                    lemma_failing(core, core, log, error_text(error));
                },
                Some(Ok(answer)) => {
                    lemma_answered(core, core, log, answer);
                },
            }
        },
        TurnReply::HooksEntered { entered, allowed, elapsed } => {
            if let TurnPhaseView::Entering { calls, admitted, index } = run.phase {
                lemma_after_entering(core, calls, admitted, index, entered, allowed, elapsed);
            }
        },
        TurnReply::Returned { execution, elapsed } => {
            match run.phase {
                TurnPhaseView::Calling { calls, admitted, index, entered } => {
                    match execution {
                        Some(execution) => {
                            lemma_call_returned(
                                core,
                                core,
                                empty_log(core.sequence),
                                calls,
                                admitted,
                                index,
                                entered,
                                execution,
                                elapsed,
                            );
                        },
                        None => {
                            lemma_call_cut_off(
                                core,
                                core,
                                empty_log(core.sequence),
                                calls,
                                index,
                                elapsed,
                            );
                        },
                    }
                },
                TurnPhaseView::RecoveryCalling { calls, marks, index } => {
                    lemma_recovery_returned(core, core, calls, marks, index, execution, elapsed);
                },
                _ => {},
            }
        },
        TurnReply::HooksLeft => {
            if let TurnPhaseView::Leaving { calls, admitted, index, result } = run.phase {
                lemma_after_leaving(core, calls, admitted, index, result);
            }
        },
    }
}

/// A new turn begins soundly, given a name that no turn of the thread has.
pub proof fn law_turn_begins_soundly(
    thread_id: Seq<char>,
    loaded: core::result::Result<ThreadView, AgentErrorView>,
    metadata: JsonView,
    user_text: Seq<char>,
    turn_id: Seq<char>,
    limits: TurnExecutionLimits,
)
    requires
        loaded matches Ok(thread) ==> forall|i: int|
            0 <= i < thread.turns.len() ==> (#[trigger] thread.turns[i]).id != turn_id,
    ensures
        begin_turn(thread_id, loaded, metadata, user_text, turn_id, limits) matches Ok(step)
            ==> is_sound(step.run),
{
    if let Ok(step) = begin_turn(thread_id, loaded, metadata, user_text, turn_id, limits) {
        let thread = initial_thread(thread_id, loaded, Some(metadata))->Ok_0;
        let turns = step.run.core.thread.turns;
        assert forall|i: int| 0 <= i < turns.len() - 1 implies (#[trigger] turns[i]).id != turn_id by {
            assert(turns[i] == thread.turns[i]);
        }
        lemma_turn_position(turns, turn_id, (turns.len() - 1) as nat);
        let items = turn_items(step.run.core.thread, turn_id);
        assert(items.len() == 1);
        assert(!asks_for_calls(items[0]));
        assert(items.drop_last().len() == 0);
        assert(last_request(items) == last_request(items.drop_last()));
        assert(last_requested(items).0.len() == 0);
    }
}

proof fn lemma_unanswered(calls: Seq<ModelFunctionCallView>, behind: Seq<TurnItemView>)
    ensures
        forall|i: int|
            0 <= i < calls.len() ==> has_output(behind, (#[trigger] calls[i]).call_id) || is_named(
                unanswered(calls, behind),
                calls[i].call_id,
            ),
    decreases calls.len(),
{
    if calls.len() > 0 {
        let init = calls.drop_last();
        lemma_unanswered(init, behind);
        let rest = unanswered(init, behind);
        let all = unanswered(calls, behind);
        assert forall|i: int| 0 <= i < calls.len() implies has_output(
            behind,
            (#[trigger] calls[i]).call_id,
        ) || is_named(all, calls[i].call_id) by {
            if i < init.len() {
                assert(init[i] == calls[i]);
                if is_named(rest, calls[i].call_id) {
                    let j = choose|j: int|
                        0 <= j < rest.len() && (#[trigger] rest[j]).call_id == calls[i].call_id;
                    assert(all[j] == rest[j]);
                }
            } else if !has_output(behind, calls[i].call_id) {
                assert(all[all.len() - 1] == calls[i]);
            }
        }
    }
}

proof fn lemma_active_turn(turns: Seq<TurnView>)
    ensures
        active_turn(turns) matches Some(id) ==> turn_position(turns, id) < turns.len(),
    decreases turns.len(),
{
    if turns.len() > 0 {
        lemma_active_turn(turns.drop_last());
        if let Some(id) = active_turn(turns) {
            lemma_position(turns, id);
            if turn_position(turns, id) == turns.len() {
                let at = turn_position(turns.drop_last(), id);
                lemma_position(turns.drop_last(), id);
                if turns.last().id != id {
                    assert(turns.drop_last()[at as int].id == id);
                    assert(turns[at as int].id == id);
                } else {
                    assert(turns[turns.len() - 1].id != id);
                }
            }
        }
    }
}

/// A turn that is taken up again begins soundly, with as many open calls as a machine can count.
pub proof fn law_recovery_begins_soundly(
    thread_id: Seq<char>,
    loaded: core::result::Result<ThreadView, AgentErrorView>,
    functions: Map<Seq<char>, RegisteredFunctionView>,
    limits: TurnExecutionLimits,
    sequence: u64,
    suspension_id: Seq<char>,
)
    requires
        loaded matches Ok(thread) ==> (active_turn(thread.turns) matches Some(turn_id)
            ==> pending_calls(thread, turn_id).len() <= usize::MAX),
    ensures
        begin_recovery(
            thread_id,
            loaded,
            functions,
            limits,
            sequence,
            suspension_id,
        ) matches Ok(step) ==> is_sound(step.run),
{
    let step = begin_recovery(thread_id, loaded, functions, limits, sequence, suspension_id);
    if step is Ok {
        let thread = initial_thread(thread_id, loaded, None)->Ok_0;
        lemma_active_turn(thread.turns);
        let turn_id = active_turn(thread.turns)->Some_0;
        let core = initial_core(thread_id, turn_id, thread, limits, sequence, suspension_id);
        let calls = pending_calls(thread, turn_id);
        let (requested, behind) = last_requested(turn_items(thread, turn_id));
        lemma_unanswered(requested, behind);
        assert(calls.skip(0) =~= calls);
        lemma_grows_at_all(thread, turn_id);
        lemma_recover_next(
            core,
            core,
            empty_log(sequence).state(turn_started(core)),
            calls,
            pending_marks(thread, turn_id, functions),
            0,
        );
    }
}

/// A turn in which every call that was asked for has its output has no open call.
pub proof fn law_covered_turn_has_no_open_call(thread: ThreadView, turn_id: Seq<char>)
    requires
        is_covered(thread, turn_id, Seq::empty()),
    ensures
        pending_calls(thread, turn_id).len() == 0,
{
    let (requested, behind) = last_requested(turn_items(thread, turn_id));
    assert forall|i: int| 0 <= i < requested.len() implies has_output(
        behind,
        (#[trigger] requested[i]).call_id,
    ) by {
        assert(!is_named(Seq::empty(), requested[i].call_id));
    }
    lemma_all_answered(requested, behind);
}

/// A model is asked, and its answer awaited, only when every call that was asked for before has its
/// output.
pub proof fn law_model_waits_for_every_call(run: TurnRunView)
    requires
        is_sound(run),
        run.phase is Asking || run.phase is Streaming,
    ensures
        pending_calls(run.core.thread, run.core.turn_id).len() == 0,
{
    law_covered_turn_has_no_open_call(run.core.thread, run.core.turn_id);
}

/// The thread of a run, saved under a revision.
pub open spec fn saved(run: TurnRunView, revision: RevisionToken) -> ThreadView {
    ThreadView { revision, ..run.core.thread }
}

/// An answer with a text and no calls ends the turn with that text: it is saved, the tokens are
/// saved, and the turn is finished.
pub proof fn law_answer_without_calls_ends_the_turn(
    core: TurnCoreView,
    response: ModelResponseView,
    elapsed: nat,
    revisions: (RevisionToken, RevisionToken),
)
    requires
        has_turn(core.thread, core.turn_id),
        answer_parts(response).0 is Some,
        answer_parts(response).1.len() == 0,
    ensures
        ({
            let outcome = TurnOutcomeView::AssistantMessage { text: answer_parts(response).0->0 };
            let first = after_model(core, Some(Ok(response)), elapsed);
            let second = after_commit(
                first->Ok_0.run,
                saved(first->Ok_0.run, revisions.0),
                elapsed,
            );
            let third = after_commit(
                second->Ok_0.run,
                saved(second->Ok_0.run, revisions.1),
                elapsed,
            );
            &&& first is Ok
            &&& first->Ok_0.command == TurnCommandView::Commit
            &&& second is Ok
            &&& second->Ok_0.command == TurnCommandView::Commit
            &&& third is Ok
            &&& third->Ok_0.command == (TurnCommandView::Finish { outcome })
            &&& third->Ok_0.run.core.thread.turns[turn_position(
                third->Ok_0.run.core.thread.turns,
                core.turn_id,
            ) as int].status == TurnStatus::Completed
        }),
{
    let (text, calls, continuation) = answer_parts(response);
    let item = TurnItemView {
        source: TurnItemSource::Model,
        kind: TurnItemKindView::ModelResponse { text, function_calls: calls, continuation },
    };
    let status = Some(TurnStatus::Completed);
    assert(appended(core.thread, core.turn_id, seq![item], status) is Some);
    lemma_appended(core.thread, core.turn_id, seq![item], status);
}

/// Once an answer is cut off, nothing more is asked or called: the turn can only be saved as
/// aborted.
pub proof fn law_cut_off_answer_starts_nothing(core: TurnCoreView, elapsed: nat)
    requires
        has_turn(core.thread, core.turn_id),
    ensures
        ({
            let step = after_model(core, None, elapsed);
            &&& step is Ok
            &&& step->Ok_0.command == TurnCommandView::Commit
            &&& step->Ok_0.run.phase matches TurnPhaseView::Closing { outcome }
            &&& outcome is Aborted
        }),
{
}

proof fn lemma_all_answered(calls: Seq<ModelFunctionCallView>, behind: Seq<TurnItemView>)
    requires
        forall|i: int| 0 <= i < calls.len() ==> has_output(behind, (#[trigger] calls[i]).call_id),
    ensures
        unanswered(calls, behind).len() == 0,
    decreases calls.len(),
{
    if calls.len() > 0 {
        let init = calls.drop_last();
        assert forall|i: int| 0 <= i < init.len() implies has_output(
            behind,
            (#[trigger] init[i]).call_id,
        ) by {
            assert(init[i] == calls[i]);
        }
        lemma_all_answered(init, behind);
        assert(has_output(behind, calls[calls.len() - 1].call_id));
    }
}

/// How far a turn is from its end: by the requests that it may still make, then by the stage of
/// the request, then by the calls.
pub open spec fn distance_to_end(run: TurnRunView) -> (nat, nat, nat) {
    let left = (run.core.limits.max_model_iterations - run.core.iteration + 3) as nat;
    match run.phase {
        TurnPhaseView::Finished => (0, 0, 0),
        TurnPhaseView::Closing { .. } => (1, 0, 0),
        TurnPhaseView::Answering { .. } => (2, 0, 0),
        TurnPhaseView::Limiting { .. } => (2, 0, 0),
        TurnPhaseView::RecoverySuspending { .. } => (2, 0, 0),
        TurnPhaseView::RecoveryAborting => (2, 0, 0),
        TurnPhaseView::Opening { .. } => (left, 6, 0),
        TurnPhaseView::RecoveryStarting { calls, marks: _, index } => (
            left,
            5,
            calls_left(calls, index, 2),
        ),
        TurnPhaseView::RecoveryCalling { calls, marks: _, index } => (
            left,
            5,
            calls_left(calls, index, 1),
        ),
        TurnPhaseView::RecoveryRecording { calls, marks: _, index, end: _ } => (
            left,
            5,
            calls_left(calls, index, 0),
        ),
        TurnPhaseView::Asking => (left, 4, 0),
        TurnPhaseView::Streaming => (left, 3, 0),
        TurnPhaseView::Requested { .. } => (left, 2, 0),
        TurnPhaseView::Entering { calls, admitted: _, index } => (
            left,
            1,
            calls_left(calls, index, 4),
        ),
        TurnPhaseView::Starting { calls, admitted: _, index, entered: _ } => (
            left,
            1,
            calls_left(calls, index, 3),
        ),
        TurnPhaseView::Calling { calls, admitted: _, index, entered: _ } => (
            left,
            1,
            calls_left(calls, index, 2),
        ),
        TurnPhaseView::Recording { calls, admitted: _, index, entered: _, end: _ } => (
            left,
            1,
            calls_left(calls, index, 1),
        ),
        TurnPhaseView::Leaving { calls, admitted: _, index, result: _ } => (
            left,
            1,
            calls_left(calls, index, 0),
        ),
    }
}

/// The calls behind one, and what is left to do for that one.
pub open spec fn calls_left(calls: Seq<ModelFunctionCallView>, index: usize, rest: nat) -> nat {
    ((calls.len() - index) * 5 + rest) as nat
}

/// One distance is shorter than another.
pub open spec fn is_shorter(a: (nat, nat, nat), b: (nat, nat, nat)) -> bool {
    a.0 < b.0 || (a.0 == b.0 && (a.1 < b.1 || (a.1 == b.1 && a.2 < b.2)))
}

/// Every step brings a turn nearer to its end, so every turn ends.
pub proof fn law_every_step_makes_progress(run: TurnRunView, reply: TurnReply)
    requires
        is_sound(run),
        is_awaited(run, reply),
    ensures
        replied(run, reply) matches Ok(next) ==> is_shorter(
            distance_to_end(next.run),
            distance_to_end(run),
        ),
{
    law_every_step_is_sound(run, reply);
}

} // verus!
