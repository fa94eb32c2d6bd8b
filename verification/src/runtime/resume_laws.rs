//! What the resolution of a suspension does to the call that it is about.

use crate::json::JsonView;
use crate::kernel::events::{
    ThreadView, ToolResultView, TurnItemKindView, TurnItemSource, TurnItemView, TurnStatus,
};
use crate::kernel::model::ModelFunctionCallView;
use crate::kernel::projection::{pending_suspension, projected};
use crate::runtime::error::{error_text, AgentErrorView};
use crate::runtime::functions::{
    FunctionCallExecutionView, FunctionContextView, SuspensionResolutionView,
};
use crate::runtime::record_laws::{
    goals_set, has_recorded, is_first, lacks_turn, lemma_first, lemma_recorded, noted, output_of,
};
use crate::runtime::resume::{
    after_resume_commit, after_resumed_call, begin_resume, call_with_id, requested_call,
    suspended_call, ResumeCommandView, ResumePhaseView, ResumeResult, ResumeRunView,
    ResumeStepView,
};
use crate::runtime::turn::{TurnOutcomeView, TurnStateEventView};
use vstd::prelude::*;

verus! {

/// The call that a suspension names.
pub open spec fn named_call(payload: JsonView) -> Option<Seq<char>> {
    if payload is Object && payload->Object_0.contains_key("call_id"@)
        && payload->Object_0["call_id"@] is Text {
        Some(payload->Object_0["call_id"@]->Text_0)
    } else {
        None
    }
}

/// A suspension was made before its function was called.
pub open spec fn was_deferred(payload: JsonView) -> bool {
    payload is Object && payload->Object_0.contains_key("deferred"@)
        && payload->Object_0["deferred"@] == JsonView::Bool(true)
}

/// The attempt that a suspension was made in.
pub open spec fn attempt_of(payload: JsonView) -> u32 {
    if payload is Object && payload->Object_0.contains_key("attempt"@) && payload->Object_0[
        "attempt"@
    ] is Number && payload->Object_0["attempt"@]->Number_0 is Unsigned {
        payload->Object_0["attempt"@]->Number_0->Unsigned_0 as u32
    } else {
        1
    }
}

/// A record is an answer that asks for a call with an id.
pub open spec fn asks_for(item: TurnItemView, call_id: Seq<char>) -> bool {
    item.kind is ModelResponse && exists|k: int|
        0 <= k < item.kind->ModelResponse_function_calls.len() && (
        #[trigger] item.kind->ModelResponse_function_calls[k]).call_id == call_id
}

/// A call is the first with its id in an answer.
pub open spec fn is_asked_in(item: TurnItemView, k: int, call: ModelFunctionCallView) -> bool {
    &&& item.kind is ModelResponse
    &&& 0 <= k < item.kind->ModelResponse_function_calls.len()
    &&& item.kind->ModelResponse_function_calls[k] == call
    &&& forall|j: int|
        0 <= j < k ==> (#[trigger] item.kind->ModelResponse_function_calls[j]).call_id
            != call.call_id
}

/// A call of a turn with an id: it stands in the last answer that asks for one with the id, and is
/// the first such call there.
pub open spec fn is_requested(
    items: Seq<TurnItemView>,
    call_id: Seq<char>,
    call: ModelFunctionCallView,
) -> bool {
    &&& call.call_id == call_id
    &&& exists|i: int, k: int|
        0 <= i < items.len() && #[trigger] is_asked_in(items[i], k, call) && forall|j: int|
            i < j < items.len() ==> !asks_for(#[trigger] items[j], call_id)
}

proof fn lemma_call_with_id(calls: Seq<ModelFunctionCallView>, call_id: Seq<char>)
    ensures
        match call_with_id(calls, call_id) {
            Some(call) => call.call_id == call_id && exists|k: int|
                0 <= k < calls.len() && #[trigger] calls[k] == call && forall|j: int|
                    0 <= j < k ==> (#[trigger] calls[j]).call_id != call_id,
            None => forall|j: int| 0 <= j < calls.len() ==> (#[trigger] calls[j]).call_id != call_id,
        },
    decreases calls.len(),
{
    if calls.len() > 0 {
        if calls[0].call_id == call_id {
            assert(calls[0] == call_with_id(calls, call_id)->Some_0);
        } else {
            let rest = calls.drop_first();
            lemma_call_with_id(rest, call_id);
            match call_with_id(rest, call_id) {
                Some(call) => {
                    let k = choose|k: int|
                        0 <= k < rest.len() && #[trigger] rest[k] == call && forall|j: int|
                            0 <= j < k ==> (#[trigger] rest[j]).call_id != call_id;
                    assert(calls[k + 1] == call);
                    assert forall|j: int| 0 <= j < k + 1 implies (#[trigger] calls[j]).call_id
                        != call_id by {
                        if j > 0 {
                            assert(rest[j - 1].call_id != call_id);
                        }
                    }
                },
                None => {
                    assert forall|j: int| 0 <= j < calls.len() implies (#[trigger] calls[j]).call_id
                        != call_id by {
                        if j > 0 {
                            assert(rest[j - 1].call_id != call_id);
                        }
                    }
                },
            }
        }
    }
}

proof fn lemma_requested_call(items: Seq<TurnItemView>, call_id: Seq<char>)
    ensures
        match requested_call(items, call_id) {
            Some(call) => is_requested(items, call_id, call),
            None => forall|j: int| 0 <= j < items.len() ==> !asks_for(#[trigger] items[j], call_id),
        },
    decreases items.len(),
{
    if items.len() > 0 {
        let init = items.drop_last();
        let last = items.last();
        lemma_requested_call(init, call_id);
        let n = items.len() - 1;
        let here = match last.kind {
            TurnItemKindView::ModelResponse { text, function_calls, continuation } => {
                call_with_id(function_calls, call_id)
            },
            _ => None,
        };
        if last.kind is ModelResponse {
            lemma_call_with_id(last.kind->ModelResponse_function_calls, call_id);
        }
        if here is Some {
            let call = here->Some_0;
            let calls = last.kind->ModelResponse_function_calls;
            let k = choose|k: int|
                0 <= k < calls.len() && #[trigger] calls[k] == call && forall|j: int|
                    0 <= j < k ==> (#[trigger] calls[j]).call_id != call_id;
            assert(is_asked_in(items[n], k, call));
        } else {
            assert(!asks_for(last, call_id));
            match requested_call(init, call_id) {
                Some(call) => {
                    let (i, k) = choose|i: int, k: int|
                        0 <= i < init.len() && #[trigger] is_asked_in(init[i], k, call)
                            && forall|j: int|
                            i < j < init.len() ==> !asks_for(#[trigger] init[j], call_id);
                    assert(is_asked_in(items[i], k, call));
                    assert forall|j: int| i < j < items.len() implies !asks_for(
                        #[trigger] items[j],
                        call_id,
                    ) by {
                        if j < init.len() {
                            assert(items[j] == init[j]);
                        }
                    }
                },
                None => {
                    assert forall|j: int| 0 <= j < items.len() implies !asks_for(
                        #[trigger] items[j],
                        call_id,
                    ) by {
                        if j < init.len() {
                            assert(items[j] == init[j]);
                        }
                    }
                },
            }
        }
    }
}

/// A call that was asked for under an id in a turn of a thread.
pub open spec fn is_call_of(
    thread: ThreadView,
    turn_id: Seq<char>,
    call_id: Seq<char>,
    call: ModelFunctionCallView,
) -> bool {
    exists|i: int| #[trigger] is_first(thread.turns, turn_id, i) && is_requested(
        thread.turns[i].items,
        call_id,
        call,
    )
}

/// No call was asked for under an id in a turn of a thread.
pub open spec fn has_no_call(thread: ThreadView, turn_id: Seq<char>, call_id: Seq<char>) -> bool {
    forall|i: int, j: int|
        #![trigger is_first(thread.turns, turn_id, i), thread.turns[i].items[j]]
        is_first(thread.turns, turn_id, i) && 0 <= j < thread.turns[i].items.len() ==> !asks_for(
            thread.turns[i].items[j],
            call_id,
        )
}

proof fn lemma_suspended_call(thread: ThreadView, turn_id: Seq<char>, call_id: Seq<char>)
    ensures
        match suspended_call(thread, turn_id, call_id) {
            Some(call) => is_call_of(thread, turn_id, call_id, call),
            None => has_no_call(thread, turn_id, call_id),
        },
{
    lemma_first(thread.turns, turn_id);
    let at = crate::kernel::events::turn_position(thread.turns, turn_id) as int;
    if at < thread.turns.len() {
        lemma_requested_call(thread.turns[at].items, call_id);
        assert forall|i: int| #[trigger] is_first(thread.turns, turn_id, i) implies i == at by {
            if i < at {
                assert(thread.turns[i].id != turn_id);
            } else if at < i {
                assert(thread.turns[at].id != turn_id);
            }
        }
    }
}

/// A resolution that is taken: what it records waits for its commit.
pub open spec fn takes_up(
    result: ResumeResult,
    thread: ThreadView,
    turn_id: Seq<char>,
    item: TurnItemView,
    status: Option<TurnStatus>,
    phase: ResumePhaseView,
) -> bool {
    match result {
        Ok(step) => {
            &&& has_recorded(thread, step.run.thread, turn_id, seq![item], status)
            &&& step.run.turn_id == turn_id
            &&& step.run.projection == projected(thread)
            &&& step.run.phase == phase
            &&& step.events.len() == 0
            &&& step.command == ResumeCommandView::Commit
        },
        Err(error) => error == AgentErrorView::TurnNotFound(turn_id) && lacks_turn(thread, turn_id),
    }
}

/// A refusal of the resumption itself.
pub open spec fn refuses(result: ResumeResult, message: Seq<char>) -> bool {
    result == Err::<ResumeStepView, AgentErrorView>(
        AgentErrorView::Function { name: "resume_suspended_turn"@, message },
    )
}

/// An approval starts the very call that the suspension names, as its next attempt; a denial answers
/// that call with the reason; and neither touches another call. The call is one that the suspended
/// turn asked for. A text of the user is recorded as the response to the suspension. Each kind of
/// resolution is refused where the suspension is not one for it.
pub proof fn law_resolution_is_of_the_suspended_call(
    thread: ThreadView,
    suspension_id: Seq<char>,
    resolution: SuspensionResolutionView,
)
    ensures
        ({
            let result = begin_resume(thread, suspension_id, resolution);
            match pending_suspension(thread.turns) {
                Some(pending) if pending.suspension.id == suspension_id => {
                    let payload = pending.suspension.payload;
                    let turn_id = pending.turn_id;
                    match resolution {
                        SuspensionResolutionView::UserInput { text } => if was_deferred(payload) {
                            refuses(
                                result,
                                "a pre-execution suspension requires approval or denial"@,
                            )
                        } else {
                            takes_up(
                                result,
                                thread,
                                turn_id,
                                TurnItemView {
                                    source: TurnItemSource::User,
                                    kind: TurnItemKindView::UserInput {
                                        text,
                                        response_to: Some(suspension_id),
                                    },
                                },
                                Some(TurnStatus::Running),
                                ResumePhaseView::Settling { event: None },
                            )
                        },
                        _ => if named_call(payload) is None {
                            refuses(result, "suspension does not identify a resumable call"@)
                        } else if has_no_call(thread, turn_id, named_call(payload)->Some_0) {
                            refuses(result, "suspended function call was not found"@)
                        } else if !was_deferred(payload) {
                            refuses(
                                result,
                                "approval or denial can only resume a pre-execution suspension"@,
                            )
                        } else if resolution is ExternalResult {
                            refuses(result, "unsupported suspension resolution"@)
                        } else {
                            exists|call: ModelFunctionCallView| #[trigger] is_call_of(
                                thread,
                                turn_id,
                                named_call(payload)->Some_0,
                                call,
                            ) && call.call_id == named_call(payload)->Some_0 && if resolution
                                is Approve {
                                takes_up(
                                    result,
                                    thread,
                                    turn_id,
                                    noted(
                                        TurnItemKindView::FunctionCallStarted {
                                            call_id: call.call_id,
                                            name: call.name,
                                            attempt: (attempt_of(payload) + 1) as u32,
                                        },
                                    ),
                                    None,
                                    ResumePhaseView::Starting { call },
                                )
                            } else {
                                let error = "execution denied by user: "@
                                    + resolution->Deny_reason;
                                takes_up(
                                    result,
                                    thread,
                                    turn_id,
                                    output_of(call, ToolResultView::Error { error }),
                                    Some(TurnStatus::Running),
                                    ResumePhaseView::Settling {
                                        event: Some(
                                            TurnStateEventView::FunctionFailed {
                                                call_id: call.call_id,
                                                name: call.name,
                                                error,
                                            },
                                        ),
                                    },
                                )
                            }
                        },
                    }
                },
                _ => result == Err::<ResumeStepView, AgentErrorView>(
                    AgentErrorView::TurnNotFound(suspension_id),
                ),
            }
        }),
{
    if let Some(pending) = pending_suspension(thread.turns) {
        let payload = pending.suspension.payload;
        let turn_id = pending.turn_id;
        match resolution {
            SuspensionResolutionView::UserInput { text } => {
                lemma_recorded(
                    thread,
                    turn_id,
                    seq![
                        TurnItemView {
                            source: TurnItemSource::User,
                            kind: TurnItemKindView::UserInput {
                                text,
                                response_to: Some(suspension_id),
                            },
                        },
                    ],
                    Some(TurnStatus::Running),
                );
            },
            _ => {
                if named_call(payload) is Some {
                    let call_id = named_call(payload)->Some_0;
                    lemma_suspended_call(thread, turn_id, call_id);
                    match suspended_call(thread, turn_id, call_id) {
                        Some(call) => {
                            lemma_call_is_there(thread, turn_id, call_id, call);
                            lemma_recorded(
                                thread,
                                turn_id,
                                seq![
                                    noted(
                                        TurnItemKindView::FunctionCallStarted {
                                            call_id: call.call_id,
                                            name: call.name,
                                            attempt: (attempt_of(payload) + 1) as u32,
                                        },
                                    ),
                                ],
                                None,
                            );
                            if resolution is Deny {
                                let error = "execution denied by user: "@ + resolution->Deny_reason;
                                lemma_recorded(
                                    thread,
                                    turn_id,
                                    seq![output_of(call, ToolResultView::Error { error })],
                                    Some(TurnStatus::Running),
                                );
                            }
                        },
                        None => {},
                    }
                }
            },
        }
    }
}

proof fn lemma_call_is_there(
    thread: ThreadView,
    turn_id: Seq<char>,
    call_id: Seq<char>,
    call: ModelFunctionCallView,
)
    requires
        is_call_of(thread, turn_id, call_id, call),
    ensures
        !has_no_call(thread, turn_id, call_id),
        call.call_id == call_id,
{
    let t = choose|t: int| #[trigger] is_first(thread.turns, turn_id, t) && is_requested(
        thread.turns[t].items,
        call_id,
        call,
    );
    let items = thread.turns[t].items;
    let (i, k) = choose|i: int, k: int|
        0 <= i < items.len() && #[trigger] is_asked_in(items[i], k, call) && forall|j: int|
            i < j < items.len() ==> !asks_for(#[trigger] items[j], call_id);
    assert(items[i].kind->ModelResponse_function_calls[k].call_id == call_id);
    assert(asks_for(thread.turns[t].items[i], call_id));
}

/// Once what a resolution records is stored, an approved call is made with what the model gave it;
/// otherwise what became of the call is told and the turn goes on, or ends as aborted.
pub proof fn law_stored_resolution_goes_on(run: ResumeRunView, thread: ThreadView)
    ensures
        ({
            let step = after_resume_commit(run, thread);
            match run.phase {
                ResumePhaseView::Starting { call } => step == (ResumeStepView {
                    run: ResumeRunView { thread, phase: ResumePhaseView::Calling { call }, ..run },
                    events: seq![
                        TurnStateEventView::FunctionStarted {
                            call_id: call.call_id,
                            name: call.name,
                        },
                    ],
                    command: ResumeCommandView::CallFunction {
                        call,
                        context: FunctionContextView {
                            thread_id: thread.id,
                            metadata: thread.metadata,
                            turn_id: run.turn_id,
                            call_id: call.call_id,
                            projection: run.projection,
                        },
                    },
                }),
                ResumePhaseView::Settling { event } => step == (ResumeStepView {
                    run: ResumeRunView { thread, phase: ResumePhaseView::Done, ..run },
                    events: if event is Some { seq![event->Some_0] } else { Seq::empty() },
                    command: ResumeCommandView::Continue,
                }),
                ResumePhaseView::Aborting => step == (ResumeStepView {
                    run: ResumeRunView { thread, phase: ResumePhaseView::Done, ..run },
                    events: Seq::empty(),
                    command: ResumeCommandView::Finish {
                        outcome: TurnOutcomeView::Aborted { reason: "turn aborted by caller"@ },
                    },
                }),
                _ => true,
            }
        }),
{
}

/// Records of a resumed call that wait for their commit.
pub open spec fn settles(
    result: ResumeResult,
    run: ResumeRunView,
    items: Seq<TurnItemView>,
    status: TurnStatus,
    phase: ResumePhaseView,
) -> bool {
    match result {
        Ok(step) => {
            &&& has_recorded(run.thread, step.run.thread, run.turn_id, items, Some(status))
            &&& step.run == (ResumeRunView { thread: step.run.thread, phase, ..run })
            &&& step.events.len() == 0
            &&& step.command == ResumeCommandView::Commit
        },
        Err(error) => error == AgentErrorView::TurnNotFound(run.turn_id) && lacks_turn(
            run.thread,
            run.turn_id,
        ),
    }
}

/// What an approved call returns is what is recorded for it: its output, or the text of its error. A
/// call that suspends the turn again changes nothing in the thread, and one that is cut off is
/// recorded as aborted with its turn.
pub proof fn law_what_an_approved_call_returned_is_recorded(
    run: ResumeRunView,
    execution: Option<core::result::Result<FunctionCallExecutionView, AgentErrorView>>,
)
    requires
        run.phase is Calling,
    ensures
        ({
            let call = run.phase->Calling_call;
            let result = after_resumed_call(run, call, execution);
            match execution {
                None => settles(
                    result,
                    run,
                    seq![
                        noted(TurnItemKindView::TurnAborted { reason: "turn aborted by caller"@ }),
                        output_of(
                            call,
                            ToolResultView::Aborted {
                                reason: "function execution aborted before a result was recorded"@,
                            },
                        ),
                    ],
                    TurnStatus::Aborted,
                    ResumePhaseView::Aborting,
                ),
                Some(Ok(FunctionCallExecutionView::Completed { output, effects })) => settles(
                    result,
                    run,
                    goals_set(run.thread, effects).push(
                        output_of(call, ToolResultView::Success { output }),
                    ),
                    TurnStatus::Running,
                    ResumePhaseView::Settling {
                        event: Some(
                            TurnStateEventView::FunctionCompleted {
                                call_id: call.call_id,
                                name: call.name,
                            },
                        ),
                    },
                ),
                Some(Err(error)) => settles(
                    result,
                    run,
                    seq![output_of(call, ToolResultView::Error { error: error_text(error) })],
                    TurnStatus::Running,
                    ResumePhaseView::Settling {
                        event: Some(
                            TurnStateEventView::FunctionFailed {
                                call_id: call.call_id,
                                name: call.name,
                                error: error_text(error),
                            },
                        ),
                    },
                ),
                Some(Ok(ended)) => {
                    let suspension = if ended is SuspendedBeforeExecution {
                        ended->SuspendedBeforeExecution_suspension
                    } else {
                        ended->SuspendedAfterExecution_suspension
                    };
                    result == Ok::<ResumeStepView, AgentErrorView>(
                        ResumeStepView {
                            run: ResumeRunView { phase: ResumePhaseView::Done, ..run },
                            events: Seq::empty(),
                            command: ResumeCommandView::Finish {
                                outcome: TurnOutcomeView::Suspended { suspension },
                            },
                        },
                    )
                },
            }
        }),
{
    let call = run.phase->Calling_call;
    match execution {
        None => {
            lemma_recorded(
                run.thread,
                run.turn_id,
                seq![
                    noted(TurnItemKindView::TurnAborted { reason: "turn aborted by caller"@ }),
                    output_of(
                        call,
                        ToolResultView::Aborted {
                            reason: "function execution aborted before a result was recorded"@,
                        },
                    ),
                ],
                Some(TurnStatus::Aborted),
            );
        },
        Some(Ok(FunctionCallExecutionView::Completed { output, effects })) => {
            let items = goals_set(run.thread, effects).push(
                output_of(call, ToolResultView::Success { output }),
            );
            assert(items =~= crate::runtime::turn_rules::effect_items(run.thread, effects).push(
                output_of(call, ToolResultView::Success { output }),
            ));
            lemma_recorded(run.thread, run.turn_id, items, Some(TurnStatus::Running));
        },
        Some(Err(error)) => {
            lemma_recorded(
                run.thread,
                run.turn_id,
                seq![output_of(call, ToolResultView::Error { error: error_text(error) })],
                Some(TurnStatus::Running),
            );
        },
        _ => {},
    }
}

} // verus!
