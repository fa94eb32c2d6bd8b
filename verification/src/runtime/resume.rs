//! The resumption of a suspended turn.

use crate::json::{member, text_member, unsigned_member, Json, JsonView};
use crate::kernel::events::{
    appended, turn_position, SuspensionView, Thread, ThreadView, ToolResult, ToolResultView, TurnItem,
    TurnItemKind, TurnItemKindView, TurnItemSource, TurnItemView, TurnStatus,
};
use crate::kernel::model::{ModelFunctionCall, ModelFunctionCallView};
use crate::kernel::projection::{
    pending_suspension, projected, PendingSuspensionView, ThreadProjection, ThreadProjectionView,
};
use crate::runtime::agent_loop::{
    make_completed_event, make_effect_items, make_failure_event, make_output_item, make_runtime_item,
    make_started_event, make_started_item, push_item, returned_of, single,
};
use crate::runtime::error::{error_text, AgentError, AgentErrorView, Result};
use crate::runtime::functions::{
    FunctionCallExecution, FunctionCallExecutionView, FunctionContext, FunctionContextView,
    SuspensionResolution, SuspensionResolutionView,
};
use crate::runtime::turn::{TurnOutcome, TurnOutcomeView, TurnStateEvent, TurnStateEventView};
use crate::runtime::turn_rules::{
    abort_reason, completed_event, cut_off_reason, effect_items, failure_event, output_item,
    runtime_item, started_event, started_item, success_item,
};
use crate::same::{outcome_of, Replica};
use crate::text::{glue2, same_text};
use vstd::prelude::*;

verus! {

/// What a resumed turn waits for.
#[derive(Debug, PartialEq, Eq)]
pub enum ResumePhase {
    /// The commit behind which the turn goes on.
    Settling { event: Option<TurnStateEvent> },
    /// The commit of the mark that the call was started.
    Starting { call: ModelFunctionCall },
    /// The return of the function.
    Calling { call: ModelFunctionCall },
    /// The commit of a resumption that was aborted.
    Aborting,
    /// Nothing more.
    Done,
}

/// What a [`ResumePhase`] holds.
#[verifier::ext_equal]
pub enum ResumePhaseView {
    Settling { event: Option<TurnStateEventView> },
    Starting { call: ModelFunctionCallView },
    Calling { call: ModelFunctionCallView },
    Aborting,
    Done,
}

impl DeepView for ResumePhase {
    type V = ResumePhaseView;

    open spec fn deep_view(&self) -> Self::V {
        match self {
            ResumePhase::Settling { event } => ResumePhaseView::Settling {
                event: event.deep_view(),
            },
            ResumePhase::Starting { call } => ResumePhaseView::Starting {
                call: call.deep_view(),
            },
            ResumePhase::Calling { call } => ResumePhaseView::Calling {
                call: call.deep_view(),
            },
            ResumePhase::Aborting => ResumePhaseView::Aborting,
            ResumePhase::Done => ResumePhaseView::Done,
        }
    }
}

/// The resumption of a suspended turn.
#[derive(Debug, PartialEq, Eq)]
pub struct ResumeRun {
    turn_id: String,
    thread: Thread,
    projection: ThreadProjection,
    phase: ResumePhase,
}

/// What a [`ResumeRun`] holds.
#[verifier::ext_equal]
pub struct ResumeRunView {
    pub turn_id: Seq<char>,
    pub thread: ThreadView,
    pub projection: ThreadProjectionView,
    pub phase: ResumePhaseView,
}

impl DeepView for ResumeRun {
    type V = ResumeRunView;

    closed spec fn deep_view(&self) -> Self::V {
        ResumeRunView {
            turn_id: self.turn_id.deep_view(),
            thread: self.thread.deep_view(),
            projection: self.projection.deep_view(),
            phase: self.phase.deep_view(),
        }
    }
}

/// What the resumption of a turn wants done next.
#[derive(Debug, PartialEq, Eq)]
pub enum ResumeCommand {
    /// Commit the thread of the resumption.
    Commit,
    /// Call the function whose call was suspended.
    CallFunction { call: ModelFunctionCall, context: FunctionContext },
    /// Go on with the turn, as after a recovery.
    Continue,
    /// Nothing: the turn has come to a stop.
    Finish { outcome: TurnOutcome },
}

/// What a [`ResumeCommand`] holds.
#[verifier::ext_equal]
pub enum ResumeCommandView {
    Commit,
    CallFunction { call: ModelFunctionCallView, context: FunctionContextView },
    Continue,
    Finish { outcome: TurnOutcomeView },
}

impl DeepView for ResumeCommand {
    type V = ResumeCommandView;

    open spec fn deep_view(&self) -> Self::V {
        match self {
            ResumeCommand::Commit => ResumeCommandView::Commit,
            ResumeCommand::CallFunction { call, context } => ResumeCommandView::CallFunction {
                call: call.deep_view(),
                context: context.deep_view(),
            },
            ResumeCommand::Continue => ResumeCommandView::Continue,
            ResumeCommand::Finish { outcome } => ResumeCommandView::Finish {
                outcome: outcome.deep_view(),
            },
        }
    }
}

/// What a step of a resumption leads to.
#[derive(Debug, PartialEq, Eq)]
pub struct ResumeStep {
    pub run: ResumeRun,
    pub events: Vec<TurnStateEvent>,
    pub command: ResumeCommand,
}

/// What a [`ResumeStep`] holds.
#[verifier::ext_equal]
pub struct ResumeStepView {
    pub run: ResumeRunView,
    pub events: Seq<TurnStateEventView>,
    pub command: ResumeCommandView,
}

impl DeepView for ResumeStep {
    type V = ResumeStepView;

    open spec fn deep_view(&self) -> Self::V {
        ResumeStepView {
            run: self.run.deep_view(),
            events: self.events.deep_view(),
            command: self.command.deep_view(),
        }
    }
}

/// The result of a step of a resumption.
pub type ResumeResult = core::result::Result<ResumeStepView, AgentErrorView>;

/// Whether a suspension was made before the function was executed.
pub open spec fn is_deferred(payload: JsonView) -> bool {
    member(payload, "deferred"@) == Some(JsonView::Bool(true))
}

/// An error of the resumption itself.
pub open spec fn resume_error(message: Seq<char>) -> AgentErrorView {
    AgentErrorView::Function { name: "resume_suspended_turn"@, message }
}

/// The first of some calls with the given id.
pub open spec fn call_with_id(calls: Seq<ModelFunctionCallView>, call_id: Seq<char>) -> Option<
    ModelFunctionCallView,
>
    decreases calls.len(),
{
    if calls.len() == 0 {
        None
    } else if calls[0].call_id == call_id {
        Some(calls[0])
    } else {
        call_with_id(calls.drop_first(), call_id)
    }
}

/// The call with the given id in the last answer that asks for it.
pub open spec fn requested_call(items: Seq<TurnItemView>, call_id: Seq<char>) -> Option<
    ModelFunctionCallView,
>
    decreases items.len(),
{
    if items.len() == 0 {
        None
    } else {
        let earlier = requested_call(items.drop_last(), call_id);
        match items.last().kind {
            TurnItemKindView::ModelResponse { text, function_calls, continuation } =>
                match call_with_id(
                function_calls,
                call_id,
            ) {
                Some(call) => Some(call),
                None => earlier,
            },
            _ => earlier,
        }
    }
}

/// The number of the attempt before the one that an approval starts.
pub open spec fn suspended_attempt(payload: JsonView) -> u32 {
    match unsigned_member(payload, "attempt"@) {
        Some(attempt) => attempt as u32,
        None => 1,
    }
}

/// Whether an approval starts the suspended call again: it is the suspension that the thread waits
/// on, made before the function was executed, and its call is there.
pub open spec fn is_approvable(
    thread: ThreadView,
    pending: PendingSuspensionView,
    suspension_id: Seq<char>,
) -> bool {
    let payload = pending.suspension.payload;
    &&& pending.suspension.id == suspension_id
    &&& is_deferred(payload)
    &&& text_member(payload, "call_id"@) matches Some(call_id)
    &&& suspended_call(thread, pending.turn_id, call_id) is Some
}

/// Whether the attempt that an approval starts, if it starts one, has a number.
pub open spec fn approval_fits(thread: ThreadView, suspension_id: Seq<char>) -> bool {
    match pending_suspension(thread.turns) {
        Some(pending) => is_approvable(thread, pending, suspension_id) ==> suspended_attempt(
            pending.suspension.payload,
        ) < u32::MAX,
        None => true,
    }
}

/// A step of a resumption that waits for a commit.
pub open spec fn resume_commit(
    turn_id: Seq<char>,
    thread: Option<ThreadView>,
    projection: ThreadProjectionView,
    phase: ResumePhaseView,
) -> ResumeResult {
    match thread {
        Some(thread) => Ok(
            ResumeStepView {
                run: ResumeRunView { turn_id, thread, projection, phase },
                events: Seq::empty(),
                command: ResumeCommandView::Commit,
            },
        ),
        None => Err(AgentErrorView::TurnNotFound(turn_id)),
    }
}

/// A suspension is resolved.
pub open spec fn begin_resume(
    thread: ThreadView,
    suspension_id: Seq<char>,
    resolution: SuspensionResolutionView,
) -> ResumeResult {
    let projection = projected(thread);
    match projection.pending_suspension {
        None => Err(AgentErrorView::TurnNotFound(suspension_id)),
        Some(pending) => if pending.suspension.id != suspension_id {
            Err(AgentErrorView::TurnNotFound(suspension_id))
        } else {
            resolve_pending(thread, projection, pending, suspension_id, resolution)
        },
    }
}

/// The pending suspension is resolved.
pub open spec fn resolve_pending(
    thread: ThreadView,
    projection: ThreadProjectionView,
    pending: PendingSuspensionView,
    suspension_id: Seq<char>,
    resolution: SuspensionResolutionView,
) -> ResumeResult {
    let payload = pending.suspension.payload;
    let turn_id = pending.turn_id;
    match resolution {
        SuspensionResolutionView::UserInput { text } => if is_deferred(payload) {
            Err(resume_error("a pre-execution suspension requires approval or denial"@))
        } else {
            resume_commit(
                turn_id,
                appended(
                    thread,
                    turn_id,
                    seq![
                        TurnItemView {
                            source: TurnItemSource::User,
                            kind: TurnItemKindView::UserInput {
                                text,
                                response_to: Some(suspension_id),
                            },
                        },
                    ],
                    Some(TurnStatus::Running),
                ),
                projection,
                ResumePhaseView::Settling { event: None },
            )
        },
        _ => match text_member(payload, "call_id"@) {
            None => Err(resume_error("suspension does not identify a resumable call"@)),
            Some(call_id) => match suspended_call(thread, turn_id, call_id) {
                None => Err(resume_error("suspended function call was not found"@)),
                Some(call) => if !is_deferred(payload) {
                    Err(
                        resume_error(
                            "approval or denial can only resume a pre-execution suspension"@,
                        ),
                    )
                } else {
                    match resolution {
                        SuspensionResolutionView::Deny { reason } => {
                            let error = "execution denied by user: "@ + reason;
                            resume_commit(
                                turn_id,
                                appended(
                                    thread,
                                    turn_id,
                                    seq![output_item(call, ToolResultView::Error { error })],
                                    Some(TurnStatus::Running),
                                ),
                                projection,
                                ResumePhaseView::Settling {
                                    event: Some(failure_event(call, error)),
                                },
                            )
                        },
                        SuspensionResolutionView::Approve => resume_commit(
                            turn_id,
                            appended(
                                thread,
                                turn_id,
                                seq![
                                    started_item(
                                        call,
                                        (suspended_attempt(payload) + 1) as u32,
                                    ),
                                ],
                                None,
                            ),
                            projection,
                            ResumePhaseView::Starting { call },
                        ),
                        _ => Err(resume_error("unsupported suspension resolution"@)),
                    }
                },
            },
        },
    }
}

/// The call of a turn that a suspension names.
pub open spec fn suspended_call(thread: ThreadView, turn_id: Seq<char>, call_id: Seq<char>) -> Option<
    ModelFunctionCallView,
> {
    let i = turn_position(thread.turns, turn_id);
    if i < thread.turns.len() {
        requested_call(thread.turns[i as int].items, call_id)
    } else {
        None
    }
}

/// The thread of a resumption is committed as `thread`.
pub open spec fn after_resume_commit(run: ResumeRunView, thread: ThreadView) -> ResumeStepView {
    match run.phase {
        ResumePhaseView::Starting { call } => ResumeStepView {
            run: ResumeRunView { thread, phase: ResumePhaseView::Calling { call }, ..run },
            events: seq![started_event(call)],
            command: ResumeCommandView::CallFunction {
                call,
                context: FunctionContextView {
                    thread_id: thread.id,
                    metadata: thread.metadata,
                    turn_id: run.turn_id,
                    call_id: call.call_id,
                    projection: run.projection,
                },
            },
        },
        ResumePhaseView::Aborting => ResumeStepView {
            run: ResumeRunView { thread, phase: ResumePhaseView::Done, ..run },
            events: Seq::empty(),
            command: ResumeCommandView::Finish {
                outcome: TurnOutcomeView::Aborted { reason: abort_reason() },
            },
        },
        ResumePhaseView::Settling { event } => ResumeStepView {
            run: ResumeRunView { thread, phase: ResumePhaseView::Done, ..run },
            events: match event {
                Some(event) => seq![event],
                None => Seq::empty(),
            },
            command: ResumeCommandView::Continue,
        },
        _ => ResumeStepView {
            run: ResumeRunView { thread, phase: ResumePhaseView::Done, ..run },
            events: Seq::empty(),
            command: ResumeCommandView::Continue,
        },
    }
}

/// The approved function has returned, or an abort has cut it off.
pub open spec fn after_resumed_call(
    run: ResumeRunView,
    call: ModelFunctionCallView,
    execution: Option<core::result::Result<FunctionCallExecutionView, AgentErrorView>>,
) -> ResumeResult {
    match execution {
        None => resume_commit(
            run.turn_id,
            appended(
                run.thread,
                run.turn_id,
                seq![
                    runtime_item(TurnItemKindView::TurnAborted { reason: abort_reason() }),
                    output_item(call, ToolResultView::Aborted { reason: cut_off_reason() }),
                ],
                Some(TurnStatus::Aborted),
            ),
            run.projection,
            ResumePhaseView::Aborting,
        ),
        Some(Ok(FunctionCallExecutionView::Completed { output, effects })) => resume_commit(
            run.turn_id,
            appended(
                run.thread,
                run.turn_id,
                effect_items(run.thread, effects).push(success_item(call, output)),
                Some(TurnStatus::Running),
            ),
            run.projection,
            ResumePhaseView::Settling { event: Some(completed_event(call)) },
        ),
        Some(Ok(FunctionCallExecutionView::SuspendedBeforeExecution { suspension, effects })) => Ok(
            resume_suspended(run, suspension),
        ),
        Some(
            Ok(FunctionCallExecutionView::SuspendedAfterExecution { suspension, output, effects }),
        ) =>
            Ok(
            resume_suspended(run, suspension),
        ),
        Some(Err(error)) => resume_commit(
            run.turn_id,
            appended(
                run.thread,
                run.turn_id,
                seq![output_item(call, ToolResultView::Error { error: error_text(error) })],
                Some(TurnStatus::Running),
            ),
            run.projection,
            ResumePhaseView::Settling { event: Some(failure_event(call, error_text(error))) },
        ),
    }
}

/// The approved function has suspended the turn again.
pub open spec fn resume_suspended(
    run: ResumeRunView,
    suspension: SuspensionView,
) -> ResumeStepView {
    ResumeStepView {
        run: ResumeRunView { phase: ResumePhaseView::Done, ..run },
        events: Seq::empty(),
        command: ResumeCommandView::Finish { outcome: TurnOutcomeView::Suspended { suspension } },
    }
}

/// Whether a resumption waits for a commit.
pub open spec fn resume_awaits_commit(phase: ResumePhaseView) -> bool {
    phase is Settling || phase is Starting || phase is Aborting
}

fn find_call_with_id(
    calls: &Vec<ModelFunctionCall>,
    call_id: &str,
) -> (r: Option<ModelFunctionCall>)
    ensures
        r.deep_view() == call_with_id(calls.deep_view(), call_id@),
{
    let ghost views = calls.deep_view();
    assert(views.skip(0) =~= views);
    for i in 0..calls.len()
        invariant
            views == calls.deep_view(),
            call_with_id(views, call_id@) == call_with_id(views.skip(i as int), call_id@),
    {
        assert(views.skip(i as int).drop_first() =~= views.skip(i + 1));
        assert(views.skip(i as int)[0] == calls@[i as int].deep_view());
        if same_text(calls[i].call_id.as_str(), call_id) {
            return Some(calls[i].replica());
        }
    }
    None
}

fn find_requested_call(items: &Vec<TurnItem>, call_id: &str) -> (r: Option<ModelFunctionCall>)
    ensures
        r.deep_view() == requested_call(items.deep_view(), call_id@),
{
    let ghost views = items.deep_view();
    let mut i: usize = items.len();
    assert(views.take(i as int) =~= views);
    while i > 0
        invariant
            i <= items@.len(),
            views == items.deep_view(),
            requested_call(views, call_id@) == requested_call(views.take(i as int), call_id@),
        decreases i,
    {
        i = i - 1;
        assert(views.take(i + 1).drop_last() =~= views.take(i as int));
        assert(views.take(i + 1).last() == items@[i as int].deep_view());
        if let TurnItemKind::ModelResponse { function_calls, .. } = &items[i].kind {
            if let Some(call) = find_call_with_id(function_calls, call_id) {
                return Some(call);
            }
        }
    }
    None
}

fn find_suspended_call(
    thread: &Thread,
    turn_id: &str,
    call_id: &str,
) -> (r: Option<ModelFunctionCall>)
    ensures
        r.deep_view() == suspended_call(thread.deep_view(), turn_id@, call_id@),
{
    match thread.find_turn(turn_id) {
        Some(i) => find_requested_call(&thread.turns[i].items, call_id),
        None => None,
    }
}

fn read_suspended_attempt(payload: &Json) -> (r: u32)
    ensures
        r == suspended_attempt(payload.deep_view()),
{
    match payload.get_unsigned("attempt") {
        Some(attempt) => #[verifier::truncate] (attempt as u32),
        None => 1,
    }
}

fn make_resume_error(message: &str) -> (r: AgentError)
    ensures
        r.deep_view() == resume_error(message@),
{
    AgentError::Function { name: "resume_suspended_turn".to_owned(), message: message.to_owned() }
}

impl ResumeRun {
    /// Records items of the turn and waits for a commit.
    fn record(self, items: Vec<TurnItem>, status: Option<TurnStatus>, phase: ResumePhase) -> (r: Result<
        ResumeStep,
    >)
        ensures
            outcome_of(r) == resume_commit(
                self.deep_view().turn_id,
                appended(
                    self.deep_view().thread,
                    self.deep_view().turn_id,
                    items.deep_view(),
                    status,
                ),
                self.deep_view().projection,
                phase.deep_view(),
            ),
    {
        let mut run = self;
        if run.thread.append(run.turn_id.as_str(), items, status) {
            run.phase = phase;
            let events: Vec<TurnStateEvent> = Vec::new();
            assert(events.deep_view() =~= Seq::empty());
            Ok(ResumeStep { run, events, command: ResumeCommand::Commit })
        } else {
            Err(AgentError::TurnNotFound(run.turn_id))
        }
    }

    /// Whether the attempt that an approval of a suspension starts, if it starts one, has a number.
    pub fn approval_fits(thread: &Thread, suspension_id: &str) -> (r: bool)
        ensures
            r == approval_fits(thread.deep_view(), suspension_id@),
    {
        let pending = match ThreadProjection::from_thread(thread).pending_suspension {
            Some(pending) => pending,
            None => return true,
        };
        let payload = &pending.suspension.payload;
        if !same_text(pending.suspension.id.as_str(), suspension_id) {
            return true;
        }
        let deferred = match payload.get("deferred") {
            Some(Json::Bool(deferred)) => *deferred,
            _ => false,
        };
        if !deferred {
            return true;
        }
        match payload.get_text("call_id") {
            None => true,
            Some(call_id) => match find_suspended_call(
                thread,
                pending.turn_id.as_str(),
                call_id.as_str(),
            ) {
                None => true,
                Some(_) => read_suspended_attempt(payload) < u32::MAX,
            },
        }
    }

    /// Resolves the suspension that `thread` waits on, in the suspended turn; no new turn is made.
    /// An approval starts the suspended call again, a denial answers it with an error, and a text
    /// of the user is recorded as the answer to the suspension: it executes no call.
    pub fn resume_suspended_turn(
        thread: Thread,
        suspension_id: &str,
        resolution: SuspensionResolution,
    ) -> (r: Result<ResumeStep>)
        requires
            resolution is Approve ==> approval_fits(thread.deep_view(), suspension_id@),
        ensures
            outcome_of(r) == begin_resume(
                thread.deep_view(),
                suspension_id@,
                resolution.deep_view(),
            ),
    {
        let projection = ThreadProjection::from_thread(&thread);
        let pending = match projection.pending_suspension.replica() {
            Some(pending) => pending,
            None => return Err(AgentError::TurnNotFound(suspension_id.to_owned())),
        };
        if !same_text(pending.suspension.id.as_str(), suspension_id) {
            return Err(AgentError::TurnNotFound(suspension_id.to_owned()));
        }
        let payload = &pending.suspension.payload;
        let deferred = match payload.get("deferred") {
            Some(Json::Bool(deferred)) => *deferred,
            _ => false,
        };
        let turn_id = pending.turn_id.clone();
        if let SuspensionResolution::UserInput { text } = resolution {
            if deferred {
                return Err(
                    make_resume_error("a pre-execution suspension requires approval or denial"),
                );
            }
            let items = single(
                TurnItem {
                    source: TurnItemSource::User,
                    kind: TurnItemKind::UserInput {
                        text,
                        response_to: Some(suspension_id.to_owned()),
                    },
                },
            );
            let run = ResumeRun { turn_id, thread, projection, phase: ResumePhase::Done };
            return run.record(
                items,
                Some(TurnStatus::Running),
                ResumePhase::Settling { event: None },
            );
        }
        let call_id = match payload.get_text("call_id") {
            Some(call_id) => call_id,
            None => return Err(make_resume_error("suspension does not identify a resumable call")),
        };
        let call = match find_suspended_call(&thread, turn_id.as_str(), call_id.as_str()) {
            Some(call) => call,
            None => return Err(make_resume_error("suspended function call was not found")),
        };
        if !deferred {
            return Err(
                make_resume_error("approval or denial can only resume a pre-execution suspension"),
            );
        }
        match resolution {
            SuspensionResolution::Deny { reason } => {
                let error = glue2("execution denied by user: ", reason.as_str());
                let event = make_failure_event(&call, error.as_str());
                let items = single(make_output_item(&call, ToolResult::Error { error }));
                let run = ResumeRun { turn_id, thread, projection, phase: ResumePhase::Done };
                run.record(
                    items,
                    Some(TurnStatus::Running),
                    ResumePhase::Settling { event: Some(event) },
                )
            },
            SuspensionResolution::Approve => {
                let attempt: u32 = read_suspended_attempt(payload);
                let items = single(make_started_item(&call, attempt + 1));
                let run = ResumeRun { turn_id, thread, projection, phase: ResumePhase::Done };
                run.record(items, None, ResumePhase::Starting { call })
            },
            _ => Err(make_resume_error("unsupported suspension resolution")),
        }
    }

    /// The thread as the resumption holds it: what a commit is to store.
    pub fn thread(&self) -> (r: &Thread)
        ensures
            r.deep_view() == self.deep_view().thread,
    {
        &self.thread
    }

    /// Whether the resumption waits for a commit.
    pub fn awaits_commit(&self) -> (r: bool)
        ensures
            r == resume_awaits_commit(self.deep_view().phase),
    {
        match &self.phase {
            ResumePhase::Settling { .. } => true,
            ResumePhase::Starting { .. } => true,
            ResumePhase::Aborting => true,
            _ => false,
        }
    }

    /// Whether the resumption waits for a function to return.
    pub fn awaits_return(&self) -> (r: bool)
        ensures
            r == (self.deep_view().phase is Calling),
    {
        match &self.phase {
            ResumePhase::Calling { .. } => true,
            _ => false,
        }
    }

    /// The thread was committed, and is now `thread`.
    pub fn committed(self, thread: Thread) -> (r: ResumeStep)
        requires
            resume_awaits_commit(self.deep_view().phase),
        ensures
            r.deep_view() == after_resume_commit(self.deep_view(), thread.deep_view()),
    {
        let ResumeRun { turn_id, thread: _, projection, phase } = self;
        let mut events: Vec<TurnStateEvent> = Vec::new();
        assert(events.deep_view() =~= Seq::empty());
        match phase {
            ResumePhase::Starting { call } => {
                events.push(make_started_event(&call));
                assert(events.deep_view() =~= seq![started_event(call.deep_view())]);
                let context = FunctionContext {
                    thread_id: thread.id.clone(),
                    metadata: thread.metadata.replica(),
                    turn_id: turn_id.clone(),
                    call_id: call.call_id.clone(),
                    projection: projection.replica(),
                };
                let called = call.replica();
                ResumeStep {
                    run: ResumeRun {
                        turn_id,
                        thread,
                        projection,
                        phase: ResumePhase::Calling { call },
                    },
                    events,
                    command: ResumeCommand::CallFunction { call: called, context },
                }
            },
            ResumePhase::Aborting => ResumeStep {
                run: ResumeRun { turn_id, thread, projection, phase: ResumePhase::Done },
                events,
                command: ResumeCommand::Finish {
                    outcome: TurnOutcome::Aborted { reason: "turn aborted by caller".to_owned() },
                },
            },
            ResumePhase::Settling { event } => {
                if let Some(event) = event {
                    events.push(event);
                    assert(events.deep_view() =~= seq![event.deep_view()]);
                }
                ResumeStep {
                    run: ResumeRun { turn_id, thread, projection, phase: ResumePhase::Done },
                    events,
                    command: ResumeCommand::Continue,
                }
            },
            _ => ResumeStep {
                run: ResumeRun { turn_id, thread, projection, phase: ResumePhase::Done },
                events,
                command: ResumeCommand::Continue,
            },
        }
    }

    /// The approved function has returned, or an abort has cut it off, when there is no
    /// `execution`.
    pub fn function_finished(self, execution: Option<Result<FunctionCallExecution>>) -> (r: Result<
        ResumeStep,
    >)
        requires
            self.deep_view().phase is Calling,
        ensures
            outcome_of(r) == after_resumed_call(
                self.deep_view(),
                self.deep_view().phase->Calling_call,
                returned_of(execution),
            ),
    {
        let call = match &self.phase {
            ResumePhase::Calling { call } => call.replica(),
            _ => return Err(AgentError::TurnNotFound(self.turn_id)),
        };
        match execution {
            None => {
                let mut items = single(
                    make_runtime_item(
                        TurnItemKind::TurnAborted { reason: "turn aborted by caller".to_owned() },
                    ),
                );
                push_item(
                    &mut items,
                    make_output_item(
                        &call,
                        ToolResult::Aborted {
                            reason: "function execution aborted before a result was recorded".to_owned(),
                        },
                    ),
                );
                assert(items.deep_view() =~= seq![
                    runtime_item(TurnItemKindView::TurnAborted { reason: abort_reason() }),
                    output_item(
                        call.deep_view(),
                        ToolResultView::Aborted { reason: cut_off_reason() },
                    ),
                ]);
                self.record(items, Some(TurnStatus::Aborted), ResumePhase::Aborting)
            },
            Some(Ok(FunctionCallExecution::Completed { output, effects })) => {
                let mut items = make_effect_items(&self.thread, effects);
                push_item(&mut items, make_output_item(&call, ToolResult::Success { output }));
                self.record(
                    items,
                    Some(TurnStatus::Running),
                    ResumePhase::Settling { event: Some(make_completed_event(&call)) },
                )
            },
            Some(Ok(FunctionCallExecution::SuspendedBeforeExecution { suspension, .. })) => Ok(
                self.stop(TurnOutcome::Suspended { suspension }),
            ),
            Some(Ok(FunctionCallExecution::SuspendedAfterExecution { suspension, .. })) => Ok(
                self.stop(TurnOutcome::Suspended { suspension }),
            ),
            Some(Err(error)) => {
                let text = error.text();
                let event = make_failure_event(&call, text.as_str());
                let items = single(make_output_item(&call, ToolResult::Error { error: text }));
                self.record(
                    items,
                    Some(TurnStatus::Running),
                    ResumePhase::Settling { event: Some(event) },
                )
            },
        }
    }

    fn stop(self, outcome: TurnOutcome) -> (r: ResumeStep)
        ensures
            r.deep_view() == (ResumeStepView {
                run: ResumeRunView { phase: ResumePhaseView::Done, ..self.deep_view() },
                events: Seq::empty(),
                command: ResumeCommandView::Finish { outcome: outcome.deep_view() },
            }),
    {
        let mut run = self;
        run.phase = ResumePhase::Done;
        let events: Vec<TurnStateEvent> = Vec::new();
        assert(events.deep_view() =~= Seq::empty());
        ResumeStep { run, events, command: ResumeCommand::Finish { outcome } }
    }
}

} // verus!
