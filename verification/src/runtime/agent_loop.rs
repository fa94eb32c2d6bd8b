//! A running turn: it is told what came back from outside, and says what to do next.

use crate::json::{no_members, Json, JsonView};
use crate::kernel::events::{
    Suspension, SuspensionKind, SuspensionView, Thread, ThreadView, TokenUsage, ToolResult,
    ToolResultView, Turn, TurnItem, TurnItemKind, TurnItemKindView, TurnItemSource, TurnStatus,
};
use crate::kernel::model::{
    ModelFunctionCall, ModelFunctionCallView, ModelResponse, ModelStreamEvent,
};
use crate::kernel::projection::{ThreadProjection, ThreadProjectionView};
use crate::runtime::error::{AgentError, AgentErrorView, Result};
use crate::runtime::functions::{
    FunctionCallExecution, FunctionContext, FunctionContextView, FunctionRecoveryPolicy,
    FunctionRegistry, RuntimeEffect,
};
use crate::runtime::metrics::{
    FunctionCallOutcome, FunctionCallSkipReason, MetricStatus, RuntimeMetric,
};
use crate::runtime::turn::{
    EffectLog, FunctionCallHookContext, FunctionCallHookContextView, FunctionCallHookResult,
    FunctionCallHookResultView, TraceEventKind, TraceTurnStatus, TurnEffect, TurnEffectView,
    TurnExecutionLimits, TurnModelEvent, TurnOutcome, TurnOutcomeView, TurnStateEvent,
    TurnStreamEvent,
};
use crate::runtime::turn_rules::{
    abort_metrics, abort_records, after_call, after_commit, after_entering, after_leaving,
    after_model, after_model_event, after_recording, after_recovery, aborting, answer_parts,
    answered, asking, begin_recovery, begin_turn, call_cut_off, call_outcome, call_records,
    call_returned, call_trace, closing, completed_event, effect_items, expected_by, failing,
    failure_event, failure_trace, finished, function_context, hook_context, has_output,
    initial_core, initial_thread, is_output_of, last_attempt, last_request, last_requested,
    leaving, limit_reports, next_call, not_admitted, output_item, output_items, output_trace,
    pending_calls, pending_marks, phase_ok, recover_next, recovery_records, recovery_returned,
    recovery_suspension, request_built, runtime_item, skip_events, skip_metrics, skip_traces,
    started_event, started_item, step_to, suspended_error, suspending, turn_items, unanswered,
};
use crate::same::{outcome_of, Replica};
use crate::text::{glue2, same_text};
use crate::time_span::TimeSpan;
use vstd::prelude::*;

verus! {

/// How a function call of a running turn ended.
#[derive(Debug, PartialEq, Eq)]
pub enum CallEnd {
    Completed { output: Json },
    SuspendedBefore { suspension: Suspension },
    SuspendedAfter { suspension: Suspension, output: Json },
    Failed { error: String },
}

/// What a [`CallEnd`] holds.
#[verifier::ext_equal]
pub enum CallEndView {
    Completed { output: JsonView },
    SuspendedBefore { suspension: SuspensionView },
    SuspendedAfter { suspension: SuspensionView, output: JsonView },
    Failed { error: Seq<char> },
}

impl DeepView for CallEnd {
    type V = CallEndView;

    open spec fn deep_view(&self) -> Self::V {
        match self {
            CallEnd::Completed { output } => CallEndView::Completed {
                output: output.deep_view(),
            },
            CallEnd::SuspendedBefore { suspension } => CallEndView::SuspendedBefore {
                suspension: suspension.deep_view(),
            },
            CallEnd::SuspendedAfter { suspension, output } => CallEndView::SuspendedAfter {
                suspension: suspension.deep_view(),
                output: output.deep_view(),
            },
            CallEnd::Failed { error } => CallEndView::Failed {
                error: error.deep_view(),
            },
        }
    }
}

/// What is known of a call that has no output: the attempt that was started last, and the policy of its function where it is registered.
#[derive(Clone, Copy, Debug, PartialEq, Eq)]
pub struct RecoveryMark {
    pub started: Option<u32>,
    pub policy: Option<FunctionRecoveryPolicy>,
}

impl DeepView for RecoveryMark {
    type V = RecoveryMark;

    open spec fn deep_view(&self) -> Self::V {
        *self
    }
}

impl Replica for RecoveryMark {
    fn replica(&self) -> (r: Self) {
        *self
    }
}

/// What a running turn is to be told next.
#[derive(Clone, Copy, Debug, PartialEq, Eq, Structural)]
pub enum Expected {
    /// The thread as it was committed.
    Commit,
    /// That the request is built.
    Request,
    /// What the model answered.
    Answer,
    /// How the hooks before a call went.
    EnteredHooks,
    /// What a function returned.
    Return,
    /// That the hooks after a call are through.
    LeftHooks,
    /// Nothing more.
    Nothing,
}

/// What a running turn carries from step to step.
#[derive(Debug, PartialEq, Eq)]
pub struct TurnCore {
    thread_id: String,
    turn_id: String,
    thread: Thread,
    limits: TurnExecutionLimits,
    usage: TokenUsage,
    function_call_count: usize,
    first_token_recorded: bool,
    iteration: usize,
    sequence: u64,
    suspension_id: String,
}

/// What a [`TurnCore`] holds.
#[verifier::ext_equal]
pub struct TurnCoreView {
    pub thread_id: Seq<char>,
    pub turn_id: Seq<char>,
    pub thread: ThreadView,
    pub limits: TurnExecutionLimits,
    pub usage: TokenUsage,
    pub function_call_count: usize,
    pub first_token_recorded: bool,
    pub iteration: usize,
    pub sequence: u64,
    pub suspension_id: Seq<char>,
}

impl DeepView for TurnCore {
    type V = TurnCoreView;

    closed spec fn deep_view(&self) -> Self::V {
        TurnCoreView {
            thread_id: self.thread_id.deep_view(),
            turn_id: self.turn_id.deep_view(),
            thread: self.thread.deep_view(),
            limits: self.limits.deep_view(),
            usage: self.usage.deep_view(),
            function_call_count: self.function_call_count.deep_view(),
            first_token_recorded: self.first_token_recorded.deep_view(),
            iteration: self.iteration.deep_view(),
            sequence: self.sequence.deep_view(),
            suspension_id: self.suspension_id.deep_view(),
        }
    }
}

/// What a running turn waits for.
#[derive(Debug, PartialEq, Eq)]
pub enum TurnPhase {
    /// The commit of the user's input.
    Opening { text: String },
    /// The context of a model request.
    Asking,
    /// The answer of the model.
    Streaming,
    /// The commit of the answer that ends the turn.
    Answering { text: String },
    /// The commit of an answer with function calls.
    Requested { text: Option<String>, calls: Vec<ModelFunctionCall> },
    /// The hooks before a call.
    Entering { calls: Vec<ModelFunctionCall>, admitted: usize, index: usize },
    /// The commit of the mark that a call was started.
    Starting { calls: Vec<ModelFunctionCall>, admitted: usize, index: usize, entered: usize },
    /// The return of a function.
    Calling { calls: Vec<ModelFunctionCall>, admitted: usize, index: usize, entered: usize },
    /// The commit of what a function returned.
    Recording {
        calls: Vec<ModelFunctionCall>,
        admitted: usize,
        index: usize,
        entered: usize,
        end: CallEnd,
    },
    /// The hooks after a call.
    Leaving {
        calls: Vec<ModelFunctionCall>,
        admitted: usize,
        index: usize,
        result: FunctionCallHookResult,
    },
    /// The commit of a turn that asked for too many calls.
    Limiting { calls: Vec<ModelFunctionCall>, admitted: usize, error: String },
    /// The commit of a turn whose recovery needs somebody else.
    RecoverySuspending { suspension: Suspension },
    /// The commit of the mark that a recovered call was started.
    RecoveryStarting { calls: Vec<ModelFunctionCall>, marks: Vec<RecoveryMark>, index: usize },
    /// The return of a recovered function.
    RecoveryCalling { calls: Vec<ModelFunctionCall>, marks: Vec<RecoveryMark>, index: usize },
    /// The commit of what a recovered function returned.
    RecoveryRecording {
        calls: Vec<ModelFunctionCall>,
        marks: Vec<RecoveryMark>,
        index: usize,
        end: CallEnd,
    },
    /// The commit of a recovery that was aborted.
    RecoveryAborting,
    /// The last commit.
    Closing { outcome: TurnOutcome },
    /// Nothing more.
    Finished,
}

/// What a [`TurnPhase`] holds.
#[verifier::ext_equal]
pub enum TurnPhaseView {
    Opening { text: Seq<char> },
    Asking,
    Streaming,
    Answering { text: Seq<char> },
    Requested { text: Option<Seq<char>>, calls: Seq<ModelFunctionCallView> },
    Entering { calls: Seq<ModelFunctionCallView>, admitted: usize, index: usize },
    Starting { calls: Seq<ModelFunctionCallView>, admitted: usize, index: usize, entered: usize },
    Calling { calls: Seq<ModelFunctionCallView>, admitted: usize, index: usize, entered: usize },
    Recording {
        calls: Seq<ModelFunctionCallView>,
        admitted: usize,
        index: usize,
        entered: usize,
        end: CallEndView,
    },
    Leaving {
        calls: Seq<ModelFunctionCallView>,
        admitted: usize,
        index: usize,
        result: FunctionCallHookResultView,
    },
    Limiting { calls: Seq<ModelFunctionCallView>, admitted: usize, error: Seq<char> },
    RecoverySuspending { suspension: SuspensionView },
    RecoveryStarting { calls: Seq<ModelFunctionCallView>, marks: Seq<RecoveryMark>, index: usize },
    RecoveryCalling { calls: Seq<ModelFunctionCallView>, marks: Seq<RecoveryMark>, index: usize },
    RecoveryRecording {
        calls: Seq<ModelFunctionCallView>,
        marks: Seq<RecoveryMark>,
        index: usize,
        end: CallEndView,
    },
    RecoveryAborting,
    Closing { outcome: TurnOutcomeView },
    Finished,
}

impl DeepView for TurnPhase {
    type V = TurnPhaseView;

    open spec fn deep_view(&self) -> Self::V {
        match self {
            TurnPhase::Opening { text } => TurnPhaseView::Opening {
                text: text.deep_view(),
            },
            TurnPhase::Asking => TurnPhaseView::Asking,
            TurnPhase::Streaming => TurnPhaseView::Streaming,
            TurnPhase::Answering { text } => TurnPhaseView::Answering {
                text: text.deep_view(),
            },
            TurnPhase::Requested { text, calls } => TurnPhaseView::Requested {
                text: text.deep_view(),
                calls: calls.deep_view(),
            },
            TurnPhase::Entering { calls, admitted, index } => TurnPhaseView::Entering {
                calls: calls.deep_view(),
                admitted: admitted.deep_view(),
                index: index.deep_view(),
            },
            TurnPhase::Starting { calls, admitted, index, entered } => TurnPhaseView::Starting {
                calls: calls.deep_view(),
                admitted: admitted.deep_view(),
                index: index.deep_view(),
                entered: entered.deep_view(),
            },
            TurnPhase::Calling { calls, admitted, index, entered } => TurnPhaseView::Calling {
                calls: calls.deep_view(),
                admitted: admitted.deep_view(),
                index: index.deep_view(),
                entered: entered.deep_view(),
            },
            TurnPhase::Recording { calls, admitted, index, entered, end } =>
                TurnPhaseView::Recording {
                calls: calls.deep_view(),
                admitted: admitted.deep_view(),
                index: index.deep_view(),
                entered: entered.deep_view(),
                end: end.deep_view(),
            },
            TurnPhase::Leaving { calls, admitted, index, result } => TurnPhaseView::Leaving {
                calls: calls.deep_view(),
                admitted: admitted.deep_view(),
                index: index.deep_view(),
                result: result.deep_view(),
            },
            TurnPhase::Limiting { calls, admitted, error } => TurnPhaseView::Limiting {
                calls: calls.deep_view(),
                admitted: admitted.deep_view(),
                error: error.deep_view(),
            },
            TurnPhase::RecoverySuspending { suspension } => TurnPhaseView::RecoverySuspending {
                suspension: suspension.deep_view(),
            },
            TurnPhase::RecoveryStarting { calls, marks, index } => TurnPhaseView::RecoveryStarting {
                calls: calls.deep_view(),
                marks: marks.deep_view(),
                index: index.deep_view(),
            },
            TurnPhase::RecoveryCalling { calls, marks, index } => TurnPhaseView::RecoveryCalling {
                calls: calls.deep_view(),
                marks: marks.deep_view(),
                index: index.deep_view(),
            },
            TurnPhase::RecoveryRecording { calls, marks, index, end } =>
                TurnPhaseView::RecoveryRecording {
                calls: calls.deep_view(),
                marks: marks.deep_view(),
                index: index.deep_view(),
                end: end.deep_view(),
            },
            TurnPhase::RecoveryAborting => TurnPhaseView::RecoveryAborting,
            TurnPhase::Closing { outcome } => TurnPhaseView::Closing {
                outcome: outcome.deep_view(),
            },
            TurnPhase::Finished => TurnPhaseView::Finished,
        }
    }
}

/// A running turn.
#[derive(Debug, PartialEq, Eq)]
pub struct TurnRun {
    core: TurnCore,
    phase: TurnPhase,
}

/// What a [`TurnRun`] holds.
#[verifier::ext_equal]
pub struct TurnRunView {
    pub core: TurnCoreView,
    pub phase: TurnPhaseView,
}

impl DeepView for TurnRun {
    type V = TurnRunView;

    closed spec fn deep_view(&self) -> Self::V {
        TurnRunView {
            core: self.core.deep_view(),
            phase: self.phase.deep_view(),
        }
    }
}

/// What a running turn wants done next.
#[derive(Debug, PartialEq, Eq)]
pub enum TurnCommand {
    /// Commit the thread of the run.
    Commit,
    /// Build the context of a model request.
    BuildRequest { projection: ThreadProjection },
    /// Send the request and wait for the answer.
    AwaitModel,
    /// Run the hooks before a call, in order.
    EnterHooks { context: FunctionCallHookContext },
    /// Call a function.
    CallFunction { call: ModelFunctionCall, context: FunctionContext },
    /// Run the hooks after a call, those that were entered, in reverse order.
    LeaveHooks { context: FunctionCallHookContext, result: FunctionCallHookResult, entered: usize },
    /// Nothing: the turn has ended.
    Finish { outcome: TurnOutcome },
    /// Nothing: the turn cannot go on, and stays as it is.
    Fail { error: AgentError },
}

/// What a [`TurnCommand`] holds.
#[verifier::ext_equal]
pub enum TurnCommandView {
    Commit,
    BuildRequest { projection: ThreadProjectionView },
    AwaitModel,
    EnterHooks { context: FunctionCallHookContextView },
    CallFunction { call: ModelFunctionCallView, context: FunctionContextView },
    LeaveHooks {
        context: FunctionCallHookContextView,
        result: FunctionCallHookResultView,
        entered: usize,
    },
    Finish { outcome: TurnOutcomeView },
    Fail { error: AgentErrorView },
}

impl DeepView for TurnCommand {
    type V = TurnCommandView;

    open spec fn deep_view(&self) -> Self::V {
        match self {
            TurnCommand::Commit => TurnCommandView::Commit,
            TurnCommand::BuildRequest { projection } => TurnCommandView::BuildRequest {
                projection: projection.deep_view(),
            },
            TurnCommand::AwaitModel => TurnCommandView::AwaitModel,
            TurnCommand::EnterHooks { context } => TurnCommandView::EnterHooks {
                context: context.deep_view(),
            },
            TurnCommand::CallFunction { call, context } => TurnCommandView::CallFunction {
                call: call.deep_view(),
                context: context.deep_view(),
            },
            TurnCommand::LeaveHooks { context, result, entered } => TurnCommandView::LeaveHooks {
                context: context.deep_view(),
                result: result.deep_view(),
                entered: entered.deep_view(),
            },
            TurnCommand::Finish { outcome } => TurnCommandView::Finish {
                outcome: outcome.deep_view(),
            },
            TurnCommand::Fail { error } => TurnCommandView::Fail { error: error.deep_view() },
        }
    }
}

/// What a step of a turn leads to.
#[derive(Debug, PartialEq, Eq)]
pub struct TurnStep {
    pub run: TurnRun,
    pub effects: Vec<TurnEffect>,
    pub command: TurnCommand,
}

/// What a [`TurnStep`] holds.
#[verifier::ext_equal]
pub struct TurnStepView {
    pub run: TurnRunView,
    pub effects: Seq<TurnEffectView>,
    pub command: TurnCommandView,
}

impl DeepView for TurnStep {
    type V = TurnStepView;

    open spec fn deep_view(&self) -> Self::V {
        TurnStepView {
            run: self.run.deep_view(),
            effects: self.effects.deep_view(),
            command: self.command.deep_view(),
        }
    }
}

impl TurnRun {
    #[verifier::type_invariant]
    spec fn in_place(&self) -> bool {
        phase_ok(self.core.deep_view(), self.phase.deep_view())
    }
}

/// A step after which `phase` waits for what `command` brings.
fn make_step(
    core: TurnCore,
    log: EffectLog,
    phase: TurnPhase,
    command: TurnCommand,
) -> (r: TurnStep)
    requires
        phase_ok(core.deep_view(), phase.deep_view()),
    ensures
        step_to(core.deep_view(), log.deep_view(), phase.deep_view(), command.deep_view()) == Ok::<
            TurnStepView,
            AgentErrorView,
        >(r.deep_view()),
{
    let mut core = core;
    core.sequence = log.sequence;
    TurnStep { run: TurnRun { core, phase }, effects: log.effects, command }
}

fn make_commit(core: TurnCore, log: EffectLog, phase: TurnPhase) -> (r: Result<TurnStep>)
    requires
        phase_ok(core.deep_view(), phase.deep_view()),
    ensures
        outcome_of(r) == step_to(
            core.deep_view(),
            log.deep_view(),
            phase.deep_view(),
            TurnCommandView::Commit,
        ),
{
    Ok(make_step(core, log, phase, TurnCommand::Commit))
}

impl TurnCore {
    /// Records items of the turn, and its status where one is given.
    fn record(&mut self, items: Vec<TurnItem>, status: Option<TurnStatus>) -> (r: Result<()>)
        ensures
            match crate::kernel::events::appended(
                old(self).deep_view().thread,
                old(self).deep_view().turn_id,
                items.deep_view(),
                status,
            ) {
                Some(thread) => r is Ok && final(self).deep_view() == (TurnCoreView {
                    thread,
                    ..old(self).deep_view()
                }),
                None => outcome_of(r) == Err::<(), AgentErrorView>(
                    AgentErrorView::TurnNotFound(old(self).deep_view().turn_id),
                ),
            },
    {
        if self.thread.append(self.turn_id.as_str(), items, status) {
            Ok(())
        } else {
            Err(AgentError::TurnNotFound(self.turn_id.clone()))
        }
    }
}

pub(crate) fn make_runtime_item(kind: TurnItemKind) -> (r: TurnItem)
    ensures
        r.deep_view() == runtime_item(kind.deep_view()),
{
    TurnItem { source: TurnItemSource::Runtime, kind }
}

pub(crate) fn make_output_item(call: &ModelFunctionCall, result: ToolResult) -> (r: TurnItem)
    ensures
        r.deep_view() == output_item(call.deep_view(), result.deep_view()),
{
    TurnItem {
        source: TurnItemSource::Tool,
        kind: TurnItemKind::ToolOutput {
            call_id: call.call_id.clone(),
            name: call.name.clone(),
            result,
        },
    }
}

pub(crate) fn make_started_item(call: &ModelFunctionCall, attempt: u32) -> (r: TurnItem)
    ensures
        r.deep_view() == started_item(call.deep_view(), attempt),
{
    make_runtime_item(
        TurnItemKind::FunctionCallStarted {
            call_id: call.call_id.clone(),
            name: call.name.clone(),
            attempt,
        },
    )
}

/// A list of one item.
pub(crate) fn single(item: TurnItem) -> (r: Vec<TurnItem>)
    ensures
        r.deep_view() == seq![item.deep_view()],
{
    let mut items: Vec<TurnItem> = Vec::new();
    items.push(item);
    assert(items.deep_view() =~= seq![item.deep_view()]);
    items
}

/// Adds an item to a list.
pub(crate) fn push_item(items: &mut Vec<TurnItem>, item: TurnItem)
    ensures
        final(items).deep_view() == old(items).deep_view().push(item.deep_view()),
{
    let ghost before = items.deep_view();
    items.push(item);
    assert(items.deep_view() =~= before.push(item.deep_view()));
}

/// Adds the records of calls that are given the same result, from a position on.
fn push_outputs(
    items: &mut Vec<TurnItem>,
    calls: &Vec<ModelFunctionCall>,
    from: usize,
    result: ToolResult,
)
    requires
        from <= calls@.len(),
    ensures
        final(items).deep_view() == old(items).deep_view() + output_items(
            calls.deep_view(),
            from as int,
            result.deep_view(),
        ),
{
    let ghost before = items.deep_view();
    let ghost want = output_items(calls.deep_view(), from as int, result.deep_view());
    assert(items.deep_view() =~= before + want.take(0));
    for i in from..calls.len()
        invariant
            from <= i <= calls@.len(),
            want == output_items(calls.deep_view(), from as int, result.deep_view()),
            items.deep_view() == before + want.take(i - from),
    {
        push_item(items, make_output_item(&calls[i], result.replica()));
        assert(want[i - from] == output_item(calls.deep_view()[i as int], result.deep_view()));
        assert(want.take(i + 1 - from) =~= want.take(i - from).push(want[i - from]));
        assert(items.deep_view() =~= before + want.take(i + 1 - from));
    }
    assert(want.take(calls.len() - from) =~= want);
}

/// The records of what a runtime command does to the thread.
pub(crate) fn make_effect_items(thread: &Thread, effects: Vec<RuntimeEffect>) -> (r: Vec<TurnItem>)
    ensures
        r.deep_view() == effect_items(thread.deep_view(), effects.deep_view()),
{
    let ghost views = effects.deep_view();
    let ghost want = effect_items(thread.deep_view(), views);
    let mut items: Vec<TurnItem> = Vec::new();
    assert(items.deep_view() =~= want.take(0));
    for i in 0..effects.len()
        invariant
            views == effects.deep_view(),
            want == effect_items(thread.deep_view(), views),
            items.deep_view() == want.take(i as int),
    {
        let previous = ThreadProjection::from_thread(thread).goal;
        let RuntimeEffect::SetGoal(goal) = &effects[i];
        assert(views[i as int] == effects@[i as int].deep_view());
        let item = make_runtime_item(
            TurnItemKind::GoalUpdated { previous, current: goal.replica() },
        );
        push_item(&mut items, item);
        assert(want[i as int] == item.deep_view());
        assert(want.take(i + 1) =~= want.take(i as int).push(want[i as int]));
    }
    assert(want.take(effects.len() as int) =~= want);
    items
}

/// The turn comes to its end.
fn close_turn(core: TurnCore, log: EffectLog, outcome: TurnOutcome) -> (r: Result<TurnStep>)
    ensures
        outcome_of(r) == closing(core.deep_view(), log.deep_view(), outcome.deep_view()),
{
    let mut core = core;
    let mut log = log;
    let usage = core.usage;
    if !usage.is_zero() {
        core.thread.token_usage.add_assign(usage);
    }
    log.metric(
        RuntimeMetric::TokenUsage {
            input_tokens: usage.input_tokens,
            cached_input_tokens: usage.cached_input_tokens,
            output_tokens: usage.output_tokens,
            total_tokens: usage.total_tokens,
        },
    );
    make_commit(core, log, TurnPhase::Closing { outcome })
}

/// The turn fails.
fn fail_turn(core: TurnCore, log: EffectLog, error: String) -> (r: Result<TurnStep>)
    ensures
        outcome_of(r) == failing(core.deep_view(), log.deep_view(), error@),
{
    let mut core = core;
    let items = single(make_runtime_item(TurnItemKind::TurnFailed { error: error.clone() }));
    match core.record(items, Some(TurnStatus::Failed)) {
        Ok(_) => close_turn(core, log, TurnOutcome::Failed { error }),
        Err(error) => Err(error),
    }
}

/// The turn asks the model again, unless it has asked as often as it may.
fn ask_model(core: TurnCore, log: EffectLog) -> (r: Result<TurnStep>)
    ensures
        outcome_of(r) == asking(core.deep_view(), log.deep_view()),
{
    if core.iteration < core.limits.max_model_iterations {
        let projection = ThreadProjection::from_thread(&core.thread);
        Ok(make_step(core, log, TurnPhase::Asking, TurnCommand::BuildRequest { projection }))
    } else {
        let error = AgentError::MaxIterations(core.limits.max_model_iterations).text();
        fail_turn(core, log, error)
    }
}

fn make_hook_context(core: &TurnCore, call: &ModelFunctionCall) -> (r: FunctionCallHookContext)
    ensures
        r.deep_view() == hook_context(core.deep_view(), call.deep_view()),
{
    FunctionCallHookContext {
        thread_id: core.thread.id.clone(),
        turn_id: core.turn_id.clone(),
        call_id: call.call_id.clone(),
        name: call.name.clone(),
        arguments: call.arguments.replica(),
        projection: ThreadProjection::from_thread(&core.thread),
    }
}

fn make_function_context(core: &TurnCore, call: &ModelFunctionCall) -> (r: FunctionContext)
    ensures
        r.deep_view() == function_context(core.deep_view(), call.deep_view()),
{
    FunctionContext {
        thread_id: core.thread.id.clone(),
        metadata: core.thread.metadata.replica(),
        turn_id: core.turn_id.clone(),
        call_id: call.call_id.clone(),
        projection: ThreadProjection::from_thread(&core.thread),
    }
}

pub(crate) fn make_failure_event(call: &ModelFunctionCall, error: &str) -> (r: TurnStateEvent)
    ensures
        r.deep_view() == failure_event(call.deep_view(), error@),
{
    TurnStateEvent::FunctionFailed {
        call_id: call.call_id.clone(),
        name: call.name.clone(),
        error: error.to_owned(),
    }
}

pub(crate) fn make_completed_event(call: &ModelFunctionCall) -> (r: TurnStateEvent)
    ensures
        r.deep_view() == completed_event(call.deep_view()),
{
    TurnStateEvent::FunctionCompleted { call_id: call.call_id.clone(), name: call.name.clone() }
}

pub(crate) fn make_started_event(call: &ModelFunctionCall) -> (r: TurnStateEvent)
    ensures
        r.deep_view() == started_event(call.deep_view()),
{
    TurnStateEvent::FunctionStarted { call_id: call.call_id.clone(), name: call.name.clone() }
}

fn make_call_trace(call: &ModelFunctionCall) -> (r: TraceEventKind)
    ensures
        r.deep_view() == call_trace(call.deep_view()),
{
    TraceEventKind::FunctionCall {
        call_id: call.call_id.clone(),
        name: call.name.clone(),
        arguments: call.arguments.replica(),
    }
}

fn make_output_trace(call: &ModelFunctionCall, result: ToolResult) -> (r: TraceEventKind)
    ensures
        r.deep_view() == output_trace(call.deep_view(), result.deep_view()),
{
    TraceEventKind::ToolOutput { call_id: call.call_id.clone(), name: call.name.clone(), result }
}

fn make_failure_trace(call: &ModelFunctionCall, error: &str) -> (r: TraceEventKind)
    ensures
        r.deep_view() == failure_trace(call.deep_view(), error@),
{
    make_output_trace(call, ToolResult::Error { error: error.to_owned() })
}

fn log_skip_metrics(
    log: &mut EffectLog,
    calls: &Vec<ModelFunctionCall>,
    from: usize,
    reason: FunctionCallSkipReason,
)
    ensures
        final(log).deep_view() == skip_metrics(
            old(log).deep_view(),
            calls.deep_view(),
            from as int,
            calls@.len() as int,
            reason,
        ),
{
    let ghost before = log.deep_view();
    let mut i: usize = from;
    while i < calls.len()
        invariant
            from <= i,
            i <= calls@.len() || i == from,
            log.deep_view()
                == skip_metrics(before, calls.deep_view(), from as int, i as int, reason),
        decreases calls@.len() - i,
    {
        log.metric(RuntimeMetric::FunctionCallSkipped { name: calls[i].name.clone(), reason });
        i = i + 1;
    }
}

fn log_skip_traces(log: &mut EffectLog, calls: &Vec<ModelFunctionCall>, from: usize, error: &str)
    ensures
        final(log).deep_view() == skip_traces(
            old(log).deep_view(),
            calls.deep_view(),
            from as int,
            calls@.len() as int,
            error@,
        ),
{
    let ghost before = log.deep_view();
    let mut i: usize = from;
    while i < calls.len()
        invariant
            from <= i,
            i <= calls@.len() || i == from,
            log.deep_view()
                == skip_traces(before, calls.deep_view(), from as int, i as int, error@),
        decreases calls@.len() - i,
    {
        log.trace(make_failure_trace(&calls[i], error));
        i = i + 1;
    }
}

fn log_skip_events(log: &mut EffectLog, calls: &Vec<ModelFunctionCall>, from: usize, error: &str)
    ensures
        final(log).deep_view() == skip_events(
            old(log).deep_view(),
            calls.deep_view(),
            from as int,
            calls@.len() as int,
            error@,
        ),
{
    let ghost before = log.deep_view();
    let mut i: usize = from;
    while i < calls.len()
        invariant
            from <= i,
            i <= calls@.len() || i == from,
            log.deep_view()
                == skip_events(before, calls.deep_view(), from as int, i as int, error@),
        decreases calls@.len() - i,
    {
        log.state(make_failure_event(&calls[i], error));
        i = i + 1;
    }
}

fn log_limit_reports(log: &mut EffectLog, calls: &Vec<ModelFunctionCall>, from: usize, error: &str)
    ensures
        final(log).deep_view() == limit_reports(
            old(log).deep_view(),
            calls.deep_view(),
            from as int,
            calls@.len() as int,
            error@,
        ),
{
    let ghost before = log.deep_view();
    let mut i: usize = from;
    while i < calls.len()
        invariant
            from <= i,
            i <= calls@.len() || i == from,
            log.deep_view()
                == limit_reports(before, calls.deep_view(), from as int, i as int, error@),
        decreases calls@.len() - i,
    {
        log.trace(make_failure_trace(&calls[i], error));
        log.state(make_failure_event(&calls[i], error));
        i = i + 1;
    }
}

/// Takes up the call at `index`, or what comes behind the last one.
fn begin_call(
    core: TurnCore,
    log: EffectLog,
    calls: Vec<ModelFunctionCall>,
    admitted: usize,
    index: usize,
) -> (r: Result<TurnStep>)
    requires
        index <= admitted <= calls@.len(),
        core.deep_view().iteration < core.deep_view().limits.max_model_iterations,
    ensures
        outcome_of(r) == next_call(
            core.deep_view(),
            log.deep_view(),
            calls.deep_view(),
            admitted,
            index,
        ),
{
    let mut core = core;
    let mut log = log;
    if index < admitted {
        let call = &calls[index];
        log.state(make_started_event(call));
        log.trace(make_call_trace(call));
        let context = make_hook_context(&core, call);
        return Ok(
            make_step(
                core,
                log,
                TurnPhase::Entering { calls, admitted, index },
                TurnCommand::EnterHooks { context },
            ),
        );
    }
    if admitted < calls.len() {
        let error = AgentError::MaxFunctionCalls(core.limits.max_function_calls).text();
        let skipped = glue2("function call not executed because ", error.as_str());
        log_skip_metrics(&mut log, &calls, admitted, FunctionCallSkipReason::MaxCallsPerTurn);
        let mut items: Vec<TurnItem> = Vec::new();
        assert(items.deep_view() =~= Seq::empty());
        push_outputs(&mut items, &calls, admitted, ToolResult::Error { error: skipped });
        push_item(&mut items, make_runtime_item(TurnItemKind::TurnFailed { error: error.clone() }));
        assert(items.deep_view() =~= output_items(
            calls.deep_view(),
            admitted as int,
            ToolResultView::Error { error: not_admitted(error@) },
        ).push(runtime_item(TurnItemKindView::TurnFailed { error: error@ })));
        return match core.record(items, Some(TurnStatus::Failed)) {
            Ok(_) => make_commit(core, log, TurnPhase::Limiting { calls, admitted, error }),
            Err(error) => Err(error),
        };
    }
    core.iteration = core.iteration + 1;
    ask_model(core, log)
}

/// The model has answered.
fn take_answer(core: TurnCore, log: EffectLog, response: ModelResponse) -> (r: Result<TurnStep>)
    requires
        core.deep_view().iteration < core.deep_view().limits.max_model_iterations,
    ensures
        outcome_of(r) == answered(core.deep_view(), log.deep_view(), response.deep_view()),
{
    let mut core = core;
    let mut log = log;
    let ghost parts = answer_parts(response.deep_view());
    let (text, calls, continuation) = match response {
        ModelResponse::Assistant { continuation, text, function_calls } => (
            text,
            function_calls,
            continuation,
        ),
        ModelResponse::AssistantMessage { text } => (Some(text), Vec::new(), None),
        ModelResponse::FunctionCalls { calls } => (None, calls, None),
    };
    assert(calls.deep_view() =~= parts.1);
    assert(text.deep_view() == parts.0);
    assert(continuation.deep_view() == parts.2);
    if text.is_none() && calls.len() == 0 {
        return fail_turn(
            core,
            log,
            "model returned neither assistant text nor function calls".to_owned(),
        );
    }
    if let Some(text) = &text {
        log.emit(
            TurnStreamEvent::Model(TurnModelEvent::AssistantMessage { text: text.clone() }),
        );
    }
    let item = TurnItem {
        source: TurnItemSource::Model,
        kind: TurnItemKind::ModelResponse {
            text: text.replica(),
            function_calls: calls.replica(),
            continuation,
        },
    };
    if calls.len() == 0 {
        return match core.record(single(item), Some(TurnStatus::Completed)) {
            Ok(_) => {
                let text = match text {
                    Some(text) => text,
                    None => String::new(),
                };
                make_commit(core, log, TurnPhase::Answering { text })
            },
            Err(error) => Err(error),
        };
    }
    log.state(TurnStateEvent::FunctionCallsRequested { calls: calls.replica() });
    match core.record(single(item), None) {
        Ok(_) => make_commit(core, log, TurnPhase::Requested { text, calls }),
        Err(error) => Err(error),
    }
}

/// The turn is aborted, with nothing to record but that.
fn abort_turn(core: TurnCore, log: EffectLog) -> (r: Result<TurnStep>)
    ensures
        outcome_of(r) == aborting(core.deep_view(), log.deep_view()),
{
    let mut core = core;
    let reason = "turn aborted by caller".to_owned();
    let items = single(make_runtime_item(TurnItemKind::TurnAborted { reason: reason.clone() }));
    match core.record(items, Some(TurnStatus::Aborted)) {
        Ok(_) => close_turn(core, log, TurnOutcome::Aborted { reason }),
        Err(error) => Err(error),
    }
}

/// The items, the status and the end of a call that has returned.
fn make_call_records(
    core: &TurnCore,
    calls: &Vec<ModelFunctionCall>,
    index: usize,
    execution: Result<FunctionCallExecution>,
) -> (r: (Vec<TurnItem>, Option<TurnStatus>, CallEnd))
    requires
        index < calls@.len(),
    ensures
        (r.0.deep_view(), r.1, r.2.deep_view()) == call_records(
            core.deep_view(),
            calls.deep_view(),
            index as int,
            outcome_of(execution),
        ),
{
    let call = &calls[index];
    let total: usize = calls.len();
    assert(index < total);
    match execution {
        Ok(FunctionCallExecution::Completed { output, effects }) => {
            let mut items = make_effect_items(&core.thread, effects);
            push_item(
                &mut items,
                make_output_item(call, ToolResult::Success { output: output.replica() }),
            );
            (items, None, CallEnd::Completed { output })
        },
        Ok(FunctionCallExecution::SuspendedBeforeExecution { suspension, effects }) => {
            let mut items = make_effect_items(&core.thread, effects);
            push_item(
                &mut items,
                make_runtime_item(
                    TurnItemKind::SuspensionCreated { suspension: suspension.replica() },
                ),
            );
            push_outputs(&mut items, calls, index + 1, suspended_result());
            (items, Some(TurnStatus::Suspended), CallEnd::SuspendedBefore { suspension })
        },
        Ok(FunctionCallExecution::SuspendedAfterExecution { suspension, output, effects }) => {
            let mut items = make_effect_items(&core.thread, effects);
            push_item(
                &mut items,
                make_output_item(call, ToolResult::Success { output: output.replica() }),
            );
            push_item(
                &mut items,
                make_runtime_item(
                    TurnItemKind::SuspensionCreated { suspension: suspension.replica() },
                ),
            );
            push_outputs(&mut items, calls, index + 1, suspended_result());
            (items, Some(TurnStatus::Suspended), CallEnd::SuspendedAfter { suspension, output })
        },
        Err(error) => {
            let text = error.text();
            let items = single(make_output_item(call, ToolResult::Error { error: text.clone() }));
            (items, None, CallEnd::Failed { error: text })
        },
    }
}

fn suspended_result() -> (r: ToolResult)
    ensures
        r.deep_view() == (ToolResultView::Error { error: suspended_error() }),
{
    ToolResult::Error {
        error: "function not executed because a previous function suspended the turn".to_owned(),
    }
}

fn outcome_of_call(execution: &Result<FunctionCallExecution>) -> (r: FunctionCallOutcome)
    ensures
        r == call_outcome(outcome_of(*execution)),
{
    match execution {
        Ok(FunctionCallExecution::Completed { .. }) => FunctionCallOutcome::Completed,
        Ok(FunctionCallExecution::SuspendedBeforeExecution { .. }) =>
            FunctionCallOutcome::Suspended,
        Ok(FunctionCallExecution::SuspendedAfterExecution { .. }) => FunctionCallOutcome::Suspended,
        Err(_) => FunctionCallOutcome::Failed,
    }
}

/// A function call of an answer has returned.
fn end_call(
    core: TurnCore,
    log: EffectLog,
    calls: Vec<ModelFunctionCall>,
    admitted: usize,
    index: usize,
    entered: usize,
    execution: Result<FunctionCallExecution>,
    elapsed: TimeSpan,
) -> (r: Result<TurnStep>)
    requires
        index < admitted <= calls@.len(),
        core.deep_view().iteration < core.deep_view().limits.max_model_iterations,
    ensures
        outcome_of(r) == call_returned(
            core.deep_view(),
            log.deep_view(),
            calls.deep_view(),
            admitted,
            index,
            entered,
            outcome_of(execution),
            elapsed.deep_view(),
        ),
{
    let mut core = core;
    let mut log = log;
    let outcome = outcome_of_call(&execution);
    log.metric(
        RuntimeMetric::FunctionCallFinished {
            name: calls[index].name.clone(),
            outcome,
            duration: elapsed,
        },
    );
    if outcome == FunctionCallOutcome::Suspended {
        log_skip_metrics(
            &mut log,
            &calls,
            index + 1,
            FunctionCallSkipReason::PreviousFunctionSuspended,
        );
    }
    let (items, status, end) = make_call_records(&core, &calls, index, execution);
    match core.record(items, status) {
        Ok(_) => make_commit(
            core,
            log,
            TurnPhase::Recording { calls, admitted, index, entered, end },
        ),
        Err(error) => Err(error),
    }
}

/// The items recorded when an abort cuts calls off.
fn make_abort_records(calls: &Vec<ModelFunctionCall>, index: usize) -> (r: Vec<TurnItem>)
    requires
        index <= calls@.len(),
    ensures
        r.deep_view() == abort_records(calls.deep_view(), index as int),
{
    let mut items = single(
        make_runtime_item(
            TurnItemKind::TurnAborted { reason: "turn aborted by caller".to_owned() },
        ),
    );
    push_outputs(
        &mut items,
        calls,
        index,
        ToolResult::Aborted {
            reason: "function execution aborted before a result was recorded".to_owned(),
        },
    );
    items
}

fn log_abort_metrics(
    log: &mut EffectLog,
    calls: &Vec<ModelFunctionCall>,
    index: usize,
    elapsed: TimeSpan,
)
    requires
        index < calls@.len(),
    ensures
        final(log).deep_view() == abort_metrics(
            old(log).deep_view(),
            calls.deep_view(),
            index as int,
            elapsed.deep_view(),
        ),
{
    let total: usize = calls.len();
    assert(index < total);
    log.metric(
        RuntimeMetric::FunctionCallFinished {
            name: calls[index].name.clone(),
            outcome: FunctionCallOutcome::Aborted,
            duration: elapsed,
        },
    );
    log_skip_metrics(log, calls, index + 1, FunctionCallSkipReason::TurnAborted);
}

/// A function call of an answer was cut off by an abort.
fn cut_off_call(
    core: TurnCore,
    log: EffectLog,
    calls: Vec<ModelFunctionCall>,
    index: usize,
    elapsed: TimeSpan,
) -> (r: Result<TurnStep>)
    requires
        index < calls@.len(),
    ensures
        outcome_of(r) == call_cut_off(
            core.deep_view(),
            log.deep_view(),
            calls.deep_view(),
            index,
            elapsed.deep_view(),
        ),
{
    let mut core = core;
    let mut log = log;
    log_abort_metrics(&mut log, &calls, index, elapsed);
    match core.record(make_abort_records(&calls, index), Some(TurnStatus::Aborted)) {
        Ok(_) => close_turn(
            core,
            log,
            TurnOutcome::Aborted { reason: "turn aborted by caller".to_owned() },
        ),
        Err(error) => Err(error),
    }
}

/// Where the last answer with function calls stands.
fn find_last_request(items: &Vec<TurnItem>) -> (r: Option<usize>)
    ensures
        match r {
            Some(i) => i < items@.len() && last_request(items.deep_view()) == Some(i as int)
                && items@[i as int].kind is ModelResponse,
            None => last_request(items.deep_view()) is None,
        },
{
    let ghost views = items.deep_view();
    let mut i: usize = items.len();
    assert(views.take(i as int) =~= views);
    while i > 0
        invariant
            i <= items@.len(),
            views == items.deep_view(),
            last_request(views) == last_request(views.take(i as int)),
        decreases i,
    {
        i = i - 1;
        assert(views.take(i + 1).drop_last() =~= views.take(i as int));
        assert(views.take(i + 1).last() == items@[i as int].deep_view());
        if let TurnItemKind::ModelResponse { function_calls, .. } = &items[i].kind {
            if function_calls.len() > 0 {
                return Some(i);
            }
        }
    }
    None
}

/// The attempt of a call that was started last, from a position on.
fn find_last_attempt(items: &Vec<TurnItem>, from: usize, call_id: &str) -> (r: Option<u32>)
    requires
        from <= items@.len(),
    ensures
        r == last_attempt(items.deep_view().skip(from as int), call_id@),
{
    let ghost views = items.deep_view().skip(from as int);
    let mut i: usize = items.len();
    assert(views.take(i - from) =~= views);
    while i > from
        invariant
            from <= i <= items@.len(),
            views == items.deep_view().skip(from as int),
            last_attempt(views, call_id@) == last_attempt(views.take(i - from), call_id@),
        decreases i - from,
    {
        i = i - 1;
        assert(views.take(i + 1 - from).drop_last() =~= views.take(i - from));
        assert(views.take(i + 1 - from).last() == items@[i as int].deep_view());
        if let TurnItemKind::FunctionCallStarted {
            call_id: started,
            attempt,
            ..
        } = &items[i].kind {
            if same_text(started.as_str(), call_id) {
                return Some(*attempt);
            }
        }
    }
    None
}

/// Whether a call has an output, from a position on.
fn find_output(items: &Vec<TurnItem>, from: usize, call_id: &str) -> (r: bool)
    requires
        from <= items@.len(),
    ensures
        r == has_output(items.deep_view().skip(from as int), call_id@),
{
    let ghost views = items.deep_view().skip(from as int);
    let mut i: usize = from;
    while i < items.len()
        invariant
            from <= i <= items@.len(),
            views == items.deep_view().skip(from as int),
            forall|j: int| 0 <= j < i - from ==> !is_output_of(#[trigger] views[j], call_id@),
        decreases items@.len() - i,
    {
        assert(views[i - from] == items@[i as int].deep_view());
        if let TurnItemKind::ToolOutput { call_id: done, .. } = &items[i].kind {
            if same_text(done.as_str(), call_id) {
                assert(is_output_of(views[i - from], call_id@));
                return true;
            }
        }
        i = i + 1;
    }
    false
}

/// The calls that the turn asked for last and that have no output, and what is known of them.
fn find_pending(thread: &Thread, turn_id: &str, registry: &FunctionRegistry) -> (r: (
    Vec<ModelFunctionCall>,
    Vec<RecoveryMark>,
))
    ensures
        r.0.deep_view() == pending_calls(thread.deep_view(), turn_id@),
        r.1.deep_view() == pending_marks(thread.deep_view(), turn_id@, registry.deep_view()),
        r.0@.len() == r.1@.len(),
{
    let ghost functions = registry.deep_view();
    let mut pending: Vec<ModelFunctionCall> = Vec::new();
    let mut marks: Vec<RecoveryMark> = Vec::new();
    let found = match thread.find_turn(turn_id) {
        Some(t) => match find_last_request(&thread.turns[t].items) {
            Some(i) => Some((t, i)),
            None => None,
        },
        None => None,
    };
    if let Some((t, i)) = found {
        let items = &thread.turns[t].items;
        if let TurnItemKind::ModelResponse { function_calls, .. } = &items[i].kind {
            let total: usize = items.len();
            assert(i < total);
            let from: usize = i + 1;
            let ghost calls = function_calls.deep_view();
            let ghost behind = items.deep_view().skip(i + 1);
            let ghost mark_of = |call: ModelFunctionCallView|
                RecoveryMark {
                    started: last_attempt(behind, call.call_id),
                    policy: if functions.contains_key(call.name) {
                        Some(functions[call.name].descriptor.recovery_policy)
                    } else {
                        None
                    },
                };
            assert(turn_items(thread.deep_view(), turn_id@) == items.deep_view());
            assert(items.deep_view()[i as int] == items@[i as int].deep_view());
            assert(last_requested(items.deep_view()) == (calls, behind));
            assert(calls.take(0) =~= Seq::empty());
            assert(pending.deep_view() =~= unanswered(calls.take(0), behind));
            assert(marks.deep_view() =~= pending.deep_view().map_values(mark_of));
            for k in 0..function_calls.len()
                invariant
                    functions == registry.deep_view(),
                    from == i + 1,
                    from <= items@.len(),
                    calls == function_calls.deep_view(),
                    behind == items.deep_view().skip(i + 1),
                    mark_of == (|call: ModelFunctionCallView|
                        RecoveryMark {
                            started: last_attempt(behind, call.call_id),
                            policy: if functions.contains_key(call.name) {
                                Some(functions[call.name].descriptor.recovery_policy)
                            } else {
                                None
                            },
                        }),
                    pending.deep_view() == unanswered(calls.take(k as int), behind),
                    marks.deep_view() == pending.deep_view().map_values(mark_of),
            {
                let call = &function_calls[k];
                let ghost before = pending.deep_view();
                let ghost before_marks = marks.deep_view();
                assert(calls.take(k + 1).drop_last() =~= calls.take(k as int));
                assert(calls.take(k + 1).last() == call.deep_view());
                if !find_output(items, from, call.call_id.as_str()) {
                    let policy = match registry.recovery_policy(call.name.as_str()) {
                        Ok(policy) => Some(policy),
                        Err(_) => None,
                    };
                    let mark = RecoveryMark {
                        started: find_last_attempt(items, from, call.call_id.as_str()),
                        policy,
                    };
                    pending.push(call.replica());
                    marks.push(mark);
                    assert(pending.deep_view() =~= before.push(call.deep_view()));
                    assert(marks.deep_view() =~= before_marks.push(mark));
                    assert(mark == mark_of(call.deep_view()));
                    assert(marks.deep_view() =~= pending.deep_view().map_values(mark_of));
                }
            }
            assert(calls.take(function_calls.len() as int) =~= calls);
            assert(marks.deep_view() =~= pending_marks(thread.deep_view(), turn_id@, functions));
        }
    } else {
        assert(last_requested(turn_items(thread.deep_view(), turn_id@)).0 =~= Seq::empty());
        assert(pending.deep_view() =~= pending_calls(thread.deep_view(), turn_id@));
        assert(marks.deep_view() =~= pending_marks(thread.deep_view(), turn_id@, functions));
    }
    assert(pending.deep_view().len() == marks.deep_view().len());
    (pending, marks)
}

fn make_recovery_suspension(id: String, call: &ModelFunctionCall, attempt: u32) -> (r: Suspension)
    ensures
        r.deep_view() == recovery_suspension(id@, call.deep_view(), attempt),
{
    let payload = Json::object(
        no_members().with("call_id", Json::text(call.call_id.as_str())).with(
            "name",
            Json::text(call.name.as_str()),
        ).with("attempt", Json::unsigned(attempt as u64)).with("deferred", Json::Bool(true)).with(
            "recovery",
            Json::Bool(true),
        ).with("reason", Json::text("function started but no terminal output was recorded")),
    );
    Suspension { id, kind: SuspensionKind::FunctionRecovery, payload }
}

/// Takes up the call without output at `index`, or asks the model behind the last one.
fn recover_call(
    core: TurnCore,
    log: EffectLog,
    calls: Vec<ModelFunctionCall>,
    marks: Vec<RecoveryMark>,
    index: usize,
) -> (r: Result<TurnStep>)
    requires
        calls@.len() == marks@.len(),
    ensures
        outcome_of(r) == recover_next(
            core.deep_view(),
            log.deep_view(),
            calls.deep_view(),
            marks.deep_view(),
            index,
        ),
{
    let mut core = core;
    let mut log = log;
    if index >= calls.len() {
        return ask_model(core, log);
    }
    let call = &calls[index];
    let mark = marks[index];
    assert(marks.deep_view()[index as int] == mark);
    let attempt: u32 = match mark.started {
        Some(attempt) => attempt.saturating_add(1),
        None => 1,
    };
    let policy = match mark.policy {
        Some(policy) => policy,
        None => {
            let error = AgentError::FunctionNotFound(call.name.clone());
            return Ok(make_step(core, log, TurnPhase::Finished, TurnCommand::Fail { error }));
        },
    };
    log.trace(
        TraceEventKind::RecoveryStarted {
            call_id: call.call_id.clone(),
            name: call.name.clone(),
            attempt,
            policy,
        },
    );
    if mark.started.is_some() && policy == FunctionRecoveryPolicy::NonIdempotent {
        let suspension = make_recovery_suspension(core.suspension_id.clone(), call, attempt);
        let items = single(
            make_runtime_item(TurnItemKind::SuspensionCreated { suspension: suspension.replica() }),
        );
        return match core.record(items, Some(TurnStatus::Suspended)) {
            Ok(_) => make_commit(core, log, TurnPhase::RecoverySuspending { suspension }),
            Err(error) => Err(error),
        };
    }
    match core.record(single(make_started_item(call, attempt)), None) {
        Ok(_) => make_commit(core, log, TurnPhase::RecoveryStarting { calls, marks, index }),
        Err(error) => Err(error),
    }
}

/// The items, the status and the end of a recovered call that has returned.
fn make_recovery_records(
    core: &TurnCore,
    calls: &Vec<ModelFunctionCall>,
    index: usize,
    execution: Result<FunctionCallExecution>,
) -> (r: (Vec<TurnItem>, Option<TurnStatus>, CallEnd))
    requires
        index < calls@.len(),
    ensures
        (r.0.deep_view(), r.1, r.2.deep_view()) == recovery_records(
            core.deep_view(),
            calls.deep_view(),
            index as int,
            outcome_of(execution),
        ),
{
    let call = &calls[index];
    let total: usize = calls.len();
    assert(index < total);
    match execution {
        Ok(FunctionCallExecution::Completed { output, effects }) => {
            let mut items = make_effect_items(&core.thread, effects);
            push_item(
                &mut items,
                make_output_item(call, ToolResult::Success { output: output.replica() }),
            );
            (items, None, CallEnd::Completed { output })
        },
        Ok(FunctionCallExecution::SuspendedBeforeExecution { suspension, .. }) => {
            let mut items = single(
                make_runtime_item(
                    TurnItemKind::SuspensionCreated { suspension: suspension.replica() },
                ),
            );
            push_outputs(&mut items, calls, index + 1, suspended_result());
            (items, Some(TurnStatus::Suspended), CallEnd::SuspendedBefore { suspension })
        },
        Ok(FunctionCallExecution::SuspendedAfterExecution { suspension, .. }) => {
            let mut items = single(
                make_runtime_item(
                    TurnItemKind::SuspensionCreated { suspension: suspension.replica() },
                ),
            );
            push_outputs(&mut items, calls, index + 1, suspended_result());
            (items, Some(TurnStatus::Suspended), CallEnd::SuspendedBefore { suspension })
        },
        Err(error) => {
            let text = error.text();
            let items = single(make_output_item(call, ToolResult::Error { error: text.clone() }));
            (items, None, CallEnd::Failed { error: text })
        },
    }
}

/// A recovered call has returned, or an abort has cut it off.
fn end_recovered_call(
    core: TurnCore,
    calls: Vec<ModelFunctionCall>,
    marks: Vec<RecoveryMark>,
    index: usize,
    execution: Option<Result<FunctionCallExecution>>,
    elapsed: TimeSpan,
) -> (r: Result<TurnStep>)
    requires
        index < calls@.len(),
        calls@.len() == marks@.len(),
    ensures
        outcome_of(r) == recovery_returned(
            core.deep_view(),
            calls.deep_view(),
            marks.deep_view(),
            index,
            returned_of(execution),
            elapsed.deep_view(),
        ),
{
    let mut core = core;
    let mut log = EffectLog::new(core.sequence);
    match execution {
        None => {
            log_abort_metrics(&mut log, &calls, index, elapsed);
            match core.record(make_abort_records(&calls, index), Some(TurnStatus::Aborted)) {
                Ok(_) => make_commit(core, log, TurnPhase::RecoveryAborting),
                Err(error) => Err(error),
            }
        },
        Some(execution) => {
            log.metric(
                RuntimeMetric::FunctionCallFinished {
                    name: calls[index].name.clone(),
                    outcome: outcome_of_call(&execution),
                    duration: elapsed,
                },
            );
            let (items, status, end) = make_recovery_records(&core, &calls, index, execution);
            match core.record(items, status) {
                Ok(_) => make_commit(
                    core,
                    log,
                    TurnPhase::RecoveryRecording { calls, marks, index, end },
                ),
                Err(error) => Err(error),
            }
        },
    }
}

/// What came back from a call that may have been cut off.
pub open spec fn returned_of<T: DeepView>(returned: Option<Result<T>>) -> Option<
    core::result::Result<T::V, AgentErrorView>,
> {
    match returned {
        Some(result) => Some(outcome_of(result)),
        None => None,
    }
}

/// The turn ends suspended.
fn suspend_turn(core: TurnCore, log: EffectLog, suspension: Suspension) -> (r: Result<TurnStep>)
    ensures
        outcome_of(r) == suspending(core.deep_view(), log.deep_view(), suspension.deep_view()),
{
    let mut log = log;
    log.trace(TraceEventKind::SuspensionCreated { suspension: suspension.replica() });
    log.state(TurnStateEvent::Suspended { suspension: suspension.replica() });
    close_turn(core, log, TurnOutcome::Suspended { suspension })
}

/// What a recovered call returned is committed.
fn recorded_recovery(
    core: TurnCore,
    calls: Vec<ModelFunctionCall>,
    marks: Vec<RecoveryMark>,
    index: usize,
    end: CallEnd,
) -> (r: Result<TurnStep>)
    requires
        index < calls@.len(),
        calls@.len() == marks@.len(),
    ensures
        outcome_of(r) == after_recovery(
            core.deep_view(),
            calls.deep_view(),
            marks.deep_view(),
            index,
            end.deep_view(),
        ),
{
    let mut log = EffectLog::new(core.sequence);
    let total: usize = calls.len();
    assert(index < total);
    match end {
        CallEnd::Completed { output } => {
            log.trace(make_output_trace(&calls[index], ToolResult::Success { output }));
            log.state(make_completed_event(&calls[index]));
            recover_call(core, log, calls, marks, index + 1)
        },
        CallEnd::Failed { error } => {
            log.state(make_failure_event(&calls[index], error.as_str()));
            recover_call(core, log, calls, marks, index + 1)
        },
        CallEnd::SuspendedBefore { suspension } => suspend_turn(core, log, suspension),
        CallEnd::SuspendedAfter { suspension, .. } => suspend_turn(core, log, suspension),
    }
}

/// The hooks after a call are run.
fn leave_hooks(
    core: TurnCore,
    log: EffectLog,
    calls: Vec<ModelFunctionCall>,
    admitted: usize,
    index: usize,
    entered: usize,
    result: FunctionCallHookResult,
) -> (r: Result<TurnStep>)
    requires
        index < admitted <= calls@.len(),
        core.deep_view().iteration < core.deep_view().limits.max_model_iterations,
    ensures
        outcome_of(r) == leaving(
            core.deep_view(),
            log.deep_view(),
            calls.deep_view(),
            admitted,
            index,
            entered,
            result.deep_view(),
        ),
{
    let context = make_hook_context(&core, &calls[index]);
    let told = result.replica();
    Ok(
        make_step(
            core,
            log,
            TurnPhase::Leaving { calls, admitted, index, result },
            TurnCommand::LeaveHooks { context, result: told, entered },
        ),
    )
}

/// What a call returned is committed.
fn recorded_call(
    core: TurnCore,
    calls: Vec<ModelFunctionCall>,
    admitted: usize,
    index: usize,
    entered: usize,
    end: CallEnd,
) -> (r: Result<TurnStep>)
    requires
        index < admitted <= calls@.len(),
        core.deep_view().iteration < core.deep_view().limits.max_model_iterations,
    ensures
        outcome_of(r) == after_recording(
            core.deep_view(),
            calls.deep_view(),
            admitted,
            index,
            entered,
            end.deep_view(),
        ),
{
    let mut log = EffectLog::new(core.sequence);
    let skipped = "function not executed because a previous function suspended the turn";
    match end {
        CallEnd::Completed { output } => {
            log.trace(
                make_output_trace(&calls[index], ToolResult::Success { output: output.replica() }),
            );
            leave_hooks(
                core,
                log,
                calls,
                admitted,
                index,
                entered,
                FunctionCallHookResult::Completed { output },
            )
        },
        CallEnd::Failed { error } => {
            log.trace(make_failure_trace(&calls[index], error.as_str()));
            leave_hooks(
                core,
                log,
                calls,
                admitted,
                index,
                entered,
                FunctionCallHookResult::Failed { error },
            )
        },
        CallEnd::SuspendedAfter { suspension, output } => {
            log.trace(TraceEventKind::SuspensionCreated { suspension: suspension.replica() });
            log.trace(
                make_output_trace(&calls[index], ToolResult::Success { output: output.replica() }),
            );
            log_skip_traces(&mut log, &calls, index + 1, skipped);
            leave_hooks(
                core,
                log,
                calls,
                admitted,
                index,
                entered,
                FunctionCallHookResult::Suspended { suspension, output },
            )
        },
        CallEnd::SuspendedBefore { suspension } => {
            log.trace(TraceEventKind::SuspensionCreated { suspension: suspension.replica() });
            log_skip_traces(&mut log, &calls, index + 1, skipped);
            log.state(TurnStateEvent::Suspended { suspension: suspension.replica() });
            log_skip_events(&mut log, &calls, index + 1, skipped);
            close_turn(core, log, TurnOutcome::Suspended { suspension })
        },
    }
}

/// The turn has ended.
fn finish_turn(core: TurnCore, outcome: TurnOutcome, elapsed: TimeSpan) -> (r: Result<TurnStep>)
    ensures
        outcome_of(r) == finished(core.deep_view(), outcome.deep_view(), elapsed.deep_view()),
{
    let mut log = EffectLog::new(core.sequence);
    let (status, traced) = match &outcome {
        TurnOutcome::AssistantMessage { .. } => (MetricStatus::Completed, TraceTurnStatus::Completed),
        TurnOutcome::Suspended { .. } => (MetricStatus::Suspended, TraceTurnStatus::Suspended),
        TurnOutcome::Failed { .. } => (MetricStatus::Failed, TraceTurnStatus::Failed),
        TurnOutcome::Aborted { .. } => (MetricStatus::Aborted, TraceTurnStatus::Aborted),
    };
    log.metric(
        RuntimeMetric::TurnFinished {
            status,
            duration: elapsed,
            function_calls: core.function_call_count,
        },
    );
    log.trace(TraceEventKind::TurnFinished { status: traced });
    if let TurnOutcome::Failed { error } = &outcome {
        log.state(TurnStateEvent::TurnFailed { error: error.clone() });
    }
    if let TurnOutcome::Aborted { reason } = &outcome {
        log.state(TurnStateEvent::TurnAborted { reason: reason.clone() });
    }
    if !core.usage.is_zero() {
        log.state(TurnStateEvent::TurnTokenUsage { usage: core.usage });
    }
    log.state(TurnStateEvent::TurnFinished { outcome: outcome.replica() });
    Ok(make_step(core, log, TurnPhase::Finished, TurnCommand::Finish { outcome }))
}

/// The thread that a turn begins with.
fn starting_thread(
    thread_id: &str,
    loaded: Result<Thread>,
    metadata: Option<Json>,
) -> (r: Result<Thread>)
    ensures
        outcome_of(r) == initial_thread(thread_id@, outcome_of(loaded), metadata.deep_view()),
{
    match loaded {
        Ok(thread) => Ok(thread),
        Err(AgentError::ThreadNotFound(_)) => {
            let mut thread = Thread::new(thread_id);
            if let Some(metadata) = metadata {
                thread.metadata = metadata;
            }
            Ok(thread)
        },
        Err(error) => Err(error),
    }
}

fn new_core(
    thread_id: &str,
    turn_id: String,
    thread: Thread,
    limits: TurnExecutionLimits,
    sequence: u64,
    suspension_id: String,
) -> (r: TurnCore)
    ensures
        r.deep_view() == initial_core(
            thread_id@,
            turn_id@,
            thread.deep_view(),
            limits,
            sequence,
            suspension_id@,
        ),
{
    TurnCore {
        thread_id: thread_id.to_owned(),
        turn_id,
        thread,
        limits,
        usage: TokenUsage::default(),
        function_call_count: 0,
        first_token_recorded: false,
        iteration: 0,
        sequence,
        suspension_id,
    }
}

impl TurnRun {
    /// Starts a turn with the user's input. A thread that is not stored yet is made, with
    /// `metadata`; the metadata of a stored thread stays as it is.
    pub fn run_turn(
        thread_id: &str,
        loaded: Result<Thread>,
        metadata: Json,
        user_text: String,
        turn_id: String,
        limits: TurnExecutionLimits,
    ) -> (r: Result<TurnStep>)
        ensures
            outcome_of(r) == begin_turn(
                thread_id@,
                outcome_of(loaded),
                metadata.deep_view(),
                user_text@,
                turn_id@,
                limits,
            ),
    {
        let mut thread = match starting_thread(thread_id, loaded, Some(metadata)) {
            Ok(thread) => thread,
            Err(error) => return Err(error),
        };
        if let Some(pending) = ThreadProjection::from_thread(&thread).pending_suspension {
            return Err(
                AgentError::SuspendedTurn {
                    thread_id: thread_id.to_owned(),
                    suspension_id: pending.suspension.id,
                },
            );
        }
        let ghost before = thread.turns.deep_view();
        let turn = Turn {
            id: turn_id.clone(),
            status: TurnStatus::Running,
            items: single(
                TurnItem {
                    source: TurnItemSource::User,
                    kind: TurnItemKind::UserInput { text: user_text.clone(), response_to: None },
                },
            ),
        };
        let ghost added = turn.deep_view();
        thread.turns.push(turn);
        assert(thread.turns.deep_view() =~= before.push(added));
        let none = String::new();
        assert(none@ =~= Seq::empty());
        let core = new_core(thread_id, turn_id, thread, limits, 0, none);
        make_commit(core, EffectLog::new(0), TurnPhase::Opening { text: user_text })
    }

    /// Takes up a turn that was left running.
    ///
    /// Calls that were never started are executed. Calls with a start mark but no output are
    /// retried only when the registered function is idempotent; otherwise the turn is suspended
    /// under `suspension_id`, to be reconciled from outside.
    pub fn recover_turn(
        thread_id: &str,
        loaded: Result<Thread>,
        registry: &FunctionRegistry,
        limits: TurnExecutionLimits,
        sequence: u64,
        suspension_id: String,
    ) -> (r: Result<TurnStep>)
        ensures
            outcome_of(r) == begin_recovery(
                thread_id@,
                outcome_of(loaded),
                registry.deep_view(),
                limits,
                sequence,
                suspension_id@,
            ),
    {
        let thread = match starting_thread(thread_id, loaded, None) {
            Ok(thread) => thread,
            Err(error) => return Err(error),
        };
        let projection = ThreadProjection::from_thread(&thread);
        if let Some(pending) = projection.pending_suspension {
            return Err(
                AgentError::SuspendedTurn {
                    thread_id: thread_id.to_owned(),
                    suspension_id: pending.suspension.id,
                },
            );
        }
        let turn_id = match projection.active_turn_id {
            Some(turn_id) => turn_id,
            None => return Err(AgentError::TurnNotFound(thread_id.to_owned())),
        };
        let (calls, marks) = find_pending(&thread, turn_id.as_str(), registry);
        let core = new_core(thread_id, turn_id, thread, limits, sequence, suspension_id);
        let mut log = EffectLog::new(sequence);
        log.state(
            TurnStateEvent::TurnStarted {
                thread_id: core.thread_id.clone(),
                turn_id: core.turn_id.clone(),
            },
        );
        recover_call(core, log, calls, marks, 0)
    }

    /// What the turn is to be told next.
    pub fn expects(&self) -> (r: Expected)
        ensures
            r == expected_by(self.deep_view().phase),
    {
        match &self.phase {
            TurnPhase::Asking => Expected::Request,
            TurnPhase::Streaming => Expected::Answer,
            TurnPhase::Entering { .. } => Expected::EnteredHooks,
            TurnPhase::Calling { .. } => Expected::Return,
            TurnPhase::RecoveryCalling { .. } => Expected::Return,
            TurnPhase::Leaving { .. } => Expected::LeftHooks,
            TurnPhase::Finished => Expected::Nothing,
            _ => Expected::Commit,
        }
    }

    /// The thread as the turn holds it: what a commit is to store.
    pub fn thread(&self) -> (r: &Thread)
        ensures
            r.deep_view() == self.deep_view().core.thread,
    {
        &self.core.thread
    }

    /// The turn.
    pub fn turn_id(&self) -> (r: &String)
        ensures
            r@ == self.deep_view().core.turn_id,
    {
        &self.core.turn_id
    }

    /// The thread was committed, and is now `thread`; `elapsed` is how long the turn has run.
    pub fn committed(self, thread: Thread, elapsed: TimeSpan) -> (r: Result<TurnStep>)
        requires
            expected_by(self.deep_view().phase) == Expected::Commit,
        ensures
            outcome_of(r)
                == after_commit(self.deep_view(), thread.deep_view(), elapsed.deep_view()),
    {
        proof {
            use_type_invariant(&self);
        }
        let TurnRun { core, phase } = self;
        let mut core = core;
        core.thread = thread;
        let mut log = EffectLog::new(core.sequence);
        match phase {
            TurnPhase::Opening { text } => {
                log.trace(TraceEventKind::UserInput { text, response_to: None });
                log.state(
                    TurnStateEvent::TurnStarted {
                        thread_id: core.thread_id.clone(),
                        turn_id: core.turn_id.clone(),
                    },
                );
                ask_model(core, log)
            },
            TurnPhase::Answering { text } => {
                let none: Vec<ModelFunctionCall> = Vec::new();
                assert(none.deep_view() =~= Seq::empty());
                log.trace(
                    TraceEventKind::ModelResponse {
                        text: Some(text.clone()),
                        function_calls: none,
                    },
                );
                close_turn(core, log, TurnOutcome::AssistantMessage { text })
            },
            TurnPhase::Requested { text, calls } => {
                log.trace(TraceEventKind::ModelResponse { text, function_calls: calls.replica() });
                let remaining: usize = core.limits.max_function_calls.saturating_sub(
                    core.function_call_count,
                );
                let admitted: usize = if calls.len() <= remaining {
                    calls.len()
                } else {
                    remaining
                };
                core.function_call_count = core.function_call_count + admitted;
                begin_call(core, log, calls, admitted, 0)
            },
            TurnPhase::Starting { calls, admitted, index, entered } => {
                let call = calls[index].replica();
                let context = make_function_context(&core, &call);
                Ok(
                    make_step(
                        core,
                        log,
                        TurnPhase::Calling { calls, admitted, index, entered },
                        TurnCommand::CallFunction { call, context },
                    ),
                )
            },
            TurnPhase::Recording { calls, admitted, index, entered, end } => recorded_call(
                core,
                calls,
                admitted,
                index,
                entered,
                end,
            ),
            TurnPhase::Limiting { calls, admitted, error } => {
                let skipped = glue2("function call not executed because ", error.as_str());
                log_limit_reports(&mut log, &calls, admitted, skipped.as_str());
                close_turn(core, log, TurnOutcome::Failed { error })
            },
            TurnPhase::RecoverySuspending { suspension } => suspend_turn(core, log, suspension),
            TurnPhase::RecoveryStarting { calls, marks, index } => {
                log.state(make_started_event(&calls[index]));
                log.trace(make_call_trace(&calls[index]));
                let call = calls[index].replica();
                let context = make_function_context(&core, &call);
                Ok(
                    make_step(
                        core,
                        log,
                        TurnPhase::RecoveryCalling { calls, marks, index },
                        TurnCommand::CallFunction { call, context },
                    ),
                )
            },
            TurnPhase::RecoveryRecording { calls, marks, index, end } => recorded_recovery(
                core,
                calls,
                marks,
                index,
                end,
            ),
            TurnPhase::RecoveryAborting => close_turn(
                core,
                log,
                TurnOutcome::Aborted { reason: "turn aborted by caller".to_owned() },
            ),
            TurnPhase::Closing { outcome } => finish_turn(core, outcome, elapsed),
            _ => Err(AgentError::TurnNotFound(core.turn_id)),
        }
    }

    /// The context of the model request is there.
    pub fn request_built(self) -> (r: Result<TurnStep>)
        requires
            expected_by(self.deep_view().phase) == Expected::Request,
        ensures
            outcome_of(r) == request_built(self.deep_view()),
    {
        proof {
            use_type_invariant(&self);
        }
        let TurnRun { core, .. } = self;
        let mut log = EffectLog::new(core.sequence);
        log.emit(
            TurnStreamEvent::Model(TurnModelEvent::RequestStarted { iteration: core.iteration }),
        );
        Ok(make_step(core, log, TurnPhase::Streaming, TurnCommand::AwaitModel))
    }

    /// The model reports while it answers; `elapsed` is how long the turn has run.
    pub fn model_event(self, event: ModelStreamEvent, elapsed: TimeSpan) -> (r: (
        TurnRun,
        Vec<TurnEffect>,
    ))
        requires
            expected_by(self.deep_view().phase) == Expected::Answer,
        ensures
            ({
                let (core, log) = after_model_event(
                    self.deep_view().core,
                    event.deep_view(),
                    elapsed.deep_view(),
                );
                &&& r.0.deep_view() == (TurnRunView { core, phase: TurnPhaseView::Streaming })
                &&& r.1.deep_view() == log.effects
            }),
    {
        proof {
            use_type_invariant(&self);
        }
        let TurnRun { core, .. } = self;
        let mut core = core;
        let mut log = EffectLog::new(core.sequence);
        match event {
            ModelStreamEvent::OutputProgress => {},
            ModelStreamEvent::AssistantDelta { text } => {
                if !core.first_token_recorded {
                    core.first_token_recorded = true;
                    log.metric(RuntimeMetric::TimeToFirstToken { duration: elapsed });
                }
                log.emit(TurnStreamEvent::Model(TurnModelEvent::AssistantDelta { text }));
            },
            ModelStreamEvent::TokenUsage { usage } => {
                core.usage.add_assign(usage);
            },
        }
        (TurnRun { core, phase: TurnPhase::Streaming }, log.effects)
    }

    /// The model request has ended after `elapsed`: with an answer, with an error, or by an
    /// abort, when there is no `response`.
    pub fn model_finished(self, response: Option<Result<ModelResponse>>, elapsed: TimeSpan) -> (r:
        Result<TurnStep>)
        requires
            expected_by(self.deep_view().phase) == Expected::Answer,
        ensures
            outcome_of(r) == after_model(
                self.deep_view().core,
                returned_of(response),
                elapsed.deep_view(),
            ),
    {
        proof {
            use_type_invariant(&self);
        }
        let TurnRun { core, .. } = self;
        let mut log = EffectLog::new(core.sequence);
        let status = match &response {
            None => MetricStatus::Aborted,
            Some(Ok(_)) => MetricStatus::Completed,
            Some(Err(_)) => MetricStatus::Failed,
        };
        log.metric(RuntimeMetric::ModelRequestFinished { status, duration: elapsed });
        match response {
            None => abort_turn(core, log),
            Some(Err(error)) => fail_turn(core, log, error.text()),
            Some(Ok(response)) => take_answer(core, log, response),
        }
    }

    /// The hooks before a call went as `allowed` says; `entered` of them were passed, and
    /// `elapsed` is how long the call has run.
    pub fn hooks_entered(self, entered: usize, allowed: Result<()>, elapsed: TimeSpan) -> (r: Result<
        TurnStep,
    >)
        requires
            expected_by(self.deep_view().phase) == Expected::EnteredHooks,
        ensures
            ({
                let run = self.deep_view();
                run.phase matches TurnPhaseView::Entering { calls, admitted, index }
                    && outcome_of(r)
                    == after_entering(
                    run.core,
                    calls,
                    admitted,
                    index,
                    entered,
                    outcome_of(allowed),
                    elapsed.deep_view(),
                )
            }),
    {
        proof {
            use_type_invariant(&self);
        }
        let TurnRun { core, phase } = self;
        let mut core = core;
        let log = EffectLog::new(core.sequence);
        match phase {
            TurnPhase::Entering { calls, admitted, index } => match allowed {
                Ok(_) => match core.record(single(make_started_item(&calls[index], 1)), None) {
                    Ok(_) => make_commit(
                        core,
                        log,
                        TurnPhase::Starting { calls, admitted, index, entered },
                    ),
                    Err(error) => Err(error),
                },
                Err(error) => end_call(
                    core,
                    log,
                    calls,
                    admitted,
                    index,
                    entered,
                    Err(error),
                    elapsed,
                ),
            },
            _ => Err(AgentError::TurnNotFound(core.turn_id)),
        }
    }

    /// A function has returned after `elapsed`, or an abort has cut it off, when there is no
    /// `execution`.
    pub fn function_finished(
        self,
        execution: Option<Result<FunctionCallExecution>>,
        elapsed: TimeSpan,
    ) -> (r: Result<TurnStep>)
        requires
            expected_by(self.deep_view().phase) == Expected::Return,
        ensures
            outcome_of(r)
                == after_call(self.deep_view(), returned_of(execution), elapsed.deep_view()),
    {
        proof {
            use_type_invariant(&self);
        }
        let TurnRun { core, phase } = self;
        let log = EffectLog::new(core.sequence);
        match phase {
            TurnPhase::Calling { calls, admitted, index, entered } => match execution {
                Some(execution) => end_call(
                    core,
                    log,
                    calls,
                    admitted,
                    index,
                    entered,
                    execution,
                    elapsed,
                ),
                None => cut_off_call(core, log, calls, index, elapsed),
            },
            TurnPhase::RecoveryCalling { calls, marks, index } => end_recovered_call(
                core,
                calls,
                marks,
                index,
                execution,
                elapsed,
            ),
            _ => Err(AgentError::TurnNotFound(core.turn_id)),
        }
    }

    /// The hooks after a call are through.
    pub fn hooks_left(self) -> (r: Result<TurnStep>)
        requires
            expected_by(self.deep_view().phase) == Expected::LeftHooks,
        ensures
            ({
                let run = self.deep_view();
                run.phase matches TurnPhaseView::Leaving { calls, admitted, index, result }
                    && outcome_of(r) == after_leaving(run.core, calls, admitted, index, result)
            }),
    {
        proof {
            use_type_invariant(&self);
        }
        let TurnRun { core, phase } = self;
        let mut log = EffectLog::new(core.sequence);
        match phase {
            TurnPhase::Leaving { calls, admitted, index, result } => match result {
                FunctionCallHookResult::Completed { .. } => {
                    log.state(make_completed_event(&calls[index]));
                    begin_call(core, log, calls, admitted, index + 1)
                },
                FunctionCallHookResult::Failed { error } => {
                    log.state(make_failure_event(&calls[index], error.as_str()));
                    begin_call(core, log, calls, admitted, index + 1)
                },
                FunctionCallHookResult::Suspended { suspension, .. } => {
                    log.state(make_completed_event(&calls[index]));
                    log.state(TurnStateEvent::Suspended { suspension: suspension.replica() });
                    log_skip_events(
                        &mut log,
                        &calls,
                        index + 1,
                        "function not executed because a previous function suspended the turn",
                    );
                    close_turn(core, log, TurnOutcome::Suspended { suspension })
                },
            },
            _ => Err(AgentError::TurnNotFound(core.turn_id)),
        }
    }
}

} // verus!
