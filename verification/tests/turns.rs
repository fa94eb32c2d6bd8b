use canary_agent::document::parse;
use canary_agent::json::Json;
use canary_agent::kernel::events::{
    GoalStatus, Suspension, SuspensionKind, Thread, TokenUsage, ToolResult, Turn, TurnItem,
    TurnItemKind, TurnItemSource, TurnStatus,
};
use canary_agent::kernel::model::{
    FunctionSpec, ModelFunctionCall, ModelResponse, ModelStreamEvent,
};
use canary_agent::kernel::projection::ThreadProjection;
use canary_agent::runtime::active_turns::{
    hooks_to_leave, make_hook_failure_event, next_hook, ActiveTurns,
};
use canary_agent::runtime::agent_loop::{Expected, TurnCommand, TurnRun, TurnStep};
use canary_agent::runtime::error::{AgentError, Result};
use canary_agent::runtime::functions::{
    builtin_registry, DiscardResolver, FunctionCallExecution, FunctionDescriptor,
    FunctionExecution, FunctionKind, FunctionLimits, FunctionOutputResolver,
    FunctionRecoveryPolicy, FunctionRegistry, RuntimeEffect, SuspensionResolution, UpdateGoal,
};
use canary_agent::runtime::metrics::{
    FunctionCallOutcome, FunctionCallSkipReason, MetricStatus, RuntimeMetric,
};
use canary_agent::runtime::resume::{ResumeCommand, ResumeRun};
use canary_agent::runtime::turn::{
    FunctionCallHookResult, RuntimeEvent, TraceEventKind, TraceTurnStatus, TurnEffect,
    TurnExecutionLimits, TurnModelEvent, TurnOutcome, TurnStateEvent, TurnStreamEvent,
};
use canary_agent::time_span::TimeSpan;

fn json(text: &str) -> Json {
    parse(text).expect("a document")
}

fn call(call_id: &str, name: &str, arguments: &str) -> ModelFunctionCall {
    ModelFunctionCall {
        call_id: call_id.to_string(),
        name: name.to_string(),
        arguments: json(arguments),
    }
}

fn calls(calls: Vec<ModelFunctionCall>) -> ModelResponse {
    ModelResponse::FunctionCalls { calls }
}

fn message(text: &str) -> ModelResponse {
    ModelResponse::AssistantMessage {
        text: text.to_string(),
    }
}

fn answer(text: Option<&str>, function_calls: Vec<ModelFunctionCall>) -> ModelResponse {
    ModelResponse::Assistant {
        continuation: None,
        text: text.map(|text| text.to_string()),
        function_calls,
    }
}

fn describe(name: &str, recovery_policy: FunctionRecoveryPolicy) -> FunctionDescriptor {
    FunctionDescriptor {
        spec: FunctionSpec {
            name: name.to_string(),
            description: "Test-only function.".to_string(),
            parameters: json(
                r#"{"type": "object", "properties": {}, "additionalProperties": false}"#,
            ),
        },
        output_schema: json(r#"{"type": "object"}"#),
        limits: FunctionLimits {
            time_budget: TimeSpan::from_secs(1),
            max_output_bytes: 20 * 1024 * 1024,
        },
        recovery_policy,
    }
}

fn test_registry() -> FunctionRegistry {
    let mut registry = builtin_registry();
    registry.register(describe("test_function", FunctionRecoveryPolicy::Idempotent));
    registry.register(describe("test_suspend", FunctionRecoveryPolicy::NonIdempotent));
    registry.register(describe("test_defer", FunctionRecoveryPolicy::NonIdempotent));
    registry
}

fn run_tool(call: &ModelFunctionCall) -> Result<FunctionExecution> {
    if call.name == "test_suspend" {
        return Ok(FunctionExecution::SuspendedAfterExecution {
            suspension: Suspension {
                id: "test-suspension".to_string(),
                kind: SuspensionKind::LongRunningJob,
                payload: json("{}"),
            },
            output: json(r#"{"status": "suspended"}"#),
        });
    }
    if call.name == "test_defer" {
        return Ok(FunctionExecution::SuspendedBeforeExecution {
            suspension: Suspension {
                id: "deferred".to_string(),
                kind: SuspensionKind::LongRunningJob,
                payload: json(r#"{"deferred": true, "call_id": "c1"}"#),
            },
        });
    }
    Ok(FunctionExecution::Completed {
        output: json(r#"{"ok": true}"#),
    })
}

fn call_function(
    registry: &FunctionRegistry,
    call: &ModelFunctionCall,
) -> Result<FunctionCallExecution> {
    let function = registry.plan_call(&call.name)?;
    let limits = function.descriptor.limits;
    match function.kind {
        FunctionKind::Tool => FunctionRegistry::finish_tool_call(
            &call.name,
            limits,
            Some(run_tool(call)),
            &DiscardResolver,
        ),
        FunctionKind::RuntimeCommand => FunctionRegistry::finish_command_call(
            &call.name,
            limits,
            Some(UpdateGoal::call(&call.arguments)),
            &DiscardResolver,
        ),
    }
}

struct Hook {
    label: &'static str,
    fails_before: bool,
    fails_after: bool,
}

/// A world around a turn: a store, a model that answers from a list, functions and hooks.
struct World {
    stored: Option<Thread>,
    responses: Vec<ModelResponse>,
    usage: Option<TokenUsage>,
    hooks: Vec<Hook>,
    hook_calls: Vec<String>,
    events: Vec<TurnStreamEvent>,
    traces: Vec<TraceEventKind>,
    metrics: Vec<RuntimeMetric>,
    aborted: bool,
    aborts_when_calls_are_requested: bool,
    aborts_during_model_request: bool,
    limits: TurnExecutionLimits,
}

impl World {
    fn new(responses: Vec<ModelResponse>) -> Self {
        World {
            stored: None,
            responses,
            usage: None,
            hooks: vec![],
            hook_calls: vec![],
            events: vec![],
            traces: vec![],
            metrics: vec![],
            aborted: false,
            aborts_when_calls_are_requested: false,
            aborts_during_model_request: false,
            limits: TurnExecutionLimits::default(),
        }
    }

    fn with_hook(mut self, label: &'static str, fails_before: bool, fails_after: bool) -> Self {
        self.hooks.push(Hook {
            label,
            fails_before,
            fails_after,
        });
        self
    }

    fn load(&self, thread_id: &str) -> Result<Thread> {
        match &self.stored {
            Some(thread) => Ok(thread.clone()),
            None => Err(AgentError::ThreadNotFound(thread_id.to_string())),
        }
    }

    fn commit(&mut self, thread: &Thread) -> Thread {
        let mut stored = thread.clone();
        stored.revision.value += 1;
        self.stored = Some(stored.clone());
        stored
    }

    fn note(&mut self, effects: Vec<TurnEffect>) {
        for effect in effects {
            match effect {
                TurnEffect::Emit(event) => {
                    if matches!(
                        event,
                        TurnStreamEvent::State(TurnStateEvent::FunctionCallsRequested { .. })
                    ) && self.aborts_when_calls_are_requested
                    {
                        self.aborted = true;
                    }
                    self.events.push(event);
                }
                TurnEffect::Trace { sequence, kind } => {
                    assert_eq!(sequence as usize, self.traces.len() + 1);
                    self.traces.push(kind);
                }
                TurnEffect::Metric(metric) => self.metrics.push(metric),
            }
        }
    }

    fn drive(&mut self, first: TurnStep) -> Result<TurnOutcome> {
        let registry = test_registry();
        let elapsed = TimeSpan::from_millis(5);
        let mut step = first;
        loop {
            self.note(step.effects);
            let run = step.run;
            step = match step.command {
                TurnCommand::Commit => {
                    assert_eq!(run.expects(), Expected::Commit);
                    let thread = self.commit(run.thread());
                    run.committed(thread, elapsed)?
                }
                TurnCommand::BuildRequest { .. } => {
                    assert_eq!(run.expects(), Expected::Request);
                    run.request_built()?
                }
                TurnCommand::AwaitModel => {
                    assert_eq!(run.expects(), Expected::Answer);
                    let mut run = run;
                    if let Some(usage) = self.usage {
                        let (next, effects) =
                            run.model_event(ModelStreamEvent::TokenUsage { usage }, elapsed);
                        self.note(effects);
                        run = next;
                    }
                    if self.aborts_during_model_request {
                        run.model_finished(None, elapsed)?
                    } else if self.responses.is_empty() {
                        let error = AgentError::Model("no mock response".to_string());
                        run.model_finished(Some(Err(error)), elapsed)?
                    } else {
                        let response = self.responses.remove(0);
                        run.model_finished(Some(Ok(response)), elapsed)?
                    }
                }
                TurnCommand::EnterHooks { context } => {
                    assert_eq!(run.expects(), Expected::EnteredHooks);
                    let mut entered = 0;
                    let mut allowed = Ok(());
                    while let Some(position) = next_hook(self.hooks.len(), entered, &allowed) {
                        let hook = &self.hooks[position];
                        self.hook_calls
                            .push(format!("before:{}:{}", hook.label, context.name));
                        if hook.fails_before {
                            allowed = Err(AgentError::Function {
                                name: context.name.clone(),
                                message: format!("{} blocked call", hook.label),
                            });
                        } else {
                            entered += 1;
                        }
                    }
                    run.hooks_entered(entered, allowed, elapsed)?
                }
                TurnCommand::CallFunction { call, context } => {
                    assert_eq!(run.expects(), Expected::Return);
                    assert_eq!(context.call_id, call.call_id);
                    if self.aborted {
                        run.function_finished(None, elapsed)?
                    } else {
                        run.function_finished(Some(call_function(&registry, &call)), elapsed)?
                    }
                }
                TurnCommand::LeaveHooks {
                    context,
                    result,
                    entered,
                } => {
                    assert_eq!(run.expects(), Expected::LeftHooks);
                    let label = match result {
                        FunctionCallHookResult::Completed { .. } => "completed",
                        FunctionCallHookResult::Suspended { .. } => "waiting",
                        FunctionCallHookResult::Failed { .. } => "failed",
                    };
                    for position in hooks_to_leave(entered) {
                        let hook = &self.hooks[position];
                        self.hook_calls
                            .push(format!("after:{}:{}:{}", hook.label, context.name, label));
                        if hook.fails_after {
                            let error = AgentError::Function {
                                name: context.name.clone(),
                                message: format!("{} post-hook failed", hook.label),
                            };
                            self.events.push(make_hook_failure_event(&context, &error));
                        }
                    }
                    run.hooks_left()?
                }
                TurnCommand::Finish { outcome } => {
                    assert_eq!(run.expects(), Expected::Nothing);
                    return Ok(outcome);
                }
                TurnCommand::Fail { error } => {
                    assert_eq!(run.expects(), Expected::Nothing);
                    return Err(error);
                }
            };
        }
    }

    fn run_turn(&mut self, text: &str, metadata: &str) -> Result<TurnOutcome> {
        let step = TurnRun::run_turn(
            "t",
            self.load("t"),
            json(metadata),
            text.to_string(),
            "turn".to_string(),
            self.limits,
        )?;
        self.drive(step)
    }

    fn recover_turn(&mut self) -> Result<TurnOutcome> {
        let step = TurnRun::recover_turn(
            "t",
            self.load("t"),
            &test_registry(),
            self.limits,
            0,
            "recovery".to_string(),
        )?;
        self.drive(step)
    }

    fn resume(&mut self, id: &str, resolution: SuspensionResolution) -> Result<Option<TurnOutcome>> {
        let registry = test_registry();
        let thread = self.load("t")?;
        assert!(ResumeRun::approval_fits(&thread, id));
        let mut step = ResumeRun::resume_suspended_turn(thread, id, resolution)?;
        loop {
            for event in step.events {
                self.events.push(TurnStreamEvent::State(event));
            }
            let run = step.run;
            step = match step.command {
                ResumeCommand::Commit => {
                    assert!(run.awaits_commit());
                    let thread = self.commit(run.thread());
                    run.committed(thread)
                }
                ResumeCommand::CallFunction { call, .. } => {
                    assert!(run.awaits_return());
                    if self.aborted {
                        run.function_finished(None)?
                    } else {
                        // The call was approved, so it is executed now.
                        let mut approved = call.clone();
                        approved.name = "test_function".to_string();
                        run.function_finished(Some(call_function(&registry, &approved)))?
                    }
                }
                ResumeCommand::Continue => return Ok(None),
                ResumeCommand::Finish { outcome } => return Ok(Some(outcome)),
            };
        }
    }

    fn items(&self) -> &Vec<TurnItem> {
        &self.stored.as_ref().unwrap().turns[0].items
    }

    fn status(&self) -> TurnStatus {
        self.stored.as_ref().unwrap().turns[0].status
    }

    fn has_item(&self, test: &dyn Fn(&TurnItemKind) -> bool) -> bool {
        self.items().iter().any(|item| test(&item.kind))
    }

    fn has_state(&self, test: &dyn Fn(&TurnStateEvent) -> bool) -> bool {
        self.events.iter().any(|event| match event {
            TurnStreamEvent::State(event) => test(event),
            _ => false,
        })
    }
}

fn is_success(kind: &TurnItemKind) -> bool {
    matches!(
        kind,
        TurnItemKind::ToolOutput {
            result: ToolResult::Success { .. },
            ..
        }
    )
}

#[test]
fn simple_assistant_message_ends_turn() {
    let mut world = World::new(vec![message("hello")]);
    let outcome = world.run_turn("hi", "{}").expect("turn");
    assert_eq!(
        outcome,
        TurnOutcome::AssistantMessage {
            text: "hello".to_string()
        }
    );
    let thread = world.load("t").expect("thread");
    assert_eq!(thread.turns.len(), 1);
    assert_eq!(thread.turns[0].status, TurnStatus::Completed);
    assert_eq!(thread.turns[0].items.len(), 2);
}

#[test]
fn injects_metadata_when_creating_a_thread() {
    let mut world = World::new(vec![message("hello")]);
    world
        .run_turn("hi", r#"{"workspace": "/tmp/project"}"#)
        .expect("turn");
    let thread = world.load("t").expect("thread");
    assert_eq!(thread.metadata, json(r#"{"workspace": "/tmp/project"}"#));
}

#[test]
fn empty_model_response_fails_turn() {
    let mut world = World::new(vec![answer(None, vec![])]);
    let outcome = world.run_turn("hello", "{}").expect("turn");
    assert!(
        matches!(outcome, TurnOutcome::Failed { error } if error.contains("neither assistant text nor function calls"))
    );
    assert_eq!(world.status(), TurnStatus::Failed);
}

#[test]
fn persists_assistant_text_when_response_also_requests_tools() {
    let mut world = World::new(vec![
        answer(
            Some("I will check the goal first."),
            vec![call("c1", "test_function", "{}")],
        ),
        answer(Some("The goal is not set."), vec![]),
    ]);
    world.run_turn("check", "{}").expect("turn");
    let messages = world
        .items()
        .iter()
        .filter_map(|item| match &item.kind {
            TurnItemKind::ModelResponse { text, .. } => text.as_deref(),
            _ => None,
        })
        .collect::<Vec<_>>();
    assert_eq!(
        messages,
        vec!["I will check the goal first.", "The goal is not set."]
    );
}

#[test]
fn abort_during_model_request_persists_aborted_turn() {
    let mut world = World::new(vec![]);
    world.aborts_during_model_request = true;
    let outcome = world.run_turn("slow", "{}").expect("turn");
    assert!(matches!(outcome, TurnOutcome::Aborted { .. }));
    let thread = world.load("t").expect("thread");
    assert_eq!(thread.turns.len(), 1);
    assert_eq!(thread.turns[0].status, TurnStatus::Aborted);
    assert!(world.has_item(&|kind| matches!(kind, TurnItemKind::TurnAborted { .. })));
    assert!(world.has_state(&|event| matches!(event, TurnStateEvent::TurnAborted { .. })));
}

#[test]
fn stream_emits_intermediate_and_final_events() {
    let mut world = World::new(vec![
        calls(vec![call("c1", "test_function", "{}")]),
        message("done"),
    ]);
    let outcome = world.run_turn("goal?", "{}").expect("turn");
    assert_eq!(
        outcome,
        TurnOutcome::AssistantMessage {
            text: "done".to_string()
        }
    );
    assert!(world.has_state(&|event| matches!(event, TurnStateEvent::FunctionStarted { .. })));
    assert!(world.has_state(&|event| matches!(event, TurnStateEvent::TurnFinished { .. })));
}

#[test]
fn turn_token_usage_is_emitted_and_persisted_on_thread() {
    let mut world = World::new(vec![message("done")]);
    world.usage = Some(TokenUsage {
        input_tokens: 10,
        cached_input_tokens: 2,
        output_tokens: 4,
        total_tokens: 14,
    });
    let outcome = world.run_turn("usage?", "{}").expect("turn");
    assert!(matches!(outcome, TurnOutcome::AssistantMessage { .. }));
    let usage = world
        .events
        .iter()
        .find_map(|event| match event {
            TurnStreamEvent::State(TurnStateEvent::TurnTokenUsage { usage }) => Some(*usage),
            _ => None,
        })
        .expect("usage event");
    assert_eq!(usage.input_tokens, 10);
    assert_eq!(usage.cached_input_tokens, 2);
    assert_eq!(usage.output_tokens, 4);
    assert_eq!(usage.total_tokens, 14);
    let thread = world.load("t").expect("thread");
    assert_eq!(thread.token_usage, usage);
}

#[test]
fn update_goal_then_message() {
    let mut world = World::new(vec![
        calls(vec![call(
            "c1",
            "update_goal",
            r#"{"objective": "ship", "status": "active"}"#,
        )]),
        message("goal set"),
    ]);
    let outcome = world.run_turn("set a goal", "{}").expect("turn");
    assert_eq!(
        outcome,
        TurnOutcome::AssistantMessage {
            text: "goal set".to_string()
        }
    );
    let thread = world.load("t").expect("thread");
    let projection = ThreadProjection::from_thread(&thread);
    assert_eq!(
        projection.goal.as_ref().map(|goal| goal.objective.as_str()),
        Some("ship")
    );
    assert!(world.has_item(&|kind| matches!(kind, TurnItemKind::GoalUpdated { .. })));
}

#[test]
fn suspended_after_execution_stops_turn() {
    let mut world = World::new(vec![calls(vec![
        call("c1", "test_suspend", r#"{"prompt": "Which one?"}"#),
        call("c2", "test_function", "{}"),
    ])]);
    let outcome = world.run_turn("compare", "{}").expect("turn");
    assert!(matches!(outcome, TurnOutcome::Suspended { .. }));
    assert_eq!(world.status(), TurnStatus::Suspended);
    assert!(world.has_item(&|kind| matches!(kind, TurnItemKind::SuspensionCreated { .. })));
    assert_eq!(
        world
            .items()
            .iter()
            .filter(|item| matches!(item.kind, TurnItemKind::ToolOutput { .. }))
            .count(),
        2
    );
    assert!(world.metrics.iter().any(|metric| matches!(
        metric,
        RuntimeMetric::FunctionCallSkipped {
            reason: FunctionCallSkipReason::PreviousFunctionSuspended,
            ..
        }
    )));
    let error = world.run_turn("another prompt", "{}").unwrap_err();
    assert!(matches!(error, AgentError::SuspendedTurn { .. }));
}

#[test]
fn function_failure_becomes_tool_error() {
    let mut world = World::new(vec![
        calls(vec![call("c1", "missing", "{}")]),
        message("could not call it"),
    ]);
    let outcome = world.run_turn("call missing", "{}").expect("turn");
    assert!(matches!(outcome, TurnOutcome::AssistantMessage { .. }));
    assert!(world.has_item(&|kind| matches!(
        kind,
        TurnItemKind::ToolOutput {
            result: ToolResult::Error { .. },
            ..
        }
    )));
}

#[test]
fn function_call_hooks_are_stacked_in_order() {
    let mut world = World::new(vec![
        calls(vec![call("c1", "test_function", "{}")]),
        message("done"),
    ])
    .with_hook("a", false, false)
    .with_hook("b", false, false);
    let outcome = world.run_turn("goal?", "{}").expect("turn");
    assert!(matches!(outcome, TurnOutcome::AssistantMessage { .. }));
    assert_eq!(
        world.hook_calls,
        vec![
            "before:a:test_function",
            "before:b:test_function",
            "after:b:test_function:completed",
            "after:a:test_function:completed",
        ]
    );
}

#[test]
fn pre_hook_failure_blocks_function_and_records_tool_error() {
    let mut world = World::new(vec![
        calls(vec![call("c1", "test_function", "{}")]),
        message("blocked"),
    ])
    .with_hook("audit", false, false)
    .with_hook("policy", true, false);
    let outcome = world.run_turn("goal?", "{}").expect("turn");
    assert!(matches!(outcome, TurnOutcome::AssistantMessage { .. }));
    assert_eq!(
        world.hook_calls,
        vec![
            "before:audit:test_function",
            "before:policy:test_function",
            "after:audit:test_function:failed",
        ]
    );
    let tool_outputs = world
        .items()
        .iter()
        .filter(|item| matches!(item.kind, TurnItemKind::ToolOutput { .. }))
        .count();
    assert_eq!(tool_outputs, 1);
    assert!(world.has_item(&|kind| matches!(
        kind,
        TurnItemKind::ToolOutput {
            call_id,
            name,
            result: ToolResult::Error { error },
        } if call_id == "c1" && name == "test_function" && error.contains("policy blocked call")
    )));
}

#[test]
fn post_hook_failure_is_non_blocking_runtime_event() {
    let mut world = World::new(vec![
        calls(vec![call("c1", "test_function", "{}")]),
        message("done"),
    ])
    .with_hook("audit", false, true);
    let outcome = world.run_turn("goal?", "{}").expect("turn");
    assert_eq!(
        outcome,
        TurnOutcome::AssistantMessage {
            text: "done".to_string()
        }
    );
    assert_eq!(
        world.hook_calls,
        vec![
            "before:audit:test_function",
            "after:audit:test_function:completed"
        ]
    );
    assert!(world.events.iter().any(|event| matches!(
        event,
        TurnStreamEvent::Runtime(RuntimeEvent { source, message, metadata })
            if source == "function_call_hook"
                && message == "post-hook failed"
                && metadata.get_text("name").unwrap() == "test_function"
                && metadata.get_text("call_id").unwrap() == "c1"
                && metadata.get_text("error").unwrap().contains("audit post-hook failed")
    )));
    assert!(world.has_item(&is_success));
}

#[test]
fn max_iterations_fails_turn() {
    let mut world = World::new(vec![calls(vec![call("c1", "test_function", "{}")])]);
    world.limits.max_model_iterations = 1;
    let outcome = world.run_turn("goal?", "{}").expect("turn");
    assert!(matches!(outcome, TurnOutcome::Failed { .. }));
    assert_eq!(world.status(), TurnStatus::Failed);
    assert!(world.has_item(&|kind| matches!(kind, TurnItemKind::TurnFailed { .. })));
}

#[test]
fn function_call_limit_records_skipped_calls_and_fails_turn() {
    let mut world = World::new(vec![calls(vec![
        call("c1", "test_function", "{}"),
        call("c2", "test_function", "{}"),
    ])]);
    world.limits = TurnExecutionLimits {
        max_model_iterations: 4,
        max_function_calls: 1,
    };
    let outcome = world.run_turn("call twice", "{}").expect("turn");
    assert!(
        matches!(outcome, TurnOutcome::Failed { ref error } if error.contains("max function calls"))
    );
    assert_eq!(world.status(), TurnStatus::Failed);
    assert!(world.has_item(&|kind| matches!(
        kind,
        TurnItemKind::ToolOutput { call_id, result: ToolResult::Success { .. }, .. }
            if call_id == "c1"
    )));
    assert!(world.has_item(&|kind| matches!(
        kind,
        TurnItemKind::ToolOutput { call_id, result: ToolResult::Error { error }, .. }
            if call_id == "c2" && error.contains("max function calls")
    )));
    assert!(world.metrics.iter().any(|metric| matches!(
        metric,
        RuntimeMetric::FunctionCallSkipped {
            reason: FunctionCallSkipReason::MaxCallsPerTurn,
            ..
        }
    )));
}

#[test]
fn cancellation_wins_before_an_immediate_function_starts() {
    let mut world = World::new(vec![calls(vec![call("c1", "test_function", "{}")])]);
    world.aborts_when_calls_are_requested = true;
    let outcome = world.run_turn("run it", "{}").expect("turn");
    assert!(matches!(outcome, TurnOutcome::Aborted { .. }));
    assert_eq!(world.status(), TurnStatus::Aborted);
    assert!(!world.has_item(&is_success));
    assert!(world.metrics.iter().any(|metric| matches!(
        metric,
        RuntimeMetric::FunctionCallFinished {
            outcome: FunctionCallOutcome::Aborted,
            ..
        }
    )));
}

fn interrupted(items: Vec<TurnItem>) -> Thread {
    let mut thread = Thread::new("t");
    thread.turns.push(Turn {
        id: "turn".to_string(),
        status: TurnStatus::Running,
        items,
    });
    thread
}

fn requested(name: &str) -> TurnItem {
    TurnItem {
        source: TurnItemSource::Model,
        kind: TurnItemKind::ModelResponse {
            text: None,
            function_calls: vec![call("c1", name, "{}")],
            continuation: None,
        },
    }
}

fn started(name: &str, attempt: u32) -> TurnItem {
    TurnItem {
        source: TurnItemSource::Runtime,
        kind: TurnItemKind::FunctionCallStarted {
            call_id: "c1".to_string(),
            name: name.to_string(),
            attempt,
        },
    }
}

fn is_started(kind: &TurnItemKind, wanted: u32) -> bool {
    matches!(
        kind,
        TurnItemKind::FunctionCallStarted { call_id, attempt, .. }
            if call_id == "c1" && *attempt == wanted
    )
}

#[test]
fn recovery_retries_idempotent_started_call_before_next_model_step() {
    let mut world = World::new(vec![message("recovered")]);
    world.stored = Some(interrupted(vec![
        TurnItem {
            source: TurnItemSource::User,
            kind: TurnItemKind::UserInput {
                text: "continue".to_string(),
                response_to: None,
            },
        },
        requested("test_function"),
        started("test_function", 1),
    ]));
    let outcome = world.recover_turn().expect("recovery");
    assert_eq!(
        outcome,
        TurnOutcome::AssistantMessage {
            text: "recovered".to_string()
        }
    );
    assert!(world.has_item(&|kind| matches!(
        kind,
        TurnItemKind::ToolOutput { call_id, result: ToolResult::Success { .. }, .. }
            if call_id == "c1"
    )));
    assert!(world.has_item(&|kind| is_started(kind, 2)));
}

#[test]
fn recovery_suspends_non_idempotent_started_call() {
    let mut world = World::new(vec![]);
    world.stored = Some(interrupted(vec![
        requested("test_suspend"),
        started("test_suspend", 1),
    ]));
    let outcome = world.recover_turn().expect("recovery");
    assert!(matches!(outcome, TurnOutcome::Suspended { ref suspension }
        if suspension.kind == SuspensionKind::FunctionRecovery && suspension.id == "recovery"));
    assert_eq!(world.status(), TurnStatus::Suspended);
    assert!(world.traces.iter().any(|kind| matches!(
        kind,
        TraceEventKind::RecoveryStarted { call_id, attempt: 2, .. } if call_id == "c1"
    )));
    assert!(world.traces.iter().any(|kind| matches!(
        kind,
        TraceEventKind::SuspensionCreated { suspension }
            if suspension.kind == SuspensionKind::FunctionRecovery
    )));
}

#[test]
fn recovery_executes_call_without_a_started_marker() {
    let mut world = World::new(vec![message("continued")]);
    world.stored = Some(interrupted(vec![requested("test_function")]));
    let outcome = world.recover_turn().expect("recovery");
    assert_eq!(
        outcome,
        TurnOutcome::AssistantMessage {
            text: "continued".to_string()
        }
    );
    assert!(world.has_item(&|kind| is_started(kind, 1)));
    assert!(world.has_item(&|kind| matches!(
        kind,
        TurnItemKind::ToolOutput { call_id, result: ToolResult::Success { .. }, .. }
            if call_id == "c1"
    )));
}

#[test]
fn recovery_fails_with_a_function_that_is_gone() {
    let mut world = World::new(vec![]);
    world.stored = Some(interrupted(vec![requested("gone")]));
    assert_eq!(
        world.recover_turn(),
        Err(AgentError::FunctionNotFound("gone".to_string()))
    );
    assert!(matches!(
        world.events.first(),
        Some(TurnStreamEvent::State(TurnStateEvent::TurnStarted { .. }))
    ));
}

#[test]
fn recovery_needs_a_running_turn() {
    let mut world = World::new(vec![]);
    assert_eq!(
        world.recover_turn(),
        Err(AgentError::TurnNotFound("t".to_string()))
    );
    world.stored = Some(Thread::new("t"));
    assert_eq!(
        world.recover_turn(),
        Err(AgentError::TurnNotFound("t".to_string()))
    );
}

#[test]
fn a_model_that_fails_ends_the_turn() {
    let mut world = World::new(vec![]);
    let outcome = world.run_turn("hi", "{}").expect("turn");
    assert!(
        matches!(&outcome, TurnOutcome::Failed { error } if error.contains("no mock response"))
    );
    assert!(world.metrics.iter().any(|metric| matches!(
        metric,
        RuntimeMetric::ModelRequestFinished {
            status: MetricStatus::Failed,
            ..
        }
    )));
    assert_eq!(
        world.traces.last(),
        Some(&TraceEventKind::TurnFinished {
            status: TraceTurnStatus::Failed
        })
    );
}

#[test]
fn the_first_delta_is_timed_once() {
    let step = TurnRun::run_turn(
        "t",
        Err(AgentError::ThreadNotFound("t".to_string())),
        json("{}"),
        "hi".to_string(),
        "turn".to_string(),
        TurnExecutionLimits::default(),
    )
    .unwrap();
    let thread = step.run.thread().clone();
    let elapsed = TimeSpan::from_millis(3);
    let step = step.run.committed(thread, elapsed).unwrap();
    let step = step.run.request_built().unwrap();
    let delta = |text: &str| ModelStreamEvent::AssistantDelta {
        text: text.to_string(),
    };
    let (run, first) = step.run.model_event(delta("a"), elapsed);
    let (run, second) = run.model_event(delta("b"), elapsed);
    let (_, progress) = run.model_event(ModelStreamEvent::OutputProgress, elapsed);
    assert_eq!(
        first,
        vec![
            TurnEffect::Metric(RuntimeMetric::TimeToFirstToken { duration: elapsed }),
            TurnEffect::Emit(TurnStreamEvent::Model(TurnModelEvent::AssistantDelta {
                text: "a".to_string()
            })),
        ]
    );
    assert_eq!(second.len(), 1);
    assert!(progress.is_empty());
}

#[test]
fn a_turn_needs_a_store_that_answers() {
    let error = TurnRun::run_turn(
        "t",
        Err(AgentError::Serialization("broken".to_string())),
        json("{}"),
        "hi".to_string(),
        "turn".to_string(),
        TurnExecutionLimits::default(),
    )
    .unwrap_err();
    assert_eq!(error, AgentError::Serialization("broken".to_string()));
}

#[test]
fn an_approved_call_is_executed_in_its_turn() {
    let mut world = World::new(vec![calls(vec![call("c1", "test_defer", "{}")])]);
    let outcome = world.run_turn("run it", "{}").expect("turn");
    assert!(matches!(outcome, TurnOutcome::Suspended { .. }));
    let before = world.items().len();
    let resumed = world.resume("deferred", SuspensionResolution::Approve).unwrap();
    assert_eq!(resumed, None);
    let thread = world.load("t").unwrap();
    assert_eq!(thread.turns.len(), 1);
    assert_eq!(world.status(), TurnStatus::Running);
    assert_eq!(world.items().len(), before + 2);
    assert!(world.has_item(&|kind| is_started(kind, 2)));
    assert!(world.has_item(&is_success));
    assert!(world.has_state(&|event| matches!(event, TurnStateEvent::FunctionCompleted { .. })));
}

#[test]
fn a_denied_call_is_answered_with_the_reason() {
    let mut world = World::new(vec![calls(vec![call("c1", "test_defer", "{}")])]);
    world.run_turn("run it", "{}").expect("turn");
    let resumed = world
        .resume(
            "deferred",
            SuspensionResolution::Deny {
                reason: "too risky".to_string(),
            },
        )
        .unwrap();
    assert_eq!(resumed, None);
    assert!(world.has_item(&|kind| matches!(
        kind,
        TurnItemKind::ToolOutput { result: ToolResult::Error { error }, .. }
            if error == "execution denied by user: too risky"
    )));
    assert!(!world.has_item(&|kind| is_started(kind, 2)));
}

#[test]
fn an_aborted_resumption_closes_the_turn() {
    let mut world = World::new(vec![calls(vec![call("c1", "test_defer", "{}")])]);
    world.run_turn("run it", "{}").expect("turn");
    world.aborted = true;
    let resumed = world.resume("deferred", SuspensionResolution::Approve).unwrap();
    assert!(matches!(resumed, Some(TurnOutcome::Aborted { .. })));
    assert_eq!(world.status(), TurnStatus::Aborted);
}

#[test]
fn a_suspension_is_resolved_by_its_id_and_in_its_way() {
    let mut world = World::new(vec![calls(vec![call("c1", "test_defer", "{}")])]);
    world.run_turn("run it", "{}").expect("turn");
    assert!(matches!(
        world.resume("other", SuspensionResolution::Approve),
        Err(AgentError::TurnNotFound(id)) if id == "other"
    ));
    let input = || SuspensionResolution::UserInput {
        text: "go on".to_string(),
    };
    assert!(matches!(
        world.resume("deferred", input()),
        Err(AgentError::Function { message, .. })
            if message == "a pre-execution suspension requires approval or denial"
    ));
    assert!(matches!(
        world.resume(
            "deferred",
            SuspensionResolution::ExternalResult { output: Json::Null }
        ),
        Err(AgentError::Function { message, .. })
            if message == "unsupported suspension resolution"
    ));

    let mut world = World::new(vec![calls(vec![call("c1", "test_suspend", "{}")])]);
    world.run_turn("run it", "{}").expect("turn");
    assert!(matches!(
        world.resume("test-suspension", SuspensionResolution::Approve),
        Err(AgentError::Function { message, .. })
            if message == "suspension does not identify a resumable call"
    ));
    assert_eq!(world.resume("test-suspension", input()).unwrap(), None);
    assert_eq!(world.status(), TurnStatus::Running);
    assert!(world.has_item(&|kind| matches!(
        kind,
        TurnItemKind::UserInput { text, response_to: Some(id) }
            if text == "go on" && id == "test-suspension"
    )));
}

#[test]
fn functions_update_goal_returns_runtime_effect() {
    let registry = builtin_registry();
    let execution = call_function(
        &registry,
        &call(
            "call",
            "update_goal",
            r#"{"objective": "ship v1", "status": "active"}"#,
        ),
    )
    .expect("call");
    let FunctionCallExecution::Completed { effects, .. } = execution else {
        panic!("expected completion");
    };
    assert!(matches!(
        effects.as_slice(),
        [RuntimeEffect::SetGoal(goal)] if goal.status == GoalStatus::Active
    ));
}

#[test]
fn update_goal_says_what_is_wrong_with_arguments() {
    let said = |arguments: &str| match UpdateGoal::call(&json(arguments)) {
        Err(AgentError::InvalidFunctionArguments { message, .. }) => message,
        _ => panic!("accepted {arguments}"),
    };
    assert_eq!(
        said(r#"{"objective": "o", "status": "done"}"#),
        "unknown variant `done`, expected one of `active`, `complete`, `blocked`"
    );
    assert_eq!(said(r#"{"status": "active"}"#), "missing field `objective`");
    assert_eq!(said(r#"{"objective": "o"}"#), "missing field `status`");
    assert_eq!(
        said(r#"{"objective": 1, "status": 2, "notes": 3}"#),
        "invalid type: integer `3`, expected a string"
    );
    assert_eq!(
        said(r#"{"objective": "o", "status": 2.5}"#),
        "invalid type: floating point `2.5`, expected string or map"
    );
    assert_eq!(
        said(r#"{"objective": "o", "status": {"active": null, "x": 1}}"#),
        "invalid value: map, expected map with a single key"
    );
    assert_eq!(
        said(r#"{"objective": "o", "status": {"active": "x"}}"#),
        "invalid type: string \"x\", expected unit"
    );
    assert_eq!(
        said(r#"["o", "active"]"#),
        "invalid length 2, expected struct UpdateGoalArgs with 3 elements"
    );
    assert_eq!(
        said(r#"["o", "active", null, 4]"#),
        "invalid length 4, expected fewer elements in array"
    );
    assert_eq!(said("null"), "invalid type: null, expected struct UpdateGoalArgs");
    assert!(UpdateGoal::call(&json(r#"["o", {"blocked": null}, null]"#)).is_ok());
}

#[test]
fn update_goal_refuses_wrong_arguments() {
    for arguments in ["{}", r#"{"objective": "x", "status": "done"}"#, "[]"] {
        assert!(matches!(
            UpdateGoal::call(&json(arguments)),
            Err(AgentError::InvalidFunctionArguments { name, .. }) if name == "update_goal"
        ));
    }
}

fn limited(name: &str, time_budget: TimeSpan, max_output_bytes: usize) -> FunctionRegistry {
    let mut registry = FunctionRegistry::new();
    let mut descriptor = describe(name, FunctionRecoveryPolicy::Idempotent);
    descriptor.limits = FunctionLimits {
        time_budget,
        max_output_bytes,
    };
    registry.register(descriptor);
    registry
}

fn large_output() -> Option<Result<FunctionExecution>> {
    Some(Ok(FunctionExecution::Completed {
        output: Json::text("this output is too large"),
    }))
}

#[test]
fn function_calls_are_stopped_at_the_declared_time_budget() {
    let registry = limited("never_finishes", TimeSpan::from_millis(10), 20 * 1024 * 1024);
    let function = registry.plan_call("never_finishes").unwrap();
    let error = FunctionRegistry::finish_tool_call(
        "never_finishes",
        function.descriptor.limits,
        None,
        &DiscardResolver,
    )
    .expect_err("call should time out");
    assert!(matches!(
        error,
        AgentError::FunctionTimeout { name, timeout_ms }
            if name == "never_finishes" && timeout_ms == 10
    ));
}

#[test]
fn function_output_is_checked_against_the_declared_limit() {
    let registry = limited("large_output", TimeSpan::from_secs(1), 10);
    let function = registry.plan_call("large_output").unwrap();
    let error = FunctionRegistry::finish_tool_call(
        "large_output",
        function.descriptor.limits,
        large_output(),
        &DiscardResolver,
    )
    .expect_err("output should exceed its limit");
    assert!(matches!(
        error,
        AgentError::FunctionOutputTooLarge { name, max_bytes }
            if name == "large_output" && max_bytes == 10
    ));
}

struct ReplaceLargeOutput {
    by: &'static str,
}

impl FunctionOutputResolver for ReplaceLargeOutput {
    fn resolve(&self, _: &str, _: Json, _: usize) -> Result<Json> {
        Ok(Json::text(self.by))
    }
}

#[test]
fn custom_output_resolver_can_replace_large_output() {
    let registry = limited("large_output", TimeSpan::from_secs(1), 10);
    let function = registry.plan_call("large_output").unwrap();
    let execution = FunctionRegistry::finish_tool_call(
        "large_output",
        function.descriptor.limits,
        large_output(),
        &ReplaceLargeOutput { by: "ok" },
    )
    .expect("resolver should handle large output");
    let FunctionCallExecution::Completed { output, .. } = execution else {
        panic!("expected completed function call");
    };
    assert_eq!(output, Json::text("ok"));
    // What the resolver makes is held to the limit too.
    assert!(FunctionRegistry::finish_tool_call(
        "large_output",
        function.descriptor.limits,
        large_output(),
        &ReplaceLargeOutput {
            by: "still far too large"
        },
    )
    .is_err());
}

#[test]
fn limits_without_room_are_refused() {
    assert!(matches!(
        limited("f", TimeSpan::from_secs(0), 10).plan_call("f"),
        Err(AgentError::InvalidFunctionTimeout { name }) if name == "f"
    ));
    assert!(matches!(
        limited("f", TimeSpan::from_secs(1), 0).plan_call("f"),
        Err(AgentError::InvalidFunctionOutputLimit { name }) if name == "f"
    ));
    assert!(matches!(
        limited("f", TimeSpan::from_secs(1), 1).plan_call("g"),
        Err(AgentError::FunctionNotFound(name)) if name == "g"
    ));
}

#[test]
fn functions_are_told_in_the_order_of_their_names() {
    let registry = test_registry();
    let names = registry
        .specs()
        .into_iter()
        .map(|spec| spec.name)
        .collect::<Vec<_>>();
    assert_eq!(
        names,
        vec!["test_defer", "test_function", "test_suspend", "update_goal"]
    );
    assert_eq!(registry.descriptors().len(), 4);
    assert_eq!(
        registry.recovery_policy("test_suspend").unwrap(),
        FunctionRecoveryPolicy::NonIdempotent
    );
}

#[test]
fn a_thread_has_one_turn_at_a_time() {
    let mut active = ActiveTurns::new();
    let first = active.register_active_turn("t").unwrap();
    assert_eq!(
        active.register_active_turn("t"),
        Err(AgentError::TurnAlreadyActive("t".to_string()))
    );
    let other = active.register_active_turn("u").unwrap();
    assert_ne!(first, other);
    assert_eq!(active.abort("t"), Ok(first));
    active.release("t", other);
    assert_eq!(active.abort("t"), Ok(first));
    active.release("t", first);
    assert_eq!(
        active.abort("t"),
        Err(AgentError::TurnNotActive("t".to_string()))
    );
    assert_eq!(active.abort("u"), Ok(other));
    assert!(active.register_active_turn("t").is_ok());
}

#[test]
fn errors_say_what_happened() {
    for (error, text) in [
        (
            AgentError::TurnAlreadyActive("t".to_string()),
            "turn already active: t",
        ),
        (AgentError::MaxIterations(3), "max iterations exceeded: 3"),
        (AgentError::MaxFunctionCalls(7), "max function calls exceeded: 7"),
        (
            AgentError::FunctionTimeout {
                name: "f".to_string(),
                timeout_ms: 1500,
            },
            "function f timed out after 1500 ms",
        ),
    ] {
        assert_eq!(error.text(), text);
    }
}

#[test]
fn hooks_are_entered_in_order_until_one_fails() {
    assert_eq!(next_hook(2, 0, &Ok(())), Some(0));
    assert_eq!(next_hook(2, 1, &Ok(())), Some(1));
    assert_eq!(next_hook(2, 2, &Ok(())), None);
    let failed = Err(AgentError::Function {
        name: "f".to_string(),
        message: "no".to_string(),
    });
    assert_eq!(next_hook(2, 1, &failed), None);
}

#[test]
fn hooks_are_left_in_reverse_order() {
    assert_eq!(hooks_to_leave(0), Vec::<usize>::new());
    assert_eq!(hooks_to_leave(3), vec![2, 1, 0]);
}

#[test]
fn approvals_count_the_attempt_only_where_they_start_one() {
    let mut thread = interrupted(vec![
        requested("test_defer"),
        TurnItem {
            source: TurnItemSource::Runtime,
            kind: TurnItemKind::SuspensionCreated {
                suspension: Suspension {
                    id: "s1".to_string(),
                    kind: SuspensionKind::LongRunningJob,
                    payload: json(r#"{"deferred": true, "call_id": "c1", "attempt": 4294967295}"#),
                },
            },
        },
    ]);
    thread.turns[0].status = TurnStatus::Suspended;
    assert!(!ResumeRun::approval_fits(&thread, "s1"));
    assert!(ResumeRun::approval_fits(&thread, "s2"));
    assert!(
        ResumeRun::resume_suspended_turn(thread, "s2", SuspensionResolution::Approve).is_err()
    );
}
