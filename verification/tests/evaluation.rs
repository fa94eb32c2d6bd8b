use canary_agent::document::parse;
use canary_agent::eval::action::{AgentAction, AgentActionEvent, AgentActionStatus};
use canary_agent::eval::decision_tool::{
    read_decision, EnvironmentDecisionSink, EnvironmentDecisionTool,
};
use canary_agent::eval::environment::{apply_deltas, apply_node};
use canary_agent::eval::error::{EvalError, Result};
use canary_agent::eval::graph_environment::{
    EnvironmentController, EvalEnvironment, GraphEnvironment, ObservationRealizer,
};
use canary_agent::eval::policy::{
    make_policy_metadata, render_policy_input, ActionCollector, EvaluatedPolicy, Referee,
    RefereeInput,
};
use canary_agent::eval::program::{
    ConstraintDelta, ConstraintId, ConstraintOperation, NodeId, TaskCase, TaskGraph, TaskNode,
    TaskTransition, TransitionId, TransitionKind,
};
use canary_agent::eval::runner::{EvalRunner, EvalRunnerComponents, EvalRunnerConfig};
use canary_agent::eval::state::{
    ConstraintExposure, ConstraintLedger, EnvironmentControllerInput, EnvironmentDecision,
    EnvironmentEventKind, EnvironmentObservation, EnvironmentStatus, ObservationCause,
    ObservationContent, ObservationRealizerInput, TerminationReason,
};
use canary_agent::eval::vm::{
    AgentObservation, AgentObservationStatus, EvalEventKind, EvalPhase, EvalProgram, EvalVm,
    EvalVmStatus, SimulatedUserCommand, TransitionDelivery,
};
use canary_agent::json::Json;
use canary_agent::runtime::error::AgentError;
use canary_agent::runtime::functions::FunctionExecution;
use canary_agent::runtime::turn::{
    TurnModelEvent, TurnOutcome, TurnStateEvent, TurnStreamEvent,
};
use canary_agent::text_map::TextMap;
use std::cell::Cell;

fn json(text: &str) -> Json {
    parse(text).expect("a document")
}

fn add(id: &str, value: Json) -> ConstraintDelta {
    ConstraintDelta {
        operation: ConstraintOperation::Add {
            id: ConstraintId::from(id),
            value,
        },
        provenance: None,
    }
}

fn node(id: &str, constraints: Vec<ConstraintDelta>, terminal: bool) -> TaskNode {
    TaskNode {
        id: NodeId::from(id),
        constraints,
        result_obligation: None,
        evidence_obligation: None,
        terminal,
    }
}

fn transition(id: &str, from: &str, to: &str) -> TaskTransition {
    TaskTransition {
        id: TransitionId::from(id),
        from: NodeId::from(from),
        to: NodeId::from(to),
        kind: TransitionKind::Progress,
    }
}

fn case(id: &str, nodes: Vec<TaskNode>, transitions: Vec<TaskTransition>) -> TaskCase {
    TaskCase {
        id: id.to_string(),
        version: "1".to_string(),
        start: NodeId::from("start"),
        nodes,
        transitions,
    }
}

fn done_action() -> AgentAction {
    AgentAction {
        status: AgentActionStatus::Completed,
        assistant_text: "done".to_string(),
        events: Vec::<AgentActionEvent>::new(),
    }
}

/// Decides the same at every step.
struct Decides(fn() -> EnvironmentDecision);

impl EnvironmentController for Decides {
    fn decide(&self, _: EnvironmentControllerInput) -> Result<EnvironmentDecision> {
        Ok((self.0)())
    }
}

fn take(transition: &str) -> EnvironmentDecision {
    EnvironmentDecision::Transition {
        transition: TransitionId::from(transition),
        evidence: Vec::new(),
        reason: "completed".to_string(),
    }
}

struct StaticRealizer;

impl ObservationRealizer for StaticRealizer {
    fn realize(&self, input: ObservationRealizerInput) -> Result<ObservationContent> {
        Ok(ObservationContent {
            user_text: match &input.cause {
                ObservationCause::Reset => "start".to_string(),
                _ => "continue".to_string(),
            },
            exposures: match &input.cause {
                ObservationCause::Reset => vec![
                    ConstraintExposure::Disclose {
                        constraint: ConstraintId::from("premise"),
                    },
                    ConstraintExposure::Derive {
                        constraint: ConstraintId::from("computed"),
                        inputs: vec![ConstraintId::from("premise")],
                        rule: "copy premise".to_string(),
                    },
                    ConstraintExposure::ProvideContext {
                        constraint: ConstraintId::from("context"),
                        source: "evaluation fixture".to_string(),
                    },
                ],
                _ => Vec::new(),
            },
            metadata: Json::Null,
        })
    }
}

fn graph() -> TaskGraph {
    case(
        "environment",
        vec![
            node(
                "start",
                vec![
                    add("premise", Json::text("known premise")),
                    add("computed", Json::text("derived value")),
                    add("context", Json::Bool(true)),
                    add("unexposed", Json::text("hidden")),
                ],
                false,
            ),
            node("done", vec![], true),
        ],
        vec![transition("finish", "start", "done")],
    )
    .compile()
    .expect("task graph")
}

#[test]
fn observation_atomically_records_exposures_and_filters_unexposed_state() {
    let mut environment =
        GraphEnvironment::new(graph(), Decides(|| take("finish")), StaticRealizer)
            .expect("environment");

    let initial = environment.reset().expect("reset");
    assert_eq!(initial.status, EnvironmentStatus::Running);
    assert_eq!(
        initial.observation.expect("observation").visible_state,
        json(
            r#"{"context": true, "computed": "derived value", "premise": "known premise"}"#
        )
    );

    let events = environment.trajectory();
    let exposures = events
        .iter()
        .find_map(|event| match &event.kind {
            EnvironmentEventKind::ObservationEmitted { exposures, .. } => Some(exposures),
            _ => None,
        })
        .expect("observation event");
    assert_eq!(exposures.len(), 3);
    assert!(exposures
        .iter()
        .all(|record| record.observation_sequence == 2));
    assert!(!environment
        .state()
        .exposures
        .contains(&ConstraintId::from("unexposed")));

    let output = environment.step(done_action()).expect("step");
    assert_eq!(output.status, EnvironmentStatus::Terminated);
    assert!(output.observation.is_none());
    assert!(environment
        .state()
        .exposures
        .contains(&ConstraintId::from("premise")));
    assert!(matches!(
        environment.state().termination,
        Some(TerminationReason::TerminalNode { .. })
    ));
    // The events are numbered as they come.
    for (i, event) in environment.trajectory().iter().enumerate() {
        assert_eq!(event.sequence, i as u64 + 1);
    }
    // The end is final.
    assert!(environment.step(done_action()).is_err());
}

/// Exposes what it is given, at every observation.
struct Exposes(fn() -> Vec<ConstraintExposure>);

impl ObservationRealizer for Exposes {
    fn realize(&self, _: ObservationRealizerInput) -> Result<ObservationContent> {
        Ok(ObservationContent {
            user_text: "observation".to_string(),
            exposures: (self.0)(),
            metadata: Json::Null,
        })
    }
}

fn disclose(constraint: &str) -> ConstraintExposure {
    ConstraintExposure::Disclose {
        constraint: ConstraintId::from(constraint),
    }
}

fn twice() -> Vec<ConstraintExposure> {
    vec![
        disclose("premise"),
        ConstraintExposure::ProvideContext {
            constraint: ConstraintId::from("premise"),
            source: "duplicate".to_string(),
        },
    ]
}

#[test]
fn invalid_exposure_does_not_partially_update_the_ledger() {
    let mut environment =
        GraphEnvironment::new(graph(), Decides(|| take("finish")), Exposes(twice))
            .expect("environment");

    let error = environment.reset().expect_err("duplicate exposure");
    assert!(error.text().contains("already exposed"));
    assert!(environment.state().exposures.records.is_empty());
    assert!(!environment
        .trajectory()
        .iter()
        .any(|event| matches!(event.kind, EnvironmentEventKind::ObservationEmitted { .. })));
}

fn unknown() -> Vec<ConstraintExposure> {
    vec![disclose("nowhere")]
}

fn early() -> Vec<ConstraintExposure> {
    vec![ConstraintExposure::Derive {
        constraint: ConstraintId::from("computed"),
        inputs: vec![ConstraintId::from("premise")],
        rule: "copy premise".to_string(),
    }]
}

#[test]
fn exposures_speak_of_active_constraints_and_exposed_inputs() {
    for exposures in [unknown as fn() -> Vec<ConstraintExposure>, early] {
        let mut environment =
            GraphEnvironment::new(graph(), Decides(|| take("finish")), Exposes(exposures))
                .expect("environment");
        assert!(environment.reset().is_err());
        assert!(environment.state().exposures.records.is_empty());
    }
}

struct RevisionRealizer;

impl ObservationRealizer for RevisionRealizer {
    fn realize(&self, input: ObservationRealizerInput) -> Result<ObservationContent> {
        Ok(ObservationContent {
            user_text: "requirement".to_string(),
            exposures: match input.cause {
                ObservationCause::Reset => vec![disclose("old")],
                _ => Vec::new(),
            },
            metadata: Json::Null,
        })
    }
}

fn revision_graph() -> TaskGraph {
    case(
        "revision",
        vec![
            node("start", vec![add("old", Json::text("old value"))], false),
            node(
                "revised",
                vec![ConstraintDelta {
                    operation: ConstraintOperation::Replace {
                        target: ConstraintId::from("old"),
                        id: ConstraintId::from("new"),
                        value: Json::text("new value"),
                    },
                    provenance: None,
                }],
                false,
            ),
        ],
        vec![transition("revise", "start", "revised")],
    )
    .compile()
    .expect("revision graph")
}

#[test]
fn replacement_does_not_inherit_exposure() {
    let mut environment = GraphEnvironment::new(
        revision_graph(),
        Decides(|| take("revise")),
        RevisionRealizer,
    )
    .expect("environment");
    environment.reset().expect("reset");

    let output = environment.step(done_action()).expect("revision");
    assert_eq!(
        output.observation.expect("observation").visible_state,
        json("{}")
    );
    assert!(environment
        .state()
        .exposures
        .contains(&ConstraintId::from("old")));
    assert!(!environment
        .state()
        .exposures
        .contains(&ConstraintId::from("new")));
}

#[test]
fn an_environment_starts_once_and_can_be_left() {
    let mut environment = GraphEnvironment::new(
        graph(),
        Decides(|| EnvironmentDecision::Terminate {
            reason: "enough".to_string(),
        }),
        Exposes(no_exposures),
    )
    .unwrap();
    assert!(environment.step(done_action()).is_err());
    environment.reset().unwrap();
    assert!(environment.reset().is_err());
    let output = environment.step(done_action()).unwrap();
    assert_eq!(output.status, EnvironmentStatus::Terminated);
    assert_eq!(
        environment.state().termination,
        Some(TerminationReason::Controller {
            reason: "enough".to_string()
        })
    );
    let snapshot = environment.snapshot().unwrap();
    assert_eq!(snapshot.environment_id, "environment");
    assert_eq!(snapshot.status, EnvironmentStatus::Terminated);
    assert!(snapshot.state.get("constraints").is_some());
}

#[test]
fn a_retry_stays_at_its_node() {
    let mut environment = GraphEnvironment::new(
        graph(),
        Decides(|| EnvironmentDecision::Retry {
            reason: "again".to_string(),
        }),
        Exposes(no_exposures),
    )
    .unwrap();
    environment.reset().unwrap();
    let output = environment.step(done_action()).unwrap();
    assert!(output.observation.is_some());
    assert_eq!(environment.state().current_node, NodeId::from("start"));
}

struct Policy<'a> {
    calls: &'a Cell<usize>,
}

impl EvaluatedPolicy for Policy<'_> {
    fn act(&self, observation: EnvironmentObservation) -> Result<AgentAction> {
        self.calls.set(self.calls.get() + 1);
        Ok(AgentAction {
            status: AgentActionStatus::Completed,
            assistant_text: observation.user_text,
            events: Vec::new(),
        })
    }
}

struct TestReferee;

impl Referee for TestReferee {
    type Report = Option<f64>;

    fn evaluate(&self, input: RefereeInput) -> Result<Option<f64>> {
        assert_eq!(input.snapshot.status, EnvironmentStatus::Terminated);
        assert!(!input.trajectory.is_empty());
        Ok(Some(1.0))
    }
}

fn runner_graph() -> TaskGraph {
    case(
        "runner",
        vec![node("start", vec![], false), node("done", vec![], true)],
        vec![transition("finish", "start", "done")],
    )
    .compile()
    .expect("graph")
}

fn no_exposures() -> Vec<ConstraintExposure> {
    vec![]
}

#[test]
fn runner_only_coordinates_environment_policy_and_referee() {
    let calls = Cell::new(0);
    let environment = GraphEnvironment::new(
        runner_graph(),
        Decides(|| take("finish")),
        Exposes(no_exposures),
    )
    .expect("environment");
    let components = EvalRunnerComponents::new(Policy { calls: &calls }, TestReferee);
    let mut runner = EvalRunner::new(environment, components);
    let report = runner.run().expect("run");

    assert_eq!(calls.get(), 1);
    assert_eq!(report, Some(1.0));
}

#[test]
fn a_run_is_cut_off_after_its_steps() {
    let calls = Cell::new(0);
    let environment = GraphEnvironment::new(
        runner_graph(),
        Decides(|| EnvironmentDecision::Retry {
            reason: "again".to_string(),
        }),
        Exposes(no_exposures),
    )
    .expect("environment");
    let components = EvalRunnerComponents::new(Policy { calls: &calls }, TestReferee);
    let mut runner = EvalRunner::new(environment, components).with_config(EvalRunnerConfig {
        max_environment_steps: 3,
    });
    assert!(runner.run().is_err());
    assert_eq!(calls.get(), 3);
}

#[test]
fn policy_input_includes_the_active_exposed_projection() {
    let rendered = render_policy_input(&EnvironmentObservation {
        user_text: "Continue the task.".to_string(),
        visible_state: json(r#"{"budget": 1000}"#),
        metadata: Json::Null,
    });

    assert!(rendered.contains("Continue the task."));
    assert!(rendered.contains("Active exposed constraints"));
    assert!(rendered.contains("\"budget\": 1000"));
}

#[test]
fn policy_input_without_state_is_the_text() {
    for state in ["null", "{}"] {
        let observation = EnvironmentObservation {
            user_text: "Go.".to_string(),
            visible_state: json(state),
            metadata: Json::text("note"),
        };
        assert_eq!(render_policy_input(&observation), "Go.");
        assert!(make_policy_metadata(&observation).to_text().contains("note"));
    }
}

#[test]
fn an_action_collects_what_the_agent_did() {
    let mut collector = ActionCollector::new();
    collector.event(TurnStreamEvent::Model(TurnModelEvent::AssistantDelta {
        text: "ignored".to_string(),
    }));
    collector.event(TurnStreamEvent::State(TurnStateEvent::FunctionStarted {
        call_id: "c".to_string(),
        name: "f".to_string(),
    }));
    let action = collector.finish(TurnOutcome::AssistantMessage {
        text: "hello".to_string(),
    });
    assert_eq!(action.status, AgentActionStatus::Completed);
    assert!(action.assistant_text.contains("hello"));
    assert!(action.events.iter().any(|event| matches!(
        event,
        AgentActionEvent::FunctionStarted { name, .. } if name == "f"
    )));
    let action = ActionCollector::new().finish(TurnOutcome::Aborted {
        reason: "stop".to_string(),
    });
    assert_eq!(action.status, AgentActionStatus::Aborted);
}

fn program() -> EvalProgram {
    let graph = case(
        "case",
        vec![
            node("start", vec![add("kind", Json::text("phone"))], false),
            node("done", vec![], true),
        ],
        vec![transition("finish", "start", "done")],
    )
    .compile()
    .expect("program");
    EvalProgram {
        graph,
        epsilon: vec![],
    }
}

fn send(message: &str) -> SimulatedUserCommand {
    SimulatedUserCommand::SendUserMessage {
        transition: Some(TransitionId::from("finish")),
        message: message.to_string(),
    }
}

fn commit(delivery: TransitionDelivery) -> SimulatedUserCommand {
    SimulatedUserCommand::Commit {
        transition: TransitionId::from("finish"),
        delivery,
        evidence: vec![],
        reason: "done".to_string(),
    }
}

fn observed() -> AgentObservation {
    AgentObservation {
        status: AgentObservationStatus::Completed,
        assistant_text: "done".to_string(),
        events: vec![],
    }
}

#[test]
fn vm_requires_observation_before_commit() {
    let mut vm = EvalVm::reducer(program()).expect("vm");
    vm.apply_command(send("finish")).expect("message");
    let error = vm
        .apply_command(commit(TransitionDelivery::Explicit))
        .expect_err("observation required");
    assert!(error.text().contains("AwaitingSimulatorDecision"));
}

#[test]
fn vm_commits_explicit_transition_after_observation() {
    let mut vm = EvalVm::reducer(program()).expect("vm");
    vm.apply_command(send("finish")).expect("message");
    vm.observe_agent(observed()).expect("observation");
    vm.apply_command(commit(TransitionDelivery::Explicit))
        .expect("commit");
    assert_eq!(vm.projection().status, EvalVmStatus::Completed);
    assert_eq!(vm.projection().current_node, NodeId::from("done"));
}

#[test]
fn vm_halts_and_then_stays() {
    let mut vm = EvalVm::reducer(program()).expect("vm");
    assert_eq!(vm.projection().phase, EvalPhase::AwaitingUserAction);
    assert_eq!(vm.thread_id(), "eval:case");
    vm.apply_command(SimulatedUserCommand::Halt {
        reason: "enough".to_string(),
    })
    .expect("halt");
    assert_eq!(vm.projection().status, EvalVmStatus::Halted);
    let events = vm.events().len();
    assert!(vm.apply_command(send("more")).is_err());
    assert_eq!(vm.projection().status, EvalVmStatus::Halted);
    assert!(vm.events().len() <= events + 1);
    assert!(matches!(
        vm.events().first().map(|event| &event.kind),
        Some(EvalEventKind::ProgramStarted { .. })
    ));
}

#[test]
fn vm_tells_the_agent_only_messages() {
    assert_eq!(send("hi").agent_input(), Some("hi".to_string()));
    assert_eq!(
        SimulatedUserCommand::Retry {
            message: "again".to_string(),
            reason: "unclear".to_string()
        }
        .agent_input(),
        Some("again".to_string())
    );
    assert_eq!(commit(TransitionDelivery::Explicit).agent_input(), None);
}

#[test]
fn vm_remembers_the_latest_observation() {
    let mut vm = EvalVm::reducer(program()).expect("vm");
    assert!(vm.latest_observation().is_none());
    assert!(vm.observe_agent(observed()).is_err());
    vm.apply_command(send("finish")).expect("message");
    vm.observe_agent(observed()).expect("observation");
    assert_eq!(vm.latest_observation(), Some(observed()));
}

#[test]
fn task_cases_that_are_not_in_order_are_refused() {
    let start = || node("start", vec![], false);
    let cases = vec![
        case("", vec![start()], vec![]),
        case("c", vec![node("other", vec![], false)], vec![]),
        case("c", vec![start(), start()], vec![]),
        case("c", vec![start()], vec![transition("t", "start", "nowhere")]),
        case("c", vec![start()], vec![transition("t", "nowhere", "start")]),
        case(
            "c",
            vec![start(), node("end", vec![], true)],
            vec![
                transition("t", "start", "end"),
                transition("t", "start", "end"),
            ],
        ),
        case(
            "c",
            vec![node(
                "start",
                vec![add("x", Json::Null), add("x", Json::Null)],
                false,
            )],
            vec![],
        ),
    ];
    for case in cases {
        assert!(matches!(
            case.compile(),
            Err(EvalError::InvalidTaskGraph(_))
        ));
    }
}

#[test]
fn a_graph_knows_its_ways_out() {
    let graph = graph();
    let out = graph.outgoing(&NodeId::from("start"));
    assert_eq!(out.len(), 1);
    assert_eq!(out[0].id, TransitionId::from("finish"));
    assert!(graph.outgoing(&NodeId::from("done")).is_empty());
    assert!(graph.node(&NodeId::from("nowhere")).is_err());
    assert!(graph.transition(&TransitionId::from("nowhere")).is_err());
    assert!(graph.node(&NodeId::from("done")).unwrap().terminal);
}

#[test]
fn constraints_are_added_replaced_and_removed() {
    let empty = || ConstraintLedger {
        active: TextMap::new(),
        applied: vec![],
    };
    let start = NodeId::from("start");
    let remove = |target: &str| ConstraintDelta {
        operation: ConstraintOperation::Remove {
            target: ConstraintId::from(target),
        },
        provenance: None,
    };
    let ledger = apply_deltas(
        &empty(),
        &start,
        &vec![add("a", json("1")), add("b", json("2")), remove("a")],
    )
    .unwrap();
    assert!(!ledger.active.contains_key("a"));
    assert_eq!(ledger.active.get("b"), Some(&json("2")));
    assert_eq!(ledger.applied.len(), 3);
    assert!(apply_deltas(&empty(), &start, &vec![remove("a")]).is_err());
    assert!(apply_deltas(&empty(), &start, &vec![add("a", json("1")), add("a", json("1"))]).is_err());
    assert!(apply_node(&graph(), &empty(), &NodeId::from("nowhere")).is_err());
    assert_eq!(
        apply_node(&graph(), &empty(), &start).unwrap().active.len(),
        4
    );
}

#[test]
fn decisions_are_submitted_once() {
    let mut tool = EnvironmentDecisionTool::new(EnvironmentDecisionSink::new());
    let arguments = json(
        r#"{"kind": "transition", "transition": "finish",
            "evidence": [{"kind": "text", "reference": "r"}], "reason": "done"}"#,
    );
    let decision = read_decision(&arguments);
    match &decision {
        Ok(EnvironmentDecision::Transition { transition, .. }) => {
            assert_eq!(transition, &TransitionId::from("finish"));
            assert!(matches!(
                tool.call(&arguments),
                Ok(FunctionExecution::Completed { .. })
            ));
            assert!(tool.take().is_some());
            assert!(tool.take().is_none());
        }
        other => panic!("{:?}", other),
    }
    assert!(matches!(
        tool.call(&json("{}")),
        Err(AgentError::InvalidFunctionArguments { .. })
    ));
    assert_eq!(tool.spec().name.is_empty(), false);
}

#[test]
fn decisions_say_what_is_wrong_with_arguments() {
    let said = |arguments: &str| read_decision(&json(arguments)).err().unwrap();
    assert_eq!(said("{}"), "missing field `kind`");
    assert_eq!(said("[]"), "missing field `kind`");
    assert_eq!(
        said(r#"{"kind": "stop"}"#),
        "unknown variant `stop`, expected one of `transition`, `retry`, `terminate`"
    );
    assert_eq!(
        said(r#"{"kind": 0}"#),
        "invalid type: integer `0`, expected variant identifier"
    );
    assert_eq!(
        said(r#""retry""#),
        "invalid type: string \"retry\", expected internally tagged enum EnvironmentDecisionRequest"
    );
    assert_eq!(said(r#"{"kind": "retry"}"#), "missing field `reason`");
    assert_eq!(said(r#"{"kind": "transition"}"#), "missing field `transition`");
    assert_eq!(
        said(r#"{"kind": "transition", "transition": 1, "evidence": {}}"#),
        "invalid type: map, expected a sequence"
    );
    assert_eq!(
        said(r#"{"kind": "transition", "evidence": [["a", "b", "c"]]}"#),
        "invalid length 3, expected 2 elements in sequence"
    );
    assert_eq!(
        said(r#"{"kind": "transition", "evidence": [["a", "b"], {"kind": "k"}]}"#),
        "missing field `reference`"
    );
    assert_eq!(
        said(r#"["transition", "t"]"#),
        "invalid length 1, expected struct variant EnvironmentDecisionRequest::Transition with 3 elements"
    );
    assert_eq!(
        said(r#"["terminate"]"#),
        "invalid length 0, expected struct variant EnvironmentDecisionRequest::Terminate with 1 element"
    );
    assert_eq!(
        said(r#"["retry", "r", 1]"#),
        "invalid length 2, expected 1 element in sequence"
    );
    assert!(read_decision(&json(r#"["retry", "r"]"#)).is_ok());
    assert!(read_decision(&json(r#"["transition", "t", [["a", "b"]], "r"]"#)).is_ok());
}
