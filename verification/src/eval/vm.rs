//! Evaluations that a simulated user drives.

use crate::eval::action::{AgentActionEvent, AgentActionEventView};
use crate::eval::environment::{apply_deltas, deltas_applied, following, next_number};
use crate::eval::error::{EvalError, EvalErrorView, Result};
use crate::eval::program::{
    required_node, required_transition, NodeId, TaskGraph, TaskGraphView, TransitionId,
};
use crate::eval::state::{ConstraintLedger, ConstraintLedgerView, EvidenceRef, EvidenceRefView};
use crate::json::JsonView;
use crate::same::{outcome_of, Replica, Same};
use crate::text::{blank, glue2, glue3, glue4, is_blank};
use crate::text_map::TextMap;
use vstd::prelude::*;

verus! {

/// How a transition reaches the agent.
#[derive(Clone, Copy, Debug, PartialEq, Eq, Structural)]
pub enum TransitionDelivery {
    Explicit,
    Epsilon,
}

impl DeepView for TransitionDelivery {
    type V = TransitionDelivery;

    open spec fn deep_view(&self) -> Self::V {
        *self
    }
}

impl Replica for TransitionDelivery {
    fn replica(&self) -> (r: Self) {
        *self
    }
}

impl Same for TransitionDelivery {
    fn same(&self, other: &Self) -> (r: bool) {
        *self == *other
    }
}

/// How far an evaluation is.
#[derive(Clone, Copy, Debug, PartialEq, Eq, Structural)]
pub enum EvalVmStatus {
    Running,
    Completed,
    Halted,
    Failed,
}

impl DeepView for EvalVmStatus {
    type V = EvalVmStatus;

    open spec fn deep_view(&self) -> Self::V {
        *self
    }
}

impl Replica for EvalVmStatus {
    fn replica(&self) -> (r: Self) {
        *self
    }
}

impl Same for EvalVmStatus {
    fn same(&self, other: &Self) -> (r: bool) {
        *self == *other
    }
}

/// What an evaluation waits for.
#[derive(Clone, Copy, Debug, PartialEq, Eq, Structural)]
pub enum EvalPhase {
    AwaitingUserAction,
    AwaitingAgentObservation,
    AwaitingSimulatorDecision,
}

impl DeepView for EvalPhase {
    type V = EvalPhase;

    open spec fn deep_view(&self) -> Self::V {
        *self
    }
}

impl Replica for EvalPhase {
    fn replica(&self) -> (r: Self) {
        *self
    }
}

impl Same for EvalPhase {
    fn same(&self, other: &Self) -> (r: bool) {
        *self == *other
    }
}

/// How the tested agent ended its turn.
#[derive(Clone, Copy, Debug, PartialEq, Eq, Structural)]
pub enum AgentObservationStatus {
    Completed,
    Suspended,
    Failed,
    Aborted,
}

impl DeepView for AgentObservationStatus {
    type V = AgentObservationStatus;

    open spec fn deep_view(&self) -> Self::V {
        *self
    }
}

impl Replica for AgentObservationStatus {
    fn replica(&self) -> (r: Self) {
        *self
    }
}

impl Same for AgentObservationStatus {
    fn same(&self, other: &Self) -> (r: bool) {
        *self == *other
    }
}

/// The turn of the tested agent.
#[derive(Debug, PartialEq, Eq)]
pub struct AgentObservation {
    pub status: AgentObservationStatus,
    pub assistant_text: String,
    pub events: Vec<AgentActionEvent>,
}

/// What an [`AgentObservation`] holds.
#[verifier::ext_equal]
pub struct AgentObservationView {
    pub status: AgentObservationStatus,
    pub assistant_text: Seq<char>,
    pub events: Seq<AgentActionEventView>,
}

impl DeepView for AgentObservation {
    type V = AgentObservationView;

    open spec fn deep_view(&self) -> Self::V {
        AgentObservationView {
            status: self.status.deep_view(),
            assistant_text: self.assistant_text.deep_view(),
            events: self.events.deep_view(),
        }
    }
}

impl Replica for AgentObservation {
    fn replica(&self) -> (r: Self) {
        AgentObservation {
            status: self.status.replica(),
            assistant_text: self.assistant_text.replica(),
            events: self.events.replica(),
        }
    }
}

impl Clone for AgentObservation {
    fn clone(&self) -> (r: Self)
        ensures
            r.deep_view() == self.deep_view(),
    {
        self.replica()
    }
}

impl Same for AgentObservation {
    fn same(&self, other: &Self) -> (r: bool) {
        self.status.same(&other.status)
            && self.assistant_text.same(&other.assistant_text)
            && self.events.same(&other.events)
    }
}

/// What the simulated user does.
#[derive(Debug, PartialEq, Eq)]
pub enum SimulatedUserCommand {
    SendUserMessage { transition: Option<TransitionId>, message: String },
    Retry { message: String, reason: String },
    Commit {
        transition: TransitionId,
        delivery: TransitionDelivery,
        evidence: Vec<EvidenceRef>,
        reason: String,
    },
    Halt { reason: String },
}

/// What a [`SimulatedUserCommand`] holds.
#[verifier::ext_equal]
pub enum SimulatedUserCommandView {
    SendUserMessage { transition: Option<Seq<char>>, message: Seq<char> },
    Retry { message: Seq<char>, reason: Seq<char> },
    Commit {
        transition: Seq<char>,
        delivery: TransitionDelivery,
        evidence: Seq<EvidenceRefView>,
        reason: Seq<char>,
    },
    Halt { reason: Seq<char> },
}

impl DeepView for SimulatedUserCommand {
    type V = SimulatedUserCommandView;

    open spec fn deep_view(&self) -> Self::V {
        match self {
            SimulatedUserCommand::SendUserMessage { transition, message } =>
                SimulatedUserCommandView::SendUserMessage {
                transition: transition.deep_view(),
                message: message.deep_view(),
            },
            SimulatedUserCommand::Retry { message, reason } => SimulatedUserCommandView::Retry {
                message: message.deep_view(),
                reason: reason.deep_view(),
            },
            SimulatedUserCommand::Commit { transition, delivery, evidence, reason } =>
                SimulatedUserCommandView::Commit {
                transition: transition.deep_view(),
                delivery: delivery.deep_view(),
                evidence: evidence.deep_view(),
                reason: reason.deep_view(),
            },
            SimulatedUserCommand::Halt { reason } => SimulatedUserCommandView::Halt {
                reason: reason.deep_view(),
            },
        }
    }
}

impl Replica for SimulatedUserCommand {
    fn replica(&self) -> (r: Self) {
        match self {
            SimulatedUserCommand::SendUserMessage { transition, message } =>
                SimulatedUserCommand::SendUserMessage {
                transition: transition.replica(),
                message: message.replica(),
            },
            SimulatedUserCommand::Retry { message, reason } => SimulatedUserCommand::Retry {
                message: message.replica(),
                reason: reason.replica(),
            },
            SimulatedUserCommand::Commit { transition, delivery, evidence, reason } =>
                SimulatedUserCommand::Commit {
                transition: transition.replica(),
                delivery: delivery.replica(),
                evidence: evidence.replica(),
                reason: reason.replica(),
            },
            SimulatedUserCommand::Halt { reason } => SimulatedUserCommand::Halt {
                reason: reason.replica(),
            },
        }
    }
}

impl Clone for SimulatedUserCommand {
    fn clone(&self) -> (r: Self)
        ensures
            r.deep_view() == self.deep_view(),
    {
        self.replica()
    }
}

impl Same for SimulatedUserCommand {
    fn same(&self, other: &Self) -> (r: bool) {
        match (self, other) {
            (
                SimulatedUserCommand::SendUserMessage {
                    transition: a_transition,
                    message: a_message,
                },
                SimulatedUserCommand::SendUserMessage {
                    transition: b_transition,
                    message: b_message,
                },
            ) => a_transition.same(b_transition) && a_message.same(b_message),
            (
                SimulatedUserCommand::Retry { message: a_message, reason: a_reason },
                SimulatedUserCommand::Retry { message: b_message, reason: b_reason },
            ) => a_message.same(b_message) && a_reason.same(b_reason),
            (
                SimulatedUserCommand::Commit {
                    transition: a_transition,
                    delivery: a_delivery,
                    evidence: a_evidence,
                    reason: a_reason,
                },
                SimulatedUserCommand::Commit {
                    transition: b_transition,
                    delivery: b_delivery,
                    evidence: b_evidence,
                    reason: b_reason,
                },
            ) => a_transition.same(b_transition) && a_delivery.same(b_delivery) && a_evidence.same(b_evidence) && a_reason.same(b_reason),
            (
                SimulatedUserCommand::Halt { reason: a_reason },
                SimulatedUserCommand::Halt { reason: b_reason },
            ) => a_reason.same(b_reason),
            _ => false,
        }
    }
}

/// A task graph, and the transitions that need no message.
#[derive(Debug, PartialEq, Eq)]
pub struct EvalProgram {
    pub graph: TaskGraph,
    pub epsilon: Vec<TransitionId>,
}

/// What an [`EvalProgram`] holds.
#[verifier::ext_equal]
pub struct EvalProgramView {
    pub graph: TaskGraphView,
    pub epsilon: Seq<Seq<char>>,
}

impl DeepView for EvalProgram {
    type V = EvalProgramView;

    open spec fn deep_view(&self) -> Self::V {
        EvalProgramView {
            graph: self.graph.deep_view(),
            epsilon: self.epsilon.deep_view(),
        }
    }
}

impl Replica for EvalProgram {
    fn replica(&self) -> (r: Self) {
        EvalProgram {
            graph: self.graph.replica(),
            epsilon: self.epsilon.replica(),
        }
    }
}

impl Clone for EvalProgram {
    fn clone(&self) -> (r: Self)
        ensures
            r.deep_view() == self.deep_view(),
    {
        self.replica()
    }
}

impl Same for EvalProgram {
    fn same(&self, other: &Self) -> (r: bool) {
        self.graph.same(&other.graph)
            && self.epsilon.same(&other.epsilon)
    }
}

/// The state of an evaluation.
#[derive(Debug, PartialEq, Eq)]
pub struct EvalProjection {
    pub status: EvalVmStatus,
    pub phase: EvalPhase,
    pub current_node: NodeId,
    pub pending_transition: Option<TransitionId>,
    pub constraints: ConstraintLedger,
    pub step: u64,
}

/// What an [`EvalProjection`] holds.
#[verifier::ext_equal]
pub struct EvalProjectionView {
    pub status: EvalVmStatus,
    pub phase: EvalPhase,
    pub current_node: Seq<char>,
    pub pending_transition: Option<Seq<char>>,
    pub constraints: ConstraintLedgerView,
    pub step: u64,
}

impl DeepView for EvalProjection {
    type V = EvalProjectionView;

    open spec fn deep_view(&self) -> Self::V {
        EvalProjectionView {
            status: self.status.deep_view(),
            phase: self.phase.deep_view(),
            current_node: self.current_node.deep_view(),
            pending_transition: self.pending_transition.deep_view(),
            constraints: self.constraints.deep_view(),
            step: self.step.deep_view(),
        }
    }
}

impl Replica for EvalProjection {
    fn replica(&self) -> (r: Self) {
        EvalProjection {
            status: self.status.replica(),
            phase: self.phase.replica(),
            current_node: self.current_node.replica(),
            pending_transition: self.pending_transition.replica(),
            constraints: self.constraints.replica(),
            step: self.step.replica(),
        }
    }
}

impl Clone for EvalProjection {
    fn clone(&self) -> (r: Self)
        ensures
            r.deep_view() == self.deep_view(),
    {
        self.replica()
    }
}

impl Same for EvalProjection {
    fn same(&self, other: &Self) -> (r: bool) {
        self.status.same(&other.status)
            && self.phase.same(&other.phase)
            && self.current_node.same(&other.current_node)
            && self.pending_transition.same(&other.pending_transition)
            && self.constraints.same(&other.constraints)
            && self.step.same(&other.step)
    }
}

/// What happened in an evaluation.
#[derive(Debug, PartialEq, Eq)]
pub enum EvalEventKind {
    ProgramStarted { node: NodeId },
    UserMessage { message: String },
    AgentObservation { observation: AgentObservation },
    SimulatorCommand { command: SimulatedUserCommand },
    TransitionCommitted {
        transition: Option<TransitionId>,
        from: NodeId,
        to: NodeId,
        delivery: TransitionDelivery,
        evidence: Vec<EvidenceRef>,
    },
    Halted { reason: String },
}

/// What an [`EvalEventKind`] holds.
#[verifier::ext_equal]
pub enum EvalEventKindView {
    ProgramStarted { node: Seq<char> },
    UserMessage { message: Seq<char> },
    AgentObservation { observation: AgentObservationView },
    SimulatorCommand { command: SimulatedUserCommandView },
    TransitionCommitted {
        transition: Option<Seq<char>>,
        from: Seq<char>,
        to: Seq<char>,
        delivery: TransitionDelivery,
        evidence: Seq<EvidenceRefView>,
    },
    Halted { reason: Seq<char> },
}

impl DeepView for EvalEventKind {
    type V = EvalEventKindView;

    open spec fn deep_view(&self) -> Self::V {
        match self {
            EvalEventKind::ProgramStarted { node } => EvalEventKindView::ProgramStarted {
                node: node.deep_view(),
            },
            EvalEventKind::UserMessage { message } => EvalEventKindView::UserMessage {
                message: message.deep_view(),
            },
            EvalEventKind::AgentObservation { observation } => EvalEventKindView::AgentObservation {
                observation: observation.deep_view(),
            },
            EvalEventKind::SimulatorCommand { command } => EvalEventKindView::SimulatorCommand {
                command: command.deep_view(),
            },
            EvalEventKind::TransitionCommitted { transition, from, to, delivery, evidence } =>
                EvalEventKindView::TransitionCommitted {
                transition: transition.deep_view(),
                from: from.deep_view(),
                to: to.deep_view(),
                delivery: delivery.deep_view(),
                evidence: evidence.deep_view(),
            },
            EvalEventKind::Halted { reason } => EvalEventKindView::Halted {
                reason: reason.deep_view(),
            },
        }
    }
}

impl Replica for EvalEventKind {
    fn replica(&self) -> (r: Self) {
        match self {
            EvalEventKind::ProgramStarted { node } => EvalEventKind::ProgramStarted {
                node: node.replica(),
            },
            EvalEventKind::UserMessage { message } => EvalEventKind::UserMessage {
                message: message.replica(),
            },
            EvalEventKind::AgentObservation { observation } => EvalEventKind::AgentObservation {
                observation: observation.replica(),
            },
            EvalEventKind::SimulatorCommand { command } => EvalEventKind::SimulatorCommand {
                command: command.replica(),
            },
            EvalEventKind::TransitionCommitted { transition, from, to, delivery, evidence } =>
                EvalEventKind::TransitionCommitted {
                transition: transition.replica(),
                from: from.replica(),
                to: to.replica(),
                delivery: delivery.replica(),
                evidence: evidence.replica(),
            },
            EvalEventKind::Halted { reason } => EvalEventKind::Halted {
                reason: reason.replica(),
            },
        }
    }
}

impl Clone for EvalEventKind {
    fn clone(&self) -> (r: Self)
        ensures
            r.deep_view() == self.deep_view(),
    {
        self.replica()
    }
}

impl Same for EvalEventKind {
    fn same(&self, other: &Self) -> (r: bool) {
        match (self, other) {
            (
                EvalEventKind::ProgramStarted { node: a_node },
                EvalEventKind::ProgramStarted { node: b_node },
            ) => a_node.same(b_node),
            (
                EvalEventKind::UserMessage { message: a_message },
                EvalEventKind::UserMessage { message: b_message },
            ) => a_message.same(b_message),
            (
                EvalEventKind::AgentObservation { observation: a_observation },
                EvalEventKind::AgentObservation { observation: b_observation },
            ) => a_observation.same(b_observation),
            (
                EvalEventKind::SimulatorCommand { command: a_command },
                EvalEventKind::SimulatorCommand { command: b_command },
            ) => a_command.same(b_command),
            (
                EvalEventKind::TransitionCommitted {
                    transition: a_transition,
                    from: a_from,
                    to: a_to,
                    delivery: a_delivery,
                    evidence: a_evidence,
                },
                EvalEventKind::TransitionCommitted {
                    transition: b_transition,
                    from: b_from,
                    to: b_to,
                    delivery: b_delivery,
                    evidence: b_evidence,
                },
            ) => a_transition.same(b_transition) && a_from.same(b_from) && a_to.same(b_to) && a_delivery.same(b_delivery) && a_evidence.same(b_evidence),
            (
                EvalEventKind::Halted { reason: a_reason },
                EvalEventKind::Halted { reason: b_reason },
            ) => a_reason.same(b_reason),
            _ => false,
        }
    }
}

/// What happened in an evaluation, in its order.
#[derive(Debug, PartialEq, Eq)]
pub struct EvalEvent {
    pub sequence: u64,
    pub kind: EvalEventKind,
}

/// What an [`EvalEvent`] holds.
#[verifier::ext_equal]
pub struct EvalEventView {
    pub sequence: u64,
    pub kind: EvalEventKindView,
}

impl DeepView for EvalEvent {
    type V = EvalEventView;

    open spec fn deep_view(&self) -> Self::V {
        EvalEventView {
            sequence: self.sequence.deep_view(),
            kind: self.kind.deep_view(),
        }
    }
}

impl Replica for EvalEvent {
    fn replica(&self) -> (r: Self) {
        EvalEvent {
            sequence: self.sequence.replica(),
            kind: self.kind.replica(),
        }
    }
}

impl Clone for EvalEvent {
    fn clone(&self) -> (r: Self)
        ensures
            r.deep_view() == self.deep_view(),
    {
        self.replica()
    }
}

impl Same for EvalEvent {
    fn same(&self, other: &Self) -> (r: bool) {
        self.sequence.same(&other.sequence)
            && self.kind.same(&other.kind)
    }
}

/// An evaluation of a program.
#[derive(Debug, PartialEq, Eq)]
pub struct EvalVm {
    pub program: EvalProgram,
    pub projection: EvalProjection,
    pub events: Vec<EvalEvent>,
}

/// What an [`EvalVm`] holds.
#[verifier::ext_equal]
pub struct EvalVmView {
    pub program: EvalProgramView,
    pub projection: EvalProjectionView,
    pub events: Seq<EvalEventView>,
}

impl DeepView for EvalVm {
    type V = EvalVmView;

    open spec fn deep_view(&self) -> Self::V {
        EvalVmView {
            program: self.program.deep_view(),
            projection: self.projection.deep_view(),
            events: self.events.deep_view(),
        }
    }
}

impl Replica for EvalVm {
    fn replica(&self) -> (r: Self) {
        EvalVm {
            program: self.program.replica(),
            projection: self.projection.replica(),
            events: self.events.replica(),
        }
    }
}

impl Clone for EvalVm {
    fn clone(&self) -> (r: Self)
        ensures
            r.deep_view() == self.deep_view(),
    {
        self.replica()
    }
}

/// A command that an evaluation refuses.
pub open spec fn bad_command(message: Seq<char>) -> EvalErrorView {
    EvalErrorView::InvalidCommand(message)
}

fn reject(message: &str) -> (r: EvalError)
    ensures
        r.deep_view() == bad_command(message@),
{
    EvalError::InvalidCommand(message.to_owned())
}

/// How a phase is called.
pub open spec fn phase_name(phase: EvalPhase) -> Seq<char> {
    match phase {
        EvalPhase::AwaitingUserAction => "AwaitingUserAction"@,
        EvalPhase::AwaitingAgentObservation => "AwaitingAgentObservation"@,
        EvalPhase::AwaitingSimulatorDecision => "AwaitingSimulatorDecision"@,
    }
}

impl EvalPhase {
    /// How the phase is called.
    pub fn name(&self) -> (r: &'static str)
        ensures
            r@ == phase_name(*self),
    {
        match self {
            EvalPhase::AwaitingUserAction => "AwaitingUserAction",
            EvalPhase::AwaitingAgentObservation => "AwaitingAgentObservation",
            EvalPhase::AwaitingSimulatorDecision => "AwaitingSimulatorDecision",
        }
    }
}

impl EvalProgram {
    /// Tells whether a transition needs no message.
    pub fn epsilon_eligible(&self, id: &TransitionId) -> (r: bool)
        ensures
            r == self.deep_view().epsilon.contains(id.deep_view()),
    {
        let ghost ids = self.epsilon.deep_view();
        for i in 0..self.epsilon.len()
            invariant
                ids == self.epsilon.deep_view(),
                forall|j: int| 0 <= j < i ==> #[trigger] ids[j] != id.deep_view(),
        {
            if self.epsilon[i].same(id) {
                assert(ids[i as int] == id.deep_view());
                return true;
            }
        }
        false
    }
}

/// One more thing happened.
pub open spec fn vm_recorded(vm: EvalVmView, kind: EvalEventKindView) -> EvalVmView {
    let step = next_number(vm.projection.step);
    EvalVmView {
        projection: EvalProjectionView { step, ..vm.projection },
        events: vm.events.push(EvalEventView { sequence: step, kind }),
        ..vm
    }
}

/// The constraints after a node was entered.
pub open spec fn vm_node_applied(graph: TaskGraphView, ledger: ConstraintLedgerView, id: Seq<char>) -> core::result::Result<
    ConstraintLedgerView,
    EvalErrorView,
> {
    match required_node(graph, id) {
        Err(error) => Err(error),
        Ok(node) => match deltas_applied(ledger, id, node.constraints) {
            Err(message) => Err(bad_command(message)),
            Ok(after) => Ok(after),
        },
    }
}

fn apply_node_constraints(graph: &TaskGraph, ledger: &ConstraintLedger, id: &NodeId) -> (r: Result<
    ConstraintLedger,
>)
    ensures
        outcome_of(r) == vm_node_applied(graph.deep_view(), ledger.deep_view(), id.deep_view()),
{
    let node = match graph.node(id) {
        Ok(node) => node,
        Err(error) => return Err(error),
    };
    match apply_deltas(ledger, id, &node.constraints) {
        Ok(after) => Ok(after),
        Err(message) => Err(EvalError::InvalidCommand(message)),
    }
}

/// An evaluation at its start, unless its first node cannot be entered. It is completed at once
/// where that node is terminal.
pub open spec fn vm_made(
    program: EvalProgramView,
) -> core::result::Result<EvalVmView, EvalErrorView> {
    let graph = program.graph;
    let none = ConstraintLedgerView { active: Map::empty(), applied: Seq::empty() };
    match vm_node_applied(graph, none, graph.start) {
        Err(error) => Err(error),
        Ok(constraints) => {
            let started = vm_recorded(
                EvalVmView {
                    program,
                    projection: EvalProjectionView {
                        status: EvalVmStatus::Running,
                        phase: EvalPhase::AwaitingUserAction,
                        current_node: graph.start,
                        pending_transition: None,
                        constraints,
                        step: 0,
                    },
                    events: Seq::empty(),
                },
                EvalEventKindView::ProgramStarted { node: graph.start },
            );
            Ok(
                if graph.nodes[graph.start].terminal {
                    with_status(started, EvalVmStatus::Completed)
                } else {
                    started
                },
            )
        },
    }
}

/// The evaluation with another status.
pub open spec fn with_status(vm: EvalVmView, status: EvalVmStatus) -> EvalVmView {
    EvalVmView { projection: EvalProjectionView { status, ..vm.projection }, ..vm }
}

/// The evaluation in another phase.
pub open spec fn with_phase(vm: EvalVmView, phase: EvalPhase) -> EvalVmView {
    EvalVmView { projection: EvalProjectionView { phase, ..vm.projection }, ..vm }
}

/// What is wrong with doing something that needs a phase.
pub open spec fn phase_checked(projection: EvalProjectionView, expected: EvalPhase) -> core::result::Result<
    (),
    EvalErrorView,
> {
    if projection.status != EvalVmStatus::Running {
        Err(bad_command("evaluation is not running"@))
    } else if projection.phase != expected {
        Err(
            bad_command(
                "command requires phase "@ + phase_name(expected) + ", current phase is "@
                    + phase_name(projection.phase),
            ),
        )
    } else {
        Ok(())
    }
}

/// What an observation of the agent comes to, and the evaluation then.
pub open spec fn agent_observed(vm: EvalVmView, observation: AgentObservationView) -> (
    core::result::Result<(), EvalErrorView>,
    EvalVmView,
) {
    match phase_checked(vm.projection, EvalPhase::AwaitingAgentObservation) {
        Err(error) => (Err(error), vm),
        Ok(_) => (
            Ok(()),
            with_phase(
                vm_recorded(vm, EvalEventKindView::AgentObservation { observation }),
                EvalPhase::AwaitingSimulatorDecision,
            ),
        ),
    }
}

/// The error for a transition that leaves from elsewhere.
pub open spec fn starts_elsewhere(transition: Seq<char>) -> EvalErrorView {
    bad_command("transition "@ + transition + " does not start at current node"@)
}

/// A message was sent, and the agent is waited for.
pub open spec fn message_sent(vm: EvalVmView, message: Seq<char>) -> EvalVmView {
    with_phase(
        vm_recorded(vm, EvalEventKindView::UserMessage { message }),
        EvalPhase::AwaitingAgentObservation,
    )
}

/// What a message of the user comes to, and the evaluation then.
pub open spec fn user_message_sent(
    vm: EvalVmView,
    transition: Option<Seq<char>>,
    message: Seq<char>,
) -> (core::result::Result<(), EvalErrorView>, EvalVmView) {
    match phase_checked(vm.projection, EvalPhase::AwaitingUserAction) {
        Err(error) => (Err(error), vm),
        Ok(_) => if is_blank(message) {
            (Err(bad_command("user message is empty"@)), vm)
        } else {
            match transition {
                None => (Ok(()), message_sent(vm, message)),
                Some(id) => match required_transition(vm.program.graph, id) {
                    Err(error) => (Err(error), vm),
                    Ok(found) => if found.from != vm.projection.current_node {
                        (Err(starts_elsewhere(id)), vm)
                    } else if vm.projection.pending_transition is Some {
                        (Err(bad_command("another transition is already pending"@)), vm)
                    } else {
                        (
                            Ok(()),
                            message_sent(
                                EvalVmView {
                                    projection: EvalProjectionView {
                                        pending_transition: Some(id),
                                        ..vm.projection
                                    },
                                    ..vm
                                },
                                message,
                            ),
                        )
                    },
                },
            }
        },
    }
}

/// What another try comes to, and the evaluation then.
pub open spec fn retried(vm: EvalVmView, message: Seq<char>) -> (
    core::result::Result<(), EvalErrorView>,
    EvalVmView,
) {
    match phase_checked(vm.projection, EvalPhase::AwaitingSimulatorDecision) {
        Err(error) => (Err(error), vm),
        Ok(_) => if vm.projection.pending_transition is None {
            (Err(bad_command("cannot retry without a pending transition"@)), vm)
        } else if is_blank(message) {
            (Err(bad_command("retry message is empty"@)), vm)
        } else {
            (Ok(()), message_sent(vm, message))
        },
    }
}

/// What is wrong with how a transition is delivered.
pub open spec fn delivery_checked(vm: EvalVmView, transition: Seq<char>, delivery: TransitionDelivery) -> core::result::Result<
    (),
    EvalErrorView,
> {
    match delivery {
        TransitionDelivery::Explicit => if vm.projection.pending_transition == Some(transition) {
            Ok(())
        } else {
            Err(bad_command("explicit commit does not match the pending transition"@))
        },
        TransitionDelivery::Epsilon => if vm.projection.pending_transition is None
            && vm.program.epsilon.contains(transition) {
            Ok(())
        } else {
            Err(bad_command("transition is not eligible for epsilon delivery"@))
        },
    }
}

/// What a commit of a transition comes to, and the evaluation then.
pub open spec fn committed(
    vm: EvalVmView,
    transition: Seq<char>,
    delivery: TransitionDelivery,
    evidence: Seq<EvidenceRefView>,
) -> (core::result::Result<(), EvalErrorView>, EvalVmView) {
    let graph = vm.program.graph;
    match phase_checked(vm.projection, EvalPhase::AwaitingSimulatorDecision) {
        Err(error) => (Err(error), vm),
        Ok(_) => match required_transition(graph, transition) {
            Err(error) => (Err(error), vm),
            Ok(found) => if found.from != vm.projection.current_node {
                (Err(starts_elsewhere(transition)), vm)
            } else {
                match delivery_checked(vm, transition, delivery) {
                    Err(error) => (Err(error), vm),
                    Ok(_) => match vm_node_applied(graph, vm.projection.constraints, found.to) {
                        Err(error) => (Err(error), vm),
                        Ok(constraints) => (
                            Ok(()),
                            vm_recorded(
                                EvalVmView {
                                    projection: EvalProjectionView {
                                        status: if graph.nodes[found.to].terminal {
                                            EvalVmStatus::Completed
                                        } else {
                                            vm.projection.status
                                        },
                                        phase: EvalPhase::AwaitingUserAction,
                                        current_node: found.to,
                                        pending_transition: None,
                                        constraints,
                                        step: vm.projection.step,
                                    },
                                    ..vm
                                },
                                EvalEventKindView::TransitionCommitted {
                                    transition: Some(transition),
                                    from: vm.projection.current_node,
                                    to: found.to,
                                    delivery,
                                    evidence,
                                },
                            ),
                        ),
                    },
                }
            },
        },
    }
}

/// What a halt comes to, and the evaluation then.
pub open spec fn halted(vm: EvalVmView, reason: Seq<char>) -> (
    core::result::Result<(), EvalErrorView>,
    EvalVmView,
) {
    if vm.projection.status != EvalVmStatus::Running {
        (Err(bad_command("evaluation is already stopped"@)), vm)
    } else {
        (
            Ok(()),
            vm_recorded(
                with_phase(
                    with_status(vm, EvalVmStatus::Halted),
                    EvalPhase::AwaitingSimulatorDecision,
                ),
                EvalEventKindView::Halted { reason },
            ),
        )
    }
}

/// What a command comes to, and the evaluation then. The command itself is recorded in any case.
pub open spec fn command_applied(vm: EvalVmView, command: SimulatedUserCommandView) -> (
    core::result::Result<(), EvalErrorView>,
    EvalVmView,
) {
    let told = vm_recorded(vm, EvalEventKindView::SimulatorCommand { command });
    match command {
        SimulatedUserCommandView::SendUserMessage { transition, message } => user_message_sent(
            told,
            transition,
            message,
        ),
        SimulatedUserCommandView::Retry { message, reason: _ } => retried(told, message),
        SimulatedUserCommandView::Commit { transition, delivery, evidence, reason: _ } => committed(
            told,
            transition,
            delivery,
            evidence,
        ),
        SimulatedUserCommandView::Halt { reason } => halted(told, reason),
    }
}

/// What the agent is told after a command, if it is told anything.
pub open spec fn command_message(command: SimulatedUserCommandView) -> Option<Seq<char>> {
    match command {
        SimulatedUserCommandView::SendUserMessage { transition: _, message } => Some(message),
        SimulatedUserCommandView::Retry { message, reason: _ } => Some(message),
        _ => None,
    }
}

impl SimulatedUserCommand {
    /// What the agent is told after the command, if it is told anything.
    pub fn agent_input(&self) -> (r: Option<String>)
        ensures
            r.deep_view() == command_message(self.deep_view()),
    {
        match self {
            SimulatedUserCommand::SendUserMessage { transition: _, message } =>
                Some(message.clone()),
            SimulatedUserCommand::Retry { message, reason: _ } => Some(message.clone()),
            _ => None,
        }
    }
}

/// The latest observation of the agent among some events.
pub open spec fn latest_of(events: Seq<EvalEventView>) -> Option<AgentObservationView>
    decreases events.len(),
{
    if events.len() == 0 {
        None
    } else {
        match events.last().kind {
            EvalEventKindView::AgentObservation { observation } => Some(observation),
            _ => latest_of(events.drop_last()),
        }
    }
}

impl EvalVm {
    /// Constructs an evaluation that is driven by commands and observations.
    pub fn reducer(program: EvalProgram) -> (r: Result<Self>)
        ensures
            outcome_of(r) == vm_made(program.deep_view()),
    {
        let none = ConstraintLedger { active: TextMap::new(), applied: Vec::new() };
        proof {
            assert(none.active.deep_view() =~= Map::<Seq<char>, JsonView>::empty());
            assert(none.deep_view() =~= ConstraintLedgerView {
                active: Map::empty(),
                applied: Seq::empty(),
            });
        }
        let start = program.graph.start.replica();
        let constraints = match apply_node_constraints(&program.graph, &none, &start) {
            Ok(constraints) => constraints,
            Err(error) => return Err(error),
        };
        let terminal = match program.graph.node(&start) {
            Ok(node) => node.terminal,
            Err(error) => return Err(error),
        };
        let mut vm = EvalVm {
            program,
            projection: EvalProjection {
                status: EvalVmStatus::Running,
                phase: EvalPhase::AwaitingUserAction,
                current_node: start.replica(),
                pending_transition: None,
                constraints,
                step: 0,
            },
            events: Vec::new(),
        };
        assert(vm.events.deep_view() =~= Seq::<EvalEventView>::empty());
        vm.record(EvalEventKind::ProgramStarted { node: start });
        if terminal {
            vm.projection.status = EvalVmStatus::Completed;
        }
        Ok(vm)
    }

    fn record(&mut self, kind: EvalEventKind)
        ensures
            final(self).deep_view() == vm_recorded(old(self).deep_view(), kind.deep_view()),
    {
        let ghost before = self.events.deep_view();
        let step: u64 = following(self.projection.step);
        self.projection.step = step;
        self.events.push(EvalEvent { sequence: step, kind });
        assert(self.events.deep_view() =~= before.push(
            EvalEventView { sequence: step, kind: kind.deep_view() },
        ));
    }

    fn require_phase(&self, expected: EvalPhase) -> (r: Result<()>)
        ensures
            outcome_of(r) == phase_checked(self.deep_view().projection, expected),
    {
        if self.projection.status != EvalVmStatus::Running {
            return Err(reject("evaluation is not running"));
        }
        if self.projection.phase != expected {
            return Err(
                EvalError::InvalidCommand(
                    glue4(
                        "command requires phase ",
                        expected.name(),
                        ", current phase is ",
                        self.projection.phase.name(),
                    ),
                ),
            );
        }
        Ok(())
    }

    /// The program.
    pub fn program(&self) -> (r: &EvalProgram)
        ensures
            r.deep_view() == self.deep_view().program,
    {
        &self.program
    }

    /// The state.
    pub fn projection(&self) -> (r: &EvalProjection)
        ensures
            r.deep_view() == self.deep_view().projection,
    {
        &self.projection
    }

    /// What happened.
    pub fn events(&self) -> (r: &Vec<EvalEvent>)
        ensures
            r.deep_view() == self.deep_view().events,
    {
        &self.events
    }

    /// The name of the thread that the tested agent works in.
    pub fn thread_id(&self) -> (r: String)
        ensures
            r@ == "eval:"@ + self.deep_view().program.graph.case_id,
    {
        glue2("eval:", self.program.graph.case_id.as_str())
    }

    /// The latest observation of the agent.
    pub fn latest_observation(&self) -> (r: Option<AgentObservation>)
        ensures
            r.deep_view() == latest_of(self.deep_view().events),
    {
        let ghost views = self.events.deep_view();
        let mut i: usize = self.events.len();
        assert(views.take(i as int) =~= views);
        while i > 0
            invariant
                views == self.events.deep_view(),
                i <= self.events@.len(),
                latest_of(views) == latest_of(views.take(i as int)),
            decreases i,
        {
            i = i - 1;
            assert(views.take(i + 1).last() == self.events@[i as int].deep_view());
            assert(views.take(i + 1).drop_last() =~= views.take(i as int));
            if let EvalEventKind::AgentObservation { observation } = &self.events[i].kind {
                return Some(observation.replica());
            }
        }
        None
    }

    /// Takes an observation of the agent.
    pub fn observe_agent(&mut self, observation: AgentObservation) -> (r: Result<()>)
        ensures
            (outcome_of(r), final(self).deep_view()) == agent_observed(
                old(self).deep_view(),
                observation.deep_view(),
            ),
    {
        match self.require_phase(EvalPhase::AwaitingAgentObservation) {
            Ok(_) => {},
            Err(error) => return Err(error),
        }
        self.record(EvalEventKind::AgentObservation { observation });
        self.projection.phase = EvalPhase::AwaitingSimulatorDecision;
        Ok(())
    }

    fn send_user_message(&mut self, transition: Option<TransitionId>, message: String) -> (r: Result<
        (),
    >)
        ensures
            (outcome_of(r), final(self).deep_view()) == user_message_sent(
                old(self).deep_view(),
                transition.deep_view(),
                message@,
            ),
    {
        match self.require_phase(EvalPhase::AwaitingUserAction) {
            Ok(_) => {},
            Err(error) => return Err(error),
        }
        if blank(message.as_str()) {
            return Err(reject("user message is empty"));
        }
        if let Some(id) = transition {
            let starts_here = match self.program.graph.transition(&id) {
                Ok(found) => found.from.same(&self.projection.current_node),
                Err(error) => return Err(error),
            };
            if !starts_here {
                return Err(
                    EvalError::InvalidCommand(
                        glue3("transition ", id.0.as_str(), " does not start at current node"),
                    ),
                );
            }
            if self.projection.pending_transition.is_some() {
                return Err(reject("another transition is already pending"));
            }
            self.projection.pending_transition = Some(id);
        }
        self.record(EvalEventKind::UserMessage { message });
        self.projection.phase = EvalPhase::AwaitingAgentObservation;
        Ok(())
    }

    fn retry(&mut self, message: String) -> (r: Result<()>)
        ensures
            (outcome_of(r), final(self).deep_view()) == retried(old(self).deep_view(), message@),
    {
        match self.require_phase(EvalPhase::AwaitingSimulatorDecision) {
            Ok(_) => {},
            Err(error) => return Err(error),
        }
        if self.projection.pending_transition.is_none() {
            return Err(reject("cannot retry without a pending transition"));
        }
        if blank(message.as_str()) {
            return Err(reject("retry message is empty"));
        }
        self.record(EvalEventKind::UserMessage { message });
        self.projection.phase = EvalPhase::AwaitingAgentObservation;
        Ok(())
    }

    fn commit(&mut self, id: TransitionId, delivery: TransitionDelivery, evidence: Vec<EvidenceRef>) -> (r: Result<
        (),
    >)
        ensures
            (outcome_of(r), final(self).deep_view()) == committed(
                old(self).deep_view(),
                id.deep_view(),
                delivery,
                evidence.deep_view(),
            ),
    {
        match self.require_phase(EvalPhase::AwaitingSimulatorDecision) {
            Ok(_) => {},
            Err(error) => return Err(error),
        }
        let (from, to) = match self.program.graph.transition(&id) {
            Ok(found) => (found.from.replica(), found.to.replica()),
            Err(error) => return Err(error),
        };
        if !from.same(&self.projection.current_node) {
            return Err(
                EvalError::InvalidCommand(
                    glue3("transition ", id.0.as_str(), " does not start at current node"),
                ),
            );
        }
        match delivery {
            TransitionDelivery::Explicit => {
                let matches_pending = match &self.projection.pending_transition {
                    Some(pending) => pending.same(&id),
                    None => false,
                };
                if !matches_pending {
                    return Err(reject("explicit commit does not match the pending transition"));
                }
            },
            TransitionDelivery::Epsilon => {
                if self.projection.pending_transition.is_some() || !self.program.epsilon_eligible(
                    &id,
                ) {
                    return Err(reject("transition is not eligible for epsilon delivery"));
                }
            },
        }
        let constraints = match apply_node_constraints(
            &self.program.graph,
            &self.projection.constraints,
            &to,
        ) {
            Ok(constraints) => constraints,
            Err(error) => return Err(error),
        };
        let terminal = match self.program.graph.node(&to) {
            Ok(node) => node.terminal,
            Err(error) => return Err(error),
        };
        self.projection.constraints = constraints;
        self.projection.current_node = to.replica();
        self.projection.pending_transition = None;
        self.projection.phase = EvalPhase::AwaitingUserAction;
        if terminal {
            self.projection.status = EvalVmStatus::Completed;
        }
        self.record(
            EvalEventKind::TransitionCommitted {
                transition: Some(id),
                from,
                to,
                delivery,
                evidence,
            },
        );
        Ok(())
    }

    /// Carries out a command of the simulated user.
    pub fn apply_command(&mut self, command: SimulatedUserCommand) -> (r: Result<()>)
        ensures
            (outcome_of(r), final(self).deep_view()) == command_applied(
                old(self).deep_view(),
                command.deep_view(),
            ),
    {
        self.record(EvalEventKind::SimulatorCommand { command: command.replica() });
        match command {
            SimulatedUserCommand::SendUserMessage { transition, message } => self.send_user_message(
                transition,
                message,
            ),
            SimulatedUserCommand::Retry { message, reason: _ } => self.retry(message),
            SimulatedUserCommand::Commit { transition, delivery, evidence, reason: _ } =>
                self.commit(
                transition,
                delivery,
                evidence,
            ),
            SimulatedUserCommand::Halt { reason } => {
                if self.projection.status != EvalVmStatus::Running {
                    return Err(reject("evaluation is already stopped"));
                }
                self.projection.status = EvalVmStatus::Halted;
                self.projection.phase = EvalPhase::AwaitingSimulatorDecision;
                self.record(EvalEventKind::Halted { reason });
                Ok(())
            },
        }
    }
}

/// No transition is committed before the agent was observed.
pub proof fn law_commit_needs_an_observation(vm: EvalVmView, command: SimulatedUserCommandView)
    requires
        command is Commit,
        vm.projection.phase != EvalPhase::AwaitingSimulatorDecision,
    ensures
        command_applied(vm, command).0 is Err,
{
}

/// A command that fails leaves only its own record.
pub proof fn law_failed_command_is_only_recorded(vm: EvalVmView, command: SimulatedUserCommandView)
    requires
        command_applied(vm, command).0 is Err,
    ensures
        command_applied(vm, command).1 == vm_recorded(
            vm,
            EvalEventKindView::SimulatorCommand { command },
        ),
{
}

/// An evaluation that has stopped neither moves nor observes.
pub proof fn law_stopped_evaluation_stays(
    vm: EvalVmView,
    command: SimulatedUserCommandView,
    observation: AgentObservationView,
)
    requires
        vm.projection.status != EvalVmStatus::Running,
    ensures
        command_applied(vm, command).0 is Err,
        agent_observed(vm, observation).0 is Err,
        agent_observed(vm, observation).1 == vm,
{
}

/// After a message for a transition and an observation of the agent, the transition can be
/// committed explicitly wherever the constraints of its target can be applied; the evaluation is
/// then at the target.
pub proof fn law_message_observation_commit(
    vm: EvalVmView,
    transition: Seq<char>,
    message: Seq<char>,
    observation: AgentObservationView,
    evidence: Seq<EvidenceRefView>,
    reason: Seq<char>,
)
    requires
        vm.projection.status == EvalVmStatus::Running,
        vm.projection.phase == EvalPhase::AwaitingUserAction,
        vm.projection.pending_transition is None,
        !is_blank(message),
        vm.program.graph.transitions.contains_key(transition),
        vm.program.graph.transitions[transition].from == vm.projection.current_node,
        vm_node_applied(
            vm.program.graph,
            vm.projection.constraints,
            vm.program.graph.transitions[transition].to,
        ) is Ok,
    ensures
        ({
            let asked = command_applied(
                vm,
                SimulatedUserCommandView::SendUserMessage { transition: Some(transition), message },
            );
            let answered = agent_observed(asked.1, observation);
            let done = command_applied(
                answered.1,
                SimulatedUserCommandView::Commit {
                    transition,
                    delivery: TransitionDelivery::Explicit,
                    evidence,
                    reason,
                },
            );
            let target = vm.program.graph.transitions[transition].to;
            &&& asked.0 is Ok
            &&& answered.0 is Ok
            &&& done.0 is Ok
            &&& done.1.projection.current_node == target
            &&& done.1.projection.status == if vm.program.graph.nodes[target].terminal {
                EvalVmStatus::Completed
            } else {
                EvalVmStatus::Running
            }
        }),
{
}

} // verus!
