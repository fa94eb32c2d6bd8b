//! The state of an environment and what is exchanged with it.

use crate::eval::action::{AgentAction, AgentActionView};
use crate::eval::program::{
    ConstraintDelta, ConstraintDeltaView, ConstraintId, NodeId, TaskGraph, TaskGraphView,
    TransitionId,
};
use crate::json::{Json, JsonView};
use crate::same::{Replica, Same};
use crate::text_map::TextMap;
use vstd::prelude::*;

verus! {

/// A piece of evidence.
#[derive(Debug, PartialEq, Eq)]
pub struct EvidenceRef {
    pub kind: String,
    pub reference: String,
}

/// What an [`EvidenceRef`] holds.
#[verifier::ext_equal]
pub struct EvidenceRefView {
    pub kind: Seq<char>,
    pub reference: Seq<char>,
}

impl DeepView for EvidenceRef {
    type V = EvidenceRefView;

    open spec fn deep_view(&self) -> Self::V {
        EvidenceRefView {
            kind: self.kind.deep_view(),
            reference: self.reference.deep_view(),
        }
    }
}

impl Replica for EvidenceRef {
    fn replica(&self) -> (r: Self) {
        EvidenceRef {
            kind: self.kind.replica(),
            reference: self.reference.replica(),
        }
    }
}

impl Clone for EvidenceRef {
    fn clone(&self) -> (r: Self)
        ensures
            r.deep_view() == self.deep_view(),
    {
        self.replica()
    }
}

impl Same for EvidenceRef {
    fn same(&self, other: &Self) -> (r: bool) {
        self.kind.same(&other.kind)
            && self.reference.same(&other.reference)
    }
}

/// How far an environment is.
#[derive(Clone, Copy, Debug, PartialEq, Eq, Structural)]
pub enum EnvironmentStatus {
    NotStarted,
    Running,
    Terminated,
}

impl DeepView for EnvironmentStatus {
    type V = EnvironmentStatus;

    open spec fn deep_view(&self) -> Self::V {
        *self
    }
}

impl Replica for EnvironmentStatus {
    fn replica(&self) -> (r: Self) {
        *self
    }
}

impl Same for EnvironmentStatus {
    fn same(&self, other: &Self) -> (r: bool) {
        *self == *other
    }
}

/// Why an environment ended.
#[derive(Debug, PartialEq, Eq)]
pub enum TerminationReason {
    TerminalNode { node: NodeId },
    Controller { reason: String },
}

/// What a [`TerminationReason`] holds.
#[verifier::ext_equal]
pub enum TerminationReasonView {
    TerminalNode { node: Seq<char> },
    Controller { reason: Seq<char> },
}

impl DeepView for TerminationReason {
    type V = TerminationReasonView;

    open spec fn deep_view(&self) -> Self::V {
        match self {
            TerminationReason::TerminalNode { node } => TerminationReasonView::TerminalNode {
                node: node.deep_view(),
            },
            TerminationReason::Controller { reason } => TerminationReasonView::Controller {
                reason: reason.deep_view(),
            },
        }
    }
}

impl Replica for TerminationReason {
    fn replica(&self) -> (r: Self) {
        match self {
            TerminationReason::TerminalNode { node } => TerminationReason::TerminalNode {
                node: node.replica(),
            },
            TerminationReason::Controller { reason } => TerminationReason::Controller {
                reason: reason.replica(),
            },
        }
    }
}

impl Clone for TerminationReason {
    fn clone(&self) -> (r: Self)
        ensures
            r.deep_view() == self.deep_view(),
    {
        self.replica()
    }
}

impl Same for TerminationReason {
    fn same(&self, other: &Self) -> (r: bool) {
        match (self, other) {
            (
                TerminationReason::TerminalNode { node: a_node },
                TerminationReason::TerminalNode { node: b_node },
            ) => a_node.same(b_node),
            (
                TerminationReason::Controller { reason: a_reason },
                TerminationReason::Controller { reason: b_reason },
            ) => a_reason.same(b_reason),
            _ => false,
        }
    }
}

/// A change of the constraints that was made.
#[derive(Debug, PartialEq, Eq)]
pub struct ConstraintApplication {
    pub node: NodeId,
    pub delta: ConstraintDelta,
}

/// What a [`ConstraintApplication`] holds.
#[verifier::ext_equal]
pub struct ConstraintApplicationView {
    pub node: Seq<char>,
    pub delta: ConstraintDeltaView,
}

impl DeepView for ConstraintApplication {
    type V = ConstraintApplicationView;

    open spec fn deep_view(&self) -> Self::V {
        ConstraintApplicationView {
            node: self.node.deep_view(),
            delta: self.delta.deep_view(),
        }
    }
}

impl Replica for ConstraintApplication {
    fn replica(&self) -> (r: Self) {
        ConstraintApplication {
            node: self.node.replica(),
            delta: self.delta.replica(),
        }
    }
}

impl Clone for ConstraintApplication {
    fn clone(&self) -> (r: Self)
        ensures
            r.deep_view() == self.deep_view(),
    {
        self.replica()
    }
}

impl Same for ConstraintApplication {
    fn same(&self, other: &Self) -> (r: bool) {
        self.node.same(&other.node)
            && self.delta.same(&other.delta)
    }
}

/// The constraints that hold, and every change of them.
#[derive(Debug, PartialEq, Eq)]
pub struct ConstraintLedger {
    pub active: TextMap<Json>,
    pub applied: Vec<ConstraintApplication>,
}

/// What a [`ConstraintLedger`] holds.
#[verifier::ext_equal]
pub struct ConstraintLedgerView {
    pub active: Map<Seq<char>, JsonView>,
    pub applied: Seq<ConstraintApplicationView>,
}

impl DeepView for ConstraintLedger {
    type V = ConstraintLedgerView;

    open spec fn deep_view(&self) -> Self::V {
        ConstraintLedgerView {
            active: self.active.deep_view(),
            applied: self.applied.deep_view(),
        }
    }
}

impl Replica for ConstraintLedger {
    fn replica(&self) -> (r: Self) {
        ConstraintLedger {
            active: self.active.replica(),
            applied: self.applied.replica(),
        }
    }
}

impl Clone for ConstraintLedger {
    fn clone(&self) -> (r: Self)
        ensures
            r.deep_view() == self.deep_view(),
    {
        self.replica()
    }
}

impl Same for ConstraintLedger {
    fn same(&self, other: &Self) -> (r: bool) {
        self.active.same(&other.active)
            && self.applied.same(&other.applied)
    }
}

/// How a constraint became known.
#[derive(Debug, PartialEq, Eq)]
pub enum ExposureOrigin {
    ExplicitDisclosure,
    EnvironmentDerived { inputs: Vec<ConstraintId>, rule: String },
    ContextProvided { source: String },
}

/// What an [`ExposureOrigin`] holds.
#[verifier::ext_equal]
pub enum ExposureOriginView {
    ExplicitDisclosure,
    EnvironmentDerived { inputs: Seq<Seq<char>>, rule: Seq<char> },
    ContextProvided { source: Seq<char> },
}

impl DeepView for ExposureOrigin {
    type V = ExposureOriginView;

    open spec fn deep_view(&self) -> Self::V {
        match self {
            ExposureOrigin::ExplicitDisclosure => ExposureOriginView::ExplicitDisclosure,
            ExposureOrigin::EnvironmentDerived { inputs, rule } =>
                ExposureOriginView::EnvironmentDerived {
                inputs: inputs.deep_view(),
                rule: rule.deep_view(),
            },
            ExposureOrigin::ContextProvided { source } => ExposureOriginView::ContextProvided {
                source: source.deep_view(),
            },
        }
    }
}

impl Replica for ExposureOrigin {
    fn replica(&self) -> (r: Self) {
        match self {
            ExposureOrigin::ExplicitDisclosure => ExposureOrigin::ExplicitDisclosure,
            ExposureOrigin::EnvironmentDerived { inputs, rule } =>
                ExposureOrigin::EnvironmentDerived {
                inputs: inputs.replica(),
                rule: rule.replica(),
            },
            ExposureOrigin::ContextProvided { source } => ExposureOrigin::ContextProvided {
                source: source.replica(),
            },
        }
    }
}

impl Clone for ExposureOrigin {
    fn clone(&self) -> (r: Self)
        ensures
            r.deep_view() == self.deep_view(),
    {
        self.replica()
    }
}

impl Same for ExposureOrigin {
    fn same(&self, other: &Self) -> (r: bool) {
        match (self, other) {
            (ExposureOrigin::ExplicitDisclosure, ExposureOrigin::ExplicitDisclosure) => true,
            (
                ExposureOrigin::EnvironmentDerived { inputs: a_inputs, rule: a_rule },
                ExposureOrigin::EnvironmentDerived { inputs: b_inputs, rule: b_rule },
            ) => a_inputs.same(b_inputs) && a_rule.same(b_rule),
            (
                ExposureOrigin::ContextProvided { source: a_source },
                ExposureOrigin::ContextProvided { source: b_source },
            ) => a_source.same(b_source),
            _ => false,
        }
    }
}

/// A constraint that became known.
#[derive(Debug, PartialEq, Eq)]
pub struct ExposureRecord {
    pub constraint: ConstraintId,
    pub origin: ExposureOrigin,
    pub observation_sequence: u64,
}

/// What an [`ExposureRecord`] holds.
#[verifier::ext_equal]
pub struct ExposureRecordView {
    pub constraint: Seq<char>,
    pub origin: ExposureOriginView,
    pub observation_sequence: u64,
}

impl DeepView for ExposureRecord {
    type V = ExposureRecordView;

    open spec fn deep_view(&self) -> Self::V {
        ExposureRecordView {
            constraint: self.constraint.deep_view(),
            origin: self.origin.deep_view(),
            observation_sequence: self.observation_sequence.deep_view(),
        }
    }
}

impl Replica for ExposureRecord {
    fn replica(&self) -> (r: Self) {
        ExposureRecord {
            constraint: self.constraint.replica(),
            origin: self.origin.replica(),
            observation_sequence: self.observation_sequence.replica(),
        }
    }
}

impl Clone for ExposureRecord {
    fn clone(&self) -> (r: Self)
        ensures
            r.deep_view() == self.deep_view(),
    {
        self.replica()
    }
}

impl Same for ExposureRecord {
    fn same(&self, other: &Self) -> (r: bool) {
        self.constraint.same(&other.constraint)
            && self.origin.same(&other.origin)
            && self.observation_sequence.same(&other.observation_sequence)
    }
}

/// The constraints that are known.
#[derive(Debug, PartialEq, Eq)]
pub struct ExposureLedger {
    pub records: TextMap<ExposureRecord>,
}

/// What an [`ExposureLedger`] holds.
#[verifier::ext_equal]
pub struct ExposureLedgerView {
    pub records: Map<Seq<char>, ExposureRecordView>,
}

impl DeepView for ExposureLedger {
    type V = ExposureLedgerView;

    open spec fn deep_view(&self) -> Self::V {
        ExposureLedgerView {
            records: self.records.deep_view(),
        }
    }
}

impl Replica for ExposureLedger {
    fn replica(&self) -> (r: Self) {
        ExposureLedger {
            records: self.records.replica(),
        }
    }
}

impl Clone for ExposureLedger {
    fn clone(&self) -> (r: Self)
        ensures
            r.deep_view() == self.deep_view(),
    {
        self.replica()
    }
}

impl Same for ExposureLedger {
    fn same(&self, other: &Self) -> (r: bool) {
        self.records.same(&other.records)
    }
}

/// The state of an environment.
#[derive(Debug, PartialEq, Eq)]
pub struct EnvironmentState {
    pub status: EnvironmentStatus,
    pub current_node: NodeId,
    pub constraints: ConstraintLedger,
    pub exposures: ExposureLedger,
    pub termination: Option<TerminationReason>,
    pub step: u64,
}

/// What an [`EnvironmentState`] holds.
#[verifier::ext_equal]
pub struct EnvironmentStateView {
    pub status: EnvironmentStatus,
    pub current_node: Seq<char>,
    pub constraints: ConstraintLedgerView,
    pub exposures: ExposureLedgerView,
    pub termination: Option<TerminationReasonView>,
    pub step: u64,
}

impl DeepView for EnvironmentState {
    type V = EnvironmentStateView;

    open spec fn deep_view(&self) -> Self::V {
        EnvironmentStateView {
            status: self.status.deep_view(),
            current_node: self.current_node.deep_view(),
            constraints: self.constraints.deep_view(),
            exposures: self.exposures.deep_view(),
            termination: self.termination.deep_view(),
            step: self.step.deep_view(),
        }
    }
}

impl Replica for EnvironmentState {
    fn replica(&self) -> (r: Self) {
        EnvironmentState {
            status: self.status.replica(),
            current_node: self.current_node.replica(),
            constraints: self.constraints.replica(),
            exposures: self.exposures.replica(),
            termination: self.termination.replica(),
            step: self.step.replica(),
        }
    }
}

impl Clone for EnvironmentState {
    fn clone(&self) -> (r: Self)
        ensures
            r.deep_view() == self.deep_view(),
    {
        self.replica()
    }
}

impl Same for EnvironmentState {
    fn same(&self, other: &Self) -> (r: bool) {
        self.status.same(&other.status)
            && self.current_node.same(&other.current_node)
            && self.constraints.same(&other.constraints)
            && self.exposures.same(&other.exposures)
            && self.termination.same(&other.termination)
            && self.step.same(&other.step)
    }
}

/// An environment at a moment.
#[derive(Debug, PartialEq, Eq)]
pub struct EnvironmentSnapshot {
    pub environment_id: String,
    pub version: String,
    pub status: EnvironmentStatus,
    pub step: u64,
    pub state: Json,
}

/// What an [`EnvironmentSnapshot`] holds.
#[verifier::ext_equal]
pub struct EnvironmentSnapshotView {
    pub environment_id: Seq<char>,
    pub version: Seq<char>,
    pub status: EnvironmentStatus,
    pub step: u64,
    pub state: JsonView,
}

impl DeepView for EnvironmentSnapshot {
    type V = EnvironmentSnapshotView;

    open spec fn deep_view(&self) -> Self::V {
        EnvironmentSnapshotView {
            environment_id: self.environment_id.deep_view(),
            version: self.version.deep_view(),
            status: self.status.deep_view(),
            step: self.step.deep_view(),
            state: self.state.deep_view(),
        }
    }
}

impl Replica for EnvironmentSnapshot {
    fn replica(&self) -> (r: Self) {
        EnvironmentSnapshot {
            environment_id: self.environment_id.replica(),
            version: self.version.replica(),
            status: self.status.replica(),
            step: self.step.replica(),
            state: self.state.replica(),
        }
    }
}

impl Clone for EnvironmentSnapshot {
    fn clone(&self) -> (r: Self)
        ensures
            r.deep_view() == self.deep_view(),
    {
        self.replica()
    }
}

impl Same for EnvironmentSnapshot {
    fn same(&self, other: &Self) -> (r: bool) {
        self.environment_id.same(&other.environment_id)
            && self.version.same(&other.version)
            && self.status.same(&other.status)
            && self.step.same(&other.step)
            && self.state.same(&other.state)
    }
}

/// What an agent is shown.
#[derive(Debug, PartialEq, Eq)]
pub struct EnvironmentObservation {
    pub user_text: String,
    pub visible_state: Json,
    pub metadata: Json,
}

/// What an [`EnvironmentObservation`] holds.
#[verifier::ext_equal]
pub struct EnvironmentObservationView {
    pub user_text: Seq<char>,
    pub visible_state: JsonView,
    pub metadata: JsonView,
}

impl DeepView for EnvironmentObservation {
    type V = EnvironmentObservationView;

    open spec fn deep_view(&self) -> Self::V {
        EnvironmentObservationView {
            user_text: self.user_text.deep_view(),
            visible_state: self.visible_state.deep_view(),
            metadata: self.metadata.deep_view(),
        }
    }
}

impl Replica for EnvironmentObservation {
    fn replica(&self) -> (r: Self) {
        EnvironmentObservation {
            user_text: self.user_text.replica(),
            visible_state: self.visible_state.replica(),
            metadata: self.metadata.replica(),
        }
    }
}

impl Clone for EnvironmentObservation {
    fn clone(&self) -> (r: Self)
        ensures
            r.deep_view() == self.deep_view(),
    {
        self.replica()
    }
}

impl Same for EnvironmentObservation {
    fn same(&self, other: &Self) -> (r: bool) {
        self.user_text.same(&other.user_text)
            && self.visible_state.same(&other.visible_state)
            && self.metadata.same(&other.metadata)
    }
}

/// How a constraint is made known.
#[derive(Debug, PartialEq, Eq)]
pub enum ConstraintExposure {
    Disclose { constraint: ConstraintId },
    Derive { constraint: ConstraintId, inputs: Vec<ConstraintId>, rule: String },
    ProvideContext { constraint: ConstraintId, source: String },
}

/// What a [`ConstraintExposure`] holds.
#[verifier::ext_equal]
pub enum ConstraintExposureView {
    Disclose { constraint: Seq<char> },
    Derive { constraint: Seq<char>, inputs: Seq<Seq<char>>, rule: Seq<char> },
    ProvideContext { constraint: Seq<char>, source: Seq<char> },
}

impl DeepView for ConstraintExposure {
    type V = ConstraintExposureView;

    open spec fn deep_view(&self) -> Self::V {
        match self {
            ConstraintExposure::Disclose { constraint } => ConstraintExposureView::Disclose {
                constraint: constraint.deep_view(),
            },
            ConstraintExposure::Derive { constraint, inputs, rule } =>
                ConstraintExposureView::Derive {
                constraint: constraint.deep_view(),
                inputs: inputs.deep_view(),
                rule: rule.deep_view(),
            },
            ConstraintExposure::ProvideContext { constraint, source } =>
                ConstraintExposureView::ProvideContext {
                constraint: constraint.deep_view(),
                source: source.deep_view(),
            },
        }
    }
}

impl Replica for ConstraintExposure {
    fn replica(&self) -> (r: Self) {
        match self {
            ConstraintExposure::Disclose { constraint } => ConstraintExposure::Disclose {
                constraint: constraint.replica(),
            },
            ConstraintExposure::Derive { constraint, inputs, rule } => ConstraintExposure::Derive {
                constraint: constraint.replica(),
                inputs: inputs.replica(),
                rule: rule.replica(),
            },
            ConstraintExposure::ProvideContext { constraint, source } =>
                ConstraintExposure::ProvideContext {
                constraint: constraint.replica(),
                source: source.replica(),
            },
        }
    }
}

impl Clone for ConstraintExposure {
    fn clone(&self) -> (r: Self)
        ensures
            r.deep_view() == self.deep_view(),
    {
        self.replica()
    }
}

impl Same for ConstraintExposure {
    fn same(&self, other: &Self) -> (r: bool) {
        match (self, other) {
            (
                ConstraintExposure::Disclose { constraint: a_constraint },
                ConstraintExposure::Disclose { constraint: b_constraint },
            ) => a_constraint.same(b_constraint),
            (
                ConstraintExposure::Derive {
                    constraint: a_constraint,
                    inputs: a_inputs,
                    rule: a_rule,
                },
                ConstraintExposure::Derive {
                    constraint: b_constraint,
                    inputs: b_inputs,
                    rule: b_rule,
                },
            ) => a_constraint.same(b_constraint) && a_inputs.same(b_inputs) && a_rule.same(b_rule),
            (
                ConstraintExposure::ProvideContext { constraint: a_constraint, source: a_source },
                ConstraintExposure::ProvideContext { constraint: b_constraint, source: b_source },
            ) => a_constraint.same(b_constraint) && a_source.same(b_source),
            _ => false,
        }
    }
}

/// What an observation is made of.
#[derive(Debug, PartialEq, Eq)]
pub struct ObservationContent {
    pub user_text: String,
    pub exposures: Vec<ConstraintExposure>,
    pub metadata: Json,
}

/// What an [`ObservationContent`] holds.
#[verifier::ext_equal]
pub struct ObservationContentView {
    pub user_text: Seq<char>,
    pub exposures: Seq<ConstraintExposureView>,
    pub metadata: JsonView,
}

impl DeepView for ObservationContent {
    type V = ObservationContentView;

    open spec fn deep_view(&self) -> Self::V {
        ObservationContentView {
            user_text: self.user_text.deep_view(),
            exposures: self.exposures.deep_view(),
            metadata: self.metadata.deep_view(),
        }
    }
}

impl Replica for ObservationContent {
    fn replica(&self) -> (r: Self) {
        ObservationContent {
            user_text: self.user_text.replica(),
            exposures: self.exposures.replica(),
            metadata: self.metadata.replica(),
        }
    }
}

impl Clone for ObservationContent {
    fn clone(&self) -> (r: Self)
        ensures
            r.deep_view() == self.deep_view(),
    {
        self.replica()
    }
}

impl Same for ObservationContent {
    fn same(&self, other: &Self) -> (r: bool) {
        self.user_text.same(&other.user_text)
            && self.exposures.same(&other.exposures)
            && self.metadata.same(&other.metadata)
    }
}

/// Why an observation is made.
#[derive(Debug, PartialEq, Eq)]
pub enum ObservationCause {
    Reset,
    Transition { transition: TransitionId },
    Retry { reason: String },
}

/// What an [`ObservationCause`] holds.
#[verifier::ext_equal]
pub enum ObservationCauseView {
    Reset,
    Transition { transition: Seq<char> },
    Retry { reason: Seq<char> },
}

impl DeepView for ObservationCause {
    type V = ObservationCauseView;

    open spec fn deep_view(&self) -> Self::V {
        match self {
            ObservationCause::Reset => ObservationCauseView::Reset,
            ObservationCause::Transition { transition } => ObservationCauseView::Transition {
                transition: transition.deep_view(),
            },
            ObservationCause::Retry { reason } => ObservationCauseView::Retry {
                reason: reason.deep_view(),
            },
        }
    }
}

impl Replica for ObservationCause {
    fn replica(&self) -> (r: Self) {
        match self {
            ObservationCause::Reset => ObservationCause::Reset,
            ObservationCause::Transition { transition } => ObservationCause::Transition {
                transition: transition.replica(),
            },
            ObservationCause::Retry { reason } => ObservationCause::Retry {
                reason: reason.replica(),
            },
        }
    }
}

impl Clone for ObservationCause {
    fn clone(&self) -> (r: Self)
        ensures
            r.deep_view() == self.deep_view(),
    {
        self.replica()
    }
}

impl Same for ObservationCause {
    fn same(&self, other: &Self) -> (r: bool) {
        match (self, other) {
            (ObservationCause::Reset, ObservationCause::Reset) => true,
            (
                ObservationCause::Transition { transition: a_transition },
                ObservationCause::Transition { transition: b_transition },
            ) => a_transition.same(b_transition),
            (
                ObservationCause::Retry { reason: a_reason },
                ObservationCause::Retry { reason: b_reason },
            ) => a_reason.same(b_reason),
            _ => false,
        }
    }
}

/// What an observation is made from.
#[derive(Debug, PartialEq, Eq)]
pub struct ObservationRealizerInput {
    pub graph: TaskGraph,
    pub state: EnvironmentState,
    pub cause: ObservationCause,
    pub latest_action: Option<AgentAction>,
}

/// What an [`ObservationRealizerInput`] holds.
#[verifier::ext_equal]
pub struct ObservationRealizerInputView {
    pub graph: TaskGraphView,
    pub state: EnvironmentStateView,
    pub cause: ObservationCauseView,
    pub latest_action: Option<AgentActionView>,
}

impl DeepView for ObservationRealizerInput {
    type V = ObservationRealizerInputView;

    open spec fn deep_view(&self) -> Self::V {
        ObservationRealizerInputView {
            graph: self.graph.deep_view(),
            state: self.state.deep_view(),
            cause: self.cause.deep_view(),
            latest_action: self.latest_action.deep_view(),
        }
    }
}

impl Replica for ObservationRealizerInput {
    fn replica(&self) -> (r: Self) {
        ObservationRealizerInput {
            graph: self.graph.replica(),
            state: self.state.replica(),
            cause: self.cause.replica(),
            latest_action: self.latest_action.replica(),
        }
    }
}

impl Clone for ObservationRealizerInput {
    fn clone(&self) -> (r: Self)
        ensures
            r.deep_view() == self.deep_view(),
    {
        self.replica()
    }
}

/// What happens after a turn of the agent.
#[derive(Debug, PartialEq, Eq)]
pub enum EnvironmentDecision {
    Transition { transition: TransitionId, evidence: Vec<EvidenceRef>, reason: String },
    Retry { reason: String },
    Terminate { reason: String },
}

/// What an [`EnvironmentDecision`] holds.
#[verifier::ext_equal]
pub enum EnvironmentDecisionView {
    Transition { transition: Seq<char>, evidence: Seq<EvidenceRefView>, reason: Seq<char> },
    Retry { reason: Seq<char> },
    Terminate { reason: Seq<char> },
}

impl DeepView for EnvironmentDecision {
    type V = EnvironmentDecisionView;

    open spec fn deep_view(&self) -> Self::V {
        match self {
            EnvironmentDecision::Transition { transition, evidence, reason } =>
                EnvironmentDecisionView::Transition {
                transition: transition.deep_view(),
                evidence: evidence.deep_view(),
                reason: reason.deep_view(),
            },
            EnvironmentDecision::Retry { reason } => EnvironmentDecisionView::Retry {
                reason: reason.deep_view(),
            },
            EnvironmentDecision::Terminate { reason } => EnvironmentDecisionView::Terminate {
                reason: reason.deep_view(),
            },
        }
    }
}

impl Replica for EnvironmentDecision {
    fn replica(&self) -> (r: Self) {
        match self {
            EnvironmentDecision::Transition { transition, evidence, reason } =>
                EnvironmentDecision::Transition {
                transition: transition.replica(),
                evidence: evidence.replica(),
                reason: reason.replica(),
            },
            EnvironmentDecision::Retry { reason } => EnvironmentDecision::Retry {
                reason: reason.replica(),
            },
            EnvironmentDecision::Terminate { reason } => EnvironmentDecision::Terminate {
                reason: reason.replica(),
            },
        }
    }
}

impl Clone for EnvironmentDecision {
    fn clone(&self) -> (r: Self)
        ensures
            r.deep_view() == self.deep_view(),
    {
        self.replica()
    }
}

impl Same for EnvironmentDecision {
    fn same(&self, other: &Self) -> (r: bool) {
        match (self, other) {
            (
                EnvironmentDecision::Transition {
                    transition: a_transition,
                    evidence: a_evidence,
                    reason: a_reason,
                },
                EnvironmentDecision::Transition {
                    transition: b_transition,
                    evidence: b_evidence,
                    reason: b_reason,
                },
            ) => a_transition.same(b_transition) && a_evidence.same(b_evidence) && a_reason.same(b_reason),
            (
                EnvironmentDecision::Retry { reason: a_reason },
                EnvironmentDecision::Retry { reason: b_reason },
            ) => a_reason.same(b_reason),
            (
                EnvironmentDecision::Terminate { reason: a_reason },
                EnvironmentDecision::Terminate { reason: b_reason },
            ) => a_reason.same(b_reason),
            _ => false,
        }
    }
}

/// What a decision is made from.
#[derive(Debug, PartialEq, Eq)]
pub struct EnvironmentControllerInput {
    pub graph: TaskGraph,
    pub state: EnvironmentState,
    pub action: AgentAction,
}

/// What an [`EnvironmentControllerInput`] holds.
#[verifier::ext_equal]
pub struct EnvironmentControllerInputView {
    pub graph: TaskGraphView,
    pub state: EnvironmentStateView,
    pub action: AgentActionView,
}

impl DeepView for EnvironmentControllerInput {
    type V = EnvironmentControllerInputView;

    open spec fn deep_view(&self) -> Self::V {
        EnvironmentControllerInputView {
            graph: self.graph.deep_view(),
            state: self.state.deep_view(),
            action: self.action.deep_view(),
        }
    }
}

impl Replica for EnvironmentControllerInput {
    fn replica(&self) -> (r: Self) {
        EnvironmentControllerInput {
            graph: self.graph.replica(),
            state: self.state.replica(),
            action: self.action.replica(),
        }
    }
}

impl Clone for EnvironmentControllerInput {
    fn clone(&self) -> (r: Self)
        ensures
            r.deep_view() == self.deep_view(),
    {
        self.replica()
    }
}

/// What a step of an environment gives.
#[derive(Debug, PartialEq, Eq)]
pub struct EnvironmentOutput {
    pub observation: Option<EnvironmentObservation>,
    pub status: EnvironmentStatus,
}

/// What an [`EnvironmentOutput`] holds.
#[verifier::ext_equal]
pub struct EnvironmentOutputView {
    pub observation: Option<EnvironmentObservationView>,
    pub status: EnvironmentStatus,
}

impl DeepView for EnvironmentOutput {
    type V = EnvironmentOutputView;

    open spec fn deep_view(&self) -> Self::V {
        EnvironmentOutputView {
            observation: self.observation.deep_view(),
            status: self.status.deep_view(),
        }
    }
}

impl Replica for EnvironmentOutput {
    fn replica(&self) -> (r: Self) {
        EnvironmentOutput {
            observation: self.observation.replica(),
            status: self.status.replica(),
        }
    }
}

impl Clone for EnvironmentOutput {
    fn clone(&self) -> (r: Self)
        ensures
            r.deep_view() == self.deep_view(),
    {
        self.replica()
    }
}

impl Same for EnvironmentOutput {
    fn same(&self, other: &Self) -> (r: bool) {
        self.observation.same(&other.observation)
            && self.status.same(&other.status)
    }
}

/// What happened in an environment.
#[derive(Debug, PartialEq, Eq)]
pub enum EnvironmentEventKind {
    Started { node: NodeId },
    ObservationEmitted { observation: EnvironmentObservation, exposures: Vec<ExposureRecord> },
    AgentActionRecorded { action: AgentAction },
    DecisionMade { decision: EnvironmentDecision },
    TransitionApplied {
        transition: TransitionId,
        from: NodeId,
        to: NodeId,
        evidence: Vec<EvidenceRef>,
    },
    Terminated { reason: TerminationReason },
    Custom { kind: String, payload: Json },
}

/// What an [`EnvironmentEventKind`] holds.
#[verifier::ext_equal]
pub enum EnvironmentEventKindView {
    Started { node: Seq<char> },
    ObservationEmitted {
        observation: EnvironmentObservationView,
        exposures: Seq<ExposureRecordView>,
    },
    AgentActionRecorded { action: AgentActionView },
    DecisionMade { decision: EnvironmentDecisionView },
    TransitionApplied {
        transition: Seq<char>,
        from: Seq<char>,
        to: Seq<char>,
        evidence: Seq<EvidenceRefView>,
    },
    Terminated { reason: TerminationReasonView },
    Custom { kind: Seq<char>, payload: JsonView },
}

impl DeepView for EnvironmentEventKind {
    type V = EnvironmentEventKindView;

    open spec fn deep_view(&self) -> Self::V {
        match self {
            EnvironmentEventKind::Started { node } => EnvironmentEventKindView::Started {
                node: node.deep_view(),
            },
            EnvironmentEventKind::ObservationEmitted { observation, exposures } =>
                EnvironmentEventKindView::ObservationEmitted {
                observation: observation.deep_view(),
                exposures: exposures.deep_view(),
            },
            EnvironmentEventKind::AgentActionRecorded { action } =>
                EnvironmentEventKindView::AgentActionRecorded {
                action: action.deep_view(),
            },
            EnvironmentEventKind::DecisionMade { decision } =>
                EnvironmentEventKindView::DecisionMade {
                decision: decision.deep_view(),
            },
            EnvironmentEventKind::TransitionApplied { transition, from, to, evidence } =>
                EnvironmentEventKindView::TransitionApplied {
                transition: transition.deep_view(),
                from: from.deep_view(),
                to: to.deep_view(),
                evidence: evidence.deep_view(),
            },
            EnvironmentEventKind::Terminated { reason } => EnvironmentEventKindView::Terminated {
                reason: reason.deep_view(),
            },
            EnvironmentEventKind::Custom { kind, payload } => EnvironmentEventKindView::Custom {
                kind: kind.deep_view(),
                payload: payload.deep_view(),
            },
        }
    }
}

impl Replica for EnvironmentEventKind {
    fn replica(&self) -> (r: Self) {
        match self {
            EnvironmentEventKind::Started { node } => EnvironmentEventKind::Started {
                node: node.replica(),
            },
            EnvironmentEventKind::ObservationEmitted { observation, exposures } =>
                EnvironmentEventKind::ObservationEmitted {
                observation: observation.replica(),
                exposures: exposures.replica(),
            },
            EnvironmentEventKind::AgentActionRecorded { action } =>
                EnvironmentEventKind::AgentActionRecorded {
                action: action.replica(),
            },
            EnvironmentEventKind::DecisionMade { decision } => EnvironmentEventKind::DecisionMade {
                decision: decision.replica(),
            },
            EnvironmentEventKind::TransitionApplied { transition, from, to, evidence } =>
                EnvironmentEventKind::TransitionApplied {
                transition: transition.replica(),
                from: from.replica(),
                to: to.replica(),
                evidence: evidence.replica(),
            },
            EnvironmentEventKind::Terminated { reason } => EnvironmentEventKind::Terminated {
                reason: reason.replica(),
            },
            EnvironmentEventKind::Custom { kind, payload } => EnvironmentEventKind::Custom {
                kind: kind.replica(),
                payload: payload.replica(),
            },
        }
    }
}

impl Clone for EnvironmentEventKind {
    fn clone(&self) -> (r: Self)
        ensures
            r.deep_view() == self.deep_view(),
    {
        self.replica()
    }
}

impl Same for EnvironmentEventKind {
    fn same(&self, other: &Self) -> (r: bool) {
        match (self, other) {
            (
                EnvironmentEventKind::Started { node: a_node },
                EnvironmentEventKind::Started { node: b_node },
            ) => a_node.same(b_node),
            (
                EnvironmentEventKind::ObservationEmitted {
                    observation: a_observation,
                    exposures: a_exposures,
                },
                EnvironmentEventKind::ObservationEmitted {
                    observation: b_observation,
                    exposures: b_exposures,
                },
            ) => a_observation.same(b_observation) && a_exposures.same(b_exposures),
            (
                EnvironmentEventKind::AgentActionRecorded { action: a_action },
                EnvironmentEventKind::AgentActionRecorded { action: b_action },
            ) => a_action.same(b_action),
            (
                EnvironmentEventKind::DecisionMade { decision: a_decision },
                EnvironmentEventKind::DecisionMade { decision: b_decision },
            ) => a_decision.same(b_decision),
            (
                EnvironmentEventKind::TransitionApplied {
                    transition: a_transition,
                    from: a_from,
                    to: a_to,
                    evidence: a_evidence,
                },
                EnvironmentEventKind::TransitionApplied {
                    transition: b_transition,
                    from: b_from,
                    to: b_to,
                    evidence: b_evidence,
                },
            ) => a_transition.same(b_transition) && a_from.same(b_from) && a_to.same(b_to) && a_evidence.same(b_evidence),
            (
                EnvironmentEventKind::Terminated { reason: a_reason },
                EnvironmentEventKind::Terminated { reason: b_reason },
            ) => a_reason.same(b_reason),
            (
                EnvironmentEventKind::Custom { kind: a_kind, payload: a_payload },
                EnvironmentEventKind::Custom { kind: b_kind, payload: b_payload },
            ) => a_kind.same(b_kind) && a_payload.same(b_payload),
            _ => false,
        }
    }
}

/// What happened in an environment, in its order.
#[derive(Debug, PartialEq, Eq)]
pub struct EnvironmentEvent {
    pub sequence: u64,
    pub kind: EnvironmentEventKind,
}

/// What an [`EnvironmentEvent`] holds.
#[verifier::ext_equal]
pub struct EnvironmentEventView {
    pub sequence: u64,
    pub kind: EnvironmentEventKindView,
}

impl DeepView for EnvironmentEvent {
    type V = EnvironmentEventView;

    open spec fn deep_view(&self) -> Self::V {
        EnvironmentEventView {
            sequence: self.sequence.deep_view(),
            kind: self.kind.deep_view(),
        }
    }
}

impl Replica for EnvironmentEvent {
    fn replica(&self) -> (r: Self) {
        EnvironmentEvent {
            sequence: self.sequence.replica(),
            kind: self.kind.replica(),
        }
    }
}

impl Clone for EnvironmentEvent {
    fn clone(&self) -> (r: Self)
        ensures
            r.deep_view() == self.deep_view(),
    {
        self.replica()
    }
}

impl Same for EnvironmentEvent {
    fn same(&self, other: &Self) -> (r: bool) {
        self.sequence.same(&other.sequence)
            && self.kind.same(&other.kind)
    }
}

} // verus!
