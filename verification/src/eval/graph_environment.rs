//! Environments that walk a task graph, step by step.

use crate::eval::action::{AgentAction, AgentActionView};
use crate::eval::environment::{
    exposures_prepared, following, next_number, node_applied, prepare_exposure_records, refused,
    apply_node, refuse,
};
use crate::eval::error::{EvalError, EvalErrorView, Result};
use crate::eval::program::{required_node, required_transition, TaskGraph, TaskGraphView};
use crate::eval::state::{
    ConstraintLedger, ConstraintLedgerView, EnvironmentControllerInput,
    EnvironmentControllerInputView, EnvironmentDecision, EnvironmentDecisionView, EnvironmentEvent,
    EnvironmentEventKind, EnvironmentEventKindView, EnvironmentEventView, EnvironmentObservation,
    EnvironmentObservationView, EnvironmentOutput, EnvironmentOutputView, EnvironmentSnapshot,
    EnvironmentSnapshotView, EnvironmentState, EnvironmentStateView, EnvironmentStatus,
    ExposureLedger, ExposureLedgerView, ExposureRecord, ExposureRecordView, ObservationCause,
    ObservationCauseView, ObservationContent, ObservationContentView, ObservationRealizerInput,
    ObservationRealizerInputView, TerminationReason, TerminationReasonView,
};
use crate::eval::state_codec::{environment_state_json, make_environment_state};
use crate::json::{lemma_object_view, Json, JsonView};
use crate::same::{outcome_of, Replica, Same};
use crate::text::{blank, glue3, is_blank};
use crate::text_map::TextMap;
use vstd::prelude::*;

verus! {

/// A task graph, where the environment is in it, and what happened.
#[derive(Debug, PartialEq, Eq)]
pub struct EnvironmentCore {
    pub graph: TaskGraph,
    pub state: EnvironmentState,
    pub events: Vec<EnvironmentEvent>,
}

/// What an [`EnvironmentCore`] holds.
#[verifier::ext_equal]
pub struct EnvironmentCoreView {
    pub graph: TaskGraphView,
    pub state: EnvironmentStateView,
    pub events: Seq<EnvironmentEventView>,
}

impl DeepView for EnvironmentCore {
    type V = EnvironmentCoreView;

    open spec fn deep_view(&self) -> Self::V {
        EnvironmentCoreView {
            graph: self.graph.deep_view(),
            state: self.state.deep_view(),
            events: self.events.deep_view(),
        }
    }
}

impl Replica for EnvironmentCore {
    fn replica(&self) -> (r: Self) {
        EnvironmentCore {
            graph: self.graph.replica(),
            state: self.state.replica(),
            events: self.events.replica(),
        }
    }
}

impl Clone for EnvironmentCore {
    fn clone(&self) -> (r: Self)
        ensures
            r.deep_view() == self.deep_view(),
    {
        self.replica()
    }
}

/// One more thing happened.
pub open spec fn recorded(
    core: EnvironmentCoreView,
    kind: EnvironmentEventKindView,
) -> EnvironmentCoreView {
    let step = next_number(core.state.step);
    EnvironmentCoreView {
        state: EnvironmentStateView { step, ..core.state },
        events: core.events.push(EnvironmentEventView { sequence: step, kind }),
        ..core
    }
}

/// The environment has ended.
pub open spec fn terminated(
    core: EnvironmentCoreView,
    reason: TerminationReasonView,
) -> EnvironmentCoreView {
    recorded(
        EnvironmentCoreView {
            state: EnvironmentStateView {
                status: EnvironmentStatus::Terminated,
                termination: Some(reason),
                ..core.state
            },
            ..core
        },
        EnvironmentEventKindView::Terminated { reason },
    )
}

/// An environment before it is started, unless its first node cannot be entered.
pub open spec fn environment_made(graph: TaskGraphView) -> core::result::Result<
    EnvironmentCoreView,
    EvalErrorView,
> {
    let none = ConstraintLedgerView { active: Map::empty(), applied: Seq::empty() };
    match node_applied(graph, none, graph.start) {
        Err(error) => Err(error),
        Ok(constraints) => Ok(
            EnvironmentCoreView {
                graph,
                state: EnvironmentStateView {
                    status: EnvironmentStatus::NotStarted,
                    current_node: graph.start,
                    constraints,
                    exposures: ExposureLedgerView { records: Map::empty() },
                    termination: None,
                    step: 0,
                },
                events: Seq::empty(),
            },
        ),
    }
}

/// What the start of an environment comes to, and the environment then. An observation is wanted
/// unless the first node is terminal.
pub open spec fn reset_begun(core: EnvironmentCoreView) -> (
    core::result::Result<Option<ObservationCauseView>, EvalErrorView>,
    EnvironmentCoreView,
) {
    if core.state.status != EnvironmentStatus::NotStarted {
        (Err(refused("environment has already been reset"@)), core)
    } else {
        let node = core.state.current_node;
        let running = recorded(
            EnvironmentCoreView {
                state: EnvironmentStateView { status: EnvironmentStatus::Running, ..core.state },
                ..core
            },
            EnvironmentEventKindView::Started { node },
        );
        match required_node(core.graph, node) {
            Err(error) => (Err(error), running),
            Ok(found) => if found.terminal {
                (Ok(None), terminated(running, TerminationReasonView::TerminalNode { node }))
            } else {
                (Ok(Some(ObservationCauseView::Reset)), running)
            },
        }
    }
}

/// What the turn of an agent comes to, and the environment then.
pub open spec fn action_recorded(core: EnvironmentCoreView, action: AgentActionView) -> (
    core::result::Result<(), EvalErrorView>,
    EnvironmentCoreView,
) {
    if core.state.status != EnvironmentStatus::Running {
        (Err(refused("environment is not running"@)), core)
    } else {
        (Ok(()), recorded(core, EnvironmentEventKindView::AgentActionRecorded { action }))
    }
}

/// What a decision comes to, and the environment then. A decision that fails changes nothing.
pub open spec fn decision_applied(core: EnvironmentCoreView, decision: EnvironmentDecisionView) -> (
    core::result::Result<ObservationCauseView, EvalErrorView>,
    EnvironmentCoreView,
) {
    match decision {
        EnvironmentDecisionView::Retry { reason } => (
            Ok(ObservationCauseView::Retry { reason }),
            core,
        ),
        EnvironmentDecisionView::Terminate { reason } => (
            Ok(ObservationCauseView::Retry { reason }),
            terminated(core, TerminationReasonView::Controller { reason }),
        ),
        EnvironmentDecisionView::Transition { transition, evidence, reason: _ } => {
            match required_transition(core.graph, transition) {
                Err(error) => (Err(error), core),
                Ok(found) => if found.from != core.state.current_node {
                    (
                        Err(
                            refused(
                                "transition "@ + transition + " does not start at current node"@,
                            ),
                        ),
                        core,
                    )
                } else {
                    match node_applied(core.graph, core.state.constraints, found.to) {
                        Err(error) => (Err(error), core),
                        Ok(constraints) => {
                            let moved = recorded(
                                EnvironmentCoreView {
                                    state: EnvironmentStateView {
                                        constraints,
                                        current_node: found.to,
                                        ..core.state
                                    },
                                    ..core
                                },
                                EnvironmentEventKindView::TransitionApplied {
                                    transition,
                                    from: core.state.current_node,
                                    to: found.to,
                                    evidence,
                                },
                            );
                            (
                                Ok(ObservationCauseView::Transition { transition }),
                                if core.graph.nodes[found.to].terminal {
                                    terminated(
                                        moved,
                                        TerminationReasonView::TerminalNode { node: found.to },
                                    )
                                } else {
                                    moved
                                },
                            )
                        },
                    }
                },
            }
        },
    }
}

/// What a decision comes to once it is recorded, and the environment then. An observation is
/// wanted unless the environment has ended.
pub open spec fn decision_made(core: EnvironmentCoreView, decision: EnvironmentDecisionView) -> (
    core::result::Result<Option<ObservationCauseView>, EvalErrorView>,
    EnvironmentCoreView,
) {
    let (result, after) = decision_applied(
        recorded(core, EnvironmentEventKindView::DecisionMade { decision }),
        decision,
    );
    (
        match result {
            Err(error) => Err(error),
            Ok(cause) => Ok(
                if after.state.status == EnvironmentStatus::Terminated {
                    None
                } else {
                    Some(cause)
                },
            ),
        },
        after,
    )
}

/// The known constraints with some more.
pub open spec fn records_added(
    known: Map<Seq<char>, ExposureRecordView>,
    records: Seq<ExposureRecordView>,
) -> Map<Seq<char>, ExposureRecordView>
    decreases records.len(),
{
    if records.len() == 0 {
        known
    } else {
        records_added(known, records.drop_last()).insert(records.last().constraint, records.last())
    }
}

/// The constraints that hold and are known.
pub open spec fn visible_constraints(state: EnvironmentStateView) -> Map<Seq<char>, JsonView> {
    state.constraints.active.restrict(state.exposures.records.dom())
}

/// What an observation comes to, and the environment then. An observation that fails changes
/// nothing.
pub open spec fn observation_emitted(
    core: EnvironmentCoreView,
    content: ObservationContentView,
) -> (
    core::result::Result<EnvironmentObservationView, EvalErrorView>,
    EnvironmentCoreView,
) {
    if is_blank(content.user_text) {
        (Err(refused("observation text is empty"@)), core)
    } else {
        match exposures_prepared(core.state, content.exposures, next_number(core.state.step)) {
            Err(error) => (Err(error), core),
            Ok(records) => {
                let state = EnvironmentStateView {
                    exposures: ExposureLedgerView {
                        records: records_added(core.state.exposures.records, records),
                    },
                    ..core.state
                };
                let observation = EnvironmentObservationView {
                    user_text: content.user_text,
                    visible_state: JsonView::Object(visible_constraints(state)),
                    metadata: content.metadata,
                };
                (
                    Ok(observation),
                    recorded(
                        EnvironmentCoreView { state, ..core },
                        EnvironmentEventKindView::ObservationEmitted {
                            observation,
                            exposures: records,
                        },
                    ),
                )
            },
        }
    }
}

fn make_visible_state(state: &EnvironmentState) -> (r: Json)
    ensures
        r.deep_view() == JsonView::Object(visible_constraints(state.deep_view())),
{
    let ghost want = visible_constraints(state.deep_view());
    let records = &state.exposures.records;
    let active = &state.constraints.active;
    let mut members: TextMap<Json> = TextMap::new();
    let n: usize = records.walk();
    let ghost keys = records.keys();
    for i in 0..n
        invariant
            n == keys.len(),
            keys == records.keys(),
            forall|k: Seq<char>| #[trigger]
                members.deep_view().contains_key(k) <==> keys.take(i as int).contains(k)
                    && active@.contains_key(k),
            forall|k: Seq<char>| #[trigger]
                members.deep_view().contains_key(k) ==> members.deep_view()[k]
                    == active.deep_view()[k],
    {
        let key = records.key_at(i);
        let ghost before = members.deep_view();
        assert forall|k: Seq<char>| #[trigger]
            keys.take(i + 1).contains(k) <==> keys.take(i as int).contains(k) || k == key@ by {
            let now = keys.take(i + 1);
            assert(now[i as int] == key@);
            if keys.take(i as int).contains(k) {
                let a = choose|a: int| 0 <= a < i && keys.take(i as int)[a] == k;
                assert(now[a] == k);
            }
            if now.contains(k) && k != key@ {
                let a = choose|a: int| 0 <= a < now.len() && now[a] == k;
                assert(keys.take(i as int)[a] == k);
            }
        }
        if let Some(value) = active.get(key.as_str()) {
            members = members.with(key.as_str(), value.replica());
        }
    }
    proof {
        assert(keys.take(n as int) =~= keys);
        assert(members.deep_view() =~= want) by {
            assert forall|k: Seq<char>| #[trigger] members.deep_view().contains_key(k) <==> want.contains_key(
                k,
            ) by {
                if records@.contains_key(k) {
                    assert(keys.contains(k));
                }
                if keys.contains(k) {
                    let j = choose|j: int| 0 <= j < keys.len() && keys[j] == k;
                    assert(records@.contains_key(keys[j]));
                }
            }
        }
        lemma_object_view(members);
    }
    Json::Object(members)
}

fn add_records(known: &mut TextMap<ExposureRecord>, records: &Vec<ExposureRecord>)
    ensures
        final(known).deep_view() == records_added(old(known).deep_view(), records.deep_view()),
{
    let ghost start = known.deep_view();
    let ghost views = records.deep_view();
    assert(views.take(0) =~= Seq::<ExposureRecordView>::empty());
    for i in 0..records.len()
        invariant
            views == records.deep_view(),
            known.deep_view() == records_added(start, views.take(i as int)),
    {
        let record = &records[i];
        assert(views.take(i + 1).drop_last() =~= views.take(i as int));
        assert(views.take(i + 1).last() == record.deep_view());
        let ghost before = known.deep_view();
        known.insert(record.constraint.0.clone(), record.replica());
        assert(known.deep_view() =~= before.insert(
            record.deep_view().constraint,
            record.deep_view(),
        ));
    }
    assert(views.take(records.len() as int) =~= views);
}

/// The environment at this moment.
pub open spec fn snapshot_of(core: EnvironmentCoreView) -> EnvironmentSnapshotView {
    EnvironmentSnapshotView {
        environment_id: core.graph.case_id,
        version: core.graph.version,
        status: core.state.status,
        step: core.state.step,
        state: environment_state_json(core.state),
    }
}

impl EnvironmentCore {
    /// An environment before it is started.
    pub fn new(graph: TaskGraph) -> (r: Result<Self>)
        ensures
            outcome_of(r) == environment_made(graph.deep_view()),
    {
        let none = ConstraintLedger { active: TextMap::new(), applied: Vec::new() };
        proof {
            assert(none.active.deep_view() =~= Map::<Seq<char>, JsonView>::empty());
            assert(none.deep_view() =~= ConstraintLedgerView {
                active: Map::empty(),
                applied: Seq::empty(),
            });
        }
        let constraints = match apply_node(&graph, &none, &graph.start) {
            Ok(constraints) => constraints,
            Err(error) => return Err(error),
        };
        let start = graph.start.replica();
        let core = EnvironmentCore {
            graph,
            state: EnvironmentState {
                status: EnvironmentStatus::NotStarted,
                current_node: start,
                constraints,
                exposures: ExposureLedger { records: TextMap::new() },
                termination: None,
                step: 0,
            },
            events: Vec::new(),
        };
        proof {
            assert(core.state.exposures.records.deep_view() =~= Map::<
                Seq<char>,
                ExposureRecordView,
            >::empty());
            assert(core.deep_view() =~= environment_made(graph.deep_view())->Ok_0);
        }
        Ok(core)
    }

    fn record(&mut self, kind: EnvironmentEventKind)
        ensures
            final(self).deep_view() == recorded(old(self).deep_view(), kind.deep_view()),
    {
        let ghost before = self.events.deep_view();
        let step: u64 = following(self.state.step);
        self.state.step = step;
        self.events.push(EnvironmentEvent { sequence: step, kind });
        assert(self.events.deep_view() =~= before.push(
            EnvironmentEventView { sequence: step, kind: kind.deep_view() },
        ));
    }

    fn terminate(&mut self, reason: TerminationReason)
        ensures
            final(self).deep_view() == terminated(old(self).deep_view(), reason.deep_view()),
    {
        self.state.status = EnvironmentStatus::Terminated;
        self.state.termination = Some(reason.replica());
        self.record(EnvironmentEventKind::Terminated { reason });
    }

    /// Starts the environment; says for what an observation is wanted, if one is.
    pub fn begin_reset(&mut self) -> (r: Result<Option<ObservationCause>>)
        ensures
            (outcome_of(r), final(self).deep_view()) == reset_begun(old(self).deep_view()),
    {
        if self.state.status != EnvironmentStatus::NotStarted {
            return Err(refuse("environment has already been reset"));
        }
        self.state.status = EnvironmentStatus::Running;
        let node = self.state.current_node.replica();
        self.record(EnvironmentEventKind::Started { node: node.replica() });
        let terminal = match self.graph.node(&node) {
            Ok(found) => found.terminal,
            Err(error) => return Err(error),
        };
        if terminal {
            self.terminate(TerminationReason::TerminalNode { node });
            return Ok(None);
        }
        Ok(Some(ObservationCause::Reset))
    }

    /// Records the turn of the agent.
    pub fn record_action(&mut self, action: AgentAction) -> (r: Result<()>)
        ensures
            (outcome_of(r), final(self).deep_view()) == action_recorded(
                old(self).deep_view(),
                action.deep_view(),
            ),
    {
        if self.state.status != EnvironmentStatus::Running {
            return Err(refuse("environment is not running"));
        }
        self.record(EnvironmentEventKind::AgentActionRecorded { action });
        Ok(())
    }

    /// Carries out a decision.
    pub fn apply_decision(&mut self, decision: &EnvironmentDecision) -> (r: Result<
        ObservationCause,
    >)
        ensures
            (outcome_of(r), final(self).deep_view()) == decision_applied(
                old(self).deep_view(),
                decision.deep_view(),
            ),
    {
        match decision {
            EnvironmentDecision::Transition { transition, evidence, reason: _ } => {
                let (from, to) = match self.graph.transition(transition) {
                    Ok(found) => (found.from.replica(), found.to.replica()),
                    Err(error) => return Err(error),
                };
                if !from.same(&self.state.current_node) {
                    return Err(
                        EvalError::InvalidEnvironmentAction(
                            glue3(
                                "transition ",
                                transition.0.as_str(),
                                " does not start at current node",
                            ),
                        ),
                    );
                }
                let constraints = match apply_node(&self.graph, &self.state.constraints, &to) {
                    Ok(constraints) => constraints,
                    Err(error) => return Err(error),
                };
                let terminal = match self.graph.node(&to) {
                    Ok(found) => found.terminal,
                    Err(error) => return Err(error),
                };
                self.state.constraints = constraints;
                self.state.current_node = to.replica();
                self.record(
                    EnvironmentEventKind::TransitionApplied {
                        transition: transition.replica(),
                        from,
                        to: to.replica(),
                        evidence: evidence.replica(),
                    },
                );
                if terminal {
                    self.terminate(TerminationReason::TerminalNode { node: to });
                }
                Ok(ObservationCause::Transition { transition: transition.replica() })
            },
            EnvironmentDecision::Retry { reason } => Ok(
                ObservationCause::Retry { reason: reason.clone() },
            ),
            EnvironmentDecision::Terminate { reason } => {
                self.terminate(TerminationReason::Controller { reason: reason.clone() });
                Ok(ObservationCause::Retry { reason: reason.clone() })
            },
        }
    }

    /// Records a decision and carries it out; says for what an observation is wanted, if one is.
    pub fn make_decision(&mut self, decision: EnvironmentDecision) -> (r: Result<
        Option<ObservationCause>,
    >)
        ensures
            (outcome_of(r), final(self).deep_view()) == decision_made(
                old(self).deep_view(),
                decision.deep_view(),
            ),
    {
        self.record(EnvironmentEventKind::DecisionMade { decision: decision.replica() });
        match self.apply_decision(&decision) {
            Err(error) => Err(error),
            Ok(cause) => {
                if self.state.status == EnvironmentStatus::Terminated {
                    Ok(None)
                } else {
                    Ok(Some(cause))
                }
            },
        }
    }

    /// Shows the agent an observation.
    pub fn emit_observation(&mut self, content: ObservationContent) -> (r: Result<
        EnvironmentObservation,
    >)
        ensures
            (outcome_of(r), final(self).deep_view()) == observation_emitted(
                old(self).deep_view(),
                content.deep_view(),
            ),
    {
        if blank(content.user_text.as_str()) {
            return Err(refuse("observation text is empty"));
        }
        let sequence: u64 = following(self.state.step);
        let records = match prepare_exposure_records(&self.state, &content.exposures, sequence) {
            Ok(records) => records,
            Err(error) => return Err(error),
        };
        add_records(&mut self.state.exposures.records, &records);
        let observation = EnvironmentObservation {
            user_text: content.user_text,
            visible_state: make_visible_state(&self.state),
            metadata: content.metadata,
        };
        self.record(
            EnvironmentEventKind::ObservationEmitted {
                observation: observation.replica(),
                exposures: records,
            },
        );
        Ok(observation)
    }

    /// What an observation is made from.
    pub fn realizer_input(
        &self,
        cause: ObservationCause,
        latest_action: Option<AgentAction>,
    ) -> (r: ObservationRealizerInput)
        ensures
            r.deep_view() == realizer_input_of(
                self.deep_view(),
                cause.deep_view(),
                latest_action.deep_view(),
            ),
    {
        ObservationRealizerInput {
            graph: self.graph.replica(),
            state: self.state.replica(),
            cause,
            latest_action,
        }
    }

    /// What a decision is made from.
    pub fn controller_input(&self, action: AgentAction) -> (r: EnvironmentControllerInput)
        ensures
            r.deep_view() == controller_input_of(self.deep_view(), action.deep_view()),
    {
        EnvironmentControllerInput {
            graph: self.graph.replica(),
            state: self.state.replica(),
            action,
        }
    }

    /// The environment at this moment.
    pub fn snapshot(&self) -> (r: EnvironmentSnapshot)
        ensures
            r.deep_view() == snapshot_of(self.deep_view()),
    {
        EnvironmentSnapshot {
            environment_id: self.graph.case_id.clone(),
            version: self.graph.version.clone(),
            status: self.state.status,
            step: self.state.step,
            state: make_environment_state(&self.state),
        }
    }
}

/// What an observation is made from.
pub open spec fn realizer_input_of(
    core: EnvironmentCoreView,
    cause: ObservationCauseView,
    latest_action: Option<AgentActionView>,
) -> ObservationRealizerInputView {
    ObservationRealizerInputView { graph: core.graph, state: core.state, cause, latest_action }
}

/// What a decision is made from.
pub open spec fn controller_input_of(
    core: EnvironmentCoreView,
    action: AgentActionView,
) -> EnvironmentControllerInputView {
    EnvironmentControllerInputView { graph: core.graph, state: core.state, action }
}

/// Says what an agent is shown.
pub trait ObservationRealizer {
    fn realize(&self, input: ObservationRealizerInput) -> (r: Result<ObservationContent>);
}

/// Says what happens after a turn of the agent.
pub trait EnvironmentController {
    fn decide(&self, input: EnvironmentControllerInput) -> (r: Result<EnvironmentDecision>);
}

/// An environment that an agent acts in.
pub trait EvalEnvironment: Sized {
    /// A reset may leave the environment like this, with this answer. Nothing is known of an
    /// environment that does not say.
    open spec fn starts(&self, after: Self, output: Result<EnvironmentOutput>) -> bool {
        true
    }

    /// An action of the agent may leave the environment like this, with this answer. Nothing is
    /// known of an environment that does not say.
    open spec fn moves(
        &self,
        action: AgentAction,
        after: Self,
        output: Result<EnvironmentOutput>,
    ) -> bool {
        true
    }

    fn reset(&mut self) -> (r: Result<EnvironmentOutput>)
        ensures
            old(self).starts(*final(self), r),
    ;

    fn step(&mut self, action: AgentAction) -> (r: Result<EnvironmentOutput>)
        ensures
            old(self).moves(action, *final(self), r),
    ;

    fn snapshot(&self) -> (r: Result<EnvironmentSnapshot>);

    fn trajectory(&self) -> (r: Vec<EnvironmentEvent>);
}

/// What an environment gives without an observation, and the environment then.
pub open spec fn unobserved(core: EnvironmentCoreView) -> EnvironmentOutputView {
    EnvironmentOutputView { observation: None, status: core.state.status }
}

/// What a step that wants an observation comes to, given what the observation is made of.
pub open spec fn step_observed(
    core: EnvironmentCoreView,
    content: core::result::Result<ObservationContentView, EvalErrorView>,
) -> (core::result::Result<EnvironmentOutputView, EvalErrorView>, EnvironmentCoreView) {
    match content {
        Err(error) => (Err(error), core),
        Ok(content) => {
            let (result, after) = observation_emitted(core, content);
            (
                match result {
                    Err(error) => Err(error),
                    Ok(observation) => Ok(
                        EnvironmentOutputView {
                            observation: Some(observation),
                            status: after.state.status,
                        },
                    ),
                },
                after,
            )
        },
    }
}

/// A step that wants an observation came to this, with what the realizer gave for the
/// observation.
pub open spec fn told_by<R: ObservationRealizer>(
    realizer: R,
    core: EnvironmentCoreView,
    cause: ObservationCauseView,
    latest_action: Option<AgentActionView>,
    result: core::result::Result<EnvironmentOutputView, EvalErrorView>,
    after: EnvironmentCoreView,
) -> bool {
    exists|input: ObservationRealizerInput, content: Result<ObservationContent>|
        {
            &&& #[trigger] call_ensures(R::realize, (&realizer, input), content)
            &&& input.deep_view() == realizer_input_of(core, cause, latest_action)
            &&& (result, after) == step_observed(core, outcome_of(content))
        }
}

/// The controller decided this after a turn of the agent.
pub open spec fn decided_by<C: EnvironmentController>(
    controller: C,
    core: EnvironmentCoreView,
    action: AgentActionView,
    decision: Result<EnvironmentDecision>,
) -> bool {
    exists|input: EnvironmentControllerInput|
        {
            &&& #[trigger] call_ensures(C::decide, (&controller, input), decision)
            &&& input.deep_view() == controller_input_of(core, action)
        }
}

/// An environment that walks a task graph.
pub struct GraphEnvironment<C, R> {
    core: EnvironmentCore,
    controller: C,
    realizer: R,
}

impl<C: EnvironmentController, R: ObservationRealizer> GraphEnvironment<C, R> {
    /// Where the environment is.
    pub closed spec fn place(&self) -> EnvironmentCoreView {
        self.core.deep_view()
    }

    /// Who decides.
    pub closed spec fn decider(&self) -> C {
        self.controller
    }

    /// Who says what the agent is shown.
    pub closed spec fn teller(&self) -> R {
        self.realizer
    }

    /// An environment before it is started.
    pub fn new(graph: TaskGraph, controller: C, realizer: R) -> (r: Result<Self>)
        ensures
            match environment_made(graph.deep_view()) {
                Ok(core) => r matches Ok(environment) && environment.place() == core
                    && environment.decider() == controller && environment.teller() == realizer,
                Err(error) => r matches Err(found) && found.deep_view() == error,
            },
    {
        match EnvironmentCore::new(graph) {
            Ok(core) => Ok(GraphEnvironment { core, controller, realizer }),
            Err(error) => Err(error),
        }
    }

    /// The task graph.
    pub fn graph(&self) -> (r: &TaskGraph)
        ensures
            r.deep_view() == self.place().graph,
    {
        &self.core.graph
    }

    /// The state.
    pub fn state(&self) -> (r: &EnvironmentState)
        ensures
            r.deep_view() == self.place().state,
    {
        &self.core.state
    }

    fn observe(&mut self, cause: ObservationCause, latest_action: Option<AgentAction>) -> (r: Result<
        EnvironmentOutput,
    >)
        ensures
            final(self).decider() == old(self).decider(),
            final(self).teller() == old(self).teller(),
            told_by(
                old(self).teller(),
                old(self).place(),
                cause.deep_view(),
                latest_action.deep_view(),
                outcome_of(r),
                final(self).place(),
            ),
    {
        let input = self.core.realizer_input(cause, latest_action);
        let content = self.realizer.realize(input);
        assert(call_ensures(R::realize, (&old(self).teller(), input), content));
        match content {
            Err(error) => Err(error),
            Ok(content) => match self.core.emit_observation(content) {
                Ok(observation) => Ok(
                    EnvironmentOutput {
                        observation: Some(observation),
                        status: self.core.state.status,
                    },
                ),
                Err(error) => Err(error),
            },
        }
    }
}

impl<C: EnvironmentController, R: ObservationRealizer> EvalEnvironment for GraphEnvironment<C, R> {
    open spec fn starts(&self, after: Self, output: Result<EnvironmentOutput>) -> bool {
        &&& after.decider() == self.decider()
        &&& after.teller() == self.teller()
        &&& match reset_begun(self.place()) {
                (Err(error), next) => outcome_of(output)
                    == Err::<EnvironmentOutputView, EvalErrorView>(
                    error,
                ) && after.place() == next,
                (Ok(None), next) => outcome_of(output)
                    == Ok::<EnvironmentOutputView, EvalErrorView>(
                    unobserved(next),
                ) && after.place() == next,
                (Ok(Some(cause)), next) => told_by(
                    self.teller(),
                    next,
                    cause,
                    None,
                    outcome_of(output),
                    after.place(),
                ),
            }
    }

    open spec fn moves(
        &self,
        action: AgentAction,
        after: Self,
        output: Result<EnvironmentOutput>,
    ) -> bool {
        &&& after.decider() == self.decider()
        &&& after.teller() == self.teller()
        &&& match action_recorded(self.place(), action.deep_view()) {
                (Err(error), next) => outcome_of(output)
                    == Err::<EnvironmentOutputView, EvalErrorView>(
                    error,
                ) && after.place() == next,
                (Ok(_), acted) => exists|decision: Result<EnvironmentDecision>|
                    {
                        &&& #[trigger] decided_by(
                            self.decider(),
                            acted,
                            action.deep_view(),
                            decision,
                        )
                        &&& match decision {
                            Err(error) => outcome_of(output) == Err::<
                                EnvironmentOutputView,
                                EvalErrorView,
                            >(error.deep_view()) && after.place() == acted,
                            Ok(decision) => match decision_made(acted, decision.deep_view()) {
                                (Err(error), next) => outcome_of(output) == Err::<
                                    EnvironmentOutputView,
                                    EvalErrorView,
                                >(error) && after.place() == next,
                                (Ok(None), next) => outcome_of(output) == Ok::<
                                    EnvironmentOutputView,
                                    EvalErrorView,
                                >(unobserved(next)) && after.place() == next,
                                (Ok(Some(cause)), next) => told_by(
                                    self.teller(),
                                    next,
                                    cause,
                                    Some(action.deep_view()),
                                    outcome_of(output),
                                    after.place(),
                                ),
                            },
                        }
                    },
            }
    }

    fn reset(&mut self) -> (r: Result<EnvironmentOutput>) {
        match self.core.begin_reset() {
            Err(error) => Err(error),
            Ok(None) => Ok(EnvironmentOutput { observation: None, status: self.core.state.status }),
            Ok(Some(cause)) => {
                assert(None::<AgentAction>.deep_view() == None::<AgentActionView>);
                self.observe(cause, None)
            },
        }
    }

    fn step(&mut self, action: AgentAction) -> (r: Result<EnvironmentOutput>) {
        match self.core.record_action(action.replica()) {
            Ok(_) => {},
            Err(error) => return Err(error),
        }
        let ghost acted = self.core.deep_view();
        let input = self.core.controller_input(action.replica());
        let decision = self.controller.decide(input);
        assert(call_ensures(C::decide, (&old(self).decider(), input), decision));
        assert(decided_by(old(self).decider(), acted, action.deep_view(), decision));
        let decision = match decision {
            Ok(decision) => decision,
            Err(error) => return Err(error),
        };
        match self.core.make_decision(decision) {
            Err(error) => Err(error),
            Ok(None) => Ok(EnvironmentOutput { observation: None, status: self.core.state.status }),
            Ok(Some(cause)) => {
                let ghost latest = Some(action);
                assert(latest.deep_view() == Some(action.deep_view()));
                self.observe(cause, Some(action))
            },
        }
    }

    fn snapshot(&self) -> (r: Result<EnvironmentSnapshot>)
        ensures
            outcome_of(r) == Ok::<EnvironmentSnapshotView, EvalErrorView>(
                snapshot_of(self.place()),
            ),
    {
        Ok(self.core.snapshot())
    }

    fn trajectory(&self) -> (r: Vec<EnvironmentEvent>)
        ensures
            r.deep_view() == self.place().events,
    {
        self.core.events.replica()
    }
}

/// The events of an environment are numbered from one on.
pub open spec fn is_numbered(core: EnvironmentCoreView) -> bool {
    &&& core.state.step == core.events.len()
    &&& forall|i: int| 0 <= i < core.events.len() ==> (#[trigger] core.events[i]).sequence == i + 1
}

/// Every event that is recorded has the next number, so the events stay numbered.
pub proof fn law_events_are_numbered(core: EnvironmentCoreView, kind: EnvironmentEventKindView)
    requires
        is_numbered(core),
        core.events.len() < u64::MAX,
    ensures
        is_numbered(recorded(core, kind)),
        recorded(core, kind).events.drop_last() == core.events,
{
    assert(recorded(core, kind).events.drop_last() =~= core.events);
}

/// A decision that fails leaves everything as it is, and so does an observation that fails.
pub proof fn law_failures_leave_no_trace(
    core: EnvironmentCoreView,
    decision: EnvironmentDecisionView,
    content: ObservationContentView,
)
    ensures
        decision_applied(core, decision).0 is Err ==> decision_applied(core, decision).1 == core,
        observation_emitted(core, content).0 is Err ==> observation_emitted(core, content).1
            == core,
{
}

/// An observation shows exactly the constraints that hold and are known.
pub proof fn law_only_known_constraints_are_shown(
    core: EnvironmentCoreView,
    content: ObservationContentView,
)
    requires
        observation_emitted(core, content).0 is Ok,
    ensures
        ({
            let (result, after) = observation_emitted(core, content);
            let shown = result->Ok_0.visible_state->Object_0;
            &&& result->Ok_0.visible_state is Object
            &&& forall|id: Seq<char>| #[trigger]
                shown.contains_key(id) <==> after.state.constraints.active.contains_key(id)
                    && after.state.exposures.records.contains_key(id)
            &&& forall|id: Seq<char>| #[trigger]
                shown.contains_key(id) ==> shown[id] == after.state.constraints.active[id]
            &&& after.state.constraints == core.state.constraints
        }),
{
}

proof fn lemma_records_added(
    known: Map<Seq<char>, ExposureRecordView>,
    records: Seq<ExposureRecordView>,
)
    ensures
        forall|id: Seq<char>| #[trigger]
            records_added(known, records).contains_key(id) <==> known.contains_key(id) || exists|
                i: int,
            |
                0 <= i < records.len() && (#[trigger] records[i]).constraint == id,
    decreases records.len(),
{
    if records.len() > 0 {
        let init = records.drop_last();
        lemma_records_added(known, init);
        assert forall|id: Seq<char>| #[trigger]
            records_added(known, records).contains_key(id) <==> known.contains_key(id) || exists|
                i: int,
            |
                0 <= i < records.len() && (#[trigger] records[i]).constraint == id by {
            let inner = records_added(known, init);
            assert(records_added(known, records) == inner.insert(
                records.last().constraint,
                records.last(),
            ));
            assert(inner.contains_key(id) ==> known.contains_key(id) || exists|i: int|
                0 <= i < init.len() && (#[trigger] init[i]).constraint == id);
            if exists|i: int| 0 <= i < init.len() && (#[trigger] init[i]).constraint == id {
                let i = choose|i: int| 0 <= i < init.len() && (#[trigger] init[i]).constraint == id;
                assert(records[i].constraint == id);
            }
            if records.last().constraint == id {
                assert(records[records.len() - 1].constraint == id);
            }
            if exists|i: int| 0 <= i < records.len() && (#[trigger] records[i]).constraint == id {
                let i = choose|i: int|
                    0 <= i < records.len() && (#[trigger] records[i]).constraint == id;
                if i < init.len() {
                    assert(init[i].constraint == id);
                }
            }
        }
    }
}

proof fn lemma_prepared_records(
    state: EnvironmentStateView,
    exposures: Seq<crate::eval::state::ConstraintExposureView>,
    sequence: u64,
)
    requires
        exposures_prepared(state, exposures, sequence) is Ok,
    ensures
        ({
            let records = exposures_prepared(state, exposures, sequence)->Ok_0;
            &&& records.len() == exposures.len()
            &&& forall|i: int|
                0 <= i < records.len() ==> state.constraints.active.contains_key(
                    (#[trigger] records[i]).constraint,
                ) && !state.exposures.records.contains_key(records[i].constraint)
                    && records[i].observation_sequence == sequence
        }),
    decreases exposures.len(),
{
    if exposures.len() > 0 {
        let init = exposures.drop_last();
        lemma_prepared_records(state, init, sequence);
        let before = exposures_prepared(state, init, sequence)->Ok_0;
        let records = exposures_prepared(state, exposures, sequence)->Ok_0;
        assert forall|i: int| 0 <= i < records.len() implies state.constraints.active.contains_key(
            (#[trigger] records[i]).constraint,
        ) && !state.exposures.records.contains_key(records[i].constraint)
            && records[i].observation_sequence == sequence by {
            if i < before.len() {
                assert(records[i] == before[i]);
            }
        }
    }
}

/// What was known stays known, and what becomes known holds and was not known before.
pub proof fn law_exposures_only_grow(core: EnvironmentCoreView, content: ObservationContentView)
    requires
        observation_emitted(core, content).0 is Ok,
    ensures
        ({
            let before = core.state.exposures.records;
            let after = observation_emitted(core, content).1.state.exposures.records;
            &&& forall|id: Seq<char>| #[trigger]
                before.contains_key(id) ==> after.contains_key(id)
            &&& forall|id: Seq<char>| #[trigger]
                after.contains_key(id) && !before.contains_key(id)
                    ==> core.state.constraints.active.contains_key(id)
        }),
{
    let sequence = next_number(core.state.step);
    let records = exposures_prepared(core.state, content.exposures, sequence)->Ok_0;
    lemma_records_added(core.state.exposures.records, records);
    lemma_prepared_records(core.state, content.exposures, sequence);
    let before = core.state.exposures.records;
    let after = observation_emitted(core, content).1.state.exposures.records;
    assert forall|id: Seq<char>| #[trigger]
        after.contains_key(id)
            && !before.contains_key(id) implies core.state.constraints.active.contains_key(
        id,
    ) by {
        let i = choose|i: int| 0 <= i < records.len() && (#[trigger] records[i]).constraint == id;
        assert(core.state.constraints.active.contains_key(records[i].constraint));
    }
}

/// A transition makes nothing known: a constraint that replaces another one is not shown until it
/// is exposed itself.
pub proof fn law_transitions_expose_nothing(
    core: EnvironmentCoreView,
    decision: EnvironmentDecisionView,
)
    ensures
        decision_applied(core, decision).1.state.exposures == core.state.exposures,
{
}

/// An environment that has ended neither starts again nor takes another turn.
pub proof fn law_the_end_is_final(core: EnvironmentCoreView, action: AgentActionView)
    requires
        core.state.status == EnvironmentStatus::Terminated,
    ensures
        reset_begun(core).0 is Err,
        reset_begun(core).1 == core,
        action_recorded(core, action).0 is Err,
        action_recorded(core, action).1 == core,
{
}

} // verus!
