//! What the steps of an environment do to it.

use crate::eval::action::AgentActionView;
use crate::eval::environment::{
    exposed_constraints, exposure_checked, exposures_prepared, inputs_checked,
};
use crate::eval::error::EvalErrorView;
use crate::eval::graph_environment::{
    action_recorded, decision_made, environment_made, observation_emitted, records_added,
    reset_begun, snapshot_of, EnvironmentCoreView,
};
use crate::eval::program::TaskGraphView;
use crate::eval::state::{
    ConstraintExposureView, ConstraintLedgerView, EnvironmentDecisionView, EnvironmentEventKindView,
    EnvironmentEventView, EnvironmentStateView, EnvironmentStatus, ExposureLedgerView,
    ExposureOriginView, ExposureRecordView, ObservationCauseView, ObservationContentView,
    TerminationReasonView,
};
use crate::eval::vm_laws::{
    is_stuck, law_constraints_are_applied_in_order, node_applies, step_behind,
};
use crate::text::is_blank;
use vstd::prelude::*;

verus! {

/// An environment in which one more thing happened: it is the last event and has the next number.
/// The graph and everything before stay.
pub open spec fn occurs(
    before: EnvironmentCoreView,
    kind: EnvironmentEventKindView,
    state: EnvironmentStateView,
    after: EnvironmentCoreView,
) -> bool {
    let step = step_behind(before.state.step);
    &&& after.graph == before.graph
    &&& after.events == before.events.push(EnvironmentEventView { sequence: step, kind })
    &&& after.state == (EnvironmentStateView { step, ..state })
}

/// An environment that has ended for a reason.
pub open spec fn finishes(
    before: EnvironmentCoreView,
    reason: TerminationReasonView,
    after: EnvironmentCoreView,
) -> bool {
    occurs(
        before,
        EnvironmentEventKindView::Terminated { reason },
        EnvironmentStateView {
            status: EnvironmentStatus::Terminated,
            termination: Some(reason),
            ..before.state
        },
        after,
    )
}

/// An environment is made at the start of its graph, with the constraints of that node, nothing
/// known of them and nothing that happened.
pub proof fn law_environment_is_made_at_the_start(graph: TaskGraphView)
    ensures
        ({
            let none = ConstraintLedgerView { active: Map::empty(), applied: Seq::empty() };
            match environment_made(graph) {
                Ok(core) => {
                    &&& graph.nodes.contains_key(graph.start)
                    &&& core.graph == graph
                    &&& core.events.len() == 0
                    &&& node_applies(
                        none,
                        graph.start,
                        graph.nodes[graph.start].constraints,
                        core.state.constraints,
                    )
                    &&& core.state == (EnvironmentStateView {
                        status: EnvironmentStatus::NotStarted,
                        current_node: graph.start,
                        constraints: core.state.constraints,
                        exposures: ExposureLedgerView { records: Map::empty() },
                        termination: None,
                        step: 0,
                    })
                },
                Err(_) => !graph.nodes.contains_key(graph.start) || exists|n: int| #[trigger]
                    is_stuck(none, graph.nodes[graph.start].constraints, n),
            }
        }),
{
    law_constraints_are_applied_in_order(
        ConstraintLedgerView { active: Map::empty(), applied: Seq::empty() },
        graph.start,
        graph.nodes[graph.start].constraints,
    );
}

/// A reset starts an environment once. Where the first node is terminal it ends there, and else a
/// first observation is wanted.
pub proof fn law_reset_starts_once(core: EnvironmentCoreView)
    requires
        core.graph.nodes.contains_key(core.state.current_node),
    ensures
        ({
            let (result, after) = reset_begun(core);
            let node = core.state.current_node;
            if core.state.status != EnvironmentStatus::NotStarted {
                result is Err && after == core
            } else {
                exists|running: EnvironmentCoreView| #[trigger]
                    occurs(
                        core,
                        EnvironmentEventKindView::Started { node },
                        EnvironmentStateView {
                            status: EnvironmentStatus::Running,
                            ..core.state
                        },
                        running,
                    ) && if core.graph.nodes[node].terminal {
                        result == Ok::<Option<ObservationCauseView>, EvalErrorView>(None)
                            && finishes(
                            running,
                            TerminationReasonView::TerminalNode { node },
                            after,
                        )
                    } else {
                        result == Ok::<Option<ObservationCauseView>, EvalErrorView>(
                            Some(ObservationCauseView::Reset),
                        ) && after == running
                    }
            }
        }),
{
    let node = core.state.current_node;
    let running = crate::eval::graph_environment::recorded(
        EnvironmentCoreView {
            state: EnvironmentStateView { status: EnvironmentStatus::Running, ..core.state },
            ..core
        },
        EnvironmentEventKindView::Started { node },
    );
    assert(occurs(
        core,
        EnvironmentEventKindView::Started { node },
        EnvironmentStateView { status: EnvironmentStatus::Running, ..core.state },
        running,
    ));
}

/// What the agent did is recorded as it is, while the environment is running.
pub proof fn law_action_is_recorded(core: EnvironmentCoreView, action: AgentActionView)
    ensures
        ({
            let (result, after) = action_recorded(core, action);
            &&& result is Ok <==> core.state.status == EnvironmentStatus::Running
            &&& result is Err ==> after == core
            &&& result is Ok ==> occurs(
                core,
                EnvironmentEventKindView::AgentActionRecorded { action },
                core.state,
                after,
            )
        }),
{
}

/// A decision is recorded and carried out. A retry changes nothing and wants an observation that
/// tells its reason; a termination ends the environment for its reason; a transition that leaves the
/// current node enters its target, with the constraints of the target applied to those that held,
/// and ends the environment where the target is terminal. Any other transition is refused.
pub proof fn law_decision_is_carried_out(
    core: EnvironmentCoreView,
    decision: EnvironmentDecisionView,
)
    requires
        core.state.status == EnvironmentStatus::Running,
    ensures
        ({
            let (result, after) = decision_made(core, decision);
            exists|told: EnvironmentCoreView| #[trigger]
                occurs(
                    core,
                    EnvironmentEventKindView::DecisionMade { decision },
                    core.state,
                    told,
                ) && match decision {
                    EnvironmentDecisionView::Retry { reason } => result == Ok::<
                        Option<ObservationCauseView>,
                        EvalErrorView,
                    >(Some(ObservationCauseView::Retry { reason })) && after == told,
                    EnvironmentDecisionView::Terminate { reason } => result == Ok::<
                        Option<ObservationCauseView>,
                        EvalErrorView,
                    >(None) && finishes(told, TerminationReasonView::Controller { reason }, after),
                    EnvironmentDecisionView::Transition { transition, evidence, reason } => {
                        let graph = core.graph;
                        let to = graph.transitions[transition].to;
                        let leaves = graph.transitions.contains_key(transition)
                            && graph.transitions[transition].from == core.state.current_node
                            && graph.nodes.contains_key(to);
                        if result is Err {
                            &&& after == told
                            &&& !leaves || exists|n: int| #[trigger]
                                is_stuck(core.state.constraints, graph.nodes[to].constraints, n)
                        } else {
                            &&& leaves
                            &&& result->Ok_0 == if graph.nodes[to].terminal {
                                None
                            } else {
                                Some(ObservationCauseView::Transition { transition })
                            }
                            &&& exists|constraints: ConstraintLedgerView, moved: EnvironmentCoreView|
                                #[trigger]
                                node_applies(
                                    core.state.constraints,
                                    to,
                                    graph.nodes[to].constraints,
                                    constraints,
                                ) && #[trigger] occurs(
                                    told,
                                    EnvironmentEventKindView::TransitionApplied {
                                        transition,
                                        from: core.state.current_node,
                                        to,
                                        evidence,
                                    },
                                    EnvironmentStateView {
                                        current_node: to,
                                        constraints,
                                        ..core.state
                                    },
                                    moved,
                                ) && if graph.nodes[to].terminal {
                                    finishes(
                                        moved,
                                        TerminationReasonView::TerminalNode { node: to },
                                        after,
                                    )
                                } else {
                                    after == moved
                                }
                        }
                    },
                }
        }),
{
    let told = crate::eval::graph_environment::recorded(
        core,
        EnvironmentEventKindView::DecisionMade { decision },
    );
    assert(occurs(
        core,
        EnvironmentEventKindView::DecisionMade { decision },
        core.state,
        told,
    ));
    if decision is Transition {
        let transition = decision->Transition_transition;
        let evidence = decision->Transition_evidence;
        let graph = core.graph;
        let to = graph.transitions[transition].to;
        law_constraints_are_applied_in_order(
            core.state.constraints,
            to,
            graph.nodes[to].constraints,
        );
        let (result, after) = decision_made(core, decision);
        if result is Ok {
            let constraints = after.state.constraints;
            let kind = EnvironmentEventKindView::TransitionApplied {
                transition,
                from: core.state.current_node,
                to,
                evidence,
            };
            let moved = crate::eval::graph_environment::recorded(
                EnvironmentCoreView {
                    state: EnvironmentStateView { constraints, current_node: to, ..told.state },
                    ..told
                },
                kind,
            );
            assert(node_applies(
                core.state.constraints,
                to,
                graph.nodes[to].constraints,
                constraints,
            ));
            assert(occurs(
                told,
                kind,
                EnvironmentStateView { current_node: to, constraints, ..core.state },
                moved,
            ));
        }
    }
}

/// The constraint that an exposure makes known.
pub open spec fn subject(exposure: ConstraintExposureView) -> Seq<char> {
    match exposure {
        ConstraintExposureView::Disclose { constraint } => constraint,
        ConstraintExposureView::Derive { constraint, inputs, rule } => constraint,
        ConstraintExposureView::ProvideContext { constraint, source } => constraint,
    }
}

/// A constraint is known before an exposure: from earlier, or by an exposure before it.
pub open spec fn is_known_before(
    state: EnvironmentStateView,
    exposures: Seq<ConstraintExposureView>,
    n: int,
    constraint: Seq<char>,
) -> bool {
    ||| state.exposures.records.contains_key(constraint)
    ||| exists|j: int| 0 <= j < n && subject(#[trigger] exposures[j]) == constraint
}

/// An exposure can be made: its constraint holds and is not known, and what it is derived from, by a
/// rule, holds and is known, or the context has a source.
pub open spec fn can_expose(
    state: EnvironmentStateView,
    exposures: Seq<ConstraintExposureView>,
    n: int,
) -> bool {
    let active = state.constraints.active;
    &&& active.contains_key(subject(exposures[n]))
    &&& !is_known_before(state, exposures, n, subject(exposures[n]))
    &&& match exposures[n] {
        ConstraintExposureView::Disclose { constraint } => true,
        ConstraintExposureView::Derive { constraint, inputs, rule } => inputs.len() > 0
            && !is_blank(rule) && forall|k: int|
            0 <= k < inputs.len() ==> active.contains_key(#[trigger] inputs[k]) && is_known_before(
                state,
                exposures,
                n,
                inputs[k],
            ),
        ConstraintExposureView::ProvideContext { constraint, source } => !is_blank(source),
    }
}

/// What is noted of an exposure: its constraint, how it became known, and with which event.
pub open spec fn notes(
    record: ExposureRecordView,
    exposure: ConstraintExposureView,
    sequence: u64,
) -> bool {
    &&& record.constraint == subject(exposure)
    &&& record.observation_sequence == sequence
    &&& record.origin == match exposure {
        ConstraintExposureView::Disclose { constraint } => ExposureOriginView::ExplicitDisclosure,
        ConstraintExposureView::Derive { constraint, inputs, rule } =>
            ExposureOriginView::EnvironmentDerived { inputs, rule },
        ConstraintExposureView::ProvideContext { constraint, source } =>
            ExposureOriginView::ContextProvided { source },
    }
}

proof fn lemma_exposed(exposures: Seq<ConstraintExposureView>, constraint: Seq<char>)
    ensures
        exposed_constraints(exposures).contains(constraint) <==> exists|j: int|
            0 <= j < exposures.len() && subject(#[trigger] exposures[j]) == constraint,
    decreases exposures.len(),
{
    if exposures.len() > 0 {
        let init = exposures.drop_last();
        lemma_exposed(init, constraint);
        assert forall|j: int| 0 <= j < init.len() implies init[j] == exposures[j] by {}
        if exists|j: int| 0 <= j < init.len() && subject(#[trigger] init[j]) == constraint {
            let j = choose|j: int| 0 <= j < init.len() && subject(#[trigger] init[j]) == constraint;
            assert(subject(exposures[j]) == constraint);
        }
        if exists|j: int|
            0 <= j < exposures.len() && subject(#[trigger] exposures[j]) == constraint {
            let j = choose|j: int|
                0 <= j < exposures.len() && subject(#[trigger] exposures[j]) == constraint;
            if j < init.len() {
                assert(subject(init[j]) == constraint);
            }
        }
        if subject(exposures.last()) == constraint {
            assert(subject(exposures[exposures.len() - 1]) == constraint);
        }
    }
}

proof fn lemma_inputs(
    active: Set<Seq<char>>,
    available: Set<Seq<char>>,
    inputs: Seq<Seq<char>>,
    constraint: Seq<char>,
)
    ensures
        inputs_checked(active, available, inputs, constraint) is Ok <==> forall|k: int|
            0 <= k < inputs.len() ==> active.contains(#[trigger] inputs[k]) && available.contains(
                inputs[k],
            ),
    decreases inputs.len(),
{
    if inputs.len() > 0 {
        let init = inputs.drop_last();
        lemma_inputs(active, available, init, constraint);
        if inputs_checked(active, available, inputs, constraint) is Ok {
            assert forall|k: int| 0 <= k < inputs.len() implies active.contains(#[trigger] inputs[k])
                && available.contains(inputs[k]) by {
                if k < init.len() {
                    assert(init[k] == inputs[k]);
                }
            }
        }
        if forall|k: int|
            0 <= k < inputs.len() ==> active.contains(#[trigger] inputs[k]) && available.contains(
                inputs[k],
            ) {
            assert forall|k: int| 0 <= k < init.len() implies active.contains(#[trigger] init[k])
                && available.contains(init[k]) by {
                assert(init[k] == inputs[k]);
            }
            assert(active.contains(inputs[inputs.len() - 1]));
        }
    }
}

proof fn lemma_can_expose(
    state: EnvironmentStateView,
    exposures: Seq<ConstraintExposureView>,
    n: int,
)
    requires
        0 <= n < exposures.len(),
    ensures
        exposure_checked(
            state.constraints.active.dom(),
            state.exposures.records.dom().union(exposed_constraints(exposures.take(n))),
            exposures[n],
        ) is Ok <==> can_expose(state, exposures, n),
{
    let init = exposures.take(n);
    let known = state.exposures.records.dom().union(exposed_constraints(init));
    assert forall|constraint: Seq<char>| #[trigger] known.contains(constraint) <==> is_known_before(
        state,
        exposures,
        n,
        constraint,
    ) by {
        lemma_exposed(init, constraint);
        if exists|j: int| 0 <= j < n && subject(#[trigger] exposures[j]) == constraint {
            let j = choose|j: int| 0 <= j < n && subject(#[trigger] exposures[j]) == constraint;
            assert(subject(init[j]) == constraint);
        }
        if exists|j: int| 0 <= j < init.len() && subject(#[trigger] init[j]) == constraint {
            let j = choose|j: int| 0 <= j < init.len() && subject(#[trigger] init[j]) == constraint;
            assert(subject(exposures[j]) == constraint);
        }
    }
    match exposures[n] {
        ConstraintExposureView::Derive { constraint, inputs, rule } => {
            lemma_inputs(state.constraints.active.dom(), known, inputs, constraint);
            if can_expose(state, exposures, n) {
                assert forall|k: int| 0 <= k < inputs.len() implies
                    state.constraints.active.dom().contains(#[trigger] inputs[k])
                    && known.contains(inputs[k]) by {
                    assert(is_known_before(state, exposures, n, inputs[k]));
                }
            }
            if inputs_checked(state.constraints.active.dom(), known, inputs, constraint) is Ok {
                assert forall|k: int| 0 <= k < inputs.len() implies
                    state.constraints.active.contains_key(#[trigger] inputs[k]) && is_known_before(
                    state,
                    exposures,
                    n,
                    inputs[k],
                ) by {
                    assert(known.contains(inputs[k]));
                }
            }
        },
        _ => {},
    }
}

proof fn lemma_prepared(
    state: EnvironmentStateView,
    exposures: Seq<ConstraintExposureView>,
    sequence: u64,
    n: int,
)
    requires
        0 <= n <= exposures.len(),
    ensures
        exposures_prepared(state, exposures.take(n), sequence) is Ok <==> forall|i: int|
            0 <= i < n ==> #[trigger] can_expose(state, exposures, i),
        exposures_prepared(state, exposures.take(n), sequence) matches Ok(records) ==> records.len()
            == n && forall|i: int|
            0 <= i < n ==> notes(#[trigger] records[i], exposures[i], sequence),
    decreases n,
{
    let upto = exposures.take(n);
    if n > 0 {
        assert(upto.drop_last() =~= exposures.take(n - 1));
        assert(upto.last() == exposures[n - 1]);
        lemma_prepared(state, exposures, sequence, n - 1);
        lemma_can_expose(state, exposures, n - 1);
        if exposures_prepared(state, upto, sequence) is Ok {
            let before = exposures_prepared(state, exposures.take(n - 1), sequence)->Ok_0;
            let records = exposures_prepared(state, upto, sequence)->Ok_0;
            assert forall|i: int| 0 <= i < n implies notes(
                #[trigger] records[i],
                exposures[i],
                sequence,
            ) by {
                if i < n - 1 {
                    assert(records[i] == before[i]);
                }
            }
            assert forall|i: int| 0 <= i < n implies #[trigger] can_expose(
                state,
                exposures,
                i,
            ) by {}
        }
    }
}

proof fn lemma_added(
    known: Map<Seq<char>, ExposureRecordView>,
    records: Seq<ExposureRecordView>,
    id: Seq<char>,
)
    ensures
        records_added(known, records).contains_key(id) <==> known.contains_key(id) || exists|i: int|
            0 <= i < records.len() && (#[trigger] records[i]).constraint == id,
        (forall|i: int| 0 <= i < records.len() ==> (#[trigger] records[i]).constraint != id)
            && known.contains_key(id) ==> records_added(known, records)[id] == known[id],
        forall|i: int|
            0 <= i < records.len() && (#[trigger] records[i]).constraint == id && (forall|j: int|
                i < j < records.len() ==> (#[trigger] records[j]).constraint != id)
                ==> records_added(known, records)[id] == records[i],
    decreases records.len(),
{
    if records.len() > 0 {
        let init = records.drop_last();
        let n = records.len() - 1;
        lemma_added(known, init, id);
        assert forall|i: int| 0 <= i < init.len() implies init[i] == records[i] by {}
        if exists|i: int| 0 <= i < init.len() && (#[trigger] init[i]).constraint == id {
            let i = choose|i: int| 0 <= i < init.len() && (#[trigger] init[i]).constraint == id;
            assert(records[i].constraint == id);
        }
        assert(records[n] == records.last());
        if exists|i: int| 0 <= i < records.len() && (#[trigger] records[i]).constraint == id {
            let i = choose|i: int|
                0 <= i < records.len() && (#[trigger] records[i]).constraint == id;
            if i < n {
                assert(init[i].constraint == id);
            }
        }
        assert forall|i: int|
            0 <= i < records.len() && (#[trigger] records[i]).constraint == id && (forall|j: int|
                i < j < records.len() ==> (#[trigger] records[j]).constraint
                    != id) implies records_added(known, records)[id] == records[i] by {
            if i < n {
                assert(records[n].constraint != id);
                assert(init[i].constraint == id);
                assert forall|j: int| i < j < init.len() implies (#[trigger] init[j]).constraint
                    != id by {
                    assert(records[j].constraint != id);
                }
            }
        }
        if forall|i: int| 0 <= i < records.len() ==> (#[trigger] records[i]).constraint != id {
            assert(records[n].constraint != id);
            assert forall|i: int| 0 <= i < init.len() implies (#[trigger] init[i]).constraint
                != id by {
                assert(records[i].constraint != id);
            }
        }
    }
}

/// An observation is recorded with its text and its metadata. Each exposure in it is noted, with how
/// it came about and the number of this event; what was known stays known as it was. It is refused,
/// and changes nothing, where its text is blank or one of its exposures cannot be made.
pub proof fn law_observation_makes_its_exposures_known(
    core: EnvironmentCoreView,
    content: ObservationContentView,
)
    ensures
        ({
            let (result, after) = observation_emitted(core, content);
            let exposures = content.exposures;
            let before = core.state.exposures.records;
            let sequence = step_behind(core.state.step);
            &&& result is Ok <==> !is_blank(content.user_text) && forall|i: int|
                0 <= i < exposures.len() ==> #[trigger] can_expose(core.state, exposures, i)
            &&& result is Err ==> after == core
            &&& result matches Ok(observation) ==> {
                let known = after.state.exposures.records;
                &&& observation.user_text == content.user_text
                &&& observation.metadata == content.metadata
                &&& exists|records: Seq<ExposureRecordView>|
                    {
                        &&& records.len() == exposures.len()
                        &&& forall|i: int|
                            0 <= i < exposures.len() ==> notes(
                                #[trigger] records[i],
                                exposures[i],
                                sequence,
                            ) && known.contains_key(subject(exposures[i]))
                                && known[subject(exposures[i])] == records[i]
                        &&& #[trigger] occurs(
                            core,
                            EnvironmentEventKindView::ObservationEmitted {
                                observation,
                                exposures: records,
                            },
                            EnvironmentStateView {
                                exposures: after.state.exposures,
                                ..core.state
                            },
                            after,
                        )
                    }
                &&& forall|id: Seq<char>| #[trigger]
                    before.contains_key(id) ==> known.contains_key(id) && known[id] == before[id]
                &&& forall|id: Seq<char>| #[trigger]
                    known.contains_key(id) ==> before.contains_key(id) || exists|i: int|
                        0 <= i < exposures.len() && subject(#[trigger] exposures[i]) == id
            }
        }),
{
    let exposures = content.exposures;
    let n = exposures.len() as int;
    let before = core.state.exposures.records;
    let sequence = step_behind(core.state.step);
    lemma_prepared(core.state, exposures, sequence, n);
    assert(exposures.take(n) =~= exposures);
    let (result, after) = observation_emitted(core, content);
    if result is Ok {
        let records = exposures_prepared(core.state, exposures, sequence)->Ok_0;
        let known = after.state.exposures.records;
        assert forall|i: int| 0 <= i < n implies notes(
            #[trigger] records[i],
            exposures[i],
            sequence,
        ) && known.contains_key(subject(exposures[i])) && known[subject(exposures[i])]
            == records[i] by {
            let id = subject(exposures[i]);
            lemma_added(before, records, id);
            assert(records[i].constraint == id);
            assert forall|j: int| i < j < records.len() implies (#[trigger] records[j]).constraint
                != id by {
                assert(can_expose(core.state, exposures, j));
                assert(notes(records[j], exposures[j], sequence));
                assert(subject(exposures[i]) == id);
            }
        }
        assert forall|id: Seq<char>| #[trigger] before.contains_key(id) implies known.contains_key(
            id,
        ) && known[id] == before[id] by {
            lemma_added(before, records, id);
            assert forall|i: int| 0 <= i < records.len() implies (#[trigger] records[i]).constraint
                != id by {
                assert(can_expose(core.state, exposures, i));
                assert(notes(records[i], exposures[i], sequence));
            }
        }
        assert forall|id: Seq<char>| #[trigger] known.contains_key(id) implies before.contains_key(
            id,
        ) || exists|i: int| 0 <= i < exposures.len() && subject(#[trigger] exposures[i]) == id by {
            lemma_added(before, records, id);
            if !before.contains_key(id) {
                let i = choose|i: int|
                    0 <= i < records.len() && (#[trigger] records[i]).constraint == id;
                assert(notes(records[i], exposures[i], sequence));
                assert(subject(exposures[i]) == id);
            }
        }
        assert(occurs(
            core,
            EnvironmentEventKindView::ObservationEmitted {
                observation: result->Ok_0,
                exposures: records,
            },
            EnvironmentStateView { exposures: after.state.exposures, ..core.state },
            after,
        ));
    }
}

/// A snapshot shows the case and the version of the graph, and where the environment is.
pub proof fn law_snapshot_shows_the_environment(core: EnvironmentCoreView)
    ensures
        snapshot_of(core).environment_id == core.graph.case_id,
        snapshot_of(core).version == core.graph.version,
        snapshot_of(core).status == core.state.status,
        snapshot_of(core).step == core.state.step,
{
}

} // verus!
