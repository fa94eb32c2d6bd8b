//! What the commands of a simulated user do to an evaluation.

use crate::eval::environment::{deltas_applied, operation_applied};
use crate::eval::error::EvalErrorView;
use crate::eval::program::{ConstraintDeltaView, ConstraintOperationView};
use crate::eval::state::{
    ConstraintApplicationView, ConstraintLedgerView,
    EvidenceRefView,
};
use crate::eval::vm::{
    agent_observed, command_applied, command_message, latest_of, phase_name, vm_made, vm_node_applied,
    AgentObservationView, EvalEventKindView, EvalEventView, EvalPhase, EvalProgramView,
    EvalProjectionView, EvalVmStatus, EvalVmView, SimulatedUserCommandView, TransitionDelivery,
};
use crate::json::JsonView;
use crate::runtime::error_laws::{lemma_ends, mentions};
use crate::text::is_blank;
use vstd::prelude::*;

verus! {

/// Constraints before and after an operation: what is added was not active, and what is replaced or
/// removed was.
pub open spec fn does(
    before: Map<Seq<char>, JsonView>,
    operation: ConstraintOperationView,
    after: Map<Seq<char>, JsonView>,
) -> bool {
    match operation {
        ConstraintOperationView::Add { id, value } => !before.contains_key(id) && after
            == before.insert(id, value),
        ConstraintOperationView::Replace { target, id, value } => before.contains_key(target)
            && after == before.remove(target).insert(id, value),
        ConstraintOperationView::Remove { target } => before.contains_key(target) && after
            == before.remove(target),
    }
}

/// The constraints that are active step by step, while changes are made in their order.
pub open spec fn is_chain(
    steps: Seq<Map<Seq<char>, JsonView>>,
    deltas: Seq<ConstraintDeltaView>,
) -> bool {
    &&& steps.len() == deltas.len() + 1
    &&& forall|i: int|
        0 <= i < deltas.len() ==> does(steps[i], (#[trigger] deltas[i]).operation, steps[i + 1])
}

/// Constraints before and after all changes of a node: each is made in its order, and each is noted.
pub open spec fn node_applies(
    before: ConstraintLedgerView,
    node: Seq<char>,
    deltas: Seq<ConstraintDeltaView>,
    after: ConstraintLedgerView,
) -> bool {
    &&& exists|steps: Seq<Map<Seq<char>, JsonView>>| #[trigger] is_chain(steps, deltas) && steps[0]
        == before.active && steps[deltas.len() as int] == after.active
    &&& after.applied == before.applied + Seq::new(
        deltas.len(),
        |i: int| ConstraintApplicationView { node, delta: deltas[i] },
    )
}

/// The first change of a node that cannot be made, after those before it.
pub open spec fn is_stuck(
    before: ConstraintLedgerView,
    deltas: Seq<ConstraintDeltaView>,
    n: int,
) -> bool {
    &&& 0 <= n < deltas.len()
    &&& exists|steps: Seq<Map<Seq<char>, JsonView>>| #[trigger] is_chain(steps, deltas.take(n))
        && steps[0] == before.active && forall|after: Map<Seq<char>, JsonView>|
        !#[trigger] does(steps[n], deltas[n].operation, after)
}

proof fn lemma_operation(active: Map<Seq<char>, JsonView>, operation: ConstraintOperationView)
    ensures
        match operation_applied(active, operation) {
            Ok(after) => does(active, operation, after),
            Err(_) => forall|after: Map<Seq<char>, JsonView>| !#[trigger] does(
                active,
                operation,
                after,
            ),
        },
{
}

/// The changes of a node are made in their order and noted in their order, or the first that cannot
/// be made stops them all.
pub proof fn law_constraints_are_applied_in_order(
    ledger: ConstraintLedgerView,
    node: Seq<char>,
    deltas: Seq<ConstraintDeltaView>,
)
    ensures
        match deltas_applied(ledger, node, deltas) {
            Ok(after) => node_applies(ledger, node, deltas, after),
            Err(_) => exists|n: int| #[trigger] is_stuck(ledger, deltas, n),
        },
    decreases deltas.len(),
{
    if deltas.len() == 0 {
        let steps = seq![ledger.active];
        assert(is_chain(steps, deltas));
        assert(ledger.applied =~= ledger.applied + Seq::new(
            deltas.len(),
            |i: int| ConstraintApplicationView { node, delta: deltas[i] },
        ));
    } else {
        let init = deltas.drop_last();
        let last = deltas.last();
        let n = init.len() as int;
        law_constraints_are_applied_in_order(ledger, node, init);
        match deltas_applied(ledger, node, init) {
            Ok(before) => {
                let steps = choose|steps: Seq<Map<Seq<char>, JsonView>>| #[trigger] is_chain(
                    steps,
                    init,
                ) && steps[0] == ledger.active && steps[init.len() as int] == before.active;
                lemma_operation(before.active, last.operation);
                match operation_applied(before.active, last.operation) {
                    Ok(active) => {
                        let more = steps.push(active);
                        assert(is_chain(more, deltas)) by {
                            assert forall|i: int| 0 <= i < deltas.len() implies does(
                                more[i],
                                (#[trigger] deltas[i]).operation,
                                more[i + 1],
                            ) by {
                                if i < n {
                                    assert(init[i] == deltas[i]);
                                }
                            }
                        }
                        let after = deltas_applied(ledger, node, deltas)->Ok_0;
                        assert(after.applied =~= ledger.applied + Seq::new(
                            deltas.len(),
                            |i: int| ConstraintApplicationView { node, delta: deltas[i] },
                        ));
                    },
                    Err(_) => {
                        assert(deltas.take(n) =~= init);
                        assert(is_stuck(ledger, deltas, n));
                    },
                }
            },
            Err(_) => {
                let k = choose|k: int| #[trigger] is_stuck(ledger, init, k);
                assert(init.take(k) =~= deltas.take(k));
                assert(is_stuck(ledger, deltas, k));
            },
        }
    }
}

/// The number behind `n`.
pub open spec fn step_behind(n: u64) -> u64 {
    if n == u64::MAX {
        n
    } else {
        (n + 1) as u64
    }
}

/// An evaluation in which one more thing happened: it is the last event and has the next number. The
/// program and everything before stay.
pub open spec fn happens(
    before: EvalVmView,
    kind: EvalEventKindView,
    projection: EvalProjectionView,
    after: EvalVmView,
) -> bool {
    let step = step_behind(before.projection.step);
    &&& after.program == before.program
    &&& after.events == before.events.push(EvalEventView { sequence: step, kind })
    &&& after.projection == (EvalProjectionView { step, ..projection })
}

/// An evaluation in which a command was given.
pub open spec fn is_given(
    before: EvalVmView,
    command: SimulatedUserCommandView,
    after: EvalVmView,
) -> bool {
    happens(
        before,
        EvalEventKindView::SimulatorCommand { command },
        before.projection,
        after,
    )
}

/// A transition from the node at which an evaluation is.
pub open spec fn leaves_here(vm: EvalVmView, transition: Seq<char>) -> bool {
    vm.program.graph.transitions.contains_key(transition)
        && vm.program.graph.transitions[transition].from == vm.projection.current_node
}

/// A transition can be committed by a delivery: an explicit one is the pending one, and an epsilon
/// one is allowed by the program while none is pending.
pub open spec fn can_deliver(
    vm: EvalVmView,
    transition: Seq<char>,
    delivery: TransitionDelivery,
) -> bool {
    match delivery {
        TransitionDelivery::Explicit => vm.projection.pending_transition == Some(transition),
        TransitionDelivery::Epsilon => vm.projection.pending_transition is None
            && vm.program.epsilon.contains(transition),
    }
}

/// After a commit the evaluation is at the target of the transition, with the constraints of the
/// target applied to those that held: an added one is active with its value, a removed one is not,
/// and each change is noted. Nothing is pending any more, the commit is the last event, and at a
/// terminal node the evaluation is completed. A commit succeeds where the agent was observed, the
/// transition leaves the current node and can be delivered so, and the changes can be made.
pub proof fn law_commit_enters_the_target(
    vm: EvalVmView,
    transition: Seq<char>,
    delivery: TransitionDelivery,
    evidence: Seq<EvidenceRefView>,
    reason: Seq<char>,
)
    ensures
        ({
            let command = SimulatedUserCommandView::Commit {
                transition,
                delivery,
                evidence,
                reason,
            };
            let (result, after) = command_applied(vm, command);
            let graph = vm.program.graph;
            let to = graph.transitions[transition].to;
            if result is Ok {
                exists|given: EvalVmView, constraints: ConstraintLedgerView|
                    #[trigger]
                    is_given(vm, command, given) && #[trigger] node_applies(
                        vm.projection.constraints,
                        to,
                        graph.nodes[to].constraints,
                        constraints,
                    ) && happens(
                        given,
                        EvalEventKindView::TransitionCommitted {
                            transition: Some(transition),
                            from: vm.projection.current_node,
                            to,
                            delivery,
                            evidence,
                        },
                        EvalProjectionView {
                            status: if graph.nodes[to].terminal {
                                EvalVmStatus::Completed
                            } else {
                                EvalVmStatus::Running
                            },
                            phase: EvalPhase::AwaitingUserAction,
                            current_node: to,
                            pending_transition: None,
                            constraints,
                            step: given.projection.step,
                        },
                        after,
                    ) && vm.projection.status == EvalVmStatus::Running && vm.projection.phase
                        == EvalPhase::AwaitingSimulatorDecision && leaves_here(vm, transition)
                        && can_deliver(vm, transition, delivery) && graph.nodes.contains_key(to)
            } else {
                &&& is_given(vm, command, after)
                &&& vm.projection.status != EvalVmStatus::Running || vm.projection.phase
                    != EvalPhase::AwaitingSimulatorDecision || !leaves_here(vm, transition)
                    || !can_deliver(vm, transition, delivery) || !graph.nodes.contains_key(to)
                    || exists|n: int| #[trigger] is_stuck(
                    vm.projection.constraints,
                    graph.nodes[to].constraints,
                    n,
                )
            }
        }),
{
    let command = SimulatedUserCommandView::Commit { transition, delivery, evidence, reason };
    let (result, after) = command_applied(vm, command);
    let graph = vm.program.graph;
    let to = graph.transitions[transition].to;
    law_constraints_are_applied_in_order(
        vm.projection.constraints,
        to,
        graph.nodes[to].constraints,
    );
    let given = crate::eval::vm::vm_recorded(vm, EvalEventKindView::SimulatorCommand { command });
    assert(is_given(vm, command, given));
    if result is Ok {
        let constraints = after.projection.constraints;
        assert(vm_node_applied(graph, vm.projection.constraints, to) == Ok::<
            ConstraintLedgerView,
            EvalErrorView,
        >(constraints));
        assert(node_applies(
            vm.projection.constraints,
            to,
            graph.nodes[to].constraints,
            constraints,
        ));
        assert(happens(
            given,
            EvalEventKindView::TransitionCommitted {
                transition: Some(transition),
                from: vm.projection.current_node,
                to,
                delivery,
                evidence,
            },
            EvalProjectionView {
                status: if graph.nodes[to].terminal {
                    EvalVmStatus::Completed
                } else {
                    EvalVmStatus::Running
                },
                phase: EvalPhase::AwaitingUserAction,
                current_node: to,
                pending_transition: None,
                constraints,
                step: given.projection.step,
            },
            after,
        ));
    }
}

/// A message of the user is recorded and the agent is waited for; where it is for a transition, that
/// transition is pending. It is taken where the user's turn is, the message is not blank, and the
/// transition, if there is one, leaves the current node while none is pending.
pub proof fn law_message_waits_for_the_agent(
    vm: EvalVmView,
    transition: Option<Seq<char>>,
    message: Seq<char>,
)
    ensures
        ({
            let command = SimulatedUserCommandView::SendUserMessage { transition, message };
            let (result, after) = command_applied(vm, command);
            &&& result is Ok <==> vm.projection.status == EvalVmStatus::Running
                && vm.projection.phase == EvalPhase::AwaitingUserAction && !is_blank(message) && (
            transition is Some ==> leaves_here(vm, transition->Some_0)
                && vm.projection.pending_transition is None)
            &&& result is Err ==> is_given(vm, command, after)
            &&& result is Ok ==> exists|given: EvalVmView| #[trigger]
                is_given(vm, command, given) && happens(
                    given,
                    EvalEventKindView::UserMessage { message },
                    EvalProjectionView {
                        phase: EvalPhase::AwaitingAgentObservation,
                        pending_transition: if transition is Some {
                            transition
                        } else {
                            vm.projection.pending_transition
                        },
                        ..given.projection
                    },
                    after,
                )
        }),
{
    let command = SimulatedUserCommandView::SendUserMessage { transition, message };
    let given = crate::eval::vm::vm_recorded(vm, EvalEventKindView::SimulatorCommand { command });
    assert(is_given(vm, command, given));
}

/// Another try sends its message and waits for the agent again; the pending transition stays. It is
/// taken where the agent was observed, a transition is pending and the message is not blank.
pub proof fn law_retry_waits_for_the_agent_again(
    vm: EvalVmView,
    message: Seq<char>,
    reason: Seq<char>,
)
    ensures
        ({
            let command = SimulatedUserCommandView::Retry { message, reason };
            let (result, after) = command_applied(vm, command);
            &&& result is Ok <==> vm.projection.status == EvalVmStatus::Running
                && vm.projection.phase == EvalPhase::AwaitingSimulatorDecision
                && vm.projection.pending_transition is Some && !is_blank(message)
            &&& result is Err ==> is_given(vm, command, after)
            &&& result is Ok ==> exists|given: EvalVmView| #[trigger]
                is_given(vm, command, given) && happens(
                    given,
                    EvalEventKindView::UserMessage { message },
                    EvalProjectionView {
                        phase: EvalPhase::AwaitingAgentObservation,
                        ..given.projection
                    },
                    after,
                )
        }),
{
    let command = SimulatedUserCommandView::Retry { message, reason };
    let given = crate::eval::vm::vm_recorded(vm, EvalEventKindView::SimulatorCommand { command });
    assert(is_given(vm, command, given));
}

/// A halt stops a running evaluation where it is, with its reason; one that has stopped cannot be
/// halted.
pub proof fn law_halt_stops_the_evaluation(vm: EvalVmView, reason: Seq<char>)
    ensures
        ({
            let command = SimulatedUserCommandView::Halt { reason };
            let (result, after) = command_applied(vm, command);
            &&& result is Ok <==> vm.projection.status == EvalVmStatus::Running
            &&& result is Err ==> is_given(vm, command, after)
            &&& result is Ok ==> exists|given: EvalVmView| #[trigger]
                is_given(vm, command, given) && happens(
                    given,
                    EvalEventKindView::Halted { reason },
                    EvalProjectionView {
                        status: EvalVmStatus::Halted,
                        phase: EvalPhase::AwaitingSimulatorDecision,
                        ..given.projection
                    },
                    after,
                )
        }),
{
    let command = SimulatedUserCommandView::Halt { reason };
    let given = crate::eval::vm::vm_recorded(vm, EvalEventKindView::SimulatorCommand { command });
    assert(is_given(vm, command, given));
}

/// An observation of the agent is recorded as it is, and the simulator decides next. It is taken where
/// the agent is waited for, and changes nothing elsewhere.
pub proof fn law_observation_is_recorded(vm: EvalVmView, observation: AgentObservationView)
    ensures
        ({
            let (result, after) = agent_observed(vm, observation);
            &&& result is Ok <==> vm.projection.status == EvalVmStatus::Running
                && vm.projection.phase == EvalPhase::AwaitingAgentObservation
            &&& result is Err ==> after == vm
            &&& result is Ok ==> happens(
                vm,
                EvalEventKindView::AgentObservation { observation },
                EvalProjectionView {
                    phase: EvalPhase::AwaitingSimulatorDecision,
                    ..vm.projection
                },
                after,
            )
        }),
{
}

/// An evaluation starts at the start of its graph, with the constraints of that node and nothing
/// else, waiting for the user; where the start is terminal it is completed at once.
pub proof fn law_evaluation_starts_at_the_start(program: EvalProgramView)
    ensures
        match vm_made(program) {
            Ok(vm) => {
                let start = program.graph.start;
                &&& program.graph.nodes.contains_key(start)
                &&& vm.program == program
                &&& vm.events == seq![
                    EvalEventView {
                        sequence: 1,
                        kind: EvalEventKindView::ProgramStarted { node: start },
                    },
                ]
                &&& node_applies(
                    ConstraintLedgerView { active: Map::empty(), applied: Seq::empty() },
                    start,
                    program.graph.nodes[start].constraints,
                    vm.projection.constraints,
                )
                &&& vm.projection == (EvalProjectionView {
                    status: if program.graph.nodes[start].terminal {
                        EvalVmStatus::Completed
                    } else {
                        EvalVmStatus::Running
                    },
                    phase: EvalPhase::AwaitingUserAction,
                    current_node: start,
                    pending_transition: None,
                    constraints: vm.projection.constraints,
                    step: 1,
                })
            },
            Err(_) => !program.graph.nodes.contains_key(program.graph.start) || exists|n: int|
                #[trigger] is_stuck(
                    ConstraintLedgerView { active: Map::empty(), applied: Seq::empty() },
                    program.graph.nodes[program.graph.start].constraints,
                    n,
                ),
        },
{
    let start = program.graph.start;
    law_constraints_are_applied_in_order(
        ConstraintLedgerView { active: Map::empty(), applied: Seq::empty() },
        start,
        program.graph.nodes[start].constraints,
    );
    if vm_made(program) is Ok {
        assert(vm_made(program)->Ok_0.events =~= seq![
            EvalEventView {
                sequence: 1,
                kind: EvalEventKindView::ProgramStarted { node: start },
            },
        ]);
    }
}

/// The agent is told the message of a command that has one, and nothing by any other.
pub proof fn law_agent_is_told_the_message(command: SimulatedUserCommandView)
    ensures
        command_message(command) == match command {
            SimulatedUserCommandView::SendUserMessage { transition, message } => Some(message),
            SimulatedUserCommandView::Retry { message, reason } => Some(message),
            SimulatedUserCommandView::Commit { transition, delivery, evidence, reason } => None,
            SimulatedUserCommandView::Halt { reason } => None,
        },
{
}

/// The latest observation is the one of the last event that is an observation of the agent.
pub proof fn law_latest_observation_is_the_last(events: Seq<EvalEventView>)
    ensures
        match latest_of(events) {
            Some(observation) => exists|i: int|
                0 <= i < events.len() && (#[trigger] events[i]).kind
                    == (EvalEventKindView::AgentObservation { observation }) && forall|j: int|
                    i < j < events.len() ==> !((#[trigger] events[j]).kind is AgentObservation),
            None => forall|j: int|
                0 <= j < events.len() ==> !((#[trigger] events[j]).kind is AgentObservation),
        },
    decreases events.len(),
{
    if events.len() > 0 {
        let init = events.drop_last();
        let n = events.len() - 1;
        law_latest_observation_is_the_last(init);
        assert(events[n] == events.last());
        if !(events[n].kind is AgentObservation) {
            match latest_of(init) {
                Some(observation) => {
                    let i = choose|i: int|
                        0 <= i < init.len() && (#[trigger] init[i]).kind
                            == (EvalEventKindView::AgentObservation { observation }) && forall|
                            j: int,
                        |
                            i < j < init.len() ==> !((#[trigger] init[j]).kind is AgentObservation);
                    assert(events[i].kind == (EvalEventKindView::AgentObservation { observation }));
                    assert forall|j: int| i < j < events.len() implies !((#[trigger] events[j]).kind
                        is AgentObservation) by {
                        if j < n {
                            assert(init[j] == events[j]);
                        }
                    }
                },
                None => {
                    assert forall|j: int| 0 <= j < events.len() implies !((
                    #[trigger] events[j]).kind is AgentObservation) by {
                        if j < n {
                            assert(init[j] == events[j]);
                        }
                    }
                },
            }
        }
    }
}

/// A command that is given at the wrong time is refused as one, with the phase it needs and the phase
/// there is; one that is given when the evaluation is over is refused as well.
pub proof fn law_command_at_the_wrong_time_is_refused(
    vm: EvalVmView,
    command: SimulatedUserCommandView,
)
    requires
        !(command is Halt),
        ({
            let needed = if command is SendUserMessage {
                EvalPhase::AwaitingUserAction
            } else {
                EvalPhase::AwaitingSimulatorDecision
            };
            vm.projection.status != EvalVmStatus::Running || vm.projection.phase != needed
        }),
    ensures
        command_applied(vm, command).0 matches Err(error) && error is InvalidCommand && (
        vm.projection.status == EvalVmStatus::Running ==> mentions(
            error->InvalidCommand_0,
            phase_name(vm.projection.phase),
        )),
{
    if vm.projection.status == EvalVmStatus::Running {
        let needed = if command is SendUserMessage {
            EvalPhase::AwaitingUserAction
        } else {
            EvalPhase::AwaitingSimulatorDecision
        };
        lemma_ends(
            "command requires phase "@ + phase_name(needed) + ", current phase is "@,
            phase_name(vm.projection.phase),
        );
    }
}

} // verus!
