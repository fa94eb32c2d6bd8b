//! What the decisions, the observations and the turns of an evaluation are read as and told as.

use crate::document::is_read_as;
use crate::eval::action::{AgentActionEventView, AgentActionStatus};
use crate::eval::decision_tool::{
    decision_called, decision_kind_of, decision_of, decision_parameters, decision_spec,
    evidence_items, evidence_of, evidence_ref_of,
};
use crate::eval::error::EvalErrorView;
use crate::eval::policy::{
    action_made, event_collected, policy_input, policy_metadata, ActionCollectorView,
};
use crate::eval::runner::runner_move;
use crate::eval::state::{
    EnvironmentDecisionView, EnvironmentObservationView, EnvironmentOutputView, EnvironmentStatus,
    EvidenceRefView,
};
use crate::json::{JsonView, NumberView};
use crate::json_laws::holds;
use crate::kernel::model::ModelFunctionCallView;
use crate::pretty_laws::law_pretty_is_read_back;
use crate::runtime::error::AgentErrorView;
use crate::runtime::functions::FunctionExecutionView;
use crate::runtime::turn::{
    TurnModelEventView, TurnOutcomeView, TurnStateEventView, TurnStreamEventView,
};
use crate::spelling::{depth_limit, is_plain_json};
use vstd::prelude::*;

verus! {

/// A reference to evidence, as an object or as an array of its two parts.
pub open spec fn is_ref(json: JsonView, evidence: EvidenceRefView) -> bool {
    ||| holds(json, "kind"@, JsonView::Text(evidence.kind)) && holds(
        json,
        "reference"@,
        JsonView::Text(evidence.reference),
    )
    ||| json is Array && json->Array_0 =~= seq![
        JsonView::Text(evidence.kind),
        JsonView::Text(evidence.reference),
    ]
}

/// A list of references to evidence, in their order.
pub open spec fn are_refs(json: JsonView, evidence: Seq<EvidenceRefView>) -> bool {
    &&& json is Array
    &&& json->Array_0.len() == evidence.len()
    &&& forall|i: int| 0 <= i < evidence.len() ==> is_ref(#[trigger] json->Array_0[i], evidence[i])
}

/// The decision that arguments name, as an object or as an array of its parts.
pub open spec fn names_decision(arguments: JsonView, decision: EnvironmentDecisionView) -> bool {
    match decision {
        EnvironmentDecisionView::Transition { transition, evidence, reason } => {
            ||| holds(arguments, "kind"@, JsonView::Text("transition"@)) && holds(
                arguments,
                "transition"@,
                JsonView::Text(transition),
            ) && holds(arguments, "reason"@, JsonView::Text(reason))
                && arguments->Object_0.contains_key("evidence"@) && are_refs(
                arguments->Object_0["evidence"@],
                evidence,
            )
            ||| arguments is Array && arguments->Array_0.len() == 4 && arguments->Array_0[0]
                == JsonView::Text("transition"@) && arguments->Array_0[1] == JsonView::Text(
                transition,
            ) && are_refs(arguments->Array_0[2], evidence) && arguments->Array_0[3]
                == JsonView::Text(reason)
        },
        EnvironmentDecisionView::Retry { reason } => {
            ||| holds(arguments, "kind"@, JsonView::Text("retry"@)) && holds(
                arguments,
                "reason"@,
                JsonView::Text(reason),
            )
            ||| arguments is Array && arguments->Array_0 =~= seq![
                JsonView::Text("retry"@),
                JsonView::Text(reason),
            ]
        },
        EnvironmentDecisionView::Terminate { reason } => {
            ||| holds(arguments, "kind"@, JsonView::Text("terminate"@)) && holds(
                arguments,
                "reason"@,
                JsonView::Text(reason),
            )
            ||| arguments is Array && arguments->Array_0 =~= seq![
                JsonView::Text("terminate"@),
                JsonView::Text(reason),
            ]
        },
    }
}

proof fn lemma_ref(json: JsonView, evidence: EvidenceRefView)
    ensures
        evidence_ref_of(json) == Ok::<EvidenceRefView, Seq<char>>(evidence) <==> is_ref(
            json,
            evidence,
        ),
{
}

proof fn lemma_refs(items: Seq<JsonView>, evidence: Seq<EvidenceRefView>)
    ensures
        evidence_items(items) == Ok::<Seq<EvidenceRefView>, Seq<char>>(evidence) <==> are_refs(
            JsonView::Array(items),
            evidence,
        ),
    decreases items.len(),
{
    let json = JsonView::Array(items);
    if items.len() == 0 {
        if are_refs(json, evidence) {
            assert(evidence =~= Seq::empty());
        }
    } else {
        let init = items.drop_last();
        let n = items.len() - 1;
        if are_refs(json, evidence) {
            let before = evidence.drop_last();
            assert forall|i: int| 0 <= i < before.len() implies is_ref(
                #[trigger] JsonView::Array(init)->Array_0[i],
                before[i],
            ) by {
                assert(is_ref(json->Array_0[i], evidence[i]));
            }
            lemma_refs(init, before);
            assert(is_ref(json->Array_0[n], evidence[n]));
            lemma_ref(items[n], evidence[n]);
            assert(before.push(evidence[n]) =~= evidence);
        }
        if evidence_items(items) == Ok::<Seq<EvidenceRefView>, Seq<char>>(evidence) {
            let before = evidence_items(init)->Ok_0;
            lemma_refs(init, before);
            lemma_ref(items[n], evidence[n]);
            assert forall|i: int| 0 <= i < evidence.len() implies is_ref(
                #[trigger] json->Array_0[i],
                evidence[i],
            ) by {
                if i < n {
                    assert(is_ref(JsonView::Array(init)->Array_0[i], before[i]));
                }
            }
        }
    }
}

proof fn lemma_evidence(json: JsonView, evidence: Seq<EvidenceRefView>)
    ensures
        evidence_of(json) == Ok::<Seq<EvidenceRefView>, Seq<char>>(evidence) <==> are_refs(
            json,
            evidence,
        ),
{
    if json is Array {
        lemma_refs(json->Array_0, evidence);
    }
}

proof fn lemma_kinds()
    ensures
        "transition"@ != "retry"@,
        "transition"@ != "terminate"@,
        "retry"@ != "terminate"@,
{
    reveal_strlit("transition");
    reveal_strlit("retry");
    reveal_strlit("terminate");
    assert("transition"@.len() != "retry"@.len());
    assert("transition"@.len() != "terminate"@.len());
    assert("retry"@.len() != "terminate"@.len());
}

/// A decision is read from arguments exactly where they name it.
pub proof fn law_decision_is_what_the_arguments_name(
    arguments: JsonView,
    decision: EnvironmentDecisionView,
)
    ensures
        decision_of(arguments) == Ok::<EnvironmentDecisionView, Seq<char>>(decision)
            <==> names_decision(arguments, decision),
{
    lemma_kinds();
    let items = arguments->Array_0;
    match decision {
        EnvironmentDecisionView::Transition { transition, evidence, reason } => {
            if arguments is Object {
                lemma_evidence(arguments->Object_0["evidence"@], evidence);
            }
            if arguments is Array && items.len() > 2 {
                let rest = items.drop_first();
                assert(rest[1] == items[2]);
                lemma_evidence(items[2], evidence);
                if items.len() > 3 {
                    assert(rest[0] == items[1] && rest[2] == items[3]);
                }
            }
        },
        _ => {},
    }
    if decision_of(arguments) is Ok && decision_of(arguments)->Ok_0 is Transition {
        if arguments is Array {
            let rest = items.drop_first();
            assert(rest[0] == items[1] && rest[1] == items[2] && rest[2] == items[3]);
        }
    }
}

/// A call takes the decision that its arguments name, where none waits or the same one does; it says
/// that it was accepted, and the decision waits. Any other call is refused, and what waits stays.
pub proof fn law_one_decision_waits(
    pending: Option<EnvironmentDecisionView>,
    arguments: JsonView,
)
    ensures
        ({
            let (result, after) = decision_called(pending, arguments);
            &&& result is Ok <==> exists|decision: EnvironmentDecisionView| #[trigger]
                names_decision(arguments, decision) && (pending is None || pending == Some(
                    decision,
                ))
            &&& result is Ok ==> after is Some && names_decision(arguments, after->Some_0) && result
                == Ok::<FunctionExecutionView, AgentErrorView>(
                FunctionExecutionView::Completed {
                    output: JsonView::Object(map!["accepted"@ => JsonView::Bool(true)]),
                },
            )
            &&& result is Err ==> after == pending && result->Err_0 is InvalidFunctionArguments
                && result->Err_0->InvalidFunctionArguments_name == "environment_decision"@
        }),
{
    if decision_of(arguments) is Ok {
        law_decision_is_what_the_arguments_name(arguments, decision_of(arguments)->Ok_0);
    }
    assert forall|decision: EnvironmentDecisionView| #[trigger]
        names_decision(arguments, decision) implies decision_of(arguments) == Ok::<
        EnvironmentDecisionView,
        Seq<char>,
    >(decision) by {
        law_decision_is_what_the_arguments_name(arguments, decision);
    }
}

/// There is nothing in a document: it is null or an object without members.
pub open spec fn shows_nothing(json: JsonView) -> bool {
    json is Null || json is Object && forall|key: Seq<char>|
        !#[trigger] json->Object_0.contains_key(key)
}

/// The agent is told the text of an observation, and below it, where there is anything to show, a
/// text from which what is shown can be read.
pub proof fn law_agent_is_told_the_observation(observation: EnvironmentObservationView)
    ensures
        ({
            let told = policy_input(observation);
            if shows_nothing(observation.visible_state) {
                told == observation.user_text
            } else {
                exists|shown: Seq<char>|
                    told == #[trigger] (observation.user_text
                        + "\n\nActive exposed constraints (authoritative):\n"@ + shown) && (
                    is_plain_json(observation.visible_state, depth_limit()) ==> forall|
                        document: Option<JsonView>,
                    | #[trigger]
                        is_read_as(shown, document) ==> document == Some(
                            observation.visible_state,
                        ))
            }
        }),
{
    let state = observation.visible_state;
    if state is Object {
        let members = state->Object_0;
        if members.dom() == Set::<Seq<char>>::empty() {
            assert forall|key: Seq<char>| !#[trigger] members.contains_key(key) by {
                assert(!members.dom().contains(key));
            }
        } else if forall|key: Seq<char>| !#[trigger] members.contains_key(key) {
            assert(members.dom() =~= Set::<Seq<char>>::empty());
        }
    }
    if !shows_nothing(state) {
        let shown = crate::pretty::pretty(state, Seq::empty());
        let told = observation.user_text + "\n\nActive exposed constraints (authoritative):\n"@
            + shown;
        assert(policy_input(observation) == told);
        if is_plain_json(state, depth_limit()) {
            assert forall|document: Option<JsonView>| #[trigger]
                is_read_as(shown, document) implies document == Some(state) by {
                law_pretty_is_read_back(state, document);
            }
        }
    }
}

/// The metadata of a turn holds that of the environment and what is shown.
pub proof fn law_metadata_holds_the_environment(observation: EnvironmentObservationView)
    ensures
        holds(policy_metadata(observation), "environment"@, observation.metadata),
        holds(policy_metadata(observation), "visible_state"@, observation.visible_state),
{
    reveal_strlit("environment");
    reveal_strlit("visible_state");
    assert("environment"@.len() != "visible_state"@.len());
}

/// Calls as a document: one object for each, in their order.
pub open spec fn lists_calls(json: JsonView, calls: Seq<ModelFunctionCallView>) -> bool {
    &&& json is Array
    &&& json->Array_0.len() == calls.len()
    &&& forall|i: int|
        0 <= i < calls.len() ==> {
            &&& holds(#[trigger] json->Array_0[i], "call_id"@, JsonView::Text(calls[i].call_id))
            &&& holds(json->Array_0[i], "name"@, JsonView::Text(calls[i].name))
            &&& holds(json->Array_0[i], "arguments"@, calls[i].arguments)
        }
}

/// An event of a turn that belongs to what the agent did, and what it is kept as.
pub open spec fn keeps(event: TurnStreamEventView, kept: AgentActionEventView) -> bool {
    match event {
        TurnStreamEventView::Model(TurnModelEventView::AssistantMessage { text }) => kept
            == (AgentActionEventView::AssistantText { text }),
        TurnStreamEventView::Model(_) => false,
        TurnStreamEventView::Runtime(runtime) => kept == (AgentActionEventView::Runtime {
            source: runtime.source,
            message: runtime.message,
            metadata: runtime.metadata,
        }),
        TurnStreamEventView::State(state) => match state {
            TurnStateEventView::FunctionCallsRequested { calls } => kept is FunctionCallsRequested
                && lists_calls(kept->FunctionCallsRequested_calls, calls),
            TurnStateEventView::FunctionStarted { call_id, name } => kept
                == (AgentActionEventView::FunctionStarted { call_id, name }),
            TurnStateEventView::FunctionCompleted { call_id, name } => kept
                == (AgentActionEventView::FunctionCompleted { call_id, name }),
            TurnStateEventView::FunctionFailed { call_id, name, error } => kept
                == (AgentActionEventView::FunctionFailed { call_id, name, error }),
            TurnStateEventView::TurnTokenUsage { usage } => {
                &&& kept is TokenUsage
                &&& holds(
                    kept->TokenUsage_usage,
                    "input_tokens"@,
                    JsonView::Number(NumberView::Unsigned(usage.input_tokens)),
                )
                &&& holds(
                    kept->TokenUsage_usage,
                    "cached_input_tokens"@,
                    JsonView::Number(NumberView::Unsigned(usage.cached_input_tokens)),
                )
                &&& holds(
                    kept->TokenUsage_usage,
                    "output_tokens"@,
                    JsonView::Number(NumberView::Unsigned(usage.output_tokens)),
                )
                &&& holds(
                    kept->TokenUsage_usage,
                    "total_tokens"@,
                    JsonView::Number(NumberView::Unsigned(usage.total_tokens)),
                )
            },
            _ => false,
        },
    }
}

/// What belongs to an agent's turn is kept in its order: messages, calls and what became of them,
/// tokens and news of the runtime. The last message is the text of the turn.
pub proof fn law_turn_keeps_what_the_agent_did(
    turn: ActionCollectorView,
    event: TurnStreamEventView,
)
    ensures
        ({
            let after = event_collected(turn, event);
            &&& after == turn || exists|kept: AgentActionEventView| #[trigger]
                keeps(event, kept) && after.events == turn.events.push(kept)
            &&& after == turn ==> forall|kept: AgentActionEventView| !#[trigger] keeps(event, kept)
            &&& after.assistant_text == match event {
                TurnStreamEventView::Model(TurnModelEventView::AssistantMessage { text }) => text,
                _ => turn.assistant_text,
            }
        }),
{
    reveal_strlit("input_tokens");
    reveal_strlit("cached_input_tokens");
    reveal_strlit("output_tokens");
    reveal_strlit("total_tokens");
    assert("input_tokens"@.len() == 12 && "input_tokens"@[0] == 'i');
    assert("cached_input_tokens"@.len() == 19);
    assert("output_tokens"@.len() == 13);
    assert("total_tokens"@.len() == 12 && "total_tokens"@[0] == 't');
    reveal_strlit("call_id");
    reveal_strlit("name");
    reveal_strlit("arguments");
    assert("call_id"@.len() == 7);
    assert("name"@.len() == 4);
    assert("arguments"@.len() == 9);
    let after = event_collected(turn, event);
    if after != turn {
        let kept = after.events.last();
        assert(keeps(event, kept));
        assert(after.events =~= turn.events.push(kept));
    } else {
        assert forall|kept: AgentActionEventView| !#[trigger] keeps(event, kept) by {
            if crate::eval::policy::action_event(event) is Some {
                assert(after.events.len() == turn.events.len() + 1);
            }
        }
    }
}

/// What an agent did has the status that its turn ended with, all that was kept of the turn, and as
/// its text the last message, or the message that it ended with where there was none.
pub proof fn law_action_is_the_turn(turn: ActionCollectorView, outcome: TurnOutcomeView)
    ensures
        action_made(turn, outcome).events == turn.events,
        turn.assistant_text.len() > 0 || !(outcome is AssistantMessage) ==> action_made(
            turn,
            outcome,
        ).assistant_text == turn.assistant_text,
        turn.assistant_text.len() == 0 && outcome is AssistantMessage ==> action_made(
            turn,
            outcome,
        ).assistant_text == outcome->AssistantMessage_text,
        outcome is AssistantMessage <==> action_made(turn, outcome).status
            == AgentActionStatus::Completed,
        outcome is Suspended <==> action_made(turn, outcome).status == AgentActionStatus::Suspended,
        outcome is Failed <==> action_made(turn, outcome).status == AgentActionStatus::Failed,
        outcome is Aborted <==> action_made(turn, outcome).status == AgentActionStatus::Aborted,
{
}

/// A runner lets the agent act on the observation while the environment is running and there are
/// steps left. It stops where the environment does, and fails where steps or the observation are
/// missing.
pub proof fn law_runner_goes_on_while_there_are_steps(
    max_steps: usize,
    steps: usize,
    output: EnvironmentOutputView,
)
    ensures
        output.status != EnvironmentStatus::Running <==> runner_move(max_steps, steps, output)
            == Ok::<Option<EnvironmentObservationView>, EvalErrorView>(None),
        output.status == EnvironmentStatus::Running && steps < max_steps
            && output.observation is Some ==> runner_move(max_steps, steps, output) == Ok::<
            Option<EnvironmentObservationView>,
            EvalErrorView,
        >(output.observation),
        output.status == EnvironmentStatus::Running && (steps >= max_steps
            || output.observation is None) <==> runner_move(max_steps, steps, output) is Err,
{
}

/// The choice of a kind of decision that the model is offered.
pub open spec fn offered(i: int) -> JsonView {
    decision_parameters()->Object_0["oneOf"@]->Array_0[i]
}

/// The model is offered exactly the kinds of decision that are read, and of each it is told that the
/// kind and the reason must be there.
pub proof fn law_schema_offers_the_kinds_that_are_read(kind: Seq<char>)
    ensures
        decision_spec().name == "environment_decision"@,
        decision_spec().parameters == decision_parameters(),
        decision_parameters()->Object_0["oneOf"@] is Array,
        decision_kind_of(JsonView::Text(kind)) is Ok <==> exists|i: int|
            0 <= i < decision_parameters()->Object_0["oneOf"@]->Array_0.len() && holds(
                #[trigger] offered(i)->Object_0["properties"@]->Object_0["kind"@],
                "const"@,
                JsonView::Text(kind),
            ),
        forall|i: int|
            #![trigger offered(i)]
            0 <= i < decision_parameters()->Object_0["oneOf"@]->Array_0.len()
                ==> offered(i)->Object_0["required"@] is Array
                && offered(i)->Object_0["required"@]->Array_0.contains(JsonView::Text("kind"@))
                && offered(i)->Object_0["required"@]->Array_0.contains(JsonView::Text("reason"@)),
{
    lemma_kinds();
    reveal_strlit("type");
    reveal_strlit("oneOf");
    reveal_strlit("properties");
    reveal_strlit("required");
    reveal_strlit("additionalProperties");
    reveal_strlit("kind");
    reveal_strlit("transition");
    reveal_strlit("evidence");
    reveal_strlit("reason");
    assert("type"@.len() == 4);
    assert("oneOf"@.len() == 5);
    assert("properties"@.len() == 10);
    assert("required"@.len() == 8);
    assert("additionalProperties"@.len() == 20);
    assert("kind"@.len() == 4);
    assert("transition"@.len() == 10);
    assert("evidence"@.len() == 8);
    assert("reason"@.len() == 6);
    let choices = decision_parameters()->Object_0["oneOf"@]->Array_0;
    assert(choices.len() == 3);
    let first = offered(0)->Object_0["properties"@]->Object_0["kind"@];
    let second = offered(1)->Object_0["properties"@]->Object_0["kind"@];
    let third = offered(2)->Object_0["properties"@]->Object_0["kind"@];
    assert(holds(first, "const"@, JsonView::Text("transition"@)));
    assert(holds(second, "const"@, JsonView::Text("retry"@)));
    assert(holds(third, "const"@, JsonView::Text("terminate"@)));
    let a = offered(0)->Object_0["required"@]->Array_0;
    let b = offered(1)->Object_0["required"@]->Array_0;
    let c = offered(2)->Object_0["required"@]->Array_0;
    assert(a[0] == JsonView::Text("kind"@) && a[3] == JsonView::Text("reason"@));
    assert(b[0] == JsonView::Text("kind"@) && b[1] == JsonView::Text("reason"@));
    assert(c[0] == JsonView::Text("kind"@) && c[1] == JsonView::Text("reason"@));
    assert forall|i: int|
        #![trigger offered(i)]
        0 <= i < choices.len() implies offered(i)->Object_0["required"@] is Array
        && offered(i)->Object_0["required"@]->Array_0.contains(JsonView::Text("kind"@))
        && offered(i)->Object_0["required"@]->Array_0.contains(JsonView::Text("reason"@)) by {
        assert(i == 0 || i == 1 || i == 2);
    }
}

} // verus!
