//! What a snapshot shows of the state of an environment.

use crate::eval::graph_environment::{snapshot_of, EnvironmentCoreView};
use crate::eval::program::ConstraintOperationView;
use crate::eval::state::{
    ConstraintApplicationView, EnvironmentStatus, ExposureOriginView, ExposureRecordView,
    TerminationReasonView,
};
use crate::eval::state_codec::{
    constraint_application_json, environment_state_json, exposure_record_json,
};
use crate::json::{JsonView, NumberView};
use crate::json_laws::holds;
use vstd::prelude::*;

verus! {

/// The member of an object.
pub open spec fn part(json: JsonView, key: Seq<char>) -> JsonView {
    json->Object_0[key]
}

/// How a change of the constraints is shown.
pub open spec fn shows_operation(json: JsonView, operation: ConstraintOperationView) -> bool {
    match operation {
        ConstraintOperationView::Add { id, value } => holds(json, "type"@, JsonView::Text("add"@))
            && holds(json, "id"@, JsonView::Text(id)) && holds(json, "value"@, value),
        ConstraintOperationView::Replace { target, id, value } => holds(
            json,
            "type"@,
            JsonView::Text("replace"@),
        ) && holds(json, "target"@, JsonView::Text(target)) && holds(
            json,
            "id"@,
            JsonView::Text(id),
        ) && holds(json, "value"@, value),
        ConstraintOperationView::Remove { target } => holds(
            json,
            "type"@,
            JsonView::Text("remove"@),
        ) && holds(json, "target"@, JsonView::Text(target)),
    }
}

/// How a change that a node made is shown.
pub open spec fn shows_application(json: JsonView, applied: ConstraintApplicationView) -> bool {
    &&& holds(json, "node"@, JsonView::Text(applied.node))
    &&& json->Object_0.contains_key("delta"@)
    &&& part(json, "delta"@) is Object
    &&& part(json, "delta"@)->Object_0.contains_key("operation"@)
    &&& shows_operation(part(part(json, "delta"@), "operation"@), applied.delta.operation)
}

/// How it is shown that a constraint is known.
pub open spec fn shows_exposure(json: JsonView, record: ExposureRecordView) -> bool {
    &&& holds(json, "constraint"@, JsonView::Text(record.constraint))
    &&& holds(
        json,
        "observation_sequence"@,
        JsonView::Number(NumberView::Unsigned(record.observation_sequence)),
    )
    &&& json->Object_0.contains_key("origin"@)
    &&& match record.origin {
        ExposureOriginView::ExplicitDisclosure => holds(
            part(json, "origin"@),
            "type"@,
            JsonView::Text("explicit_disclosure"@),
        ),
        ExposureOriginView::EnvironmentDerived { inputs, rule } => holds(
            part(json, "origin"@),
            "type"@,
            JsonView::Text("environment_derived"@),
        ) && holds(part(json, "origin"@), "rule"@, JsonView::Text(rule)) && holds(
            part(json, "origin"@),
            "inputs"@,
            JsonView::Array(Seq::new(inputs.len(), |i: int| JsonView::Text(inputs[i]))),
        ),
        ExposureOriginView::ContextProvided { source } => holds(
            part(json, "origin"@),
            "type"@,
            JsonView::Text("context_provided"@),
        ) && holds(part(json, "origin"@), "source"@, JsonView::Text(source)),
    }
}

proof fn lemma_names()
    ensures
        "type"@ != "id"@,
        "type"@ != "value"@,
        "type"@ != "target"@,
        "id"@ != "value"@,
        "id"@ != "target"@,
        "value"@ != "target"@,
        "node"@ != "delta"@,
        "operation"@ != "provenance"@,
        "constraint"@ != "origin"@,
        "constraint"@ != "observation_sequence"@,
        "origin"@ != "observation_sequence"@,
        "type"@ != "rule"@,
        "type"@ != "inputs"@,
        "rule"@ != "inputs"@,
        "type"@ != "source"@,
        "active"@ != "applied"@,
        "type"@ != "node"@,
        "type"@ != "reason"@,
{
    reveal_strlit("type");
    reveal_strlit("id");
    reveal_strlit("value");
    reveal_strlit("target");
    reveal_strlit("node");
    reveal_strlit("delta");
    reveal_strlit("operation");
    reveal_strlit("provenance");
    reveal_strlit("constraint");
    reveal_strlit("origin");
    reveal_strlit("observation_sequence");
    reveal_strlit("rule");
    reveal_strlit("inputs");
    reveal_strlit("source");
    reveal_strlit("active");
    reveal_strlit("applied");
    reveal_strlit("reason");
    assert("type"@.len() == 4 && "type"@[0] == 't');
    assert("id"@.len() == 2);
    assert("value"@.len() == 5);
    assert("target"@.len() == 6);
    assert("node"@.len() == 4 && "node"@[0] == 'n');
    assert("delta"@.len() == 5);
    assert("operation"@.len() == 9);
    assert("provenance"@.len() == 10);
    assert("constraint"@.len() == 10);
    assert("origin"@.len() == 6);
    assert("observation_sequence"@.len() == 20);
    assert("rule"@.len() == 4 && "rule"@[0] == 'r');
    assert("inputs"@.len() == 6);
    assert("source"@.len() == 6);
    assert("active"@.len() == 6);
    assert("applied"@.len() == 7);
    assert("reason"@.len() == 6);
}

proof fn lemma_state_names()
    ensures
        "status"@ != "current_node"@,
        "status"@ != "constraints"@,
        "status"@ != "exposures"@,
        "status"@ != "termination"@,
        "status"@ != "step"@,
        "current_node"@ != "constraints"@,
        "current_node"@ != "exposures"@,
        "current_node"@ != "termination"@,
        "current_node"@ != "step"@,
        "constraints"@ != "exposures"@,
        "constraints"@ != "termination"@,
        "constraints"@ != "step"@,
        "exposures"@ != "termination"@,
        "exposures"@ != "step"@,
        "termination"@ != "step"@,
{
    reveal_strlit("status");
    reveal_strlit("current_node");
    reveal_strlit("constraints");
    reveal_strlit("exposures");
    reveal_strlit("termination");
    reveal_strlit("step");
    assert("status"@.len() == 6);
    assert("current_node"@.len() == 12);
    assert("constraints"@.len() == 11 && "constraints"@[0] == 'c');
    assert("exposures"@.len() == 9);
    assert("termination"@.len() == 11 && "termination"@[0] == 't');
    assert("step"@.len() == 4);
}

proof fn lemma_application(applied: ConstraintApplicationView)
    ensures
        shows_application(constraint_application_json(applied), applied),
{
    lemma_names();
}

proof fn lemma_exposure(record: ExposureRecordView)
    ensures
        shows_exposure(exposure_record_json(record), record),
{
    lemma_names();
    if record.origin is EnvironmentDerived {
        let inputs = record.origin->EnvironmentDerived_inputs;
        assert(crate::eval::state_codec::constraint_ids_json(inputs)->Array_0 =~= Seq::new(
            inputs.len(),
            |i: int| JsonView::Text(inputs[i]),
        ));
    }
}

/// A snapshot shows the whole state: the status, the node, the step, the constraints that hold with
/// their values, every change in its order, every constraint that is known with how it came to be,
/// and why the environment ended, if it did.
pub proof fn law_snapshot_shows_the_whole_state(core: EnvironmentCoreView)
    ensures
        ({
            let json = snapshot_of(core).state;
            let state = core.state;
            let constraints = part(json, "constraints"@);
            let records = part(part(json, "exposures"@), "records"@);
            &&& holds(
                json,
                "status"@,
                JsonView::Text(
                    match state.status {
                        EnvironmentStatus::NotStarted => "not_started"@,
                        EnvironmentStatus::Running => "running"@,
                        EnvironmentStatus::Terminated => "terminated"@,
                    },
                ),
            )
            &&& holds(json, "current_node"@, JsonView::Text(state.current_node))
            &&& holds(json, "step"@, JsonView::Number(NumberView::Unsigned(state.step)))
            &&& json->Object_0.contains_key("constraints"@)
            &&& holds(constraints, "active"@, JsonView::Object(state.constraints.active))
            &&& constraints->Object_0.contains_key("applied"@)
            &&& part(constraints, "applied"@) is Array
            &&& part(constraints, "applied"@)->Array_0.len() == state.constraints.applied.len()
            &&& forall|i: int|
                0 <= i < state.constraints.applied.len() ==> shows_application(
                    #[trigger] part(constraints, "applied"@)->Array_0[i],
                    state.constraints.applied[i],
                )
            &&& json->Object_0.contains_key("exposures"@)
            &&& records is Object
            &&& forall|id: Seq<char>| #[trigger]
                records->Object_0.contains_key(id) <==> state.exposures.records.contains_key(id)
            &&& forall|id: Seq<char>| #[trigger]
                state.exposures.records.contains_key(id) ==> shows_exposure(
                    records->Object_0[id],
                    state.exposures.records[id],
                )
            &&& json->Object_0.contains_key("termination"@)
            &&& match state.termination {
                None => part(json, "termination"@) is Null,
                Some(TerminationReasonView::TerminalNode { node }) => holds(
                    part(json, "termination"@),
                    "node"@,
                    JsonView::Text(node),
                ) && holds(
                    part(json, "termination"@),
                    "type"@,
                    JsonView::Text("terminal_node"@),
                ),
                Some(TerminationReasonView::Controller { reason }) => holds(
                    part(json, "termination"@),
                    "reason"@,
                    JsonView::Text(reason),
                ) && holds(part(json, "termination"@), "type"@, JsonView::Text("controller"@)),
            }
        }),
{
    lemma_names();
    lemma_state_names();
    let state = core.state;
    let json = environment_state_json(state);
    let constraints = part(json, "constraints"@);
    let records = part(part(json, "exposures"@), "records"@);
    assert(part(constraints, "active"@)->Object_0 =~= state.constraints.active);
    assert forall|i: int| 0 <= i < state.constraints.applied.len() implies shows_application(
        #[trigger] part(constraints, "applied"@)->Array_0[i],
        state.constraints.applied[i],
    ) by {
        lemma_application(state.constraints.applied[i]);
    }
    assert forall|id: Seq<char>| #[trigger]
        state.exposures.records.contains_key(id) implies shows_exposure(
        records->Object_0[id],
        state.exposures.records[id],
    ) by {
        lemma_exposure(state.exposures.records[id]);
    }
}

} // verus!
