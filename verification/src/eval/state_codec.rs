//! The state of an environment as a document.

use crate::codec::{make_optional_text, optional_text_json};
use crate::eval::program::{
    ConstraintDelta, ConstraintDeltaView, ConstraintId, ConstraintOperation,
    ConstraintOperationView,
};
use crate::eval::state::{
    ConstraintApplication, ConstraintApplicationView, ConstraintLedger, ConstraintLedgerView,
    EnvironmentState, EnvironmentStateView, EnvironmentStatus, ExposureLedger, ExposureLedgerView,
    ExposureOrigin, ExposureOriginView, ExposureRecord, ExposureRecordView, TerminationReason,
    TerminationReasonView,
};
use crate::json::{no_members, Json, JsonView, NumberView};
use crate::same::Replica;
use crate::text_map::{lemma_taken, TextMap};
use vstd::prelude::*;

verus! {

/// An [`EnvironmentStatus`] as a document.
pub open spec fn environment_status_json(value: EnvironmentStatus) -> JsonView {
    match value {
        EnvironmentStatus::NotStarted => JsonView::Text("not_started"@),
        EnvironmentStatus::Running => JsonView::Text("running"@),
        EnvironmentStatus::Terminated => JsonView::Text("terminated"@),
    }
}

/// An [`EnvironmentStatus`] as a document.
pub fn make_environment_status(value: &EnvironmentStatus) -> (r: Json)
    ensures
        r.deep_view() == environment_status_json(*value),
{
    match value {
        EnvironmentStatus::NotStarted => Json::text("not_started"),
        EnvironmentStatus::Running => Json::text("running"),
        EnvironmentStatus::Terminated => Json::text("terminated"),
    }
}

/// A [`TerminationReason`] as a document.
pub open spec fn termination_reason_json(value: TerminationReasonView) -> JsonView {
    match value {
        TerminationReasonView::TerminalNode { node } => JsonView::Object(
            Map::<Seq<char>, JsonView>::empty()
                .insert("type"@, JsonView::Text("terminal_node"@))
                .insert("node"@, JsonView::Text(node)),
        ),
        TerminationReasonView::Controller { reason } => JsonView::Object(
            Map::<Seq<char>, JsonView>::empty()
                .insert("type"@, JsonView::Text("controller"@))
                .insert("reason"@, JsonView::Text(reason)),
        ),
    }
}

/// A [`TerminationReason`] as a document.
pub fn make_termination_reason(value: &TerminationReason) -> (r: Json)
    ensures
        r.deep_view() == termination_reason_json(value.deep_view()),
{
    match value {
        TerminationReason::TerminalNode { node } => Json::object(
            no_members()
                .with("type", Json::text("terminal_node"))
                .with("node", Json::text(node.0.as_str())),
        ),
        TerminationReason::Controller { reason } => Json::object(
            no_members()
                .with("type", Json::text("controller"))
                .with("reason", Json::text(reason.as_str())),
        ),
    }
}

/// A [`TerminationReason`] as a document, where there is one.
pub open spec fn optional_termination_reason_json(
    value: Option<TerminationReasonView>,
) -> JsonView {
    match value {
        Some(value) => termination_reason_json(value),
        None => JsonView::Null,
    }
}

/// A [`TerminationReason`] as a document, where there is one.
pub fn make_optional_termination_reason(value: &Option<TerminationReason>) -> (r: Json)
    ensures
        r.deep_view() == optional_termination_reason_json(value.deep_view()),
{
    match value {
        Some(value) => make_termination_reason(value),
        None => Json::Null,
    }
}

/// A [`ConstraintOperation`] as a document.
pub open spec fn constraint_operation_json(value: ConstraintOperationView) -> JsonView {
    match value {
        ConstraintOperationView::Add { id, value } => JsonView::Object(
            Map::<Seq<char>, JsonView>::empty()
                .insert("type"@, JsonView::Text("add"@))
                .insert("id"@, JsonView::Text(id))
                .insert("value"@, value),
        ),
        ConstraintOperationView::Replace { target, id, value } => JsonView::Object(
            Map::<Seq<char>, JsonView>::empty()
                .insert("type"@, JsonView::Text("replace"@))
                .insert("target"@, JsonView::Text(target))
                .insert("id"@, JsonView::Text(id))
                .insert("value"@, value),
        ),
        ConstraintOperationView::Remove { target } => JsonView::Object(
            Map::<Seq<char>, JsonView>::empty()
                .insert("type"@, JsonView::Text("remove"@))
                .insert("target"@, JsonView::Text(target)),
        ),
    }
}

/// A [`ConstraintOperation`] as a document.
pub fn make_constraint_operation(value: &ConstraintOperation) -> (r: Json)
    ensures
        r.deep_view() == constraint_operation_json(value.deep_view()),
{
    match value {
        ConstraintOperation::Add { id, value } => Json::object(
            no_members()
                .with("type", Json::text("add"))
                .with("id", Json::text(id.0.as_str()))
                .with("value", value.replica()),
        ),
        ConstraintOperation::Replace { target, id, value } => Json::object(
            no_members()
                .with("type", Json::text("replace"))
                .with("target", Json::text(target.0.as_str()))
                .with("id", Json::text(id.0.as_str()))
                .with("value", value.replica()),
        ),
        ConstraintOperation::Remove { target } => Json::object(
            no_members()
                .with("type", Json::text("remove"))
                .with("target", Json::text(target.0.as_str())),
        ),
    }
}

/// A [`ConstraintDelta`] as a document.
pub open spec fn constraint_delta_json(value: ConstraintDeltaView) -> JsonView {
    JsonView::Object(
        Map::<Seq<char>, JsonView>::empty()
            .insert("operation"@, constraint_operation_json(value.operation))
            .insert("provenance"@, optional_text_json(value.provenance)),
    )
}

/// A [`ConstraintDelta`] as a document.
pub fn make_constraint_delta(value: &ConstraintDelta) -> (r: Json)
    ensures
        r.deep_view() == constraint_delta_json(value.deep_view()),
{
    Json::object(
        no_members()
            .with("operation", make_constraint_operation(&value.operation))
            .with("provenance", make_optional_text(&value.provenance)),
    )
}

/// A [`ConstraintApplication`] as a document.
pub open spec fn constraint_application_json(value: ConstraintApplicationView) -> JsonView {
    JsonView::Object(
        Map::<Seq<char>, JsonView>::empty()
            .insert("node"@, JsonView::Text(value.node))
            .insert("delta"@, constraint_delta_json(value.delta)),
    )
}

/// A [`ConstraintApplication`] as a document.
pub fn make_constraint_application(value: &ConstraintApplication) -> (r: Json)
    ensures
        r.deep_view() == constraint_application_json(value.deep_view()),
{
    Json::object(
        no_members()
            .with("node", Json::text(value.node.0.as_str()))
            .with("delta", make_constraint_delta(&value.delta)),
    )
}

/// The changes that were made as a document.
pub open spec fn applications_json(values: Seq<ConstraintApplicationView>) -> JsonView {
    JsonView::Array(
        values.map_values(|value: ConstraintApplicationView| constraint_application_json(value)),
    )
}

/// The changes that were made as a document.
pub fn make_applications(values: &Vec<ConstraintApplication>) -> (r: Json)
    ensures
        r.deep_view() == applications_json(values.deep_view()),
{
    let ghost want = values.deep_view().map_values(
        |value: ConstraintApplicationView| constraint_application_json(value),
    );
    let mut items: Vec<Json> = Vec::new();
    assert(items.deep_view() =~= want.take(0));
    for i in 0..values.len()
        invariant
            want == values.deep_view().map_values(
                |value: ConstraintApplicationView| constraint_application_json(value),
            ),
            items.deep_view() == want.take(i as int),
    {
        let ghost before = items.deep_view();
        let item = make_constraint_application(&values[i]);
        items.push(item);
        assert(items.deep_view() =~= before.push(item.deep_view()));
        assert(want[i as int] == item.deep_view());
        assert(want.take(i + 1) =~= want.take(i as int).push(want[i as int]));
    }
    assert(want.take(values.len() as int) =~= want);
    Json::array(items)
}

/// Constraints as a document.
pub open spec fn constraints_json(values: Map<Seq<char>, JsonView>) -> JsonView {
    JsonView::Object(values.map_values(|value: JsonView| value))
}

/// Constraints as a document.
pub fn make_constraints(values: &TextMap<Json>) -> (r: Json)
    ensures
        r.deep_view() == constraints_json(values.deep_view()),
{
    let ghost want = values.deep_view().map_values(|value: JsonView| value);
    let mut members = no_members();
    let n: usize = values.walk();
    let ghost keys = values.keys();
    for i in 0..n
        invariant
            n == keys.len(),
            keys == values.keys(),
            forall|k: Seq<char>| #[trigger]
                members.deep_view().contains_key(k) <==> keys.take(i as int).contains(k),
            forall|j: int|
                0 <= j < i ==> members.deep_view()[#[trigger] keys[j]]
                    == values.deep_view()[keys[j]],
    {
        let key = values.key_at(i);
        let value = values.value_at(i);
        let ghost before = members.deep_view();
        members = members.with(key.as_str(), value.replica());
        proof {
            lemma_taken(keys, i as int, before.dom(), members.deep_view().dom());
        }
    }
    proof {
        assert(keys.take(n as int) =~= keys);
        assert(members.deep_view() =~= want) by {
            assert forall|k: Seq<char>| #[trigger]
                members.deep_view().contains_key(k) <==> want.contains_key(k) by {
                if want.contains_key(k) {
                    assert(values@.contains_key(k));
                    assert(keys.contains(k));
                }
                if keys.contains(k) {
                    let j = choose|j: int| 0 <= j < keys.len() && keys[j] == k;
                    assert(values@.contains_key(keys[j]));
                }
            }
            assert forall|k: Seq<char>| want.contains_key(k) implies members.deep_view()[k] == want[k] by {
                assert(values@.contains_key(k));
                assert(keys.contains(k));
                let j = choose|j: int| 0 <= j < keys.len() && keys[j] == k;
                assert(members.deep_view()[keys[j]] == want[k]);
            }
        }
    }
    Json::object(members)
}

/// A [`ConstraintLedger`] as a document.
pub open spec fn constraint_ledger_json(value: ConstraintLedgerView) -> JsonView {
    JsonView::Object(
        Map::<Seq<char>, JsonView>::empty()
            .insert("active"@, constraints_json(value.active))
            .insert("applied"@, applications_json(value.applied)),
    )
}

/// A [`ConstraintLedger`] as a document.
pub fn make_constraint_ledger(value: &ConstraintLedger) -> (r: Json)
    ensures
        r.deep_view() == constraint_ledger_json(value.deep_view()),
{
    Json::object(
        no_members()
            .with("active", make_constraints(&value.active))
            .with("applied", make_applications(&value.applied)),
    )
}

/// The names of constraints as a document.
pub open spec fn constraint_ids_json(values: Seq<Seq<char>>) -> JsonView {
    JsonView::Array(values.map_values(|value: Seq<char>| JsonView::Text(value)))
}

/// The names of constraints as a document.
pub fn make_constraint_ids(values: &Vec<ConstraintId>) -> (r: Json)
    ensures
        r.deep_view() == constraint_ids_json(values.deep_view()),
{
    let ghost want = values.deep_view().map_values(|value: Seq<char>| JsonView::Text(value));
    let mut items: Vec<Json> = Vec::new();
    assert(items.deep_view() =~= want.take(0));
    for i in 0..values.len()
        invariant
            want == values.deep_view().map_values(|value: Seq<char>| JsonView::Text(value)),
            items.deep_view() == want.take(i as int),
    {
        let ghost before = items.deep_view();
        let item = Json::text(values[i].0.as_str());
        items.push(item);
        assert(items.deep_view() =~= before.push(item.deep_view()));
        assert(want[i as int] == item.deep_view());
        assert(want.take(i + 1) =~= want.take(i as int).push(want[i as int]));
    }
    assert(want.take(values.len() as int) =~= want);
    Json::array(items)
}

/// An [`ExposureOrigin`] as a document.
pub open spec fn exposure_origin_json(value: ExposureOriginView) -> JsonView {
    match value {
        ExposureOriginView::ExplicitDisclosure => JsonView::Object(
            Map::<Seq<char>, JsonView>::empty().insert(
                "type"@,
                JsonView::Text("explicit_disclosure"@),
            ),
        ),
        ExposureOriginView::EnvironmentDerived { inputs, rule } => JsonView::Object(
            Map::<Seq<char>, JsonView>::empty()
                .insert("type"@, JsonView::Text("environment_derived"@))
                .insert("inputs"@, constraint_ids_json(inputs))
                .insert("rule"@, JsonView::Text(rule)),
        ),
        ExposureOriginView::ContextProvided { source } => JsonView::Object(
            Map::<Seq<char>, JsonView>::empty()
                .insert("type"@, JsonView::Text("context_provided"@))
                .insert("source"@, JsonView::Text(source)),
        ),
    }
}

/// An [`ExposureOrigin`] as a document.
pub fn make_exposure_origin(value: &ExposureOrigin) -> (r: Json)
    ensures
        r.deep_view() == exposure_origin_json(value.deep_view()),
{
    match value {
        ExposureOrigin::ExplicitDisclosure => Json::object(
            no_members().with("type", Json::text("explicit_disclosure")),
        ),
        ExposureOrigin::EnvironmentDerived { inputs, rule } => Json::object(
            no_members()
                .with("type", Json::text("environment_derived"))
                .with("inputs", make_constraint_ids(inputs))
                .with("rule", Json::text(rule.as_str())),
        ),
        ExposureOrigin::ContextProvided { source } => Json::object(
            no_members()
                .with("type", Json::text("context_provided"))
                .with("source", Json::text(source.as_str())),
        ),
    }
}

/// An [`ExposureRecord`] as a document.
pub open spec fn exposure_record_json(value: ExposureRecordView) -> JsonView {
    JsonView::Object(
        Map::<Seq<char>, JsonView>::empty()
            .insert("constraint"@, JsonView::Text(value.constraint))
            .insert("origin"@, exposure_origin_json(value.origin))
            .insert(
                "observation_sequence"@,
                JsonView::Number(NumberView::Unsigned(value.observation_sequence)),
            ),
    )
}

/// An [`ExposureRecord`] as a document.
pub fn make_exposure_record(value: &ExposureRecord) -> (r: Json)
    ensures
        r.deep_view() == exposure_record_json(value.deep_view()),
{
    Json::object(
        no_members()
            .with("constraint", Json::text(value.constraint.0.as_str()))
            .with("origin", make_exposure_origin(&value.origin))
            .with("observation_sequence", Json::unsigned(value.observation_sequence)),
    )
}

/// The constraints that are known as a document.
pub open spec fn exposure_records_json(values: Map<Seq<char>, ExposureRecordView>) -> JsonView {
    JsonView::Object(values.map_values(|value: ExposureRecordView| exposure_record_json(value)))
}

/// The constraints that are known as a document.
pub fn make_exposure_records(values: &TextMap<ExposureRecord>) -> (r: Json)
    ensures
        r.deep_view() == exposure_records_json(values.deep_view()),
{
    let ghost want = values.deep_view().map_values(
        |value: ExposureRecordView| exposure_record_json(value),
    );
    let mut members = no_members();
    let n: usize = values.walk();
    let ghost keys = values.keys();
    for i in 0..n
        invariant
            n == keys.len(),
            keys == values.keys(),
            forall|k: Seq<char>| #[trigger]
                members.deep_view().contains_key(k) <==> keys.take(i as int).contains(k),
            forall|j: int|
                0 <= j < i ==> members.deep_view()[#[trigger] keys[j]]
                    == exposure_record_json(values.deep_view()[keys[j]]),
    {
        let key = values.key_at(i);
        let value = values.value_at(i);
        let ghost before = members.deep_view();
        members = members.with(key.as_str(), make_exposure_record(value));
        proof {
            lemma_taken(keys, i as int, before.dom(), members.deep_view().dom());
        }
    }
    proof {
        assert(keys.take(n as int) =~= keys);
        assert(members.deep_view() =~= want) by {
            assert forall|k: Seq<char>| #[trigger]
                members.deep_view().contains_key(k) <==> want.contains_key(k) by {
                if want.contains_key(k) {
                    assert(values@.contains_key(k));
                    assert(keys.contains(k));
                }
                if keys.contains(k) {
                    let j = choose|j: int| 0 <= j < keys.len() && keys[j] == k;
                    assert(values@.contains_key(keys[j]));
                }
            }
            assert forall|k: Seq<char>| want.contains_key(k) implies members.deep_view()[k] == want[k] by {
                assert(values@.contains_key(k));
                assert(keys.contains(k));
                let j = choose|j: int| 0 <= j < keys.len() && keys[j] == k;
                assert(members.deep_view()[keys[j]] == want[k]);
            }
        }
    }
    Json::object(members)
}

/// An [`ExposureLedger`] as a document.
pub open spec fn exposure_ledger_json(value: ExposureLedgerView) -> JsonView {
    JsonView::Object(
        Map::<Seq<char>, JsonView>::empty().insert(
            "records"@,
            exposure_records_json(value.records),
        ),
    )
}

/// An [`ExposureLedger`] as a document.
pub fn make_exposure_ledger(value: &ExposureLedger) -> (r: Json)
    ensures
        r.deep_view() == exposure_ledger_json(value.deep_view()),
{
    Json::object(
        no_members().with("records", make_exposure_records(&value.records)),
    )
}

/// An [`EnvironmentState`] as a document.
pub open spec fn environment_state_json(value: EnvironmentStateView) -> JsonView {
    JsonView::Object(
        Map::<Seq<char>, JsonView>::empty()
            .insert("status"@, environment_status_json(value.status))
            .insert("current_node"@, JsonView::Text(value.current_node))
            .insert("constraints"@, constraint_ledger_json(value.constraints))
            .insert("exposures"@, exposure_ledger_json(value.exposures))
            .insert("termination"@, optional_termination_reason_json(value.termination))
            .insert("step"@, JsonView::Number(NumberView::Unsigned(value.step))),
    )
}

/// An [`EnvironmentState`] as a document.
pub fn make_environment_state(value: &EnvironmentState) -> (r: Json)
    ensures
        r.deep_view() == environment_state_json(value.deep_view()),
{
    Json::object(
        no_members()
            .with("status", make_environment_status(&value.status))
            .with("current_node", Json::text(value.current_node.0.as_str()))
            .with("constraints", make_constraint_ledger(&value.constraints))
            .with("exposures", make_exposure_ledger(&value.exposures))
            .with("termination", make_optional_termination_reason(&value.termination))
            .with("step", Json::unsigned(value.step)),
    )
}

} // verus!
