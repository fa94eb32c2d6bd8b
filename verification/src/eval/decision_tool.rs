//! The function that takes a decision about an environment.

use crate::codec::{list2, list3, list4, make_missing_field, missing_field};
use crate::eval::program::TransitionId;
use crate::eval::state::{
    EnvironmentDecision, EnvironmentDecisionView, EvidenceRef, EvidenceRefView,
};
use crate::json::{lemma_array_view, member, no_members, Json, JsonView};
use crate::kernel::model::{FunctionSpec, FunctionSpecView};
use crate::runtime::error::{AgentError, AgentErrorView};
use crate::runtime::functions::{
    FunctionExecution, FunctionExecutionView, FunctionLimits, FunctionLimitsView,
    FunctionRecoveryPolicy,
};
use crate::same::{outcome_of, Same};
use crate::text::{glue3, same_text};
use crate::time_span::TimeSpan;
use crate::typed::{
    read_text, read_text_field, say_wrong_length, say_wrong_type, text_field, text_of, wrong_length,
    wrong_type,
};
use vstd::prelude::*;

verus! {

/// The schema of the arguments of `environment_decision`.
pub open spec fn decision_parameters() -> JsonView {
    JsonView::Object(
        Map::<Seq<char>, JsonView>::empty()
            .insert("type"@, JsonView::Text("object"@))
            .insert(
                "oneOf"@,
                JsonView::Array(
                    seq![
                        JsonView::Object(
                            Map::<Seq<char>, JsonView>::empty()
                                .insert(
                                    "properties"@,
                                    JsonView::Object(
                                        Map::<Seq<char>, JsonView>::empty()
                                            .insert(
                                                "kind"@,
                                                JsonView::Object(
                                                    Map::<Seq<char>, JsonView>::empty().insert(
                                                        "const"@,
                                                        JsonView::Text("transition"@),
                                                    ),
                                                ),
                                            )
                                            .insert(
                                                "transition"@,
                                                JsonView::Object(
                                                    Map::<Seq<char>, JsonView>::empty().insert(
                                                        "type"@,
                                                        JsonView::Text("string"@),
                                                    ),
                                                ),
                                            )
                                            .insert(
                                                "evidence"@,
                                                JsonView::Object(
                                                    Map::<Seq<char>, JsonView>::empty()
                                                        .insert("type"@, JsonView::Text("array"@))
                                                        .insert(
                                                            "items"@,
                                                            JsonView::Object(
                                                                Map::<Seq<char>, JsonView>::empty()
                                                                    .insert(
                                                                        "type"@,
                                                                        JsonView::Text("object"@),
                                                                    )
                                                                    .insert(
                                                                        "properties"@,
                                                                        JsonView::Object(
                                                                            Map::<Seq<char>, JsonView>::empty()
                                                                                .insert(
                                                                                    "kind"@,
                                                                                    JsonView::Object(
                                                                                        Map::<Seq<char>, JsonView>::empty().insert(
                                                                                            "type"@,
                                                                                            JsonView::Text(
                                                                                                "string"@,
                                                                                            ),
                                                                                        ),
                                                                                    ),
                                                                                )
                                                                                .insert(
                                                                                    "reference"@,
                                                                                    JsonView::Object(
                                                                                        Map::<Seq<char>, JsonView>::empty().insert(
                                                                                            "type"@,
                                                                                            JsonView::Text(
                                                                                                "string"@,
                                                                                            ),
                                                                                        ),
                                                                                    ),
                                                                                ),
                                                                        ),
                                                                    )
                                                                    .insert(
                                                                        "required"@,
                                                                        JsonView::Array(
                                                                            seq![
                                                                                JsonView::Text(
                                                                                    "kind"@,
                                                                                ),
                                                                                JsonView::Text(
                                                                                    "reference"@,
                                                                                ),
                                                                            ],
                                                                        ),
                                                                    )
                                                                    .insert(
                                                                        "additionalProperties"@,
                                                                        JsonView::Bool(false),
                                                                    ),
                                                            ),
                                                        ),
                                                ),
                                            )
                                            .insert(
                                                "reason"@,
                                                JsonView::Object(
                                                    Map::<Seq<char>, JsonView>::empty().insert(
                                                        "type"@,
                                                        JsonView::Text("string"@),
                                                    ),
                                                ),
                                            ),
                                    ),
                                )
                                .insert(
                                    "required"@,
                                    JsonView::Array(
                                        seq![
                                            JsonView::Text("kind"@),
                                            JsonView::Text("transition"@),
                                            JsonView::Text("evidence"@),
                                            JsonView::Text("reason"@),
                                        ],
                                    ),
                                )
                                .insert("additionalProperties"@, JsonView::Bool(false)),
                        ),
                        JsonView::Object(
                            Map::<Seq<char>, JsonView>::empty()
                                .insert(
                                    "properties"@,
                                    JsonView::Object(
                                        Map::<Seq<char>, JsonView>::empty()
                                            .insert(
                                                "kind"@,
                                                JsonView::Object(
                                                    Map::<Seq<char>, JsonView>::empty().insert(
                                                        "const"@,
                                                        JsonView::Text("retry"@),
                                                    ),
                                                ),
                                            )
                                            .insert(
                                                "reason"@,
                                                JsonView::Object(
                                                    Map::<Seq<char>, JsonView>::empty().insert(
                                                        "type"@,
                                                        JsonView::Text("string"@),
                                                    ),
                                                ),
                                            ),
                                    ),
                                )
                                .insert(
                                    "required"@,
                                    JsonView::Array(
                                        seq![JsonView::Text("kind"@), JsonView::Text("reason"@)],
                                    ),
                                )
                                .insert("additionalProperties"@, JsonView::Bool(false)),
                        ),
                        JsonView::Object(
                            Map::<Seq<char>, JsonView>::empty()
                                .insert(
                                    "properties"@,
                                    JsonView::Object(
                                        Map::<Seq<char>, JsonView>::empty()
                                            .insert(
                                                "kind"@,
                                                JsonView::Object(
                                                    Map::<Seq<char>, JsonView>::empty().insert(
                                                        "const"@,
                                                        JsonView::Text("terminate"@),
                                                    ),
                                                ),
                                            )
                                            .insert(
                                                "reason"@,
                                                JsonView::Object(
                                                    Map::<Seq<char>, JsonView>::empty().insert(
                                                        "type"@,
                                                        JsonView::Text("string"@),
                                                    ),
                                                ),
                                            ),
                                    ),
                                )
                                .insert(
                                    "required"@,
                                    JsonView::Array(
                                        seq![JsonView::Text("kind"@), JsonView::Text("reason"@)],
                                    ),
                                )
                                .insert("additionalProperties"@, JsonView::Bool(false)),
                        ),
                    ],
                ),
            ),
    )
}

fn make_decision_parameters() -> (r: Json)
    ensures
        r.deep_view() == decision_parameters(),
{
    Json::object(
        no_members()
            .with("type", Json::text("object"))
            .with(
                "oneOf",
                list3(
                    Json::object(
                        no_members()
                            .with(
                                "properties",
                                Json::object(
                                    no_members()
                                        .with(
                                            "kind",
                                            Json::object(
                                                no_members().with(
                                                    "const",
                                                    Json::text("transition"),
                                                ),
                                            ),
                                        )
                                        .with(
                                            "transition",
                                            Json::object(
                                                no_members().with("type", Json::text("string")),
                                            ),
                                        )
                                        .with(
                                            "evidence",
                                            Json::object(
                                                no_members()
                                                    .with("type", Json::text("array"))
                                                    .with(
                                                        "items",
                                                        Json::object(
                                                            no_members()
                                                                .with("type", Json::text("object"))
                                                                .with(
                                                                    "properties",
                                                                    Json::object(
                                                                        no_members()
                                                                            .with(
                                                                                "kind",
                                                                                Json::object(
                                                                                    no_members().with(
                                                                                        "type",
                                                                                        Json::text(
                                                                                            "string",
                                                                                        ),
                                                                                    ),
                                                                                ),
                                                                            )
                                                                            .with(
                                                                                "reference",
                                                                                Json::object(
                                                                                    no_members().with(
                                                                                        "type",
                                                                                        Json::text(
                                                                                            "string",
                                                                                        ),
                                                                                    ),
                                                                                ),
                                                                            ),
                                                                    ),
                                                                )
                                                                .with(
                                                                    "required",
                                                                    list2(
                                                                        Json::text("kind"),
                                                                        Json::text("reference"),
                                                                    ),
                                                                )
                                                                .with(
                                                                    "additionalProperties",
                                                                    Json::Bool(false),
                                                                ),
                                                        ),
                                                    ),
                                            ),
                                        )
                                        .with(
                                            "reason",
                                            Json::object(
                                                no_members().with("type", Json::text("string")),
                                            ),
                                        ),
                                ),
                            )
                            .with(
                                "required",
                                list4(
                                    Json::text("kind"),
                                    Json::text("transition"),
                                    Json::text("evidence"),
                                    Json::text("reason"),
                                ),
                            )
                            .with("additionalProperties", Json::Bool(false)),
                    ),
                    Json::object(
                        no_members()
                            .with(
                                "properties",
                                Json::object(
                                    no_members()
                                        .with(
                                            "kind",
                                            Json::object(
                                                no_members().with("const", Json::text("retry")),
                                            ),
                                        )
                                        .with(
                                            "reason",
                                            Json::object(
                                                no_members().with("type", Json::text("string")),
                                            ),
                                        ),
                                ),
                            )
                            .with("required", list2(Json::text("kind"), Json::text("reason")))
                            .with("additionalProperties", Json::Bool(false)),
                    ),
                    Json::object(
                        no_members()
                            .with(
                                "properties",
                                Json::object(
                                    no_members()
                                        .with(
                                            "kind",
                                            Json::object(
                                                no_members().with("const", Json::text("terminate")),
                                            ),
                                        )
                                        .with(
                                            "reason",
                                            Json::object(
                                                no_members().with("type", Json::text("string")),
                                            ),
                                        ),
                                ),
                            )
                            .with("required", list2(Json::text("kind"), Json::text("reason")))
                            .with("additionalProperties", Json::Bool(false)),
                    ),
                ),
            ),
    )
}

/// The [`EvidenceRef`] that the members of an object are. Members are read in ascending order of
/// their keys.
pub open spec fn evidence_ref_members(json: JsonView) -> core::result::Result<
    EvidenceRefView,
    Seq<char>,
> {
    match text_field(json, "kind"@) {
        Err(error) => Err(error),
        Ok(kind) => match text_field(json, "reference"@) {
            Err(error) => Err(error),
            Ok(reference) => match (kind, reference) {
                (Some(kind), Some(reference)) => Ok(EvidenceRefView { kind, reference }),
                (None, _) => Err(missing_field("kind"@)),
                (Some(_), None) => Err(missing_field("reference"@)),
            },
        },
    }
}

/// The [`EvidenceRef`] that items are: the kind and the reference.
pub open spec fn evidence_ref_items(items: Seq<JsonView>) -> core::result::Result<
    EvidenceRefView,
    Seq<char>,
> {
    if items.len() == 0 {
        Err(wrong_length(0, "struct EvidenceRef with 2 elements"@))
    } else {
        match text_of(items[0]) {
            Err(error) => Err(error),
            Ok(kind) => if items.len() == 1 {
                Err(wrong_length(1, "struct EvidenceRef with 2 elements"@))
            } else {
                match text_of(items[1]) {
                    Err(error) => Err(error),
                    Ok(reference) => if items.len() > 2 {
                        Err(wrong_length(items.len(), "2 elements in sequence"@))
                    } else {
                        Ok(EvidenceRefView { kind, reference })
                    },
                }
            },
        }
    }
}

/// The [`EvidenceRef`] that a document is, or what is said of one that is none.
pub open spec fn evidence_ref_of(
    json: JsonView,
) -> core::result::Result<EvidenceRefView, Seq<char>> {
    match json {
        JsonView::Object(_) => evidence_ref_members(json),
        JsonView::Array(items) => evidence_ref_items(items),
        _ => Err(wrong_type(json, "struct EvidenceRef"@)),
    }
}

/// Reads an [`EvidenceRef`].
pub fn read_evidence_ref(json: &Json) -> (r: core::result::Result<EvidenceRef, String>)
    ensures
        match r {
            Ok(value) => evidence_ref_of(json.deep_view())
                == Ok::<EvidenceRefView, Seq<char>>(value.deep_view()),
            Err(error) => evidence_ref_of(json.deep_view())
                == Err::<EvidenceRefView, Seq<char>>(error@),
        },
{
    match json {
        Json::Object(_) => {
            let kind = match read_text_field(json, "kind") {
                Ok(kind) => kind,
                Err(error) => return Err(error),
            };
            let reference = match read_text_field(json, "reference") {
                Ok(reference) => reference,
                Err(error) => return Err(error),
            };
            match (kind, reference) {
                (Some(kind), Some(reference)) => Ok(EvidenceRef { kind, reference }),
                (None, _) => Err(make_missing_field("kind")),
                (Some(_), None) => Err(make_missing_field("reference")),
            }
        },
        Json::Array(items) => {
            let n: usize = items.len();
            if n == 0 {
                return Err(say_wrong_length(0, "struct EvidenceRef with 2 elements"));
            }
            let kind = match read_text(&items[0]) {
                Ok(kind) => kind,
                Err(error) => return Err(error),
            };
            if n == 1 {
                return Err(say_wrong_length(1, "struct EvidenceRef with 2 elements"));
            }
            let reference = match read_text(&items[1]) {
                Ok(reference) => reference,
                Err(error) => return Err(error),
            };
            if n > 2 {
                return Err(say_wrong_length(n, "2 elements in sequence"));
            }
            Ok(EvidenceRef { kind, reference })
        },
        _ => Err(say_wrong_type(json, "struct EvidenceRef")),
    }
}

/// The evidence that items are, or what is said of the first that is none.
pub open spec fn evidence_items(items: Seq<JsonView>) -> core::result::Result<
    Seq<EvidenceRefView>,
    Seq<char>,
>
    decreases items.len(),
{
    if items.len() == 0 {
        Ok(Seq::empty())
    } else {
        match evidence_items(items.drop_last()) {
            Err(error) => Err(error),
            Ok(evidence) => match evidence_ref_of(items.last()) {
                Err(error) => Err(error),
                Ok(item) => Ok(evidence.push(item)),
            },
        }
    }
}

proof fn lemma_first_error(items: Seq<JsonView>, n: int)
    requires
        0 <= n <= items.len(),
        evidence_items(items.take(n)) is Err,
    ensures
        evidence_items(items) == evidence_items(items.take(n)),
    decreases items.len(),
{
    if n < items.len() {
        assert(items.drop_last().take(n) =~= items.take(n));
        lemma_first_error(items.drop_last(), n);
    } else {
        assert(items.take(n) =~= items);
    }
}

/// The evidence that a document is, or what is said of one that is none.
pub open spec fn evidence_of(json: JsonView) -> core::result::Result<
    Seq<EvidenceRefView>,
    Seq<char>,
> {
    match json {
        JsonView::Array(items) => evidence_items(items),
        _ => Err(wrong_type(json, "a sequence"@)),
    }
}

/// Reads the evidence for a decision.
pub fn read_evidence(json: &Json) -> (r: core::result::Result<Vec<EvidenceRef>, String>)
    ensures
        match r {
            Ok(value) => evidence_of(json.deep_view())
                == Ok::<Seq<EvidenceRefView>, Seq<char>>(value.deep_view()),
            Err(error) => evidence_of(json.deep_view())
                == Err::<Seq<EvidenceRefView>, Seq<char>>(error@),
        },
{
    let items = match json {
        Json::Array(items) => items,
        _ => return Err(say_wrong_type(json, "a sequence")),
    };
    proof {
        lemma_array_view(*items);
    }
    let ghost views = items.deep_view();
    let mut values: Vec<EvidenceRef> = Vec::new();
    assert(values.deep_view() =~= Seq::empty());
    for i in 0..items.len()
        invariant
            views == items.deep_view(),
            json.deep_view() == JsonView::Array(views),
            evidence_items(views.take(i as int)) == Ok::<Seq<EvidenceRefView>, Seq<char>>(
                values.deep_view(),
            ),
    {
        let ghost before = values.deep_view();
        assert(views.take(i + 1).drop_last() =~= views.take(i as int));
        assert(views.take(i + 1).last() == items@[i as int].deep_view());
        match read_evidence_ref(&items[i]) {
            Ok(value) => {
                values.push(value);
                assert(values.deep_view() =~= before.push(value.deep_view()));
            },
            Err(error) => {
                proof {
                    lemma_first_error(views, i + 1);
                }
                return Err(error);
            },
        }
    }
    assert(views.take(items.len() as int) =~= views);
    Ok(values)
}

/// The function as the model sees it.
pub open spec fn decision_spec() -> FunctionSpecView {
    FunctionSpecView {
        name: "environment_decision"@,
        description:
            "Submit exactly one typed environment decision after inspecting the evaluated policy's action."@,
        parameters: decision_parameters(),
    }
}

/// What a decision does.
#[derive(Clone, Copy, Debug, PartialEq, Eq, Structural)]
pub enum DecisionKind {
    Transition,
    Retry,
    Terminate,
}

/// The kind of decision that a document names, or what is said of one that names none.
pub open spec fn decision_kind_of(json: JsonView) -> core::result::Result<DecisionKind, Seq<char>> {
    match json {
        JsonView::Text(text) => if text == "transition"@ {
            Ok(DecisionKind::Transition)
        } else if text == "retry"@ {
            Ok(DecisionKind::Retry)
        } else if text == "terminate"@ {
            Ok(DecisionKind::Terminate)
        } else {
            Err(
                "unknown variant `"@ + text
                    + "`, expected one of `transition`, `retry`, `terminate`"@,
            )
        },
        _ => Err(wrong_type(json, "variant identifier"@)),
    }
}

fn read_decision_kind(json: &Json) -> (r: core::result::Result<DecisionKind, String>)
    ensures
        match r {
            Ok(kind) => decision_kind_of(json.deep_view()) == Ok::<DecisionKind, Seq<char>>(kind),
            Err(error) => decision_kind_of(json.deep_view()) == Err::<DecisionKind, Seq<char>>(
                error@,
            ),
        },
{
    match json {
        Json::Text(text) => {
            if same_text(text.as_str(), "transition") {
                Ok(DecisionKind::Transition)
            } else if same_text(text.as_str(), "retry") {
                Ok(DecisionKind::Retry)
            } else if same_text(text.as_str(), "terminate") {
                Ok(DecisionKind::Terminate)
            } else {
                Err(
                    glue3(
                        "unknown variant `",
                        text.as_str(),
                        "`, expected one of `transition`, `retry`, `terminate`",
                    ),
                )
            }
        },
        _ => Err(say_wrong_type(json, "variant identifier")),
    }
}

/// The decision of a kind that needs but a reason.
pub open spec fn reasoned(kind: DecisionKind, reason: Seq<char>) -> EnvironmentDecisionView {
    match kind {
        DecisionKind::Retry => EnvironmentDecisionView::Retry { reason },
        _ => EnvironmentDecisionView::Terminate { reason },
    }
}

fn make_reasoned(kind: DecisionKind, reason: String) -> (r: EnvironmentDecision)
    ensures
        r.deep_view() == reasoned(kind, reason@),
{
    match kind {
        DecisionKind::Retry => EnvironmentDecision::Retry { reason },
        _ => EnvironmentDecision::Terminate { reason },
    }
}

/// The evidence that arguments hold, where they hold any.
pub open spec fn evidence_field(arguments: JsonView) -> core::result::Result<
    Option<Seq<EvidenceRefView>>,
    Seq<char>,
> {
    match member(arguments, "evidence"@) {
        None => Ok(None),
        Some(value) => match evidence_of(value) {
            Ok(evidence) => Ok(Some(evidence)),
            Err(error) => Err(error),
        },
    }
}

/// The decision that the members of an object name. The kind is read first, the other members
/// follow in ascending order of their keys.
pub open spec fn decision_members(arguments: JsonView) -> core::result::Result<
    EnvironmentDecisionView,
    Seq<char>,
> {
    match member(arguments, "kind"@) {
        None => Err(missing_field("kind"@)),
        Some(kind) => match decision_kind_of(kind) {
            Err(error) => Err(error),
            Ok(DecisionKind::Transition) => match evidence_field(arguments) {
                Err(error) => Err(error),
                Ok(evidence) => match text_field(arguments, "reason"@) {
                    Err(error) => Err(error),
                    Ok(reason) => match text_field(arguments, "transition"@) {
                        Err(error) => Err(error),
                        Ok(transition) => match (transition, evidence, reason) {
                            (Some(transition), Some(evidence), Some(reason)) => Ok(
                                EnvironmentDecisionView::Transition {
                                    transition,
                                    evidence,
                                    reason,
                                },
                            ),
                            (None, _, _) => Err(missing_field("transition"@)),
                            (Some(_), None, _) => Err(missing_field("evidence"@)),
                            (Some(_), Some(_), None) => Err(missing_field("reason"@)),
                        },
                    },
                },
            },
            Ok(kind) => match text_field(arguments, "reason"@) {
                Err(error) => Err(error),
                Ok(None) => Err(missing_field("reason"@)),
                Ok(Some(reason)) => Ok(reasoned(kind, reason)),
            },
        },
    }
}

fn read_decision_members(arguments: &Json) -> (r: core::result::Result<
    EnvironmentDecision,
    String,
>)
    ensures
        match r {
            Ok(decision) => decision_members(arguments.deep_view()) == Ok::<
                EnvironmentDecisionView,
                Seq<char>,
            >(decision.deep_view()),
            Err(error) => decision_members(arguments.deep_view()) == Err::<
                EnvironmentDecisionView,
                Seq<char>,
            >(error@),
        },
{
    let kind = match arguments.get("kind") {
        None => return Err(make_missing_field("kind")),
        Some(kind) => match read_decision_kind(kind) {
            Ok(kind) => kind,
            Err(error) => return Err(error),
        },
    };
    match kind {
        DecisionKind::Transition => {
            let evidence = match arguments.get("evidence") {
                None => None,
                Some(value) => match read_evidence(value) {
                    Ok(evidence) => Some(evidence),
                    Err(error) => return Err(error),
                },
            };
            let reason = match read_text_field(arguments, "reason") {
                Ok(reason) => reason,
                Err(error) => return Err(error),
            };
            let transition = match read_text_field(arguments, "transition") {
                Ok(transition) => transition,
                Err(error) => return Err(error),
            };
            match (transition, evidence, reason) {
                (Some(transition), Some(evidence), Some(reason)) => Ok(
                    EnvironmentDecision::Transition {
                        transition: TransitionId(transition),
                        evidence,
                        reason,
                    },
                ),
                (None, _, _) => Err(make_missing_field("transition")),
                (Some(_), None, _) => Err(make_missing_field("evidence")),
                (Some(_), Some(_), None) => Err(make_missing_field("reason")),
            }
        },
        _ => match read_text_field(arguments, "reason") {
            Err(error) => Err(error),
            Ok(None) => Err(make_missing_field("reason")),
            Ok(Some(reason)) => Ok(make_reasoned(kind, reason)),
        },
    }
}

/// What is said of too few items for a transition.
pub open spec fn short_transition(items: nat) -> Seq<char> {
    wrong_length(
        items,
        "struct variant EnvironmentDecisionRequest::Transition with 3 elements"@,
    )
}

/// The transition that items name: the transition, the evidence and the reason.
pub open spec fn transition_items(items: Seq<JsonView>) -> core::result::Result<
    EnvironmentDecisionView,
    Seq<char>,
> {
    if items.len() == 0 {
        Err(short_transition(0))
    } else {
        match text_of(items[0]) {
            Err(error) => Err(error),
            Ok(transition) => if items.len() == 1 {
                Err(short_transition(1))
            } else {
                match evidence_of(items[1]) {
                    Err(error) => Err(error),
                    Ok(evidence) => if items.len() == 2 {
                        Err(short_transition(2))
                    } else {
                        match text_of(items[2]) {
                            Err(error) => Err(error),
                            Ok(reason) => if items.len() > 3 {
                                Err(wrong_length(items.len(), "3 elements in sequence"@))
                            } else {
                                Ok(
                                    EnvironmentDecisionView::Transition {
                                        transition,
                                        evidence,
                                        reason,
                                    },
                                )
                            },
                        }
                    },
                }
            },
        }
    }
}

/// What is said where the reason of a decision is left out of its items.
pub open spec fn short_reasoned(kind: DecisionKind) -> Seq<char> {
    match kind {
        DecisionKind::Retry => wrong_length(
            0,
            "struct variant EnvironmentDecisionRequest::Retry with 1 element"@,
        ),
        _ => wrong_length(
            0,
            "struct variant EnvironmentDecisionRequest::Terminate with 1 element"@,
        ),
    }
}

/// The decision that items name: first the kind, and then what the kind needs.
pub open spec fn decision_items(items: Seq<JsonView>) -> core::result::Result<
    EnvironmentDecisionView,
    Seq<char>,
> {
    if items.len() == 0 {
        Err(missing_field("kind"@))
    } else {
        match decision_kind_of(items[0]) {
            Err(error) => Err(error),
            Ok(DecisionKind::Transition) => transition_items(items.drop_first()),
            Ok(kind) => if items.len() == 1 {
                Err(short_reasoned(kind))
            } else {
                match text_of(items[1]) {
                    Err(error) => Err(error),
                    Ok(reason) => if items.len() > 2 {
                        Err(wrong_length((items.len() - 1) as nat, "1 element in sequence"@))
                    } else {
                        Ok(reasoned(kind, reason))
                    },
                }
            },
        }
    }
}

fn read_decision_items(items: &Vec<Json>) -> (r: core::result::Result<EnvironmentDecision, String>)
    ensures
        match r {
            Ok(decision) => decision_items(items.deep_view()) == Ok::<
                EnvironmentDecisionView,
                Seq<char>,
            >(decision.deep_view()),
            Err(error) => decision_items(items.deep_view()) == Err::<
                EnvironmentDecisionView,
                Seq<char>,
            >(error@),
        },
{
    let n: usize = items.len();
    if n == 0 {
        return Err(make_missing_field("kind"));
    }
    let kind = match read_decision_kind(&items[0]) {
        Ok(kind) => kind,
        Err(error) => return Err(error),
    };
    match kind {
        DecisionKind::Transition => {
            let wanted = "struct variant EnvironmentDecisionRequest::Transition with 3 elements";
            if n == 1 {
                return Err(say_wrong_length(0, wanted));
            }
            let transition = match read_text(&items[1]) {
                Ok(transition) => TransitionId(transition),
                Err(error) => return Err(error),
            };
            if n == 2 {
                return Err(say_wrong_length(1, wanted));
            }
            let evidence = match read_evidence(&items[2]) {
                Ok(evidence) => evidence,
                Err(error) => return Err(error),
            };
            if n == 3 {
                return Err(say_wrong_length(2, wanted));
            }
            let reason = match read_text(&items[3]) {
                Ok(reason) => reason,
                Err(error) => return Err(error),
            };
            if n > 4 {
                return Err(say_wrong_length(n - 1, "3 elements in sequence"));
            }
            Ok(EnvironmentDecision::Transition { transition, evidence, reason })
        },
        _ => {
            if n == 1 {
                return match kind {
                    DecisionKind::Retry => Err(
                        say_wrong_length(
                            0,
                            "struct variant EnvironmentDecisionRequest::Retry with 1 element",
                        ),
                    ),
                    _ => Err(
                        say_wrong_length(
                            0,
                            "struct variant EnvironmentDecisionRequest::Terminate with 1 element",
                        ),
                    ),
                };
            }
            let reason = match read_text(&items[1]) {
                Ok(reason) => reason,
                Err(error) => return Err(error),
            };
            if n > 2 {
                return Err(say_wrong_length(n - 1, "1 element in sequence"));
            }
            Ok(make_reasoned(kind, reason))
        },
    }
}

/// The decision that arguments name, or what is said of arguments that name none.
pub open spec fn decision_of(arguments: JsonView) -> core::result::Result<
    EnvironmentDecisionView,
    Seq<char>,
> {
    match arguments {
        JsonView::Object(_) => decision_members(arguments),
        JsonView::Array(items) => decision_items(items),
        _ => Err(wrong_type(arguments, "internally tagged enum EnvironmentDecisionRequest"@)),
    }
}

/// Reads a decision from arguments.
pub fn read_decision(arguments: &Json) -> (r: core::result::Result<EnvironmentDecision, String>)
    ensures
        match r {
            Ok(decision) => decision_of(arguments.deep_view()) == Ok::<
                EnvironmentDecisionView,
                Seq<char>,
            >(decision.deep_view()),
            Err(error) => decision_of(arguments.deep_view()) == Err::<
                EnvironmentDecisionView,
                Seq<char>,
            >(error@),
        },
{
    match arguments {
        Json::Object(_) => read_decision_members(arguments),
        Json::Array(items) => read_decision_items(items),
        _ => Err(say_wrong_type(arguments, "internally tagged enum EnvironmentDecisionRequest")),
    }
}

/// Holds a decision until it is taken.
pub struct EnvironmentDecisionSink {
    decision: Option<EnvironmentDecision>,
}

/// What the sink holds after a decision was submitted, or why it was not taken. The same decision
/// can be submitted again.
pub open spec fn decision_submitted(
    pending: Option<EnvironmentDecisionView>,
    decision: EnvironmentDecisionView,
) -> core::result::Result<Option<EnvironmentDecisionView>, Seq<char>> {
    match pending {
        None => Ok(Some(decision)),
        Some(before) => if before == decision {
            Ok(pending)
        } else {
            Err("a different environment decision is already pending"@)
        },
    }
}

impl EnvironmentDecisionSink {
    /// The decision that waits.
    pub closed spec fn pending(&self) -> Option<EnvironmentDecisionView> {
        self.decision.deep_view()
    }

    /// A sink without a decision.
    pub fn new() -> (r: Self)
        ensures
            r.pending() is None,
    {
        EnvironmentDecisionSink { decision: None }
    }

    /// Takes the decision out.
    pub fn take(&mut self) -> (r: Option<EnvironmentDecision>)
        ensures
            r.deep_view() == old(self).pending(),
            final(self).pending() is None,
    {
        self.decision.take()
    }

    /// Puts a decision in, unless another one waits.
    pub fn submit(&mut self, decision: EnvironmentDecision) -> (r: core::result::Result<
        (),
        String,
    >)
        ensures
            match decision_submitted(old(self).pending(), decision.deep_view()) {
                Ok(after) => r is Ok && final(self).pending() == after,
                Err(message) => r matches Err(text) && text@ == message && final(self).pending()
                    == old(self).pending(),
            },
    {
        match &self.decision {
            Some(before) => {
                if before.same(&decision) {
                    return Ok(());
                }
                Err("a different environment decision is already pending".to_owned())
            },
            None => {
                self.decision = Some(decision);
                Ok(())
            },
        }
    }
}

/// The function that takes a decision.
pub struct EnvironmentDecisionTool {
    sink: EnvironmentDecisionSink,
}

/// Arguments that the function does not take.
pub open spec fn bad_decision(message: Seq<char>) -> AgentErrorView {
    AgentErrorView::InvalidFunctionArguments { name: "environment_decision"@, message }
}

/// What a call of the function comes to, and what the sink holds then.
pub open spec fn decision_called(
    pending: Option<EnvironmentDecisionView>,
    arguments: JsonView,
) -> (core::result::Result<FunctionExecutionView, AgentErrorView>, Option<EnvironmentDecisionView>) {
    match decision_of(arguments) {
        Err(error) => (Err(bad_decision(error)), pending),
        Ok(decision) => match decision_submitted(pending, decision) {
            Err(error) => (Err(bad_decision(error)), pending),
            Ok(after) => (
                Ok(
                    FunctionExecutionView::Completed {
                        output: JsonView::Object(
                            Map::<Seq<char>, JsonView>::empty().insert(
                                "accepted"@,
                                JsonView::Bool(true),
                            ),
                        ),
                    },
                ),
                after,
            ),
        },
    }
}

impl EnvironmentDecisionTool {
    /// The decision that waits.
    pub closed spec fn pending(&self) -> Option<EnvironmentDecisionView> {
        self.sink.pending()
    }

    /// The function, with the sink that its decisions go to.
    pub fn new(sink: EnvironmentDecisionSink) -> (r: Self)
        ensures
            r.pending() == sink.pending(),
    {
        EnvironmentDecisionTool { sink }
    }

    /// Takes the decision out.
    pub fn take(&mut self) -> (r: Option<EnvironmentDecision>)
        ensures
            r.deep_view() == old(self).pending(),
            final(self).pending() is None,
    {
        self.sink.take()
    }

    /// The function as the model sees it.
    pub fn spec(&self) -> (r: FunctionSpec)
        ensures
            r.deep_view() == decision_spec(),
    {
        FunctionSpec {
            name: "environment_decision".to_owned(),
            description:
                "Submit exactly one typed environment decision after inspecting the evaluated policy's action.".to_owned(),
            parameters: make_decision_parameters(),
        }
    }

    /// Five seconds and sixteen kibibytes.
    pub fn limits(&self) -> (r: FunctionLimits)
        ensures
            r.deep_view() == (FunctionLimitsView {
                time_budget: 5_000_000_000,
                max_output_bytes: 16_384,
            }),
    {
        FunctionLimits { time_budget: TimeSpan::from_secs(5), max_output_bytes: 16_384 }
    }

    /// A decision can be submitted again.
    pub fn recovery_policy(&self) -> (r: FunctionRecoveryPolicy)
        ensures
            r == FunctionRecoveryPolicy::Idempotent,
    {
        FunctionRecoveryPolicy::Idempotent
    }

    /// Calls the function.
    pub fn call(&mut self, arguments: &Json) -> (r: core::result::Result<
        FunctionExecution,
        AgentError,
    >)
        ensures
            (outcome_of(r), final(self).pending()) == decision_called(
                old(self).pending(),
                arguments.deep_view(),
            ),
    {
        let decision = match read_decision(arguments) {
            Ok(decision) => decision,
            Err(message) => {
                return Err(
                    AgentError::InvalidFunctionArguments {
                        name: "environment_decision".to_owned(),
                        message,
                    },
                );
            },
        };
        match self.sink.submit(decision) {
            Ok(_) => Ok(
                FunctionExecution::Completed {
                    output: Json::object(no_members().with("accepted", Json::Bool(true))),
                },
            ),
            Err(message) => Err(
                AgentError::InvalidFunctionArguments {
                    name: "environment_decision".to_owned(),
                    message,
                },
            ),
        }
    }
}

/// Calling the function again with the same arguments is accepted and changes nothing.
pub proof fn law_decision_can_be_repeated(
    pending: Option<EnvironmentDecisionView>,
    arguments: JsonView,
)
    requires
        decision_called(pending, arguments).0 is Ok,
    ensures
        ({
            let (result, after) = decision_called(pending, arguments);
            decision_called(after, arguments) == (result, after)
        }),
{
}

} // verus!
