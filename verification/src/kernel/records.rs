//! Records of the kernel as documents.

use crate::codec::{
    make_missing_field, make_optional_text, make_wrong_field, optional_text_json, required_value,
    required_value_of,
};
use crate::fields::{as_fields, fielded, names_of, optional_text, optional_text_of, required_text, required_text_of};
use crate::json::{lemma_object_view, member, no_members, Json, JsonView, NumberView};
use crate::kernel::events::{
    Suspension, SuspensionKind, SuspensionView, TokenUsage, TurnItemKind, TurnItemKindView,
};
use crate::kernel::model::{
    ModelContinuation, ModelContinuationView, ModelFunctionCall, ModelFunctionCallView,
    ModelResponse, ModelResponseView,
};
use crate::same::Replica;
use crate::text::same_text;
use crate::text_map::sorted_keys;
use vstd::prelude::*;

verus! {

/// A [`ModelFunctionCall`] as a document.
pub open spec fn model_function_call_json(value: ModelFunctionCallView) -> JsonView {
    JsonView::Object(
        Map::<Seq<char>, JsonView>::empty()
            .insert("call_id"@, JsonView::Text(value.call_id))
            .insert("name"@, JsonView::Text(value.name))
            .insert("arguments"@, value.arguments),
    )
}

/// A [`ModelFunctionCall`] as a document.
pub fn make_model_function_call(value: &ModelFunctionCall) -> (r: Json)
    ensures
        r.deep_view() == model_function_call_json(value.deep_view()),
{
    Json::object(
        no_members()
            .with("call_id", Json::text(value.call_id.as_str()))
            .with("name", Json::text(value.name.as_str()))
            .with("arguments", value.arguments.replica()),
    )
}

/// The [`ModelFunctionCall`] that a document is.
pub open spec fn model_function_call_of(
    json: JsonView,
) -> Option<ModelFunctionCallView> {
    let json = fielded(json, seq!["call_id"@, "name"@, "arguments"@], 3);
    match required_text_of(json, "call_id"@) {
        None => None,
        Some(call_id) =>
        match required_text_of(json, "name"@) {
            None => None,
            Some(name) =>
            match required_value_of(json, "arguments"@) {
                None => None,
                Some(arguments) => Some(ModelFunctionCallView { call_id, name, arguments }),
            },
        },
    }
}

/// Reads a [`ModelFunctionCall`].
pub fn read_model_function_call(json: &Json) -> (r: core::result::Result<ModelFunctionCall, String>)
    ensures
        match r {
            Ok(value) => model_function_call_of(json.deep_view())
                == Some(value.deep_view()),
            Err(_) => model_function_call_of(json.deep_view()) is None,
        },
{
    let names: Vec<&str> = vec!["call_id", "name", "arguments"];
    assert(names_of(names@) =~= seq!["call_id"@, "name"@, "arguments"@]);
    let json = &as_fields(json, &names, 3);
    let call_id = match required_text(json, "call_id") {
        Ok(call_id) => call_id,
        Err(error) => return Err(error),
    };
    let name = match required_text(json, "name") {
        Ok(name) => name,
        Err(error) => return Err(error),
    };
    let arguments = match required_value(json, "arguments") {
        Ok(arguments) => arguments,
        Err(error) => return Err(error),
    };
    Ok(ModelFunctionCall { call_id, name, arguments })
}

/// The calls of a response as a document.
pub open spec fn function_calls_json(values: Seq<ModelFunctionCallView>) -> JsonView {
    JsonView::Array(
        values.map_values(|value: ModelFunctionCallView| model_function_call_json(value)),
    )
}

/// The calls of a response as a document.
pub fn make_function_calls(values: &Vec<ModelFunctionCall>) -> (r: Json)
    ensures
        r.deep_view() == function_calls_json(values.deep_view()),
{
    let ghost want = values.deep_view().map_values(
        |value: ModelFunctionCallView| model_function_call_json(value),
    );
    let mut items: Vec<Json> = Vec::new();
    assert(items.deep_view() =~= want.take(0));
    for i in 0..values.len()
        invariant
            want == values.deep_view().map_values(
                |value: ModelFunctionCallView| model_function_call_json(value),
            ),
            items.deep_view() == want.take(i as int),
    {
        let ghost before = items.deep_view();
        let item = make_model_function_call(&values[i]);
        items.push(item);
        assert(items.deep_view() =~= before.push(item.deep_view()));
        assert(want[i as int] == item.deep_view());
        assert(want.take(i + 1) =~= want.take(i as int).push(want[i as int]));
    }
    assert(want.take(values.len() as int) =~= want);
    Json::array(items)
}

/// The calls of a response that a document holds under a key.
pub open spec fn function_calls_field(
    json: JsonView,
    key: Seq<char>,
) -> Option<Seq<ModelFunctionCallView>> {
    match member(json, key) {
        Some(JsonView::Array(items)) => if forall|i: int| 0 <= i < items.len() ==> (#[trigger] model_function_call_of(items[i])) is Some {
            Some(Seq::new(items.len(), |i: int| model_function_call_of(items[i])->Some_0))
        } else {
            None
        },
        _ => None,
    }
}

/// Reads the calls of a response.
pub fn read_function_calls_field(
    json: &Json,
    key: &str,
) -> (r: core::result::Result<Vec<ModelFunctionCall>, String>)
    ensures
        match r {
            Ok(value) => function_calls_field(json.deep_view(), key@)
                == Some(value.deep_view()),
            Err(_) => function_calls_field(json.deep_view(), key@) is None,
        },
{
    let items = match json.get(key) {
        Some(value) => match value.as_array() {
            Some(items) => items,
            None => return Err(make_wrong_field(key, "a list")),
        },
        None => return Err(make_missing_field(key)),
    };
    let ghost views = items.deep_view();
    let mut values: Vec<ModelFunctionCall> = Vec::new();
    for i in 0..items.len()
        invariant
            views == items.deep_view(),
            member(json.deep_view(), key@) == Some(JsonView::Array(views)),
            values@.len() == i,
            forall|j: int| 0 <= j < i ==> (#[trigger] model_function_call_of(views[j])) is Some,
            forall|j: int|
                0 <= j < i ==> (#[trigger] values@[j]).deep_view()
                    == model_function_call_of(views[j])->Some_0,
    {
        match read_model_function_call(&items[i]) {
            Ok(value) => {
                values.push(value);
            },
            Err(error) => {
                assert(model_function_call_of(views[i as int]) is None);
                return Err(error);
            },
        }
    }
    assert(values.deep_view() =~= Seq::new(views.len(), |i: int| model_function_call_of(views[i])->Some_0));
    Ok(values)
}

/// A [`ModelContinuation`] as a document.
pub open spec fn model_continuation_json(value: ModelContinuationView) -> JsonView {
    JsonView::Object(
        Map::<Seq<char>, JsonView>::empty()
            .insert("format"@, JsonView::Text(value.format))
            .insert("payload"@, value.payload),
    )
}

/// A [`ModelContinuation`] as a document.
pub fn make_model_continuation(value: &ModelContinuation) -> (r: Json)
    ensures
        r.deep_view() == model_continuation_json(value.deep_view()),
{
    Json::object(
        no_members()
            .with("format", Json::text(value.format.as_str()))
            .with("payload", value.payload.replica()),
    )
}

/// The [`ModelContinuation`] that a document is.
pub open spec fn model_continuation_of(
    json: JsonView,
) -> Option<ModelContinuationView> {
    let json = fielded(json, seq!["format"@, "payload"@], 2);
    match required_text_of(json, "format"@) {
        None => None,
        Some(format) =>
        match required_value_of(json, "payload"@) {
            None => None,
            Some(payload) => Some(ModelContinuationView { format, payload }),
        },
    }
}

/// Reads a [`ModelContinuation`].
pub fn read_model_continuation(json: &Json) -> (r: core::result::Result<ModelContinuation, String>)
    ensures
        match r {
            Ok(value) => model_continuation_of(json.deep_view())
                == Some(value.deep_view()),
            Err(_) => model_continuation_of(json.deep_view()) is None,
        },
{
    let names: Vec<&str> = vec!["format", "payload"];
    assert(names_of(names@) =~= seq!["format"@, "payload"@]);
    let json = &as_fields(json, &names, 2);
    let format = match required_text(json, "format") {
        Ok(format) => format,
        Err(error) => return Err(error),
    };
    let payload = match required_value(json, "payload") {
        Ok(payload) => payload,
        Err(error) => return Err(error),
    };
    Ok(ModelContinuation { format, payload })
}

/// A [`SuspensionKind`] as a document.
pub open spec fn suspension_kind_json(value: SuspensionKind) -> JsonView {
    match value {
        SuspensionKind::LongRunningJob => JsonView::Text("long_running_job"@),
        SuspensionKind::FunctionRecovery => JsonView::Text("function_recovery"@),
    }
}

/// A [`SuspensionKind`] as a document.
pub fn make_suspension_kind(value: &SuspensionKind) -> (r: Json)
    ensures
        r.deep_view() == suspension_kind_json(*value),
{
    match value {
        SuspensionKind::LongRunningJob => Json::text("long_running_job"),
        SuspensionKind::FunctionRecovery => Json::text("function_recovery"),
    }
}

/// A [`Suspension`] as a document.
pub open spec fn suspension_json(value: SuspensionView) -> JsonView {
    JsonView::Object(
        Map::<Seq<char>, JsonView>::empty()
            .insert("id"@, JsonView::Text(value.id))
            .insert("kind"@, suspension_kind_json(value.kind))
            .insert("payload"@, value.payload),
    )
}

/// A [`Suspension`] as a document.
pub fn make_suspension(value: &Suspension) -> (r: Json)
    ensures
        r.deep_view() == suspension_json(value.deep_view()),
{
    Json::object(
        no_members()
            .with("id", Json::text(value.id.as_str()))
            .with("kind", make_suspension_kind(&value.kind))
            .with("payload", value.payload.replica()),
    )
}

/// A [`TokenUsage`] as a document.
pub open spec fn token_usage_json(value: TokenUsage) -> JsonView {
    JsonView::Object(
        Map::<Seq<char>, JsonView>::empty()
            .insert("input_tokens"@, JsonView::Number(NumberView::Unsigned(value.input_tokens)))
            .insert(
                "cached_input_tokens"@,
                JsonView::Number(NumberView::Unsigned(value.cached_input_tokens)),
            )
            .insert("output_tokens"@, JsonView::Number(NumberView::Unsigned(value.output_tokens)))
            .insert("total_tokens"@, JsonView::Number(NumberView::Unsigned(value.total_tokens))),
    )
}

/// A [`TokenUsage`] as a document.
pub fn make_token_usage(value: &TokenUsage) -> (r: Json)
    ensures
        r.deep_view() == token_usage_json(value.deep_view()),
{
    Json::object(
        no_members()
            .with("input_tokens", Json::unsigned(value.input_tokens))
            .with("cached_input_tokens", Json::unsigned(value.cached_input_tokens))
            .with("output_tokens", Json::unsigned(value.output_tokens))
            .with("total_tokens", Json::unsigned(value.total_tokens)),
    )
}

/// Reading the document of a [`ModelFunctionCall`] gives it back.
pub proof fn law_model_function_call_is_read_back(value: ModelFunctionCallView)
    ensures
        model_function_call_of(model_function_call_json(value))
            == Some(value),
{
    reveal_strlit("call_id");
    reveal_strlit("name");
    reveal_strlit("arguments");
    assert("call_id"@.len() != "name"@.len());
    assert("call_id"@.len() != "arguments"@.len());
    assert("name"@.len() != "arguments"@.len());
    assert(model_function_call_of(model_function_call_json(value))->Some_0 =~= value);
}

/// Reading the list under a key gives it back.
pub proof fn lemma_function_calls_are_read_back(
    json: JsonView,
    key: Seq<char>,
    values: Seq<ModelFunctionCallView>,
)
    requires
        member(json, key) == Some(function_calls_json(values)),
    ensures
        function_calls_field(json, key) == Some(values),
{
    let items = function_calls_json(values)->Array_0;
    assert forall|i: int| 0 <= i < items.len() implies (#[trigger] model_function_call_of(items[i])) == Some(values[i]) by {
        law_model_function_call_is_read_back(values[i]);
    }
    assert(function_calls_field(json, key)->Some_0 =~= values);
}

/// Reading the document of a [`ModelContinuation`] gives it back.
pub proof fn law_model_continuation_is_read_back(value: ModelContinuationView)
    ensures
        model_continuation_of(model_continuation_json(value))
            == Some(value),
{
    reveal_strlit("format");
    reveal_strlit("payload");
    assert("format"@.len() != "payload"@.len());
    assert(model_continuation_of(model_continuation_json(value))->Some_0 =~= value);
}

/// The continuation under a key; a record without one has none.
pub open spec fn continuation_field(
    json: JsonView,
    key: Seq<char>,
) -> Option<Option<ModelContinuationView>> {
    match member(json, key) {
        None => Some(None),
        Some(JsonView::Null) => Some(None),
        Some(value) => match model_continuation_of(value) {
            Some(continuation) => Some(Some(continuation)),
            None => None,
        },
    }
}

fn read_continuation_field(json: &Json, key: &str) -> (r: core::result::Result<
    Option<ModelContinuation>,
    String,
>)
    ensures
        match r {
            Ok(value) => continuation_field(json.deep_view(), key@) == Some(value.deep_view()),
            Err(_) => continuation_field(json.deep_view(), key@) is None,
        },
{
    match json.get(key) {
        None => Ok(None),
        Some(Json::Null) => Ok(None),
        Some(value) => match read_model_continuation(value) {
            Ok(continuation) => Ok(Some(continuation)),
            Err(error) => Err(error),
        },
    }
}

/// What an [`Answer`] holds.
#[verifier::ext_equal]
pub struct AnswerView {
    pub continuation: Option<ModelContinuationView>,
    pub text: Option<Seq<char>>,
    pub function_calls: Seq<ModelFunctionCallView>,
}

/// What a model answered.
pub struct Answer {
    pub continuation: Option<ModelContinuation>,
    pub text: Option<String>,
    pub function_calls: Vec<ModelFunctionCall>,
}

impl DeepView for Answer {
    type V = AnswerView;

    open spec fn deep_view(&self) -> Self::V {
        AnswerView {
            continuation: self.continuation.deep_view(),
            text: self.text.deep_view(),
            function_calls: self.function_calls.deep_view(),
        }
    }
}

/// The answer that a document holds.
pub open spec fn answer_of(json: JsonView) -> Option<AnswerView> {
    match continuation_field(json, "continuation"@) {
        None => None,
        Some(continuation) => match optional_text_of(json, "text"@) {
            None => None,
            Some(text) => match function_calls_field(json, "function_calls"@) {
                None => None,
                Some(function_calls) => Some(AnswerView { continuation, text, function_calls }),
            },
        },
    }
}

fn read_answer(json: &Json) -> (r: core::result::Result<Answer, String>)
    ensures
        match r {
            Ok(value) => answer_of(json.deep_view()) == Some(
                value.deep_view(),
            ),
            Err(_) => answer_of(json.deep_view()) is None,
        },
{
    let continuation = match read_continuation_field(json, "continuation") {
        Ok(continuation) => continuation,
        Err(error) => return Err(error),
    };
    let text = match optional_text(json, "text") {
        Ok(text) => text,
        Err(error) => return Err(error),
    };
    let function_calls = match read_function_calls_field(json, "function_calls") {
        Ok(function_calls) => function_calls,
        Err(error) => return Err(error),
    };
    Ok(Answer { continuation, text, function_calls })
}

/// The members of an answer; a continuation is written only where there is one.
pub open spec fn answer_members(answer: AnswerView) -> Map<Seq<char>, JsonView> {
    let members = Map::<Seq<char>, JsonView>::empty().insert(
        "text"@,
        optional_text_json(answer.text),
    ).insert("function_calls"@, function_calls_json(answer.function_calls));
    match answer.continuation {
        Some(continuation) => members.insert(
            "continuation"@,
            model_continuation_json(continuation),
        ),
        None => members,
    }
}

/// The record of a model's answer in a turn.
pub open spec fn model_record_json(answer: AnswerView) -> JsonView {
    JsonView::Object(answer_members(answer).insert("type"@, JsonView::Text("model_response"@)))
}

/// The item of a turn that records a model's answer.
pub open spec fn answer_item(answer: AnswerView) -> TurnItemKindView {
    TurnItemKindView::ModelResponse {
        text: answer.text,
        function_calls: answer.function_calls,
        continuation: answer.continuation,
    }
}

/// The item that the record of a model's answer is.
pub open spec fn model_record_of(json: JsonView) -> Option<TurnItemKindView> {
    match required_text_of(json, "type"@) {
        None => None,
        Some(kind) => if kind != "model_response"@ {
            None
        } else {
            match answer_of(json) {
                None => None,
                Some(answer) => Some(answer_item(answer)),
            }
        },
    }
}

/// Reads the record of a model's answer.
pub fn read_model_record(json: &Json) -> (r: core::result::Result<TurnItemKind, String>)
    ensures
        match r {
            Ok(value) => model_record_of(json.deep_view()) == Some(
                value.deep_view(),
            ),
            Err(_) => model_record_of(json.deep_view()) is None,
        },
{
    let kind = match required_text(json, "type") {
        Ok(kind) => kind,
        Err(error) => return Err(error),
    };
    if !same_text(kind.as_str(), "model_response") {
        return Err(make_wrong_field("type", "model_response"));
    }
    match read_answer(json) {
        Ok(answer) => Ok(
            TurnItemKind::ModelResponse {
                text: answer.text,
                function_calls: answer.function_calls,
                continuation: answer.continuation,
            },
        ),
        Err(error) => Err(error),
    }
}

/// Writes the record of a model's answer.
pub fn make_model_record(
    text: &Option<String>,
    function_calls: &Vec<ModelFunctionCall>,
    continuation: &Option<ModelContinuation>,
) -> (r: Json)
    ensures
        r.deep_view() == model_record_json(
            AnswerView {
                continuation: continuation.deep_view(),
                text: text.deep_view(),
                function_calls: function_calls.deep_view(),
            },
        ),
{
    let members = no_members().with("text", make_optional_text(text)).with(
        "function_calls",
        make_function_calls(function_calls),
    );
    let members = match continuation {
        Some(continuation) => members.with("continuation", make_model_continuation(continuation)),
        None => members,
    };
    Json::object(members.with("type", Json::text("model_response")))
}

/// The response that a document is: an object with the name of a variant as its only key, and with
/// an object under it.
pub open spec fn model_response_of(json: JsonView) -> Option<ModelResponseView> {
    if !(json is Object) || sorted_keys(json->Object_0.dom()).len() != 1 {
        None
    } else {
        let name = sorted_keys(json->Object_0.dom())[0];
        let value = json->Object_0[name];
        if !(value is Object) {
            None
        } else if name == "Assistant"@ {
            match answer_of(value) {
                None => None,
                Some(answer) => Some(
                    ModelResponseView::Assistant {
                        continuation: answer.continuation,
                        text: answer.text,
                        function_calls: answer.function_calls,
                    },
                ),
            }
        } else if name == "AssistantMessage"@ {
            match required_text_of(value, "text"@) {
                None => None,
                Some(text) => Some(ModelResponseView::AssistantMessage { text }),
            }
        } else if name == "FunctionCalls"@ {
            match function_calls_field(value, "calls"@) {
                None => None,
                Some(calls) => Some(ModelResponseView::FunctionCalls { calls }),
            }
        } else {
            None
        }
    }
}

/// Reads a response.
pub fn read_model_response(json: &Json) -> (r: core::result::Result<ModelResponse, String>)
    ensures
        match r {
            Ok(value) => model_response_of(json.deep_view()) == Some(value.deep_view()),
            Err(_) => model_response_of(json.deep_view()) is None,
        },
{
    let members = match json {
        Json::Object(members) => members,
        _ => return Err("response is not an object".to_owned()),
    };
    proof {
        lemma_object_view(*members);
        assert(members.deep_view().dom() =~= members@.dom());
    }
    if members.walk() != 1 {
        return Err("response is not an object with a single key".to_owned());
    }
    let name = members.key_at(0).as_str();
    let value = members.value_at(0);
    match value {
        Json::Object(_) => {},
        _ => return Err("response is not an object".to_owned()),
    }
    if same_text(name, "Assistant") {
        match read_answer(value) {
            Ok(answer) => Ok(
                ModelResponse::Assistant {
                    continuation: answer.continuation,
                    text: answer.text,
                    function_calls: answer.function_calls,
                },
            ),
            Err(error) => Err(error),
        }
    } else if same_text(name, "AssistantMessage") {
        match required_text(value, "text") {
            Ok(text) => Ok(ModelResponse::AssistantMessage { text }),
            Err(error) => Err(error),
        }
    } else if same_text(name, "FunctionCalls") {
        match read_function_calls_field(value, "calls") {
            Ok(calls) => Ok(ModelResponse::FunctionCalls { calls }),
            Err(error) => Err(error),
        }
    } else {
        Err(make_wrong_field(name, "a response"))
    }
}

/// Reading the record of a model's answer gives it back.
pub proof fn law_model_record_is_read_back(answer: AnswerView)
    ensures
        model_record_of(model_record_json(answer)) == Some(
            answer_item(answer),
        ),
{
    reveal_strlit("type");
    reveal_strlit("text");
    reveal_strlit("function_calls");
    reveal_strlit("continuation");
    assert("type"@[1] != "text"@[1]);
    assert("type"@.len() != "function_calls"@.len());
    assert("type"@.len() != "continuation"@.len());
    assert("text"@.len() != "function_calls"@.len());
    assert("text"@.len() != "continuation"@.len());
    assert("function_calls"@.len() != "continuation"@.len());
    let json = model_record_json(answer);
    lemma_function_calls_are_read_back(json, "function_calls"@, answer.function_calls);
    if answer.continuation is Some {
        law_model_continuation_is_read_back(answer.continuation->Some_0);
    }
    assert(continuation_field(json, "continuation"@) == Some(answer.continuation));
    assert(optional_text_of(json, "text"@) == Some(answer.text));
}

/// A record from before there were continuations is read as one without.
pub proof fn law_old_records_have_no_continuation(json: JsonView)
    requires
        model_record_of(json) is Some,
        member(json, "continuation"@) is None,
    ensures
        model_record_of(json)->Some_0->ModelResponse_continuation is None,
{
}

} // verus!
