//! Requests to the Responses API, and the decoding of its streams.

use crate::document::{json_document, parse, JsonError, JsonErrorView};
use crate::fields::{
    as_fields, fielded, names_of, optional_text, optional_text_of, required_text, required_text_of,
};
use crate::json::{
    array_member, compact, member, no_members, text_member, Json, JsonView, NumberView,
};
use crate::kernel::model::{
    FunctionSpec, FunctionSpecView, ModelContinuation, ModelContinuationView, ModelFunctionCall,
    ModelFunctionCallView, ModelRequest, ModelRequestView, ModelResponse, ModelResponseView,
};
use crate::kernel::projection::{ChatMessage, ChatMessageView};
use crate::openai::config::{ModelConfig, ModelConfigView};
use crate::runtime::error::{AgentError, AgentErrorView, Result};
use crate::same::{outcome_of, Replica};
use crate::text::{decimal, decimal_text, glue2, glue3, same_text};
use vstd::utf8::encode_utf8;
use vstd::prelude::*;

verus! {

/// The format of the continuations that this adapter makes and understands.
pub open spec fn continuation_format() -> Seq<char> {
    "openai.responses.v1"@
}

/// An object without members.
pub open spec fn none() -> Map<Seq<char>, JsonView> {
    Map::<Seq<char>, JsonView>::empty()
}

/// A text as a document.
pub open spec fn txt(text: Seq<char>) -> JsonView {
    JsonView::Text(text)
}

/// `{"role": <role>, "content": <content>}`.
pub open spec fn role_item(role: Seq<char>, content: Seq<char>) -> JsonView {
    JsonView::Object(none().insert("role"@, txt(role)).insert("content"@, txt(content)))
}

/// An answer of the assistant as an input item.
pub open spec fn answer_item(text: Seq<char>) -> JsonView {
    JsonView::Object(
        none().insert("type"@, txt("message"@)).insert("role"@, txt("assistant"@)).insert(
            "content"@,
            JsonView::Array(
                seq![
                    JsonView::Object(
                        none()
                            .insert("type"@, txt("output_text"@))
                            .insert("text"@, txt(text))
                            .insert(
                            "annotations"@,
                            JsonView::Array(Seq::empty()),
                        ),
                    ),
                ],
            ),
        ),
    )
}

/// A function call as an input item.
pub open spec fn call_item(call: ModelFunctionCallView) -> JsonView {
    JsonView::Object(
        none().insert("type"@, txt("function_call"@)).insert("call_id"@, txt(call.call_id)).insert(
            "name"@,
            txt(call.name),
        ).insert("arguments"@, txt(compact(call.arguments))),
    )
}

/// The output of a function call as an input item: a text as it is, anything else as a document.
pub open spec fn call_output_item(call_id: Seq<char>, content: JsonView) -> JsonView {
    JsonView::Object(
        none()
            .insert("type"@, txt("function_call_output"@))
            .insert("call_id"@, txt(call_id))
            .insert(
            "output"@,
            match content {
                JsonView::Text(text) => txt(text),
                _ => txt(compact(content)),
            },
        ),
    )
}

/// The input items that a message of the history is sent as.
pub open spec fn message_items(message: ChatMessageView) -> core::result::Result<
    Seq<JsonView>,
    AgentErrorView,
> {
    match message {
        ChatMessageView::System { content } => Ok(seq![role_item("system"@, content)]),
        ChatMessageView::User { content } => Ok(seq![role_item("user"@, content)]),
        ChatMessageView::Assistant { content, tool_calls, continuation } => match continuation {
            Some(continuation) => if continuation.format != continuation_format() {
                Err(
                    AgentErrorView::Model(
                        "unsupported Responses continuation format: "@ + continuation.format,
                    ),
                )
            } else {
                match continuation.payload {
                    JsonView::Array(items) => Ok(items),
                    _ => Err(
                        AgentErrorView::Model(
                            "Responses continuation must contain an output-item array"@,
                        ),
                    ),
                }
            },
            None => Ok(
                (match content {
                    Some(text) => seq![answer_item(text)],
                    None => Seq::empty(),
                }) + tool_calls.map_values(|call: ModelFunctionCallView| call_item(call)),
            ),
        },
        ChatMessageView::Tool { tool_call_id, name, content } => Ok(
            seq![call_output_item(tool_call_id, content)],
        ),
    }
}

/// The input items of a history.
pub open spec fn input_items(messages: Seq<ChatMessageView>) -> core::result::Result<
    Seq<JsonView>,
    AgentErrorView,
>
    decreases messages.len(),
{
    if messages.len() == 0 {
        Ok(Seq::empty())
    } else {
        match input_items(messages.drop_last()) {
            Err(error) => Err(error),
            Ok(items) => match message_items(messages.last()) {
                Err(error) => Err(error),
                Ok(more) => Ok(items + more),
            },
        }
    }
}

/// A function as a tool of a request.
pub open spec fn tool_json(function: FunctionSpecView) -> JsonView {
    JsonView::Object(
        none().insert("type"@, txt("function"@)).insert("name"@, txt(function.name)).insert(
            "description"@,
            txt(function.description),
        ).insert("parameters"@, function.parameters).insert("strict"@, JsonView::Bool(false)),
    )
}

/// The body of a request whose input items are given.
pub open spec fn body_json(
    config: ModelConfigView,
    input: Seq<JsonView>,
    functions: Seq<FunctionSpecView>,
) -> JsonView {
    let body = none()
        .insert("model"@, txt(config.model))
        .insert("input"@, JsonView::Array(input))
        .insert(
        "stream"@,
        JsonView::Bool(true),
    ).insert("store"@, JsonView::Bool(false)).insert(
        "include"@,
        JsonView::Array(seq![txt("reasoning.encrypted_content"@)]),
    );
    let body = if config.reasoning_effort.len() == 0 {
        body
    } else {
        body.insert(
            "reasoning"@,
            JsonView::Object(none().insert("effort"@, txt(config.reasoning_effort))),
        )
    };
    JsonView::Object(
        if functions.len() == 0 {
            body
        } else {
            body.insert(
                "tools"@,
                JsonView::Array(
                    functions.map_values(|function: FunctionSpecView| tool_json(function)),
                ),
            ).insert("tool_choice"@, txt("auto"@))
        },
    )
}

/// The body of a request, or why there can be none.
pub open spec fn request_json(config: ModelConfigView, request: ModelRequestView) -> core::result::Result<
    JsonView,
    AgentErrorView,
> {
    match input_items(request.messages) {
        Ok(input) => Ok(body_json(config, input, request.functions)),
        Err(error) => Err(error),
    }
}

fn make_role_item(role: &str, content: &str) -> (r: Json)
    ensures
        r.deep_view() == role_item(role@, content@),
{
    Json::object(no_members().with("role", Json::text(role)).with("content", Json::text(content)))
}

/// A list of one document.
fn one(item: Json) -> (r: Vec<Json>)
    ensures
        r.deep_view() == seq![item.deep_view()],
{
    let mut items: Vec<Json> = Vec::new();
    items.push(item);
    assert(items.deep_view() =~= seq![item.deep_view()]);
    items
}

fn make_answer_item(text: &str) -> (r: Json)
    ensures
        r.deep_view() == answer_item(text@),
{
    let annotations: Vec<Json> = Vec::new();
    assert(annotations.deep_view() =~= Seq::<JsonView>::empty());
    let part = Json::object(
        no_members().with("type", Json::text("output_text")).with("text", Json::text(text)).with(
            "annotations",
            Json::array(annotations),
        ),
    );
    Json::object(
        no_members().with("type", Json::text("message")).with("role", Json::text("assistant")).with(
            "content",
            Json::array(one(part)),
        ),
    )
}

fn make_call_item(call: &ModelFunctionCall) -> (r: Json)
    ensures
        r.deep_view() == call_item(call.deep_view()),
{
    Json::object(
        no_members().with("type", Json::text("function_call")).with(
            "call_id",
            Json::text(call.call_id.as_str()),
        ).with("name", Json::text(call.name.as_str())).with(
            "arguments",
            Json::Text(call.arguments.to_text()),
        ),
    )
}

fn make_call_output_item(call_id: &str, content: &Json) -> (r: Json)
    ensures
        r.deep_view() == call_output_item(call_id@, content.deep_view()),
{
    let output = match content.as_text() {
        Some(text) => Json::Text(text.clone()),
        None => Json::Text(content.to_text()),
    };
    Json::object(
        no_members().with("type", Json::text("function_call_output")).with(
            "call_id",
            Json::text(call_id),
        ).with("output", output),
    )
}

/// Adds a document to a list.
fn push_json(items: &mut Vec<Json>, item: Json)
    ensures
        final(items).deep_view() == old(items).deep_view().push(item.deep_view()),
{
    let ghost before = items.deep_view();
    items.push(item);
    assert(items.deep_view() =~= before.push(item.deep_view()));
}

fn make_message_items(message: &ChatMessage) -> (r: Result<Vec<Json>>)
    ensures
        outcome_of(r) == message_items(message.deep_view()),
{
    match message {
        ChatMessage::System { content } => Ok(one(make_role_item("system", content.as_str()))),
        ChatMessage::User { content } => Ok(one(make_role_item("user", content.as_str()))),
        ChatMessage::Assistant { content, tool_calls, continuation } => {
            if let Some(continuation) = continuation {
                if !same_text(continuation.format.as_str(), "openai.responses.v1") {
                    return Err(
                        AgentError::Model(
                            glue2(
                                "unsupported Responses continuation format: ",
                                continuation.format.as_str(),
                            ),
                        ),
                    );
                }
                return match continuation.payload.as_array() {
                    Some(items) => Ok(items.replica()),
                    None => Err(
                        AgentError::Model(
                            "Responses continuation must contain an output-item array".to_owned(),
                        ),
                    ),
                };
            }
            let mut items: Vec<Json> = Vec::new();
            assert(items.deep_view() =~= Seq::<JsonView>::empty());
            if let Some(text) = content {
                items = one(make_answer_item(text.as_str()));
            }
            let ghost front = items.deep_view();
            let ghost calls = tool_calls.deep_view().map_values(
                |call: ModelFunctionCallView| call_item(call),
            );
            assert(items.deep_view() =~= front + calls.take(0));
            for i in 0..tool_calls.len()
                invariant
                    calls == tool_calls.deep_view().map_values(
                        |call: ModelFunctionCallView| call_item(call),
                    ),
                    items.deep_view() == front + calls.take(i as int),
            {
                push_json(&mut items, make_call_item(&tool_calls[i]));
                assert(calls[i as int] == call_item(tool_calls@[i as int].deep_view()));
                assert(calls.take(i + 1) =~= calls.take(i as int).push(calls[i as int]));
                assert(items.deep_view() =~= front + calls.take(i + 1));
            }
            assert(calls.take(tool_calls.len() as int) =~= calls);
            Ok(items)
        },
        ChatMessage::Tool { tool_call_id, content, .. } => Ok(
            one(make_call_output_item(tool_call_id.as_str(), content)),
        ),
    }
}

fn make_tool(function: &FunctionSpec) -> (r: Json)
    ensures
        r.deep_view() == tool_json(function.deep_view()),
{
    Json::object(
        no_members().with("type", Json::text("function")).with(
            "name",
            Json::text(function.name.as_str()),
        ).with("description", Json::text(function.description.as_str())).with(
            "parameters",
            function.parameters.replica(),
        ).with("strict", Json::Bool(false)),
    )
}

/// The body of a request to the Responses API.
pub fn request_body(config: &ModelConfig, request: &ModelRequest) -> (r: Result<Json>)
    ensures
        outcome_of(r) == request_json(config.deep_view(), request.deep_view()),
{
    let ghost messages = request.messages.deep_view();
    let mut input: Vec<Json> = Vec::new();
    assert(messages.take(0) =~= Seq::empty());
    assert(input.deep_view() =~= Seq::<JsonView>::empty());
    for i in 0..request.messages.len()
        invariant
            messages == request.messages.deep_view(),
            input_items(messages.take(i as int)) == Ok::<Seq<JsonView>, AgentErrorView>(
                input.deep_view(),
            ),
    {
        assert(messages.take(i + 1).drop_last() =~= messages.take(i as int));
        assert(messages.take(i + 1).last() == request.messages@[i as int].deep_view());
        match make_message_items(&request.messages[i]) {
            Ok(items) => {
                let ghost before = input.deep_view();
                let ghost more = items.deep_view();
                let mut items = items;
                input.append(&mut items);
                assert(input.deep_view() =~= before + more);
            },
            Err(error) => {
                proof {
                    lemma_input_error(messages, i + 1, error.deep_view());
                }
                return Err(error);
            },
        }
    }
    assert(messages.take(messages.len() as int) =~= messages);
    let ghost tools_view = request.functions.deep_view().map_values(
        |function: FunctionSpecView| tool_json(function),
    );
    let mut tools: Vec<Json> = Vec::new();
    assert(tools.deep_view() =~= tools_view.take(0));
    for i in 0..request.functions.len()
        invariant
            tools_view == request.functions.deep_view().map_values(
                |function: FunctionSpecView| tool_json(function),
            ),
            tools.deep_view() == tools_view.take(i as int),
    {
        push_json(&mut tools, make_tool(&request.functions[i]));
        assert(tools_view[i as int] == tool_json(request.functions@[i as int].deep_view()));
        assert(tools_view.take(i + 1) =~= tools_view.take(i as int).push(tools_view[i as int]));
    }
    assert(tools_view.take(request.functions.len() as int) =~= tools_view);
    let mut body = no_members().with("model", Json::text(config.model.as_str())).with(
        "input",
        Json::array(input),
    ).with("stream", Json::Bool(true)).with("store", Json::Bool(false)).with(
        "include",
        Json::array(one(Json::text("reasoning.encrypted_content"))),
    );
    if !config.reasoning_effort.as_str().is_empty() {
        body = body.with(
            "reasoning",
            Json::object(
                no_members().with("effort", Json::text(config.reasoning_effort.as_str())),
            ),
        );
    }
    if request.functions.len() > 0 {
        body = body.with("tools", Json::array(tools)).with("tool_choice", Json::text("auto"));
    }
    Ok(Json::object(body))
}

/// A history with an error in front of it has that error.
proof fn lemma_input_error(messages: Seq<ChatMessageView>, k: int, error: AgentErrorView)
    requires
        0 <= k <= messages.len(),
        input_items(messages.take(k)) == Err::<Seq<JsonView>, AgentErrorView>(error),
    ensures
        input_items(messages) == Err::<Seq<JsonView>, AgentErrorView>(error),
    decreases messages.len() - k,
{
    if k == messages.len() {
        assert(messages.take(k) =~= messages);
    } else {
        assert(messages.take(k + 1).drop_last() =~= messages.take(k));
        lemma_input_error(messages, k + 1, error);
    }
}

/// A member of an object, null where there is none.
pub open spec fn member_or_null(json: JsonView, key: Seq<char>) -> JsonView {
    match member(json, key) {
        Some(value) => value,
        None => JsonView::Null,
    }
}

pub(crate) fn get_or_null(json: &Json, key: &str) -> (r: Json)
    ensures
        r.deep_view() == member_or_null(json.deep_view(), key@),
{
    match json.get(key) {
        Some(value) => value.replica(),
        None => Json::Null,
    }
}

/// A member that must be a text, or the error when it is none.
pub open spec fn string_of(
    json: JsonView,
    key: Seq<char>,
) -> core::result::Result<Seq<char>, AgentErrorView> {
    match text_member(json, key) {
        Some(text) => Ok(text),
        None => Err(AgentErrorView::Model("Responses item missing string "@ + key)),
    }
}

fn required_string<'a>(json: &'a Json, key: &str) -> (r: Result<&'a String>)
    ensures
        outcome_of(r) == string_of(json.deep_view(), key@),
{
    match json.get_text(key) {
        Some(text) => Ok(text),
        None => Err(AgentError::Model(glue2("Responses item missing string ", key))),
    }
}

/// The text so far with one more part of a message.
pub open spec fn with_part(
    text: Seq<char>,
    part: JsonView,
) -> core::result::Result<Seq<char>, AgentErrorView> {
    let kind = text_member(part, "type"@);
    let key = if kind == Some("output_text"@) {
        Some("text"@)
    } else if kind == Some("refusal"@) {
        Some("refusal"@)
    } else {
        None
    };
    match key {
        None => Err(AgentErrorView::Model("unsupported Responses message content"@)),
        Some(key) => match string_of(part, key) {
            Ok(more) => Ok(text + more),
            Err(error) => Err(error),
        },
    }
}

/// The text so far with the parts of a message.
pub open spec fn with_parts(text: Seq<char>, parts: Seq<JsonView>) -> core::result::Result<
    Seq<char>,
    AgentErrorView,
>
    decreases parts.len(),
{
    if parts.len() == 0 {
        Ok(text)
    } else {
        match with_parts(text, parts.drop_last()) {
            Ok(text) => with_part(text, parts.last()),
            Err(error) => Err(error),
        }
    }
}

/// The error of arguments that are no document.
pub open spec fn arguments_error(
    item: JsonView,
    arguments: Seq<char>,
    error: JsonErrorView,
) -> AgentErrorView {
    AgentErrorView::Model(
        "invalid Responses function arguments: call_id="@
            + compact(member_or_null(item, "call_id"@))
            + ", name="@ + compact(member_or_null(item, "name"@)) + ", bytes="@ + decimal(
            encode_utf8(arguments).len() as usize as nat,
        ) + ", category="@ + error.category + ", "@ + error.message,
    )
}

/// The function call that an item is, given the document of its arguments.
pub open spec fn call_with(
    item: JsonView,
    document: core::result::Result<JsonView, JsonErrorView>,
) -> core::result::Result<ModelFunctionCallView, AgentErrorView> {
    match string_of(item, "arguments"@) {
        Err(error) => Err(error),
        Ok(arguments) => match string_of(item, "call_id"@) {
            Err(error) => Err(error),
            Ok(call_id) => match string_of(item, "name"@) {
                Err(error) => Err(error),
                Ok(name) => match document {
                    Ok(document) => Ok(
                        ModelFunctionCallView { call_id, name, arguments: document },
                    ),
                    Err(error) => Err(arguments_error(item, arguments, error)),
                },
            },
        },
    }
}

/// The function call that an item is.
pub open spec fn call_of(
    item: JsonView,
) -> core::result::Result<ModelFunctionCallView, AgentErrorView> {
    match string_of(item, "arguments"@) {
        Err(error) => Err(error),
        Ok(arguments) => call_with(item, json_document(arguments)),
    }
}

/// The text and the calls so far with one more output item.
pub open spec fn with_item(
    text: Seq<char>,
    calls: Seq<ModelFunctionCallView>,
    item: JsonView,
) -> core::result::Result<(Seq<char>, Seq<ModelFunctionCallView>), AgentErrorView> {
    let status = text_member(item, "status"@);
    let kind = text_member(item, "type"@);
    if status == Some("incomplete"@) || status == Some("in_progress"@) {
        Err(
            AgentErrorView::Model(
                "Responses output item is not complete: id="@
                    + compact(member_or_null(item, "id"@)),
            ),
        )
    } else if kind == Some("message"@) {
        match array_member(item, "content"@) {
            None => Err(AgentErrorView::Model("Responses message missing content"@)),
            Some(parts) => match with_parts(text, parts) {
                Ok(text) => Ok((text, calls)),
                Err(error) => Err(error),
            },
        }
    } else if kind == Some("function_call"@) {
        match call_of(item) {
            Ok(call) => Ok((text, calls.push(call))),
            Err(error) => Err(error),
        }
    } else if kind == Some("reasoning"@) {
        Ok((text, calls))
    } else {
        Err(AgentErrorView::Model("unsupported Responses output item"@))
    }
}

/// The text and the calls of some output items.
pub open spec fn output_parts(items: Seq<JsonView>) -> core::result::Result<
    (Seq<char>, Seq<ModelFunctionCallView>),
    AgentErrorView,
>
    decreases items.len(),
{
    if items.len() == 0 {
        Ok((Seq::empty(), Seq::empty()))
    } else {
        match output_parts(items.drop_last()) {
            Ok((text, calls)) => with_item(text, calls, items.last()),
            Err(error) => Err(error),
        }
    }
}

/// The answer that a completed response is.
pub open spec fn response_of(
    response: JsonView,
) -> core::result::Result<ModelResponseView, AgentErrorView> {
    match array_member(response, "output"@) {
        None => Err(AgentErrorView::Model("Responses completion missing output array"@)),
        Some(output) => match output_parts(output) {
            Err(error) => Err(error),
            Ok((text, calls)) => if text.len() == 0 && calls.len() == 0 {
                Err(AgentErrorView::Model("Responses completion has no text or function calls"@))
            } else {
                Ok(
                    ModelResponseView::Assistant {
                        continuation: Some(
                            ModelContinuationView {
                                format: continuation_format(),
                                payload: JsonView::Array(output),
                            },
                        ),
                        text: if text.len() == 0 {
                            None
                        } else {
                            Some(text)
                        },
                        function_calls: calls,
                    },
                )
            },
        },
    }
}

pub(crate) fn is_text_member(json: &Json, key: &str, text: &str) -> (r: bool)
    ensures
        r == (text_member(json.deep_view(), key@) == Some(text@)),
{
    match json.get_text(key) {
        Some(value) => same_text(value.as_str(), text),
        None => false,
    }
}

fn add_parts(text: &mut String, parts: &Vec<Json>) -> (r: Result<()>)
    ensures
        match with_parts(old(text)@, parts.deep_view()) {
            Ok(more) => r is Ok && final(text)@ == more,
            Err(error) => outcome_of(r) == Err::<(), AgentErrorView>(error),
        },
{
    let ghost before = text@;
    let ghost views = parts.deep_view();
    assert(views.take(0) =~= Seq::empty());
    for i in 0..parts.len()
        invariant
            before == old(text)@,
            views == parts.deep_view(),
            with_parts(before, views.take(i as int)) == Ok::<Seq<char>, AgentErrorView>(text@),
    {
        assert(views.take(i + 1).drop_last() =~= views.take(i as int));
        assert(views.take(i + 1).last() == parts@[i as int].deep_view());
        let part = &parts[i];
        let key = if is_text_member(part, "type", "output_text") {
            "text"
        } else if is_text_member(part, "type", "refusal") {
            "refusal"
        } else {
            let error = AgentError::Model("unsupported Responses message content".to_owned());
            proof {
                lemma_parts_error(before, views, i + 1, error.deep_view());
            }
            return Err(error);
        };
        match required_string(part, key) {
            Ok(more) => {
                text.append(more.as_str());
            },
            Err(error) => {
                proof {
                    lemma_parts_error(before, views, i + 1, error.deep_view());
                }
                return Err(error);
            },
        }
    }
    assert(views.take(parts.len() as int) =~= views);
    Ok(())
}

proof fn lemma_parts_error(text: Seq<char>, parts: Seq<JsonView>, k: int, error: AgentErrorView)
    requires
        0 <= k <= parts.len(),
        with_parts(text, parts.take(k)) == Err::<Seq<char>, AgentErrorView>(error),
    ensures
        with_parts(text, parts) == Err::<Seq<char>, AgentErrorView>(error),
    decreases parts.len() - k,
{
    if k == parts.len() {
        assert(parts.take(k) =~= parts);
    } else {
        assert(parts.take(k + 1).drop_last() =~= parts.take(k));
        lemma_parts_error(text, parts, k + 1, error);
    }
}

proof fn lemma_output_error(items: Seq<JsonView>, k: int, error: AgentErrorView)
    requires
        0 <= k <= items.len(),
        output_parts(items.take(k))
            == Err::<(Seq<char>, Seq<ModelFunctionCallView>), AgentErrorView>(
            error,
        ),
    ensures
        output_parts(items)
            == Err::<(Seq<char>, Seq<ModelFunctionCallView>), AgentErrorView>(error),
    decreases items.len() - k,
{
    if k == items.len() {
        assert(items.take(k) =~= items);
    } else {
        assert(items.take(k + 1).drop_last() =~= items.take(k));
        lemma_output_error(items, k + 1, error);
    }
}

fn make_arguments_error(item: &Json, arguments: &str, error: &JsonError) -> (r: AgentError)
    ensures
        r.deep_view() == arguments_error(item.deep_view(), arguments@, error.deep_view()),
{
    let mut message = "invalid Responses function arguments: call_id=".to_owned();
    message.append(get_or_null(item, "call_id").to_text().as_str());
    message.append(", name=");
    message.append(get_or_null(item, "name").to_text().as_str());
    message.append(", bytes=");
    message.append(decimal_text(arguments.len() as u128).as_str());
    message.append(", category=");
    message.append(error.category.as_str());
    message.append(", ");
    message.append(error.message.as_str());
    AgentError::Model(message)
}

/// Reads a function call from an item, given what its arguments were read as.
pub fn finish_call(item: &Json, document: core::result::Result<Json, JsonError>) -> (r: Result<
    ModelFunctionCall,
>)
    ensures
        outcome_of(r) == call_with(
            item.deep_view(),
            match document {
                Ok(json) => Ok(json.deep_view()),
                Err(error) => Err(error.deep_view()),
            },
        ),
{
    let arguments = match required_string(item, "arguments") {
        Ok(arguments) => arguments,
        Err(error) => return Err(error),
    };
    let call_id = match required_string(item, "call_id") {
        Ok(call_id) => call_id,
        Err(error) => return Err(error),
    };
    let name = match required_string(item, "name") {
        Ok(name) => name,
        Err(error) => return Err(error),
    };
    match document {
        Ok(document) => Ok(
            ModelFunctionCall { call_id: call_id.clone(), name: name.clone(), arguments: document },
        ),
        Err(error) => Err(make_arguments_error(item, arguments.as_str(), &error)),
    }
}

fn read_call(item: &Json) -> (r: Result<ModelFunctionCall>)
    ensures
        outcome_of(r) == call_of(item.deep_view()),
{
    match required_string(item, "arguments") {
        Ok(arguments) => finish_call(item, parse(arguments.as_str())),
        Err(error) => Err(error),
    }
}

/// Adds one output item to the text and the calls.
fn add_item(text: &mut String, calls: &mut Vec<ModelFunctionCall>, item: &Json) -> (r: Result<()>)
    ensures
        match with_item(old(text)@, old(calls).deep_view(), item.deep_view()) {
            Ok((more, called)) => r is Ok
                && final(text)@ == more
                && final(calls).deep_view() == called,
            Err(error) => outcome_of(r) == Err::<(), AgentErrorView>(error),
        },
{
    if is_text_member(item, "status", "incomplete")
        || is_text_member(item, "status", "in_progress") {
        return Err(
            AgentError::Model(
                glue2(
                    "Responses output item is not complete: id=",
                    get_or_null(item, "id").to_text().as_str(),
                ),
            ),
        );
    }
    if is_text_member(item, "type", "message") {
        return match item.get_array("content") {
            Some(parts) => add_parts(text, parts),
            None => Err(AgentError::Model("Responses message missing content".to_owned())),
        };
    }
    if is_text_member(item, "type", "function_call") {
        return match read_call(item) {
            Ok(call) => {
                let ghost before = calls.deep_view();
                calls.push(call);
                assert(calls.deep_view() =~= before.push(call.deep_view()));
                Ok(())
            },
            Err(error) => Err(error),
        };
    }
    if is_text_member(item, "type", "reasoning") {
        return Ok(());
    }
    Err(AgentError::Model("unsupported Responses output item".to_owned()))
}

/// The answer that a completed response is.
pub fn completed_response(response: &Json) -> (r: Result<ModelResponse>)
    ensures
        outcome_of(r) == response_of(response.deep_view()),
{
    let output = match response.get_array("output") {
        Some(output) => output,
        None => {
            return Err(AgentError::Model("Responses completion missing output array".to_owned()));
        },
    };
    let ghost views = output.deep_view();
    let mut text = String::new();
    let mut calls: Vec<ModelFunctionCall> = Vec::new();
    assert(views.take(0) =~= Seq::empty());
    assert(text@ =~= Seq::empty());
    assert(calls.deep_view() =~= Seq::empty());
    for i in 0..output.len()
        invariant
            views == output.deep_view(),
            array_member(response.deep_view(), "output"@) == Some(views),
            output_parts(views.take(i as int)) == Ok::<
                (Seq<char>, Seq<ModelFunctionCallView>),
                AgentErrorView,
            >((text@, calls.deep_view())),
    {
        assert(views.take(i + 1).drop_last() =~= views.take(i as int));
        assert(views.take(i + 1).last() == output@[i as int].deep_view());
        if let Err(error) = add_item(&mut text, &mut calls, &output[i]) {
            proof {
                lemma_output_error(views, i + 1, error.deep_view());
            }
            return Err(error);
        }
    }
    assert(views.take(output.len() as int) =~= views);
    if text.as_str().is_empty() && calls.len() == 0 {
        return Err(
            AgentError::Model("Responses completion has no text or function calls".to_owned()),
        );
    }
    let continuation = Some(
        ModelContinuation {
            format: "openai.responses.v1".to_owned(),
            payload: Json::array(output.replica()),
        },
    );
    let text = if text.as_str().is_empty() {
        None
    } else {
        Some(text)
    };
    Ok(ModelResponse::Assistant { continuation, text, function_calls: calls })
}

/// An event of a Responses stream. Items stay as they came, so that fields not known here are kept.
#[derive(Debug, PartialEq, Eq)]
pub struct ResponsesStreamEvent {
    pub kind: String,
    pub response: Option<Json>,
    pub item: Option<Json>,
    pub item_id: Option<String>,
    pub output_index: Option<u64>,
    pub delta: Option<String>,
    pub arguments: Option<String>,
    pub code: Option<String>,
    pub message: Option<String>,
}

/// What a [`ResponsesStreamEvent`] holds.
#[verifier::ext_equal]
pub struct ResponsesStreamEventView {
    pub kind: Seq<char>,
    pub response: Option<JsonView>,
    pub item: Option<JsonView>,
    pub item_id: Option<Seq<char>>,
    pub output_index: Option<u64>,
    pub delta: Option<Seq<char>>,
    pub arguments: Option<Seq<char>>,
    pub code: Option<Seq<char>>,
    pub message: Option<Seq<char>>,
}

impl DeepView for ResponsesStreamEvent {
    type V = ResponsesStreamEventView;

    open spec fn deep_view(&self) -> Self::V {
        ResponsesStreamEventView {
            kind: self.kind.deep_view(),
            response: self.response.deep_view(),
            item: self.item.deep_view(),
            item_id: self.item_id.deep_view(),
            output_index: self.output_index.deep_view(),
            delta: self.delta.deep_view(),
            arguments: self.arguments.deep_view(),
            code: self.code.deep_view(),
            message: self.message.deep_view(),
        }
    }
}

impl Replica for ResponsesStreamEvent {
    fn replica(&self) -> (r: Self) {
        ResponsesStreamEvent {
            kind: self.kind.replica(),
            response: self.response.replica(),
            item: self.item.replica(),
            item_id: self.item_id.replica(),
            output_index: self.output_index.replica(),
            delta: self.delta.replica(),
            arguments: self.arguments.replica(),
            code: self.code.replica(),
            message: self.message.replica(),
        }
    }
}

impl Clone for ResponsesStreamEvent {
    fn clone(&self) -> (r: Self)
        ensures
            r.deep_view() == self.deep_view(),
    {
        self.replica()
    }
}

/// A member that may be left out or be null.
pub open spec fn optional_value(json: JsonView, key: Seq<char>) -> Option<JsonView> {
    match member(json, key) {
        None => None,
        Some(JsonView::Null) => None,
        Some(value) => Some(value),
    }
}

/// A member that may be left out or be null, and else must be an unsigned integer.
pub open spec fn optional_index(json: JsonView, key: Seq<char>) -> Option<Option<u64>> {
    match member(json, key) {
        None => Some(None),
        Some(JsonView::Null) => Some(None),
        Some(JsonView::Number(NumberView::Unsigned(n))) => Some(Some(n)),
        Some(_) => None,
    }
}

/// The names of the fields of an event.
pub open spec fn event_fields() -> Seq<Seq<char>> {
    seq![
        "type"@,
        "response"@,
        "item"@,
        "item_id"@,
        "output_index"@,
        "delta"@,
        "arguments"@,
        "code"@,
        "message"@,
    ]
}

/// The event that a document is.
pub open spec fn event_of(json: JsonView) -> Option<ResponsesStreamEventView> {
    let json = fielded(json, event_fields(), 9);
    match (
        required_text_of(json, "type"@),
        optional_text_of(json, "item_id"@),
        optional_index(json, "output_index"@),
        optional_text_of(json, "delta"@),
        optional_text_of(json, "arguments"@),
        optional_text_of(json, "code"@),
        optional_text_of(json, "message"@),
    ) {
        (
            Some(kind),
            Some(item_id),
            Some(output_index),
            Some(delta),
            Some(arguments),
            Some(code),
            Some(message),
        ) => Some(
            ResponsesStreamEventView {
                kind,
                response: optional_value(json, "response"@),
                item: optional_value(json, "item"@),
                item_id,
                output_index,
                delta,
                arguments,
                code,
                message,
            },
        ),
        _ => None,
    }
}

fn read_optional_value(json: &Json, key: &str) -> (r: Option<Json>)
    ensures
        r.deep_view() == optional_value(json.deep_view(), key@),
{
    match json.get(key) {
        None => None,
        Some(Json::Null) => None,
        Some(value) => Some(value.replica()),
    }
}

fn read_optional_index(json: &Json, key: &str) -> (r: core::result::Result<Option<u64>, String>)
    ensures
        match r {
            Ok(index) => optional_index(json.deep_view(), key@)
                == Some(index),
            Err(_) => optional_index(json.deep_view(), key@) is None,
        },
{
    match json.get(key) {
        None => Ok(None),
        Some(Json::Null) => Ok(None),
        Some(value) => match value.as_unsigned() {
            Some(n) => Ok(Some(n)),
            None => Err(glue3("field `", key, "` is not an unsigned integer")),
        },
    }
}

/// Reads an event.
pub fn read_event(json: &Json) -> (r: core::result::Result<ResponsesStreamEvent, String>)
    ensures
        match r {
            Ok(event) => event_of(json.deep_view()) == Some(
                event.deep_view(),
            ),
            Err(_) => event_of(json.deep_view()) is None,
        },
{
    let names: Vec<&str> = vec![
        "type",
        "response",
        "item",
        "item_id",
        "output_index",
        "delta",
        "arguments",
        "code",
        "message",
    ];
    assert(names_of(names@) =~= event_fields());
    let json = &as_fields(json, &names, 9);
    let kind = match required_text(json, "type") {
        Ok(kind) => kind,
        Err(error) => return Err(error),
    };
    let item_id = match optional_text(json, "item_id") {
        Ok(item_id) => item_id,
        Err(error) => return Err(error),
    };
    let output_index = match read_optional_index(json, "output_index") {
        Ok(output_index) => output_index,
        Err(error) => return Err(error),
    };
    let delta = match optional_text(json, "delta") {
        Ok(delta) => delta,
        Err(error) => return Err(error),
    };
    let arguments = match optional_text(json, "arguments") {
        Ok(arguments) => arguments,
        Err(error) => return Err(error),
    };
    let code = match optional_text(json, "code") {
        Ok(code) => code,
        Err(error) => return Err(error),
    };
    let message = match optional_text(json, "message") {
        Ok(message) => message,
        Err(error) => return Err(error),
    };
    Ok(
        ResponsesStreamEvent {
            kind,
            response: read_optional_value(json, "response"),
            item: read_optional_value(json, "item"),
            item_id,
            output_index,
            delta,
            arguments,
            code,
            message,
        },
    )
}

} // verus!
