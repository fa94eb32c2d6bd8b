//! What a request to the Responses API holds of the history, and what is read from a response.

use crate::document::is_read_as;
use crate::json::{compact, JsonView};
use crate::kernel::model::{FunctionSpecView, ModelFunctionCallView, ModelRequestView};
use crate::kernel::projection::ChatMessageView;
use crate::openai::config::ModelConfigView;
use crate::openai::responses::{
    call_item, call_output_item, input_items, message_items, request_json, tool_json,
};
use crate::runtime::error::AgentErrorView;
use crate::spelling::{
    depth_limit, in_order, is_plain_json, lemma_in_order_is_compact, lemma_plain_in_order, meant,
};
use vstd::prelude::*;

verus! {

/// A text from which a document is read back: a reader that takes plain texts for what they spell
/// reads nothing else from it.
pub open spec fn spells(text: Seq<char>, content: JsonView) -> bool {
    is_plain_json(content, depth_limit()) ==> forall|document: Option<JsonView>| #[trigger]
        is_read_as(text, document) ==> document == Some(content)
}

/// What a function gave, as it is sent: a text as it is, and anything else as a text from which it
/// is read back.
pub open spec fn carries(sent: JsonView, content: JsonView) -> bool {
    &&& sent is Text
    &&& if content is Text {
        sent == content
    } else {
        spells(sent->Text_0, content)
    }
}

/// The input item of what a call gave.
pub open spec fn sends_output(item: JsonView, call_id: Seq<char>, content: JsonView) -> bool {
    &&& item is Object
    &&& item->Object_0.dom() == set!["type"@, "call_id"@, "output"@]
    &&& item->Object_0["type"@] == JsonView::Text("function_call_output"@)
    &&& item->Object_0["call_id"@] == JsonView::Text(call_id)
    &&& carries(item->Object_0["output"@], content)
}

/// The input item of a call.
pub open spec fn sends_call(item: JsonView, call: ModelFunctionCallView) -> bool {
    &&& item is Object
    &&& item->Object_0.dom() == set!["type"@, "call_id"@, "name"@, "arguments"@]
    &&& item->Object_0["type"@] == JsonView::Text("function_call"@)
    &&& item->Object_0["call_id"@] == JsonView::Text(call.call_id)
    &&& item->Object_0["name"@] == JsonView::Text(call.name)
    &&& item->Object_0["arguments"@] is Text
    &&& spells(item->Object_0["arguments"@]->Text_0, call.arguments)
}

/// The input item of an answer.
pub open spec fn sends_answer(item: JsonView, text: Seq<char>) -> bool {
    item == JsonView::Object(
        map![
            "type"@ => JsonView::Text("message"@),
            "role"@ => JsonView::Text("assistant"@),
            "content"@ => JsonView::Array(seq![JsonView::Object(map![
                "type"@ => JsonView::Text("output_text"@),
                "text"@ => JsonView::Text(text),
                "annotations"@ => JsonView::Array(seq![]),
            ])]),
        ],
    )
}

/// The input item of what someone said.
pub open spec fn sends_words(item: JsonView, role: Seq<char>, content: Seq<char>) -> bool {
    item == JsonView::Object(
        map!["role"@ => JsonView::Text(role), "content"@ => JsonView::Text(content)],
    )
}

/// The input items that a message of the history is sent as: an answer that the model gave with a
/// continuation as the items of it, and any other as its text and its calls in their order.
pub open spec fn sends(items: Seq<JsonView>, message: ChatMessageView) -> bool {
    match message {
        ChatMessageView::System { content } => items.len() == 1 && sends_words(
            items[0],
            "system"@,
            content,
        ),
        ChatMessageView::User { content } => items.len() == 1 && sends_words(
            items[0],
            "user"@,
            content,
        ),
        ChatMessageView::Tool { tool_call_id, name, content } => items.len() == 1 && sends_output(
            items[0],
            tool_call_id,
            content,
        ),
        ChatMessageView::Assistant { content, tool_calls, continuation } => {
            let texts = if content is Some {
                1int
            } else {
                0
            };
            if continuation is Some {
                continuation->Some_0.payload == JsonView::Array(items)
            } else {
                &&& items.len() == texts + tool_calls.len()
                &&& content is Some ==> sends_answer(items[0], content->Some_0)
                &&& forall|i: int|
                    0 <= i < tool_calls.len() ==> sends_call(
                        items[texts + i],
                        #[trigger] tool_calls[i],
                    )
            }
        },
    }
}

/// A message that cannot be sent: its continuation is of another format, or holds no items.
pub open spec fn refused(message: ChatMessageView, error: AgentErrorView) -> bool {
    message matches ChatMessageView::Assistant { content, tool_calls, continuation }
        && continuation is Some && if continuation->Some_0.format != "openai.responses.v1"@ {
        error == AgentErrorView::Model(
            "unsupported Responses continuation format: "@ + continuation->Some_0.format,
        )
    } else {
        !(continuation->Some_0.payload is Array) && error == AgentErrorView::Model(
            "Responses continuation must contain an output-item array"@,
        )
    }
}

proof fn lemma_spells(content: JsonView)
    ensures
        spells(compact(content), content),
{
    if is_plain_json(content, depth_limit()) {
        lemma_in_order_is_compact(content);
        lemma_plain_in_order(content, depth_limit());
        assert forall|document: Option<JsonView>| #[trigger]
            is_read_as(compact(content), document) implies document == Some(content) by {
            assert(document == Some(meant(in_order(content))));
        }
    }
}

proof fn lemma_names()
    ensures
        "type"@ != "call_id"@,
        "type"@ != "name"@,
        "type"@ != "output"@,
        "type"@ != "arguments"@,
        "call_id"@ != "name"@,
        "call_id"@ != "output"@,
        "call_id"@ != "arguments"@,
        "name"@ != "arguments"@,
{
    reveal_strlit("type");
    reveal_strlit("call_id");
    reveal_strlit("name");
    reveal_strlit("arguments");
    reveal_strlit("output");
    assert("type"@.len() != "call_id"@.len());
    assert("type"@[0] != "name"@[0]);
    assert("type"@.len() != "output"@.len());
    assert("call_id"@.len() != "name"@.len());
    assert("call_id"@.len() != "output"@.len());
    assert("type"@.len() != "arguments"@.len());
    assert("call_id"@.len() != "arguments"@.len());
    assert("name"@.len() != "arguments"@.len());
}

proof fn lemma_sent_call(call: ModelFunctionCallView)
    ensures
        sends_call(call_item(call), call),
{
    lemma_names();
    lemma_spells(call.arguments);
    assert(call_item(call)->Object_0.dom() =~= set!["type"@, "call_id"@, "name"@, "arguments"@]);
}

/// What a call gave is sent under its id: a text as it is, and anything else as a text from which it
/// is read back.
pub proof fn law_sent_output_is_read_back(
    call_id: Seq<char>,
    name: Seq<char>,
    content: JsonView,
)
    ensures
        message_items(
            ChatMessageView::Tool { tool_call_id: call_id, name, content },
        ) matches Ok(items) && items.len() == 1 && sends_output(items[0], call_id, content),
{
    lemma_names();
    if !(content is Text) {
        lemma_spells(content);
    }
    assert(call_output_item(call_id, content)->Object_0.dom() =~= set![
        "type"@,
        "call_id"@,
        "output"@,
    ]);
}

/// A message is sent with everything that it holds, or refused for its continuation.
pub proof fn law_message_is_sent_whole(message: ChatMessageView)
    ensures
        match message_items(message) {
            Ok(items) => sends(items, message) && forall|error: AgentErrorView|
                !#[trigger] refused(message, error),
            Err(error) => refused(message, error),
        },
{
    match message {
        ChatMessageView::Tool { tool_call_id, name, content } => {
            law_sent_output_is_read_back(tool_call_id, name, content);
        },
        ChatMessageView::Assistant { content, tool_calls, continuation } => {
            if continuation is None {
                let items = message_items(message)->Ok_0;
                let texts = if content is Some {
                    1int
                } else {
                    0
                };
                assert forall|i: int| 0 <= i < tool_calls.len() implies sends_call(
                    items[texts + i],
                    #[trigger] tool_calls[i],
                ) by {
                    lemma_sent_call(tool_calls[i]);
                    assert(items[texts + i] == call_item(tool_calls[i]));
                }
                if content is Some {
                    assert(sends_answer(items[0], content->Some_0));
                }
            }
        },
        _ => {},
    }
}

/// The items of a history: those of its messages, in their order.
pub open spec fn sends_all(items: Seq<JsonView>, messages: Seq<ChatMessageView>) -> bool {
    exists|parts: Seq<Seq<JsonView>>|
        {
            &&& parts.len() == messages.len()
            &&& forall|i: int|
                0 <= i < messages.len() ==> sends(#[trigger] parts[i], messages[i])
            &&& items == #[trigger] parts.flatten()
        }
}

proof fn lemma_input(messages: Seq<ChatMessageView>)
    ensures
        match input_items(messages) {
            Ok(items) => sends_all(items, messages),
            Err(error) => exists|i: int|
                0 <= i < messages.len() && refused(#[trigger] messages[i], error) && forall|j: int|
                    0 <= j < i ==> message_items(#[trigger] messages[j]) is Ok,
        },
        (forall|i: int| 0 <= i < messages.len() ==> message_items(#[trigger] messages[i]) is Ok)
            ==> input_items(messages) is Ok,
        input_items(messages) is Ok ==> forall|i: int|
            0 <= i < messages.len() ==> message_items(#[trigger] messages[i]) is Ok,
    decreases messages.len(),
{
    if messages.len() == 0 {
        let parts = Seq::<Seq<JsonView>>::empty();
        assert(parts.flatten() =~= Seq::empty());
        assert(sends_all(Seq::empty(), messages));
    } else {
        let init = messages.drop_last();
        let last = messages.last();
        lemma_input(init);
        law_message_is_sent_whole(last);
        assert forall|i: int| 0 <= i < init.len() implies init[i] == messages[i] by {}
        match input_items(init) {
            Ok(items) => match message_items(last) {
                Ok(more) => {
                    let parts = choose|parts: Seq<Seq<JsonView>>|
                        {
                            &&& parts.len() == init.len()
                            &&& forall|i: int|
                                0 <= i < init.len() ==> sends(#[trigger] parts[i], init[i])
                            &&& items == #[trigger] parts.flatten()
                        };
                    let all = parts.push(more);
                    assert(all.drop_last() =~= parts);
                    all.lemma_flatten_and_flatten_alt_are_equivalent();
                    parts.lemma_flatten_and_flatten_alt_are_equivalent();
                    assert(all.flatten() == items + more);
                    assert forall|i: int| 0 <= i < messages.len() implies sends(
                        #[trigger] all[i],
                        messages[i],
                    ) by {
                        if i < init.len() {
                            assert(all[i] == parts[i]);
                        }
                    }
                    assert(sends_all(items + more, messages));
                    assert forall|i: int| 0 <= i < messages.len() implies message_items(
                        #[trigger] messages[i],
                    ) is Ok by {
                        if i < init.len() {
                            assert(init[i] == messages[i]);
                        }
                    }
                },
                Err(error) => {
                    let n = messages.len() - 1;
                    assert(refused(messages[n], error));
                    assert forall|j: int| 0 <= j < n implies message_items(
                        #[trigger] messages[j],
                    ) is Ok by {
                        assert(init[j] == messages[j]);
                    }
                },
            },
            Err(error) => {
                let i = choose|i: int|
                    0 <= i < init.len() && refused(#[trigger] init[i], error) && forall|j: int|
                        0 <= j < i ==> message_items(#[trigger] init[j]) is Ok;
                assert(refused(messages[i], error));
                assert forall|j: int| 0 <= j < i implies message_items(
                    #[trigger] messages[j],
                ) is Ok by {
                    assert(init[j] == messages[j]);
                }
                if forall|k: int|
                    0 <= k < messages.len() ==> message_items(#[trigger] messages[k]) is Ok {
                    assert forall|k: int| 0 <= k < init.len() implies message_items(
                        #[trigger] init[k],
                    ) is Ok by {
                        assert(init[k] == messages[k]);
                    }
                }
            },
        }
    }
}

/// A function as it is offered to the model.
pub open spec fn offers(tool: JsonView, function: FunctionSpecView) -> bool {
    tool == JsonView::Object(
        map![
            "type"@ => JsonView::Text("function"@),
            "name"@ => JsonView::Text(function.name),
            "description"@ => JsonView::Text(function.description),
            "parameters"@ => function.parameters,
            "strict"@ => JsonView::Bool(false),
        ],
    )
}

/// A request names the model, holds the whole history and offers every function in its order, and
/// the model chooses among them; the effort is named where one is set. The response is streamed and
/// not stored, and the content of reasoning is asked for. There is no request where a message is
/// refused, and the first such message is the error.
pub proof fn law_request_holds_the_history(config: ModelConfigView, request: ModelRequestView)
    ensures
        match request_json(config, request) {
            Ok(body) => {
                &&& body is Object
                &&& body->Object_0.dom() == set![
                    "model"@,
                    "input"@,
                    "stream"@,
                    "store"@,
                    "include"@,
                ].union(
                    if config.reasoning_effort.len() > 0 {
                        set!["reasoning"@]
                    } else {
                        set![]
                    },
                ).union(
                    if request.functions.len() > 0 {
                        set!["tools"@, "tool_choice"@]
                    } else {
                        set![]
                    },
                )
                &&& body->Object_0["model"@] == JsonView::Text(config.model)
                &&& body->Object_0["input"@] is Array
                &&& sends_all(body->Object_0["input"@]->Array_0, request.messages)
                &&& body->Object_0["stream"@] == JsonView::Bool(true)
                &&& body->Object_0["store"@] == JsonView::Bool(false)
                &&& body->Object_0["include"@] == JsonView::Array(
                    seq![JsonView::Text("reasoning.encrypted_content"@)],
                )
                &&& config.reasoning_effort.len() > 0 ==> body->Object_0["reasoning"@]
                    == JsonView::Object(
                    map!["effort"@ => JsonView::Text(config.reasoning_effort)],
                )
                &&& request.functions.len() > 0 ==> {
                    &&& body->Object_0["tool_choice"@] == JsonView::Text("auto"@)
                    &&& body->Object_0["tools"@] is Array
                    &&& body->Object_0["tools"@]->Array_0.len() == request.functions.len()
                    &&& forall|i: int|
                        0 <= i < request.functions.len() ==> offers(
                            #[trigger] body->Object_0["tools"@]->Array_0[i],
                            request.functions[i],
                        )
                }
            },
            Err(error) => exists|i: int|
                0 <= i < request.messages.len() && refused(#[trigger] request.messages[i], error)
                    && forall|j: int, e: AgentErrorView|
                    0 <= j < i ==> !#[trigger] refused(request.messages[j], e),
        },
{
    lemma_input(request.messages);
    lemma_body_names();
    match request_json(config, request) {
        Ok(body) => {
            assert(body->Object_0.dom() =~= set![
                "model"@,
                "input"@,
                "stream"@,
                "store"@,
                "include"@,
            ].union(
                if config.reasoning_effort.len() > 0 {
                    set!["reasoning"@]
                } else {
                    set![]
                },
            ).union(
                if request.functions.len() > 0 {
                    set!["tools"@, "tool_choice"@]
                } else {
                    set![]
                },
            ));
            if request.functions.len() > 0 {
                assert forall|i: int| 0 <= i < request.functions.len() implies offers(
                    #[trigger] body->Object_0["tools"@]->Array_0[i],
                    request.functions[i],
                ) by {
                    assert(body->Object_0["tools"@]->Array_0[i] == tool_json(request.functions[i]));
                }
            }
        },
        Err(error) => {
            let i = choose|i: int|
                0 <= i < request.messages.len() && refused(#[trigger] request.messages[i], error)
                    && forall|j: int|
                    0 <= j < i ==> message_items(#[trigger] request.messages[j]) is Ok;
            assert forall|j: int, e: AgentErrorView| 0 <= j < i implies !#[trigger] refused(
                request.messages[j],
                e,
            ) by {
                law_message_is_sent_whole(request.messages[j]);
            }
        },
    }
}

proof fn lemma_body_names()
    ensures
        "model"@ != "input"@,
        "model"@ != "stream"@,
        "model"@ != "store"@,
        "model"@ != "include"@,
        "model"@ != "reasoning"@,
        "model"@ != "tools"@,
        "model"@ != "tool_choice"@,
        "input"@ != "stream"@,
        "input"@ != "store"@,
        "input"@ != "include"@,
        "input"@ != "reasoning"@,
        "input"@ != "tools"@,
        "input"@ != "tool_choice"@,
        "stream"@ != "store"@,
        "stream"@ != "include"@,
        "stream"@ != "reasoning"@,
        "stream"@ != "tools"@,
        "stream"@ != "tool_choice"@,
        "store"@ != "include"@,
        "store"@ != "reasoning"@,
        "store"@ != "tools"@,
        "store"@ != "tool_choice"@,
        "include"@ != "reasoning"@,
        "include"@ != "tools"@,
        "include"@ != "tool_choice"@,
        "reasoning"@ != "tools"@,
        "reasoning"@ != "tool_choice"@,
        "tools"@ != "tool_choice"@,
{
    reveal_strlit("model");
    reveal_strlit("input");
    reveal_strlit("stream");
    reveal_strlit("store");
    reveal_strlit("include");
    reveal_strlit("reasoning");
    reveal_strlit("tools");
    reveal_strlit("tool_choice");
    assert("model"@[0] == 'm');
    assert("input"@[0] == 'i' && "input"@.len() == 5);
    assert("stream"@[0] == 's' && "stream"@.len() == 6);
    assert("store"@[0] == 's' && "store"@.len() == 5);
    assert("include"@[0] == 'i' && "include"@.len() == 7);
    assert("reasoning"@[0] == 'r');
    assert("tools"@[0] == 't' && "tools"@.len() == 5);
    assert("tool_choice"@[0] == 't' && "tool_choice"@.len() == 11);
}

} // verus!
