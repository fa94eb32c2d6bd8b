//! The decoder of a Responses stream.

use crate::json::{
    array_member, compact, leveled, member, no_members, text_member, unsigned_member, Json,
    JsonView,
};
use crate::kernel::events::{capped_sum, TokenUsage};
use crate::kernel::model::{
    ModelResponse, ModelResponseView, ModelStreamEvent, ModelStreamEventView,
};
use crate::openai::item_table::{table_get, table_items, table_put, ItemTable};
use crate::openai::responses::{
    completed_response, event_of, get_or_null, is_text_member, member_or_null, none, read_event,
    response_of, txt, ResponsesStreamEvent, ResponsesStreamEventView,
};
use crate::prune::{document_read, read_document};
use crate::runtime::error::{error_text, AgentError, AgentErrorView, Result};
use crate::same::{outcome_of, Replica};
use crate::shape::{is_unambiguous, unambiguous, Shape};
use crate::text::{decimal, decimal_text, glue2, glue3, glue4, same_text, trim, trimmed};
use vstd::prelude::*;

verus! {

/// What a decoder has of a stream so far.
#[verifier::ext_equal]
pub struct ResponseDecoderView {
    /// The answer, once it is complete.
    pub completed: Option<ModelResponseView>,
    /// The items that were announced.
    pub added_items: Seq<(u64, JsonView)>,
    /// The items that are done.
    pub done_items: Seq<(u64, JsonView)>,
}

/// What an event leads to: the decoder behind it, what is reported, and whether it was in order.
pub struct Decoded {
    pub decoder: ResponseDecoderView,
    pub events: Seq<ModelStreamEventView>,
    pub result: core::result::Result<(), AgentErrorView>,
}

/// The index of the first item with an id.
pub open spec fn index_of_id(table: Seq<(u64, JsonView)>, id: Seq<char>) -> Option<u64>
    decreases table.len(),
{
    if table.len() == 0 {
        None
    } else if text_member(table[0].1, "id"@) == Some(id) {
        Some(table[0].0)
    } else {
        index_of_id(table.drop_first(), id)
    }
}

/// The index behind all that are taken.
pub open spec fn free_index(decoder: ResponseDecoderView) -> u64 {
    let added = decoder.added_items;
    let done = decoder.done_items;
    if added.len() == 0 && done.len() == 0 {
        0
    } else if done.len() == 0 || (added.len() > 0 && added.last().0 >= done.last().0) {
        capped_sum(added.last().0, 1)
    } else {
        capped_sum(done.last().0, 1)
    }
}

/// The index of an item: the one it came with, or that of a known item with its id, or a free one.
pub open spec fn item_index(
    decoder: ResponseDecoderView,
    explicit: Option<u64>,
    item: JsonView,
) -> u64 {
    match explicit {
        Some(index) => index,
        None => match text_member(item, "id"@) {
            Some(id) => match index_of_id(decoder.added_items, id) {
                Some(index) => index,
                None => match index_of_id(decoder.done_items, id) {
                    Some(index) => index,
                    None => free_index(decoder),
                },
            },
            None => free_index(decoder),
        },
    }
}

/// Whether two items differ in a member that both have.
pub open spec fn differ_in(added: JsonView, done: JsonView, key: Seq<char>) -> bool {
    member(added, key) is Some
        && member(done, key) is Some
        && leveled(member(added, key)->Some_0) != leveled(member(done, key)->Some_0)
}

/// The first member by which two items cannot be the same.
pub open spec fn identity_conflict(added: JsonView, done: JsonView) -> Option<Seq<char>> {
    if differ_in(added, done, "type"@) {
        Some("type"@)
    } else if differ_in(added, done, "id"@) {
        Some("id"@)
    } else if differ_in(added, done, "call_id"@) {
        Some("call_id"@)
    } else if differ_in(added, done, "name"@) {
        Some("name"@)
    } else {
        None
    }
}

/// An object with a member set; anything else as it is.
pub open spec fn with_member(json: JsonView, key: Seq<char>, value: JsonView) -> JsonView {
    match json {
        JsonView::Object(members) => JsonView::Object(members.insert(key, value)),
        _ => json,
    }
}

/// A number of an object; zero when it has no such number.
pub open spec fn count_or_zero(json: JsonView, key: Seq<char>) -> u64 {
    match unsigned_member(json, key) {
        Some(n) => n,
        None => 0,
    }
}

/// The tokens that a response reports.
pub open spec fn usage_of(usage: JsonView) -> TokenUsage {
    TokenUsage {
        input_tokens: count_or_zero(usage, "input_tokens"@),
        cached_input_tokens: count_or_zero(
            member_or_null(usage, "input_tokens_details"@),
            "cached_tokens"@,
        ),
        output_tokens: count_or_zero(usage, "output_tokens"@),
        total_tokens: count_or_zero(usage, "total_tokens"@),
    }
}

/// What is reported of the tokens of a response.
pub open spec fn usage_events(response: JsonView) -> Seq<ModelStreamEventView> {
    match member(response, "usage"@) {
        None => Seq::empty(),
        Some(JsonView::Null) => Seq::empty(),
        Some(usage) => seq![ModelStreamEventView::TokenUsage { usage: usage_of(usage) }],
    }
}

/// What may be shown of a response in an error: no output.
pub open spec fn diagnostic(response: JsonView) -> JsonView {
    JsonView::Object(
        none().insert("response_id"@, member_or_null(response, "id"@)).insert(
            "status"@,
            member_or_null(response, "status"@),
        ).insert("incomplete_details"@, member_or_null(response, "incomplete_details"@)).insert(
            "error_code"@,
            member_or_null(member_or_null(response, "error"@), "code"@),
        ).insert("usage"@, member_or_null(response, "usage"@)).insert(
            "max_output_tokens"@,
            member_or_null(response, "max_output_tokens"@),
        ).insert(
            "output_types"@,
            match array_member(response, "output"@) {
                Some(items) => JsonView::Array(
                    items.map_values(|item: JsonView| member_or_null(item, "type"@)),
                ),
                None => JsonView::Null,
            },
        ),
    )
}

/// The class of an error that a server reports.
pub open spec fn error_class(error: JsonView) -> Seq<char> {
    match text_member(error, "code"@) {
        Some(code) => if code == "context_length_exceeded"@ || code == "context_window_exceeded"@ {
            "context_window"@
        } else if code == "insufficient_quota"@ || code == "quota_exceeded"@ {
            "quota"@
        } else if code == "rate_limit_exceeded"@ {
            "rate_limit"@
        } else if code == "server_overloaded"@ || code == "overloaded"@ {
            "overloaded"@
        } else if code == "invalid_request"@ || code == "invalid_request_error"@ {
            "invalid_request"@
        } else {
            "stream"@
        },
        None => "stream"@,
    }
}

/// The first announced item that is not done.
pub open spec fn first_unfinished(
    added: Seq<(u64, JsonView)>,
    done: Seq<(u64, JsonView)>,
) -> Option<u64>
    decreases added.len(),
{
    if added.len() == 0 {
        None
    } else if table_get(done, added[0].0) is None {
        Some(added[0].0)
    } else {
        first_unfinished(added.drop_first(), done)
    }
}

/// A refusal that blames the model.
pub open spec fn model_error(message: Seq<char>) -> core::result::Result<(), AgentErrorView> {
    Err(AgentErrorView::Model(message))
}

/// Whether a terminal event says that the response is complete.
pub open spec fn says_completed(kind: Seq<char>, response: JsonView) -> bool {
    kind == "response.completed"@ && match text_member(response, "status"@) {
        Some(status) => status == "completed"@,
        None => true,
    }
}

/// The answer of a response that is complete. Items that are done count, and not what the
/// terminal event says of them.
pub open spec fn terminal_response(decoder: ResponseDecoderView, response: JsonView) -> core::result::Result<
    ModelResponseView,
    AgentErrorView,
> {
    let shown = compact(diagnostic(response));
    let unfinished = first_unfinished(decoder.added_items, decoder.done_items);
    if decoder.done_items.len() > 0 && unfinished is Some {
        Err(
            AgentErrorView::Model(
                "Responses completed before output item "@ + decimal(unfinished->0 as nat)
                    + " finished; "@ + shown,
            ),
        )
    } else {
        let normalized = if decoder.done_items.len() > 0 {
            with_member(response, "output"@, JsonView::Array(table_items(decoder.done_items)))
        } else {
            response
        };
        match response_of(normalized) {
            Ok(answer) => Ok(answer),
            Err(error) => Err(AgentErrorView::Model(error_text(error) + "; "@ + shown)),
        }
    }
}

/// A response has ended, in one way or another.
pub open spec fn on_terminal(
    decoder: ResponseDecoderView,
    kind: Seq<char>,
    response: Option<JsonView>,
) -> Decoded {
    match response {
        None => Decoded {
            decoder,
            events: Seq::empty(),
            result: model_error("Responses terminal event missing response"@),
        },
        Some(response) => {
            let events = usage_events(response);
            if !says_completed(kind, response) {
                Decoded {
                    decoder,
                    events,
                    result: model_error(
                        "Responses "@ + kind + ": class="@ + error_class(
                            member_or_null(response, "error"@),
                        ) + ", "@ + compact(diagnostic(response)),
                    ),
                }
            } else {
                match terminal_response(decoder, response) {
                    Ok(answer) => Decoded {
                        decoder: ResponseDecoderView { completed: Some(answer), ..decoder },
                        events,
                        result: Ok(()),
                    },
                    Err(error) => Decoded { decoder, events, result: Err(error) },
                }
            }
        },
    }
}

/// A piece of text has come.
pub open spec fn on_text_delta(decoder: ResponseDecoderView, delta: Option<Seq<char>>) -> Decoded {
    match delta {
        None => Decoded {
            decoder,
            events: Seq::empty(),
            result: model_error("Responses text event missing delta"@),
        },
        Some(text) => Decoded {
            decoder,
            events: if text.len() == 0 {
                Seq::empty()
            } else {
                seq![
                    ModelStreamEventView::OutputProgress,
                    ModelStreamEventView::AssistantDelta { text },
                ]
            },
            result: Ok(()),
        },
    }
}

/// A piece of a function call's arguments has come.
pub open spec fn on_arguments_delta(
    decoder: ResponseDecoderView,
    delta: Option<Seq<char>>,
) -> Decoded {
    match delta {
        None => Decoded {
            decoder,
            events: Seq::empty(),
            result: model_error("Responses argument event missing delta"@),
        },
        Some(text) => Decoded {
            decoder,
            events: if text.len() == 0 {
                Seq::empty()
            } else {
                seq![ModelStreamEventView::OutputProgress]
            },
            result: Ok(()),
        },
    }
}

/// An object has a text that is not empty.
pub open spec fn has_text(json: JsonView, key: Seq<char>) -> bool {
    match text_member(json, key) {
        Some(text) => text.len() > 0,
        None => false,
    }
}

/// Whether an announced item is a function call that says which.
pub open spec fn announces_call(item: JsonView) -> bool {
    text_member(item, "type"@) == Some("function_call"@) && (has_text(item, "name"@) || has_text(
        item,
        "call_id"@,
    ))
}

/// An item is announced.
pub open spec fn on_item_added(
    decoder: ResponseDecoderView,
    output_index: Option<u64>,
    item: Option<JsonView>,
) -> Decoded {
    match item {
        None => Decoded {
            decoder,
            events: Seq::empty(),
            result: model_error("Responses output_item.added missing item"@),
        },
        Some(item) => Decoded {
            decoder: ResponseDecoderView {
                added_items: table_put(
                    decoder.added_items,
                    item_index(decoder, output_index, item),
                    item,
                ),
                ..decoder
            },
            events: if announces_call(item) {
                seq![ModelStreamEventView::OutputProgress]
            } else {
                Seq::empty()
            },
            result: Ok(()),
        },
    }
}

/// An item is done.
pub open spec fn on_item_done(
    decoder: ResponseDecoderView,
    output_index: Option<u64>,
    item: Option<JsonView>,
) -> Decoded {
    match item {
        None => Decoded {
            decoder,
            events: Seq::empty(),
            result: model_error("Responses output_item.done missing item"@),
        },
        Some(item) => {
            let index = item_index(decoder, output_index, item);
            let conflict = match table_get(decoder.added_items, index) {
                Some(added) => identity_conflict(added, item),
                None => None,
            };
            match conflict {
                Some(key) => Decoded {
                    decoder,
                    events: Seq::empty(),
                    result: model_error("Responses item identity conflict: "@ + key),
                },
                None => Decoded {
                    decoder: ResponseDecoderView {
                        done_items: table_put(decoder.done_items, index, item),
                        ..decoder
                    },
                    events: Seq::empty(),
                    result: Ok(()),
                },
            }
        },
    }
}

/// The arguments of a function call are whole. A known call is done with them.
pub open spec fn on_arguments_done(
    decoder: ResponseDecoderView,
    event: ResponsesStreamEventView,
) -> Decoded {
    let index = match event.output_index {
        Some(index) => Some(index),
        None => match event.item_id {
            Some(id) => index_of_id(decoder.added_items, id),
            None => None,
        },
    };
    let item = match index {
        Some(index) => table_get(decoder.added_items, index),
        None => None,
    };
    let unchanged = Decoded { decoder, events: Seq::empty(), result: Ok(()) };
    match item {
        None => unchanged,
        Some(item) => if text_member(item, "type"@) != Some("function_call"@) {
            unchanged
        } else if text_member(item, "id"@) is Some && event.item_id is Some && text_member(item, "id"@)
            != event.item_id {
            Decoded { result: model_error("Responses argument item_id mismatch"@), ..unchanged }
        } else {
            match event.arguments {
                None => Decoded {
                    result: model_error("Responses arguments.done missing arguments"@),
                    ..unchanged
                },
                Some(arguments) => Decoded {
                    decoder: ResponseDecoderView {
                        done_items: table_put(
                            decoder.done_items,
                            index->0,
                            with_member(
                                with_member(item, "arguments"@, txt(arguments)),
                                "status"@,
                                txt("completed"@),
                            ),
                        ),
                        ..decoder
                    },
                    ..unchanged
                },
            }
        },
    }
}

/// A text, or a word for the want of one.
pub open spec fn text_or_unknown(text: Option<Seq<char>>) -> Seq<char> {
    match text {
        Some(text) => text,
        None => "unknown"@,
    }
}

/// What an event leads to.
pub open spec fn on_event(
    decoder: ResponseDecoderView,
    event: ResponsesStreamEventView,
) -> Decoded {
    let kind = event.kind;
    if kind == "response.output_text.delta"@ || kind == "response.refusal.delta"@ {
        on_text_delta(decoder, event.delta)
    } else if kind == "response.function_call_arguments.delta"@ {
        on_arguments_delta(decoder, event.delta)
    } else if kind == "response.output_item.added"@ {
        on_item_added(decoder, event.output_index, event.item)
    } else if kind == "response.output_item.done"@ {
        on_item_done(decoder, event.output_index, event.item)
    } else if kind == "response.function_call_arguments.done"@ {
        on_arguments_done(decoder, event)
    } else if kind == "response.completed"@ || kind == "response.failed"@ || kind
        == "response.incomplete"@ {
        on_terminal(decoder, kind, event.response)
    } else if kind == "error"@ {
        Decoded {
            decoder,
            events: Seq::empty(),
            result: model_error(
                "Responses stream error: code="@ + text_or_unknown(event.code) + ", message="@
                    + text_or_unknown(event.message),
            ),
        }
    } else {
        Decoded { decoder, events: Seq::empty(), result: Ok(()) }
    }
}

/// The event that the data of a server-sent event is, where it holds each field once.
pub open spec fn event_read(
    data: Seq<char>,
    document: Option<JsonView>,
) -> Option<ResponsesStreamEventView> {
    match document {
        Some(json) => if is_unambiguous(data, Shape::Event) {
            event_of(json)
        } else {
            None
        },
        None => None,
    }
}

/// What the data of one server-sent event leads to. Where it is a document but no event, `wording`
/// says what is wrong with it.
pub open spec fn on_data(
    decoder: ResponseDecoderView,
    data: Seq<char>,
    wording: Seq<char>,
) -> Decoded {
    if trimmed(data).len() == 0 || trimmed(data) == "[DONE]"@ {
        Decoded { decoder, events: Seq::empty(), result: Ok(()) }
    } else {
        match document_read(data, Shape::Event) {
            Err(error) => Decoded {
                decoder,
                events: Seq::empty(),
                result: model_error("invalid Responses SSE event: "@ + error.message),
            },
            Ok(document) => match event_read(data, document) {
                None => Decoded {
                    decoder,
                    events: Seq::empty(),
                    result: model_error("invalid Responses SSE event: "@ + wording),
                },
                Some(event) => on_event(decoder, event),
            },
        }
    }
}

/// A step was taken: what the decoder holds and what was reported after it, and how it ended.
pub open spec fn is_taken(
    step: Decoded,
    before: Seq<ModelStreamEventView>,
    decoder: ResponseDecoderView,
    events: Seq<ModelStreamEventView>,
    result: core::result::Result<(), AgentErrorView>,
) -> bool {
    &&& decoder == step.decoder
    &&& events == before + step.events
    &&& result == step.result
}

/// The decoder of a Responses stream.
#[derive(Debug, PartialEq, Eq)]
pub struct ResponseDecoder {
    completed: Option<ModelResponse>,
    added_items: ItemTable,
    done_items: ItemTable,
}

impl DeepView for ResponseDecoder {
    type V = ResponseDecoderView;

    closed spec fn deep_view(&self) -> Self::V {
        ResponseDecoderView {
            completed: self.completed.deep_view(),
            added_items: self.added_items.deep_view(),
            done_items: self.done_items.deep_view(),
        }
    }
}

fn find_index_of_id(table: &ItemTable, id: &str) -> (r: Option<u64>)
    ensures
        r == index_of_id(table.deep_view(), id@),
{
    let ghost views = table.deep_view();
    let n: usize = table.len();
    assert(views.skip(0) =~= views);
    for i in 0..n
        invariant
            n == views.len(),
            views == table.deep_view(),
            index_of_id(views, id@) == index_of_id(views.skip(i as int), id@),
    {
        assert(views.skip(i as int).drop_first() =~= views.skip(i + 1));
        assert(views.skip(i as int)[0] == views[i as int]);
        if is_text_member(table.item_at(i), "id", id) {
            return Some(table.index_at(i));
        }
    }
    None
}

/// Whether two items differ in a member that both have.
fn check_member(added: &Json, done: &Json, key: &str) -> (r: bool)
    ensures
        r == differ_in(added.deep_view(), done.deep_view(), key@),
{
    match (added.get(key), done.get(key)) {
        (Some(a), Some(b)) => !a.alike(b),
        _ => false,
    }
}

/// Rejects a done item that cannot be the one that was announced.
fn check_item_identity(added: &Json, done: &Json) -> (r: Result<()>)
    ensures
        outcome_of(r) == (match identity_conflict(added.deep_view(), done.deep_view()) {
            Some(key) => model_error("Responses item identity conflict: "@ + key),
            None => Ok(()),
        }),
{
    let key = if check_member(added, done, "type") {
        "type"
    } else if check_member(added, done, "id") {
        "id"
    } else if check_member(added, done, "call_id") {
        "call_id"
    } else if check_member(added, done, "name") {
        "name"
    } else {
        return Ok(());
    };
    Err(AgentError::Model(glue2("Responses item identity conflict: ", key)))
}

fn set_member(json: Json, key: &str, value: Json) -> (r: Json)
    ensures
        r.deep_view() == with_member(json.deep_view(), key@, value.deep_view()),
{
    match json {
        Json::Object(members) => {
            proof {
                crate::json::lemma_object_view(members);
            }
            Json::object(members.with(key, value))
        },
        other => other,
    }
}

fn count_member(json: &Json, key: &str) -> (r: u64)
    ensures
        r == count_or_zero(json.deep_view(), key@),
{
    match json.get_unsigned(key) {
        Some(n) => n,
        None => 0,
    }
}

fn read_usage(usage: &Json) -> (r: TokenUsage)
    ensures
        r == usage_of(usage.deep_view()),
{
    TokenUsage {
        input_tokens: count_member(usage, "input_tokens"),
        cached_input_tokens: count_member(
            &get_or_null(usage, "input_tokens_details"),
            "cached_tokens",
        ),
        output_tokens: count_member(usage, "output_tokens"),
        total_tokens: count_member(usage, "total_tokens"),
    }
}

/// What may be shown of a response in an error.
fn response_diagnostic(response: &Json) -> (r: Json)
    ensures
        r.deep_view() == diagnostic(response.deep_view()),
{
    let output_types = match response.get_array("output") {
        Some(items) => {
            let ghost want = items.deep_view().map_values(
                |item: JsonView| member_or_null(item, "type"@),
            );
            let mut types: Vec<Json> = Vec::new();
            assert(types.deep_view() =~= want.take(0));
            for i in 0..items.len()
                invariant
                    want == items.deep_view().map_values(
                        |item: JsonView| member_or_null(item, "type"@),
                    ),
                    types.deep_view() == want.take(i as int),
            {
                let ghost before = types.deep_view();
                let kind = get_or_null(&items[i], "type");
                types.push(kind);
                assert(types.deep_view() =~= before.push(kind.deep_view()));
                assert(want[i as int] == kind.deep_view());
                assert(want.take(i + 1) =~= want.take(i as int).push(want[i as int]));
            }
            assert(want.take(items.len() as int) =~= want);
            Json::array(types)
        },
        None => Json::Null,
    };
    Json::object(
        no_members().with("response_id", get_or_null(response, "id")).with(
            "status",
            get_or_null(response, "status"),
        ).with("incomplete_details", get_or_null(response, "incomplete_details")).with(
            "error_code",
            get_or_null(&get_or_null(response, "error"), "code"),
        ).with("usage", get_or_null(response, "usage")).with(
            "max_output_tokens",
            get_or_null(response, "max_output_tokens"),
        ).with("output_types", output_types),
    )
}

/// The class of an error that a server reports.
fn classify_response_error(error: &Json) -> (r: &'static str)
    ensures
        r@ == error_class(error.deep_view()),
{
    match error.get_text("code") {
        Some(code) => {
            let code = code.as_str();
            if same_text(code, "context_length_exceeded")
                || same_text(code, "context_window_exceeded") {
                "context_window"
            } else if same_text(code, "insufficient_quota") || same_text(code, "quota_exceeded") {
                "quota"
            } else if same_text(code, "rate_limit_exceeded") {
                "rate_limit"
            } else if same_text(code, "server_overloaded") || same_text(code, "overloaded") {
                "overloaded"
            } else if same_text(code, "invalid_request") || same_text(code, "invalid_request_error") {
                "invalid_request"
            } else {
                "stream"
            }
        },
        None => "stream",
    }
}

/// Adds a report.
fn report(emitted: &mut Vec<ModelStreamEvent>, event: ModelStreamEvent)
    ensures
        final(emitted).deep_view() == old(emitted).deep_view().push(event.deep_view()),
{
    let ghost before = emitted.deep_view();
    emitted.push(event);
    assert(emitted.deep_view() =~= before.push(event.deep_view()));
}

fn has_some_text(json: &Json, key: &str) -> (r: bool)
    ensures
        r == has_text(json.deep_view(), key@),
{
    match json.get_text(key) {
        Some(text) => !text.as_str().is_empty(),
        None => false,
    }
}

impl ResponseDecoder {
    /// A decoder at the start of a stream.
    pub fn new() -> (r: Self)
        ensures
            r.deep_view() == (ResponseDecoderView {
                completed: None,
                added_items: Seq::empty(),
                done_items: Seq::empty(),
            }),
    {
        ResponseDecoder {
            completed: None,
            added_items: ItemTable::new(),
            done_items: ItemTable::new(),
        }
    }

    /// The index of an item.
    fn item_index(&self, explicit: Option<u64>, item: &Json) -> (r: u64)
        ensures
            r == item_index(self.deep_view(), explicit, item.deep_view()),
    {
        if let Some(index) = explicit {
            return index;
        }
        if let Some(id) = item.get_text("id") {
            if let Some(index) = find_index_of_id(&self.added_items, id.as_str()) {
                return index;
            }
            if let Some(index) = find_index_of_id(&self.done_items, id.as_str()) {
                return index;
            }
        }
        let added: usize = self.added_items.len();
        let done: usize = self.done_items.len();
        if added == 0 && done == 0 {
            return 0;
        }
        if done == 0 {
            return self.added_items.index_at(added - 1).saturating_add(1);
        }
        let last: u64 = self.done_items.index_at(done - 1);
        if added > 0 && self.added_items.index_at(added - 1) >= last {
            return self.added_items.index_at(added - 1).saturating_add(1);
        }
        last.saturating_add(1)
    }

    /// The first announced item that is not done.
    fn unfinished(&self) -> (r: Option<u64>)
        ensures
            r == first_unfinished(self.deep_view().added_items, self.deep_view().done_items),
    {
        let ghost added = self.added_items.deep_view();
        let ghost done = self.done_items.deep_view();
        let n: usize = self.added_items.len();
        assert(added.skip(0) =~= added);
        for i in 0..n
            invariant
                n == added.len(),
                added == self.added_items.deep_view(),
                done == self.done_items.deep_view(),
                first_unfinished(added, done) == first_unfinished(added.skip(i as int), done),
        {
            assert(added.skip(i as int).drop_first() =~= added.skip(i + 1));
            assert(added.skip(i as int)[0] == added[i as int]);
            let index: u64 = self.added_items.index_at(i);
            if self.done_items.get(index).is_none() {
                return Some(index);
            }
        }
        None
    }

    /// The items that are done, in order.
    fn finished_items(&self) -> (r: Vec<Json>)
        ensures
            r.deep_view() == table_items(self.deep_view().done_items),
    {
        let ghost want = table_items(self.done_items.deep_view());
        let mut items: Vec<Json> = Vec::new();
        let n: usize = self.done_items.len();
        assert(items.deep_view() =~= want.take(0));
        for i in 0..n
            invariant
                n == want.len(),
                want == table_items(self.done_items.deep_view()),
                items.deep_view() == want.take(i as int),
        {
            let ghost before = items.deep_view();
            let item = self.done_items.item_at(i).replica();
            items.push(item);
            assert(items.deep_view() =~= before.push(item.deep_view()));
            assert(want.take(i + 1) =~= want.take(i as int).push(want[i as int]));
        }
        assert(want.take(n as int) =~= want);
        items
    }

    /// The answer of a response that is complete.
    fn complete(&self, response: &Json) -> (r: Result<ModelResponse>)
        ensures
            outcome_of(r) == terminal_response(self.deep_view(), response.deep_view()),
    {
        let shown = response_diagnostic(response).to_text();
        let mut normalized = response.replica();
        if self.done_items.len() > 0 {
            if let Some(index) = self.unfinished() {
                return Err(
                    AgentError::Model(
                        glue4(
                            "Responses completed before output item ",
                            decimal_text(index as u128).as_str(),
                            " finished; ",
                            shown.as_str(),
                        ),
                    ),
                );
            }
            normalized = set_member(normalized, "output", Json::array(self.finished_items()));
        }
        match completed_response(&normalized) {
            Ok(answer) => Ok(answer),
            Err(error) => Err(
                AgentError::Model(glue3(error.text().as_str(), "; ", shown.as_str())),
            ),
        }
    }

    /// Takes in a terminal event.
    fn terminal(
        &mut self,
        kind: &str,
        response: Option<Json>,
        emitted: &mut Vec<ModelStreamEvent>,
    ) -> (r: Result<()>)
        ensures
            ({
                let step = on_terminal(old(self).deep_view(), kind@, response.deep_view());
                &&& final(self).deep_view() == step.decoder
                &&& final(emitted).deep_view() == old(emitted).deep_view() + step.events
                &&& outcome_of(r) == step.result
            }),
    {
        let ghost before = emitted.deep_view();
        assert(before + Seq::empty() =~= before);
        let response = match response {
            Some(response) => response,
            None => {
                return Err(
                    AgentError::Model("Responses terminal event missing response".to_owned()),
                );
            },
        };
        match response.get("usage") {
            None => {},
            Some(Json::Null) => {},
            Some(usage) => {
                let usage = read_usage(usage);
                report(emitted, ModelStreamEvent::TokenUsage { usage });
            },
        }
        assert(emitted.deep_view() =~= before + usage_events(response.deep_view()));
        let contradicted = match response.get_text("status") {
            Some(status) => !same_text(status.as_str(), "completed"),
            None => false,
        };
        if !same_text(kind, "response.completed") || contradicted {
            let mut message = glue3("Responses ", kind, ": class=");
            message.append(classify_response_error(&get_or_null(&response, "error")));
            message.append(", ");
            message.append(response_diagnostic(&response).to_text().as_str());
            return Err(AgentError::Model(message));
        }
        match self.complete(&response) {
            Ok(answer) => {
                self.completed = Some(answer);
                Ok(())
            },
            Err(error) => Err(error),
        }
    }

    /// Takes in the end of a function call's arguments.
    fn arguments_done(&mut self, event: ResponsesStreamEvent) -> (r: Result<()>)
        ensures
            ({
                let step = on_arguments_done(old(self).deep_view(), event.deep_view());
                &&& final(self).deep_view() == step.decoder
                &&& step.events == Seq::<ModelStreamEventView>::empty()
                &&& outcome_of(r) == step.result
            }),
    {
        let index = match event.output_index {
            Some(index) => index,
            None => match &event.item_id {
                Some(id) => match find_index_of_id(&self.added_items, id.as_str()) {
                    Some(index) => index,
                    None => return Ok(()),
                },
                None => return Ok(()),
            },
        };
        let item = match self.added_items.get(index) {
            Some(item) => item.replica(),
            None => return Ok(()),
        };
        if !is_text_member(&item, "type", "function_call") {
            return Ok(());
        }
        if let (Some(expected), Some(actual)) = (item.get_text("id"), &event.item_id) {
            if !same_text(expected.as_str(), actual.as_str()) {
                return Err(AgentError::Model("Responses argument item_id mismatch".to_owned()));
            }
        }
        let arguments = match event.arguments {
            Some(arguments) => arguments,
            None => {
                return Err(
                    AgentError::Model("Responses arguments.done missing arguments".to_owned()),
                );
            },
        };
        let done = set_member(
            set_member(item, "arguments", Json::Text(arguments)),
            "status",
            Json::text("completed"),
        );
        self.done_items.insert(index, done);
        Ok(())
    }

    /// Takes in an event, and reports what it brings.
    pub fn event(&mut self, event: ResponsesStreamEvent, emitted: &mut Vec<ModelStreamEvent>) -> (r:
        Result<()>)
        ensures
            ({
                let step = on_event(old(self).deep_view(), event.deep_view());
                &&& final(self).deep_view() == step.decoder
                &&& final(emitted).deep_view() == old(emitted).deep_view() + step.events
                &&& outcome_of(r) == step.result
            }),
    {
        let ghost before = emitted.deep_view();
        assert(before + Seq::empty() =~= before);
        let kind = event.kind.clone();
        let kind = kind.as_str();
        if same_text(kind, "response.output_text.delta")
            || same_text(kind, "response.refusal.delta") {
            return match event.delta {
                Some(text) => {
                    if !text.as_str().is_empty() {
                        report(emitted, ModelStreamEvent::OutputProgress);
                        report(emitted, ModelStreamEvent::AssistantDelta { text });
                        assert(emitted.deep_view() =~= before + seq![
                            ModelStreamEventView::OutputProgress,
                            ModelStreamEventView::AssistantDelta { text: text@ },
                        ]);
                    }
                    Ok(())
                },
                None => Err(AgentError::Model("Responses text event missing delta".to_owned())),
            };
        }
        if same_text(kind, "response.function_call_arguments.delta") {
            return match event.delta {
                Some(text) => {
                    if !text.as_str().is_empty() {
                        report(emitted, ModelStreamEvent::OutputProgress);
                        assert(emitted.deep_view() =~= before + seq![
                            ModelStreamEventView::OutputProgress,
                        ]);
                    }
                    Ok(())
                },
                None => Err(AgentError::Model("Responses argument event missing delta".to_owned())),
            };
        }
        if same_text(kind, "response.output_item.added") {
            return match event.item {
                Some(item) => {
                    let index: u64 = self.item_index(event.output_index, &item);
                    if is_text_member(&item, "type", "function_call")
                        && (has_some_text(&item, "name")
                        || has_some_text(&item, "call_id")) {
                        report(emitted, ModelStreamEvent::OutputProgress);
                        assert(emitted.deep_view() =~= before + seq![
                            ModelStreamEventView::OutputProgress,
                        ]);
                    }
                    self.added_items.insert(index, item);
                    Ok(())
                },
                None => Err(
                    AgentError::Model("Responses output_item.added missing item".to_owned()),
                ),
            };
        }
        if same_text(kind, "response.output_item.done") {
            return match event.item {
                Some(item) => {
                    let index: u64 = self.item_index(event.output_index, &item);
                    if let Some(added) = self.added_items.get(index) {
                        if let Err(error) = check_item_identity(added, &item) {
                            return Err(error);
                        }
                    }
                    self.done_items.insert(index, item);
                    Ok(())
                },
                None => Err(
                    AgentError::Model("Responses output_item.done missing item".to_owned()),
                ),
            };
        }
        if same_text(kind, "response.function_call_arguments.done") {
            return self.arguments_done(event);
        }
        if same_text(kind, "response.completed") || same_text(kind, "response.failed") || same_text(
            kind,
            "response.incomplete",
        ) {
            return self.terminal(kind, event.response, emitted);
        }
        if same_text(kind, "error") {
            let code = match &event.code {
                Some(code) => code.as_str(),
                None => "unknown",
            };
            let message = match &event.message {
                Some(message) => message.as_str(),
                None => "unknown",
            };
            return Err(
                AgentError::Model(
                    glue4("Responses stream error: code=", code, ", message=", message),
                ),
            );
        }
        Ok(())
    }

    /// Takes in the data of one server-sent event, and reports what it brings. What is said of a
    /// document that is no event is left open.
    pub fn data(&mut self, data: &str, emitted: &mut Vec<ModelStreamEvent>) -> (r: Result<()>)
        ensures
            exists|wording: Seq<char>|
                is_taken(
                    #[trigger] on_data(old(self).deep_view(), data@, wording),
                    old(emitted).deep_view(),
                    final(self).deep_view(),
                    final(emitted).deep_view(),
                    outcome_of(r),
                ),
    {
        assert(emitted.deep_view() + Seq::empty() =~= emitted.deep_view());
        let ghost before = self.deep_view();
        let content = trim(data);
        if content.is_empty() || same_text(content, "[DONE]") {
            assert(on_data(before, data@, ""@).result is Ok);
            return Ok(());
        }
        let json = match read_document(data, Shape::Event) {
            Ok(Some(json)) => json,
            Ok(None) => {
                let message = "a field cannot be read";
                assert(on_data(before, data@, message@).result is Err);
                return Err(AgentError::Model(glue2("invalid Responses SSE event: ", message)));
            },
            Err(error) => {
                assert(on_data(before, data@, ""@).result is Err);
                return Err(
                    AgentError::Model(
                        glue2("invalid Responses SSE event: ", error.message.as_str()),
                    ),
                );
            },
        };
        match read_event(&json) {
            Ok(event) => {
                if !unambiguous(data, Shape::Event) {
                    let message = "a field stands twice";
                    assert(on_data(before, data@, message@).result is Err);
                    return Err(AgentError::Model(glue2("invalid Responses SSE event: ", message)));
                }
                assert(on_data(before, data@, ""@) == on_event(before, event.deep_view()));
                self.event(event, emitted)
            },
            Err(message) => {
                assert(on_data(before, data@, message@).result is Err);
                Err(AgentError::Model(glue2("invalid Responses SSE event: ", message.as_str())))
            },
        }
    }

    /// The answer, where the stream has completed it.
    pub fn completed(&self) -> (r: Option<&ModelResponse>)
        ensures
            r.deep_view() == self.deep_view().completed,
    {
        self.completed.as_ref()
    }

    /// The answer at the end of the stream, which must have completed it.
    pub fn finish(self) -> (r: Result<ModelResponse>)
        ensures
            outcome_of(r) == (match self.deep_view().completed {
                Some(answer) => Ok::<ModelResponseView, AgentErrorView>(answer),
                None => Err(AgentErrorView::Model("stream closed before response.completed"@)),
            }),
    {
        match self.completed {
            Some(answer) => Ok(answer),
            None => Err(AgentError::Model("stream closed before response.completed".to_owned())),
        }
    }
}

} // verus!
