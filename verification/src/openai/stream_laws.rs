//! What the events of a stream do to what was decoded.

use crate::json::{text_member, JsonView, NumberView};
use crate::json_laws::{equals, law_values_compare_by_what_they_hold};
use crate::kernel::events::TokenUsage;
use crate::kernel::model::ModelStreamEventView;
use crate::openai::decoder::{
    event_read, first_unfinished, free_index, identity_conflict, index_of_id, item_index, on_data,
    on_event, ResponseDecoderView,
};
use crate::openai::item_table::{indexes_ascend, table_get, table_items};
use crate::openai::laws::law_item_is_found_where_it_was_put;
use crate::openai::response_laws::{has, tells};
use crate::openai::responses::{event_of, response_of, ResponsesStreamEventView};
use crate::prune::document_read;
use crate::runtime::error::AgentErrorView;
use crate::shape::Shape;
use crate::text::trimmed;
use vstd::prelude::*;

verus! {

proof fn lemma_event_kinds()
    ensures
        "response.output_text.delta"@ != "response.function_call_arguments.delta"@,
        "response.refusal.delta"@ != "response.function_call_arguments.delta"@,
        "response.output_item.added"@ != "response.output_text.delta"@,
        "response.output_item.added"@ != "response.refusal.delta"@,
        "response.output_item.added"@ != "response.function_call_arguments.delta"@,
        "response.output_item.done"@ != "response.output_text.delta"@,
        "response.output_item.done"@ != "response.refusal.delta"@,
        "response.output_item.done"@ != "response.function_call_arguments.delta"@,
        "response.output_item.done"@ != "response.output_item.added"@,
        "response.function_call_arguments.done"@ != "response.output_text.delta"@,
        "response.function_call_arguments.done"@ != "response.refusal.delta"@,
        "response.function_call_arguments.done"@ != "response.function_call_arguments.delta"@,
        "response.function_call_arguments.done"@ != "response.output_item.added"@,
        "response.function_call_arguments.done"@ != "response.output_item.done"@,
{
    reveal_strlit("response.output_text.delta");
    reveal_strlit("response.refusal.delta");
    reveal_strlit("response.function_call_arguments.delta");
    reveal_strlit("response.output_item.added");
    reveal_strlit("response.output_item.done");
    reveal_strlit("response.function_call_arguments.done");
    assert("response.output_text.delta"@.len() == 26);
    assert("response.refusal.delta"@.len() == 22);
    assert("response.function_call_arguments.delta"@.len() == 38);
    assert("response.output_item.added"@.len() == 26);
    assert("response.output_item.added"@[16] != "response.output_text.delta"@[16]);
    assert("response.output_item.done"@.len() == 25);
    assert("response.function_call_arguments.done"@.len() == 37);
}

/// The kinds of the events that end a response are none of the others.
pub proof fn lemma_last_kinds(kind: Seq<char>)
    ensures
        kind == "response.completed"@ || kind == "response.failed"@ || kind
                == "response.incomplete"@ || kind == "error"@ ==> kind
                != "response.output_text.delta"@ && kind != "response.refusal.delta"@ && kind
                != "response.function_call_arguments.delta"@ && kind != "response.output_item.added"@
                && kind != "response.output_item.done"@ && kind
                != "response.function_call_arguments.done"@,
        "error"@ != "response.completed"@,
        "error"@ != "response.failed"@,
        "error"@ != "response.incomplete"@,
        "response.failed"@ != "response.completed"@,
        "response.incomplete"@ != "response.completed"@,
{
    reveal_strlit("response.output_text.delta");
    reveal_strlit("response.refusal.delta");
    reveal_strlit("response.function_call_arguments.delta");
    reveal_strlit("response.output_item.added");
    reveal_strlit("response.output_item.done");
    reveal_strlit("response.function_call_arguments.done");
    reveal_strlit("response.completed");
    reveal_strlit("response.failed");
    reveal_strlit("response.incomplete");
    reveal_strlit("error");
    assert("response.completed"@.len() == 18);
    assert("response.failed"@.len() == 15);
    assert("response.incomplete"@.len() == 19);
    assert("error"@.len() == 5);
    assert("response.output_text.delta"@.len() == 26);
    assert("response.refusal.delta"@.len() == 22);
    assert("response.function_call_arguments.delta"@.len() == 38);
    assert("response.output_item.added"@.len() == 26);
    assert("response.output_item.done"@.len() == 25);
    assert("response.function_call_arguments.done"@.len() == 37);
}

/// A piece of the answer, or of a refusal, is passed on as it came, behind the news that there is
/// progress. A piece of arguments is progress and nothing more. An empty piece is nothing, and a
/// piece that is missing is an error. What was decoded stays.
pub proof fn law_pieces_are_passed_on(
    decoder: ResponseDecoderView,
    event: ResponsesStreamEventView,
)
    requires
        event.kind == "response.output_text.delta"@ || event.kind == "response.refusal.delta"@
            || event.kind == "response.function_call_arguments.delta"@,
    ensures
        ({
            let step = on_event(decoder, event);
            &&& step.decoder == decoder
            &&& step.result is Ok <==> event.delta is Some
            &&& step.events == match event.delta {
                Some(text) => if text.len() == 0 {
                    seq![]
                } else if event.kind == "response.function_call_arguments.delta"@ {
                    seq![ModelStreamEventView::OutputProgress]
                } else {
                    seq![
                        ModelStreamEventView::OutputProgress,
                        ModelStreamEventView::AssistantDelta { text },
                    ]
                },
                None => seq![],
            }
        }),
{
    lemma_event_kinds();
}

/// An index at which a table has an item with an id, before any other with it.
pub open spec fn is_known_at(table: Seq<(u64, JsonView)>, id: Seq<char>, index: u64) -> bool {
    exists|i: int|
        0 <= i < table.len() && (#[trigger] table[i]).0 == index && tells(table[i].1, "id"@, id)
            && forall|j: int| 0 <= j < i ==> !tells((#[trigger] table[j]).1, "id"@, id)
}

/// A table has no item with an id.
pub open spec fn is_unknown(table: Seq<(u64, JsonView)>, id: Seq<char>) -> bool {
    forall|i: int| 0 <= i < table.len() ==> !tells((#[trigger] table[i]).1, "id"@, id)
}

/// An index behind all of a table, as long as there is one.
pub open spec fn is_behind(table: Seq<(u64, JsonView)>, index: u64) -> bool {
    forall|i: int| 0 <= i < table.len() ==> (#[trigger] table[i]).0 < index || index == u64::MAX
}

/// The place of an item: where it says it is, else where an item with its id is known, else behind
/// all others.
pub open spec fn is_place(
    decoder: ResponseDecoderView,
    explicit: Option<u64>,
    item: JsonView,
    index: u64,
) -> bool {
    if explicit is Some {
        index == explicit->Some_0
    } else {
        ||| exists|id: Seq<char>| #[trigger]
            tells(item, "id"@, id) && {
                ||| is_known_at(decoder.added_items, id, index)
                ||| is_unknown(decoder.added_items, id) && is_known_at(
                    decoder.done_items,
                    id,
                    index,
                )
            }
        ||| is_behind(decoder.added_items, index) && is_behind(decoder.done_items, index)
            && forall|id: Seq<char>| #[trigger]
            tells(item, "id"@, id) ==> is_unknown(decoder.added_items, id) && is_unknown(
                decoder.done_items,
                id,
            )
    }
}

proof fn lemma_known(table: Seq<(u64, JsonView)>, id: Seq<char>)
    ensures
        match index_of_id(table, id) {
            Some(index) => is_known_at(table, id, index),
            None => is_unknown(table, id),
        },
    decreases table.len(),
{
    if table.len() > 0 {
        let rest = table.drop_first();
        if tells(table[0].1, "id"@, id) {
            assert(table[0].0 == index_of_id(table, id)->Some_0);
        } else {
            lemma_known(rest, id);
            match index_of_id(rest, id) {
                Some(index) => {
                    let i = choose|i: int|
                        0 <= i < rest.len() && (#[trigger] rest[i]).0 == index && tells(
                            rest[i].1,
                            "id"@,
                            id,
                        ) && forall|j: int|
                            0 <= j < i ==> !tells((#[trigger] rest[j]).1, "id"@, id);
                    assert(table[i + 1] == rest[i]);
                    assert forall|j: int| 0 <= j < i + 1 implies !tells(
                        (#[trigger] table[j]).1,
                        "id"@,
                        id,
                    ) by {
                        if j > 0 {
                            assert(rest[j - 1] == table[j]);
                        }
                    }
                },
                None => {
                    assert forall|j: int| 0 <= j < table.len() implies !tells(
                        (#[trigger] table[j]).1,
                        "id"@,
                        id,
                    ) by {
                        if j > 0 {
                            assert(rest[j - 1] == table[j]);
                        }
                    }
                },
            }
        }
    }
}

proof fn lemma_place(decoder: ResponseDecoderView, explicit: Option<u64>, item: JsonView)
    requires
        indexes_ascend(decoder.added_items),
        indexes_ascend(decoder.done_items),
    ensures
        is_place(decoder, explicit, item, item_index(decoder, explicit, item)),
{
    if explicit is None {
        let free = free_index(decoder);
        let (added, done) = (decoder.added_items, decoder.done_items);
        assert forall|i: int| 0 <= i < added.len() implies (#[trigger] added[i]).0 < free || free
            == u64::MAX by {
            assert(added[i].0 <= added[added.len() - 1].0);
        }
        assert forall|i: int| 0 <= i < done.len() implies (#[trigger] done[i]).0 < free || free
            == u64::MAX by {
            assert(done[i].0 <= done[done.len() - 1].0);
        }
        match text_member(item, "id"@) {
            Some(id) => {
                assert(tells(item, "id"@, id));
                lemma_known(added, id);
                lemma_known(done, id);
            },
            None => {},
        }
    }
}

/// An object has a text under a key, and it is not empty.
pub open spec fn names_something(json: JsonView, key: Seq<char>) -> bool {
    exists|text: Seq<char>| #[trigger] tells(json, key, text) && text.len() > 0
}

/// An announced item is kept at its place, and every other stays. A call that says which it is, is
/// news of progress. Without an item there is an error.
pub proof fn law_announced_item_is_kept(
    decoder: ResponseDecoderView,
    event: ResponsesStreamEventView,
)
    requires
        indexes_ascend(decoder.added_items),
        indexes_ascend(decoder.done_items),
        event.kind == "response.output_item.added"@,
    ensures
        ({
            let step = on_event(decoder, event);
            match event.item {
                None => step.result is Err && step.decoder == decoder && step.events.len() == 0,
                Some(item) => {
                    &&& step.result is Ok
                    &&& step.decoder.completed == decoder.completed
                    &&& step.decoder.done_items == decoder.done_items
                    &&& exists|index: u64| #[trigger]
                        is_place(decoder, event.output_index, item, index) && table_get(
                            step.decoder.added_items,
                            index,
                        ) == Some(item) && forall|other: u64|
                            other != index ==> #[trigger] table_get(step.decoder.added_items, other)
                                == table_get(decoder.added_items, other)
                    &&& step.events == if tells(item, "type"@, "function_call"@) && (
                    names_something(item, "name"@) || names_something(item, "call_id"@)) {
                        seq![ModelStreamEventView::OutputProgress]
                    } else {
                        seq![]
                    }
                },
            }
        }),
{
    lemma_event_kinds();
    if event.item is Some {
        let item = event.item->Some_0;
        lemma_place(decoder, event.output_index, item);
        let index = item_index(decoder, event.output_index, item);
        law_item_is_found_where_it_was_put(decoder.added_items, index, item);
        assert(is_place(decoder, event.output_index, item, index));
        assert(crate::openai::decoder::has_text(item, "name"@) <==> names_something(
            item,
            "name"@,
        )) by {
            if crate::openai::decoder::has_text(item, "name"@) {
                assert(tells(item, "name"@, item->Object_0["name"@]->Text_0));
            }
        }
        assert(crate::openai::decoder::has_text(item, "call_id"@) <==> names_something(
            item,
            "call_id"@,
        )) by {
            if crate::openai::decoder::has_text(item, "call_id"@) {
                assert(tells(item, "call_id"@, item->Object_0["call_id"@]->Text_0));
            }
        }
    }
}

/// Two items have different values under a key.
pub open spec fn clash(a: JsonView, b: JsonView, key: Seq<char>) -> bool {
    &&& a is Object && a->Object_0.contains_key(key)
    &&& b is Object && b->Object_0.contains_key(key)
    &&& !equals(a->Object_0[key], b->Object_0[key])
}

/// Two items can be the same: neither their type nor their id, call or name differ.
pub open spec fn can_be_same(a: JsonView, b: JsonView) -> bool {
    !clash(a, b, "type"@) && !clash(a, b, "id"@) && !clash(a, b, "call_id"@) && !clash(
        a,
        b,
        "name"@,
    )
}

proof fn lemma_identity(a: JsonView, b: JsonView)
    ensures
        identity_conflict(a, b) is None <==> can_be_same(a, b),
        identity_conflict(a, b) matches Some(key) ==> clash(a, b, key),
{
    if a is Object && b is Object {
        law_values_compare_by_what_they_hold(a->Object_0["type"@], b->Object_0["type"@]);
        law_values_compare_by_what_they_hold(a->Object_0["id"@], b->Object_0["id"@]);
        law_values_compare_by_what_they_hold(a->Object_0["call_id"@], b->Object_0["call_id"@]);
        law_values_compare_by_what_they_hold(a->Object_0["name"@], b->Object_0["name"@]);
    }
}

/// An item that is done is kept at its place, and every other stays, unless it cannot be the one
/// that was announced there. Then, and without an item, there is an error and nothing changes.
pub proof fn law_done_item_is_kept(
    decoder: ResponseDecoderView,
    event: ResponsesStreamEventView,
)
    requires
        indexes_ascend(decoder.added_items),
        indexes_ascend(decoder.done_items),
        event.kind == "response.output_item.done"@,
    ensures
        ({
            let step = on_event(decoder, event);
            &&& step.events.len() == 0
            &&& step.result is Err ==> step.decoder == decoder
            &&& event.item is None ==> step.result is Err
            &&& event.item matches Some(item) ==> exists|index: u64| #[trigger]
                is_place(decoder, event.output_index, item, index) && {
                    let fits = table_get(decoder.added_items, index) matches Some(added)
                        ==> can_be_same(added, item);
                    &&& step.result is Ok <==> fits
                    &&& fits ==> {
                        &&& step.decoder.completed == decoder.completed
                        &&& step.decoder.added_items == decoder.added_items
                        &&& table_get(step.decoder.done_items, index) == Some(item)
                        &&& forall|other: u64|
                            other != index ==> #[trigger] table_get(step.decoder.done_items, other)
                                == table_get(decoder.done_items, other)
                    }
                }
        }),
{
    lemma_event_kinds();
    if event.item is Some {
        let item = event.item->Some_0;
        lemma_place(decoder, event.output_index, item);
        let index = item_index(decoder, event.output_index, item);
        law_item_is_found_where_it_was_put(decoder.done_items, index, item);
        assert(is_place(decoder, event.output_index, item, index));
        if table_get(decoder.added_items, index) is Some {
            lemma_identity(table_get(decoder.added_items, index)->Some_0, item);
        }
    }
}

/// The index of the call whose arguments are whole: the one that is told, or that of the announced
/// item with the id that is told.
pub open spec fn is_call_place(
    decoder: ResponseDecoderView,
    event: ResponsesStreamEventView,
    index: u64,
) -> bool {
    if event.output_index is Some {
        event.output_index == Some(index)
    } else {
        event.item_id is Some && is_known_at(decoder.added_items, event.item_id->Some_0, index)
    }
}

/// An announced call at the place of an event.
pub open spec fn is_announced_call(
    decoder: ResponseDecoderView,
    event: ResponsesStreamEventView,
    index: u64,
    item: JsonView,
) -> bool {
    is_call_place(decoder, event, index) && table_get(decoder.added_items, index) == Some(item)
        && tells(item, "type"@, "function_call"@)
}

/// An event speaks of another item than the one at its place.
pub open spec fn speaks_of_another(event: ResponsesStreamEventView, item: JsonView) -> bool {
    event.item_id matches Some(id) && exists|other: Seq<char>| #[trigger]
        tells(item, "id"@, other) && other != id
}

/// A call whose arguments are whole is done: it is the one that was announced, with these arguments
/// and completed. Where no such call was announced nothing happens, and where the event speaks of
/// another item or has no arguments there is an error.
pub proof fn law_whole_arguments_finish_the_call(
    decoder: ResponseDecoderView,
    event: ResponsesStreamEventView,
    index: u64,
    item: JsonView,
)
    requires
        indexes_ascend(decoder.added_items),
        indexes_ascend(decoder.done_items),
        event.kind == "response.function_call_arguments.done"@,
    ensures
        on_event(decoder, event).events.len() == 0,
        is_announced_call(decoder, event, index, item) ==> {
            let step = on_event(decoder, event);
            if speaks_of_another(event, item) || event.arguments is None {
                step.result is Err && step.decoder == decoder
            } else {
                &&& step.result is Ok
                &&& step.decoder.completed == decoder.completed
                &&& step.decoder.added_items == decoder.added_items
                &&& table_get(step.decoder.done_items, index) == Some(
                    JsonView::Object(
                        item->Object_0.insert(
                            "arguments"@,
                            JsonView::Text(event.arguments->Some_0),
                        ).insert("status"@, JsonView::Text("completed"@)),
                    ),
                )
                &&& forall|other: u64|
                    other != index ==> #[trigger] table_get(step.decoder.done_items, other)
                        == table_get(decoder.done_items, other)
            }
        },
        (forall|i: u64, call: JsonView| !#[trigger] is_announced_call(decoder, event, i, call))
            ==> on_event(decoder, event).result is Ok && on_event(decoder, event).decoder == decoder,
{
    lemma_event_kinds();
    let found = match event.output_index {
        Some(index) => Some(index),
        None => match event.item_id {
            Some(id) => index_of_id(decoder.added_items, id),
            None => None,
        },
    };
    if event.item_id is Some {
        lemma_known(decoder.added_items, event.item_id->Some_0);
    }
    if found is Some {
        let at = found->Some_0;
        assert(is_call_place(decoder, event, at));
        if is_call_place(decoder, event, index) && event.output_index is None {
            lemma_one_place(decoder.added_items, event.item_id->Some_0, at, index);
        }
        if table_get(decoder.added_items, at) is Some {
            let call = table_get(decoder.added_items, at)->Some_0;
            assert(tells(call, "type"@, "function_call"@) ==> is_announced_call(
                decoder,
                event,
                at,
                call,
            ));
            if text_member(call, "id"@) is Some {
                assert(tells(call, "id"@, text_member(call, "id"@)->Some_0));
            }
            if event.arguments is Some {
                let done = JsonView::Object(
                    call->Object_0.insert(
                        "arguments"@,
                        JsonView::Text(event.arguments->Some_0),
                    ).insert("status"@, JsonView::Text("completed"@)),
                );
                law_item_is_found_where_it_was_put(decoder.done_items, at, done);
            }
        }
    }
}

proof fn lemma_one_place(table: Seq<(u64, JsonView)>, id: Seq<char>, a: u64, b: u64)
    requires
        is_known_at(table, id, a),
        is_known_at(table, id, b),
    ensures
        a == b,
{
    let i = choose|i: int|
        0 <= i < table.len() && (#[trigger] table[i]).0 == a && tells(table[i].1, "id"@, id)
            && forall|j: int| 0 <= j < i ==> !tells((#[trigger] table[j]).1, "id"@, id);
    let k = choose|k: int|
        0 <= k < table.len() && (#[trigger] table[k]).0 == b && tells(table[k].1, "id"@, id)
            && forall|j: int| 0 <= j < k ==> !tells((#[trigger] table[j]).1, "id"@, id);
    if i < k {
        assert(tells(table[i].1, "id"@, id));
    }
    if k < i {
        assert(tells(table[k].1, "id"@, id));
    }
}

/// A count under a key, which is zero where there is none.
pub open spec fn counts(json: JsonView, key: Seq<char>, n: u64) -> bool {
    ||| has(json, key, JsonView::Number(NumberView::Unsigned(n)))
    ||| n == 0 && forall|m: u64| !#[trigger] has(json, key, JsonView::Number(NumberView::Unsigned(m)))
}

/// The tokens that a response tells of: those of the input, of these the cached ones, of the output,
/// and all.
pub open spec fn tells_usage(usage: JsonView, tokens: TokenUsage) -> bool {
    &&& counts(usage, "input_tokens"@, tokens.input_tokens)
    &&& counts(usage, "output_tokens"@, tokens.output_tokens)
    &&& counts(usage, "total_tokens"@, tokens.total_tokens)
    &&& exists|details: JsonView| #[trigger]
        counts(details, "cached_tokens"@, tokens.cached_input_tokens) && (has(
            usage,
            "input_tokens_details"@,
            details,
        ) || details is Null && forall|other: JsonView|
            !#[trigger] has(usage, "input_tokens_details"@, other))
}

proof fn lemma_counts(json: JsonView, key: Seq<char>)
    ensures
        counts(json, key, crate::openai::decoder::count_or_zero(json, key)),
{
    if json is Object && json->Object_0.contains_key(key) && json->Object_0[key] is Number {
        let number = json->Object_0[key]->Number_0;
        if number is Unsigned {
            assert(has(
                json,
                key,
                JsonView::Number(NumberView::Unsigned(number->Unsigned_0)),
            ));
        }
    }
}

/// A response that ended tells the tokens it took, whether it ended well or not.
pub proof fn law_usage_is_reported(decoder: ResponseDecoderView, event: ResponsesStreamEventView)
    requires
        event.kind == "response.completed"@ || event.kind == "response.failed"@ || event.kind
            == "response.incomplete"@,
    ensures
        ({
            let events = on_event(decoder, event).events;
            let usage = event.response->Some_0->Object_0["usage"@];
            if event.response is Some && has(event.response->Some_0, "usage"@, usage) && !(
            usage is Null) {
                &&& events.len() == 1
                &&& events[0] is TokenUsage
                &&& tells_usage(usage, events[0]->TokenUsage_usage)
            } else {
                events.len() == 0
            }
        }),
{
    lemma_last_kinds(event.kind);
    if event.response is Some {
        let usage = event.response->Some_0->Object_0["usage"@];
        let details = crate::openai::responses::member_or_null(usage, "input_tokens_details"@);
        lemma_counts(usage, "input_tokens"@);
        lemma_counts(usage, "output_tokens"@);
        lemma_counts(usage, "total_tokens"@);
        lemma_counts(details, "cached_tokens"@);
        if usage is Object && usage->Object_0.contains_key("input_tokens_details"@) {
            assert(has(usage, "input_tokens_details"@, details));
        }
        let tokens = crate::openai::decoder::usage_of(usage);
        assert(counts(details, "cached_tokens"@, tokens.cached_input_tokens));
        assert(tells_usage(usage, tokens));
    }
}

/// An announced item is done: there is a done one at its index.
pub open spec fn all_done(decoder: ResponseDecoderView) -> bool {
    forall|i: int|
        0 <= i < decoder.added_items.len() ==> table_get(
            decoder.done_items,
            (#[trigger] decoder.added_items[i]).0,
        ) is Some
}

proof fn lemma_unfinished(added: Seq<(u64, JsonView)>, done: Seq<(u64, JsonView)>)
    ensures
        first_unfinished(added, done) is None <==> forall|i: int|
            0 <= i < added.len() ==> table_get(done, (#[trigger] added[i]).0) is Some,
    decreases added.len(),
{
    if added.len() > 0 {
        let rest = added.drop_first();
        lemma_unfinished(rest, done);
        if first_unfinished(added, done) is None {
            assert forall|i: int| 0 <= i < added.len() implies table_get(
                done,
                (#[trigger] added[i]).0,
            ) is Some by {
                if i > 0 {
                    assert(rest[i - 1] == added[i]);
                }
            }
        }
        if forall|i: int| 0 <= i < added.len() ==> table_get(done, (#[trigger] added[i]).0) is Some {
            assert(table_get(done, added[0].0) is Some);
            assert forall|i: int| 0 <= i < rest.len() implies table_get(
                done,
                (#[trigger] rest[i]).0,
            ) is Some by {
                assert(rest[i] == added[i + 1]);
            }
        }
    }
}

/// A response that ended has an answer where it says that it is complete, no item was left unfinished
/// among those that are done, and its items can be read; the done items take the place of its output.
/// Any other end is an error, and leaves everything as it was.
pub proof fn law_ended_response_is_answered(
    decoder: ResponseDecoderView,
    event: ResponsesStreamEventView,
)
    requires
        event.kind == "response.completed"@ || event.kind == "response.failed"@ || event.kind
            == "response.incomplete"@,
    ensures
        ({
            let step = on_event(decoder, event);
            let response = event.response->Some_0;
            let output = if decoder.done_items.len() > 0 && response is Object {
                JsonView::Object(
                    response->Object_0.insert(
                        "output"@,
                        JsonView::Array(
                            Seq::new(
                                decoder.done_items.len(),
                                |i: int| decoder.done_items[i].1,
                            ),
                        ),
                    ),
                )
            } else {
                response
            };
            let complete = event.kind == "response.completed"@ && event.response is Some && forall|
                status: Seq<char>,
            | #[trigger]
                tells(response, "status"@, status) ==> status == "completed"@;
            let whole = decoder.done_items.len() == 0 || all_done(decoder);
            &&& step.result is Ok <==> complete && whole && response_of(output) is Ok
            &&& step.result is Ok ==> step.decoder == (ResponseDecoderView {
                completed: Some(response_of(output)->Ok_0),
                ..decoder
            })
            &&& step.result is Err ==> step.decoder == decoder && step.result->Err_0 is Model
        }),
{
    lemma_last_kinds(event.kind);
    lemma_unfinished(decoder.added_items, decoder.done_items);
    if event.response is Some {
        let response = event.response->Some_0;
        if response is Object && response->Object_0.contains_key("status"@)
            && response->Object_0["status"@] is Text {
            assert(tells(response, "status"@, response->Object_0["status"@]->Text_0));
        }
        assert(table_items(decoder.done_items) =~= Seq::new(
            decoder.done_items.len(),
            |i: int| decoder.done_items[i].1,
        ));
    }
}

/// An error of the stream is told with its code and its message, and an event of a kind that means
/// nothing here changes nothing.
pub proof fn law_other_events_change_nothing(
    decoder: ResponseDecoderView,
    event: ResponsesStreamEventView,
)
    requires
        event.kind != "response.output_text.delta"@,
        event.kind != "response.refusal.delta"@,
        event.kind != "response.function_call_arguments.delta"@,
        event.kind != "response.output_item.added"@,
        event.kind != "response.output_item.done"@,
        event.kind != "response.function_call_arguments.done"@,
        event.kind != "response.completed"@,
        event.kind != "response.failed"@,
        event.kind != "response.incomplete"@,
    ensures
        ({
            let step = on_event(decoder, event);
            &&& step.decoder == decoder
            &&& step.events.len() == 0
            &&& event.kind != "error"@ ==> step.result is Ok
            &&& event.kind == "error"@ ==> step.result == Err::<(), AgentErrorView>(
                AgentErrorView::Model(
                    "Responses stream error: code="@ + (if event.code is Some {
                        event.code->Some_0
                    } else {
                        "unknown"@
                    }) + ", message="@ + (if event.message is Some {
                        event.message->Some_0
                    } else {
                        "unknown"@
                    }),
                ),
            )
        }),
{
}

/// A value under a key that may be left out or be null.
pub open spec fn may_have(json: JsonView, key: Seq<char>, value: Option<JsonView>) -> bool {
    match value {
        Some(value) => has(json, key, value) && !(value is Null),
        None => forall|other: JsonView| #[trigger] has(json, key, other) ==> other is Null,
    }
}

/// A text under a key that may be left out or be null.
pub open spec fn may_tell(json: JsonView, key: Seq<char>, text: Option<Seq<char>>) -> bool {
    may_have(
        json,
        key,
        match text {
            Some(text) => Some(JsonView::Text(text)),
            None => None,
        },
    )
}

/// An event is read from an object: each of its parts is what the object has under the name of the
/// part, and only the kind must be there.
pub proof fn law_event_is_read_by_name(json: JsonView, event: ResponsesStreamEventView)
    requires
        json is Object,
    ensures
        event_of(json) == Some(event) <==> {
            &&& tells(json, "type"@, event.kind)
            &&& may_have(json, "response"@, event.response)
            &&& may_have(json, "item"@, event.item)
            &&& may_tell(json, "item_id"@, event.item_id)
            &&& may_have(
                json,
                "output_index"@,
                match event.output_index {
                    Some(n) => Some(JsonView::Number(NumberView::Unsigned(n))),
                    None => None,
                },
            )
            &&& may_tell(json, "delta"@, event.delta)
            &&& may_tell(json, "arguments"@, event.arguments)
            &&& may_tell(json, "code"@, event.code)
            &&& may_tell(json, "message"@, event.message)
        },
{
    lemma_value(json, "response"@);
    lemma_value(json, "item"@);
    lemma_value(json, "item_id"@);
    lemma_value(json, "output_index"@);
    lemma_value(json, "delta"@);
    lemma_value(json, "arguments"@);
    lemma_value(json, "code"@);
    lemma_value(json, "message"@);
}

proof fn lemma_value(json: JsonView, key: Seq<char>)
    requires
        json is Object,
    ensures
        json->Object_0.contains_key(key) ==> has(json, key, json->Object_0[key]),
{
}

/// The data of a server-sent event that is blank or says that the stream is done is nothing; any
/// other is the event that it holds.
pub proof fn law_data_is_the_event_it_holds(
    decoder: ResponseDecoderView,
    data: Seq<char>,
    wording: Seq<char>,
)
    ensures
        ({
            let step = on_data(decoder, data, wording);
            if trimmed(data) == seq!['[', 'D', 'O', 'N', 'E', ']'] || trimmed(data).len() == 0 {
                step.decoder == decoder && step.events.len() == 0 && step.result is Ok
            } else {
                match document_read(data, Shape::Event) {
                    Ok(document) => match event_read(data, document) {
                        Some(event) => step == on_event(decoder, event),
                        None => step.decoder == decoder && step.events.len() == 0 && step.result
                            is Err,
                    },
                    Err(_) => step.decoder == decoder && step.events.len() == 0 && step.result
                        is Err,
                }
            }
        }),
{
    reveal_strlit("[DONE]");
    assert("[DONE]"@ =~= seq!['[', 'D', 'O', 'N', 'E', ']']);
}

} // verus!
