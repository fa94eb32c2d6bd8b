//! Laws of the Responses protocol.

use crate::document::is_read_as;
use crate::json::{compact, text_member, JsonView};
use crate::kernel::model::ModelFunctionCallView;
use crate::kernel::projection::ChatMessageView;
use crate::openai::decoder::{
    on_event, says_completed, terminal_response, with_member, ResponseDecoderView,
};
use crate::openai::item_table::{
    indexes_ascend, lemma_put_ascends, table_get, table_items, table_put,
};
use crate::openai::responses::{
    call_item, call_with, input_items, message_items, response_of, ResponsesStreamEventView,
};
use crate::runtime::error::AgentErrorView;
use crate::spelling::{
    depth_limit, in_order, is_plain_json, lemma_in_order_is_compact, lemma_plain_in_order, meant,
};
use vstd::prelude::*;

verus! {

/// An answer that is sent back with its continuation is sent as the very items that the model gave,
/// each once and in their order; its text and its calls are not sent again.
pub proof fn law_continuation_is_replayed(response: JsonView)
    requires
        response_of(response) is Ok,
    ensures
        response_of(response)->Ok_0 is Assistant,
        ({
            let answer = response_of(response)->Ok_0;
            let message = ChatMessageView::Assistant {
                content: answer->Assistant_text,
                tool_calls: answer->Assistant_function_calls,
                continuation: answer->Assistant_continuation,
            };
            &&& response is Object
            &&& response->Object_0.contains_key("output"@)
            &&& response->Object_0["output"@] is Array
            &&& message_items(message) == Ok::<Seq<JsonView>, AgentErrorView>(
                response->Object_0["output"@]->Array_0,
            )
        }),
{
}

/// Where items were done, the answer is made of them, in the order of their indexes, whatever the
/// last event says of the output.
pub proof fn law_done_items_win(decoder: ResponseDecoderView, response: JsonView)
    requires
        decoder.done_items.len() > 0,
        terminal_response(decoder, response) is Ok,
    ensures
        ({
            let answer = terminal_response(decoder, response)->Ok_0;
            &&& answer is Assistant
            &&& answer->Assistant_continuation matches Some(continuation) && continuation.payload
                == JsonView::Array(table_items(decoder.done_items))
        }),
{
    let normalized = with_member(
        response,
        "output"@,
        JsonView::Array(table_items(decoder.done_items)),
    );
    assert(response_of(normalized) is Ok);
    assert(response is Object);
    assert(normalized->Object_0["output"@] == JsonView::Array(table_items(decoder.done_items)));
}

proof fn lemma_put_get(table: Seq<(u64, JsonView)>, index: u64, item: JsonView, other: u64)
    requires
        indexes_ascend(table),
    ensures
        table_get(table_put(table, index, item), other) == if other == index {
            Some(item)
        } else {
            table_get(table, other)
        },
    decreases table.len(),
{
    let put = table_put(table, index, item);
    if table.len() == 0 || table.last().0 < index {
        assert(put.drop_last() =~= table);
        if other == index {
            assert(put.last() == (index, item));
        }
    } else if table.last().0 == index {
        assert(put.drop_last() =~= table.drop_last());
        if other != index {
            assert(table_get(put, other) == table_get(put.drop_last(), other));
        }
    } else {
        let front = table.drop_last();
        assert(indexes_ascend(front)) by {
            assert forall|i: int, j: int| 0 <= i < j < front.len() implies (#[trigger] front[i]).0 < (
            #[trigger] front[j]).0 by {
                assert(table[i].0 < table[j].0);
            }
        }
        lemma_put_get(front, index, item, other);
        assert(put.drop_last() =~= table_put(front, index, item));
        assert(put.last() == table.last());
    }
}

/// An item that is put at an index is found there, and every other item stays where it is.
pub proof fn law_item_is_found_where_it_was_put(
    table: Seq<(u64, JsonView)>,
    index: u64,
    item: JsonView,
)
    requires
        indexes_ascend(table),
    ensures
        table_get(table_put(table, index, item), index) == Some(item),
        forall|other: u64|
            other != index ==> #[trigger] table_get(table_put(table, index, item), other)
                == table_get(table, other),
{
    lemma_put_get(table, index, item, index);
    assert forall|other: u64|
        other != index implies #[trigger] table_get(table_put(table, index, item), other)
        == table_get(table, other) by {
        lemma_put_get(table, index, item, other);
    }
}

/// Items stay in the order of their indexes, whatever event comes.
pub proof fn law_items_stay_in_order(
    decoder: ResponseDecoderView,
    event: ResponsesStreamEventView,
)
    requires
        indexes_ascend(decoder.added_items),
        indexes_ascend(decoder.done_items),
    ensures
        indexes_ascend(on_event(decoder, event).decoder.added_items),
        indexes_ascend(on_event(decoder, event).decoder.done_items),
{
    assert forall|index: u64, item: JsonView| indexes_ascend(
        #[trigger] table_put(decoder.added_items, index, item),
    ) by {
        lemma_put_ascends(decoder.added_items, index, item);
    }
    assert forall|index: u64, item: JsonView| indexes_ascend(
        #[trigger] table_put(decoder.done_items, index, item),
    ) by {
        lemma_put_ascends(decoder.done_items, index, item);
    }
}

/// An event that is refused leaves everything that was decoded as it is.
pub proof fn law_refused_event_changes_nothing(
    decoder: ResponseDecoderView,
    event: ResponsesStreamEventView,
)
    requires
        on_event(decoder, event).result is Err,
    ensures
        on_event(decoder, event).decoder == decoder,
{
}

/// Only an event that says that the response is complete makes an answer.
pub proof fn law_only_completion_answers(
    decoder: ResponseDecoderView,
    event: ResponsesStreamEventView,
)
    requires
        decoder.completed is None,
        on_event(decoder, event).decoder.completed is Some,
    ensures
        event.kind == "response.completed"@,
        event.response matches Some(response) && says_completed(event.kind, response),
        on_event(decoder, event).result is Ok,
{
}

proof fn lemma_input_items(a: Seq<ChatMessageView>, b: Seq<ChatMessageView>)
    requires
        input_items(a) is Ok,
        input_items(b) is Ok,
    ensures
        input_items(a + b) == Ok::<Seq<JsonView>, AgentErrorView>(
            input_items(a)->Ok_0 + input_items(b)->Ok_0,
        ),
    decreases b.len(),
{
    if b.len() == 0 {
        assert(a + b =~= a);
        assert(input_items(a)->Ok_0 + input_items(b)->Ok_0 =~= input_items(a)->Ok_0);
    } else {
        assert((a + b).drop_last() =~= a + b.drop_last());
        assert((a + b).last() == b.last());
        lemma_input_items(a, b.drop_last());
        assert(input_items(a + b)->Ok_0 =~= input_items(a)->Ok_0 + input_items(b)->Ok_0);
    }
}

/// A history is sent in its order: what comes later in it comes later in the request.
pub proof fn law_history_is_sent_in_order(a: Seq<ChatMessageView>, b: Seq<ChatMessageView>)
    requires
        input_items(a) is Ok,
        input_items(b) is Ok,
    ensures
        input_items(a + b) == Ok::<Seq<JsonView>, AgentErrorView>(
            input_items(a)->Ok_0 + input_items(b)->Ok_0,
        ),
{
    lemma_input_items(a, b);
}

/// A call as it is sent is read as that call, arguments and all, by a reader that takes plain texts
/// for what they spell.
pub proof fn law_sent_call_is_read_back(call: ModelFunctionCallView, document: Option<JsonView>)
    requires
        is_plain_json(call.arguments, depth_limit()),
        is_read_as(compact(call.arguments), document),
    ensures
        text_member(call_item(call), "arguments"@) == Some(compact(call.arguments)),
        document is Some,
        call_with(call_item(call), Ok(document->Some_0)) == Ok::<
            ModelFunctionCallView,
            AgentErrorView,
        >(call),
{
    reveal_strlit("type");
    reveal_strlit("call_id");
    reveal_strlit("name");
    reveal_strlit("arguments");
    assert("type"@.len() != "call_id"@.len());
    assert("type"@[0] != "name"@[0]);
    assert("call_id"@.len() != "name"@.len());
    assert("type"@.len() != "arguments"@.len());
    assert("call_id"@.len() != "arguments"@.len());
    assert("name"@.len() != "arguments"@.len());
    lemma_in_order_is_compact(call.arguments);
    lemma_plain_in_order(call.arguments, depth_limit());
    assert(document == Some(meant(in_order(call.arguments))));
}

} // verus!
