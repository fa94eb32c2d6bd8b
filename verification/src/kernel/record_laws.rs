//! What the records of a thread hold, and how tokens add up.

use crate::json::{JsonView, NumberView};
use crate::json_laws::holds;
use crate::kernel::events::{
    appended, SuspensionKind, SuspensionView, ThreadView, TokenUsage, TurnItemView, TurnStatus,
    TurnView,
};
use crate::kernel::model::{ModelFunctionCallView, ModelResponseView};
use crate::kernel::records::{
    function_calls_field, model_function_call_of, model_response_of, suspension_json,
    token_usage_json,
};
use crate::text_map::sorted_keys;
use vstd::prelude::*;

verus! {

/// A sum that stops at the largest count.
pub open spec fn is_sum(a: u64, b: u64, sum: u64) -> bool {
    if a + b <= u64::MAX {
        sum == a + b
    } else {
        sum == u64::MAX
    }
}

/// Tokens add up kind by kind, and no kind runs over.
pub proof fn law_tokens_add_up(a: TokenUsage, b: TokenUsage)
    ensures
        is_sum(a.input_tokens, b.input_tokens, a.plus(b).input_tokens),
        is_sum(a.cached_input_tokens, b.cached_input_tokens, a.plus(b).cached_input_tokens),
        is_sum(a.output_tokens, b.output_tokens, a.plus(b).output_tokens),
        is_sum(a.total_tokens, b.total_tokens, a.plus(b).total_tokens),
        a.plus(TokenUsage::zero()) == a,
{
}

/// A turn of a thread with a given id, before any other with it.
pub open spec fn is_turn(thread: ThreadView, turn_id: Seq<char>, i: int) -> bool {
    0 <= i < thread.turns.len() && thread.turns[i].id == turn_id && forall|j: int|
        0 <= j < i ==> (#[trigger] thread.turns[j]).id != turn_id
}

/// Records are put at the end of the turn, which has the new status where one is given; everything
/// else of the thread stays.
pub proof fn law_records_are_put_at_the_end(
    thread: ThreadView,
    turn_id: Seq<char>,
    items: Seq<TurnItemView>,
    status: Option<TurnStatus>,
    i: int,
)
    requires
        is_turn(thread, turn_id, i),
    ensures
        appended(thread, turn_id, items, status) matches Some(after) && {
            &&& after.turns.len() == thread.turns.len()
            &&& after.turns[i].id == turn_id
            &&& after.turns[i].items == thread.turns[i].items + items
            &&& after.turns[i].status == if status is Some {
                status->Some_0
            } else {
                thread.turns[i].status
            }
            &&& forall|j: int|
                0 <= j < thread.turns.len() && j != i ==> #[trigger] after.turns[j]
                    == thread.turns[j]
            &&& (ThreadView { turns: thread.turns, ..after }) == thread
        },
{
    lemma_position(thread.turns, turn_id, i);
}

proof fn lemma_position(turns: Seq<TurnView>, turn_id: Seq<char>, i: int)
    requires
        0 <= i < turns.len(),
        turns[i].id == turn_id,
        forall|j: int| 0 <= j < i ==> (#[trigger] turns[j]).id != turn_id,
    ensures
        crate::kernel::events::turn_position(turns, turn_id) == i,
    decreases i,
{
    if i > 0 {
        let rest = turns.drop_first();
        assert(turns[0].id != turn_id);
        assert forall|j: int| 0 <= j < i - 1 implies (#[trigger] rest[j]).id != turn_id by {
            assert(rest[j] == turns[j + 1]);
        }
        lemma_position(rest, turn_id, i - 1);
    }
}

/// A suspension is written with its id, its kind and its payload.
pub proof fn law_suspension_is_written_whole(suspension: SuspensionView)
    ensures
        holds(suspension_json(suspension), "id"@, JsonView::Text(suspension.id)),
        holds(suspension_json(suspension), "payload"@, suspension.payload),
        holds(
            suspension_json(suspension),
            "kind"@,
            JsonView::Text(
                match suspension.kind {
                    SuspensionKind::LongRunningJob => "long_running_job"@,
                    SuspensionKind::FunctionRecovery => "function_recovery"@,
                },
            ),
        ),
{
    reveal_strlit("id");
    reveal_strlit("kind");
    reveal_strlit("payload");
    assert("id"@.len() == 2);
    assert("kind"@.len() == 4);
    assert("payload"@.len() == 7);
}

/// Tokens are written kind by kind.
pub proof fn law_tokens_are_written_by_kind(usage: TokenUsage)
    ensures
        ({
            let json = token_usage_json(usage);
            &&& holds(
                json,
                "input_tokens"@,
                JsonView::Number(NumberView::Unsigned(usage.input_tokens)),
            )
            &&& holds(
                json,
                "cached_input_tokens"@,
                JsonView::Number(NumberView::Unsigned(usage.cached_input_tokens)),
            )
            &&& holds(
                json,
                "output_tokens"@,
                JsonView::Number(NumberView::Unsigned(usage.output_tokens)),
            )
            &&& holds(
                json,
                "total_tokens"@,
                JsonView::Number(NumberView::Unsigned(usage.total_tokens)),
            )
        }),
{
    reveal_strlit("input_tokens");
    reveal_strlit("cached_input_tokens");
    reveal_strlit("output_tokens");
    reveal_strlit("total_tokens");
    assert("input_tokens"@.len() == 12 && "input_tokens"@[0] == 'i');
    assert("cached_input_tokens"@.len() == 19);
    assert("output_tokens"@.len() == 13);
    assert("total_tokens"@.len() == 12 && "total_tokens"@[0] == 't');
}

/// Calls that a document lists: one object for each, in their order.
pub open spec fn lists_calls(json: JsonView, calls: Seq<ModelFunctionCallView>) -> bool {
    &&& json is Array
    &&& json->Array_0.len() == calls.len()
    &&& forall|i: int|
        0 <= i < calls.len() && (#[trigger] json->Array_0[i]) is Object ==> {
            &&& holds(json->Array_0[i], "call_id"@, JsonView::Text(calls[i].call_id))
            &&& holds(json->Array_0[i], "name"@, JsonView::Text(calls[i].name))
            &&& holds(json->Array_0[i], "arguments"@, calls[i].arguments)
        }
}

proof fn lemma_calls(json: JsonView, key: Seq<char>, calls: Seq<ModelFunctionCallView>)
    requires
        function_calls_field(json, key) == Some(calls),
    ensures
        json is Object,
        json->Object_0.contains_key(key),
        lists_calls(json->Object_0[key], calls),
{
    let items = json->Object_0[key]->Array_0;
    assert forall|i: int|
        0 <= i < calls.len() && (#[trigger] json->Object_0[key]->Array_0[i]) is Object implies {
        &&& holds(json->Object_0[key]->Array_0[i], "call_id"@, JsonView::Text(calls[i].call_id))
        &&& holds(json->Object_0[key]->Array_0[i], "name"@, JsonView::Text(calls[i].name))
        &&& holds(json->Object_0[key]->Array_0[i], "arguments"@, calls[i].arguments)
    } by {
        assert(model_function_call_of(items[i]) is Some);
    }
}

/// A stored answer is read by its name: what the assistant said, the calls it asked for, or both with
/// what is needed to go on.
pub proof fn law_stored_answer_is_read_by_name(json: JsonView, response: ModelResponseView)
    requires
        model_response_of(json) == Some(response),
    ensures
        json is Object,
        ({
            let name = sorted_keys(json->Object_0.dom())[0];
            let value = json->Object_0[name];
            match response {
                ModelResponseView::AssistantMessage { text } => name == "AssistantMessage"@ && holds(
                    value,
                    "text"@,
                    JsonView::Text(text),
                ),
                ModelResponseView::FunctionCalls { calls } => name == "FunctionCalls"@
                    && value is Object && value->Object_0.contains_key("calls"@) && lists_calls(
                    value->Object_0["calls"@],
                    calls,
                ),
                ModelResponseView::Assistant { continuation, text, function_calls } => name
                    == "Assistant"@ && value is Object && value->Object_0.contains_key(
                    "function_calls"@,
                ) && lists_calls(value->Object_0["function_calls"@], function_calls) && match text {
                    Some(text) => holds(value, "text"@, JsonView::Text(text)),
                    None => value->Object_0.contains_key("text"@)
                        ==> value->Object_0["text"@] is Null,
                },
            }
        }),
{
    let name = sorted_keys(json->Object_0.dom())[0];
    let value = json->Object_0[name];
    match response {
        ModelResponseView::FunctionCalls { calls } => lemma_calls(value, "calls"@, calls),
        ModelResponseView::Assistant { continuation, text, function_calls } => lemma_calls(
            value,
            "function_calls"@,
            function_calls,
        ),
        _ => {},
    }
}

} // verus!
