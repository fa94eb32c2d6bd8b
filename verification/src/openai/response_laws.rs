//! What is read from a response and from the events of its stream.

use crate::document::json_document;
use crate::json::JsonView;
use crate::kernel::model::{ModelContinuationView, ModelFunctionCallView, ModelResponseView};
use crate::openai::responses::{
    call_of, output_parts, response_of, with_item, with_part, with_parts,
};
use crate::runtime::error::AgentErrorView;
use vstd::prelude::*;

verus! {

/// An object has a value under a key.
pub open spec fn has(json: JsonView, key: Seq<char>, value: JsonView) -> bool {
    json is Object && json->Object_0.contains_key(key) && json->Object_0[key] == value
}

/// An object has a text under a key.
pub open spec fn tells(json: JsonView, key: Seq<char>, text: Seq<char>) -> bool {
    has(json, key, JsonView::Text(text))
}

/// What a part of a message says: its text, or its refusal.
pub open spec fn part_says(part: JsonView, text: Seq<char>) -> bool {
    ||| tells(part, "type"@, "output_text"@) && tells(part, "text"@, text)
    ||| tells(part, "type"@, "refusal"@) && tells(part, "refusal"@, text)
}

/// What the parts of a message say, one after the other.
pub open spec fn parts_say(parts: Seq<JsonView>, texts: Seq<Seq<char>>) -> bool {
    &&& texts.len() == parts.len()
    &&& forall|i: int| 0 <= i < parts.len() ==> part_says(#[trigger] parts[i], texts[i])
}

/// An item that is not finished.
pub open spec fn is_open(item: JsonView) -> bool {
    tells(item, "status"@, "incomplete"@) || tells(item, "status"@, "in_progress"@)
}

/// The call that an item is.
pub open spec fn is_call(item: JsonView, call: ModelFunctionCallView) -> bool {
    &&& tells(item, "call_id"@, call.call_id)
    &&& tells(item, "name"@, call.name)
    &&& exists|arguments: Seq<char>| #[trigger]
        tells(item, "arguments"@, arguments) && (json_document(arguments) matches Ok(json) && json
            == call.arguments)
}

/// What an output item says and which calls it makes: a message its parts, a call itself, and
/// reasoning nothing.
pub open spec fn item_says(
    item: JsonView,
    text: Seq<char>,
    calls: Seq<ModelFunctionCallView>,
) -> bool {
    &&& !is_open(item)
    &&& {
        ||| tells(item, "type"@, "message"@) && calls.len() == 0 && exists|
            parts: Seq<JsonView>,
            texts: Seq<Seq<char>>,
        |
            has(item, "content"@, JsonView::Array(parts)) && #[trigger] parts_say(parts, texts)
                && text == texts.flatten()
        ||| tells(item, "type"@, "function_call"@) && text.len() == 0 && calls.len() == 1
            && is_call(item, calls[0])
        ||| tells(item, "type"@, "reasoning"@) && text.len() == 0 && calls.len() == 0
    }
}

/// What the output items of a response say, one after the other.
pub open spec fn items_say(
    items: Seq<JsonView>,
    texts: Seq<Seq<char>>,
    calls: Seq<Seq<ModelFunctionCallView>>,
) -> bool {
    &&& texts.len() == items.len()
    &&& calls.len() == items.len()
    &&& forall|i: int|
        0 <= i < items.len() ==> item_says(#[trigger] items[i], texts[i], calls[i])
}

proof fn lemma_kinds()
    ensures
        "output_text"@ != "refusal"@,
        "message"@ != "function_call"@,
        "message"@ != "reasoning"@,
        "function_call"@ != "reasoning"@,
{
    reveal_strlit("output_text");
    reveal_strlit("refusal");
    reveal_strlit("message");
    reveal_strlit("function_call");
    reveal_strlit("reasoning");
    assert("output_text"@.len() != "refusal"@.len());
    assert("message"@.len() != "function_call"@.len());
    assert("message"@.len() != "reasoning"@.len());
    assert("function_call"@.len() != "reasoning"@.len());
}

proof fn lemma_push_flatten<A>(parts: Seq<Seq<A>>, last: Seq<A>)
    ensures
        parts.push(last).flatten() == parts.flatten() + last,
{
    let all = parts.push(last);
    assert(all.drop_last() =~= parts);
    all.lemma_flatten_and_flatten_alt_are_equivalent();
    parts.lemma_flatten_and_flatten_alt_are_equivalent();
}

proof fn lemma_parts_read(text: Seq<char>, parts: Seq<JsonView>) -> (texts: Seq<Seq<char>>)
    requires
        with_parts(text, parts) is Ok,
    ensures
        parts_say(parts, texts),
        with_parts(text, parts)->Ok_0 == text + texts.flatten(),
    decreases parts.len(),
{
    lemma_kinds();
    if parts.len() == 0 {
        let texts = Seq::<Seq<char>>::empty();
        assert(text + texts.flatten() =~= text);
        texts
    } else {
        let init = parts.drop_last();
        let before = lemma_parts_read(text, init);
        let so_far = with_parts(text, init)->Ok_0;
        let last = with_part(so_far, parts.last())->Ok_0.skip(so_far.len() as int);
        assert(part_says(parts.last(), last)) by {
            let part = parts.last();
            let key = if tells(part, "type"@, "output_text"@) {
                "text"@
            } else {
                "refusal"@
            };
            assert((so_far + part->Object_0[key]->Text_0).skip(so_far.len() as int)
                =~= part->Object_0[key]->Text_0);
        }
        assert(with_part(so_far, parts.last())->Ok_0 =~= so_far + last);
        let texts = before.push(last);
        lemma_push_flatten(before, last);
        assert forall|i: int| 0 <= i < parts.len() implies part_says(
            #[trigger] parts[i],
            texts[i],
        ) by {
            if i < init.len() {
                assert(part_says(init[i], before[i]));
            }
        }
        assert(text + texts.flatten() =~= (text + before.flatten()) + last);
        texts
    }
}

proof fn lemma_parts_written(text: Seq<char>, parts: Seq<JsonView>, texts: Seq<Seq<char>>)
    requires
        parts_say(parts, texts),
    ensures
        with_parts(text, parts) == Ok::<Seq<char>, AgentErrorView>(text + texts.flatten()),
    decreases parts.len(),
{
    lemma_kinds();
    if parts.len() == 0 {
        assert(text + texts.flatten() =~= text);
    } else {
        let init = parts.drop_last();
        let before = texts.drop_last();
        assert forall|i: int| 0 <= i < init.len() implies part_says(
            #[trigger] init[i],
            before[i],
        ) by {
            assert(part_says(parts[i], texts[i]));
        }
        lemma_parts_written(text, init, before);
        lemma_push_flatten(before, texts.last());
        assert(before.push(texts.last()) =~= texts);
        assert(part_says(parts[parts.len() - 1], texts[parts.len() - 1]));
        assert(text + texts.flatten() =~= (text + before.flatten()) + texts.last());
    }
}

proof fn lemma_item_read(
    text: Seq<char>,
    calls: Seq<ModelFunctionCallView>,
    item: JsonView,
) -> (said: (Seq<char>, Seq<ModelFunctionCallView>))
    requires
        with_item(text, calls, item) is Ok,
    ensures
        item_says(item, said.0, said.1),
        with_item(text, calls, item)->Ok_0 == (text + said.0, calls + said.1),
{
    lemma_kinds();
    if tells(item, "type"@, "message"@) {
        let parts = item->Object_0["content"@]->Array_0;
        let texts = lemma_parts_read(text, parts);
        assert(parts_say(parts, texts));
        assert(calls + Seq::<ModelFunctionCallView>::empty() =~= calls);
        (texts.flatten(), Seq::empty())
    } else if tells(item, "type"@, "function_call"@) {
        let call = call_of(item)->Ok_0;
        let arguments = item->Object_0["arguments"@]->Text_0;
        assert(tells(item, "arguments"@, arguments));
        let said = (Seq::<char>::empty(), seq![call]);
        assert(text + said.0 =~= text);
        assert(calls + said.1 =~= calls.push(call));
        said
    } else {
        let said = (Seq::<char>::empty(), Seq::<ModelFunctionCallView>::empty());
        assert(text + said.0 =~= text);
        assert(calls + said.1 =~= calls);
        said
    }
}

proof fn lemma_item_written(
    text: Seq<char>,
    calls: Seq<ModelFunctionCallView>,
    item: JsonView,
    more: Seq<char>,
    called: Seq<ModelFunctionCallView>,
)
    requires
        item_says(item, more, called),
    ensures
        with_item(text, calls, item) == Ok::<
            (Seq<char>, Seq<ModelFunctionCallView>),
            AgentErrorView,
        >((text + more, calls + called)),
{
    lemma_kinds();
    if tells(item, "type"@, "message"@) {
        let (parts, texts) = choose|parts: Seq<JsonView>, texts: Seq<Seq<char>>|
            has(item, "content"@, JsonView::Array(parts)) && #[trigger] parts_say(parts, texts)
                && more == texts.flatten();
        lemma_parts_written(text, parts, texts);
        assert(calls + called =~= calls);
    } else if tells(item, "type"@, "function_call"@) {
        assert(text + more =~= text);
        assert(calls + called =~= calls.push(called[0]));
    } else {
        assert(text + more =~= text);
        assert(calls + called =~= calls);
    }
}

proof fn lemma_output_read(items: Seq<JsonView>) -> (said: (
    Seq<Seq<char>>,
    Seq<Seq<ModelFunctionCallView>>,
))
    requires
        output_parts(items) is Ok,
    ensures
        items_say(items, said.0, said.1),
        output_parts(items)->Ok_0 == (said.0.flatten(), said.1.flatten()),
    decreases items.len(),
{
    if items.len() == 0 {
        let said = (Seq::<Seq<char>>::empty(), Seq::<Seq<ModelFunctionCallView>>::empty());
        assert(said.0.flatten() =~= Seq::empty());
        assert(said.1.flatten() =~= Seq::empty());
        said
    } else {
        let init = items.drop_last();
        let before = lemma_output_read(init);
        let (text, calls) = output_parts(init)->Ok_0;
        let last = lemma_item_read(text, calls, items.last());
        let said = (before.0.push(last.0), before.1.push(last.1));
        lemma_push_flatten(before.0, last.0);
        lemma_push_flatten(before.1, last.1);
        assert forall|i: int| 0 <= i < items.len() implies item_says(
            #[trigger] items[i],
            said.0[i],
            said.1[i],
        ) by {
            if i < init.len() {
                assert(item_says(init[i], before.0[i], before.1[i]));
            }
        }
        said
    }
}

proof fn lemma_output_written(
    items: Seq<JsonView>,
    texts: Seq<Seq<char>>,
    calls: Seq<Seq<ModelFunctionCallView>>,
)
    requires
        items_say(items, texts, calls),
    ensures
        output_parts(items) == Ok::<(Seq<char>, Seq<ModelFunctionCallView>), AgentErrorView>(
            (texts.flatten(), calls.flatten()),
        ),
    decreases items.len(),
{
    if items.len() == 0 {
        assert(texts.flatten() =~= Seq::empty());
        assert(calls.flatten() =~= Seq::empty());
    } else {
        let init = items.drop_last();
        let (t, c) = (texts.drop_last(), calls.drop_last());
        assert forall|i: int| 0 <= i < init.len() implies item_says(
            #[trigger] init[i],
            t[i],
            c[i],
        ) by {
            assert(item_says(items[i], texts[i], calls[i]));
        }
        lemma_output_written(init, t, c);
        let n = items.len() - 1;
        assert(item_says(items[n], texts[n], calls[n]));
        lemma_item_written(t.flatten(), c.flatten(), items[n], texts[n], calls[n]);
        lemma_push_flatten(t, texts[n]);
        lemma_push_flatten(c, calls[n]);
        assert(t.push(texts[n]) =~= texts);
        assert(c.push(calls[n]) =~= calls);
    }
}

/// A complete response is an answer with everything that its items say, in their order: the texts
/// joined, each call with its id, its name and the document of its arguments, and the items
/// themselves to go on from. It is one where every item can be read and they say anything.
pub proof fn law_answer_is_what_the_items_say(response: JsonView, answer: ModelResponseView)
    ensures
        response_of(response) == Ok::<ModelResponseView, AgentErrorView>(answer) <==> exists|
            items: Seq<JsonView>,
            texts: Seq<Seq<char>>,
            calls: Seq<Seq<ModelFunctionCallView>>,
        |
            has(response, "output"@, JsonView::Array(items)) && #[trigger] items_say(
                items,
                texts,
                calls,
            ) && (texts.flatten().len() > 0 || calls.flatten().len() > 0) && answer
                == (ModelResponseView::Assistant {
                text: if texts.flatten().len() == 0 {
                    None
                } else {
                    Some(texts.flatten())
                },
                function_calls: calls.flatten(),
                continuation: Some(
                    ModelContinuationView {
                        format: "openai.responses.v1"@,
                        payload: JsonView::Array(items),
                    },
                ),
            }),
        response_of(response) matches Err(error) ==> error is Model,
{
    if response_of(response) == Ok::<ModelResponseView, AgentErrorView>(answer) {
        let items = response->Object_0["output"@]->Array_0;
        let (texts, calls) = lemma_output_read(items);
        assert(items_say(items, texts, calls));
    }
    if exists|
        items: Seq<JsonView>,
        texts: Seq<Seq<char>>,
        calls: Seq<Seq<ModelFunctionCallView>>,
    |
        has(response, "output"@, JsonView::Array(items)) && #[trigger] items_say(
            items,
            texts,
            calls,
        ) {
        let (items, texts, calls) = choose|
            items: Seq<JsonView>,
            texts: Seq<Seq<char>>,
            calls: Seq<Seq<ModelFunctionCallView>>,
        |
            has(response, "output"@, JsonView::Array(items)) && #[trigger] items_say(
                items,
                texts,
                calls,
            );
        lemma_output_written(items, texts, calls);
        assert forall|t: Seq<Seq<char>>, c: Seq<Seq<ModelFunctionCallView>>| #[trigger]
            items_say(items, t, c) implies t.flatten() == texts.flatten() && c.flatten()
            == calls.flatten() by {
            lemma_output_written(items, t, c);
        }
    }
    if response_of(response) is Err {
        lemma_output_errors(response->Object_0["output"@]->Array_0);
    }
}

proof fn lemma_parts_errors(text: Seq<char>, parts: Seq<JsonView>)
    ensures
        with_parts(text, parts) matches Err(error) ==> error is Model,
    decreases parts.len(),
{
    if parts.len() > 0 {
        lemma_parts_errors(text, parts.drop_last());
    }
}

proof fn lemma_output_errors(items: Seq<JsonView>)
    ensures
        output_parts(items) matches Err(error) ==> error is Model,
    decreases items.len(),
{
    if items.len() > 0 {
        lemma_output_errors(items.drop_last());
        if output_parts(items.drop_last()) is Ok {
            let (text, _) = output_parts(items.drop_last())->Ok_0;
            lemma_parts_errors(text, items.last()->Object_0["content"@]->Array_0);
        }
    }
}

} // verus!
