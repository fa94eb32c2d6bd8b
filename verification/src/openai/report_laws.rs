//! What is told of a response that cannot be used, and where requests are sent.

use crate::document::JsonErrorView;
use crate::json::{compact, JsonView};
use crate::openai::config::{model_description, responses_url, ModelConfigView};
use crate::openai::decoder::{diagnostic, error_class, on_event, ResponseDecoderView};
use crate::openai::response_laws::{has, tells};
use crate::openai::responses::{arguments_error, ResponsesStreamEventView};
use crate::runtime::error::AgentErrorView;
use crate::runtime::error_laws::{lemma_mentions, mentions};
use crate::text::decimal;
use vstd::prelude::*;
use vstd::utf8::encode_utf8;

verus! {

/// A member, or null where there is none.
pub open spec fn shown_as(shown: JsonView, json: JsonView, key: Seq<char>) -> bool {
    ||| has(json, key, shown)
    ||| shown is Null && forall|value: JsonView| !#[trigger] has(json, key, value)
}

proof fn lemma_shown(json: JsonView, key: Seq<char>)
    ensures
        shown_as(crate::openai::responses::member_or_null(json, key), json, key),
{
    if json is Object && json->Object_0.contains_key(key) {
        assert(has(json, key, json->Object_0[key]));
    }
}

/// What is told of a response: its id, its status, why it is incomplete, the code of its error, its
/// usage and its limit, and of its output the types of the items in their order and nothing else.
pub proof fn law_output_is_not_told(response: JsonView)
    ensures
        ({
            let shown = diagnostic(response);
            &&& shown is Object
            &&& shown->Object_0.dom() == set![
                "response_id"@,
                "status"@,
                "incomplete_details"@,
                "error_code"@,
                "usage"@,
                "max_output_tokens"@,
                "output_types"@,
            ]
            &&& shown_as(shown->Object_0["response_id"@], response, "id"@)
            &&& shown_as(shown->Object_0["status"@], response, "status"@)
            &&& shown_as(shown->Object_0["incomplete_details"@], response, "incomplete_details"@)
            &&& shown_as(shown->Object_0["usage"@], response, "usage"@)
            &&& shown_as(shown->Object_0["max_output_tokens"@], response, "max_output_tokens"@)
            &&& has(response, "error"@, response->Object_0["error"@]) ==> shown_as(
                shown->Object_0["error_code"@],
                response->Object_0["error"@],
                "code"@,
            )
            &&& response->Object_0["output"@] matches JsonView::Array(items) ==> has(
                response,
                "output"@,
                response->Object_0["output"@],
            ) ==> {
                &&& shown->Object_0["output_types"@] is Array
                &&& shown->Object_0["output_types"@]->Array_0.len() == items.len()
                &&& forall|i: int|
                    0 <= i < items.len() ==> shown_as(
                        #[trigger] shown->Object_0["output_types"@]->Array_0[i],
                        items[i],
                        "type"@,
                    )
            }
        }),
{
    reveal_strlit("response_id");
    reveal_strlit("status");
    reveal_strlit("incomplete_details");
    reveal_strlit("error_code");
    reveal_strlit("usage");
    reveal_strlit("max_output_tokens");
    reveal_strlit("output_types");
    assert("response_id"@.len() == 11);
    assert("status"@.len() == 6);
    assert("incomplete_details"@.len() == 18);
    assert("error_code"@.len() == 10);
    assert("usage"@.len() == 5);
    assert("max_output_tokens"@.len() == 17);
    assert("output_types"@.len() == 12);
    let shown = diagnostic(response);
    assert(shown->Object_0.dom() =~= set![
        "response_id"@,
        "status"@,
        "incomplete_details"@,
        "error_code"@,
        "usage"@,
        "max_output_tokens"@,
        "output_types"@,
    ]);
    lemma_shown(response, "id"@);
    lemma_shown(response, "status"@);
    lemma_shown(response, "incomplete_details"@);
    lemma_shown(response, "usage"@);
    lemma_shown(response, "max_output_tokens"@);
    lemma_shown(response->Object_0["error"@], "code"@);
    let items = response->Object_0["output"@]->Array_0;
    if response->Object_0["output"@] is Array && has(
        response,
        "output"@,
        response->Object_0["output"@],
    ) {
        assert forall|i: int| 0 <= i < items.len() implies shown_as(
            #[trigger] shown->Object_0["output_types"@]->Array_0[i],
            items[i],
            "type"@,
        ) by {
            lemma_shown(items[i], "type"@);
        }
    }
}

/// An error of the server is of the class that its code says: of the context, the quota, the rate, the
/// load or the request; any other is one of the stream.
pub proof fn law_code_says_the_class(error: JsonView)
    ensures
        error_class(error) == "context_window"@ || error_class(error) == "quota"@ || error_class(
            error,
        ) == "rate_limit"@ || error_class(error) == "overloaded"@ || error_class(error)
            == "invalid_request"@ || error_class(error) == "stream"@,
        tells(error, "code"@, "context_length_exceeded"@) || tells(
            error,
            "code"@,
            "context_window_exceeded"@,
        ) <==> error_class(error) == "context_window"@,
        tells(error, "code"@, "rate_limit_exceeded"@) <==> error_class(error) == "rate_limit"@,
        tells(error, "code"@, "insufficient_quota"@) || tells(error, "code"@, "quota_exceeded"@)
            <==> error_class(error) == "quota"@,
        tells(error, "code"@, "server_overloaded"@) || tells(error, "code"@, "overloaded"@)
            <==> error_class(error) == "overloaded"@,
        tells(error, "code"@, "invalid_request"@) || tells(error, "code"@, "invalid_request_error"@)
            <==> error_class(error) == "invalid_request"@,
{
    reveal_strlit("context_length_exceeded");
    reveal_strlit("context_window_exceeded");
    reveal_strlit("rate_limit_exceeded");
    reveal_strlit("insufficient_quota");
    reveal_strlit("quota_exceeded");
    reveal_strlit("server_overloaded");
    reveal_strlit("overloaded");
    reveal_strlit("invalid_request");
    reveal_strlit("invalid_request_error");
    assert("context_length_exceeded"@.len() == 23);
    assert("context_window_exceeded"@.len() == 23);
    assert("rate_limit_exceeded"@.len() == 19);
    assert("insufficient_quota"@.len() == 18);
    assert("quota_exceeded"@.len() == 14);
    assert("server_overloaded"@.len() == 17);
    assert("overloaded"@.len() == 10);
    assert("invalid_request"@.len() == 15);
    assert("invalid_request_error"@.len() == 21);
    reveal_strlit("context_window");
    reveal_strlit("quota");
    reveal_strlit("rate_limit");
    reveal_strlit("stream");
    assert("context_window"@.len() == 14);
    assert("quota"@.len() == 5);
    assert("rate_limit"@.len() == 10 && "rate_limit"@[0] == 'r');
    assert("overloaded"@[0] == 'o');
    assert("stream"@.len() == 6);
}

/// A response that did not end well is told with its kind, the class of its error and what may be
/// told of it.
pub proof fn law_failed_response_is_told(
    decoder: ResponseDecoderView,
    event: ResponsesStreamEventView,
    response: JsonView,
)
    requires
        event.kind == "response.failed"@ || event.kind == "response.incomplete"@,
        event.response == Some(response),
    ensures
        on_event(decoder, event).result matches Err(error) && error is Model && mentions(
            error->Model_0,
            event.kind,
        ) && mentions(error->Model_0, compact(diagnostic(response))),
{
    crate::openai::stream_laws::lemma_last_kinds(event.kind);
    let error = on_event(decoder, event).result->Err_0;
    let class = error_class(crate::openai::responses::member_or_null(response, "error"@));
    let shown = compact(diagnostic(response));
    let tail = ": class="@ + class + ", "@ + shown;
    lemma_mentions("Responses "@, event.kind, tail);
    assert("Responses "@ + event.kind + tail =~= error->Model_0);
    let front = "Responses "@ + event.kind + ": class="@ + class + ", "@;
    lemma_mentions(front, shown, Seq::empty());
    assert(front + shown + Seq::<char>::empty() =~= error->Model_0);
}

/// Arguments that are no document are told with the call's id and name as documents, their length in
/// bytes, and what is wrong with them; the arguments themselves are not needed for it.
pub proof fn law_bad_arguments_are_told(
    item: JsonView,
    arguments: Seq<char>,
    error: JsonErrorView,
    id: JsonView,
    name: JsonView,
)
    requires
        has(item, "call_id"@, id),
        has(item, "name"@, name),
        encode_utf8(arguments).len() <= usize::MAX,
    ensures
        arguments_error(item, arguments, error) matches AgentErrorView::Model(text) && mentions(
            text,
            compact(id),
        ) && mentions(text, compact(name)) && mentions(
            text,
            decimal(encode_utf8(arguments).len()),
        ) && mentions(text, error.category) && mentions(text, error.message),
{
    let text = arguments_error(item, arguments, error)->Model_0;
    let a = "invalid Responses function arguments: call_id="@;
    let (b, c, d) = (compact(id), compact(name), decimal(encode_utf8(arguments).len()));
    let t4 = ", "@ + error.message;
    let t3 = ", category="@ + error.category + t4;
    let t2 = ", bytes="@ + d + t3;
    let t1 = ", name="@ + c + t2;
    lemma_mentions(a, b, t1);
    assert(a + b + t1 =~= text);
    let f1 = a + b + ", name="@;
    lemma_mentions(f1, c, t2);
    assert(f1 + c + t2 =~= text);
    let f2 = f1 + c + ", bytes="@;
    lemma_mentions(f2, d, t3);
    assert(f2 + d + t3 =~= text);
    let f3 = f2 + d + ", category="@;
    lemma_mentions(f3, error.category, t4);
    assert(f3 + error.category + t4 =~= text);
    let f4 = f3 + error.category + ", "@;
    lemma_mentions(f4, error.message, Seq::empty());
    assert(f4 + error.message + Seq::<char>::empty() =~= text);
}

/// Requests are sent to the address of the model, without the slashes at its end, and there to
/// `/responses`.
pub proof fn law_requests_are_sent_to_the_model(base_url: Seq<char>)
    ensures
        base_url.len() == 0 || base_url.last() != '/' ==> responses_url(base_url) == base_url
            + seq!['/', 'r', 'e', 's', 'p', 'o', 'n', 's', 'e', 's'],
        responses_url(base_url.push('/')) == responses_url(base_url),
{
    reveal_strlit("/responses");
    assert("/responses"@ =~= seq!['/', 'r', 'e', 's', 'p', 'o', 'n', 's', 'e', 's']);
    assert(base_url.push('/').drop_last() =~= base_url);
}

/// The model is reported by its name and its effort; its key is not.
pub proof fn law_model_is_reported_by_name(config: ModelConfigView)
    ensures
        model_description(config).fqn == config.model,
        tells(model_description(config).settings, "reasoning_effort"@, config.reasoning_effort),
        tells(model_description(config).settings, "api"@, "responses"@),
        forall|key: Seq<char>| #[trigger]
            model_description(config).settings->Object_0.contains_key(key) ==> key
                == "reasoning_effort"@ || key == "api"@,
{
    reveal_strlit("api");
    reveal_strlit("reasoning_effort");
    assert("api"@.len() != "reasoning_effort"@.len());
}

} // verus!
