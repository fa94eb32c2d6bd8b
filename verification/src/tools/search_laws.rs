//! What a web search asks for, and what is told of its answer.

use crate::json::{JsonView, NumberView};
use crate::json_laws::holds;
use crate::runtime::error::AgentErrorView;
use crate::runtime::functions::{FunctionExecutionView, FunctionRecoveryPolicy};
use crate::text::is_blank;
use crate::text_map::{lemma_finite_is_walked, sorted_keys};
use crate::tools::web_search::{
    exa_request_json, exa_search_response_of, exa_search_result_json, exa_search_result_of,
    first_search_issue, search_descriptor, search_execution, search_issue, search_metric,
    search_output_json, search_parameters, search_prepared, search_request_of, search_settled,
    search_spec, search_url, ExaSearchRequestView, ExaSearchResultView, ExaWebSearchConfigView,
    SearchOutputView, SearchReplyView, SearchRequestView, WebSearchMetricView, WebSearchOutcome,
};
use crate::typed::texts_of;
use vstd::prelude::*;

verus! {

/// A list of texts as a document.
pub open spec fn lists(json: JsonView, texts: Seq<Seq<char>>) -> bool {
    &&& json is Array
    &&& json->Array_0.len() == texts.len()
    &&& forall|i: int| 0 <= i < texts.len() ==> #[trigger] json->Array_0[i] == JsonView::Text(texts[i])
}

/// A value that can be left out or be null.
pub open spec fn is_left_out(json: JsonView, key: Seq<char>) -> bool {
    json->Object_0.contains_key(key) ==> json->Object_0[key] is Null
}

/// The request that an object is: its query, the number of results, and the domains to keep to and to
/// leave out, of which all but the query can be left out; it has no other members.
pub open spec fn asks(arguments: JsonView, request: SearchRequestView) -> bool {
    &&& arguments is Object
    &&& holds(arguments, "query"@, JsonView::Text(request.query))
    &&& match request.max_results {
        Some(n) => holds(arguments, "max_results"@, JsonView::Number(NumberView::Unsigned(n as u64))),
        None => is_left_out(arguments, "max_results"@),
    }
    &&& match request.include_domains {
        Some(domains) => arguments->Object_0.contains_key("include_domains"@) && lists(
            arguments->Object_0["include_domains"@],
            domains,
        ),
        None => is_left_out(arguments, "include_domains"@),
    }
    &&& match request.exclude_domains {
        Some(domains) => arguments->Object_0.contains_key("exclude_domains"@) && lists(
            arguments->Object_0["exclude_domains"@],
            domains,
        ),
        None => is_left_out(arguments, "exclude_domains"@),
    }
    &&& forall|key: Seq<char>| #[trigger]
        arguments->Object_0.contains_key(key) ==> key == "query"@ || key == "max_results"@ || key
            == "include_domains"@ || key == "exclude_domains"@
}

proof fn lemma_texts(items: Seq<JsonView>, texts: Seq<Seq<char>>)
    ensures
        texts_of(items) == Ok::<Seq<Seq<char>>, Seq<char>>(texts) <==> lists(
            JsonView::Array(items),
            texts,
        ),
    decreases items.len(),
{
    let json = JsonView::Array(items);
    if items.len() == 0 {
        if lists(json, texts) {
            assert(texts =~= Seq::empty());
        }
    } else {
        let init = items.drop_last();
        let n = items.len() - 1;
        if lists(json, texts) {
            let before = texts.drop_last();
            assert forall|i: int| 0 <= i < before.len() implies
                #[trigger] JsonView::Array(init)->Array_0[i] == JsonView::Text(before[i]) by {
                assert(json->Array_0[i] == JsonView::Text(texts[i]));
            }
            lemma_texts(init, before);
            assert(json->Array_0[n] == JsonView::Text(texts[n]));
            assert(before.push(texts[n]) =~= texts);
        }
        if texts_of(items) == Ok::<Seq<Seq<char>>, Seq<char>>(texts) {
            let before = texts_of(init)->Ok_0;
            lemma_texts(init, before);
            assert forall|i: int| 0 <= i < texts.len() implies #[trigger] json->Array_0[i]
                == JsonView::Text(texts[i]) by {
                if i < n {
                    assert(JsonView::Array(init)->Array_0[i] == JsonView::Text(before[i]));
                }
            }
        }
    }
}

proof fn lemma_issues(members: Map<Seq<char>, JsonView>, keys: Seq<Seq<char>>)
    ensures
        first_search_issue(members, keys) is None <==> forall|i: int|
            0 <= i < keys.len() ==> search_issue(#[trigger] keys[i], members[keys[i]]) is None,
    decreases keys.len(),
{
    if keys.len() > 0 {
        let rest = keys.drop_first();
        lemma_issues(members, rest);
        if first_search_issue(members, keys) is None {
            assert forall|i: int| 0 <= i < keys.len() implies search_issue(
                #[trigger] keys[i],
                members[keys[i]],
            ) is None by {
                if i > 0 {
                    assert(rest[i - 1] == keys[i]);
                }
            }
        }
        if forall|i: int|
            0 <= i < keys.len() ==> search_issue(#[trigger] keys[i], members[keys[i]]) is None {
            assert(search_issue(keys[0], members[keys[0]]) is None);
            assert forall|i: int| 0 <= i < rest.len() implies search_issue(
                #[trigger] rest[i],
                members[rest[i]],
            ) is None by {
                assert(rest[i] == keys[i + 1]);
            }
        }
    }
}

proof fn lemma_keys()
    ensures
        "query"@ != "max_results"@,
        "query"@ != "include_domains"@,
        "query"@ != "exclude_domains"@,
        "max_results"@ != "include_domains"@,
        "max_results"@ != "exclude_domains"@,
        "include_domains"@ != "exclude_domains"@,
{
    reveal_strlit("query");
    reveal_strlit("max_results");
    reveal_strlit("include_domains");
    reveal_strlit("exclude_domains");
    assert("query"@.len() == 5);
    assert("max_results"@.len() == 11);
    assert("include_domains"@.len() == 15 && "include_domains"@[0] == 'i');
    assert("exclude_domains"@.len() == 15 && "exclude_domains"@[0] == 'e');
}

/// A request is read from an object exactly where the object asks for it.
pub proof fn law_request_is_what_the_arguments_ask(
    arguments: JsonView,
    request: SearchRequestView,
)
    requires
        arguments is Object,
        arguments->Object_0.dom().finite(),
    ensures
        search_request_of(arguments) == Ok::<SearchRequestView, Seq<char>>(request) <==> asks(
            arguments,
            request,
        ),
{
    lemma_keys();
    let members = arguments->Object_0;
    let keys = sorted_keys(members.dom());
    lemma_finite_is_walked(members.dom());
    lemma_issues(members, keys);
    assert forall|key: Seq<char>| #[trigger] members.contains_key(key) implies keys.contains(
        key,
    ) by {}
    if request.include_domains is Some && members["include_domains"@] is Array {
        lemma_texts(members["include_domains"@]->Array_0, request.include_domains->Some_0);
    }
    if request.exclude_domains is Some && members["exclude_domains"@] is Array {
        lemma_texts(members["exclude_domains"@]->Array_0, request.exclude_domains->Some_0);
    }
    if asks(arguments, request) {
        assert forall|i: int| 0 <= i < keys.len() implies search_issue(
            #[trigger] keys[i],
            members[keys[i]],
        ) is None by {
            assert(keys.contains(keys[i]));
            assert(members.contains_key(keys[i]));
        }
    }
    if search_request_of(arguments) == Ok::<SearchRequestView, Seq<char>>(request) {
        assert forall|key: Seq<char>| #[trigger] members.contains_key(key) implies search_issue(
            key,
            members[key],
        ) is None by {
            assert(keys.contains(key));
            let i = choose|i: int| 0 <= i < keys.len() && keys[i] == key;
            assert(search_issue(keys[i], members[keys[i]]) is None);
        }
        assert(members.contains_key("query"@));
        if members.contains_key("max_results"@) {
            assert(search_issue("max_results"@, members["max_results"@]) is None);
        }
        if members.contains_key("include_domains"@) {
            assert(search_issue("include_domains"@, members["include_domains"@]) is None);
        }
        if members.contains_key("exclude_domains"@) {
            assert(search_issue("exclude_domains"@, members["exclude_domains"@]) is None);
        }
    }
}

/// What is asked of the provider is what the arguments ask: the query as it is, from one to twenty
/// results or as many as are set where the arguments do not say, the domains as they are, and
/// highlights. Arguments that cannot be read, a blank query and any other number are refused.
pub proof fn law_provider_is_asked_the_same(config: ExaWebSearchConfigView, arguments: JsonView)
    ensures
        match search_prepared(config, arguments) {
            Ok(asked) => search_request_of(arguments) matches Ok(request) && {
                &&& !is_blank(request.query)
                &&& asked.query == request.query
                &&& asked.num_results == if request.max_results is Some {
                    request.max_results->Some_0
                } else {
                    config.default_max_results
                }
                &&& request.max_results is Some ==> 1 <= asked.num_results <= 20
                &&& asked.include_domains == request.include_domains
                &&& asked.exclude_domains == request.exclude_domains
                &&& asked.contents.highlights
            },
            Err(error) => {
                &&& error is InvalidFunctionArguments
                &&& error->InvalidFunctionArguments_name == "web_search"@
                &&& search_request_of(arguments) matches Ok(request) ==> is_blank(request.query) || (
                request.max_results matches Some(n) && !(1 <= n <= 20))
            },
        },
{
}

/// The request is sent with the query, the number of results, the domains where there are any, and
/// what contents are wanted.
pub proof fn law_request_is_sent_whole(request: ExaSearchRequestView)
    ensures
        ({
            let json = exa_request_json(request);
            &&& holds(json, "query"@, JsonView::Text(request.query))
            &&& holds(
                json,
                "numResults"@,
                JsonView::Number(NumberView::Unsigned(request.num_results as u64)),
            )
            &&& match request.include_domains {
                Some(domains) => json->Object_0.contains_key("includeDomains"@) && lists(
                    json->Object_0["includeDomains"@],
                    domains,
                ),
                None => !json->Object_0.contains_key("includeDomains"@),
            }
            &&& match request.exclude_domains {
                Some(domains) => json->Object_0.contains_key("excludeDomains"@) && lists(
                    json->Object_0["excludeDomains"@],
                    domains,
                ),
                None => !json->Object_0.contains_key("excludeDomains"@),
            }
            &&& json->Object_0.contains_key("contents"@)
            &&& holds(
                json->Object_0["contents"@],
                "highlights"@,
                JsonView::Bool(request.contents.highlights),
            )
        }),
{
    reveal_strlit("query");
    reveal_strlit("numResults");
    reveal_strlit("includeDomains");
    reveal_strlit("excludeDomains");
    reveal_strlit("contents");
    assert("query"@.len() == 5);
    assert("numResults"@.len() == 10);
    assert("includeDomains"@.len() == 14 && "includeDomains"@[0] == 'i');
    assert("excludeDomains"@.len() == 14 && "excludeDomains"@[0] == 'e');
    assert("contents"@.len() == 8);
}

/// A search is sent to the address of the provider, without the slashes at its end, and there to
/// `/search`.
pub proof fn law_search_is_sent_to_the_provider(base_url: Seq<char>)
    ensures
        base_url.len() == 0 || base_url.last() != '/' ==> search_url(base_url) == base_url
            + seq!['/', 's', 'e', 'a', 'r', 'c', 'h'],
        search_url(base_url.push('/')) == search_url(base_url),
{
    reveal_strlit("/search");
    assert("/search"@ =~= seq!['/', 's', 'e', 'a', 'r', 'c', 'h']);
    assert(base_url.push('/').drop_last() =~= base_url);
}

/// A text under a key that may be left out or be null.
pub open spec fn may_tell(json: JsonView, key: Seq<char>, text: Option<Seq<char>>) -> bool {
    match text {
        Some(text) => holds(json, key, JsonView::Text(text)),
        None => is_left_out(json, key),
    }
}

/// A result is read from an object: its title, its date and its author where it has them, its
/// address, and its highlights, which are none where they are left out.
pub proof fn law_result_is_read_by_name(json: JsonView, result: ExaSearchResultView)
    requires
        json is Object,
        exa_search_result_of(json) == Some(result),
    ensures
        may_tell(json, "title"@, result.title),
        holds(json, "url"@, JsonView::Text(result.url)),
        may_tell(json, "publishedDate"@, result.published_date),
        may_tell(json, "author"@, result.author),
        if json->Object_0.contains_key("highlights"@) {
            lists(json->Object_0["highlights"@], result.highlights)
        } else {
            result.highlights.len() == 0
        },
{
    if json->Object_0.contains_key("highlights"@) {
        let items = json->Object_0["highlights"@]->Array_0;
        assert forall|i: int| 0 <= i < result.highlights.len() implies #[trigger]
            json->Object_0["highlights"@]->Array_0[i] == JsonView::Text(result.highlights[i]) by {
            assert(crate::codec::text_item_of(items[i]) is Some);
        }
    }
}

/// The results of an answer are those of its list, in their order; there are none where there is no
/// list.
pub proof fn law_results_are_read_in_order(json: JsonView)
    requires
        json is Object,
    ensures
        match exa_search_response_of(json) {
            Some(response) => if json->Object_0.contains_key("results"@) {
                let items = json->Object_0["results"@];
                &&& items is Array
                &&& items->Array_0.len() == response.results.len()
                &&& forall|i: int|
                    0 <= i < response.results.len() ==> exa_search_result_of(
                        #[trigger] items->Array_0[i],
                    ) == Some(response.results[i])
            } else {
                response.results.len() == 0
            },
            None => {
                let items = json->Object_0["results"@];
                json->Object_0.contains_key("results"@) && (!(items is Array) || exists|i: int|
                    0 <= i < items->Array_0.len() && exa_search_result_of(
                        #[trigger] items->Array_0[i],
                    ) is None)
            },
        },
{
    let items = json->Object_0["results"@];
    if json->Object_0.contains_key("results"@) && items is Array {
        let list = items->Array_0;
        if exa_search_response_of(json) is Some {
            let response = exa_search_response_of(json)->Some_0;
            assert forall|i: int| 0 <= i < response.results.len() implies exa_search_result_of(
                #[trigger] items->Array_0[i],
            ) == Some(response.results[i]) by {
                assert(exa_search_result_of(list[i]) is Some);
            }
        } else {
            let i = choose|i: int|
                0 <= i < list.len() && !((#[trigger] exa_search_result_of(list[i])) is Some);
            assert(exa_search_result_of(items->Array_0[i]) is None);
        }
    }
}

/// A result is told with all that it has.
pub open spec fn tells_result(json: JsonView, result: ExaSearchResultView) -> bool {
    &&& json is Object
    &&& holds(
        json,
        "title"@,
        match result.title {
            Some(text) => JsonView::Text(text),
            None => JsonView::Null,
        },
    )
    &&& holds(json, "url"@, JsonView::Text(result.url))
    &&& holds(
        json,
        "author"@,
        match result.author {
            Some(text) => JsonView::Text(text),
            None => JsonView::Null,
        },
    )
    &&& json->Object_0.contains_key("highlights"@)
    &&& lists(json->Object_0["highlights"@], result.highlights)
    &&& match result.published_date {
        Some(text) => holds(json, "publishedDate"@, JsonView::Text(text)),
        None => !json->Object_0.contains_key("publishedDate"@),
    }
}

proof fn lemma_result(result: ExaSearchResultView)
    ensures
        tells_result(exa_search_result_json(result), result),
{
    reveal_strlit("title");
    reveal_strlit("url");
    reveal_strlit("author");
    reveal_strlit("highlights");
    reveal_strlit("publishedDate");
    assert("title"@.len() == 5);
    assert("url"@.len() == 3);
    assert("author"@.len() == 6);
    assert("highlights"@.len() == 10);
    assert("publishedDate"@.len() == 13);
}

/// What a search comes to is told with the query and every result in its order, and an error is told
/// as it is.
pub proof fn law_output_tells_every_result(
    result: core::result::Result<SearchOutputView, AgentErrorView>,
)
    ensures
        match result {
            Err(error) => search_execution(result) == Err::<FunctionExecutionView, AgentErrorView>(
                error,
            ),
            Ok(output) => search_execution(result) matches Ok(execution) && execution is Completed
                && {
                let json = execution->Completed_output;
                &&& holds(json, "query"@, JsonView::Text(output.query))
                &&& json->Object_0.contains_key("results"@)
                &&& json->Object_0["results"@] is Array
                &&& json->Object_0["results"@]->Array_0.len() == output.results.len()
                &&& forall|i: int|
                    0 <= i < output.results.len() ==> tells_result(
                        #[trigger] json->Object_0["results"@]->Array_0[i],
                        output.results[i],
                    )
            },
        },
{
    reveal_strlit("query");
    reveal_strlit("results");
    assert("query"@.len() != "results"@.len());
    if result is Ok {
        let output = result->Ok_0;
        let json = search_output_json(output);
        assert forall|i: int| 0 <= i < output.results.len() implies tells_result(
            #[trigger] json->Object_0["results"@]->Array_0[i],
            output.results[i],
        ) by {
            lemma_result(output.results[i]);
        }
    }
}

/// A reply that says success and can be read gives the results for the query that was asked; one that
/// does not say so is an error that tells its status and its body.
pub proof fn law_reply_is_settled(
    query: Seq<char>,
    reply: SearchReplyView,
    json: JsonView,
    wording: Seq<char>,
)
    ensures
        !reply.success ==> search_settled(query, reply, Ok(Some(json)), wording) == Err::<
            SearchOutputView,
            AgentErrorView,
        >(
            AgentErrorView::Http(
                "Exa web search returned HTTP "@ + reply.status + ": "@ + reply.body,
            ),
        ),
        reply.success && exa_search_response_of(json) is None ==> search_settled(
            query,
            reply,
            Ok(Some(json)),
            wording,
        ) is Err,
        search_settled(query, reply, Ok(Some(json)), wording) matches Ok(output) ==> reply.success
            && output.query == query && exa_search_response_of(json) is Some && output.results
            == exa_search_response_of(json)->Some_0.results,
        search_settled(query, reply, Ok(None), wording) is Err,
{
}

/// What is measured of a search: whether it succeeded, was refused for its arguments or by the
/// provider, or failed otherwise; how long it took; and how many results it gave.
pub proof fn law_search_is_measured(
    result: core::result::Result<SearchOutputView, AgentErrorView>,
    duration: nat,
)
    requires
        result matches Ok(output) ==> output.results.len() <= usize::MAX,
    ensures
        search_metric(result, duration) matches WebSearchMetricView::Finished {
            outcome,
            duration: took,
            result_count,
            response_bytes,
        } && {
            &&& took == duration
            &&& result matches Ok(output) ==> outcome == WebSearchOutcome::Succeeded && result_count
                == output.results.len()
            &&& result matches Err(error) ==> result_count == 0 && response_bytes == 0 && outcome
                == if error is InvalidFunctionArguments {
                WebSearchOutcome::InvalidArguments
            } else if error is Http {
                WebSearchOutcome::HttpError
            } else {
                WebSearchOutcome::Failed
            }
        },
{
}

/// The request that a list is has its first item as the query, its second as the number of results,
/// and the two lists of domains, of which all but the query can be null.
pub proof fn law_request_is_what_the_list_asks(items: Seq<JsonView>, request: SearchRequestView)
    requires
        search_request_of(JsonView::Array(items)) == Ok::<SearchRequestView, Seq<char>>(request),
    ensures
        items.len() == 4,
        items[0] == JsonView::Text(request.query),
        match request.max_results {
            Some(n) => items[1] == JsonView::Number(NumberView::Unsigned(n as u64)),
            None => items[1] is Null,
        },
        match request.include_domains {
            Some(domains) => lists(items[2], domains),
            None => items[2] is Null,
        },
        match request.exclude_domains {
            Some(domains) => lists(items[3], domains),
            None => items[3] is Null,
        },
{
    if request.include_domains is Some {
        lemma_texts(items[2]->Array_0, request.include_domains->Some_0);
    }
    if request.exclude_domains is Some {
        lemma_texts(items[3]->Array_0, request.exclude_domains->Some_0);
    }
}

/// The model is told of exactly the members that are read, and that the query must be there.
pub proof fn law_schema_names_what_is_read(key: Seq<char>)
    ensures
        search_parameters() is Object,
        search_parameters()->Object_0.contains_key("properties"@),
        search_parameters()->Object_0["properties"@] is Object,
        search_parameters()->Object_0["properties"@]->Object_0.contains_key(key) <==> exists|
            value: JsonView,
        | #[trigger] search_issue(key, value) is None,
        holds(
            search_parameters(),
            "required"@,
            JsonView::Array(seq![JsonView::Text("query"@)]),
        ),
        search_spec().name == "web_search"@,
        search_spec().parameters == search_parameters(),
{
    reveal_strlit("type");
    reveal_strlit("properties");
    reveal_strlit("required");
    reveal_strlit("additionalProperties");
    assert("type"@.len() == 4);
    assert("properties"@.len() == 10);
    assert("required"@.len() == 8);
    assert("additionalProperties"@.len() == 20);
    lemma_keys();
    if key == "query"@ {
        assert(search_issue(key, JsonView::Text(Seq::empty())) is None);
    } else if key == "max_results"@ || key == "include_domains"@ || key == "exclude_domains"@ {
        assert(search_issue(key, JsonView::Null) is None);
    }
}

/// A number of results is accepted exactly where it lies in the range that the model is told of.
pub proof fn law_schema_bounds_what_is_accepted(
    config: ExaWebSearchConfigView,
    arguments: JsonView,
    request: SearchRequestView,
    n: usize,
    least: u64,
    most: u64,
)
    requires
        search_request_of(arguments) == Ok::<SearchRequestView, Seq<char>>(request),
        !is_blank(request.query),
        request.max_results == Some(n),
        holds(
            search_parameters()->Object_0["properties"@]->Object_0["max_results"@],
            "minimum"@,
            JsonView::Number(NumberView::Unsigned(least)),
        ),
        holds(
            search_parameters()->Object_0["properties"@]->Object_0["max_results"@],
            "maximum"@,
            JsonView::Number(NumberView::Unsigned(most)),
        ),
    ensures
        search_prepared(config, arguments) is Ok <==> least <= n <= most,
{
    reveal_strlit("type");
    reveal_strlit("properties");
    reveal_strlit("required");
    reveal_strlit("additionalProperties");
    assert("type"@.len() == 4);
    assert("properties"@.len() == 10);
    assert("required"@.len() == 8);
    assert("additionalProperties"@.len() == 20);
    reveal_strlit("minimum");
    reveal_strlit("maximum");
    reveal_strlit("description");
    assert("minimum"@.len() == 7 && "minimum"@[1] == 'i');
    assert("maximum"@.len() == 7 && "maximum"@[1] == 'a');
    assert("description"@.len() == 11);
    lemma_keys();
}

/// The function may take as long as is set, and its output may be as long as is set; it can be called
/// again after a crash.
pub proof fn law_search_is_registered_as_it_is_set(config: ExaWebSearchConfigView)
    ensures
        search_descriptor(config).spec == search_spec(),
        search_descriptor(config).limits.time_budget == config.timeout,
        search_descriptor(config).limits.max_output_bytes > 0,
        search_descriptor(config).recovery_policy == FunctionRecoveryPolicy::Idempotent,
{
}

} // verus!
