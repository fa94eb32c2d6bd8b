//! Searches of the web.

use crate::codec::{
    list1, make_count, make_missing_field, make_optional_text, make_wrong_field, missing_field,
    optional_text_json, read_text_item, text_item_of,
};
use crate::document::JsonErrorView;
use crate::fields::{
    as_fields, fielded, names_of, optional_text, optional_text_of, required_text, required_text_of,
};
use crate::json::{lemma_array_view, lemma_object_view, member, no_members, Json, JsonView, NumberView};
use crate::kernel::model::{FunctionSpec, FunctionSpecView};
use crate::prune::{document_read, read_document};
use crate::runtime::error::{AgentError, AgentErrorView};
use crate::runtime::functions::{
    json_size, size_of_json, FunctionDescriptor, FunctionDescriptorView, FunctionExecution,
    FunctionExecutionView, FunctionKind, FunctionLimits, FunctionLimitsView,
    FunctionRecoveryPolicy, FunctionRegistry, RegisteredFunctionView,
};
use crate::same::{outcome_of, Replica, Same};
use crate::shape::{is_unambiguous, unambiguous, Shape};
use crate::text::{blank, drop_slashes, glue2, glue3, glue4, is_blank, same_text, without_slashes};
use crate::text_map::{sorted_keys, TextMap};
use crate::time_span::TimeSpan;
use crate::typed::{
    nullable_count_of, nullable_texts_of, read_nullable_count, read_nullable_texts, read_text,
    say_wrong_length, say_wrong_type, text_of, wrong_length, wrong_type,
};
use vstd::prelude::*;

verus! {

/// What a request asks of each result.
#[derive(Clone, Copy, Debug, PartialEq, Eq, Structural)]
pub struct ExaContents {
    pub highlights: bool,
}

impl DeepView for ExaContents {
    type V = ExaContents;

    open spec fn deep_view(&self) -> Self::V {
        *self
    }
}

impl Replica for ExaContents {
    fn replica(&self) -> (r: Self) {
        *self
    }
}

impl Same for ExaContents {
    fn same(&self, other: &Self) -> (r: bool) {
        *self == *other
    }
}

/// Configuration for the Exa-backed `web_search` function.
#[derive(Debug, PartialEq, Eq)]
pub struct ExaWebSearchConfig {
    pub api_key: String,
    pub base_url: String,
    pub default_max_results: usize,
    pub timeout: TimeSpan,
}

/// What an [`ExaWebSearchConfig`] holds.
#[verifier::ext_equal]
pub struct ExaWebSearchConfigView {
    pub api_key: Seq<char>,
    pub base_url: Seq<char>,
    pub default_max_results: usize,
    pub timeout: nat,
}

impl DeepView for ExaWebSearchConfig {
    type V = ExaWebSearchConfigView;

    open spec fn deep_view(&self) -> Self::V {
        ExaWebSearchConfigView {
            api_key: self.api_key.deep_view(),
            base_url: self.base_url.deep_view(),
            default_max_results: self.default_max_results.deep_view(),
            timeout: self.timeout.deep_view(),
        }
    }
}

impl Replica for ExaWebSearchConfig {
    fn replica(&self) -> (r: Self) {
        ExaWebSearchConfig {
            api_key: self.api_key.replica(),
            base_url: self.base_url.replica(),
            default_max_results: self.default_max_results.replica(),
            timeout: self.timeout.replica(),
        }
    }
}

impl Clone for ExaWebSearchConfig {
    fn clone(&self) -> (r: Self)
        ensures
            r.deep_view() == self.deep_view(),
    {
        self.replica()
    }
}

/// What is searched for.
#[derive(Debug, PartialEq, Eq)]
pub struct SearchRequest {
    pub query: String,
    pub max_results: Option<usize>,
    pub include_domains: Option<Vec<String>>,
    pub exclude_domains: Option<Vec<String>>,
}

/// What a [`SearchRequest`] holds.
#[verifier::ext_equal]
pub struct SearchRequestView {
    pub query: Seq<char>,
    pub max_results: Option<usize>,
    pub include_domains: Option<Seq<Seq<char>>>,
    pub exclude_domains: Option<Seq<Seq<char>>>,
}

impl DeepView for SearchRequest {
    type V = SearchRequestView;

    open spec fn deep_view(&self) -> Self::V {
        SearchRequestView {
            query: self.query.deep_view(),
            max_results: self.max_results.deep_view(),
            include_domains: self.include_domains.deep_view(),
            exclude_domains: self.exclude_domains.deep_view(),
        }
    }
}

impl Replica for SearchRequest {
    fn replica(&self) -> (r: Self) {
        SearchRequest {
            query: self.query.replica(),
            max_results: self.max_results.replica(),
            include_domains: self.include_domains.replica(),
            exclude_domains: self.exclude_domains.replica(),
        }
    }
}

impl Clone for SearchRequest {
    fn clone(&self) -> (r: Self)
        ensures
            r.deep_view() == self.deep_view(),
    {
        self.replica()
    }
}

/// A request to the provider.
#[derive(Debug, PartialEq, Eq)]
pub struct ExaSearchRequest {
    pub query: String,
    pub num_results: usize,
    pub include_domains: Option<Vec<String>>,
    pub exclude_domains: Option<Vec<String>>,
    pub contents: ExaContents,
}

/// What an [`ExaSearchRequest`] holds.
#[verifier::ext_equal]
pub struct ExaSearchRequestView {
    pub query: Seq<char>,
    pub num_results: usize,
    pub include_domains: Option<Seq<Seq<char>>>,
    pub exclude_domains: Option<Seq<Seq<char>>>,
    pub contents: ExaContents,
}

impl DeepView for ExaSearchRequest {
    type V = ExaSearchRequestView;

    open spec fn deep_view(&self) -> Self::V {
        ExaSearchRequestView {
            query: self.query.deep_view(),
            num_results: self.num_results.deep_view(),
            include_domains: self.include_domains.deep_view(),
            exclude_domains: self.exclude_domains.deep_view(),
            contents: self.contents.deep_view(),
        }
    }
}

impl Replica for ExaSearchRequest {
    fn replica(&self) -> (r: Self) {
        ExaSearchRequest {
            query: self.query.replica(),
            num_results: self.num_results.replica(),
            include_domains: self.include_domains.replica(),
            exclude_domains: self.exclude_domains.replica(),
            contents: self.contents.replica(),
        }
    }
}

impl Clone for ExaSearchRequest {
    fn clone(&self) -> (r: Self)
        ensures
            r.deep_view() == self.deep_view(),
    {
        self.replica()
    }
}

/// A result of a search.
#[derive(Debug, PartialEq, Eq)]
pub struct ExaSearchResult {
    pub title: Option<String>,
    pub url: String,
    pub published_date: Option<String>,
    pub author: Option<String>,
    pub highlights: Vec<String>,
}

/// What an [`ExaSearchResult`] holds.
#[verifier::ext_equal]
pub struct ExaSearchResultView {
    pub title: Option<Seq<char>>,
    pub url: Seq<char>,
    pub published_date: Option<Seq<char>>,
    pub author: Option<Seq<char>>,
    pub highlights: Seq<Seq<char>>,
}

impl DeepView for ExaSearchResult {
    type V = ExaSearchResultView;

    open spec fn deep_view(&self) -> Self::V {
        ExaSearchResultView {
            title: self.title.deep_view(),
            url: self.url.deep_view(),
            published_date: self.published_date.deep_view(),
            author: self.author.deep_view(),
            highlights: self.highlights.deep_view(),
        }
    }
}

impl Replica for ExaSearchResult {
    fn replica(&self) -> (r: Self) {
        ExaSearchResult {
            title: self.title.replica(),
            url: self.url.replica(),
            published_date: self.published_date.replica(),
            author: self.author.replica(),
            highlights: self.highlights.replica(),
        }
    }
}

impl Clone for ExaSearchResult {
    fn clone(&self) -> (r: Self)
        ensures
            r.deep_view() == self.deep_view(),
    {
        self.replica()
    }
}

/// The answer of the provider.
#[derive(Debug, PartialEq, Eq)]
pub struct ExaSearchResponse {
    pub results: Vec<ExaSearchResult>,
}

/// What an [`ExaSearchResponse`] holds.
#[verifier::ext_equal]
pub struct ExaSearchResponseView {
    pub results: Seq<ExaSearchResultView>,
}

impl DeepView for ExaSearchResponse {
    type V = ExaSearchResponseView;

    open spec fn deep_view(&self) -> Self::V {
        ExaSearchResponseView {
            results: self.results.deep_view(),
        }
    }
}

impl Replica for ExaSearchResponse {
    fn replica(&self) -> (r: Self) {
        ExaSearchResponse {
            results: self.results.replica(),
        }
    }
}

impl Clone for ExaSearchResponse {
    fn clone(&self) -> (r: Self)
        ensures
            r.deep_view() == self.deep_view(),
    {
        self.replica()
    }
}

/// What a search gives.
#[derive(Debug, PartialEq, Eq)]
pub struct SearchOutput {
    pub query: String,
    pub results: Vec<ExaSearchResult>,
}

/// What a [`SearchOutput`] holds.
#[verifier::ext_equal]
pub struct SearchOutputView {
    pub query: Seq<char>,
    pub results: Seq<ExaSearchResultView>,
}

impl DeepView for SearchOutput {
    type V = SearchOutputView;

    open spec fn deep_view(&self) -> Self::V {
        SearchOutputView {
            query: self.query.deep_view(),
            results: self.results.deep_view(),
        }
    }
}

impl Replica for SearchOutput {
    fn replica(&self) -> (r: Self) {
        SearchOutput {
            query: self.query.replica(),
            results: self.results.replica(),
        }
    }
}

impl Clone for SearchOutput {
    fn clone(&self) -> (r: Self)
        ensures
            r.deep_view() == self.deep_view(),
    {
        self.replica()
    }
}

/// How the provider answered.
#[derive(Debug, PartialEq, Eq)]
pub struct SearchReply {
    pub success: bool,
    pub status: String,
    pub body: String,
}

/// What a [`SearchReply`] holds.
#[verifier::ext_equal]
pub struct SearchReplyView {
    pub success: bool,
    pub status: Seq<char>,
    pub body: Seq<char>,
}

impl DeepView for SearchReply {
    type V = SearchReplyView;

    open spec fn deep_view(&self) -> Self::V {
        SearchReplyView {
            success: self.success.deep_view(),
            status: self.status.deep_view(),
            body: self.body.deep_view(),
        }
    }
}

impl Replica for SearchReply {
    fn replica(&self) -> (r: Self) {
        SearchReply {
            success: self.success.replica(),
            status: self.status.replica(),
            body: self.body.replica(),
        }
    }
}

impl Clone for SearchReply {
    fn clone(&self) -> (r: Self)
        ensures
            r.deep_view() == self.deep_view(),
    {
        self.replica()
    }
}

/// How a search ended.
#[derive(Clone, Copy, Debug, PartialEq, Eq, Structural)]
pub enum WebSearchOutcome {
    Succeeded,
    InvalidArguments,
    HttpError,
    Failed,
}

impl DeepView for WebSearchOutcome {
    type V = WebSearchOutcome;

    open spec fn deep_view(&self) -> Self::V {
        *self
    }
}

impl Replica for WebSearchOutcome {
    fn replica(&self) -> (r: Self) {
        *self
    }
}

impl Same for WebSearchOutcome {
    fn same(&self, other: &Self) -> (r: bool) {
        *self == *other
    }
}

/// What is measured of a search.
#[derive(Debug, PartialEq, Eq)]
pub enum WebSearchMetric {
    Finished {
        outcome: WebSearchOutcome,
        duration: TimeSpan,
        result_count: usize,
        response_bytes: usize,
    },
}

/// What a [`WebSearchMetric`] holds.
#[verifier::ext_equal]
pub enum WebSearchMetricView {
    Finished {
        outcome: WebSearchOutcome,
        duration: nat,
        result_count: usize,
        response_bytes: usize,
    },
}

impl DeepView for WebSearchMetric {
    type V = WebSearchMetricView;

    open spec fn deep_view(&self) -> Self::V {
        match self {
            WebSearchMetric::Finished { outcome, duration, result_count, response_bytes } =>
                WebSearchMetricView::Finished {
                outcome: outcome.deep_view(),
                duration: duration.deep_view(),
                result_count: result_count.deep_view(),
                response_bytes: response_bytes.deep_view(),
            },
        }
    }
}

impl Replica for WebSearchMetric {
    fn replica(&self) -> (r: Self) {
        match self {
            WebSearchMetric::Finished { outcome, duration, result_count, response_bytes } =>
                WebSearchMetric::Finished {
                outcome: outcome.replica(),
                duration: duration.replica(),
                result_count: result_count.replica(),
                response_bytes: response_bytes.replica(),
            },
        }
    }
}

impl Clone for WebSearchMetric {
    fn clone(&self) -> (r: Self)
        ensures
            r.deep_view() == self.deep_view(),
    {
        self.replica()
    }
}

/// The schema of the arguments of `web_search`.
pub open spec fn search_parameters() -> JsonView {
    JsonView::Object(
        Map::<Seq<char>, JsonView>::empty()
            .insert("type"@, JsonView::Text("object"@))
            .insert(
                "properties"@,
                JsonView::Object(
                    Map::<Seq<char>, JsonView>::empty()
                        .insert(
                            "query"@,
                            JsonView::Object(
                                Map::<Seq<char>, JsonView>::empty()
                                    .insert("type"@, JsonView::Text("string"@))
                                    .insert(
                                        "description"@,
                                        JsonView::Text("The web search query."@),
                                    ),
                            ),
                        )
                        .insert(
                            "max_results"@,
                            JsonView::Object(
                                Map::<Seq<char>, JsonView>::empty()
                                    .insert("type"@, JsonView::Text("integer"@))
                                    .insert("minimum"@, JsonView::Number(NumberView::Unsigned(1)))
                                    .insert("maximum"@, JsonView::Number(NumberView::Unsigned(20)))
                                    .insert(
                                        "description"@,
                                        JsonView::Text("Maximum number of sources to return."@),
                                    ),
                            ),
                        )
                        .insert(
                            "include_domains"@,
                            JsonView::Object(
                                Map::<Seq<char>, JsonView>::empty()
                                    .insert("type"@, JsonView::Text("array"@))
                                    .insert(
                                        "items"@,
                                        JsonView::Object(
                                            Map::<Seq<char>, JsonView>::empty().insert(
                                                "type"@,
                                                JsonView::Text("string"@),
                                            ),
                                        ),
                                    )
                                    .insert(
                                        "description"@,
                                        JsonView::Text(
                                            "Optional domain allowlist, such as [\"docs.rs\"]."@,
                                        ),
                                    ),
                            ),
                        )
                        .insert(
                            "exclude_domains"@,
                            JsonView::Object(
                                Map::<Seq<char>, JsonView>::empty()
                                    .insert("type"@, JsonView::Text("array"@))
                                    .insert(
                                        "items"@,
                                        JsonView::Object(
                                            Map::<Seq<char>, JsonView>::empty().insert(
                                                "type"@,
                                                JsonView::Text("string"@),
                                            ),
                                        ),
                                    )
                                    .insert(
                                        "description"@,
                                        JsonView::Text("Optional domains to exclude."@),
                                    ),
                            ),
                        ),
                ),
            )
            .insert("required"@, JsonView::Array(seq![JsonView::Text("query"@)]))
            .insert("additionalProperties"@, JsonView::Bool(false)),
    )
}

fn make_search_parameters() -> (r: Json)
    ensures
        r.deep_view() == search_parameters(),
{
    Json::object(
        no_members()
            .with("type", Json::text("object"))
            .with(
                "properties",
                Json::object(
                    no_members()
                        .with(
                            "query",
                            Json::object(
                                no_members()
                                    .with("type", Json::text("string"))
                                    .with("description", Json::text("The web search query.")),
                            ),
                        )
                        .with(
                            "max_results",
                            Json::object(
                                no_members()
                                    .with("type", Json::text("integer"))
                                    .with("minimum", Json::unsigned(1))
                                    .with("maximum", Json::unsigned(20))
                                    .with(
                                        "description",
                                        Json::text("Maximum number of sources to return."),
                                    ),
                            ),
                        )
                        .with(
                            "include_domains",
                            Json::object(
                                no_members()
                                    .with("type", Json::text("array"))
                                    .with(
                                        "items",
                                        Json::object(
                                            no_members().with("type", Json::text("string")),
                                        ),
                                    )
                                    .with(
                                        "description",
                                        Json::text(
                                            "Optional domain allowlist, such as [\"docs.rs\"].",
                                        ),
                                    ),
                            ),
                        )
                        .with(
                            "exclude_domains",
                            Json::object(
                                no_members()
                                    .with("type", Json::text("array"))
                                    .with(
                                        "items",
                                        Json::object(
                                            no_members().with("type", Json::text("string")),
                                        ),
                                    )
                                    .with(
                                        "description",
                                        Json::text("Optional domains to exclude."),
                                    ),
                            ),
                        ),
                ),
            )
            .with("required", list1(Json::text("query")))
            .with("additionalProperties", Json::Bool(false)),
    )
}

/// A list of texts as a document.
pub open spec fn domains_json(values: Seq<Seq<char>>) -> JsonView {
    JsonView::Array(values.map_values(|value: Seq<char>| JsonView::Text(value)))
}

/// A list of texts as a document.
pub fn make_domains(values: &Vec<String>) -> (r: Json)
    ensures
        r.deep_view() == domains_json(values.deep_view()),
{
    let ghost want = values.deep_view().map_values(|value: Seq<char>| JsonView::Text(value));
    let mut items: Vec<Json> = Vec::new();
    assert(items.deep_view() =~= want.take(0));
    for i in 0..values.len()
        invariant
            want == values.deep_view().map_values(|value: Seq<char>| JsonView::Text(value)),
            items.deep_view() == want.take(i as int),
    {
        let ghost before = items.deep_view();
        let item = Json::text(values[i].as_str());
        items.push(item);
        assert(items.deep_view() =~= before.push(item.deep_view()));
        assert(want[i as int] == item.deep_view());
        assert(want.take(i + 1) =~= want.take(i as int).push(want[i as int]));
    }
    assert(want.take(values.len() as int) =~= want);
    Json::array(items)
}

/// A list of texts that a document holds under a key.
pub open spec fn domains_field(
    json: JsonView,
    key: Seq<char>,
) -> Option<Seq<Seq<char>>> {
    match member(json, key) {
        Some(JsonView::Array(items)) => if forall|i: int| 0 <= i < items.len() ==> (#[trigger] text_item_of(items[i])) is Some {
            Some(Seq::new(items.len(), |i: int| text_item_of(items[i])->Some_0))
        } else {
            None
        },
        _ => None,
    }
}

/// Reads a list of texts.
pub fn read_domains_field(json: &Json, key: &str) -> (r: core::result::Result<Vec<String>, String>)
    ensures
        match r {
            Ok(value) => domains_field(json.deep_view(), key@)
                == Some(value.deep_view()),
            Err(_) => domains_field(json.deep_view(), key@) is None,
        },
{
    let items = match json.get(key) {
        Some(value) => match value.as_array() {
            Some(items) => items,
            None => return Err(make_wrong_field(key, "a list")),
        },
        None => return Err(make_missing_field(key)),
    };
    let ghost views = items.deep_view();
    let mut values: Vec<String> = Vec::new();
    for i in 0..items.len()
        invariant
            views == items.deep_view(),
            member(json.deep_view(), key@) == Some(JsonView::Array(views)),
            values@.len() == i,
            forall|j: int| 0 <= j < i ==> (#[trigger] text_item_of(views[j])) is Some,
            forall|j: int|
                0 <= j < i ==> (#[trigger] values@[j]).deep_view()
                    == text_item_of(views[j])->Some_0,
    {
        match read_text_item(&items[i]) {
            Ok(value) => {
                values.push(value);
            },
            Err(error) => {
                assert(text_item_of(views[i as int]) is None);
                return Err(error);
            },
        }
    }
    assert(values.deep_view() =~= Seq::new(views.len(), |i: int| text_item_of(views[i])->Some_0));
    Ok(values)
}

/// How many results a search gives unless another number is asked for.
pub const DEFAULT_MAX_RESULTS: usize = 5;

/// How many results a search gives at most.
pub const MAX_RESULTS: usize = 20;

/// How long the output of a search can be.
pub const MAX_OUTPUT_BYTES: usize = 524_288;

impl ExaWebSearchConfig {
    /// The usual configuration.
    pub fn new(api_key: &str) -> (r: Self)
        ensures
            r.deep_view() == (ExaWebSearchConfigView {
                api_key: api_key@,
                base_url: "https://api.exa.ai"@,
                default_max_results: DEFAULT_MAX_RESULTS,
                timeout: 30_000_000_000,
            }),
    {
        ExaWebSearchConfig {
            api_key: api_key.to_owned(),
            base_url: "https://api.exa.ai".to_owned(),
            default_max_results: DEFAULT_MAX_RESULTS,
            timeout: TimeSpan::from_secs(30),
        }
    }

    /// The same configuration with another address.
    pub fn with_base_url(self, base_url: &str) -> (r: Self)
        ensures
            r.deep_view() == (ExaWebSearchConfigView { base_url: base_url@, ..self.deep_view() }),
    {
        let mut r = self;
        r.base_url = base_url.to_owned();
        r
    }

    /// The same configuration with another number of results, brought into the range that is
    /// accepted.
    pub fn with_default_max_results(self, max_results: usize) -> (r: Self)
        ensures
            r.deep_view() == (ExaWebSearchConfigView {
                default_max_results: if max_results < 1 {
                    1
                } else if max_results > MAX_RESULTS {
                    MAX_RESULTS
                } else {
                    max_results
                },
                ..self.deep_view()
            }),
    {
        let mut r = self;
        r.default_max_results = if max_results < 1 {
            1
        } else if max_results > MAX_RESULTS {
            MAX_RESULTS
        } else {
            max_results
        };
        r
    }

    /// The same configuration with another time limit.
    pub fn with_timeout(self, timeout: TimeSpan) -> (r: Self)
        ensures
            r.deep_view() == (ExaWebSearchConfigView {
                timeout: timeout.deep_view(),
                ..self.deep_view()
            }),
    {
        let mut r = self;
        r.timeout = timeout;
        r
    }
}

/// The address that a search is sent to.
pub open spec fn search_url(base_url: Seq<char>) -> Seq<char> {
    without_slashes(base_url) + "/search"@
}

/// The address that a search is sent to.
pub fn make_search_url(base_url: &str) -> (r: String)
    ensures
        r@ == search_url(base_url@),
{
    glue2(drop_slashes(base_url), "/search")
}

/// What is said of a member of the arguments that cannot stand there.
pub open spec fn search_issue(key: Seq<char>, value: JsonView) -> Option<Seq<char>> {
    if key == "query"@ {
        match text_of(value) {
            Err(error) => Some(error),
            Ok(_) => None,
        }
    } else if key == "max_results"@ {
        match nullable_count_of(value) {
            Err(error) => Some(error),
            Ok(_) => None,
        }
    } else if key == "include_domains"@ || key == "exclude_domains"@ {
        match nullable_texts_of(value) {
            Err(error) => Some(error),
            Ok(_) => None,
        }
    } else {
        Some(
            "unknown field `"@ + key
                + "`, expected one of `query`, `max_results`, `include_domains`, `exclude_domains`"@,
        )
    }
}

fn find_search_issue(key: &str, value: &Json) -> (r: Option<String>)
    ensures
        r.deep_view() == search_issue(key@, value.deep_view()),
{
    if same_text(key, "query") {
        match read_text(value) {
            Err(error) => Some(error),
            Ok(_) => None,
        }
    } else if same_text(key, "max_results") {
        match read_nullable_count(value) {
            Err(error) => Some(error),
            Ok(_) => None,
        }
    } else if same_text(key, "include_domains") || same_text(key, "exclude_domains") {
        match read_nullable_texts(value) {
            Err(error) => Some(error),
            Ok(_) => None,
        }
    } else {
        Some(
            glue3(
                "unknown field `",
                key,
                "`, expected one of `query`, `max_results`, `include_domains`, `exclude_domains`",
            ),
        )
    }
}

/// What is said of the first member that cannot stand in the arguments.
pub open spec fn first_search_issue(
    members: Map<Seq<char>, JsonView>,
    keys: Seq<Seq<char>>,
) -> Option<Seq<char>>
    decreases keys.len(),
{
    if keys.len() == 0 {
        None
    } else {
        match search_issue(keys[0], members[keys[0]]) {
            Some(error) => Some(error),
            None => first_search_issue(members, keys.drop_first()),
        }
    }
}

/// The request that the members of an object are. Members are read in ascending order of their
/// keys.
pub open spec fn search_members(members: Map<Seq<char>, JsonView>) -> core::result::Result<
    SearchRequestView,
    Seq<char>,
> {
    match first_search_issue(members, sorted_keys(members.dom())) {
        Some(error) => Err(error),
        None => if !members.contains_key("query"@) {
            Err(missing_field("query"@))
        } else {
            Ok(
                SearchRequestView {
                    query: text_of(members["query"@])->Ok_0,
                    max_results: if members.contains_key("max_results"@) {
                        nullable_count_of(members["max_results"@])->Ok_0
                    } else {
                        None
                    },
                    include_domains: if members.contains_key("include_domains"@) {
                        nullable_texts_of(members["include_domains"@])->Ok_0
                    } else {
                        None
                    },
                    exclude_domains: if members.contains_key("exclude_domains"@) {
                        nullable_texts_of(members["exclude_domains"@])->Ok_0
                    } else {
                        None
                    },
                },
            )
        },
    }
}

fn read_search_members(members: &TextMap<Json>) -> (r: core::result::Result<SearchRequest, String>)
    ensures
        match r {
            Ok(request) => search_members(members.deep_view()) == Ok::<
                SearchRequestView,
                Seq<char>,
            >(request.deep_view()),
            Err(error) => search_members(members.deep_view()) == Err::<
                SearchRequestView,
                Seq<char>,
            >(error@),
        },
{
    let ghost views = members.deep_view();
    proof {
        lemma_object_view(*members);
        assert(views.dom() =~= members@.dom());
    }
    let n: usize = members.walk();
    let ghost keys = members.keys();
    assert(keys.skip(0) =~= keys);
    for i in 0..n
        invariant
            n == keys.len(),
            keys == members.keys(),
            views == members.deep_view(),
            views.dom() == members@.dom(),
            first_search_issue(views, keys) == first_search_issue(views, keys.skip(i as int)),
            forall|j: int| 0 <= j < i ==> search_issue(#[trigger] keys[j], views[keys[j]]) is None,
    {
        assert(keys.skip(i as int)[0] == keys[i as int]);
        assert(keys.skip(i as int).drop_first() =~= keys.skip(i + 1));
        if let Some(error) = find_search_issue(members.key_at(i).as_str(), members.value_at(i)) {
            return Err(error);
        }
    }
    proof {
        assert forall|key: Seq<char>| views.contains_key(key) implies search_issue(
            key,
            #[trigger] views[key],
        ) is None by {
            assert(keys.contains(key));
            let j = choose|j: int| 0 <= j < keys.len() && keys[j] == key;
            assert(keys[j] == key);
        }
        lemma_search_fields();
    }
    let query = match members.get("query") {
        None => return Err(make_missing_field("query")),
        Some(value) => match read_text(value) {
            Ok(query) => query,
            Err(error) => {
                assert(search_issue("query"@, views["query"@]) is None);
                return Err(error);
            },
        },
    };
    let max_results = match members.get("max_results") {
        None => None,
        Some(value) => match read_nullable_count(value) {
            Ok(max_results) => max_results,
            Err(error) => {
                assert(search_issue("max_results"@, views["max_results"@]) is None);
                return Err(error);
            },
        },
    };
    let include_domains = match members.get("include_domains") {
        None => None,
        Some(value) => match read_nullable_texts(value) {
            Ok(include_domains) => include_domains,
            Err(error) => {
                assert(search_issue("include_domains"@, views["include_domains"@]) is None);
                return Err(error);
            },
        },
    };
    let exclude_domains = match members.get("exclude_domains") {
        None => None,
        Some(value) => match read_nullable_texts(value) {
            Ok(exclude_domains) => exclude_domains,
            Err(error) => {
                assert(search_issue("exclude_domains"@, views["exclude_domains"@]) is None);
                return Err(error);
            },
        },
    };
    Ok(SearchRequest { query, max_results, include_domains, exclude_domains })
}

proof fn lemma_search_fields()
    ensures
        "query"@ != "max_results"@,
        "query"@ != "include_domains"@,
        "query"@ != "exclude_domains"@,
        "max_results"@ != "include_domains"@,
        "max_results"@ != "exclude_domains"@,
        "include_domains"@ != "exclude_domains"@,
{
    reveal_strlit("query");
    reveal_strlit("max_results");
    reveal_strlit("include_domains");
    reveal_strlit("exclude_domains");
    assert("query"@.len() != "max_results"@.len());
    assert("query"@.len() != "include_domains"@.len());
    assert("query"@.len() != "exclude_domains"@.len());
    assert("max_results"@.len() != "include_domains"@.len());
    assert("max_results"@.len() != "exclude_domains"@.len());
    assert("include_domains"@[0] != "exclude_domains"@[0]);
}

/// What is said of too few items for a request.
pub open spec fn short_request(items: nat) -> Seq<char> {
    wrong_length(items, "struct SearchRequest with 4 elements"@)
}

/// The request that items are: the query, the number of results, and the domains to keep to and to
/// leave out.
pub open spec fn search_items(items: Seq<JsonView>) -> core::result::Result<
    SearchRequestView,
    Seq<char>,
> {
    if items.len() == 0 {
        Err(short_request(0))
    } else {
        match text_of(items[0]) {
            Err(error) => Err(error),
            Ok(query) => if items.len() == 1 {
                Err(short_request(1))
            } else {
                match nullable_count_of(items[1]) {
                    Err(error) => Err(error),
                    Ok(max_results) => if items.len() == 2 {
                        Err(short_request(2))
                    } else {
                        match nullable_texts_of(items[2]) {
                            Err(error) => Err(error),
                            Ok(include_domains) => if items.len() == 3 {
                                Err(short_request(3))
                            } else {
                                match nullable_texts_of(items[3]) {
                                    Err(error) => Err(error),
                                    Ok(exclude_domains) => if items.len() > 4 {
                                        Err(wrong_length(items.len(), "fewer elements in array"@))
                                    } else {
                                        Ok(
                                            SearchRequestView {
                                                query,
                                                max_results,
                                                include_domains,
                                                exclude_domains,
                                            },
                                        )
                                    },
                                }
                            },
                        }
                    },
                }
            },
        }
    }
}

fn read_search_items(items: &Vec<Json>) -> (r: core::result::Result<SearchRequest, String>)
    ensures
        match r {
            Ok(request) => search_items(items.deep_view()) == Ok::<SearchRequestView, Seq<char>>(
                request.deep_view(),
            ),
            Err(error) => search_items(items.deep_view()) == Err::<SearchRequestView, Seq<char>>(
                error@,
            ),
        },
{
    let n: usize = items.len();
    if n == 0 {
        return Err(say_wrong_length(0, "struct SearchRequest with 4 elements"));
    }
    let query = match read_text(&items[0]) {
        Ok(query) => query,
        Err(error) => return Err(error),
    };
    if n == 1 {
        return Err(say_wrong_length(1, "struct SearchRequest with 4 elements"));
    }
    let max_results = match read_nullable_count(&items[1]) {
        Ok(max_results) => max_results,
        Err(error) => return Err(error),
    };
    if n == 2 {
        return Err(say_wrong_length(2, "struct SearchRequest with 4 elements"));
    }
    let include_domains = match read_nullable_texts(&items[2]) {
        Ok(include_domains) => include_domains,
        Err(error) => return Err(error),
    };
    if n == 3 {
        return Err(say_wrong_length(3, "struct SearchRequest with 4 elements"));
    }
    let exclude_domains = match read_nullable_texts(&items[3]) {
        Ok(exclude_domains) => exclude_domains,
        Err(error) => return Err(error),
    };
    if n > 4 {
        return Err(say_wrong_length(n, "fewer elements in array"));
    }
    Ok(SearchRequest { query, max_results, include_domains, exclude_domains })
}

/// The request that arguments are, or what is said of arguments that are none.
pub open spec fn search_request_of(arguments: JsonView) -> core::result::Result<
    SearchRequestView,
    Seq<char>,
> {
    match arguments {
        JsonView::Object(members) => search_members(members),
        JsonView::Array(items) => search_items(items),
        _ => Err(wrong_type(arguments, "struct SearchRequest"@)),
    }
}

/// Reads a request from arguments.
pub fn read_search_request(arguments: &Json) -> (r: core::result::Result<SearchRequest, String>)
    ensures
        match r {
            Ok(request) => search_request_of(arguments.deep_view()) == Ok::<
                SearchRequestView,
                Seq<char>,
            >(request.deep_view()),
            Err(error) => search_request_of(arguments.deep_view()) == Err::<
                SearchRequestView,
                Seq<char>,
            >(error@),
        },
{
    match arguments {
        Json::Object(members) => {
            proof {
                lemma_object_view(*members);
            }
            read_search_members(members)
        },
        Json::Array(items) => {
            proof {
                lemma_array_view(*items);
            }
            read_search_items(items)
        },
        _ => Err(say_wrong_type(arguments, "struct SearchRequest")),
    }
}

/// Arguments that the function does not take.
pub open spec fn bad_arguments(message: Seq<char>) -> AgentErrorView {
    AgentErrorView::InvalidFunctionArguments { name: "web_search"@, message }
}

fn reject_arguments(message: String) -> (r: AgentError)
    ensures
        r.deep_view() == bad_arguments(message@),
{
    AgentError::InvalidFunctionArguments { name: "web_search".to_owned(), message }
}

/// The request to the provider that arguments lead to. The query must not be blank, and the number
/// of results must be in the range that is accepted.
pub open spec fn search_prepared(config: ExaWebSearchConfigView, arguments: JsonView) -> core::result::Result<
    ExaSearchRequestView,
    AgentErrorView,
> {
    match search_request_of(arguments) {
        Err(error) => Err(bad_arguments(error)),
        Ok(request) => if is_blank(request.query) {
            Err(bad_arguments("query must not be empty"@))
        } else {
            match request.max_results {
                Some(n) => if 1 <= n <= MAX_RESULTS {
                    Ok(exa_request(request, n))
                } else {
                    Err(bad_arguments("max_results must be between 1 and 20"@))
                },
                None => Ok(exa_request(request, config.default_max_results)),
            }
        },
    }
}

/// The request to the provider for a number of results.
pub open spec fn exa_request(
    request: SearchRequestView,
    num_results: usize,
) -> ExaSearchRequestView {
    ExaSearchRequestView {
        query: request.query,
        num_results,
        include_domains: request.include_domains,
        exclude_domains: request.exclude_domains,
        contents: ExaContents { highlights: true },
    }
}

/// A list of texts under a key, where there is one.
pub open spec fn with_domains(
    members: Map<Seq<char>, JsonView>,
    key: Seq<char>,
    domains: Option<Seq<Seq<char>>>,
) -> Map<Seq<char>, JsonView> {
    match domains {
        Some(domains) => members.insert(key, domains_json(domains)),
        None => members,
    }
}

/// The request to the provider as a document.
pub open spec fn exa_request_json(request: ExaSearchRequestView) -> JsonView {
    let members = Map::<Seq<char>, JsonView>::empty().insert(
        "query"@,
        JsonView::Text(request.query),
    ).insert("numResults"@, JsonView::Number(NumberView::Unsigned(request.num_results as u64)));
    let members = with_domains(members, "includeDomains"@, request.include_domains);
    let members = with_domains(members, "excludeDomains"@, request.exclude_domains);
    JsonView::Object(
        members.insert(
            "contents"@,
            JsonView::Object(
                Map::<Seq<char>, JsonView>::empty().insert(
                    "highlights"@,
                    JsonView::Bool(request.contents.highlights),
                ),
            ),
        ),
    )
}

impl ExaSearchRequest {
    /// The request as a document.
    pub fn to_json(&self) -> (r: Json)
        ensures
            r.deep_view() == exa_request_json(self.deep_view()),
    {
        let members = no_members().with("query", Json::text(self.query.as_str())).with(
            "numResults",
            make_count(self.num_results),
        );
        let members = match &self.include_domains {
            Some(domains) => members.with("includeDomains", make_domains(domains)),
            None => members,
        };
        let members = match &self.exclude_domains {
            Some(domains) => members.with("excludeDomains", make_domains(domains)),
            None => members,
        };
        Json::object(
            members.with(
                "contents",
                Json::object(
                    no_members().with("highlights", Json::Bool(self.contents.highlights)),
                ),
            ),
        )
    }
}

/// A field that is an empty list where it is left out.
pub open spec fn defaulted_domains_of(json: JsonView, key: Seq<char>) -> Option<Seq<Seq<char>>> {
    match member(json, key) {
        None => Some(Seq::empty()),
        Some(_) => domains_field(json, key),
    }
}

/// The result that a document is.
pub open spec fn exa_search_result_of(json: JsonView) -> Option<ExaSearchResultView> {
    let json = fielded(json, seq!["title"@, "url"@, "publishedDate"@, "author"@, "highlights"@], 4);
    match optional_text_of(json, "title"@) {
        None => None,
        Some(title) => match required_text_of(json, "url"@) {
            None => None,
            Some(url) => match optional_text_of(json, "publishedDate"@) {
                None => None,
                Some(published_date) => match optional_text_of(json, "author"@) {
                    None => None,
                    Some(author) => match defaulted_domains_of(json, "highlights"@) {
                        None => None,
                        Some(highlights) => Some(
                            ExaSearchResultView { title, url, published_date, author, highlights },
                        ),
                    },
                },
            },
        },
    }
}

/// Reads a result.
pub fn read_exa_search_result(json: &Json) -> (r: core::result::Result<ExaSearchResult, String>)
    ensures
        match r {
            Ok(value) => exa_search_result_of(json.deep_view()) == Some(value.deep_view()),
            Err(_) => exa_search_result_of(json.deep_view()) is None,
        },
{
    let names: Vec<&str> = vec!["title", "url", "publishedDate", "author", "highlights"];
    assert(names_of(names@) =~= seq!["title"@, "url"@, "publishedDate"@, "author"@, "highlights"@]);
    let json = &as_fields(json, &names, 4);
    let title = match optional_text(json, "title") {
        Ok(title) => title,
        Err(error) => return Err(error),
    };
    let url = match required_text(json, "url") {
        Ok(url) => url,
        Err(error) => return Err(error),
    };
    let published_date = match optional_text(json, "publishedDate") {
        Ok(published_date) => published_date,
        Err(error) => return Err(error),
    };
    let author = match optional_text(json, "author") {
        Ok(author) => author,
        Err(error) => return Err(error),
    };
    let highlights = match json.get("highlights") {
        None => {
            let none: Vec<String> = Vec::new();
            assert(none.deep_view() =~= Seq::<Seq<char>>::empty());
            none
        },
        Some(_) => match read_domains_field(json, "highlights") {
            Ok(highlights) => highlights,
            Err(error) => return Err(error),
        },
    };
    Ok(ExaSearchResult { title, url, published_date, author, highlights })
}

/// A result as a document.
pub open spec fn exa_search_result_json(result: ExaSearchResultView) -> JsonView {
    let members = Map::<Seq<char>, JsonView>::empty().insert(
        "title"@,
        optional_text_json(result.title),
    ).insert("url"@, JsonView::Text(result.url)).insert(
        "author"@,
        optional_text_json(result.author),
    ).insert("highlights"@, domains_json(result.highlights));
    JsonView::Object(
        match result.published_date {
            Some(date) => members.insert("publishedDate"@, JsonView::Text(date)),
            None => members,
        },
    )
}

/// A result as a document.
pub fn make_exa_search_result(result: &ExaSearchResult) -> (r: Json)
    ensures
        r.deep_view() == exa_search_result_json(result.deep_view()),
{
    let members = no_members().with("title", make_optional_text(&result.title)).with(
        "url",
        Json::text(result.url.as_str()),
    ).with("author", make_optional_text(&result.author)).with(
        "highlights",
        make_domains(&result.highlights),
    );
    Json::object(
        match &result.published_date {
            Some(date) => members.with("publishedDate", Json::text(date.as_str())),
            None => members,
        },
    )
}

/// The results of a search as a document.
pub open spec fn search_results_json(values: Seq<ExaSearchResultView>) -> JsonView {
    JsonView::Array(values.map_values(|value: ExaSearchResultView| exa_search_result_json(value)))
}

/// The results of a search as a document.
pub fn make_search_results(values: &Vec<ExaSearchResult>) -> (r: Json)
    ensures
        r.deep_view() == search_results_json(values.deep_view()),
{
    let ghost want = values.deep_view().map_values(
        |value: ExaSearchResultView| exa_search_result_json(value),
    );
    let mut items: Vec<Json> = Vec::new();
    assert(items.deep_view() =~= want.take(0));
    for i in 0..values.len()
        invariant
            want == values.deep_view().map_values(
                |value: ExaSearchResultView| exa_search_result_json(value),
            ),
            items.deep_view() == want.take(i as int),
    {
        let ghost before = items.deep_view();
        let item = make_exa_search_result(&values[i]);
        items.push(item);
        assert(items.deep_view() =~= before.push(item.deep_view()));
        assert(want[i as int] == item.deep_view());
        assert(want.take(i + 1) =~= want.take(i as int).push(want[i as int]));
    }
    assert(want.take(values.len() as int) =~= want);
    Json::array(items)
}

/// The results of a search that a document holds under a key.
pub open spec fn search_results_field(
    json: JsonView,
    key: Seq<char>,
) -> Option<Seq<ExaSearchResultView>> {
    match member(json, key) {
        Some(JsonView::Array(items)) => if forall|i: int| 0 <= i < items.len() ==> (#[trigger] exa_search_result_of(items[i])) is Some {
            Some(Seq::new(items.len(), |i: int| exa_search_result_of(items[i])->Some_0))
        } else {
            None
        },
        _ => None,
    }
}

/// Reads the results of a search.
pub fn read_search_results_field(
    json: &Json,
    key: &str,
) -> (r: core::result::Result<Vec<ExaSearchResult>, String>)
    ensures
        match r {
            Ok(value) => search_results_field(json.deep_view(), key@)
                == Some(value.deep_view()),
            Err(_) => search_results_field(json.deep_view(), key@) is None,
        },
{
    let items = match json.get(key) {
        Some(value) => match value.as_array() {
            Some(items) => items,
            None => return Err(make_wrong_field(key, "a list")),
        },
        None => return Err(make_missing_field(key)),
    };
    let ghost views = items.deep_view();
    let mut values: Vec<ExaSearchResult> = Vec::new();
    for i in 0..items.len()
        invariant
            views == items.deep_view(),
            member(json.deep_view(), key@) == Some(JsonView::Array(views)),
            values@.len() == i,
            forall|j: int| 0 <= j < i ==> (#[trigger] exa_search_result_of(views[j])) is Some,
            forall|j: int|
                0 <= j < i ==> (#[trigger] values@[j]).deep_view()
                    == exa_search_result_of(views[j])->Some_0,
    {
        match read_exa_search_result(&items[i]) {
            Ok(value) => {
                values.push(value);
            },
            Err(error) => {
                assert(exa_search_result_of(views[i as int]) is None);
                return Err(error);
            },
        }
    }
    assert(values.deep_view() =~= Seq::new(views.len(), |i: int| exa_search_result_of(views[i])->Some_0));
    Ok(values)
}

/// The answer that a document is. One without results has none.
pub open spec fn exa_search_response_of(json: JsonView) -> Option<ExaSearchResponseView> {
    let json = fielded(json, seq!["results"@], 0);
    match member(json, "results"@) {
        None => if json is Object {
            Some(ExaSearchResponseView { results: Seq::empty() })
        } else {
            None
        },
        Some(_) => match search_results_field(json, "results"@) {
            Some(results) => Some(ExaSearchResponseView { results }),
            None => None,
        },
    }
}

/// Reads the answer of the provider.
pub fn read_exa_search_response(json: &Json) -> (r: core::result::Result<
    ExaSearchResponse,
    String,
>)
    ensures
        match r {
            Ok(value) => exa_search_response_of(json.deep_view()) == Some(value.deep_view()),
            Err(_) => exa_search_response_of(json.deep_view()) is None,
        },
{
    let names: Vec<&str> = vec!["results"];
    assert(names_of(names@) =~= seq!["results"@]);
    let json = &as_fields(json, &names, 0);
    match json.get("results") {
        None => {
            if let Json::Object(_) = json {
                let r = ExaSearchResponse { results: Vec::new() };
                assert(r.deep_view() =~= ExaSearchResponseView { results: Seq::empty() });
                Ok(r)
            } else {
                Err(make_missing_field("results"))
            }
        },
        Some(_) => match read_search_results_field(json, "results") {
            Ok(results) => Ok(ExaSearchResponse { results }),
            Err(error) => Err(error),
        },
    }
}

/// What a search gives, as a document.
pub open spec fn search_output_json(output: SearchOutputView) -> JsonView {
    JsonView::Object(
        Map::<Seq<char>, JsonView>::empty().insert("query"@, JsonView::Text(output.query)).insert(
            "results"@,
            search_results_json(output.results),
        ),
    )
}

/// What a search gives, as a document.
pub fn make_search_output(output: &SearchOutput) -> (r: Json)
    ensures
        r.deep_view() == search_output_json(output.deep_view()),
{
    Json::object(
        no_members().with("query", Json::text(output.query.as_str())).with(
            "results",
            make_search_results(&output.results),
        ),
    )
}

/// The results that a text is, where it holds each field once.
pub open spec fn search_response_read(
    text: Seq<char>,
    document: Option<JsonView>,
) -> Option<ExaSearchResponseView> {
    match document {
        Some(json) => if is_unambiguous(text, Shape::SearchResponse) {
            exa_search_response_of(json)
        } else {
            None
        },
        None => None,
    }
}

/// What a search comes to, given how the provider answered and what document the answer is. Where
/// the document holds no results, `wording` says what is wrong with it.
pub open spec fn search_settled(
    query: Seq<char>,
    reply: SearchReplyView,
    document: core::result::Result<Option<JsonView>, JsonErrorView>,
    wording: Seq<char>,
) -> core::result::Result<SearchOutputView, AgentErrorView> {
    if !reply.success {
        Err(
            AgentErrorView::Http(
                "Exa web search returned HTTP "@ + reply.status + ": "@ + reply.body,
            ),
        )
    } else {
        match document {
            Err(error) => Err(
                AgentErrorView::Http("invalid Exa web search response: "@ + error.message),
            ),
            Ok(document) => match search_response_read(reply.body, document) {
                None => Err(AgentErrorView::Http("invalid Exa web search response: "@ + wording)),
                Some(response) => Ok(SearchOutputView { query, results: response.results }),
            },
        }
    }
}

/// Tells what a search comes to, given how the provider answered. What is said of a document that
/// holds no results is left open.
pub fn settle_search(query: String, reply: &SearchReply) -> (r: core::result::Result<
    SearchOutput,
    AgentError,
>)
    ensures
        exists|wording: Seq<char>|
            outcome_of(r) == #[trigger] search_settled(
                query@,
                reply.deep_view(),
                document_read(reply.body@, Shape::SearchResponse),
                wording,
            ),
{
    let ghost settled = |wording: Seq<char>|
        search_settled(query@, reply.deep_view(), document_read(reply.body@, Shape::SearchResponse), wording);
    if !reply.success {
        assert(settled(""@) is Err);
        return Err(
            AgentError::Http(
                glue4(
                    "Exa web search returned HTTP ",
                    reply.status.as_str(),
                    ": ",
                    reply.body.as_str(),
                ),
            ),
        );
    }
    let json = match read_document(reply.body.as_str(), Shape::SearchResponse) {
        Ok(Some(json)) => json,
        Ok(None) => {
            let message = "a field cannot be read";
            assert(settled(message@) is Err);
            return Err(AgentError::Http(glue2("invalid Exa web search response: ", message)));
        },
        Err(error) => {
            assert(settled(""@) is Err);
            return Err(
                AgentError::Http(
                    glue2("invalid Exa web search response: ", error.message.as_str()),
                ),
            );
        },
    };
    match read_exa_search_response(&json) {
        Ok(response) => {
            if !unambiguous(reply.body.as_str(), Shape::SearchResponse) {
                let message = "a field stands twice";
                assert(settled(message@) is Err);
                return Err(AgentError::Http(glue2("invalid Exa web search response: ", message)));
            }
            assert(settled(""@) is Ok);
            Ok(SearchOutput { query, results: response.results })
        },
        Err(error) => {
            assert(settled(error@) is Err);
            Err(AgentError::Http(glue2("invalid Exa web search response: ", error.as_str())))
        },
    }
}

/// What a call of the function comes to.
pub open spec fn search_execution(
    result: core::result::Result<SearchOutputView, AgentErrorView>,
) -> core::result::Result<FunctionExecutionView, AgentErrorView> {
    match result {
        Ok(output) => Ok(
            FunctionExecutionView::Completed { output: search_output_json(output) },
        ),
        Err(error) => Err(error),
    }
}

/// Ends a call of the function.
pub fn finish_search(result: core::result::Result<SearchOutput, AgentError>) -> (r: core::result::Result<
    FunctionExecution,
    AgentError,
>)
    ensures
        outcome_of(r) == search_execution(outcome_of(result)),
{
    match result {
        Ok(output) => Ok(FunctionExecution::Completed { output: make_search_output(&output) }),
        Err(error) => Err(error),
    }
}

impl WebSearchOutcome {
    /// How an outcome is called.
    pub open spec fn label(self) -> Seq<char> {
        match self {
            WebSearchOutcome::Succeeded => "succeeded"@,
            WebSearchOutcome::InvalidArguments => "invalid_arguments"@,
            WebSearchOutcome::HttpError => "http_error"@,
            WebSearchOutcome::Failed => "failed"@,
        }
    }

    /// How the outcome is called.
    pub fn as_str(self) -> (r: &'static str)
        ensures
            r@ == self.label(),
    {
        match self {
            WebSearchOutcome::Succeeded => "succeeded",
            WebSearchOutcome::InvalidArguments => "invalid_arguments",
            WebSearchOutcome::HttpError => "http_error",
            WebSearchOutcome::Failed => "failed",
        }
    }
}

/// How a search ended.
pub open spec fn search_outcome(
    result: core::result::Result<SearchOutputView, AgentErrorView>,
) -> WebSearchOutcome {
    match result {
        Ok(_) => WebSearchOutcome::Succeeded,
        Err(AgentErrorView::InvalidFunctionArguments { name: _, message: _ }) =>
            WebSearchOutcome::InvalidArguments,
        Err(AgentErrorView::Http(_)) => WebSearchOutcome::HttpError,
        Err(_) => WebSearchOutcome::Failed,
    }
}

/// Tells how a search ended.
pub fn web_search_outcome(
    result: &core::result::Result<SearchOutput, AgentError>,
) -> (r: WebSearchOutcome)
    ensures
        r == search_outcome(outcome_of(*result)),
{
    match result {
        Ok(_) => WebSearchOutcome::Succeeded,
        Err(AgentError::InvalidFunctionArguments { name: _, message: _ }) =>
            WebSearchOutcome::InvalidArguments,
        Err(AgentError::Http(_)) => WebSearchOutcome::HttpError,
        Err(_) => WebSearchOutcome::Failed,
    }
}

/// What is measured of a search. A search that failed has no results.
pub open spec fn search_metric(
    result: core::result::Result<SearchOutputView, AgentErrorView>,
    duration: nat,
) -> WebSearchMetricView {
    WebSearchMetricView::Finished {
        outcome: search_outcome(result),
        duration,
        result_count: match result {
            Ok(output) => output.results.len() as usize,
            Err(_) => 0,
        },
        response_bytes: match result {
            Ok(output) => json_size(search_output_json(output)),
            Err(_) => 0,
        },
    }
}

/// Measures a search.
pub fn measure_search(
    result: &core::result::Result<SearchOutput, AgentError>,
    duration: TimeSpan,
) -> (r: WebSearchMetric)
    ensures
        r.deep_view() == search_metric(outcome_of(*result), duration.deep_view()),
{
    let (result_count, response_bytes): (usize, usize) = match result {
        Ok(output) => (output.results.len(), size_of_json(&make_search_output(output))),
        Err(_) => (0, 0),
    };
    WebSearchMetric::Finished {
        outcome: web_search_outcome(result),
        duration,
        result_count,
        response_bytes,
    }
}

/// The `web_search` function.
pub struct ExaWebSearchTool {
    pub config: ExaWebSearchConfig,
}

/// The function as the model sees it.
pub open spec fn search_spec() -> FunctionSpecView {
    FunctionSpecView {
        name: "web_search"@,
        description:
            "Search the live web and return ranked sources with relevant highlights. Use this for current or externally sourced information; cite the returned URLs in the answer."@,
        parameters: search_parameters(),
    }
}

impl ExaWebSearchTool {
    /// The function with a configuration.
    pub fn new(config: ExaWebSearchConfig) -> (r: Self)
        ensures
            r.config == config,
    {
        ExaWebSearchTool { config }
    }

    /// The function as the model sees it.
    pub fn spec(&self) -> (r: FunctionSpec)
        ensures
            r.deep_view() == search_spec(),
    {
        FunctionSpec {
            name: "web_search".to_owned(),
            description:
                "Search the live web and return ranked sources with relevant highlights. Use this for current or externally sourced information; cite the returned URLs in the answer.".to_owned(),
            parameters: make_search_parameters(),
        }
    }

    /// The time limit of the configuration.
    pub fn limits(&self) -> (r: FunctionLimits)
        ensures
            r.deep_view() == (FunctionLimitsView {
                time_budget: self.config.deep_view().timeout,
                max_output_bytes: MAX_OUTPUT_BYTES,
            }),
    {
        FunctionLimits {
            time_budget: self.config.timeout.replica(),
            max_output_bytes: MAX_OUTPUT_BYTES,
        }
    }

    /// A search can be repeated.
    pub fn recovery_policy(&self) -> (r: FunctionRecoveryPolicy)
        ensures
            r == FunctionRecoveryPolicy::Idempotent,
    {
        FunctionRecoveryPolicy::Idempotent
    }

    /// Makes the request to the provider from arguments.
    pub fn prepare(&self, arguments: &Json) -> (r: core::result::Result<
        ExaSearchRequest,
        AgentError,
    >)
        ensures
            outcome_of(r) == search_prepared(self.config.deep_view(), arguments.deep_view()),
    {
        let request = match read_search_request(arguments) {
            Ok(request) => request,
            Err(error) => return Err(reject_arguments(error)),
        };
        if blank(request.query.as_str()) {
            return Err(reject_arguments("query must not be empty".to_owned()));
        }
        let num_results: usize = match request.max_results {
            Some(n) => {
                if !(1 <= n && n <= MAX_RESULTS) {
                    return Err(
                        reject_arguments("max_results must be between 1 and 20".to_owned()),
                    );
                }
                n
            },
            None => self.config.default_max_results,
        };
        Ok(
            ExaSearchRequest {
                query: request.query,
                num_results,
                include_domains: request.include_domains,
                exclude_domains: request.exclude_domains,
                contents: ExaContents { highlights: true },
            },
        )
    }
}

/// Every request that is made asks for at least one result and at most twenty, provided that the
/// configuration does.
pub proof fn law_requests_stay_in_range(config: ExaWebSearchConfigView, arguments: JsonView)
    requires
        1 <= config.default_max_results <= MAX_RESULTS,
        search_prepared(config, arguments) is Ok,
    ensures
        1 <= search_prepared(config, arguments)->Ok_0.num_results <= MAX_RESULTS,
        !is_blank(search_prepared(config, arguments)->Ok_0.query),
{
}

/// Takes measurements of searches.
pub trait WebSearchMetricsRecorder {
    fn record(&self, metric: WebSearchMetric);
}

/// Takes measurements and forgets them.
#[derive(Debug, Clone, Copy)]
pub struct NoopWebSearchMetricsRecorder;

impl WebSearchMetricsRecorder for NoopWebSearchMetricsRecorder {
    fn record(&self, metric: WebSearchMetric) {
    }
}

/// What the function is registered as.
pub open spec fn search_descriptor(config: ExaWebSearchConfigView) -> FunctionDescriptorView {
    FunctionDescriptorView {
        spec: search_spec(),
        output_schema: JsonView::Object(
            Map::<Seq<char>, JsonView>::empty().insert("type"@, JsonView::Text("object"@)),
        ),
        limits: FunctionLimitsView {
            time_budget: config.timeout,
            max_output_bytes: MAX_OUTPUT_BYTES,
        },
        recovery_policy: FunctionRecoveryPolicy::Idempotent,
    }
}

/// Registers the function.
pub fn register_web_search_tools(registry: &mut FunctionRegistry, config: ExaWebSearchConfig)
    ensures
        final(registry).deep_view() == old(registry).deep_view().insert(
            "web_search"@,
            RegisteredFunctionView {
                kind: FunctionKind::Tool,
                descriptor: search_descriptor(config.deep_view()),
            },
        ),
{
    let tool = ExaWebSearchTool::new(config);
    registry.register(
        FunctionDescriptor {
            spec: tool.spec(),
            output_schema: Json::object(no_members().with("type", Json::text("object"))),
            limits: tool.limits(),
            recovery_policy: tool.recovery_policy(),
        },
    );
}

} // verus!
