use canary_agent::desktop::{
    desktop_state_event, desktop_turn_event, load_config, new_desktop_thread,
    newest_first, resolve_workspace, write_config, DesktopConfig,
    DEFAULT_MAX_CONTEXT_TOKENS, DEFAULT_MAX_MODEL_ITERATIONS,
};
use canary_agent::digest::digest_text;
use canary_agent::document::parse;
use canary_agent::json::{Json, JsonNumber};
use canary_agent::kernel::events::TurnItemKind;
use canary_agent::kernel::model::ModelResponse;
use canary_agent::kernel::records::{make_model_record, read_model_record, read_model_response};
use canary_agent::runtime::error::AgentError;
use canary_agent::runtime::functions::{FunctionExecution, FunctionRegistry};
use canary_agent::openai::config::ModelConfig;
use canary_agent::runtime::turn::{TurnModelEvent, TurnOutcome, TurnStateEvent, TurnStreamEvent};
use canary_agent::text_map::TextMap;
use canary_agent::time_span::TimeSpan;
use canary_agent::typed::{read_nullable_count, read_nullable_text, read_nullable_texts, read_text};
use canary_agent::tools::web_search::{
    finish_search, make_search_url, measure_search, read_exa_search_response,
    read_search_request,
    register_web_search_tools, settle_search, web_search_outcome, ExaContents, ExaSearchRequest,
    ExaWebSearchConfig, ExaWebSearchTool, SearchReply, WebSearchMetric, WebSearchOutcome,
};

fn json(text: &str) -> Json {
    parse(text).expect("a document")
}

const MIXED: &str = r#"{"b": [1, -2, 3.5, true, null, "x\ny \"q\" é \u0001"], "a": {}, "c": {"d": []}}"#;

#[test]
fn documents_are_written_as_the_usual_writer_writes_them() {
    let value: serde_json::Value = serde_json::from_str(MIXED).unwrap();
    let document = json(MIXED);
    assert_eq!(document.to_text(), serde_json::to_string(&value).unwrap());
    assert_eq!(
        document.to_pretty_text(),
        serde_json::to_string_pretty(&value).unwrap()
    );
}

#[test]
fn documents_are_read_back() {
    let document = json(MIXED);
    assert_eq!(json(&document.to_text()), document);
    assert_eq!(json(&document.to_pretty_text()), document);
    assert_eq!(json("18446744073709551615"), Json::unsigned(u64::MAX));
    assert_eq!(json("-1"), Json::Number(JsonNumber::Negative(-1)));
    assert_eq!(json(r#"{"a": 1, "a": 2}"#).get_unsigned("a"), Some(2));
}

#[test]
fn texts_that_are_no_documents_are_refused() {
    let error = parse("{").unwrap_err();
    assert_eq!(error.category, "Eof");
    assert!(error.message.contains("EOF"));
    assert_eq!(parse("}").unwrap_err().category, "Syntax");
}

#[test]
fn digests_are_hexadecimal() {
    assert_eq!(
        digest_text("abc"),
        "sha256:ba7816bf8f01cfea414140de5dae2223b00361a396177a9cb410ff61f20015ad"
    );
}

#[test]
fn maps_are_walked_in_key_order() {
    let mut map: TextMap<u64> = TextMap::new();
    for (key, value) in [("b", 2), ("a", 1), ("é", 4), ("c", 3)] {
        assert_eq!(map.insert(key.to_string(), value), None);
    }
    assert_eq!(map.insert("a".to_string(), 9), Some(1));
    let keys: Vec<&str> = (0..map.len()).map(|i| map.key_at(i).as_str()).collect();
    assert_eq!(keys, vec!["a", "b", "c", "é"]);
    assert_eq!(map.remove("b"), Some(2));
    assert_eq!(map.get("b"), None);
    assert_eq!(map.get("a"), Some(&9));
}

#[test]
fn legacy_model_records_default_to_no_continuation() {
    let record = json(r#"{"type": "model_response", "text": "hello", "function_calls": []}"#);
    let decoded = read_model_record(&record).unwrap();
    let TurnItemKind::ModelResponse {
        text,
        function_calls,
        continuation,
    } = decoded
    else {
        panic!("a model response");
    };
    assert_eq!(continuation, None);
    assert_eq!(
        make_model_record(&text, &function_calls, &continuation),
        record
    );
    let response = read_model_response(&json(
        r#"{"Assistant": {"text": "hello", "function_calls": []}}"#,
    ))
    .unwrap();
    assert!(matches!(
        response,
        ModelResponse::Assistant {
            continuation: None,
            ..
        }
    ));
}

#[test]
fn legacy_desktop_config_receives_long_task_defaults() {
    let config = load_config(
        r#"{
            "base_url": "https://example.com/v1",
            "model": "example-model",
            "api_key": "secret",
            "workspace": "C:\\\\workspace"
        }"#,
    )
    .expect("legacy config");

    assert_eq!(config.max_context_tokens, DEFAULT_MAX_CONTEXT_TOKENS);
    assert_eq!(config.max_model_iterations, DEFAULT_MAX_MODEL_ITERATIONS);
    assert!(config.qianfan_api_key.is_empty());
}

#[test]
fn desktop_configs_are_kept() {
    let config = DesktopConfig::default();
    assert!(!config.is_complete());
    let mut config = config;
    config.model = "m".to_string();
    config.api_key = "k".to_string();
    config.base_url = "u".to_string();
    assert!(config.is_complete());
    assert_eq!(load_config(&write_config(&config)), Ok(config.clone()));
    config.max_model_iterations = 0;
    assert!(config.validate().is_err());
    assert!(load_config("{").is_err());
}

#[test]
fn workspaces_come_from_the_metadata() {
    assert_eq!(
        resolve_workspace(&json(r#"{"workspace": "/w"}"#), "/fallback"),
        "/w"
    );
    assert_eq!(resolve_workspace(&json("{}"), "/fallback"), "/fallback");
    assert_eq!(
        resolve_workspace(&json(r#"{"workspace": "relative"}"#), "/fallback"),
        "/fallback"
    );
    let mut config = DesktopConfig::default();
    assert_eq!(config.workspace_or("/here"), "/here");
    config.workspace = "/there".to_string();
    assert_eq!(config.workspace_or("/here"), "/there");
}

#[test]
fn desktop_events_say_their_kind() {
    let event = desktop_state_event(&TurnStateEvent::TurnFinished {
        outcome: TurnOutcome::AssistantMessage {
            text: "done".to_string(),
        },
    });
    assert!(event.to_text().contains("done"));
    let event = desktop_turn_event(&TurnStreamEvent::Model(TurnModelEvent::AssistantDelta {
        text: "hel".to_string(),
    }));
    assert_eq!(event.get_text("type").unwrap(), "assistant_delta");
    assert_eq!(event.get_text("text").unwrap(), "hel");
}

#[test]
fn model_addresses_have_one_slash() {
    for base_url in ["http://localhost/v1", "http://localhost/v1//"] {
        let config = ModelConfig {
            base_url: base_url.to_string(),
            api_key: "test".to_string(),
            model: "test-model".to_string(),
            reasoning_effort: "high".to_string(),
        };
        assert_eq!(config.responses_url(), "http://localhost/v1/responses");
        let descriptor = config.model_descriptor();
        assert_eq!(descriptor.fqn, "test-model");
        assert_eq!(
            descriptor.settings,
            json(r#"{"api": "responses", "reasoning_effort": "high"}"#)
        );
    }
}

#[test]
fn exposes_web_search_contract() {
    let tool = ExaWebSearchTool::new(ExaWebSearchConfig::new("test-key"));
    let spec = tool.spec();
    assert_eq!(spec.name, "web_search");
    assert_eq!(
        spec.parameters.get("required"),
        Some(&json(r#"["query"]"#))
    );
    assert_eq!(
        spec.parameters.get("additionalProperties"),
        Some(&Json::Bool(false))
    );
    let mut registry = FunctionRegistry::new();
    register_web_search_tools(&mut registry, ExaWebSearchConfig::new("test-key"));
    assert!(registry.plan_call("web_search").is_ok());
}

#[test]
fn serializes_exa_search_request_with_highlights() {
    let request = ExaSearchRequest {
        query: "rust async runtime".to_string(),
        num_results: 3,
        include_domains: Some(vec!["rust-lang.org".to_string()]),
        exclude_domains: None,
        contents: ExaContents { highlights: true },
    };
    let value = request.to_json();
    assert_eq!(value.get_unsigned("numResults"), Some(3));
    assert_eq!(
        value.get("includeDomains"),
        Some(&json(r#"["rust-lang.org"]"#))
    );
    assert_eq!(
        value.get("contents").unwrap().get("highlights"),
        Some(&Json::Bool(true))
    );
    assert!(value.get("excludeDomains").is_none());
}

#[test]
fn decodes_search_results_and_ignores_unneeded_provider_fields() {
    let response = read_exa_search_response(&json(
        r#"{
            "results": [{
                "title": "Rust",
                "url": "https://www.rust-lang.org/",
                "publishedDate": "2026-01-01T00:00:00Z",
                "author": "Rust team",
                "highlights": ["A relevant excerpt"],
                "favicon": "https://www.rust-lang.org/favicon.ico"
            }]
        }"#,
    ))
    .expect("response json");
    assert_eq!(response.results.len(), 1);
    assert_eq!(response.results[0].url, "https://www.rust-lang.org/");
    assert_eq!(response.results[0].highlights[0], "A relevant excerpt");
}

#[test]
fn searches_are_prepared_within_their_range() {
    let tool = ExaWebSearchTool::new(
        ExaWebSearchConfig::new("k")
            .with_base_url("https://search.example")
            .with_timeout(TimeSpan::from_secs(9))
            .with_default_max_results(7),
    );
    assert_eq!(tool.config.base_url, "https://search.example");
    assert_eq!(tool.limits().time_budget, TimeSpan::from_secs(9));
    let request = tool.prepare(&json(r#"{"query": "q"}"#)).unwrap();
    assert_eq!(request.num_results, 7);
    assert!(request.contents.highlights);
    for arguments in ["{}", r#"{"query": " "}"#] {
        assert!(matches!(
            tool.prepare(&json(arguments)),
            Err(AgentError::InvalidFunctionArguments { .. })
        ));
    }
    let many = tool.prepare(&json(r#"{"query": "q", "max_results": 1000}"#));
    match many {
        Ok(request) => assert!(request.num_results <= 20),
        Err(error) => assert!(matches!(
            error,
            AgentError::InvalidFunctionArguments { .. }
        )),
    }
    assert_eq!(
        make_search_url("https://api.exa.ai/"),
        make_search_url("https://api.exa.ai")
    );
}

#[test]
fn searches_end_with_results_or_an_error() {
    let reply = |success: bool, body: &str| SearchReply {
        success,
        status: "200 OK".to_string(),
        body: body.to_string(),
    };
    let found = settle_search(
        "q".to_string(),
        &reply(true, r#"{"results": [{"url": "u"}]}"#),
    );
    assert_eq!(web_search_outcome(&found), WebSearchOutcome::Succeeded);
    assert!(matches!(
        measure_search(&found, TimeSpan::from_millis(5)),
        WebSearchMetric::Finished {
            result_count: 1,
            ..
        }
    ));
    let Ok(FunctionExecution::Completed { output }) = finish_search(found) else {
        panic!("a result");
    };
    assert_eq!(output.get_text("query").unwrap(), "q");
    let empty = settle_search("q".to_string(), &reply(true, "{}"));
    assert_eq!(web_search_outcome(&empty), WebSearchOutcome::Succeeded);
    for wrong in [reply(false, "{}"), reply(true, "{"), reply(true, r#"{"results": 1}"#)] {
        let failed = settle_search("q".to_string(), &wrong);
        assert_ne!(web_search_outcome(&failed), WebSearchOutcome::Succeeded);
        assert!(finish_search(failed).is_err());
    }
}

#[test]
fn spans_of_time_are_exact() {
    let span = TimeSpan::from_millis(1_500);
    assert_eq!(span.as_secs(), 1);
    assert_eq!(span.subsec_nanos(), 500_000_000);
    assert_eq!(span.as_millis(), 1_500);
    assert_eq!(span.checked_mul(2), Some(TimeSpan::from_secs(3)));
    assert_eq!(TimeSpan::from_secs(u64::MAX).checked_mul(2), None);
    assert_eq!(
        TimeSpan::from_parts(0, 1_500_000_000),
        Some(TimeSpan::from_millis(1_500))
    );
    assert_eq!(TimeSpan::from_parts(u64::MAX, 1_000_000_000), None);
    assert_eq!(span.min(TimeSpan::from_secs(1)), TimeSpan::from_secs(1));
}

#[test]
fn texts_are_escaped_in_documents() {
    let text = "\"\\/\u{8}\t\n\u{b}\u{c}\r\u{0}\u{1f} \u{7f}\u{e9}\u{1F980}";
    let want = "\"\\\"\\\\/\\b\\t\\n\\u000b\\f\\r\\u0000\\u001f \u{7f}\u{e9}\u{1F980}\"";
    let document = Json::text(text);
    assert_eq!(document.to_text(), want);
    assert!(parse(want) == Ok(document));
}

#[test]
fn whole_numbers_are_exact() {
    assert!(json("18446744073709551615") == Json::Number(JsonNumber::Unsigned(u64::MAX)));
    assert!(json("-9223372036854775808") == Json::Number(JsonNumber::Negative(i64::MIN)));
    assert!(json("-1") == Json::Number(JsonNumber::Negative(-1)));
    assert_eq!(json("18446744073709551615").to_text(), "18446744073709551615");
    assert_eq!(json("-9223372036854775808").to_text(), "-9223372036854775808");
}

#[test]
fn documents_are_nested_only_so_deep() {
    let deep = "[".repeat(127) + &"]".repeat(127);
    assert_eq!(json(&deep).to_text(), deep);
    let deeper = "[".repeat(128) + &"]".repeat(128);
    assert!(parse(&deeper).is_err());
}

#[test]
fn documents_over_lines_are_read_back() {
    let document = json(r#"{"b": [1, -2, {"c": {}}, []], "a": {"d": "x y", "e": null}}"#);
    assert!(parse(&document.to_pretty_text()) == Ok(document));
}

#[test]
fn settings_stand_on_lines_of_their_own() {
    let config = DesktopConfig {
        base_url: "http://localhost".to_string(),
        model: "m".to_string(),
        api_key: "k".to_string(),
        qianfan_api_key: "q\"".to_string(),
        workspace: "/w".to_string(),
        max_context_tokens: 8192,
        max_model_iterations: 7,
    };
    assert_eq!(
        write_config(&config),
        "{\n  \"base_url\": \"http://localhost\",\n  \"model\": \"m\",\n  \"api_key\": \"k\",\n  \"qianfan_api_key\": \"q\\\"\",\n  \"workspace\": \"/w\",\n  \"max_context_tokens\": 8192,\n  \"max_model_iterations\": 7\n}"
    );
    assert_eq!(load_config(&write_config(&config)), Ok(config));
}

#[test]
fn threads_are_listed_newest_first() {
    assert_eq!(newest_first(&vec![3, 9, 3, 1, 9]), vec![1, 4, 0, 2, 3]);
    assert_eq!(newest_first(&Vec::new()), Vec::<usize>::new());
    let thread = new_desktop_thread("t", "/w");
    assert_eq!(thread.id, "t");
    assert_eq!(thread.metadata.to_text(), r#"{"workspace":"/w"}"#);
    assert!(thread.turns.is_empty());
}

#[test]
fn values_of_another_type_are_named_as_usual() {
    let documents = [
        "null",
        "true",
        "false",
        "5",
        "-5",
        "1.5",
        "1e300",
        "\"a \\\"b\\\" \\n \\u0001 \u{e9} \u{1F980}\"",
        "[]",
        "[\"a\", \"b\"]",
        "[\"a\", 1, 2]",
        "{}",
        "{\"a\": 1}",
    ];
    for text in documents {
        let document = json(text);
        let value: serde_json::Value = serde_json::from_str(text).unwrap();
        let said = |error: serde_json::Error| error.to_string();
        assert_eq!(
            read_text(&document),
            serde_json::from_value::<String>(value.clone()).map_err(said)
        );
        assert_eq!(
            read_nullable_text(&document),
            serde_json::from_value::<Option<String>>(value.clone()).map_err(said)
        );
        assert_eq!(
            read_nullable_count(&document),
            serde_json::from_value::<Option<usize>>(value.clone()).map_err(said)
        );
        assert_eq!(
            read_nullable_texts(&document),
            serde_json::from_value::<Option<Vec<String>>>(value).map_err(said)
        );
    }
}

#[test]
fn short_fractions_are_exact() {
    for text in [
        "0.0",
        "-0.0",
        "0.7",
        "-0.00001",
        "0.000012345678901234",
        "3.14159265358979",
        "123456789012345.0",
        "100000000000000.0",
        "12345678901234.5",
        "0.1",
        "999999999999999.0",
        "0.999999999999999",
    ] {
        assert!(json(text) == Json::Number(JsonNumber::Fraction(text.to_string())), "{text}");
        assert_eq!(json(text).to_text(), text);
    }
}

#[test]
fn zeros_compare_equal_whatever_their_sign() {
    assert!(json("-0.0").alike(&json("0.0")));
    assert!(json("[{\"a\": -0.0}]").alike(&json("[{\"a\": 0.0}]")));
    assert!(!json("0.0").alike(&json("0")));
    assert!(!json("-0.5").alike(&json("0.5")));
}

#[test]
fn search_arguments_can_stand_in_order() {
    let request = read_search_request(&json(r#"["q", 3, ["a"], null]"#)).unwrap();
    assert_eq!(request.query, "q");
    assert_eq!(request.max_results, Some(3));
    assert_eq!(request.include_domains, Some(vec!["a".to_string()]));
    assert_eq!(request.exclude_domains, None);
    let said = |text: &str| read_search_request(&json(text)).err().unwrap();
    assert_eq!(
        said(r#"["q"]"#),
        "invalid length 1, expected struct SearchRequest with 4 elements"
    );
    assert_eq!(
        said(r#"["q", null, null, null, 1]"#),
        "invalid length 5, expected fewer elements in array"
    );
    assert_eq!(said("7"), "invalid type: integer `7`, expected struct SearchRequest");
    assert_eq!(said("{}"), "missing field `query`");
    assert_eq!(
        said(r#"{"query": "q", "site": "x"}"#),
        "unknown field `site`, expected one of `query`, `max_results`, `include_domains`, `exclude_domains`"
    );
    assert_eq!(
        said(r#"{"query": 1, "max_results": -1}"#),
        "invalid value: integer `-1`, expected usize"
    );
    assert_eq!(
        said(r#"{"query": "q", "exclude_domains": ["a", true]}"#),
        "invalid type: boolean `true`, expected a string"
    );
}

#[test]
fn settings_can_stand_in_order() {
    assert_eq!(load_config("[]"), Ok(DesktopConfig::default()));
    let config = load_config(r#"["http://localhost", "m"]"#).unwrap();
    assert_eq!(config.base_url, "http://localhost");
    assert_eq!(config.model, "m");
    assert_eq!(config.max_context_tokens, DEFAULT_MAX_CONTEXT_TOKENS);
    assert!(load_config(r#"["", "", "", "", "", 1, 2, 3]"#).is_err());
    assert!(load_config(r#""x""#).is_err());
    assert!(load_config("null").is_err());
}

#[test]
fn search_results_can_stand_in_order() {
    let response = read_exa_search_response(&json(r#"[[[null, "u", null, "a"]]]"#)).unwrap();
    assert_eq!(response.results.len(), 1);
    assert_eq!(response.results[0].url, "u");
    assert_eq!(response.results[0].author, Some("a".to_string()));
    assert!(response.results[0].highlights.is_empty());
    assert!(read_exa_search_response(&json("[]")).unwrap().results.is_empty());
    assert!(read_exa_search_response(&json("[[], 1]")).is_err());
}

#[test]
fn a_response_has_one_variant() {
    assert!(read_model_response(&json(r#"{"AssistantMessage": {"text": "x"}}"#)).is_ok());
    assert!(read_model_response(&json(r#"{"AssistantMessage": {"text": "x"}, "a": 1}"#)).is_err());
    assert!(read_model_response(&json(r#"{"AssistantMessage": ["x"]}"#)).is_err());
    assert!(read_model_response(&json(r#"{"Other": {}}"#)).is_err());
}

#[test]
fn settings_hold_each_field_once() {
    assert!(load_config(r#"{"model": "a", "model": "b"}"#).is_err());
    assert!(load_config(r#"{"model": "a", "theme": 1, "theme": 2}"#).is_ok());
    assert_eq!(
        load_config(r#"{"theme": 1e999, "model": "a"}"#).map(|config| config.model),
        Ok("a".to_string())
    );
    assert!(load_config("{\n  \"model\" : \"a\" ,\n  \"workspace\": \"{\\\"\"\n}\n").is_ok());
}

#[test]
fn search_results_hold_each_field_once() {
    let settled = |body: &str| {
        settle_search(
            "q".to_string(),
            &SearchReply {
                success: true,
                status: "200 OK".to_string(),
                body: body.to_string(),
            },
        )
    };
    assert!(settled(r#"{"results": [{"url": "u"}, {"url": "v", "x": 1, "x": 2}]}"#).is_ok());
    assert!(settled(r#"{"results": [{"url": "u", "url": "v"}]}"#).is_err());
    assert!(settled(r#"{"results": [], "results": []}"#).is_err());
    assert!(settled(r#"{"results": null}"#).is_err());
    let results = settled(r#"{"results": [{"score": -1e999, "url": "u", "text": "\udc00"}]}"#)
        .unwrap()
        .results;
    assert_eq!(results.len(), 1);
    assert_eq!(results[0].url, "u");
    assert!(settled(r#"{"results": [{"url": "\udc00"}]}"#).is_err());
}
