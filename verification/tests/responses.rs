use canary_agent::document::parse;
use canary_agent::json::Json;
use canary_agent::kernel::model::{
    FunctionSpec, ModelContinuation, ModelRequest, ModelResponse, ModelStreamEvent,
};
use canary_agent::kernel::projection::ChatMessage;
use canary_agent::kernel::records::read_function_calls_field;
use canary_agent::openai::config::{ModelConfig, RetryConfig};
use canary_agent::openai::decoder::ResponseDecoder;
use canary_agent::openai::responses::{
    completed_response, finish_call, read_event, request_body,
};
use canary_agent::openai::transport::{
    decide_retry, delay_before_retry, find_sse_frame_end, is_retryable_status, TransportDecision,
    TransportReply,
};
use canary_agent::runtime::error::{AgentError, Result};
use canary_agent::time_span::TimeSpan;
use eventsource_stream::Eventsource;
use futures_util::StreamExt;

const OUTPUT: &str = r#"[
    {"type": "reasoning", "id": "rs_1", "summary": [], "encrypted_content": "opaque"},
    {"type": "message", "id": "msg_1", "role": "assistant", "status": "completed",
     "content": [{"type": "output_text", "text": "Checking.", "annotations": []}]},
    {"type": "function_call", "id": "fc_1", "call_id": "call_1", "name": "lookup",
     "arguments": "{\"q\":1}", "status": "completed"},
    {"type": "function_call", "id": "fc_2", "call_id": "call_2", "name": "lookup",
     "arguments": "{}", "status": "completed"}
]"#;

fn json(text: &str) -> Json {
    parse(text).expect("a document")
}

fn config() -> ModelConfig {
    ModelConfig {
        base_url: "http://localhost/v1".to_string(),
        api_key: "test".to_string(),
        model: "test-model".to_string(),
        reasoning_effort: "high".to_string(),
    }
}

fn output() -> Json {
    json(OUTPUT)
}

fn item(index: usize) -> Json {
    output().as_array().unwrap()[index].clone()
}

fn with(item: &Json, key: &str, value: Json) -> Json {
    let Json::Object(members) = item.clone() else {
        panic!("an object")
    };
    Json::object(members.with(key, value))
}

fn object(members: Vec<(&str, Json)>) -> Json {
    let mut map = canary_agent::json::no_members();
    for (key, value) in members {
        map.insert(key.to_string(), value);
    }
    Json::object(map)
}

fn completed(output: Json) -> Json {
    let usage = json(
        r#"{"input_tokens": 10, "output_tokens": 20, "total_tokens": 30,
            "input_tokens_details": {"cached_tokens": 3}}"#,
    );
    object(vec![
        ("type", Json::text("response.completed")),
        (
            "response",
            object(vec![
                ("status", Json::text("completed")),
                ("output", output),
                ("usage", usage),
            ]),
        ),
    ])
}

fn response_of(event: &Json) -> &Json {
    event.get("response").unwrap()
}

fn item_event(kind: &str, index: u64, item: Json) -> Json {
    object(vec![
        ("type", Json::text(kind)),
        ("output_index", Json::unsigned(index)),
        ("item", item),
    ])
}

fn feed(
    decoder: &mut ResponseDecoder,
    event: Json,
    emitted: &mut Vec<ModelStreamEvent>,
) -> Result<()> {
    decoder.data(&event.to_text(), emitted)
}

/// Decodes a whole stream of bytes, which arrive in the given pieces.
fn read_stream(
    pieces: Vec<Vec<u8>>,
    emitted: &mut Vec<ModelStreamEvent>,
) -> Result<ModelResponse> {
    let runtime = tokio::runtime::Builder::new_current_thread()
        .build()
        .unwrap();
    runtime.block_on(async {
        let stream = futures_util::stream::iter(
            pieces
                .into_iter()
                .map(|piece| Ok::<Vec<u8>, std::io::Error>(piece)),
        );
        let mut events = stream.eventsource();
        let mut decoder = ResponseDecoder::new();
        while let Some(event) = events.next().await {
            let event = event.map_err(|error| AgentError::Http(error.to_string()))?;
            decoder.data(&event.data, emitted)?;
            if decoder.completed().is_some() {
                break;
            }
        }
        decoder.finish()
    })
}

#[test]
fn continuation_replays_ordered_items_without_duplicate_calls_or_text() {
    let ModelResponse::Assistant {
        text,
        function_calls,
        continuation,
    } = completed_response(response_of(&completed(output()))).unwrap()
    else {
        panic!("assistant")
    };
    assert_eq!(function_calls.len(), 2);
    let body = request_body(
        &config(),
        &ModelRequest {
            messages: vec![
                ChatMessage::Assistant {
                    content: text,
                    tool_calls: function_calls,
                    continuation,
                },
                ChatMessage::Tool {
                    tool_call_id: "call_1".to_string(),
                    name: "lookup".to_string(),
                    content: Json::text("found"),
                },
                ChatMessage::Tool {
                    tool_call_id: "call_2".to_string(),
                    name: "lookup".to_string(),
                    content: json(r#"{"ok": true}"#),
                },
            ],
            functions: vec![],
        },
    )
    .unwrap();
    let input = body.get_array("input").unwrap();
    assert_eq!(&input[..4], &output().as_array().unwrap()[..]);
    assert_eq!(input.len(), 6);
    assert_eq!(input[4].get_text("call_id").unwrap(), "call_1");
    assert_eq!(input[4].get_text("output").unwrap(), "found");
    assert_eq!(body.get("store"), Some(&Json::Bool(false)));
    assert_eq!(
        body.get("reasoning").unwrap().get_text("effort").unwrap(),
        "high"
    );
    assert!(body.get("tools").is_none());
    assert!(body.get("previous_response_id").is_none());
}

#[test]
fn legacy_history_and_function_schema_are_supported() {
    let record = json(
        r#"{"role": "assistant", "content": "checking",
            "tool_calls": [{"call_id": "c1", "name": "lookup", "arguments": {}}]}"#,
    );
    let assistant = ChatMessage::Assistant {
        content: record.get_text("content").cloned(),
        tool_calls: read_function_calls_field(&record, "tool_calls").unwrap(),
        continuation: None,
    };
    let body = request_body(
        &config(),
        &ModelRequest {
            messages: vec![assistant],
            functions: vec![FunctionSpec {
                name: "lookup".to_string(),
                description: "lookup".to_string(),
                parameters: json(r#"{"type": "object", "properties": {}}"#),
            }],
        },
    )
    .unwrap();
    let input = body.get_array("input").unwrap();
    assert_eq!(input[1].get_text("type").unwrap(), "function_call");
    assert_eq!(input[1].get_text("call_id").unwrap(), "c1");
    let tools = body.get_array("tools").unwrap();
    assert_eq!(tools[0].get_text("name").unwrap(), "lookup");
    assert_eq!(tools[0].get("strict"), Some(&Json::Bool(false)));
    assert!(tools[0].get("function").is_none());
}

#[test]
fn rejects_foreign_or_malformed_continuation() {
    for continuation in [
        ModelContinuation {
            format: "other.v1".to_string(),
            payload: json("[]"),
        },
        ModelContinuation {
            format: "openai.responses.v1".to_string(),
            payload: json("{}"),
        },
    ] {
        assert!(request_body(
            &config(),
            &ModelRequest {
                messages: vec![ChatMessage::Assistant {
                    content: None,
                    tool_calls: vec![],
                    continuation: Some(continuation),
                }],
                functions: vec![],
            }
        )
        .is_err());
    }
}

#[test]
fn streaming_progress_usage_and_utf8_framing() {
    let events = vec![
        json(r#"{"type": "response.created"}"#),
        json(r#"{"type": "response.output_text.delta", "delta": ""}"#),
        json(r#"{"type": "response.output_text.delta", "delta": "你好"}"#),
        json(
            r#"{"type": "response.output_item.added", "item": {
                "type": "function_call", "call_id": "call_1", "name": "lookup"}}"#,
        ),
        json(r#"{"type": "response.function_call_arguments.delta", "delta": "{}"}"#),
        json(r#"{"type": "response.function_call_arguments.done", "arguments": "{}"}"#),
        completed(output()),
    ];
    let mut stream = String::new();
    for event in &events {
        stream.push_str(&format!(
            "event: ignored\r\ndata: {}\r\n\r\n",
            event.to_text()
        ));
    }
    let mut emitted = Vec::new();
    // One byte at a time, so that characters and delimiters are split too.
    let pieces = stream.bytes().map(|byte| vec![byte]).collect();
    read_stream(pieces, &mut emitted).unwrap();
    assert_eq!(
        emitted
            .iter()
            .filter(|e| matches!(e, ModelStreamEvent::OutputProgress))
            .count(),
        3
    );
    assert_eq!(
        emitted
            .iter()
            .filter(|e| matches!(e, ModelStreamEvent::AssistantDelta { .. }))
            .count(),
        1
    );
    assert!(
        matches!(emitted.last(), Some(ModelStreamEvent::TokenUsage { usage })
        if usage.output_tokens == 20 && usage.cached_input_tokens == 3)
    );
}

#[test]
fn failed_incomplete_and_truncated_streams_do_not_succeed() {
    for kind in ["response.failed", "response.incomplete", "error"] {
        let mut decoder = ResponseDecoder::new();
        let event = object(vec![("type", Json::text(kind))]);
        assert!(feed(&mut decoder, event, &mut Vec::new()).is_err());
    }
    let mut decoder = ResponseDecoder::new();
    decoder
        .data(
            "{\"type\":\"response.output_text.delta\",\"delta\":\"partial\"}",
            &mut Vec::new(),
        )
        .unwrap();
    decoder.data("[DONE]", &mut Vec::new()).unwrap();
    assert!(decoder.finish().is_err());
    let invalid =
        json(r#"[{"type": "function_call", "call_id": "c", "name": "lookup", "arguments": "{"}]"#);
    assert!(completed_response(response_of(&completed(invalid))).is_err());
}

#[test]
fn reconstructs_empty_terminal_output_from_completed_items_in_order() {
    let mut decoder = ResponseDecoder::new();
    let mut emitted = Vec::new();
    for index in [3usize, 1, 0, 2] {
        feed(
            &mut decoder,
            item_event("response.output_item.done", index as u64, item(index)),
            &mut emitted,
        )
        .unwrap();
    }
    feed(&mut decoder, completed(json("[]")), &mut emitted).unwrap();
    let ModelResponse::Assistant {
        text,
        function_calls,
        continuation,
    } = decoder.finish().unwrap()
    else {
        panic!("assistant")
    };
    assert_eq!(text.as_deref(), Some("Checking."));
    assert_eq!(function_calls.len(), 2);
    assert_eq!(continuation.unwrap().payload, output());
    assert_eq!(emitted.len(), 1);
    assert!(matches!(emitted[0], ModelStreamEvent::TokenUsage { .. }));
}

#[test]
fn recovers_truncated_terminal_arguments_from_arguments_done() {
    let mut decoder = ResponseDecoder::new();
    let mut emitted = Vec::new();
    let call = with(
        &with(&item(2), "arguments", Json::text("")),
        "status",
        Json::text("in_progress"),
    );
    feed(
        &mut decoder,
        item_event("response.output_item.added", 0, call),
        &mut emitted,
    )
    .unwrap();
    feed(
        &mut decoder,
        json(
            r#"{"type": "response.function_call_arguments.done", "output_index": 0,
                "item_id": "fc_1", "arguments": "{\"q\":1}"}"#,
        ),
        &mut emitted,
    )
    .unwrap();
    let truncated = with(&item(2), "arguments", Json::text("{\"q\":"));
    feed(
        &mut decoder,
        completed(Json::array(vec![truncated])),
        &mut emitted,
    )
    .unwrap();
    let ModelResponse::Assistant {
        function_calls,
        continuation,
        ..
    } = decoder.finish().unwrap()
    else {
        panic!("assistant")
    };
    assert_eq!(function_calls[0].arguments, json(r#"{"q": 1}"#));
    let payload = continuation.unwrap().payload;
    assert_eq!(
        payload.as_array().unwrap()[0].get_text("arguments").unwrap(),
        "{\"q\":1}"
    );
}

#[test]
fn empty_reasoning_only_and_partial_json_report_metadata_and_preserve_usage() {
    for items in [
        json("[]"),
        Json::array(vec![item(0)]),
        json(
            r#"[{"type": "function_call", "call_id": "c", "name": "lookup",
                 "arguments": "{\"q\":"}]"#,
        ),
    ] {
        let mut decoder = ResponseDecoder::new();
        let mut emitted = Vec::new();
        let event = completed(items);
        let response = with(response_of(&event), "id", Json::text("resp_diagnostic"));
        let event = with(&event, "response", response);
        let error = feed(&mut decoder, event, &mut emitted).unwrap_err().text();
        assert!(error.contains("resp_diagnostic"));
        assert!(error.contains("output_types"));
        assert!(error.contains("usage"));
        assert!(!error.contains("opaque"));
        assert_eq!(emitted.len(), 1);
        assert!(matches!(emitted[0], ModelStreamEvent::TokenUsage { .. }));
    }
}

#[test]
fn incomplete_responses_fail_and_completed_items_override_terminal_snapshots() {
    let mut decoder = ResponseDecoder::new();
    let mut emitted = Vec::new();
    feed(
        &mut decoder,
        item_event("response.output_item.done", 0, item(2)),
        &mut emitted,
    )
    .unwrap();
    let incomplete = completed(json("[]"));
    let response = with(
        &with(
            response_of(&incomplete),
            "status",
            Json::text("incomplete"),
        ),
        "incomplete_details",
        json(r#"{"reason": "max_output_tokens"}"#),
    );
    let incomplete = with(
        &with(&incomplete, "type", Json::text("response.incomplete")),
        "response",
        response,
    );
    let error = feed(&mut decoder, incomplete, &mut emitted)
        .unwrap_err()
        .text();
    assert!(error.contains("max_output_tokens"));
    assert!(decoder.completed().is_none());

    for (key, value) in [
        ("call_id", "other"),
        ("arguments", "{\"q\":2}"),
        ("status", "incomplete"),
    ] {
        let terminal = with(&item(2), key, Json::text(value));
        feed(
            &mut decoder,
            completed(Json::array(vec![terminal])),
            &mut emitted,
        )
        .unwrap();
        assert!(
            matches!(decoder.completed(), Some(ModelResponse::Assistant { function_calls, .. })
            if function_calls[0].call_id == "call_1" && function_calls[0].arguments == json(r#"{"q": 1}"#))
        );
    }
}

#[test]
fn completed_items_with_metadata_only_completion() {
    let mut frames = String::from(": heartbeat\n\n");
    for item in output().as_array().unwrap() {
        let event = object(vec![
            ("type", Json::text("response.output_item.done")),
            ("item", item.clone()),
        ]);
        frames.push_str(&format!("data: {}\n\n", event.to_text()));
    }
    frames.push_str(
        "data: {\"type\":\"response.completed\",\"response\":{\"id\":\"response_1\"}}\n\n",
    );
    let result = read_stream(vec![frames.into_bytes()], &mut Vec::new()).unwrap();
    assert!(matches!(result, ModelResponse::Assistant {
        continuation: Some(ModelContinuation { payload, .. }), ..
    } if payload == output()));
}

#[test]
fn streams_that_close_early_fail() {
    let done = object(vec![
        ("type", Json::text("response.output_item.done")),
        ("item", item(1)),
    ]);
    for payload in [
        "data: [DONE]\n\n".to_owned(),
        format!("data: {}\n\n", done.to_text()),
        "data: {\"type\":\"response.completed\",\"response\":{\"id\":\"r\"}}".to_owned(),
    ] {
        assert!(read_stream(vec![payload.into_bytes()], &mut Vec::new()).is_err());
    }
}

#[test]
fn malformed_events_are_not_silently_ignored() {
    let error = read_stream(vec![b"data: {\n\n".to_vec()], &mut Vec::new())
        .unwrap_err()
        .text();
    assert!(error.contains("invalid Responses SSE event"));
}

#[test]
fn unfinished_items_and_identity_mismatch_fail() {
    let mut decoder = ResponseDecoder::new();
    let mut events = Vec::new();
    feed(
        &mut decoder,
        item_event("response.output_item.added", 0, item(2)),
        &mut events,
    )
    .unwrap();
    let mismatch = with(&item(2), "call_id", Json::text("wrong"));
    assert!(feed(
        &mut decoder,
        item_event("response.output_item.done", 0, mismatch),
        &mut events
    )
    .is_err());
    feed(
        &mut decoder,
        item_event("response.output_item.done", 1, item(1)),
        &mut events,
    )
    .unwrap();
    assert!(feed(&mut decoder, completed(json("[]")), &mut events).is_err());
}

#[test]
fn a_later_item_replaces_the_one_at_its_index() {
    let mut decoder = ResponseDecoder::new();
    let mut events = Vec::new();
    for text in ["first", "second"] {
        let message = json(&format!(
            r#"{{"type": "message", "content": [{{"type": "output_text", "text": "{}"}}]}}"#,
            text
        ));
        feed(
            &mut decoder,
            item_event("response.output_item.done", 7, message),
            &mut events,
        )
        .unwrap();
    }
    feed(&mut decoder, completed(json("[]")), &mut events).unwrap();
    let ModelResponse::Assistant { text, .. } = decoder.finish().unwrap() else {
        panic!("assistant")
    };
    assert_eq!(text.as_deref(), Some("second"));
}

#[test]
fn refusals_are_text() {
    let output = json(
        r#"[{"type": "message", "content": [
            {"type": "refusal", "refusal": "No. "},
            {"type": "output_text", "text": "Sorry."}]}]"#,
    );
    let ModelResponse::Assistant { text, .. } =
        completed_response(response_of(&completed(output))).unwrap()
    else {
        panic!("assistant")
    };
    assert_eq!(text.as_deref(), Some("No. Sorry."));
}

#[test]
fn responses_without_an_answer_are_refused() {
    for (items, message) in [
        ("[]", "Responses completion has no text or function calls"),
        (r#"[{"type": "web"}]"#, "unsupported Responses output item"),
        (r#"[{"type": "message"}]"#, "Responses message missing content"),
        (
            r#"[{"type": "message", "content": [{"type": "audio"}]}]"#,
            "unsupported Responses message content",
        ),
        (
            r#"[{"type": "message", "id": "m", "status": "in_progress", "content": []}]"#,
            "Responses output item is not complete: id=\"m\"",
        ),
    ] {
        let error = completed_response(response_of(&completed(json(items)))).unwrap_err();
        assert_eq!(error, AgentError::Model(message.to_string()));
    }
    assert_eq!(
        completed_response(&json("{}")).unwrap_err(),
        AgentError::Model("Responses completion missing output array".to_string())
    );
}

#[test]
fn wrong_arguments_are_described_without_their_text() {
    let items = json(
        r#"[{"type": "function_call", "call_id": "c", "name": "n", "arguments": "{\"secret\":"}]"#,
    );
    let error = completed_response(response_of(&completed(items)))
        .unwrap_err()
        .text();
    assert!(error.contains("call_id=\"c\", name=\"n\", bytes=10, category=Eof"));
    assert!(!error.contains("secret"));
}

#[test]
fn events_need_a_type() {
    assert!(read_event(&json("{}")).is_err());
    let event = read_event(&json(r#"{"type": "x", "code": null, "output_index": 3}"#)).unwrap();
    assert_eq!(event.kind, "x");
    assert_eq!(event.code, None);
    assert_eq!(event.output_index, Some(3));
}

#[test]
fn the_system_prompt_and_the_user_are_sent_as_messages() {
    let body = request_body(
        &config(),
        &ModelRequest {
            messages: vec![
                ChatMessage::System {
                    content: "be brief".to_string(),
                },
                ChatMessage::User {
                    content: "hi".to_string(),
                },
            ],
            functions: vec![],
        },
    )
    .unwrap();
    let input = body.get_array("input").unwrap();
    assert_eq!(input.len(), 2);
    assert_eq!(input[0].get_text("role").unwrap(), "system");
    assert_eq!(input[1].get_text("role").unwrap(), "user");
    assert_eq!(body.get_text("model").unwrap(), "test-model");
    assert_eq!(body.get("stream"), Some(&Json::Bool(true)));
}

fn retry() -> RetryConfig {
    RetryConfig {
        max_retries: 2,
        initial_backoff: TimeSpan::from_millis(250),
        max_backoff: TimeSpan::from_secs(1),
    }
}

#[test]
fn delays_double_up_to_the_longest() {
    let retry = retry();
    assert_eq!(delay_before_retry(&retry, 0), TimeSpan::from_millis(250));
    assert_eq!(delay_before_retry(&retry, 1), TimeSpan::from_millis(500));
    assert_eq!(delay_before_retry(&retry, 2), TimeSpan::from_secs(1));
    assert_eq!(delay_before_retry(&retry, 1000), TimeSpan::from_secs(1));
}

#[test]
fn only_passing_troubles_are_tried_again() {
    for status in [408, 429, 500, 503, 599] {
        assert!(is_retryable_status(status));
    }
    for status in [200, 400, 404, 600] {
        assert!(!is_retryable_status(status));
    }
    let retry = retry();
    let busy = || TransportReply::Refused {
        status: 503,
        shown: "503 Service Unavailable".to_string(),
        body: Ok("later".to_string()),
    };
    assert!(matches!(
        decide_retry(&retry, 0, TransportReply::Accepted),
        TransportDecision::Read
    ));
    assert!(matches!(
        decide_retry(&retry, 1, busy()),
        TransportDecision::Retry { delay } if delay == TimeSpan::from_millis(500)
    ));
    assert!(matches!(
        decide_retry(&retry, 2, busy()),
        TransportDecision::Fail { .. }
    ));
    let wrong = TransportReply::Refused {
        status: 400,
        shown: "400 Bad Request".to_string(),
        body: Ok("no".to_string()),
    };
    assert!(matches!(
        decide_retry(&retry, 0, wrong),
        TransportDecision::Fail { .. }
    ));
    let broken = |transient| TransportReply::Failed {
        message: "broken connection".to_string(),
        transient,
    };
    assert!(matches!(
        decide_retry(&retry, 0, broken(true)),
        TransportDecision::Retry { .. }
    ));
    let TransportDecision::Fail { error } = decide_retry(&retry, 0, broken(false)) else {
        panic!("a failure")
    };
    assert!(error.text().contains("broken connection"));
}

#[test]
fn frames_end_at_an_empty_line() {
    assert_eq!(find_sse_frame_end(b"data: 1\n\nrest"), Some((7, 2)));
    assert_eq!(find_sse_frame_end(b"data: 1\r\n\r\nrest"), Some((7, 4)));
    assert_eq!(find_sse_frame_end(b"data: 1\n"), None);
    assert_eq!(find_sse_frame_end(b""), None);
}

#[test]
fn sent_calls_are_read_back() {
    let record = json(
        r#"{"tool_calls": [{"call_id": "c1", "name": "lookup",
            "arguments": {"q": [1, -2, "x \"y\""], "deep": {"a": null}}}]}"#,
    );
    let calls = read_function_calls_field(&record, "tool_calls").unwrap();
    let body = request_body(
        &config(),
        &ModelRequest {
            messages: vec![ChatMessage::Assistant {
                content: None,
                tool_calls: calls.clone(),
                continuation: None,
            }],
            functions: Vec::new(),
        },
    )
    .unwrap();
    let input = body.get_array("input").unwrap();
    let sent = input[0].get_text("arguments").unwrap();
    assert_eq!(sent, r#"{"deep":{"a":null},"q":[1,-2,"x \"y\""]}"#);
    assert_eq!(finish_call(&input[0], parse(sent)), Ok(calls[0].clone()));
    assert!(finish_call(&input[0], parse("{")).is_err());
}

#[test]
fn events_can_stand_in_order() {
    let event =
        read_event(&json(r#"["x", null, {}, "i", 3, null, null, null, "m"]"#)).unwrap();
    assert_eq!(event.kind, "x");
    assert_eq!(event.item_id, Some("i".to_string()));
    assert_eq!(event.output_index, Some(3));
    assert_eq!(event.message, Some("m".to_string()));
    assert!(event.response.is_none());
    assert!(read_event(&json(r#"["x"]"#)).is_err());
}

#[test]
fn events_hold_each_field_once() {
    let mut decoder = ResponseDecoder::new();
    let mut emitted = Vec::new();
    let twice = r#"{"type": "x", "delta": "a", "delta": "b"}"#;
    assert!(matches!(
        decoder.data(twice, &mut emitted),
        Err(AgentError::Model(text)) if text.starts_with("invalid Responses SSE event: ")
    ));
    assert!(decoder.data(r#"{"type": "x", "\u0074ype": "x"}"#, &mut emitted).is_err());
    assert!(decoder
        .data(r#" {"type": "x", "other": 1, "other": {"type": 2, "type": "]"}} "#, &mut emitted)
        .is_ok());
    assert!(decoder
        .data(r#"{"type": "x", "item": {"a": 1, "a": 2}}"#, &mut emitted)
        .is_ok());
}

#[test]
fn members_that_are_no_fields_are_passed_over() {
    let mut decoder = ResponseDecoder::new();
    let mut emitted = Vec::new();
    let deep = "[".repeat(300) + &"]".repeat(300);
    for other in ["1e999", r#""\ud800""#, deep.as_str(), r#"{"a": [1e999, "}"]}"#] {
        let data =
            format!(r#"{{"other": {other}, "type": "response.output_text.delta", "delta": "d"}}"#);
        emitted.clear();
        decoder.data(&data, &mut emitted).unwrap();
        assert!(emitted.contains(&ModelStreamEvent::AssistantDelta {
            text: "d".to_string()
        }));
        assert!(decoder
            .data(&format!(r#"{{"type": "x", "item": {other}}}"#), &mut emitted)
            .is_err());
        assert!(decoder
            .data(&format!(r#"{{"type": "x", "other": {other}"#), &mut emitted)
            .is_err());
    }
}
