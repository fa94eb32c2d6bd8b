//! What the desktop shows of a turn, and what it takes from its settings.

use crate::desktop::{config_checked, config_of, config_read, turn_event, workspace_of, DesktopConfigView};
use crate::json::{JsonView, NumberView};
use crate::json_laws::holds;
use crate::kernel::events::TokenUsage;
use crate::kernel::model::ModelFunctionCallView;
use crate::kernel::records::suspension_json;
use crate::runtime::turn::{
    TurnModelEventView, TurnOutcomeView, TurnStateEventView, TurnStreamEventView,
};
use crate::shape::{is_unambiguous, Shape};
use vstd::prelude::*;

verus! {

/// An object has a text under a key.
pub open spec fn tells(json: JsonView, key: Seq<char>, text: Seq<char>) -> bool {
    holds(json, key, JsonView::Text(text))
}

/// What is shown of calls: one object for each, in their order.
pub open spec fn shows_calls(json: JsonView, calls: Seq<ModelFunctionCallView>) -> bool {
    &&& json is Array
    &&& json->Array_0.len() == calls.len()
    &&& forall|i: int|
        0 <= i < calls.len() ==> {
            &&& tells(#[trigger] json->Array_0[i], "call_id"@, calls[i].call_id)
            &&& tells(json->Array_0[i], "name"@, calls[i].name)
            &&& holds(json->Array_0[i], "arguments"@, calls[i].arguments)
        }
}

/// What is shown of tokens.
pub open spec fn shows_usage(json: JsonView, usage: TokenUsage) -> bool {
    &&& holds(json, "input_tokens"@, JsonView::Number(NumberView::Unsigned(usage.input_tokens)))
    &&& holds(
        json,
        "cached_input_tokens"@,
        JsonView::Number(NumberView::Unsigned(usage.cached_input_tokens)),
    )
    &&& holds(json, "output_tokens"@, JsonView::Number(NumberView::Unsigned(usage.output_tokens)))
    &&& holds(json, "total_tokens"@, JsonView::Number(NumberView::Unsigned(usage.total_tokens)))
}

/// What is shown of how a turn ended.
pub open spec fn shows_outcome(json: JsonView, outcome: TurnOutcomeView) -> bool {
    &&& tells(json, "type"@, "turn_finished"@)
    &&& match outcome {
        TurnOutcomeView::AssistantMessage { text } => tells(
            json,
            "outcome"@,
            "assistant_message"@,
        ) && tells(json, "text"@, text),
        TurnOutcomeView::Suspended { suspension } => tells(json, "outcome"@, "suspended"@) && holds(
            json,
            "suspension"@,
            suspension_json(suspension),
        ),
        TurnOutcomeView::Failed { error } => tells(json, "outcome"@, "failed"@) && tells(
            json,
            "error"@,
            error,
        ),
        TurnOutcomeView::Aborted { reason } => tells(json, "outcome"@, "aborted"@) && tells(
            json,
            "reason"@,
            reason,
        ),
    }
}

proof fn lemma_names()
    ensures
        forall|name: Seq<char>|
            #![trigger name.len()]
            name.len() != 4 ==> name != "type"@,
        "type"@ != "name"@,
        "type"@ != "text"@,
        "call_id"@ != "name"@,
        "call_id"@ != "error"@,
        "name"@ != "error"@,
        "thread_id"@ != "turn_id"@,
        "outcome"@ != "text"@,
        "outcome"@ != "suspension"@,
        "outcome"@ != "error"@,
        "outcome"@ != "reason"@,
        "source"@ != "message"@,
        "source"@ != "metadata"@,
        "message"@ != "metadata"@,
        "call_id"@ != "arguments"@,
        "name"@ != "arguments"@,
        "call_id"@.len() == 7,
        "error"@.len() == 5,
        "thread_id"@.len() == 9,
        "turn_id"@.len() == 7,
        "outcome"@.len() == 7,
        "suspension"@.len() == 10,
        "reason"@.len() == 6,
        "source"@.len() == 6,
        "message"@.len() == 7,
        "metadata"@.len() == 8,
        "calls"@.len() == 5,
        "usage"@.len() == 5,
        "iteration"@.len() == 9,
{
    reveal_strlit("type");
    reveal_strlit("name");
    reveal_strlit("text");
    reveal_strlit("call_id");
    reveal_strlit("error");
    reveal_strlit("thread_id");
    reveal_strlit("turn_id");
    reveal_strlit("outcome");
    reveal_strlit("suspension");
    reveal_strlit("reason");
    reveal_strlit("source");
    reveal_strlit("message");
    reveal_strlit("metadata");
    reveal_strlit("calls");
    reveal_strlit("usage");
    reveal_strlit("iteration");
    reveal_strlit("arguments");
    assert("type"@.len() == 4 && "type"@[1] == 'y');
    assert("name"@.len() == 4 && "name"@[1] == 'a');
    assert("text"@.len() == 4 && "text"@[1] == 'e');
    assert("arguments"@.len() == 9);
    assert("call_id"@.len() == 7);
    assert("error"@.len() == 5);
    assert("thread_id"@.len() == 9);
    assert("turn_id"@.len() == 7);
    assert("outcome"@.len() == 7);
    assert("suspension"@.len() == 10);
    assert("reason"@.len() == 6);
    assert("source"@.len() == 6);
    assert("message"@.len() == 7);
    assert("metadata"@.len() == 8);
}

/// What is shown of an event tells its kind and everything in it.
pub proof fn law_event_is_shown_whole(event: TurnStreamEventView)
    ensures
        ({
            let json = turn_event(event);
            match event {
                TurnStreamEventView::Model(event) => match event {
                    TurnModelEventView::RequestStarted { iteration } => tells(
                        json,
                        "type"@,
                        "model_iteration_started"@,
                    ) && holds(
                        json,
                        "iteration"@,
                        JsonView::Number(NumberView::Unsigned(iteration as u64)),
                    ),
                    TurnModelEventView::AssistantMessage { text } => tells(
                        json,
                        "type"@,
                        "assistant_message"@,
                    ) && tells(json, "text"@, text),
                    TurnModelEventView::AssistantDelta { text } => tells(
                        json,
                        "type"@,
                        "assistant_delta"@,
                    ) && tells(json, "text"@, text),
                },
                TurnStreamEventView::Runtime(runtime) => tells(json, "type"@, "runtime"@) && tells(
                    json,
                    "source"@,
                    runtime.source,
                ) && tells(json, "message"@, runtime.message) && holds(
                    json,
                    "metadata"@,
                    runtime.metadata,
                ),
                TurnStreamEventView::State(event) => match event {
                    TurnStateEventView::TurnStarted { thread_id, turn_id } => tells(
                        json,
                        "type"@,
                        "turn_started"@,
                    ) && tells(json, "thread_id"@, thread_id) && tells(json, "turn_id"@, turn_id),
                    TurnStateEventView::FunctionCallsRequested { calls } => tells(
                        json,
                        "type"@,
                        "tool_calls_requested"@,
                    ) && json->Object_0.contains_key("calls"@) && shows_calls(
                        json->Object_0["calls"@],
                        calls,
                    ),
                    TurnStateEventView::FunctionStarted { call_id, name } => tells(
                        json,
                        "type"@,
                        "tool_started"@,
                    ) && tells(json, "call_id"@, call_id) && tells(json, "name"@, name),
                    TurnStateEventView::FunctionCompleted { call_id, name } => tells(
                        json,
                        "type"@,
                        "tool_completed"@,
                    ) && tells(json, "call_id"@, call_id) && tells(json, "name"@, name),
                    TurnStateEventView::FunctionFailed { call_id, name, error } => tells(
                        json,
                        "type"@,
                        "tool_failed"@,
                    ) && tells(json, "call_id"@, call_id) && tells(json, "name"@, name) && tells(
                        json,
                        "error"@,
                        error,
                    ),
                    TurnStateEventView::Suspended { suspension } => tells(
                        json,
                        "type"@,
                        "turn_suspended"@,
                    ) && holds(json, "suspension"@, suspension_json(suspension)),
                    TurnStateEventView::TurnFinished { outcome } => shows_outcome(json, outcome),
                    TurnStateEventView::TurnFailed { error } => tells(
                        json,
                        "type"@,
                        "turn_failed"@,
                    ) && tells(json, "error"@, error),
                    TurnStateEventView::TurnAborted { reason } => tells(
                        json,
                        "type"@,
                        "turn_aborted"@,
                    ) && tells(json, "reason"@, reason),
                    TurnStateEventView::TurnTokenUsage { usage } => tells(
                        json,
                        "type"@,
                        "token_usage"@,
                    ) && json->Object_0.contains_key("usage"@) && shows_usage(
                        json->Object_0["usage"@],
                        usage,
                    ),
                },
            }
        }),
{
    lemma_names();
    reveal_strlit("input_tokens");
    reveal_strlit("cached_input_tokens");
    reveal_strlit("output_tokens");
    reveal_strlit("total_tokens");
    assert("input_tokens"@.len() == 12 && "input_tokens"@[0] == 'i');
    assert("cached_input_tokens"@.len() == 19);
    assert("output_tokens"@.len() == 13);
    assert("total_tokens"@.len() == 12 && "total_tokens"@[0] == 't');
}

/// Settings can be used where the context holds from 8,192 to 2,000,000 tokens and a turn may ask the
/// model from once to 65,535 times.
pub proof fn law_settings_stay_in_range(config: DesktopConfigView)
    ensures
        config_checked(config) is Ok <==> 8_192 <= config.max_context_tokens
            && config.max_context_tokens <= 2_000_000 && 1 <= config.max_model_iterations
            && config.max_model_iterations < 65_536,
{
}

/// A thread works in the directory that its metadata names, where that is an absolute path, and else
/// in the one that is given.
pub proof fn law_thread_works_in_its_workspace(metadata: JsonView, path: Seq<char>, fallback: Seq<char>)
    ensures
        tells(metadata, "workspace"@, path) && path.len() > 0 && path[0] == '/' ==> workspace_of(
            metadata,
            fallback,
        ) == path,
        workspace_of(metadata, fallback) != fallback ==> tells(
            metadata,
            "workspace"@,
            workspace_of(metadata, fallback),
        ) && workspace_of(metadata, fallback)[0] == '/',
        tells(metadata, "workspace"@, path) && (path.len() == 0 || path[0] != '/') ==> workspace_of(
            metadata,
            fallback,
        ) == fallback,
{
}

/// A text setting that is there is taken as it is.
pub open spec fn takes_text(json: JsonView, key: Seq<char>, value: Seq<char>) -> bool {
    json->Object_0.contains_key(key) ==> json->Object_0[key] == JsonView::Text(value)
}

/// A number setting that is there is taken as it is.
pub open spec fn takes_count(json: JsonView, key: Seq<char>, value: usize) -> bool {
    json->Object_0.contains_key(key) ==> json->Object_0[key] == JsonView::Number(
        NumberView::Unsigned(value as u64),
    )
}

/// Settings are read from an object by their names.
pub proof fn law_settings_are_read_by_name(json: JsonView, config: DesktopConfigView)
    requires
        json is Object,
        config_of(json) == Some(config),
    ensures
        takes_text(json, "base_url"@, config.base_url),
        takes_text(json, "model"@, config.model),
        takes_text(json, "api_key"@, config.api_key),
        takes_text(json, "qianfan_api_key"@, config.qianfan_api_key),
        takes_text(json, "workspace"@, config.workspace),
        takes_count(json, "max_context_tokens"@, config.max_context_tokens),
        takes_count(json, "max_model_iterations"@, config.max_model_iterations),
{
}

/// Settings are what their text says, where it can be read and holds each of them once; else there
/// are none.
pub proof fn law_settings_are_what_the_text_says(text: Seq<char>, json: JsonView)
    ensures
        is_unambiguous(text, Shape::Settings) ==> config_read(text, Ok(Some(json))) == config_of(
            json,
        ),
        !is_unambiguous(text, Shape::Settings) ==> config_read(text, Ok(Some(json))) is None,
        config_read(text, Ok(None)) is None,
{
}

} // verus!
