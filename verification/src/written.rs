//! Written revisions and settings hold each field once.

use crate::codec::optional_text_text;
use crate::desktop::{config_spelling, config_text, DesktopConfigView};
use crate::json::{compact, json_quoted};
use crate::revision::revision::{AgentRevisionView, CommitMessageView, RevisionMetadataView};
use crate::revision::revision_codec::{
    agent_revision_json, agent_revision_text, commit_message_text, parents_text,
    revision_metadata_text,
};
use crate::revision::spec::{
    AgentBuildRefView, AgentSpecView, ComponentRefView, ModelSpecView, PromptSpecView,
    RuntimePolicySpecView, ToolInterfaceSpecView, ToolSpecView, TurnExecutionLimitsSpec,
};
use crate::revision::spec_codec::{
    agent_build_ref_text, agent_spec_json, agent_spec_text, component_ref_json, component_ref_text,
    hooks_json, hooks_text, model_spec_json, model_spec_text, prompt_spec_text,
    runtime_policy_spec_json, runtime_policy_spec_text, templates_fields, templates_text,
    tool_interface_spec_json, tool_interface_spec_text, tool_spec_json, tool_spec_text,
    tools_fields, tools_json, tools_text, turn_execution_limits_spec_text,
};
use crate::shape::{field_at, fields, is_unambiguous, Shape};
use crate::shape_laws::{
    are_fields, has_names, is_name, is_value, lemma_compact_is_value, lemma_decimal_is_value,
    lemma_list_is_value, lemma_object_is_value, lemma_quoted_is_value, lemma_record_is_value,
    lemma_table_is_value, lemma_value_is_unambiguous, lemma_words, member_text, member_texts, record_text,
};
use crate::spelling::{is_plain_json, laid_out, laid_out_fields, Spelling};
use crate::text::decimal;
use crate::text_map::{lemma_finite_is_walked, sorted_keys};
use vstd::prelude::*;

verus! {

proof fn lemma_settings_names()
    ensures
        has_names(Shape::Settings),
        "base_url"@ != "model"@,
        "base_url"@ != "api_key"@,
        "base_url"@ != "qianfan_api_key"@,
        "base_url"@ != "workspace"@,
        "base_url"@ != "max_context_tokens"@,
        "base_url"@ != "max_model_iterations"@,
        "model"@ != "api_key"@,
        "model"@ != "qianfan_api_key"@,
        "model"@ != "workspace"@,
        "model"@ != "max_context_tokens"@,
        "model"@ != "max_model_iterations"@,
        "api_key"@ != "qianfan_api_key"@,
        "api_key"@ != "workspace"@,
        "api_key"@ != "max_context_tokens"@,
        "api_key"@ != "max_model_iterations"@,
        "qianfan_api_key"@ != "workspace"@,
        "qianfan_api_key"@ != "max_context_tokens"@,
        "qianfan_api_key"@ != "max_model_iterations"@,
        "workspace"@ != "max_context_tokens"@,
        "workspace"@ != "max_model_iterations"@,
        "max_context_tokens"@ != "max_model_iterations"@,
{
    reveal_strlit("base_url");
    reveal_strlit("model");
    reveal_strlit("api_key");
    reveal_strlit("qianfan_api_key");
    reveal_strlit("workspace");
    reveal_strlit("max_context_tokens");
    reveal_strlit("max_model_iterations");
    assert("base_url"@.len() != "model"@.len());
    assert("base_url"@.len() != "api_key"@.len());
    assert("base_url"@.len() != "qianfan_api_key"@.len());
    assert("base_url"@.len() != "workspace"@.len());
    assert("base_url"@.len() != "max_context_tokens"@.len());
    assert("base_url"@.len() != "max_model_iterations"@.len());
    assert("model"@.len() != "api_key"@.len());
    assert("model"@.len() != "qianfan_api_key"@.len());
    assert("model"@.len() != "workspace"@.len());
    assert("model"@.len() != "max_context_tokens"@.len());
    assert("model"@.len() != "max_model_iterations"@.len());
    assert("api_key"@.len() != "qianfan_api_key"@.len());
    assert("api_key"@.len() != "workspace"@.len());
    assert("api_key"@.len() != "max_context_tokens"@.len());
    assert("api_key"@.len() != "max_model_iterations"@.len());
    assert("qianfan_api_key"@.len() != "workspace"@.len());
    assert("qianfan_api_key"@.len() != "max_context_tokens"@.len());
    assert("qianfan_api_key"@.len() != "max_model_iterations"@.len());
    assert("workspace"@.len() != "max_context_tokens"@.len());
    assert("workspace"@.len() != "max_model_iterations"@.len());
    assert("max_context_tokens"@.len() != "max_model_iterations"@.len());
    reveal_with_fuel(field_at, 8);
    let all = fields(Shape::Settings);
    assert(is_name("base_url"@));
    assert(all[0].0 == "base_url"@ && field_at(all, "base_url"@) == Some(0int));
    assert(is_name("model"@));
    assert(all[1].0 == "model"@ && field_at(all, "model"@) == Some(1int));
    assert(is_name("api_key"@));
    assert(all[2].0 == "api_key"@ && field_at(all, "api_key"@) == Some(2int));
    assert(is_name("qianfan_api_key"@));
    assert(all[3].0 == "qianfan_api_key"@ && field_at(all, "qianfan_api_key"@) == Some(3int));
    assert(is_name("workspace"@));
    assert(all[4].0 == "workspace"@ && field_at(all, "workspace"@) == Some(4int));
    assert(is_name("max_context_tokens"@));
    assert(all[5].0 == "max_context_tokens"@ && field_at(all, "max_context_tokens"@) == Some(5int));
    assert(is_name("max_model_iterations"@));
    assert(all[6].0 == "max_model_iterations"@ && field_at(all, "max_model_iterations"@) == Some(6int));
}

proof fn lemma_revision_names()
    ensures
        has_names(Shape::Revision),
        "revision_id"@ != "agent_id"@,
        "revision_id"@ != "spec_digest"@,
        "revision_id"@ != "spec"@,
        "revision_id"@ != "parents"@,
        "revision_id"@ != "message"@,
        "revision_id"@ != "metadata"@,
        "agent_id"@ != "spec_digest"@,
        "agent_id"@ != "spec"@,
        "agent_id"@ != "parents"@,
        "agent_id"@ != "message"@,
        "agent_id"@ != "metadata"@,
        "spec_digest"@ != "spec"@,
        "spec_digest"@ != "parents"@,
        "spec_digest"@ != "message"@,
        "spec_digest"@ != "metadata"@,
        "spec"@ != "parents"@,
        "spec"@ != "message"@,
        "spec"@ != "metadata"@,
        "parents"@ != "message"@,
        "parents"@ != "metadata"@,
        "message"@ != "metadata"@,
{
    reveal_strlit("revision_id");
    reveal_strlit("agent_id");
    reveal_strlit("spec_digest");
    reveal_strlit("spec");
    reveal_strlit("parents");
    reveal_strlit("message");
    reveal_strlit("metadata");
    assert("revision_id"@.len() != "agent_id"@.len());
    assert("revision_id"@[0] != "spec_digest"@[0]);
    assert("revision_id"@.len() != "spec"@.len());
    assert("revision_id"@.len() != "parents"@.len());
    assert("revision_id"@.len() != "message"@.len());
    assert("revision_id"@.len() != "metadata"@.len());
    assert("agent_id"@.len() != "spec_digest"@.len());
    assert("agent_id"@.len() != "spec"@.len());
    assert("agent_id"@.len() != "parents"@.len());
    assert("agent_id"@.len() != "message"@.len());
    assert("agent_id"@[0] != "metadata"@[0]);
    assert("spec_digest"@.len() != "spec"@.len());
    assert("spec_digest"@.len() != "parents"@.len());
    assert("spec_digest"@.len() != "message"@.len());
    assert("spec_digest"@.len() != "metadata"@.len());
    assert("spec"@.len() != "parents"@.len());
    assert("spec"@.len() != "message"@.len());
    assert("spec"@.len() != "metadata"@.len());
    assert("parents"@[0] != "message"@[0]);
    assert("parents"@.len() != "metadata"@.len());
    assert("message"@.len() != "metadata"@.len());
    reveal_with_fuel(field_at, 8);
    let all = fields(Shape::Revision);
    assert(is_name("revision_id"@));
    assert(all[0].0 == "revision_id"@ && field_at(all, "revision_id"@) == Some(0int));
    assert(is_name("agent_id"@));
    assert(all[1].0 == "agent_id"@ && field_at(all, "agent_id"@) == Some(1int));
    assert(is_name("spec_digest"@));
    assert(all[2].0 == "spec_digest"@ && field_at(all, "spec_digest"@) == Some(2int));
    assert(is_name("spec"@));
    assert(all[3].0 == "spec"@ && field_at(all, "spec"@) == Some(3int));
    assert(is_name("parents"@));
    assert(all[4].0 == "parents"@ && field_at(all, "parents"@) == Some(4int));
    assert(is_name("message"@));
    assert(all[5].0 == "message"@ && field_at(all, "message"@) == Some(5int));
    assert(is_name("metadata"@));
    assert(all[6].0 == "metadata"@ && field_at(all, "metadata"@) == Some(6int));
}

proof fn lemma_spec_names()
    ensures
        has_names(Shape::Spec),
        "agent_id"@ != "model"@,
        "agent_id"@ != "prompts"@,
        "agent_id"@ != "tools"@,
        "agent_id"@ != "runtime"@,
        "agent_id"@ != "build"@,
        "model"@ != "prompts"@,
        "model"@ != "tools"@,
        "model"@ != "runtime"@,
        "model"@ != "build"@,
        "prompts"@ != "tools"@,
        "prompts"@ != "runtime"@,
        "prompts"@ != "build"@,
        "tools"@ != "runtime"@,
        "tools"@ != "build"@,
        "runtime"@ != "build"@,
{
    reveal_strlit("agent_id");
    reveal_strlit("model");
    reveal_strlit("prompts");
    reveal_strlit("tools");
    reveal_strlit("runtime");
    reveal_strlit("build");
    assert("agent_id"@.len() != "model"@.len());
    assert("agent_id"@.len() != "prompts"@.len());
    assert("agent_id"@.len() != "tools"@.len());
    assert("agent_id"@.len() != "runtime"@.len());
    assert("agent_id"@.len() != "build"@.len());
    assert("model"@.len() != "prompts"@.len());
    assert("model"@[0] != "tools"@[0]);
    assert("model"@.len() != "runtime"@.len());
    assert("model"@[0] != "build"@[0]);
    assert("prompts"@.len() != "tools"@.len());
    assert("prompts"@[0] != "runtime"@[0]);
    assert("prompts"@.len() != "build"@.len());
    assert("tools"@.len() != "runtime"@.len());
    assert("tools"@[0] != "build"@[0]);
    assert("runtime"@.len() != "build"@.len());
    reveal_with_fuel(field_at, 7);
    let all = fields(Shape::Spec);
    assert(is_name("agent_id"@));
    assert(all[0].0 == "agent_id"@ && field_at(all, "agent_id"@) == Some(0int));
    assert(is_name("model"@));
    assert(all[1].0 == "model"@ && field_at(all, "model"@) == Some(1int));
    assert(is_name("prompts"@));
    assert(all[2].0 == "prompts"@ && field_at(all, "prompts"@) == Some(2int));
    assert(is_name("tools"@));
    assert(all[3].0 == "tools"@ && field_at(all, "tools"@) == Some(3int));
    assert(is_name("runtime"@));
    assert(all[4].0 == "runtime"@ && field_at(all, "runtime"@) == Some(4int));
    assert(is_name("build"@));
    assert(all[5].0 == "build"@ && field_at(all, "build"@) == Some(5int));
}

proof fn lemma_model_names()
    ensures
        has_names(Shape::Model),
        "fqn"@ != "settings"@,
{
    reveal_strlit("fqn");
    reveal_strlit("settings");
    assert("fqn"@.len() != "settings"@.len());
    reveal_with_fuel(field_at, 3);
    let all = fields(Shape::Model);
    assert(is_name("fqn"@));
    assert(all[0].0 == "fqn"@ && field_at(all, "fqn"@) == Some(0int));
    assert(is_name("settings"@));
    assert(all[1].0 == "settings"@ && field_at(all, "settings"@) == Some(1int));
}

proof fn lemma_prompts_names()
    ensures
        has_names(Shape::Prompts),
        "system"@ != "templates"@,
{
    reveal_strlit("system");
    reveal_strlit("templates");
    assert("system"@.len() != "templates"@.len());
    reveal_with_fuel(field_at, 3);
    let all = fields(Shape::Prompts);
    assert(is_name("system"@));
    assert(all[0].0 == "system"@ && field_at(all, "system"@) == Some(0int));
    assert(is_name("templates"@));
    assert(all[1].0 == "templates"@ && field_at(all, "templates"@) == Some(1int));
}

proof fn lemma_tool_names()
    ensures
        has_names(Shape::Tool),
        "interface"@ != "configuration"@,
{
    reveal_strlit("interface");
    reveal_strlit("configuration");
    assert("interface"@.len() != "configuration"@.len());
    reveal_with_fuel(field_at, 3);
    let all = fields(Shape::Tool);
    assert(is_name("interface"@));
    assert(all[0].0 == "interface"@ && field_at(all, "interface"@) == Some(0int));
    assert(is_name("configuration"@));
    assert(all[1].0 == "configuration"@ && field_at(all, "configuration"@) == Some(1int));
}

proof fn lemma_interface_names()
    ensures
        has_names(Shape::Interface),
        "name"@ != "description"@,
        "name"@ != "parameters"@,
        "name"@ != "output_schema"@,
        "description"@ != "parameters"@,
        "description"@ != "output_schema"@,
        "parameters"@ != "output_schema"@,
{
    reveal_strlit("name");
    reveal_strlit("description");
    reveal_strlit("parameters");
    reveal_strlit("output_schema");
    assert("name"@.len() != "description"@.len());
    assert("name"@.len() != "parameters"@.len());
    assert("name"@.len() != "output_schema"@.len());
    assert("description"@.len() != "parameters"@.len());
    assert("description"@.len() != "output_schema"@.len());
    assert("parameters"@.len() != "output_schema"@.len());
    reveal_with_fuel(field_at, 5);
    let all = fields(Shape::Interface);
    assert(is_name("name"@));
    assert(all[0].0 == "name"@ && field_at(all, "name"@) == Some(0int));
    assert(is_name("description"@));
    assert(all[1].0 == "description"@ && field_at(all, "description"@) == Some(1int));
    assert(is_name("parameters"@));
    assert(all[2].0 == "parameters"@ && field_at(all, "parameters"@) == Some(2int));
    assert(is_name("output_schema"@));
    assert(all[3].0 == "output_schema"@ && field_at(all, "output_schema"@) == Some(3int));
}

proof fn lemma_runtime_names()
    ensures
        has_names(Shape::Runtime),
        "context_builder"@ != "hooks"@,
        "context_builder"@ != "turn_execution_limits"@,
        "hooks"@ != "turn_execution_limits"@,
{
    reveal_strlit("context_builder");
    reveal_strlit("hooks");
    reveal_strlit("turn_execution_limits");
    assert("context_builder"@.len() != "hooks"@.len());
    assert("context_builder"@.len() != "turn_execution_limits"@.len());
    assert("hooks"@.len() != "turn_execution_limits"@.len());
    reveal_with_fuel(field_at, 4);
    let all = fields(Shape::Runtime);
    assert(is_name("context_builder"@));
    assert(all[0].0 == "context_builder"@ && field_at(all, "context_builder"@) == Some(0int));
    assert(is_name("hooks"@));
    assert(all[1].0 == "hooks"@ && field_at(all, "hooks"@) == Some(1int));
    assert(is_name("turn_execution_limits"@));
    assert(all[2].0 == "turn_execution_limits"@ && field_at(all, "turn_execution_limits"@) == Some(2int));
}

proof fn lemma_component_names()
    ensures
        has_names(Shape::Component),
        "fqn"@ != "configuration"@,
{
    reveal_strlit("fqn");
    reveal_strlit("configuration");
    assert("fqn"@.len() != "configuration"@.len());
    reveal_with_fuel(field_at, 3);
    let all = fields(Shape::Component);
    assert(is_name("fqn"@));
    assert(all[0].0 == "fqn"@ && field_at(all, "fqn"@) == Some(0int));
    assert(is_name("configuration"@));
    assert(all[1].0 == "configuration"@ && field_at(all, "configuration"@) == Some(1int));
}

proof fn lemma_limits_names()
    ensures
        has_names(Shape::Limits),
        "max_model_iterations"@ != "max_function_calls"@,
{
    reveal_strlit("max_model_iterations");
    reveal_strlit("max_function_calls");
    assert("max_model_iterations"@.len() != "max_function_calls"@.len());
    reveal_with_fuel(field_at, 3);
    let all = fields(Shape::Limits);
    assert(is_name("max_model_iterations"@));
    assert(all[0].0 == "max_model_iterations"@ && field_at(all, "max_model_iterations"@) == Some(0int));
    assert(is_name("max_function_calls"@));
    assert(all[1].0 == "max_function_calls"@ && field_at(all, "max_function_calls"@) == Some(1int));
}

proof fn lemma_build_names()
    ensures
        has_names(Shape::Build),
{
    reveal_strlit("id");
    reveal_with_fuel(field_at, 2);
    let all = fields(Shape::Build);
    assert(is_name("id"@));
    assert(all[0].0 == "id"@ && field_at(all, "id"@) == Some(0int));
}

proof fn lemma_message_names()
    ensures
        has_names(Shape::Message),
        "subject"@ != "body"@,
{
    reveal_strlit("subject");
    reveal_strlit("body");
    assert("subject"@.len() != "body"@.len());
    reveal_with_fuel(field_at, 3);
    let all = fields(Shape::Message);
    assert(is_name("subject"@));
    assert(all[0].0 == "subject"@ && field_at(all, "subject"@) == Some(0int));
    assert(is_name("body"@));
    assert(all[1].0 == "body"@ && field_at(all, "body"@) == Some(1int));
}

proof fn lemma_metadata_names()
    ensures
        has_names(Shape::Metadata),
        "author"@ != "created_at"@,
{
    reveal_strlit("author");
    reveal_strlit("created_at");
    assert("author"@.len() != "created_at"@.len());
    reveal_with_fuel(field_at, 3);
    let all = fields(Shape::Metadata);
    assert(is_name("author"@));
    assert(all[0].0 == "author"@ && field_at(all, "author"@) == Some(0int));
    assert(is_name("created_at"@));
    assert(all[1].0 == "created_at"@ && field_at(all, "created_at"@) == Some(1int));
}

proof fn lemma_optional_is_value(text: Option<Seq<char>>)
    ensures
        is_value(optional_text_text(text), Shape::Anything),
{
    match text {
        Some(text) => {
            lemma_quoted_is_value(text);
        },
        None => {
            lemma_words();
        },
    }
}

proof fn lemma_component_ref_is_value(value: ComponentRefView, depth: nat)
    requires
        is_plain_json(component_ref_json(value), depth),
    ensures
        is_value(component_ref_text(value), Shape::Component),
{
    lemma_component_names();
    let inner = (depth - 1) as nat;
    let members = component_ref_json(value)->Object_0;
    lemma_quoted_is_value(value.fqn);
    assert(members.contains_key("configuration"@));
    assert(is_plain_json(members["configuration"@], inner));
    lemma_compact_is_value(value.configuration, inner);
    let pairs = seq![
        ("fqn"@, json_quoted(value.fqn)),
        ("configuration"@, compact(value.configuration)),
    ];
    assert(are_fields(pairs, Shape::Component));
    lemma_object_is_value(pairs, Shape::Component);
}

proof fn lemma_model_spec_is_value(value: ModelSpecView, depth: nat)
    requires
        is_plain_json(model_spec_json(value), depth),
    ensures
        is_value(model_spec_text(value), Shape::Model),
{
    lemma_model_names();
    let inner = (depth - 1) as nat;
    let members = model_spec_json(value)->Object_0;
    lemma_quoted_is_value(value.fqn);
    assert(members.contains_key("settings"@));
    assert(is_plain_json(members["settings"@], inner));
    lemma_compact_is_value(value.settings, inner);
    let pairs = seq![
        ("fqn"@, json_quoted(value.fqn)),
        ("settings"@, compact(value.settings)),
    ];
    assert(are_fields(pairs, Shape::Model));
    lemma_object_is_value(pairs, Shape::Model);
}

proof fn lemma_tool_interface_spec_is_value(value: ToolInterfaceSpecView, depth: nat)
    requires
        is_plain_json(tool_interface_spec_json(value), depth),
    ensures
        is_value(tool_interface_spec_text(value), Shape::Interface),
{
    lemma_interface_names();
    let inner = (depth - 1) as nat;
    let members = tool_interface_spec_json(value)->Object_0;
    lemma_quoted_is_value(value.name);
    lemma_quoted_is_value(value.description);
    assert(members.contains_key("parameters"@));
    assert(is_plain_json(members["parameters"@], inner));
    lemma_compact_is_value(value.parameters, inner);
    assert(members.contains_key("output_schema"@));
    assert(is_plain_json(members["output_schema"@], inner));
    lemma_compact_is_value(value.output_schema, inner);
    let pairs = seq![
        ("name"@, json_quoted(value.name)),
        ("description"@, json_quoted(value.description)),
        ("parameters"@, compact(value.parameters)),
        ("output_schema"@, compact(value.output_schema)),
    ];
    assert(are_fields(pairs, Shape::Interface));
    lemma_object_is_value(pairs, Shape::Interface);
}

proof fn lemma_agent_build_ref_is_value(value: AgentBuildRefView)
    ensures
        is_value(agent_build_ref_text(value), Shape::Build),
{
    lemma_build_names();
    lemma_quoted_is_value(value.id);
    let pairs = seq![
        ("id"@, json_quoted(value.id)),
    ];
    assert(are_fields(pairs, Shape::Build));
    lemma_object_is_value(pairs, Shape::Build);
}

proof fn lemma_tool_spec_is_value(value: ToolSpecView, depth: nat)
    requires
        is_plain_json(tool_spec_json(value), depth),
    ensures
        is_value(tool_spec_text(value), Shape::Tool),
{
    lemma_tool_names();
    let inner = (depth - 1) as nat;
    let members = tool_spec_json(value)->Object_0;
    assert(members.contains_key("interface"@));
    assert(is_plain_json(members["interface"@], inner));
    lemma_tool_interface_spec_is_value(value.interface, inner);
    assert(members.contains_key("configuration"@));
    assert(is_plain_json(members["configuration"@], inner));
    lemma_compact_is_value(value.configuration, inner);
    let pairs = seq![
        ("interface"@, tool_interface_spec_text(value.interface)),
        ("configuration"@, compact(value.configuration)),
    ];
    assert(are_fields(pairs, Shape::Tool));
    lemma_object_is_value(pairs, Shape::Tool);
}

proof fn lemma_turn_execution_limits_spec_is_value(value: TurnExecutionLimitsSpec)
    ensures
        is_value(turn_execution_limits_spec_text(value), Shape::Limits),
{
    lemma_limits_names();
    lemma_decimal_is_value(value.max_model_iterations as nat);
    lemma_decimal_is_value(value.max_function_calls as nat);
    let pairs = seq![
        ("max_model_iterations"@, decimal(value.max_model_iterations as nat)),
        ("max_function_calls"@, decimal(value.max_function_calls as nat)),
    ];
    assert(are_fields(pairs, Shape::Limits));
    lemma_object_is_value(pairs, Shape::Limits);
}

proof fn lemma_commit_message_is_value(value: CommitMessageView)
    ensures
        is_value(commit_message_text(value), Shape::Message),
{
    lemma_message_names();
    lemma_quoted_is_value(value.subject);
    lemma_optional_is_value(value.body);
    let pairs = seq![
        ("subject"@, json_quoted(value.subject)),
        ("body"@, optional_text_text(value.body)),
    ];
    assert(are_fields(pairs, Shape::Message));
    lemma_object_is_value(pairs, Shape::Message);
}

proof fn lemma_revision_metadata_is_value(value: RevisionMetadataView)
    ensures
        is_value(revision_metadata_text(value), Shape::Metadata),
{
    lemma_metadata_names();
    lemma_optional_is_value(value.author);
    lemma_optional_is_value(value.created_at);
    let pairs = seq![
        ("author"@, optional_text_text(value.author)),
        ("created_at"@, optional_text_text(value.created_at)),
    ];
    assert(are_fields(pairs, Shape::Metadata));
    lemma_object_is_value(pairs, Shape::Metadata);
}

proof fn lemma_templates_is_value(values: Map<Seq<char>, Seq<char>>)
    ensures
        is_value(templates_text(values), Shape::Templates),
{
    let pairs = templates_fields(values);
    assert forall|i: int| 0 <= i < pairs.len() implies is_value(
        (#[trigger] pairs[i]).1,
        Shape::Text,
    ) by {
        lemma_quoted_is_value(values[sorted_keys(values.dom())[i]]);
    }
    lemma_table_is_value(pairs, Shape::Templates, Shape::Text);
}

proof fn lemma_prompt_spec_is_value(value: PromptSpecView)
    ensures
        is_value(prompt_spec_text(value), Shape::Prompts),
{
    lemma_prompts_names();
    lemma_quoted_is_value(value.system);
    lemma_templates_is_value(value.templates);
    let pairs = seq![
        ("system"@, json_quoted(value.system)),
        ("templates"@, templates_text(value.templates)),
    ];
    assert(are_fields(pairs, Shape::Prompts));
    lemma_object_is_value(pairs, Shape::Prompts);
}

proof fn lemma_hooks_is_value(values: Seq<ComponentRefView>, depth: nat)
    requires
        is_plain_json(hooks_json(values), depth),
    ensures
        is_value(hooks_text(values), Shape::Hooks),
{
    let inner = (depth - 1) as nat;
    let documents = hooks_json(values)->Array_0;
    let items = values.map_values(|value: ComponentRefView| component_ref_text(value));
    assert forall|i: int| 0 <= i < items.len() implies is_value(
        #[trigger] items[i],
        Shape::Component,
    ) by {
        assert(is_plain_json(documents[i], inner));
        lemma_component_ref_is_value(values[i], inner);
    }
    lemma_list_is_value(items, Shape::Hooks, Shape::Component);
}

proof fn lemma_runtime_policy_spec_is_value(value: RuntimePolicySpecView, depth: nat)
    requires
        is_plain_json(runtime_policy_spec_json(value), depth),
    ensures
        is_value(runtime_policy_spec_text(value), Shape::Runtime),
{
    lemma_runtime_names();
    let inner = (depth - 1) as nat;
    let members = runtime_policy_spec_json(value)->Object_0;
    assert(members.contains_key("context_builder"@));
    assert(is_plain_json(members["context_builder"@], inner));
    lemma_component_ref_is_value(value.context_builder, inner);
    assert(members.contains_key("hooks"@));
    assert(is_plain_json(members["hooks"@], inner));
    lemma_hooks_is_value(value.hooks, inner);
    lemma_turn_execution_limits_spec_is_value(value.turn_execution_limits);
    let pairs = seq![
        ("context_builder"@, component_ref_text(value.context_builder)),
        ("hooks"@, hooks_text(value.hooks)),
        ("turn_execution_limits"@, turn_execution_limits_spec_text(value.turn_execution_limits)),
    ];
    assert(are_fields(pairs, Shape::Runtime));
    lemma_object_is_value(pairs, Shape::Runtime);
}

proof fn lemma_tools_is_value(values: Map<Seq<char>, ToolSpecView>, depth: nat)
    requires
        is_plain_json(tools_json(values), depth),
    ensures
        is_value(tools_text(values), Shape::Tools),
{
    let inner = (depth - 1) as nat;
    let members = tools_json(values)->Object_0;
    let keys = sorted_keys(values.dom());
    let pairs = tools_fields(values);
    assert(members.dom() =~= values.dom());
    lemma_finite_is_walked(values.dom());
    assert forall|i: int| 0 <= i < pairs.len() implies is_value(
        (#[trigger] pairs[i]).1,
        Shape::Tool,
    ) by {
        assert(keys.contains(keys[i]));
        assert(members.contains_key(keys[i]));
        assert(is_plain_json(members[keys[i]], inner));
        lemma_tool_spec_is_value(values[keys[i]], inner);
    }
    lemma_table_is_value(pairs, Shape::Tools, Shape::Tool);
}

proof fn lemma_agent_spec_is_value(value: AgentSpecView, depth: nat)
    requires
        is_plain_json(agent_spec_json(value), depth),
    ensures
        is_value(agent_spec_text(value), Shape::Spec),
{
    lemma_spec_names();
    let inner = (depth - 1) as nat;
    let members = agent_spec_json(value)->Object_0;
    lemma_quoted_is_value(value.agent_id);
    assert(members.contains_key("model"@));
    assert(is_plain_json(members["model"@], inner));
    lemma_model_spec_is_value(value.model, inner);
    lemma_prompt_spec_is_value(value.prompts);
    assert(members.contains_key("tools"@));
    assert(is_plain_json(members["tools"@], inner));
    lemma_tools_is_value(value.tools, inner);
    assert(members.contains_key("runtime"@));
    assert(is_plain_json(members["runtime"@], inner));
    lemma_runtime_policy_spec_is_value(value.runtime, inner);
    lemma_agent_build_ref_is_value(value.build);
    let pairs = seq![
        ("agent_id"@, json_quoted(value.agent_id)),
        ("model"@, model_spec_text(value.model)),
        ("prompts"@, prompt_spec_text(value.prompts)),
        ("tools"@, tools_text(value.tools)),
        ("runtime"@, runtime_policy_spec_text(value.runtime)),
        ("build"@, agent_build_ref_text(value.build)),
    ];
    assert(are_fields(pairs, Shape::Spec));
    lemma_object_is_value(pairs, Shape::Spec);
}

proof fn lemma_parents_is_value(values: Seq<Seq<char>>)
    ensures
        is_value(parents_text(values), Shape::Parents),
{
    let items = values.map_values(|value: Seq<char>| json_quoted(value));
    assert forall|i: int| 0 <= i < items.len() implies is_value(#[trigger] items[i], Shape::Text) by {
        lemma_quoted_is_value(values[i]);
    }
    lemma_list_is_value(items, Shape::Parents, Shape::Text);
}

/// The text of a revision is a value of its shape.
pub proof fn lemma_agent_revision_is_value(value: AgentRevisionView, depth: nat)
    requires
        is_plain_json(agent_revision_json(value), depth),
    ensures
        is_value(agent_revision_text(value), Shape::Revision),
{
    lemma_revision_names();
    let inner = (depth - 1) as nat;
    let members = agent_revision_json(value)->Object_0;
    lemma_quoted_is_value(value.revision_id);
    lemma_quoted_is_value(value.agent_id);
    lemma_quoted_is_value(value.spec_digest);
    assert(members.contains_key("spec"@));
    assert(is_plain_json(members["spec"@], inner));
    lemma_agent_spec_is_value(value.spec, inner);
    lemma_parents_is_value(value.parents);
    lemma_commit_message_is_value(value.message);
    lemma_revision_metadata_is_value(value.metadata);
    let pairs = seq![
        ("revision_id"@, json_quoted(value.revision_id)),
        ("agent_id"@, json_quoted(value.agent_id)),
        ("spec_digest"@, json_quoted(value.spec_digest)),
        ("spec"@, agent_spec_text(value.spec)),
        ("parents"@, parents_text(value.parents)),
        ("message"@, commit_message_text(value.message)),
        ("metadata"@, revision_metadata_text(value.metadata)),
    ];
    assert(are_fields(pairs, Shape::Revision));
    lemma_object_is_value(pairs, Shape::Revision);
}

/// The text of a revision holds each of its fields once.
pub proof fn law_written_revision_is_unambiguous(revision: AgentRevisionView, depth: nat)
    requires
        is_plain_json(agent_revision_json(revision), depth),
    ensures
        is_unambiguous(agent_revision_text(revision), Shape::Revision),
{
    lemma_agent_revision_is_value(revision, depth);
    lemma_value_is_unambiguous(agent_revision_text(revision), Shape::Revision);
}

/// The text of settings holds each of them once.
pub proof fn law_written_settings_are_unambiguous(config: DesktopConfigView)
    ensures
        is_unambiguous(config_text(config), Shape::Settings),
{
    lemma_settings_names();
    lemma_quoted_is_value(config.base_url);
    lemma_quoted_is_value(config.model);
    lemma_quoted_is_value(config.api_key);
    lemma_quoted_is_value(config.qianfan_api_key);
    lemma_quoted_is_value(config.workspace);
    lemma_decimal_is_value(config.max_context_tokens as nat);
    lemma_decimal_is_value(config.max_model_iterations as nat);
    let pairs = seq![
        ("base_url"@, json_quoted(config.base_url)),
        ("model"@, json_quoted(config.model)),
        ("api_key"@, json_quoted(config.api_key)),
        ("qianfan_api_key"@, json_quoted(config.qianfan_api_key)),
        ("workspace"@, json_quoted(config.workspace)),
        ("max_context_tokens"@, decimal(config.max_context_tokens as nat)),
        ("max_model_iterations"@, decimal(config.max_model_iterations as nat)),
    ];
    assert(are_fields(pairs, Shape::Settings));
    let line = seq!['\n'];
    let lead = seq![' ', ' '];
    let gap = seq![' '];
    lemma_record_is_value(pairs, Shape::Settings, line, lead, gap);
    assert(config_text(config) == record_text(pairs, line, lead, gap)) by {
        reveal_strlit("");
        reveal_strlit("  ");
        reveal_strlit(": ");
        reveal_strlit("{\n");
        reveal_strlit(",\n");
        reveal_strlit("\n");
        reveal_strlit("}");
        assert(""@ + "  "@ =~= lead);
        let settings = config_spelling(config)->Object_0;
        let parts = laid_out_fields(settings, lead);
        lemma_laid_out_fields(settings, lead);
        assert(parts =~= member_texts(pairs, lead, gap)) by {
            assert forall|i: int| 0 <= i < pairs.len() implies #[trigger] parts[i] == member_texts(
                pairs,
                lead,
                gap,
            )[i] by {
                assert(laid_out(settings[i].1, lead) == pairs[i].1);
                assert(settings[i].0 == pairs[i].0);
                assert(parts[i] =~= member_text(pairs[i].0, pairs[i].1, lead, gap));
            }
        }
        assert(",\n"@ =~= seq![','] + line);
        assert(config_text(config) =~= record_text(pairs, line, lead, gap));
    }
    lemma_value_is_unambiguous(config_text(config), Shape::Settings);
}

proof fn lemma_laid_out_fields(fields: Seq<(Seq<char>, Spelling)>, margin: Seq<char>)
    ensures
        laid_out_fields(fields, margin).len() == fields.len(),
        forall|i: int|
            0 <= i < fields.len() ==> #[trigger] laid_out_fields(fields, margin)[i] == margin
                + json_quoted(fields[i].0) + ": "@ + laid_out(fields[i].1, margin),
    decreases fields.len(),
{
    if fields.len() > 0 {
        lemma_laid_out_fields(fields.drop_last(), margin);
    }
}

} // verus!
